//! Random bytes from the operating system.
use vstd::prelude::*;
use crate::encoding::u64_from_le;

verus! {

/// `getrandom::getrandom` into a 32-byte buffer: the random bytes, or the
/// text of the error the source reported. Nothing is promised of the bytes.
#[verifier::external_body]
pub fn random_32() -> (r: core::result::Result<[u8; 32], String>) {
    let mut buf = [0u8; 32];
    match getrandom::getrandom(&mut buf) {
        Ok(()) => Ok(buf),
        Err(e) => Err(e.to_string()),
    }
}

/// `rand::RngCore::try_fill_bytes` on `rand::rngs::OsRng`, the operating
/// system's generator, into 8 bytes: the bytes, or `None` when the source
/// reports an error. Nothing is promised of the bytes.
#[verifier::external_body]
fn os_random_8() -> (r: Option<[u8; 8]>) {
    let mut buf = [0u8; 8];
    match rand::RngCore::try_fill_bytes(&mut rand::rngs::OsRng, &mut buf) {
        Ok(()) => Some(buf),
        Err(_) => None,
    }
}

/// A random word from the operating system's generator, read little-endian;
/// `None` when the generator fails.
pub fn random_u64() -> (r: Option<u64>) {
    match os_random_8() {
        Some(b) => Some(u64_from_le(b.as_slice())),
        None => None,
    }
}

/// A random 32-bit word: the low half of a random word; `None` when the
/// generator fails.
pub fn random_u32() -> (r: Option<u32>) {
    match random_u64() {
        Some(w) => Some((w % 0x1_0000_0000) as u32),
        None => None,
    }
}

} // verus!
