use sp_cdr_reconciliation_bc::clock::{format_debug_bytes, format_debug_strings};
use sp_cdr_reconciliation_bc::encoding::hex_decode;
use sp_cdr_reconciliation_bc::primitives::primitives::Blake2bHash;

#[test]
fn byte_array_text_matches_debug() {
    let mut b = [0u8; 32];
    for (i, x) in b.iter_mut().enumerate() {
        *x = (i as u8).wrapping_mul(37);
    }
    assert_eq!(format_debug_bytes(&b), format!("{:?}", b));
    assert_eq!(format_debug_bytes(&[0u8; 32]), format!("{:?}", [0u8; 32]));
}

#[test]
fn string_list_text_matches_debug() {
    let items = vec!["T-Mobile-DE".to_string(), "Vodafone \"UK\"".to_string(), String::new()];
    assert_eq!(format_debug_strings(&items), format!("{:?}", items));
    let empty: Vec<String> = Vec::new();
    assert_eq!(format_debug_strings(&empty), "[]");
}

#[test]
fn hex_text_round_trips() {
    let h = Blake2bHash([0xab; 32]);
    assert_eq!(h.to_hex(), "ab".repeat(32));
    let mut b = [0u8; 32];
    b[0] = 0x0f;
    b[31] = 0xf0;
    assert_eq!(Blake2bHash(b).to_hex(), hex::encode(b));
    assert_eq!(hex_decode("ABcd09"), Some(vec![0xab, 0xcd, 0x09]));
    assert_eq!(hex_decode(""), Some(vec![]));
    assert_eq!(hex_decode("abc"), None);
    assert_eq!(hex_decode("zz"), None);
}
