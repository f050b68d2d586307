//! Byte-level encodings shared by identifiers, logs and storage: decimal
//! text of integers, little-endian words and UTF-8 text.
use vstd::prelude::*;
use vstd::string::StringSliceAdditionalSpecFns;

verus! {

/// ASCII decimal digits of `n`, most significant first, without leading zeros.
pub open spec fn decimal(n: nat) -> Seq<u8>
    decreases n,
{
    if n < 10 {
        seq![(48 + n) as u8]
    } else {
        decimal(n / 10).push((48 + n % 10) as u8)
    }
}

/// Appends the decimal text of `n` to `out`.
pub fn push_decimal(out: &mut Vec<u8>, n: u64)
    ensures
        final(out)@ == old(out)@ + decimal(n as nat),
    decreases n,
{
    if n < 10 {
        out.push((48 + n) as u8);
    } else {
        push_decimal(out, n / 10);
        out.push((48 + n % 10) as u8);
    }
}

/// Appends the UTF-8 bytes of `s` to `out`.
pub fn push_str(out: &mut Vec<u8>, s: &str)
    ensures
        final(out)@ == old(out)@ + s.spec_bytes(),
{
    let mut bytes = s.as_bytes_vec();
    out.append(&mut bytes);
}

/// Little-endian encoding of a 32-bit word, as `u32::to_le_bytes` gives it:
/// the low four of its eight little-endian bytes.
pub fn u32_to_le(v: u32) -> (out: Vec<u8>)
    ensures
        out@ == le_bytes(v as nat).subrange(0, 4),
{
    let all = u64_to_le(v as u64);
    let mut out: Vec<u8> = Vec::new();
    let mut i: usize = 0;
    while i < 4
        invariant
            i <= 4,
            all@ == le_bytes(v as nat),
            out@ == all@.subrange(0, i as int),
        decreases 4 - i,
    {
        out.push(all[i]);
        i = i + 1;
        assert(out@ =~= all@.subrange(0, i as int));
    }
    out
}

/// Value of a little-endian byte sequence.
pub open spec fn le_value(b: Seq<u8>) -> nat
    decreases b.len(),
{
    if b.len() == 0 {
        0
    } else {
        b[0] as nat + 256 * le_value(b.drop_first())
    }
}

/// The eight little-endian bytes of `v`.
pub open spec fn le_bytes(v: nat) -> Seq<u8> {
    Seq::new(8, |i: int| ((v / pow256(i)) % 256) as u8)
}

pub open spec fn pow256(i: int) -> nat
    decreases i,
{
    if i <= 0 {
        1
    } else {
        256 * pow256(i - 1)
    }
}

/// A word's eight little-endian bytes give the word back.
pub proof fn law_le_round_trip(v: u64)
    ensures
        le_bytes(v as nat).len() == 8,
        le_value(le_bytes(v as nat)) == v,
{
    let b = le_bytes(v as nat);
    reveal_with_fuel(pow256, 8);
    assert(pow256(1) == 0x100 && pow256(2) == 0x1_0000 && pow256(3) == 0x100_0000 && pow256(4) == 0x1_0000_0000);
    assert(pow256(5) == 0x100_0000_0000 && pow256(6) == 0x1_0000_0000_0000 && pow256(7) == 0x100_0000_0000_0000);
    let b1 = b.drop_first();
    let b2 = b1.drop_first();
    let b3 = b2.drop_first();
    let b4 = b3.drop_first();
    let b5 = b4.drop_first();
    let b6 = b5.drop_first();
    let b7 = b6.drop_first();
    let b8 = b7.drop_first();
    assert(b8.len() == 0);
    assert(le_value(b8) == 0);
    assert(le_value(b7) == b[7] as nat);
    assert(le_value(b6) == b[6] + 256 * le_value(b7));
    assert(le_value(b5) == b[5] + 256 * le_value(b6));
    assert(le_value(b4) == b[4] + 256 * le_value(b5));
    assert(le_value(b3) == b[3] + 256 * le_value(b4));
    assert(le_value(b2) == b[2] + 256 * le_value(b3));
    assert(le_value(b1) == b[1] + 256 * le_value(b2));
    assert(le_value(b) == b[0] + 256 * le_value(b1));
    let x0: u64 = v % 0x100;
    let x1: u64 = (v / 0x100) % 0x100;
    let x2: u64 = (v / 0x1_0000) % 0x100;
    let x3: u64 = (v / 0x100_0000) % 0x100;
    let x4: u64 = (v / 0x1_0000_0000) % 0x100;
    let x5: u64 = (v / 0x100_0000_0000) % 0x100;
    let x6: u64 = (v / 0x1_0000_0000_0000) % 0x100;
    let x7: u64 = (v / 0x100_0000_0000_0000) % 0x100;
    assert(pow256(0) == 1);
    assert(v as nat / pow256(0) == v as nat / 1);
    assert(((v as nat / pow256(0)) % 256) < 256);
    assert(b[0] as int == (v as nat / pow256(0)) % 256);
    assert(b[0] as int == x0);
    assert(pow256(1) == 0x100);
    assert(v as nat / pow256(1) == v as nat / 0x100);
    assert(((v as nat / pow256(1)) % 256) < 256);
    assert(b[1] as int == (v as nat / pow256(1)) % 256);
    assert(b[1] as int == x1);
    assert(pow256(2) == 0x1_0000);
    assert(v as nat / pow256(2) == v as nat / 0x1_0000);
    assert(((v as nat / pow256(2)) % 256) < 256);
    assert(b[2] as int == (v as nat / pow256(2)) % 256);
    assert(b[2] as int == x2);
    assert(pow256(3) == 0x100_0000);
    assert(v as nat / pow256(3) == v as nat / 0x100_0000);
    assert(((v as nat / pow256(3)) % 256) < 256);
    assert(b[3] as int == (v as nat / pow256(3)) % 256);
    assert(b[3] as int == x3);
    assert(pow256(4) == 0x1_0000_0000);
    assert(v as nat / pow256(4) == v as nat / 0x1_0000_0000);
    assert(((v as nat / pow256(4)) % 256) < 256);
    assert(b[4] as int == (v as nat / pow256(4)) % 256);
    assert(b[4] as int == x4);
    assert(pow256(5) == 0x100_0000_0000);
    assert(v as nat / pow256(5) == v as nat / 0x100_0000_0000);
    assert(((v as nat / pow256(5)) % 256) < 256);
    assert(b[5] as int == (v as nat / pow256(5)) % 256);
    assert(b[5] as int == x5);
    assert(pow256(6) == 0x1_0000_0000_0000);
    assert(v as nat / pow256(6) == v as nat / 0x1_0000_0000_0000);
    assert(((v as nat / pow256(6)) % 256) < 256);
    assert(b[6] as int == (v as nat / pow256(6)) % 256);
    assert(b[6] as int == x6);
    assert(pow256(7) == 0x100_0000_0000_0000);
    assert(v as nat / pow256(7) == v as nat / 0x100_0000_0000_0000);
    assert(((v as nat / pow256(7)) % 256) < 256);
    assert(b[7] as int == (v as nat / pow256(7)) % 256);
    assert(b[7] as int == x7);

    assert(v == x0 + 256 * (x1 + 256 * (x2 + 256 * (x3 + 256 * (x4 + 256 * (x5 + 256 * (x6 + 256 * x7))))))) by (bit_vector)
        requires
            x0 == v % 0x100,
            x1 == (v / 0x100) % 0x100,
            x2 == (v / 0x1_0000) % 0x100,
            x3 == (v / 0x100_0000) % 0x100,
            x4 == (v / 0x1_0000_0000) % 0x100,
            x5 == (v / 0x100_0000_0000) % 0x100,
            x6 == (v / 0x1_0000_0000_0000) % 0x100,
            x7 == (v / 0x100_0000_0000_0000) % 0x100,
    ;
}

/// Little-endian encoding of a word, as `u64::to_le_bytes` gives it.
pub fn u64_to_le(v: u64) -> (out: Vec<u8>)
    ensures
        out@ == le_bytes(v as nat),
{
    let mut out: Vec<u8> = Vec::new();
    let mut x: u64 = v;
    let mut i: usize = 0;
    assert(pow256(0) == 1);
    while i < 8
        invariant
            0 <= i <= 8,
            out@.len() == i,
            x as nat == v as nat / pow256(i as int),
            forall|j: int| 0 <= j < i ==> out@[j] == ((v as nat / pow256(j)) % 256) as u8,
        decreases 8 - i,
    {
        proof {
            lemma_pow256_pos(i as int);
            lemma_div_div(v as nat, pow256(i as int), 256);
        }
        out.push((x % 256) as u8);
        x = x / 256;
        i = i + 1;
    }
    assert(out@ =~= le_bytes(v as nat));
    out
}

pub proof fn lemma_pow256_pos(i: int)
    ensures
        pow256(i) >= 1,
        i >= 0 ==> pow256(i + 1) == 256 * pow256(i),
    decreases i,
{
    if i > 0 {
        lemma_pow256_pos(i - 1);
    }
}

proof fn lemma_div_div(v: nat, a: nat, b: nat)
    requires
        a >= 1,
        b >= 1,
    ensures
        v / a / b == v / (a * b),
{
    vstd::arithmetic::div_mod::lemma_div_denominator(v as int, a as int, b as int);
}

/// The word whose little-endian bytes are the first eight of `b`, as
/// `u64::from_le_bytes` reads them.
pub fn u64_from_le(b: &[u8]) -> (v: u64)
    requires
        b@.len() >= 8,
    ensures
        v as nat == le_value(b@.subrange(0, 8)),
{
    let mut v: u64 = 0;
    let mut i: usize = 8;
    assert(pow256(0) == 1);
    assert(b@.subrange(8, 8).len() == 0);
    while i > 0
        invariant
            0 <= i <= 8,
            b@.len() >= 8,
            v as nat == le_value(b@.subrange(i as int, 8)),
            (v as nat) < pow256(8 - i),
        decreases i,
    {
        proof {
            lemma_pow256_pos(8 - i);
            assert(b@.subrange(i - 1, 8).drop_first() =~= b@.subrange(i as int, 8));
            assert(pow256(8 - i) <= pow256(7)) by {
                lemma_pow256_mono(8 - i, 7);
            }
            assert(pow256(7) == 72057594037927936) by {
                reveal_with_fuel(pow256, 8);
            }
        }
        i = i - 1;
        proof {
            let p = pow256(7 - i);
            assert(b[i as int] as nat + 256 * (v as nat) < 256 * p) by (nonlinear_arith)
                requires (v as nat) < p, b[i as int] < 256;
        }
        v = (b[i] as u64) + 256 * v;
    }
    assert(b@.subrange(0, 8) =~= b@.subrange(i as int, 8));
    v
}

pub proof fn lemma_pow256_mono(i: int, j: int)
    requires
        0 <= i <= j,
    ensures
        pow256(i) <= pow256(j),
    decreases j - i,
{
    if i < j {
        lemma_pow256_mono(i, j - 1);
        lemma_pow256_pos(j - 1);
    }
}

} // verus!

verus! {

/// Equality of two strings.
pub fn str_eq(a: &str, b: &str) -> (r: bool)
    ensures
        r == (a@ == b@),
{
    let x = a.as_bytes_vec();
    let y = b.as_bytes_vec();
    if x.len() != y.len() {
        proof {
            if a@ == b@ {
                assert(x@ == y@);
            }
        }
        return false;
    }
    let mut i: usize = 0;
    while i < x.len()
        invariant
            0 <= i <= x@.len(),
            x@.len() == y@.len(),
            x@ == a.spec_bytes(),
            y@ == b.spec_bytes(),
            forall|j: int| 0 <= j < i ==> x@[j] == y@[j],
        decreases x@.len() - i,
    {
        if x[i] != y[i] {
            proof {
                if a@ == b@ {
                    assert(x@ == y@);
                }
            }
            return false;
        }
        i = i + 1;
    }
    proof {
        assert(x@ =~= y@);
        vstd::utf8::encode_utf8_decode_utf8(a@);
        vstd::utf8::encode_utf8_decode_utf8(b@);
    }
    true
}

} // verus!

verus! {

/// Decimal text of `n`.
pub open spec fn decimal_text(n: nat) -> Seq<char> {
    decimal(n).map_values(|b: u8| b as char)
}

/// One-character text of a decimal digit.
fn digit_str(d: u64) -> (s: &'static str)
    requires
        d < 10,
    ensures
        s@ == seq![(48 + d) as char],
{
    proof {
        reveal_strlit("0");
        reveal_strlit("1");
        reveal_strlit("2");
        reveal_strlit("3");
        reveal_strlit("4");
        reveal_strlit("5");
        reveal_strlit("6");
        reveal_strlit("7");
        reveal_strlit("8");
        reveal_strlit("9");
    }
    let s = if d == 0 {
        "0"
    } else if d == 1 {
        "1"
    } else if d == 2 {
        "2"
    } else if d == 3 {
        "3"
    } else if d == 4 {
        "4"
    } else if d == 5 {
        "5"
    } else if d == 6 {
        "6"
    } else if d == 7 {
        "7"
    } else if d == 8 {
        "8"
    } else {
        "9"
    };
    assert(s@ =~= seq![(48 + d) as char]);
    s
}

/// Appends the decimal text of `n` to `out`.
pub fn push_decimal_text(out: &mut String, n: u64)
    ensures
        final(out)@ == old(out)@ + decimal_text(n as nat),
    decreases n,
{
    if n < 10 {
        out.append(digit_str(n));
        assert(decimal_text(n as nat) =~= seq![(48 + n) as char]);
    } else {
        push_decimal_text(out, n / 10);
        out.append(digit_str(n % 10));
        assert(decimal_text(n as nat) =~= decimal_text((n / 10) as nat) + seq![(48 + n % 10) as char]);
    }
}

/// `String::from_utf8`: the text that the bytes encode, when they are valid
/// UTF-8; `None` otherwise.
#[verifier::external_body]
pub(crate) fn string_from_utf8(bytes: Vec<u8>) -> (r: Option<String>)
    ensures
        r is Some <==> vstd::utf8::valid_utf8(bytes@),
        r matches Some(s) ==> s@ == vstd::utf8::decode_utf8(bytes@),
{
    String::from_utf8(bytes).ok()
}

/// Whether `p` occurs in `s`.
pub open spec fn contains_text(s: Seq<char>, p: Seq<char>) -> bool {
    exists|i: int| 0 <= i && i + p.len() <= s.len() && #[trigger] s.subrange(i, i + p.len()) == p
}

/// Whether `pattern` occurs in `s`.
pub fn str_contains(s: &str, pattern: &str) -> (r: bool)
    ensures
        r == contains_text(s@, pattern@),
{
    let n = s.unicode_len();
    let m = pattern.unicode_len();
    if m > n {
        proof {
            assert forall|i: int| !(0 <= i && i + pattern@.len() <= s@.len() && #[trigger] s@.subrange(i, i + pattern@.len())
                == pattern@) by {}
        }
        return false;
    }
    let mut i: usize = 0;
    while i <= n - m
        invariant
            n == s@.len(),
            m == pattern@.len(),
            m <= n,
            i <= n - m + 1,
            forall|k: int| 0 <= k < i ==> #[trigger] s@.subrange(k, k + m) != pattern@,
        decreases n - m + 1 - i,
    {
        let mut j: usize = 0;
        let mut same = true;
        while j < m
            invariant
                n == s@.len(),
                m == pattern@.len(),
                i + m <= n,
                j <= m,
                same == (forall|t: int| 0 <= t < j ==> s@[i + t] == pattern@[t]),
            decreases m - j,
        {
            if s.get_char(i + j) != pattern.get_char(j) {
                same = false;
            }
            j = j + 1;
        }
        if same {
            assert(s@.subrange(i as int, i + m) =~= pattern@);
            return true;
        }
        proof {
            let t = choose|t: int| 0 <= t < m && s@[i + t] != pattern@[t];
            assert(s@.subrange(i as int, i + m)[t] != pattern@[t]);
        }
        i = i + 1;
    }
    proof {
        assert forall|k: int| !(0 <= k && k + pattern@.len() <= s@.len() && #[trigger] s@.subrange(k, k + pattern@.len())
            == pattern@) by {
            if 0 <= k && k + m <= n {
                assert(s@.subrange(k, k + m) != pattern@);
            }
        }
    }
    false
}

/// Value of a hexadecimal digit (either case).
pub open spec fn hex_value(c: u8) -> Option<int> {
    if 48 <= c <= 57 {
        Some(c - 48)
    } else if 65 <= c <= 70 {
        Some(c - 55)
    } else if 97 <= c <= 102 {
        Some(c - 87)
    } else {
        None
    }
}

/// Bytes that hexadecimal text stands for: none unless it has an even
/// number of characters, all hexadecimal digits.
pub open spec fn hex_decoded(b: Seq<u8>) -> Option<Seq<u8>> {
    if b.len() % 2 == 0 && forall|i: int| 0 <= i < b.len() ==> (#[trigger] hex_value(b[i])) is Some {
        Some(Seq::new((b.len() / 2) as nat, |i: int| (16 * hex_value(b[2 * i])->0 + hex_value(b[2 * i + 1])->0) as u8))
    } else {
        None
    }
}

/// Value of a hexadecimal digit (either case), if the byte is one.
fn hex_digit_value(c: u8) -> (r: Option<u8>)
    ensures
        r is Some <==> hex_value(c) is Some,
        r matches Some(v) ==> v as int == hex_value(c)->0 && v < 16,
{
    if 48 <= c && c <= 57 {
        Some(c - 48)
    } else if 65 <= c && c <= 70 {
        Some(c - 55)
    } else if 97 <= c && c <= 102 {
        Some(c - 87)
    } else {
        None
    }
}

/// The bytes that hexadecimal text (either case) stands for, two digits a
/// byte, high half first (what `hex::decode` gives); `None` for text of odd
/// length or with another character.
pub fn hex_decode(text: &str) -> (r: Option<Vec<u8>>)
    ensures
        r is Some <==> hex_decoded(vstd::utf8::encode_utf8(text@)) is Some,
        r matches Some(v) ==> v@ == hex_decoded(vstd::utf8::encode_utf8(text@))->0,
{
    let b = text.as_bytes_vec();
    let ghost e = vstd::utf8::encode_utf8(text@);
    assert(b@ == e);
    if b.len() % 2 != 0 {
        return None;
    }
    let half = b.len() / 2;
    let mut out: Vec<u8> = Vec::new();
    let mut i: usize = 0;
    while i < half
        invariant
            b@ == e,
            e == vstd::utf8::encode_utf8(text@),
            e.len() % 2 == 0,
            half == e.len() / 2,
            0 <= i <= half,
            forall|j: int| 0 <= j < 2 * i ==> (#[trigger] hex_value(e[j])) is Some,
            out@.len() == i,
            forall|k: int| 0 <= k < i ==> #[trigger] out@[k] == (16 * hex_value(e[2 * k])->0 + hex_value(e[2 * k + 1])->0) as u8,
        decreases half - i,
    {
        let hi = match hex_digit_value(b[2 * i]) {
            Some(v) => v,
            None => {
                assert(!(hex_value(e[2 * i as int]) is Some));
                assert(0 <= 2 * i < e.len());
                assert(hex_decoded(e) is None);
                return None;
            },
        };
        let lo = match hex_digit_value(b[2 * i + 1]) {
            Some(v) => v,
            None => {
                assert(!(hex_value(e[2 * i + 1]) is Some));
                assert(0 <= 2 * i + 1 < e.len());
                assert(hex_decoded(e) is None);
                return None;
            },
        };
        out.push(16 * hi + lo);
        proof {
            assert forall|j: int| 0 <= j < 2 * (i + 1) implies (#[trigger] hex_value(e[j])) is Some by {
                if j >= 2 * i {
                    assert(j == 2 * i || j == 2 * i + 1);
                }
            }
        }
        i = i + 1;
    }
    assert(out@ =~= hex_decoded(e)->0);
    Some(out)
}

/// Value of decimal digits.
pub open spec fn digits_value(d: Seq<char>) -> nat
    decreases d.len(),
{
    if d.len() == 0 {
        0
    } else {
        10 * digits_value(d.drop_last()) + (d.last() as nat - 48) as nat
    }
}

/// Whether every character is an ASCII digit.
pub open spec fn all_digits(d: Seq<char>) -> bool {
    forall|i: int| 0 <= i < d.len() ==> '0' <= #[trigger] d[i] <= '9'
}

/// The number that text gives as `u32::from_str` reads it: an optional `+`
/// then at least one ASCII digit, at most `u32::MAX`.
pub open spec fn u32_text(s: Seq<char>) -> Option<u32> {
    let d = if s.len() > 0 && s[0] == '+' {
        s.drop_first()
    } else {
        s
    };
    if d.len() > 0 && all_digits(d) && digits_value(d) <= u32::MAX {
        Some(digits_value(d) as u32)
    } else {
        None
    }
}

proof fn lemma_digits_value_mono(d: Seq<char>, k: int)
    requires
        0 <= k <= d.len(),
        all_digits(d),
    ensures
        digits_value(d.subrange(0, k)) <= digits_value(d),
    decreases d.len() - k,
{
    if k < d.len() {
        lemma_digits_value_mono(d, k + 1);
        assert(d.subrange(0, k + 1).drop_last() =~= d.subrange(0, k));
        assert(d.subrange(0, k + 1).last() == d[k]);
    } else {
        assert(d.subrange(0, k) =~= d);
    }
}

/// Reads a decimal number as `u32::from_str` does: an optional `+` then at
/// least one ASCII digit, refusing anything else and values past `u32::MAX`.
pub fn parse_u32(s: &str) -> (r: Option<u32>)
    ensures
        r == u32_text(s@),
{
    let n = s.unicode_len();
    let mut start: usize = 0;
    if n > 0 && s.get_char(0) == '+' {
        start = 1;
    }
    let ghost d = if s@.len() > 0 && s@[0] == '+' {
        s@.drop_first()
    } else {
        s@
    };
    assert(d =~= s@.subrange(start as int, n as int));
    if start == n {
        return None;
    }
    let mut value: u64 = 0;
    let mut i: usize = start;
    while i < n
        invariant
            start <= i <= n,
            n == s@.len(),
            d == s@.subrange(start as int, n as int),
            d == (if s@.len() > 0 && s@[0] == '+' {
                s@.drop_first()
            } else {
                s@
            }),
            all_digits(d.subrange(0, i - start)),
            value == digits_value(d.subrange(0, i - start)),
            value <= u32::MAX,
        decreases n - i,
    {
        let c = s.get_char(i);
        assert(d[i - start] == c);
        assert(d.subrange(0, i + 1 - start).drop_last() =~= d.subrange(0, i - start));
        assert(d.subrange(0, i + 1 - start).last() == c);
        if !('0' <= c && c <= '9') {
            proof {
                assert(!all_digits(d));
            }
            return None;
        }
        let next = value * 10 + (c as u64 - 48);
        if next > u32::MAX as u64 {
            proof {
                assert(all_digits(d.subrange(0, i + 1 - start)));
                assert(digits_value(d.subrange(0, i + 1 - start)) == next);
                if all_digits(d) {
                    lemma_digits_value_mono(d, i + 1 - start);
                }
            }
            return None;
        }
        value = next;
        i = i + 1;
    }
    assert(d.subrange(0, n - start) =~= d);
    Some(value as u32)
}

} // verus!
