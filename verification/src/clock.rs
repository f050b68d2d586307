//! Wall-clock time and the text forms that std derives for values.
use vstd::prelude::*;
use crate::encoding::{decimal_text, push_decimal_text};

verus! {

/// `std::time::SystemTime::now`, as whole seconds since the Unix epoch; 0
/// when the clock stands before the epoch. Nothing is promised of the value.
#[verifier::external_body]
pub fn unix_now() -> (t: u64) {
    std::time::SystemTime::now().duration_since(std::time::UNIX_EPOCH).map(|d| d.as_secs()).unwrap_or(0)
}

/// Last second, counted from the Unix epoch, of the year 262142, where
/// chrono's calendar ends.
pub const LATEST_SECONDS: u64 = 8_210_266_876_799;

/// The current time in whole seconds since the Unix epoch: 0 while the clock
/// stands before the epoch, and never past the end of chrono's calendar.
pub fn now_seconds() -> (t: u64)
    ensures
        t <= LATEST_SECONDS,
{
    let t = unix_now();
    if t > LATEST_SECONDS {
        LATEST_SECONDS
    } else {
        t
    }
}

/// Texts joined with `, ` between them.
pub open spec fn comma_joined(items: Seq<Seq<char>>) -> Seq<char>
    decreases items.len(),
{
    if items.len() == 0 {
        Seq::empty()
    } else if items.len() == 1 {
        items[0]
    } else {
        comma_joined(items.drop_last()) + ", "@ + items.last()
    }
}

/// Text that std's `Debug` gives a list of strings (`["a", "b"]`): each
/// string's `Debug` text, joined with `, `, in brackets.
pub open spec fn debug_string_list(items: Seq<Seq<char>>) -> Seq<char> {
    "["@ + comma_joined(items.map_values(|x: Seq<char>| debug_str(x))) + "]"@
}

/// `format!("{:?}", items)` for a vector of strings, built piece by piece.
pub fn format_debug_strings(items: &Vec<String>) -> (s: String)
    ensures
        s@ == debug_string_list(items@.map_values(|x: String| x@)),
{
    let ghost texts = items@.map_values(|x: String| x@).map_values(|x: Seq<char>| debug_str(x));
    let mut s = "[".to_string();
    let mut i: usize = 0;
    proof {
        reveal_strlit("[");
        reveal_strlit("]");
        reveal_strlit(", ");
        assert(texts.subrange(0, 0) =~= Seq::<Seq<char>>::empty());
    }
    while i < items.len()
        invariant
            0 <= i <= items@.len(),
            texts == items@.map_values(|x: String| x@).map_values(|x: Seq<char>| debug_str(x)),
            s@ == "["@ + comma_joined(texts.subrange(0, i as int)),
        decreases items@.len() - i,
    {
        let ghost before = s@;
        if i > 0 {
            s.append(", ");
        }
        let t = format_debug_str(items[i].as_str());
        s.append(t.as_str());
        proof {
            let p = texts.subrange(0, i + 1);
            assert(p.drop_last() =~= texts.subrange(0, i as int));
            assert(p.last() == t@);
            if i == 0 {
                assert(p.len() == 1);
                assert(s@ =~= "["@ + comma_joined(p));
            } else {
                assert(s@ =~= "["@ + comma_joined(p));
            }
        }
        i = i + 1;
    }
    proof {
        assert(texts.subrange(0, items@.len() as int) =~= texts);
    }
    s.append("]");
    s
}

/// Text that std's `Debug` gives a string: the string quoted, with its
/// special characters escaped.
pub uninterp spec fn debug_str(s: Seq<char>) -> Seq<char>;

/// `format!("{:?}", s)`: std's `Debug` text of a string. The contract names
/// the text as a function of the string.
#[verifier::external_body]
pub fn format_debug_str(s: &str) -> (t: String)
    ensures
        t@ == debug_str(s@),
{
    format!("{:?}", s)
}

/// Text that std's `Debug` gives a byte array (`[1, 2, 3]`): the decimal
/// texts of the bytes, joined with `, `, in brackets.
pub open spec fn debug_bytes(b: Seq<u8>) -> Seq<char> {
    "["@ + comma_joined(b.map_values(|x: u8| decimal_text(x as nat))) + "]"@
}

/// `format!("{:?}", bytes)` for a 32-byte array, built piece by piece.
pub fn format_debug_bytes(bytes: &[u8; 32]) -> (t: String)
    ensures
        t@ == debug_bytes(bytes@),
{
    let ghost texts = bytes@.map_values(|x: u8| decimal_text(x as nat));
    let mut s = "[".to_string();
    let mut i: usize = 0;
    proof {
        reveal_strlit("[");
        reveal_strlit("]");
        reveal_strlit(", ");
        assert(texts.subrange(0, 0) =~= Seq::<Seq<char>>::empty());
    }
    while i < 32
        invariant
            0 <= i <= 32,
            texts == bytes@.map_values(|x: u8| decimal_text(x as nat)),
            s@ == "["@ + comma_joined(texts.subrange(0, i as int)),
        decreases 32 - i,
    {
        if i > 0 {
            s.append(", ");
        }
        let ghost before = s@;
        push_decimal_text(&mut s, bytes[i] as u64);
        proof {
            let p = texts.subrange(0, i + 1);
            assert(p.drop_last() =~= texts.subrange(0, i as int));
            assert(p.last() == decimal_text(bytes@[i as int] as nat));
            assert(s@ =~= "["@ + comma_joined(p));
        }
        i = i + 1;
    }
    proof {
        assert(texts.subrange(0, 32) =~= texts);
    }
    s.append("]");
    s
}

} // verus!
