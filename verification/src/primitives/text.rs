//! Text forms of network identities and the bytes of texts.
use vstd::prelude::*;
use crate::clock::{debug_str, format_debug_str};
use crate::encoding::push_str;
use crate::primitives::primitives::{network_display, NetworkId, NetworkIdView};

verus! {

/// Text that `Debug` gives a network identity.
pub open spec fn network_debug(n: NetworkIdView) -> Seq<char> {
    match n {
        NetworkIdView::Operator { name, country } => "Operator { name: "@ + debug_str(name) + ", country: "@ + debug_str(
            country,
        ) + " }"@,
        _ => network_display(n),
    }
}

/// `Debug` text of a network identity.
pub fn network_debug_text(n: &NetworkId) -> (s: String)
    ensures
        s@ == network_debug(n@),
{
    match n {
        NetworkId::Operator { name, country } => {
            let mut s = "Operator { name: ".to_string();
            s.append(format_debug_str(name.as_str()).as_str());
            s.append(", country: ");
            s.append(format_debug_str(country.as_str()).as_str());
            s.append(" }");
            s
        },
        _ => n.display(),
    }
}

/// UTF-8 bytes of a text.
pub fn text_bytes(text: &String) -> (b: Vec<u8>)
    ensures
        b@ == vstd::utf8::encode_utf8(text@),
{
    let mut bytes: Vec<u8> = Vec::new();
    push_str(&mut bytes, text.as_str());
    assert(bytes@ =~= vstd::utf8::encode_utf8(text@));
    bytes
}

} // verus!
