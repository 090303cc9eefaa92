//! Identifiers for houses, rooms and devices: each entity gets a freshly
//! generated 128-bit identifier at construction, and descriptions render it
//! in the canonical hyphenated form (8-4-4-4-12 lowercase hex digits).

use crate::text::{hex_pad_seq, push_hex_pad};
use vstd::prelude::*;

verus! {

/// Relies on uuid::Uuid::new_v4 to generate a fresh random identifier, read
/// out as its 128-bit value (uuid::Uuid::as_u128). The value is random, so
/// nothing is promised of it; uniqueness is probabilistic, not proved.
#[verifier::external_body]
pub(crate) fn fresh_id() -> u128 {
    uuid::Uuid::new_v4().as_u128()
}

/// The canonical text of an identifier: the 32 lowercase hex digits of its
/// 128-bit value, big-endian, with hyphens after digits 8, 12, 16 and 20.
pub open spec fn id_seq(id: u128) -> Seq<char> {
    hex_pad_seq(id as nat / 0x1000000000000000000000000, 8) + seq!['-'] + hex_pad_seq(
        (id as nat / 0x100000000000000000000) % 0x10000,
        4,
    ) + seq!['-'] + hex_pad_seq((id as nat / 0x10000000000000000) % 0x10000, 4) + seq!['-']
        + hex_pad_seq((id as nat / 0x1000000000000) % 0x10000, 4) + seq!['-'] + hex_pad_seq(
        id as nat % 0x1000000000000,
        12,
    )
}

/// Appends a hyphen character.
fn push_hyphen(s: &mut String)
    ensures
        final(s)@ == old(s)@ + seq!['-'],
{
    let ghost pre = s@;
    s.append("-");
    proof {
        reveal_strlit("-");
        assert(s@ =~= pre + seq!['-']);
    }
}

/// Renders an identifier in its canonical hyphenated form.
pub fn id_text(id: u128) -> (r: String)
    ensures
        r@ == id_seq(id),
{
    let mut s = String::new();
    push_hex_pad(&mut s, id / 0x1000000000000000000000000, 8);
    push_hyphen(&mut s);
    push_hex_pad(&mut s, (id / 0x100000000000000000000) % 0x10000, 4);
    push_hyphen(&mut s);
    push_hex_pad(&mut s, (id / 0x10000000000000000) % 0x10000, 4);
    push_hyphen(&mut s);
    push_hex_pad(&mut s, (id / 0x1000000000000) % 0x10000, 4);
    push_hyphen(&mut s);
    push_hex_pad(&mut s, id % 0x1000000000000, 12);
    proof {
        assert(s@ =~= id_seq(id));
    }
    s
}

} // verus!
