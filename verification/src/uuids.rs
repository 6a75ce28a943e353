//! Identifier generation and rendering. New identifiers come from the `uuid`
//! crate; the hyphenated text form is produced and specified here.

use crate::numfmt::hex_chars;
use crate::numfmt::u128_to_hex;
use vstd::assert_seqs_equal;
use vstd::prelude::*;

verus! {

/// Relies on uuid::Uuid::new_v4: a randomly generated version-4 UUID,
/// returned as its 128-bit value. Nothing is promised of the result.
#[verifier::external_body]
pub(crate) fn fresh_uuid_u128() -> u128 {
    uuid::Uuid::new_v4().as_u128()
}

/// The hyphenated lower-case text form of a 128-bit UUID value:
/// five hexadecimal groups of 8, 4, 4, 4 and 12 digits.
pub open spec fn uuid_chars(n: int) -> Seq<char> {
    hex_chars(n / 0x1000000000000000000000000, 8) + seq!['-'] + hex_chars(
        (n / 0x100000000000000000000) % 0x10000,
        4,
    ) + seq!['-'] + hex_chars((n / 0x10000000000000000) % 0x10000, 4) + seq!['-'] + hex_chars(
        (n / 0x1000000000000) % 0x10000,
        4,
    ) + seq!['-'] + hex_chars(n % 0x1000000000000, 12)
}

/// Renders a 128-bit UUID value in its hyphenated text form.
pub fn format_uuid(n: u128) -> (r: String)
    ensures
        r@ == uuid_chars(n as int),
{
    let mut s = u128_to_hex(n / 0x1000000000000000000000000, 8);
    s.append("-");
    let g2 = u128_to_hex((n / 0x100000000000000000000) % 0x10000, 4);
    s.append(g2.as_str());
    s.append("-");
    let g3 = u128_to_hex((n / 0x10000000000000000) % 0x10000, 4);
    s.append(g3.as_str());
    s.append("-");
    let g4 = u128_to_hex((n / 0x1000000000000) % 0x10000, 4);
    s.append(g4.as_str());
    s.append("-");
    let g5 = u128_to_hex(n % 0x1000000000000, 12);
    s.append(g5.as_str());
    proof {
        reveal_strlit("-");
        assert_seqs_equal!(s@, uuid_chars(n as int));
    }
    s
}

} // verus!
