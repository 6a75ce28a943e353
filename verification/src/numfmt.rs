//! Decimal and hexadecimal rendering of integers, verified against
//! character-sequence specifications. Used by contracts that fix the exact
//! text of identifiers, messages and money amounts.

use vstd::assert_seqs_equal;
use vstd::prelude::*;

verus! {

/// The decimal digit character for a value in 0..10.
pub open spec fn digit_char(d: int) -> char {
    if d == 0 {
        '0'
    } else if d == 1 {
        '1'
    } else if d == 2 {
        '2'
    } else if d == 3 {
        '3'
    } else if d == 4 {
        '4'
    } else if d == 5 {
        '5'
    } else if d == 6 {
        '6'
    } else if d == 7 {
        '7'
    } else if d == 8 {
        '8'
    } else {
        '9'
    }
}

/// The usual decimal rendering of a non-negative integer, most significant
/// digit first, with no leading zeros (a lone zero for 0).
pub open spec fn decimal_chars(n: int) -> Seq<char>
    decreases n,
{
    if n < 10 {
        seq![digit_char(n)]
    } else {
        decimal_chars(n / 10).push(digit_char(n % 10))
    }
}

/// The hexadecimal digit character (lower case) for a value in 0..16.
pub open spec fn hex_digit_char(d: int) -> char {
    if d < 10 {
        digit_char(d)
    } else if d == 10 {
        'a'
    } else if d == 11 {
        'b'
    } else if d == 12 {
        'c'
    } else if d == 13 {
        'd'
    } else if d == 14 {
        'e'
    } else {
        'f'
    }
}

/// Fixed-width hexadecimal rendering (lower case, zero padded).
pub open spec fn hex_chars(n: int, width: nat) -> Seq<char>
    decreases width,
{
    if width == 0 {
        Seq::empty()
    } else {
        hex_chars(n / 16, (width - 1) as nat).push(hex_digit_char(n % 16))
    }
}

fn digit_str(d: u64) -> (r: &'static str)
    requires
        d < 10,
    ensures
        r@ == seq![digit_char(d as int)],
{
    proof {
        reveal_strlit("0");
        reveal_strlit("1");
        reveal_strlit("2");
        reveal_strlit("3");
        reveal_strlit("4");
        reveal_strlit("5");
        reveal_strlit("6");
        reveal_strlit("7");
        reveal_strlit("8");
        reveal_strlit("9");
    }
    let r = if d == 0 {
        "0"
    } else if d == 1 {
        "1"
    } else if d == 2 {
        "2"
    } else if d == 3 {
        "3"
    } else if d == 4 {
        "4"
    } else if d == 5 {
        "5"
    } else if d == 6 {
        "6"
    } else if d == 7 {
        "7"
    } else if d == 8 {
        "8"
    } else {
        "9"
    };
    proof {
        assert_seqs_equal!(r@, seq![digit_char(d as int)]);
    }
    r
}

fn hex_digit_str(d: u128) -> (r: &'static str)
    requires
        d < 16,
    ensures
        r@ == seq![hex_digit_char(d as int)],
{
    if d < 10 {
        let r = digit_str(d as u64);
        proof {
            assert_seqs_equal!(r@, seq![hex_digit_char(d as int)]);
        }
        r
    } else {
        proof {
            reveal_strlit("a");
            reveal_strlit("b");
            reveal_strlit("c");
            reveal_strlit("d");
            reveal_strlit("e");
            reveal_strlit("f");
        }
        let r = if d == 10 {
            "a"
        } else if d == 11 {
            "b"
        } else if d == 12 {
            "c"
        } else if d == 13 {
            "d"
        } else if d == 14 {
            "e"
        } else {
            "f"
        };
        proof {
            assert_seqs_equal!(r@, seq![hex_digit_char(d as int)]);
        }
        r
    }
}

/// Renders a `u64` in decimal.
pub fn u64_to_string(n: u64) -> (r: String)
    ensures
        r@ == decimal_chars(n as int),
    decreases n,
{
    if n < 10 {
        String::from_str(digit_str(n))
    } else {
        let mut s = u64_to_string(n / 10);
        s.append(digit_str(n % 10));
        proof {
            assert_seqs_equal!(s@, decimal_chars(n as int));
        }
        s
    }
}

/// Renders a `u128` in fixed-width lower-case hexadecimal.
pub fn u128_to_hex(n: u128, width: u32) -> (r: String)
    ensures
        r@ == hex_chars(n as int, width as nat),
    decreases width,
{
    if width == 0 {
        let r = String::new();
        proof {
            assert_seqs_equal!(r@, hex_chars(n as int, width as nat));
        }
        r
    } else {
        let mut s = u128_to_hex(n / 16, width - 1);
        s.append(hex_digit_str(n % 16));
        proof {
            assert_seqs_equal!(s@, hex_chars(n as int, width as nat));
        }
        s
    }
}

} // verus!
