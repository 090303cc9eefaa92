//! Verified rendering of numbers into text: decimal, padded lowercase
//! hexadecimal, and the fixed-point readings (power in hundredths, temperature
//! in tenths) that device descriptions embed.

use vstd::prelude::*;

verus! {

/// The character for one decimal or hexadecimal digit value.
pub open spec fn digit_char(d: nat) -> char {
    if d == 0 {
        '0'
    } else if d == 1 {
        '1'
    } else if d == 2 {
        '2'
    } else if d == 3 {
        '3'
    } else if d == 4 {
        '4'
    } else if d == 5 {
        '5'
    } else if d == 6 {
        '6'
    } else if d == 7 {
        '7'
    } else if d == 8 {
        '8'
    } else if d == 9 {
        '9'
    } else if d == 10 {
        'a'
    } else if d == 11 {
        'b'
    } else if d == 12 {
        'c'
    } else if d == 13 {
        'd'
    } else if d == 14 {
        'e'
    } else {
        'f'
    }
}

/// The usual decimal rendering of a natural number, without leading zeros
/// (a single zero renders as "0").
pub open spec fn dec_seq(n: nat) -> Seq<char>
    decreases n,
{
    if n < 10 {
        seq![digit_char(n)]
    } else {
        dec_seq(n / 10) + seq![digit_char(n % 10)]
    }
}

/// The lowercase hexadecimal rendering of `n` in exactly `width` digits,
/// zero-padded on the left; digits above the width are dropped.
pub open spec fn hex_pad_seq(n: nat, width: nat) -> Seq<char>
    decreases width,
{
    if width == 0 {
        Seq::empty()
    } else {
        hex_pad_seq(n / 16, (width - 1) as nat) + seq![digit_char(n % 16)]
    }
}

/// Appends the character for one digit value below 16.
pub(crate) fn push_digit(s: &mut String, d: u64)
    requires
        d < 16,
    ensures
        final(s)@ == old(s)@ + seq![digit_char(d as nat)],
{
    let ghost pre = s@;
    if d == 0 {
        s.append("0");
        proof {
            reveal_strlit("0");
            assert(s@ =~= pre + seq![digit_char(d as nat)]);
        }
    } else if d == 1 {
        s.append("1");
        proof {
            reveal_strlit("1");
            assert(s@ =~= pre + seq![digit_char(d as nat)]);
        }
    } else if d == 2 {
        s.append("2");
        proof {
            reveal_strlit("2");
            assert(s@ =~= pre + seq![digit_char(d as nat)]);
        }
    } else if d == 3 {
        s.append("3");
        proof {
            reveal_strlit("3");
            assert(s@ =~= pre + seq![digit_char(d as nat)]);
        }
    } else if d == 4 {
        s.append("4");
        proof {
            reveal_strlit("4");
            assert(s@ =~= pre + seq![digit_char(d as nat)]);
        }
    } else if d == 5 {
        s.append("5");
        proof {
            reveal_strlit("5");
            assert(s@ =~= pre + seq![digit_char(d as nat)]);
        }
    } else if d == 6 {
        s.append("6");
        proof {
            reveal_strlit("6");
            assert(s@ =~= pre + seq![digit_char(d as nat)]);
        }
    } else if d == 7 {
        s.append("7");
        proof {
            reveal_strlit("7");
            assert(s@ =~= pre + seq![digit_char(d as nat)]);
        }
    } else if d == 8 {
        s.append("8");
        proof {
            reveal_strlit("8");
            assert(s@ =~= pre + seq![digit_char(d as nat)]);
        }
    } else if d == 9 {
        s.append("9");
        proof {
            reveal_strlit("9");
            assert(s@ =~= pre + seq![digit_char(d as nat)]);
        }
    } else if d == 10 {
        s.append("a");
        proof {
            reveal_strlit("a");
            assert(s@ =~= pre + seq![digit_char(d as nat)]);
        }
    } else if d == 11 {
        s.append("b");
        proof {
            reveal_strlit("b");
            assert(s@ =~= pre + seq![digit_char(d as nat)]);
        }
    } else if d == 12 {
        s.append("c");
        proof {
            reveal_strlit("c");
            assert(s@ =~= pre + seq![digit_char(d as nat)]);
        }
    } else if d == 13 {
        s.append("d");
        proof {
            reveal_strlit("d");
            assert(s@ =~= pre + seq![digit_char(d as nat)]);
        }
    } else if d == 14 {
        s.append("e");
        proof {
            reveal_strlit("e");
            assert(s@ =~= pre + seq![digit_char(d as nat)]);
        }
    } else {
        s.append("f");
        proof {
            reveal_strlit("f");
            assert(s@ =~= pre + seq![digit_char(d as nat)]);
        }
    }
}

/// Appends the decimal rendering of `n`.
pub fn push_dec(s: &mut String, n: u64)
    ensures
        final(s)@ == old(s)@ + dec_seq(n as nat),
    decreases n,
{
    let ghost pre = s@;
    if n >= 10 {
        push_dec(s, n / 10);
    }
    push_digit(s, n % 10);
    proof {
        assert(s@ =~= pre + dec_seq(n as nat));
    }
}

/// Appends the lowercase hexadecimal rendering of `n` in exactly `width`
/// digits, zero-padded.
pub fn push_hex_pad(s: &mut String, n: u128, width: u32)
    ensures
        final(s)@ == old(s)@ + hex_pad_seq(n as nat, width as nat),
    decreases width,
{
    let ghost pre = s@;
    if width > 0 {
        push_hex_pad(s, n / 16, width - 1);
        push_digit(s, (n % 16) as u64);
    }
    proof {
        assert(s@ =~= pre + hex_pad_seq(n as nat, width as nat));
    }
}

} // verus!
