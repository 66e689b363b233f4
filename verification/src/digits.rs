//! Rendering of unsigned integers as decimal and fixed-width hexadecimal
//! text, verified against character-sequence spec functions.
//!
//! The ring derives each virtual-node token from a textual key built out of
//! these renderings, and the topology report prints counts with them, so both
//! the executable code and the specs of those layers share the definitions
//! given here.

use vstd::prelude::*;
use vstd::string::StringExecFns;

verus! {

/// The character for one digit value below sixteen, lower case.
pub open spec fn digit_char(d: nat) -> char {
    if d == 0 {
        '0'
    } else if d == 1 {
        '1'
    } else if d == 2 {
        '2'
    } else if d == 3 {
        '3'
    } else if d == 4 {
        '4'
    } else if d == 5 {
        '5'
    } else if d == 6 {
        '6'
    } else if d == 7 {
        '7'
    } else if d == 8 {
        '8'
    } else if d == 9 {
        '9'
    } else if d == 10 {
        'a'
    } else if d == 11 {
        'b'
    } else if d == 12 {
        'c'
    } else if d == 13 {
        'd'
    } else if d == 14 {
        'e'
    } else {
        'f'
    }
}

/// The decimal rendering of `n`, most significant digit first, with no
/// leading zeros except for the single digit of `n == 0`.
pub open spec fn dec_chars(n: nat) -> Seq<char>
    decreases n,
{
    if n < 10 {
        seq![digit_char(n)]
    } else {
        dec_chars(n / 10).push(digit_char(n % 10))
    }
}

/// The hexadecimal rendering of `v` in exactly `width` digits, most
/// significant first, lower case, truncated to the low `width` digits.
pub open spec fn hex_chars_fixed(v: nat, width: nat) -> Seq<char>
    decreases width,
{
    if width == 0 {
        Seq::empty()
    } else {
        hex_chars_fixed(v / 16, (width - 1) as nat).push(digit_char(v % 16))
    }
}

/// The one-character string for a digit value below sixteen.
fn digit_str(d: usize) -> (r: &'static str)
    requires
        d < 16,
    ensures
        r@.len() == 1,
        r@[0] == digit_char(d as nat),
{
    proof {
        reveal_strlit("0");
        reveal_strlit("1");
        reveal_strlit("2");
        reveal_strlit("3");
        reveal_strlit("4");
        reveal_strlit("5");
        reveal_strlit("6");
        reveal_strlit("7");
        reveal_strlit("8");
        reveal_strlit("9");
        reveal_strlit("a");
        reveal_strlit("b");
        reveal_strlit("c");
        reveal_strlit("d");
        reveal_strlit("e");
        reveal_strlit("f");
    }
    match d {
        0 => "0",
        1 => "1",
        2 => "2",
        3 => "3",
        4 => "4",
        5 => "5",
        6 => "6",
        7 => "7",
        8 => "8",
        9 => "9",
        10 => "a",
        11 => "b",
        12 => "c",
        13 => "d",
        14 => "e",
        _ => "f",
    }
}

/// Appends the decimal rendering of `n` to `out`.
pub fn push_dec(out: &mut String, n: usize)
    ensures
        final(out)@ == old(out)@ + dec_chars(n as nat),
    decreases n,
{
    if n >= 10 {
        proof {
            assert(n / 10 < n) by (nonlinear_arith)
                requires
                    n >= 10,
            ;
        }
        push_dec(out, n / 10);
    }
    let d = digit_str(n % 10);
    out.append(d);
    proof {
        if n < 10 {
            assert(old(out)@ + dec_chars(n as nat) =~= old(out)@ + d@);
        } else {
            assert(old(out)@ + dec_chars(n as nat) =~= old(out)@ + dec_chars((n / 10) as nat)
                + d@);
        }
    }
}

/// Appends the low `width` hexadecimal digits of `v` to `out`, most
/// significant first.
pub fn push_hex(out: &mut String, v: u128, width: usize)
    ensures
        final(out)@ == old(out)@ + hex_chars_fixed(v as nat, width as nat),
    decreases width,
{
    if width > 0 {
        push_hex(out, v / 16, width - 1);
        let d = digit_str((v % 16) as usize);
        out.append(d);
        proof {
            assert(old(out)@ + hex_chars_fixed(v as nat, width as nat) =~= old(out)@
                + hex_chars_fixed((v / 16) as nat, (width - 1) as nat) + d@);
        }
    } else {
        proof {
            assert(old(out)@ + hex_chars_fixed(v as nat, 0) =~= old(out)@);
        }
    }
}

} // verus!
