//! Rendering of numbers as text.

use vstd::arithmetic::div_mod::{lemma_div_is_strictly_smaller, lemma_small_mod};
use vstd::prelude::*;

verus! {

/// The digit character for a value below sixteen; letters are upper-case when `upper` holds.
pub open spec fn digit_char(d: nat, upper: bool) -> char {
    if d < 10 {
        (d + 48) as char
    } else if upper {
        (d + 55) as char
    } else {
        (d + 87) as char
    }
}

/// The digits of `n` written in base `radix`, most significant first, without leading zeros.
pub open spec fn radix_text(n: nat, radix: nat, upper: bool) -> Seq<char>
    decreases n,
{
    if radix < 2 || radix > 16 {
        Seq::empty()
    } else if n < radix {
        seq![digit_char(n, upper)]
    } else {
        proof {
            lemma_div_is_strictly_smaller(n as int, radix as int);
        }
        radix_text(n / radix, radix, upper).push(digit_char(n % radix, upper))
    }
}

/// The decimal text of `n`.
pub open spec fn decimal(n: nat) -> Seq<char> {
    radix_text(n, 10, true)
}

/// The lower-case hexadecimal text of `n` (no `0x` prefix).
pub open spec fn hex_lower(n: nat) -> Seq<char> {
    radix_text(n, 16, false)
}

/// The one-character string for a digit value below sixteen.
fn digit_str(d: u64, upper: bool) -> (r: &'static str)
    requires
        d < 16,
    ensures
        r@ == seq![digit_char(d as nat, upper)],
{
    if d == 0 {
        proof { reveal_strlit("0"); }
        "0"
    } else if d == 1 {
        proof { reveal_strlit("1"); }
        "1"
    } else if d == 2 {
        proof { reveal_strlit("2"); }
        "2"
    } else if d == 3 {
        proof { reveal_strlit("3"); }
        "3"
    } else if d == 4 {
        proof { reveal_strlit("4"); }
        "4"
    } else if d == 5 {
        proof { reveal_strlit("5"); }
        "5"
    } else if d == 6 {
        proof { reveal_strlit("6"); }
        "6"
    } else if d == 7 {
        proof { reveal_strlit("7"); }
        "7"
    } else if d == 8 {
        proof { reveal_strlit("8"); }
        "8"
    } else if d == 9 {
        proof { reveal_strlit("9"); }
        "9"
    } else if d == 10 && upper {
        proof { reveal_strlit("A"); }
        "A"
    } else if d == 10 {
        proof { reveal_strlit("a"); }
        "a"
    } else if d == 11 && upper {
        proof { reveal_strlit("B"); }
        "B"
    } else if d == 11 {
        proof { reveal_strlit("b"); }
        "b"
    } else if d == 12 && upper {
        proof { reveal_strlit("C"); }
        "C"
    } else if d == 12 {
        proof { reveal_strlit("c"); }
        "c"
    } else if d == 13 && upper {
        proof { reveal_strlit("D"); }
        "D"
    } else if d == 13 {
        proof { reveal_strlit("d"); }
        "d"
    } else if d == 14 && upper {
        proof { reveal_strlit("E"); }
        "E"
    } else if d == 14 {
        proof { reveal_strlit("e"); }
        "e"
    } else if d == 15 && upper {
        proof { reveal_strlit("F"); }
        "F"
    } else {
        proof { reveal_strlit("f"); }
        "f"
    }
}

/// Appends the base-`radix` digits of `n` to `s`.
pub fn push_radix(s: &mut String, n: u64, radix: u64, upper: bool)
    requires
        2 <= radix <= 16,
    ensures
        final(s)@ == old(s)@ + radix_text(n as nat, radix as nat, upper),
    decreases n,
{
    let ghost s0 = old(s)@;
    if n >= radix {
        assert(n / radix < n) by (nonlinear_arith)
            requires
                n >= radix,
                radix >= 2,
        ;
        push_radix(s, n / radix, radix, upper);
    }
    let ghost s1 = s@;
    s.append(digit_str(n % radix, upper));
    proof {
        if n >= radix {
            let t = radix_text((n / radix) as nat, radix as nat, upper);
            assert(radix_text(n as nat, radix as nat, upper) == t.push(
                digit_char((n % radix) as nat, upper),
            ));
            assert(s@ =~= s0 + radix_text(n as nat, radix as nat, upper));
        } else {
            lemma_small_mod(n as nat, radix as nat);
            assert(s@ =~= s0 + radix_text(n as nat, radix as nat, upper));
        }
    }
}

/// Appends the decimal text of `n` to `s`.
pub fn push_decimal(s: &mut String, n: u64)
    ensures
        final(s)@ == old(s)@ + decimal(n as nat),
{
    push_radix(s, n, 10, true);
}

/// Appends the lower-case hexadecimal text of `n` to `s`.
pub fn push_hex_lower(s: &mut String, n: u64)
    ensures
        final(s)@ == old(s)@ + hex_lower(n as nat),
{
    push_radix(s, n, 16, false);
}

} // verus!
