//! Decimal rendering of unsigned integers, and its meaning.
//!
//! Both the capacity renderer (satoshis as a bitcoin decimal) and the
//! timestamp renderer (RFC 3339 text) build their output from decimal
//! digits. This module gives the digit-sequence specifications, the
//! executable builders proved against them, and the interpretation
//! `dec_value` that reads a digit sequence back as a number.

use vstd::prelude::*;

verus! {

/// The decimal digit character for a value below ten.
pub open spec fn digit_char(d: int) -> char {
    if d == 0 {
        '0'
    } else if d == 1 {
        '1'
    } else if d == 2 {
        '2'
    } else if d == 3 {
        '3'
    } else if d == 4 {
        '4'
    } else if d == 5 {
        '5'
    } else if d == 6 {
        '6'
    } else if d == 7 {
        '7'
    } else if d == 8 {
        '8'
    } else {
        '9'
    }
}

/// The numeric value of a decimal digit character; zero on any other
/// character.
pub open spec fn digit_val(c: char) -> nat {
    if c == '1' {
        1
    } else if c == '2' {
        2
    } else if c == '3' {
        3
    } else if c == '4' {
        4
    } else if c == '5' {
        5
    } else if c == '6' {
        6
    } else if c == '7' {
        7
    } else if c == '8' {
        8
    } else if c == '9' {
        9
    } else {
        0
    }
}

pub open spec fn is_digit_char(c: char) -> bool {
    c == '0' || c == '1' || c == '2' || c == '3' || c == '4' || c == '5' || c == '6' || c == '7'
        || c == '8' || c == '9'
}

/// The shortest decimal rendering of `n` (a single `'0'` for zero).
pub open spec fn dec_chars(n: nat) -> Seq<char>
    decreases n,
{
    if n < 10 {
        seq![digit_char(n as int)]
    } else {
        dec_chars(n / 10).push(digit_char((n % 10) as int))
    }
}

/// The `width`-digit zero-padded rendering of `n % 10^width`.
pub open spec fn pad_chars(n: nat, width: nat) -> Seq<char>
    decreases width,
{
    if width == 0 {
        Seq::empty()
    } else {
        pad_chars(n / 10, (width - 1) as nat).push(digit_char((n % 10) as int))
    }
}

/// `s` with every trailing `'0'` removed.
pub open spec fn trim_zeros(s: Seq<char>) -> Seq<char>
    decreases s.len(),
{
    if s.len() > 0 && s.last() == '0' {
        trim_zeros(s.drop_last())
    } else {
        s
    }
}

/// The number that a sequence of digit characters denotes.
pub open spec fn dec_value(s: Seq<char>) -> nat
    decreases s.len(),
{
    if s.len() == 0 {
        0
    } else {
        dec_value(s.drop_last()) * 10 + digit_val(s.last())
    }
}

pub open spec fn pow10(k: nat) -> nat
    decreases k,
{
    if k == 0 {
        1
    } else {
        10 * pow10((k - 1) as nat)
    }
}

pub open spec fn all_digits(s: Seq<char>) -> bool {
    forall|i: int| 0 <= i < s.len() ==> is_digit_char(#[trigger] s[i])
}

/// Reading the shortest rendering back gives the number rendered:
/// rendering loses nothing.
pub proof fn lemma_dec_chars_value(n: nat)
    ensures
        dec_value(dec_chars(n)) == n,
    decreases n,
{
    if n < 10 {
        let s = dec_chars(n);
        assert(s.len() == 1);
        assert(s.last() == digit_char(n as int));
        assert(s.drop_last() =~= Seq::<char>::empty());
        assert(dec_value(s.drop_last()) == 0);
        assert(digit_val(digit_char(n as int)) == n);
        assert(dec_value(s) == n);
    } else {
        lemma_dec_chars_value(n / 10);
        assert(dec_chars(n).drop_last() =~= dec_chars(n / 10));
        assert(dec_chars(n).last() == digit_char((n % 10) as int));
        assert(digit_val(digit_char((n % 10) as int)) == n % 10);
        assert(dec_value(dec_chars(n)) == n / 10 * 10 + n % 10);
        vstd::arithmetic::div_mod::lemma_fundamental_div_mod(n as int, 10);
    }
}

/// Reading a zero-padded rendering back gives the number rendered,
/// as long as the number fits the width.
pub proof fn lemma_pad_chars_value(n: nat, width: nat)
    requires
        n < pow10(width),
    ensures
        dec_value(pad_chars(n, width)) == n,
    decreases width,
{
    if width == 0 {
    } else {
        assert(n / 10 < pow10((width - 1) as nat)) by {
            assert(pow10(width) == 10 * pow10((width - 1) as nat));
            assert(n < 10 * pow10((width - 1) as nat) ==> n / 10 < pow10((width - 1) as nat))
                by (nonlinear_arith);
        }
        lemma_pad_chars_value(n / 10, (width - 1) as nat);
        assert(pad_chars(n, width).drop_last() =~= pad_chars(n / 10, (width - 1) as nat));
        assert(pad_chars(n, width).last() == digit_char((n % 10) as int));
        assert(digit_val(digit_char((n % 10) as int)) == n % 10);
        assert(dec_value(pad_chars(n, width)) == n / 10 * 10 + n % 10);
        vstd::arithmetic::div_mod::lemma_fundamental_div_mod(n as int, 10);
    }
}

pub proof fn lemma_pad_chars_len(n: nat, width: nat)
    ensures
        pad_chars(n, width).len() == width,
    decreases width,
{
    if width > 0 {
        lemma_pad_chars_len(n / 10, (width - 1) as nat);
    }
}

pub proof fn lemma_dec_chars_all_digits(n: nat)
    ensures
        all_digits(dec_chars(n)),
        dec_chars(n).len() >= 1,
    decreases n,
{
    if n < 10 {
    } else {
        lemma_dec_chars_all_digits(n / 10);
        assert forall|i: int| 0 <= i < dec_chars(n).len() implies is_digit_char(
            #[trigger] dec_chars(n)[i],
        ) by {
            if i < dec_chars(n / 10).len() {
                assert(dec_chars(n)[i] == dec_chars(n / 10)[i]);
            }
        }
    }
}

/// Trimming trailing zeros divides the denoted value by the power of
/// ten that the dropped zeros carried.
pub proof fn lemma_trim_zeros_value(s: Seq<char>)
    ensures
        trim_zeros(s).len() <= s.len(),
        dec_value(trim_zeros(s)) * pow10((s.len() - trim_zeros(s).len()) as nat) == dec_value(s),
    decreases s.len(),
{
    if s.len() > 0 && s.last() == '0' {
        lemma_trim_zeros_value(s.drop_last());
        let t = trim_zeros(s);
        let k = (s.drop_last().len() - t.len()) as nat;
        assert(digit_val(s.last()) == 0);
        assert(dec_value(s) == dec_value(s.drop_last()) * 10);
        assert(dec_value(t) * pow10(k) == dec_value(s.drop_last()));
        assert(pow10(k + 1) == 10 * pow10(k));
        let a = dec_value(t);
        let b = pow10(k);
        assert(a * (10 * b) == a * b * 10) by (nonlinear_arith);
        assert((s.len() - trim_zeros(s).len()) as nat == k + 1);
        assert(a * pow10(k + 1) == dec_value(s));
    } else {
        assert(trim_zeros(s) == s);
        assert(pow10(0) == 1);
        assert(dec_value(s) * 1 == dec_value(s));
    }
}

/// Appends the single digit `d` to `s`.
pub fn push_digit(s: &mut String, d: u64)
    requires
        d < 10,
    ensures
        final(s)@ == old(s)@ + seq![digit_char(d as int)],
{
    let lit: &str = if d == 0 {
        "0"
    } else if d == 1 {
        "1"
    } else if d == 2 {
        "2"
    } else if d == 3 {
        "3"
    } else if d == 4 {
        "4"
    } else if d == 5 {
        "5"
    } else if d == 6 {
        "6"
    } else if d == 7 {
        "7"
    } else if d == 8 {
        "8"
    } else {
        "9"
    };
    proof {
        reveal_strlit("0");
        reveal_strlit("1");
        reveal_strlit("2");
        reveal_strlit("3");
        reveal_strlit("4");
        reveal_strlit("5");
        reveal_strlit("6");
        reveal_strlit("7");
        reveal_strlit("8");
        reveal_strlit("9");
        assert(lit@ =~= seq![digit_char(d as int)]);
    }
    s.append(lit);
}

/// Appends the shortest decimal rendering of `n` to `s`.
pub fn push_dec(s: &mut String, n: u64)
    ensures
        final(s)@ == old(s)@ + dec_chars(n as nat),
    decreases n,
{
    if n < 10 {
        push_digit(s, n);
    } else {
        proof {
            assert(n / 10 < n) by (nonlinear_arith)
                requires n >= 10;
        }
        push_dec(s, n / 10);
        push_digit(s, n % 10);
        proof {
            assert(old(s)@ + dec_chars((n / 10) as nat) + seq![digit_char((n % 10) as int)]
                =~= old(s)@ + dec_chars(n as nat));
        }
    }
}

/// Appends the `width`-digit zero-padded rendering of `n` to `s`.
pub fn push_pad(s: &mut String, n: u64, width: u64)
    ensures
        final(s)@ == old(s)@ + pad_chars(n as nat, width as nat),
    decreases width,
{
    if width == 0 {
        proof {
            assert(old(s)@ + pad_chars(n as nat, 0) =~= old(s)@);
        }
    } else {
        push_pad(s, n / 10, width - 1);
        push_digit(s, n % 10);
        proof {
            assert(old(s)@ + pad_chars((n / 10) as nat, (width - 1) as nat) + seq![
                digit_char((n % 10) as int),
            ] =~= old(s)@ + pad_chars(n as nat, width as nat));
        }
    }
}

/// The shortest decimal rendering of `n` as a fresh string.
pub fn dec_text(n: u64) -> (r: String)
    ensures
        r@ == dec_chars(n as nat),
{
    let mut s = String::new();
    push_dec(&mut s, n);
    proof {
        assert(Seq::<char>::empty() + dec_chars(n as nat) =~= dec_chars(n as nat));
    }
    s
}

} // verus!
