//! Satoshi-to-bitcoin conversion.
//!
//! A node's capacity arrives in satoshis (an unsigned integer) and is
//! served in bitcoin, one bitcoin being 10^8 satoshis. To avoid any
//! floating-point loss, the library renders the bitcoin value as its
//! exact decimal text: the whole-bitcoin part, then, when the satoshi
//! remainder is not zero, a dot and the eight-digit fraction with its
//! trailing zeros removed. The interpretation `btc_text_sats` reads such
//! a text back as satoshis; the laws below show the rendering is
//! faithful (round trip, injectivity) and order-preserving.

use vstd::prelude::*;

use crate::digits::{
    all_digits, dec_chars, dec_text, dec_value, digit_char, is_digit_char, pad_chars, pow10,
    push_pad, trim_zeros,
};

verus! {

/// Satoshis in one bitcoin.
pub const SATS_PER_BTC: u64 = 100_000_000;

/// The fraction digits of a capacity text: the eight-digit zero-padded
/// satoshi remainder, trailing zeros removed.
pub open spec fn btc_frac_chars(frac: nat) -> Seq<char> {
    trim_zeros(pad_chars(frac, 8))
}

/// The exact decimal text of `sats` satoshis expressed in bitcoin.
pub open spec fn btc_chars(sats: u64) -> Seq<char> {
    let whole = sats as nat / 100_000_000;
    let frac = sats as nat % 100_000_000;
    if frac == 0 {
        dec_chars(whole)
    } else {
        dec_chars(whole) + seq!['.'] + btc_frac_chars(frac)
    }
}

/// Index of the first `'.'` in `s`, or `s.len()` when there is none.
pub open spec fn dot_index(s: Seq<char>) -> int
    decreases s.len(),
{
    if s.len() == 0 {
        0
    } else if s[0] == '.' {
        0
    } else {
        1 + dot_index(s.skip(1))
    }
}

/// The number of satoshis a bitcoin decimal text denotes: the digits
/// before the first dot count whole bitcoins, the digits after it count
/// the fraction at the scale their count gives them.
pub open spec fn btc_text_sats(s: Seq<char>) -> nat {
    let i = dot_index(s);
    if i >= s.len() {
        dec_value(s) * 100_000_000
    } else {
        let fr = s.skip(i + 1);
        dec_value(s.take(i)) * 100_000_000 + dec_value(fr) * pow10((8 - fr.len()) as nat)
    }
}

proof fn lemma_dot_index_no_dot(s: Seq<char>)
    requires
        all_digits(s),
    ensures
        dot_index(s) == s.len(),
    decreases s.len(),
{
    if s.len() > 0 {
        assert(is_digit_char(s[0]));
        assert(all_digits(s.skip(1))) by {
            assert forall|i: int| 0 <= i < s.skip(1).len() implies is_digit_char(
                #[trigger] s.skip(1)[i],
            ) by {
                assert(s.skip(1)[i] == s[i + 1]);
            }
        }
        lemma_dot_index_no_dot(s.skip(1));
    }
}

proof fn lemma_dot_index_concat(a: Seq<char>, b: Seq<char>)
    requires
        all_digits(a),
        b.len() > 0,
        b[0] == '.',
    ensures
        dot_index(a + b) == a.len(),
    decreases a.len(),
{
    if a.len() == 0 {
        assert(a + b =~= b);
    } else {
        assert((a + b)[0] == a[0]);
        assert(is_digit_char(a[0]));
        assert(all_digits(a.skip(1))) by {
            assert forall|i: int| 0 <= i < a.skip(1).len() implies is_digit_char(
                #[trigger] a.skip(1)[i],
            ) by {
                assert(a.skip(1)[i] == a[i + 1]);
            }
        }
        lemma_dot_index_concat(a.skip(1), b);
        assert((a + b).skip(1) =~= a.skip(1) + b);
    }
}

/// Trimming the zero-padded rendering of a multiple of a power of ten
/// leaves the rendering of the number with that power divided out.
proof fn lemma_trim_pad(f: nat, w: nat, j: nat)
    requires
        0 < f,
        f % 10 != 0,
        f < pow10(w),
    ensures
        trim_zeros(pad_chars(f * pow10(j), w + j)) == pad_chars(f, w),
    decreases j,
{
    if j == 0 {
        assert(pow10(0) == 1);
        assert(f * pow10(0) == f) by (nonlinear_arith)
            requires
                pow10(0) == 1,
        ;
        assert(w >= 1);
        crate::digits::lemma_pad_chars_len(f, w);
        assert(pad_chars(f, w).last() == digit_char((f % 10) as int));
        assert(digit_char((f % 10) as int) != '0');
        assert(trim_zeros(pad_chars(f, w)) == pad_chars(f, w));
    } else {
        let g = f * pow10(j);
        let h = f * pow10((j - 1) as nat);
        assert(pow10(j) == 10 * pow10((j - 1) as nat));
        assert(g == h * 10) by (nonlinear_arith)
            requires
                g == f * pow10(j),
                h == f * pow10((j - 1) as nat),
                pow10(j) == 10 * pow10((j - 1) as nat),
        ;
        assert(g % 10 == 0 && g / 10 == h) by (nonlinear_arith)
            requires
                g == h * 10,
        ;
        assert(pad_chars(g, w + j) == pad_chars(h, (w + j - 1) as nat).push(digit_char(0)));
        assert(pad_chars(g, w + j).last() == '0');
        assert(pad_chars(g, w + j).drop_last() =~= pad_chars(h, (w + j - 1) as nat));
        lemma_trim_pad(f, w, (j - 1) as nat);
    }
}

/// Renders `sats` satoshis as the exact bitcoin decimal text.
pub fn sats_to_btc_text(sats: u64) -> (r: String)
    ensures
        r@ == btc_chars(sats),
{
    proof {
        reveal_with_fuel(pow10, 9);
        assert(pow10(8) == 100_000_000);
        vstd::arithmetic::div_mod::lemma_fundamental_div_mod(sats as int, 100_000_000);
    }
    let whole = sats / SATS_PER_BTC;
    let frac = sats % SATS_PER_BTC;
    let mut s = dec_text(whole);
    if frac > 0 {
        proof {
            reveal_strlit(".");
        }
        s.append(".");
        let mut f = frac;
        let mut w: u64 = 8;
        proof {
            assert(pow10(0) == 1);
            assert(frac as nat * pow10(0) == frac as nat) by (nonlinear_arith)
                requires
                    pow10(0) == 1,
            ;
        }
        while f % 10 == 0
            invariant
                1 <= w <= 8,
                0 < f,
                f as nat * pow10((8 - w) as nat) == frac as nat,
                (f as nat) < pow10(w as nat),
                frac == sats % 100_000_000,
                0 < frac < 100_000_000,
            decreases f,
        {
            proof {
                assert(f >= 10) by {
                    if f < 10 {
                        assert(f % 10 == f);
                    }
                }
                assert(w >= 2) by {
                    if w == 1 {
                        reveal_with_fuel(pow10, 2);
                        assert(pow10(1) == 10);
                    }
                }
                vstd::arithmetic::div_mod::lemma_fundamental_div_mod(f as int, 10);
                let q = (f / 10) as nat;
                assert(pow10((8 - (w - 1)) as nat) == 10 * pow10((8 - w) as nat));
                assert(q * (10 * pow10((8 - w) as nat)) == (q * 10) * pow10((8 - w) as nat))
                    by (nonlinear_arith);
                assert(pow10(w as nat) == 10 * pow10((w - 1) as nat));
                assert(q < pow10((w - 1) as nat)) by (nonlinear_arith)
                    requires
                        (f as nat) < 10 * pow10((w - 1) as nat),
                        q == f as nat / 10,
                ;
            }
            f = f / 10;
            w = w - 1;
        }
        proof {
            lemma_trim_pad(f as nat, w as nat, (8 - w) as nat);
            assert(btc_frac_chars(frac as nat) == pad_chars(f as nat, w as nat));
        }
        push_pad(&mut s, f, w);
        proof {
            assert(dec_chars(whole as nat) + "."@ + pad_chars(f as nat, w as nat) =~= btc_chars(
                sats,
            ));
        }
    }
    s
}

/// Reading the capacity text back gives the satoshi amount it was
/// rendered from: the conversion direction is never lost.
pub proof fn lemma_btc_text_faithful(sats: u64)
    ensures
        btc_text_sats(btc_chars(sats)) == sats,
{
    let whole = sats as nat / 100_000_000;
    let frac = sats as nat % 100_000_000;
    vstd::arithmetic::div_mod::lemma_fundamental_div_mod(sats as int, 100_000_000);
    crate::digits::lemma_dec_chars_all_digits(whole);
    crate::digits::lemma_dec_chars_value(whole);
    if frac == 0 {
        lemma_dot_index_no_dot(dec_chars(whole));
    } else {
        let a = dec_chars(whole);
        let fr = btc_frac_chars(frac);
        let s = a + seq!['.'] + fr;
        assert(s =~= a + (seq!['.'] + fr));
        lemma_dot_index_concat(a, seq!['.'] + fr);
        assert(dot_index(s) == a.len());
        crate::digits::lemma_pad_chars_len(frac, 8);
        crate::digits::lemma_trim_zeros_value(pad_chars(frac, 8));
        reveal_with_fuel(pow10, 9);
        assert(pow10(8) == 100_000_000);
        crate::digits::lemma_pad_chars_value(frac, 8);
        assert(s.take(a.len() as int) =~= a);
        assert(s.skip(a.len() as int + 1) =~= fr);
        assert(dec_value(fr) * pow10((8 - fr.len()) as nat) == frac);
    }
}

/// Distinct satoshi amounts render to distinct capacity texts.
pub proof fn lemma_btc_text_injective(a: u64, b: u64)
    requires
        btc_chars(a) == btc_chars(b),
    ensures
        a == b,
{
    lemma_btc_text_faithful(a);
    lemma_btc_text_faithful(b);
}

/// Converting satoshis to bitcoin preserves order: the value a capacity
/// text denotes is monotonic in the satoshi amount rendered.
pub proof fn lemma_btc_text_monotonic(a: u64, b: u64)
    requires
        a <= b,
    ensures
        btc_text_sats(btc_chars(a)) <= btc_text_sats(btc_chars(b)),
{
    lemma_btc_text_faithful(a);
    lemma_btc_text_faithful(b);
}

/// Renders an optional satoshi capacity: present values become their
/// bitcoin decimal text, an absent value stays absent.
pub fn capacity_text(capacity_sats: Option<u64>) -> (r: Option<String>)
    ensures
        capacity_sats is Some ==> (r matches Some(t) && t@ == btc_chars(capacity_sats->0)),
        capacity_sats is None ==> r is None,
{
    match capacity_sats {
        Some(sats) => Some(sats_to_btc_text(sats)),
        None => None,
    }
}

} // verus!
