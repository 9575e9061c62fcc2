//! What the decimal text of a fixed-point number says.

use crate::fixed::{
    a_decimal_is_exact, decimal_text, digits_value, fraction_digits, magnitude, pow10,
    powers_of_two_are_positive, two_to, Fixed, ONE,
};
use crate::scalar::Scalar;
use crate::text::{
    a_numeral_is_read_as_its_number, all_digits, digit_char, digit_worth, numeral, read_as,
};
use vstd::prelude::*;

verus! {

/// Whether `text` is an unsigned decimal that is `raw` fractions exactly: digits
/// alone for a whole number, otherwise digits, a point and digits.
pub open spec fn says(text: Seq<char>, raw: int) -> bool {
    if raw % (ONE as int) == 0 {
        text.len() > 0 && all_digits(text) && read_as(text) * ONE == raw
    } else {
        exists|point: int| #[trigger] says_at(text, raw, point)
    }
}

/// Whether `text` is `raw` fractions exactly, with its point at `point`.
pub open spec fn says_at(text: Seq<char>, raw: int, point: int) -> bool {
    let behind = text.skip(point + 1);
    let scale = pow10(behind.len()) as int;
    &&& 0 < point < text.len() - 1 && text[point] == '.'
    &&& all_digits(text.take(point)) && all_digits(behind)
    &&& (read_as(text.take(point)) * scale + read_as(behind)) * ONE == raw * scale
}

/// Digits with one in front are worth that one at its place more.
proof fn a_digit_in_front(c: char, rest: Seq<char>)
    ensures
        read_as(seq![c] + rest) == digit_worth(c) * pow10(rest.len()) + read_as(rest),
    decreases rest.len(),
{
    let s = seq![c] + rest;
    if rest.len() == 0 {
        assert(s.drop_last() =~= Seq::<char>::empty());
        assert(read_as(Seq::<char>::empty()) == 0);
        assert(read_as(rest) == 0);
        assert(digit_worth(c) * 1 == digit_worth(c));
    } else {
        let head = rest.drop_last();
        assert(s.drop_last() =~= seq![c] + head);
        a_digit_in_front(c, head);
        let (w, p) = (digit_worth(c), pow10(head.len()) as int);
        assert(pow10(rest.len()) == 10 * pow10(head.len()));
        assert(10 * (w * p) == w * (10 * p)) by (nonlinear_arith);
    }
}

/// The digits of a fraction are digits, there are some unless it is zero, and as
/// characters they are read as their value.
proof fn fraction_digits_are_read_as_their_value(f: nat, k: nat)
    requires
        f < two_to(k),
    ensures
        ({
            let ds = fraction_digits(f, k);
            let text = ds.map_values(|d: nat| digit_char(d));
            &&& all_digits(text) && read_as(text) == digits_value(ds)
            &&& f > 0 ==> ds.len() > 0
        }),
    decreases k,
{
    let ds = fraction_digits(f, k);
    let text = ds.map_values(|d: nat| digit_char(d));
    if f == 0 || k == 0 {
        assert(text =~= Seq::<char>::empty());
    } else {
        let half = two_to((k - 1) as nat);
        powers_of_two_are_positive((k - 1) as nat);
        let d = 5 * f / half;
        let g = (5 * f) % half;
        vstd::arithmetic::div_mod::lemma_fundamental_div_mod(5 * f as int, half as int);
        assert(d < 10) by (nonlinear_arith)
            requires
                5 * f == half * d + g,
                f < 2 * half,
                g >= 0,
        ;
        let tail = fraction_digits(g, (k - 1) as nat);
        fraction_digits_are_read_as_their_value(g, (k - 1) as nat);
        let rest = tail.map_values(|d: nat| digit_char(d));
        assert(text =~= seq![digit_char(d)] + rest);
        assert(ds.drop_first() =~= tail);
        a_digit_in_front(digit_char(d), rest);
        assert(digit_worth(digit_char(d)) == d);
        assert forall|i: int| 0 <= i < text.len() implies 0 <= digit_worth(#[trigger] text[i])
            <= 9 by {
            if i > 0 {
                assert(text[i] == rest[i - 1]);
            }
        }
    }
}

/// The text of a number is the number exactly, and that of its opposite the same
/// behind a minus sign.
pub proof fn a_number_is_shown_as_it_is(x: Fixed)
    requires
        x.is_proper(),
        x.spec_is_finite(),
        x.raw >= 0,
    ensures
        says(decimal_text(x), x.raw as int),
        x.raw > 0 ==> decimal_text(x.spec_neg()) == seq!['-'] + decimal_text(x),
{
    reveal_strlit("");
    reveal_strlit("-");
    reveal_strlit(".");
    let raw = x.raw as int;
    let size = magnitude(raw);
    let (whole, f) = (size / (ONE as nat), size % (ONE as nat));
    let text = decimal_text(x);
    let front = numeral(whole);
    a_numeral_is_read_as_its_number(whole);
    assert(two_to(32) == 4294967296) by {
        reveal_with_fuel(two_to, 33);
    }
    if f == 0 {
        assert(text =~= front);
    } else {
        let ds = fraction_digits(f, 32);
        let behind = ds.map_values(|d: nat| digit_char(d));
        fraction_digits_are_read_as_their_value(f, 32);
        a_decimal_is_exact(f, 32);
        let point = front.len() as int;
        assert(text =~= front + seq!['.'] + behind);
        assert(text.take(point) =~= front);
        assert(text.skip(point + 1) =~= behind);
        let scale = pow10(behind.len()) as int;
        let v = read_as(behind);
        assert((whole * scale + v) * 4294967296 == (whole * 4294967296 + f) * scale)
            by (nonlinear_arith)
            requires
                v * 4294967296 == f * scale,
        ;
        assert(raw == whole * 4294967296 + f) by {
            vstd::arithmetic::div_mod::lemma_fundamental_div_mod(raw, 4294967296);
        }
        assert(text[point] == '.');
        assert(says_at(text, raw, point));
    }
    if raw > 0 {
        assert(decimal_text(x.spec_neg()) =~= seq!['-'] + text);
    }
}

} // verus!
