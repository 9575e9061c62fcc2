//! Decimal numerals and the text of messages.

use vstd::prelude::*;

verus! {

/// The character of a decimal digit.
pub open spec fn digit_char(d: nat) -> char {
    if d == 0 {
        '0'
    } else if d == 1 {
        '1'
    } else if d == 2 {
        '2'
    } else if d == 3 {
        '3'
    } else if d == 4 {
        '4'
    } else if d == 5 {
        '5'
    } else if d == 6 {
        '6'
    } else if d == 7 {
        '7'
    } else if d == 8 {
        '8'
    } else {
        '9'
    }
}

/// The decimal numeral of `n`, without leading zeros.
pub open spec fn numeral(n: nat) -> Seq<char>
    decreases n,
{
    if n < 10 {
        seq![digit_char(n)]
    } else {
        numeral(n / 10).push(digit_char(n % 10))
    }
}

/// The decimal numeral of an integer, with a minus sign in front of a
/// negative one.
pub open spec fn signed_numeral(n: int) -> Seq<char> {
    if n < 0 {
        seq!['-'] + numeral((-n) as nat)
    } else {
        numeral(n as nat)
    }
}

/// What a character is worth as a decimal digit.
pub open spec fn digit_worth(c: char) -> int {
    c as int - '0' as int
}

/// Whether every character is a decimal digit.
pub open spec fn all_digits(s: Seq<char>) -> bool {
    forall|k: int| 0 <= k < s.len() ==> 0 <= digit_worth(#[trigger] s[k]) <= 9
}

/// The number that decimal digits are read as.
pub open spec fn read_as(s: Seq<char>) -> int
    decreases s.len(),
{
    if s.len() == 0 {
        0
    } else {
        10 * read_as(s.drop_last()) + digit_worth(s.last())
    }
}

/// A numeral consists of digits, is read as the number that it was written for,
/// and does not begin with a zero unless it is zero.
pub proof fn a_numeral_is_read_as_its_number(n: nat)
    ensures
        numeral(n).len() > 0,
        all_digits(numeral(n)),
        read_as(numeral(n)) == n,
        n > 0 ==> numeral(n)[0] != '0',
        n == 0 ==> numeral(n) == seq!['0'],
    decreases n,
{
    let s = numeral(n);
    assert(digit_worth(digit_char(n % 10)) == n % 10);
    if n < 10 {
        assert(s.drop_last() =~= Seq::<char>::empty());
        assert(read_as(Seq::<char>::empty()) == 0);
        assert(read_as(s) == n);
    } else {
        a_numeral_is_read_as_its_number(n / 10);
        assert(s.drop_last() =~= numeral(n / 10));
        assert(read_as(s) == 10 * (n / 10) + n % 10);
    }
}

/// The numeral of a negative number is a minus sign and that of its opposite.
pub proof fn a_signed_numeral_is_read_as_its_number(n: int)
    ensures
        n >= 0 ==> read_as(signed_numeral(n)) == n && all_digits(signed_numeral(n)),
        n < 0 ==> {
            let s = signed_numeral(n);
            &&& s.len() > 0 && s[0] == '-'
            &&& all_digits(s.skip(1)) && read_as(s.skip(1)) == -n
        },
{
    if n < 0 {
        a_numeral_is_read_as_its_number((-n) as nat);
        assert(signed_numeral(n).skip(1) =~= numeral((-n) as nat));
    } else {
        a_numeral_is_read_as_its_number(n as nat);
    }
}

/// Whether a text has `part` in it.
pub open spec fn mentions(text: Seq<char>, part: Seq<char>) -> bool {
    exists|at: int|
        0 <= at <= text.len() - part.len() && #[trigger] text.subrange(at, at + part.len())
            == part
}

/// A text that is put together mentions its parts.
pub proof fn a_text_mentions_its_parts(before: Seq<char>, part: Seq<char>, behind: Seq<char>)
    ensures
        mentions(before + part + behind, part),
{
    let text = before + part + behind;
    let at = before.len() as int;
    assert(text.subrange(at, at + part.len()) =~= part);
}

fn digit(d: u64) -> (r: &'static str)
    requires
        d < 10,
    ensures
        r@ == seq![digit_char(d as nat)],
{
    proof {
        reveal_strlit("0");
        reveal_strlit("1");
        reveal_strlit("2");
        reveal_strlit("3");
        reveal_strlit("4");
        reveal_strlit("5");
        reveal_strlit("6");
        reveal_strlit("7");
        reveal_strlit("8");
        reveal_strlit("9");
    }
    if d == 0 {
        "0"
    } else if d == 1 {
        "1"
    } else if d == 2 {
        "2"
    } else if d == 3 {
        "3"
    } else if d == 4 {
        "4"
    } else if d == 5 {
        "5"
    } else if d == 6 {
        "6"
    } else if d == 7 {
        "7"
    } else if d == 8 {
        "8"
    } else {
        "9"
    }
}

/// Appends the decimal numeral of `n`.
pub fn append_number(s: &mut String, n: u64)
    ensures
        final(s)@ == old(s)@ + numeral(n as nat),
    decreases n,
{
    if n < 10 {
        s.append(digit(n));
    } else {
        append_number(s, n / 10);
        s.append(digit(n % 10));
        proof {
            assert(numeral(n as nat) =~= numeral((n / 10) as nat) + seq![
                digit_char((n % 10) as nat),
            ]);
        }
    }
}

/// Appends the decimal numeral of `n`, with its sign if it is negative.
pub fn append_signed(s: &mut String, n: i64)
    ensures
        final(s)@ == old(s)@ + signed_numeral(n as int),
{
    if n < 0 {
        proof {
            reveal_strlit("-");
            assert("-"@ =~= seq!['-']);
        }
        s.append("-");
        append_number(s, (-(n as i128)) as u64);
    } else {
        append_number(s, n as u64);
    }
}

/// What the standard library writes for a string with the debug format: the
/// string in quotes, with what would be hard to read escaped.
pub uninterp spec fn quoted_text(s: Seq<char>) -> Seq<char>;

/// The string in quotes, escaped.
///
/// Trusted: calls `<str as core::fmt::Debug>::fmt`, by way of `format!`. The
/// result is named by [`quoted_text`], a function of the string alone; which
/// characters are escaped, and how, is left unsaid.
#[verifier::external_body]
pub(crate) fn quoted(s: &str) -> (r: String)
    ensures
        r@ == quoted_text(s@),
{
    format!("{:?}", s)
}

} // verus!
