//! The id of a task or data set: a number, or the text of one.

use crate::text::joined;
use vstd::prelude::*;
use vstd::string::StrSliceExecFns;

verus! {

/// Whether `c` is a decimal digit.
pub open spec fn is_digit(c: char) -> bool {
    '0' <= c <= '9'
}

/// The decimal digit of `d`, for `d` below 10.
pub open spec fn digit(d: nat) -> char {
    if d == 0 {
        '0'
    } else if d == 1 {
        '1'
    } else if d == 2 {
        '2'
    } else if d == 3 {
        '3'
    } else if d == 4 {
        '4'
    } else if d == 5 {
        '5'
    } else if d == 6 {
        '6'
    } else if d == 7 {
        '7'
    } else if d == 8 {
        '8'
    } else {
        '9'
    }
}

/// The number that the digit `c` stands for.
pub open spec fn digit_value(c: char) -> nat {
    (c as u32 - '0' as u32) as nat
}

/// A number in decimal digits, without a sign and without leading zeros.
pub open spec fn decimal(n: nat) -> Seq<char>
    decreases n,
{
    if n < 10 {
        seq![digit(n)]
    } else {
        decimal(n / 10).push(digit(n % 10))
    }
}

/// The number that a sequence of digits stands for.
pub open spec fn digits_value(digits: Seq<char>) -> nat
    decreases digits.len(),
{
    if digits.len() == 0 {
        0
    } else {
        digits_value(digits.drop_last()) * 10 + digit_value(digits.last())
    }
}

/// The digits of a number's text: the text without a leading `+`.
pub open spec fn unsigned(text: Seq<char>) -> Seq<char> {
    if text.len() > 0 && text[0] == '+' {
        text.skip(1)
    } else {
        text
    }
}

/// The number that a text stands for: digits, one at least, after at most
/// one `+`. Leading zeros count for nothing.
pub open spec fn number_of(text: Seq<char>) -> Option<nat> {
    let digits = unsigned(text);
    if digits.len() > 0 && (forall|i: int| 0 <= i < digits.len() ==> is_digit(#[trigger] digits[i])) {
        Some(digits_value(digits))
    } else {
        None
    }
}

/// A number's decimal text stands for the number.
pub proof fn lemma_decimal_number(n: nat)
    ensures
        decimal(n).len() > 0,
        forall|i: int| 0 <= i < decimal(n).len() ==> is_digit(#[trigger] decimal(n)[i]),
        digits_value(decimal(n)) == n,
        number_of(decimal(n)) == Some(n),
    decreases n,
{
    if n < 10 {
        assert(decimal(n).drop_last() =~= Seq::<char>::empty());
        assert(digits_value(decimal(n).drop_last()) == 0);
    } else {
        lemma_decimal_number(n / 10);
        assert(decimal(n).drop_last() =~= decimal(n / 10));
        assert(decimal(n)[0] == decimal(n / 10)[0]);
    }
    assert(decimal(n)[0] != '+');
}

/// The digits before a place stand for no more than all the digits.
pub proof fn lemma_digits_prefix(digits: Seq<char>, i: int)
    requires
        0 <= i <= digits.len(),
    ensures
        digits_value(digits.take(i)) <= digits_value(digits),
    decreases digits.len() - i,
{
    if i < digits.len() {
        lemma_digits_prefix(digits, i + 1);
        assert(digits.take(i + 1).drop_last() =~= digits.take(i));
        assert(digits_value(digits.take(i)) * 10 >= digits_value(digits.take(i))) by (nonlinear_arith);
    } else {
        assert(digits.take(i) =~= digits);
    }
}

/// The text of one digit.
fn digit_text(d: u32) -> (s: &'static str)
    requires
        d < 10,
    ensures
        s@ == seq![digit(d as nat)],
{
    proof {
        reveal_strlit("0");
        reveal_strlit("1");
        reveal_strlit("2");
        reveal_strlit("3");
        reveal_strlit("4");
        reveal_strlit("5");
        reveal_strlit("6");
        reveal_strlit("7");
        reveal_strlit("8");
        reveal_strlit("9");
    }
    let s = if d == 0 {
        "0"
    } else if d == 1 {
        "1"
    } else if d == 2 {
        "2"
    } else if d == 3 {
        "3"
    } else if d == 4 {
        "4"
    } else if d == 5 {
        "5"
    } else if d == 6 {
        "6"
    } else if d == 7 {
        "7"
    } else if d == 8 {
        "8"
    } else {
        "9"
    };
    assert(s@ =~= seq![digit(d as nat)]);
    s
}

/// A number in decimal digits.
pub fn decimal_text(n: u32) -> (s: String)
    ensures
        s@ == decimal(n as nat),
{
    let mut rest: u32 = n / 10;
    let mut s = digit_text(n % 10).to_owned();
    let ghost mut low: Seq<char> = seq![digit((n % 10) as nat)];
    proof {
        assert(decimal(n as nat) == if n < 10 {
            low
        } else {
            decimal(rest as nat) + low
        });
    }
    while rest > 0
        invariant
            s@ == low,
            decimal(n as nat) == if rest == 0 {
                low
            } else {
                decimal(rest as nat) + low
            },
        decreases rest,
    {
        let d = digit_text(rest % 10);
        proof {
            let r = rest as nat;
            if r < 10 {
                assert(decimal(r) == d@);
            } else {
                assert(decimal(r) =~= decimal(r / 10) + d@);
            }
            assert(decimal(n as nat) =~= if r / 10 == 0 {
                d@ + low
            } else {
                decimal(r / 10) + (d@ + low)
            });
            low = d@ + low;
        }
        s = joined(d, s.as_str());
        rest = rest / 10;
    }
    s
}

/// Reads a number from its text.
pub fn number(text: &str) -> (n: u32)
    requires
        number_of(text@) is Some,
        number_of(text@)->0 <= u32::MAX,
    ensures
        n == number_of(text@)->0,
{
    let ghost digits = unsigned(text@);
    assert(text.is_ascii()) by {
        assert forall|i: int| 0 <= i < text@.len() implies '\0' <= #[trigger] text@[i]
            <= '\u{7f}' by {
            if text@[0] == '+' {
                if i > 0 {
                    assert(is_digit(digits[i - 1]));
                }
            } else {
                assert(is_digit(digits[i]));
            }
        }
    }
    let len = text.unicode_len();
    let start: usize = if text.get_ascii(0) == 43 {
        1
    } else {
        0
    };
    assert(digits == text@.skip(start as int));
    let mut n: u32 = 0;
    let mut i: usize = start;
    assert(digits.take(0) =~= Seq::<char>::empty());
    while i < len
        invariant
            start <= i <= len,
            len == text@.len(),
            text.is_ascii(),
            digits == text@.skip(start as int),
            forall|k: int| 0 <= k < digits.len() ==> is_digit(#[trigger] digits[k]),
            digits_value(digits) <= u32::MAX,
            n == digits_value(digits.take(i - start)),
        decreases len - i,
    {
        let b = text.get_ascii(i);
        proof {
            let k = i - start;
            assert(digits[k] == text@[i as int]);
            assert(is_digit(digits[k]));
            assert(digits.take(k + 1).drop_last() =~= digits.take(k));
            assert(digits.take(k + 1).last() == digits[k]);
            lemma_digits_prefix(digits, k + 1);
            assert(digit_value(digits[k]) == b - 48);
        }
        n = n * 10 + (b as u32 - 48);
        i += 1;
    }
    assert(digits.take(i - start) =~= digits);
    n
}

/// What names a task or a data set.
pub trait Id {
    /// The id as text.
    spec fn text(&self) -> Seq<char>;

    /// The id as text.
    fn as_string(&self) -> (s: String)
        ensures
            s@ == self.text(),
    ;

    /// The id as a number. The text has to stand for one that fits.
    fn as_u32(&self) -> (n: u32)
        requires
            number_of(self.text()) is Some,
            number_of(self.text())->0 <= u32::MAX,
        ensures
            n == number_of(self.text())->0,
    ;
}

impl Id for String {
    open spec fn text(&self) -> Seq<char> {
        self@
    }

    fn as_string(&self) -> (s: String) {
        self.clone()
    }

    fn as_u32(&self) -> (n: u32) {
        number(self.as_str())
    }
}

impl<'a> Id for &'a str {
    open spec fn text(&self) -> Seq<char> {
        self@
    }

    fn as_string(&self) -> (s: String) {
        (*self).to_owned()
    }

    fn as_u32(&self) -> (n: u32) {
        number(*self)
    }
}

impl Id for u32 {
    open spec fn text(&self) -> Seq<char> {
        decimal(*self as nat)
    }

    fn as_string(&self) -> (s: String) {
        decimal_text(*self)
    }

    fn as_u32(&self) -> (n: u32) {
        proof {
            lemma_decimal_number(*self as nat);
        }
        *self
    }
}

} // verus!
