//! Exact currency amounts in minor units, with their textual forms.
//!
//! An amount is read from text of the shape `+ $12.34` or `- $0.50`: a sign,
//! one space, a dollar mark, then digits among which any number of points may
//! stand. The digits, read in order, are the magnitude in minor units. An
//! amount is written as its digits with a point before the last two, behind a
//! `-` where it is negative.

use vstd::prelude::*;
use vstd::std_specs::iter::IteratorSpec;
use vstd::string::StringExecFns;

verus! {

/// A signed amount of money, counted in minor units (cents).
#[derive(Copy, Clone, Eq, PartialEq, Debug, Ord, PartialOrd, Hash, Structural)]
pub struct Money(pub i64);

/// Why a text is not an amount.
#[derive(Copy, Clone, Eq, PartialEq, Debug, Structural)]
pub enum ParseError {
    /// The text is empty.
    MissingSign,
    /// The first character is neither `+` nor `-`.
    InvalidSign,
    /// The text ends behind the sign.
    MissingSeparator,
    /// The second character is not a space.
    InvalidSeparator,
    /// The text ends behind the space.
    MissingCurrencyMark,
    /// The third character is not `$`.
    InvalidCurrencyMark,
    /// A character behind the `$` is neither a digit nor a point.
    InvalidDigit(char),
    /// The digits stand for more minor units than an amount can count.
    Overflow,
}

impl Default for Money {
    /// No money at all.
    fn default() -> (r: Money)
        ensures
            r == Money(0),
    {
        Money(0)
    }
}

/// The absolute value of an integer.
pub open spec fn magnitude_of(v: int) -> nat {
    if v < 0 {
        (-v) as nat
    } else {
        v as nat
    }
}

/// Whether `c` is one of the ten ASCII digits.
pub open spec fn is_digit(c: char) -> bool {
    '0' <= c && c <= '9'
}

/// The number that the ASCII digit `c` stands for.
pub open spec fn digit_value(c: char) -> nat
    recommends
        is_digit(c),
{
    (c as int - '0' as int) as nat
}

/// The ASCII digit that stands for `d`.
pub open spec fn digit_char(d: nat) -> char
    recommends
        d < 10,
{
    ('0' as int + d) as char
}

/// The number whose decimal digits are the digits of `s` in order; every
/// other character of `s` is passed over.
pub open spec fn digits_value(s: Seq<char>) -> nat
    decreases s.len(),
{
    if s.len() == 0 {
        0
    } else if is_digit(s.last()) {
        digits_value(s.drop_last()) * 10 + digit_value(s.last())
    } else {
        digits_value(s.drop_last())
    }
}

/// The first character of `s` that is neither a digit nor a point.
pub open spec fn first_invalid(s: Seq<char>) -> Option<char>
    decreases s.len(),
{
    if s.len() == 0 {
        None
    } else {
        match first_invalid(s.drop_last()) {
            Some(c) => Some(c),
            None => if is_digit(s.last()) || s.last() == '.' {
                None
            } else {
                Some(s.last())
            },
        }
    }
}

/// What a text decodes to: the amount, or the first thing wrong with it.
pub open spec fn decode_spec(s: Seq<char>) -> Result<Money, ParseError> {
    if s.len() == 0 {
        Err(ParseError::MissingSign)
    } else if s[0] != '+' && s[0] != '-' {
        Err(ParseError::InvalidSign)
    } else if s.len() == 1 {
        Err(ParseError::MissingSeparator)
    } else if s[1] != ' ' {
        Err(ParseError::InvalidSeparator)
    } else if s.len() == 2 {
        Err(ParseError::MissingCurrencyMark)
    } else if s[2] != '$' {
        Err(ParseError::InvalidCurrencyMark)
    } else {
        let body = s.subrange(3, s.len() as int);
        match first_invalid(body) {
            Some(c) => Err(ParseError::InvalidDigit(c)),
            None => if digits_value(body) > i64::MAX {
                Err(ParseError::Overflow)
            } else if s[0] == '-' {
                Ok(Money((-(digits_value(body) as int)) as i64))
            } else {
                Ok(Money(digits_value(body) as i64))
            },
        }
    }
}

/// The decimal digits of `n`, most significant first; zero has none.
pub open spec fn digits(n: nat) -> Seq<char>
    decreases n,
{
    if n == 0 {
        Seq::empty()
    } else {
        digits(n / 10).push(digit_char(n % 10))
    }
}

/// Where the point stands among `len` digits: before the last two, or at the
/// front where there are fewer than two.
pub open spec fn point_position(len: nat) -> int {
    if len >= 2 {
        len - 2
    } else {
        0
    }
}

/// The digits `d` with a point put in at `point_position`.
pub open spec fn with_point(d: Seq<char>) -> Seq<char> {
    let k = point_position(d.len());
    d.subrange(0, k).push('.') + d.subrange(k, d.len() as int)
}

/// The written form of the amount `v`.
pub open spec fn format_spec(v: int) -> Seq<char> {
    if v < 0 {
        seq!['-'] + with_point(digits(magnitude_of(v)))
    } else {
        with_point(digits(magnitude_of(v)))
    }
}

/// Reading a longer text never lowers the value of its digits, and the first
/// invalid character of a prefix is that of the whole.
proof fn lemma_prefix(s: Seq<char>, k: int)
    requires
        0 <= k <= s.len(),
    ensures
        digits_value(s.take(k)) <= digits_value(s),
        first_invalid(s.take(k)) is Some ==> first_invalid(s) == first_invalid(s.take(k)),
    decreases s.len(),
{
    if k == s.len() {
        assert(s.take(k) =~= s);
    } else {
        assert(s.drop_last().take(k) =~= s.take(k));
        lemma_prefix(s.drop_last(), k);
    }
}

/// All that `digits` yields are digits.
pub proof fn lemma_digits_are_digits(n: nat)
    ensures
        forall|i: int| 0 <= i < digits(n).len() ==> is_digit(#[trigger] digits(n)[i]),
    decreases n,
{
    if n > 0 {
        lemma_digits_are_digits(n / 10);
        let front = digits(n / 10);
        assert(is_digit(digit_char(n % 10)));
        assert forall|i: int| 0 <= i < digits(n).len() implies is_digit(
            #[trigger] digits(n)[i],
        ) by {
            if i < front.len() {
                assert(digits(n)[i] == front[i]);
            }
        }
    }
}

/// The written form of a non-negative amount is not empty and holds digits
/// and the point only, so no sign.
pub proof fn lemma_format_of_non_negative(v: int)
    requires
        v >= 0,
    ensures
        format_spec(v).len() > 0,
        forall|i: int|
            0 <= i < format_spec(v).len() ==> is_digit(#[trigger] format_spec(v)[i])
                || format_spec(v)[i] == '.',
{
    lemma_digits_are_digits(magnitude_of(v));
}

/// Whatever text decodes to an amount, the absolute value of that amount is
/// non-negative, and its written form starts with neither `-` nor `+`: it is
/// made of digits and the point.
pub proof fn lemma_decode_abs_format_unsigned(text: Seq<char>)
    requires
        decode_spec(text) is Ok,
    ensures
        ({
            let amount = decode_spec(text)->Ok_0;
            let written = format_spec(amount.abs_spec().0 as int);
            &&& amount.0 > i64::MIN
            &&& amount.abs_spec().0 >= 0
            &&& written.len() > 0
            &&& written[0] != '-'
            &&& written[0] != '+'
            &&& forall|i: int|
                0 <= i < written.len() ==> is_digit(#[trigger] written[i]) || written[i] == '.'
        }),
{
    let amount = decode_spec(text)->Ok_0;
    lemma_format_of_non_negative(amount.abs_spec().0 as int);
    let written = format_spec(amount.abs_spec().0 as int);
    assert(is_digit(written[0]) || written[0] == '.');
}

/// What one more character at the end does to the value of a text's digits
/// and to its first invalid character.
proof fn lemma_push(s: Seq<char>, c: char)
    ensures
        digits_value(s.push(c)) == if is_digit(c) {
            digits_value(s) * 10 + digit_value(c)
        } else {
            digits_value(s)
        },
        first_invalid(s.push(c)) == match first_invalid(s) {
            Some(x) => Some(x),
            None => if is_digit(c) || c == '.' {
                None
            } else {
                Some(c)
            },
        },
{
    assert(s.push(c).drop_last() =~= s);
}

/// The digits of a number are valid text and have the number as their value.
pub proof fn lemma_digits_value_of_digits(n: nat)
    ensures
        digits_value(digits(n)) == n,
        first_invalid(digits(n)) is None,
    decreases n,
{
    if n > 0 {
        lemma_digits_value_of_digits(n / 10);
        lemma_push(digits(n / 10), digit_char(n % 10));
    }
}

/// Two texts that agree in value and in first invalid character still do
/// with the same text behind each.
proof fn lemma_same_behind(a: Seq<char>, b: Seq<char>, tail: Seq<char>)
    requires
        digits_value(a) == digits_value(b),
        first_invalid(a) == first_invalid(b),
    ensures
        digits_value(a + tail) == digits_value(b + tail),
        first_invalid(a + tail) == first_invalid(b + tail),
    decreases tail.len(),
{
    if tail.len() == 0 {
        assert(a + tail =~= a);
        assert(b + tail =~= b);
    } else {
        lemma_same_behind(a, b, tail.drop_last());
        assert((a + tail).drop_last() =~= a + tail.drop_last());
        assert((b + tail).drop_last() =~= b + tail.drop_last());
    }
}

/// The point that `with_point` puts in changes neither the value of the
/// digits nor their validity.
pub proof fn lemma_point_keeps_value(d: Seq<char>)
    ensures
        digits_value(with_point(d)) == digits_value(d),
        first_invalid(with_point(d)) == first_invalid(d),
{
    let k = point_position(d.len());
    let front = d.subrange(0, k);
    let back = d.subrange(k, d.len() as int);
    lemma_push(front, '.');
    lemma_same_behind(front.push('.'), front, back);
    assert(front + back =~= d);
}

/// The text that decodes to the amount `v`: its sign, a space, `$`, and the
/// written form of its magnitude.
pub open spec fn signed_text(v: int) -> Seq<char> {
    seq![if v < 0 { '-' } else { '+' }, ' ', '$'] + format_spec(magnitude_of(v) as int)
}

/// Writing loses nothing: the written magnitude of an amount, behind the
/// amount's sign, a space and `$`, decodes to the amount.
pub proof fn lemma_written_amount_decodes(amount: Money)
    requires
        amount.0 > i64::MIN,
    ensures
        decode_spec(signed_text(amount.0 as int)) == Ok::<Money, ParseError>(amount),
{
    let n = magnitude_of(amount.0 as int);
    let text = signed_text(amount.0 as int);
    let body = text.subrange(3, text.len() as int);
    assert(body =~= with_point(digits(n)));
    lemma_point_keeps_value(digits(n));
    lemma_digits_value_of_digits(n);
}

/// From a hundred on, the digits of `n` are those of `n / 100` and then its
/// last two.
proof fn lemma_last_two_digits(n: nat)
    requires
        n >= 100,
    ensures
        digits(n) == digits(n / 100).push(digit_char((n / 10) % 10)).push(digit_char(n % 10)),
{
    assert(n / 10 >= 10 && (n / 10) / 10 == n / 100) by (nonlinear_arith)
        requires
            n >= 100,
    ;
    assert(digits(n) == digits(n / 10).push(digit_char(n % 10)));
    assert(digits(n / 10) == digits((n / 10) / 10).push(digit_char((n / 10) % 10)));
}

/// The text of one digit.
fn digit_text(d: u64) -> (s: &'static str)
    requires
        d < 10,
    ensures
        s@ == seq![digit_char(d as nat)],
{
    proof {
        reveal_strlit("0");
        reveal_strlit("1");
        reveal_strlit("2");
        reveal_strlit("3");
        reveal_strlit("4");
        reveal_strlit("5");
        reveal_strlit("6");
        reveal_strlit("7");
        reveal_strlit("8");
        reveal_strlit("9");
    }
    let s = match d {
        0 => "0",
        1 => "1",
        2 => "2",
        3 => "3",
        4 => "4",
        5 => "5",
        6 => "6",
        7 => "7",
        8 => "8",
        _ => "9",
    };
    assert(s@ =~= seq![digit_char(d as nat)]);
    s
}

/// Appends the decimal digits of `n` to `out`; nothing for zero.
fn append_digits(n: u64, out: &mut String)
    ensures
        final(out)@ == old(out)@ + digits(n as nat),
    decreases n,
{
    if n > 0 {
        append_digits(n / 10, out);
        out.append(digit_text(n % 10));
        assert(final(out)@ =~= old(out)@ + digits(n as nat));
    } else {
        assert(final(out)@ =~= old(out)@ + digits(n as nat));
    }
}

/// Appends the written form of the magnitude `n` to `out`: its digits, with a
/// point before the last two.
pub(crate) fn append_magnitude(n: u64, out: &mut String)
    ensures
        final(out)@ == old(out)@ + with_point(digits(n as nat)),
{
    proof {
        reveal_strlit(".");
    }
    if n >= 100 {
        append_digits(n / 100, out);
        out.append(".");
        out.append(digit_text((n / 10) % 10));
        out.append(digit_text(n % 10));
        proof {
            lemma_last_two_digits(n as nat);
            let d = digits(n as nat);
            assert(d.subrange(0, d.len() - 2) =~= digits((n / 100) as nat));
            assert(final(out)@ =~= old(out)@ + with_point(d));
        }
    } else if n >= 10 {
        out.append(".");
        out.append(digit_text(n / 10));
        out.append(digit_text(n % 10));
        proof {
            let d = digits(n as nat);
            assert(digits((n / 10) as nat) =~= seq![digit_char((n / 10) as nat)]) by {
                assert(digits(((n / 10) / 10) as nat) =~= Seq::<char>::empty());
            }
            assert(d =~= seq![digit_char((n / 10) as nat), digit_char((n % 10) as nat)]);
            assert(final(out)@ =~= old(out)@ + with_point(d));
        }
    } else if n > 0 {
        out.append(".");
        out.append(digit_text(n));
        proof {
            let d = digits(n as nat);
            assert(digits((n / 10) as nat) =~= Seq::<char>::empty());
            assert(d =~= seq![digit_char(n as nat)]);
            assert(final(out)@ =~= old(out)@ + with_point(d));
        }
    } else {
        out.append(".");
        proof {
            assert(final(out)@ =~= old(out)@ + with_point(digits(0)));
        }
    }
}

impl Money {
    /// The amount with the magnitude of `self` and a non-negative sign. The
    /// lowest amount has no such counterpart.
    pub open spec fn abs_spec(self) -> Money
        recommends
            self.0 > i64::MIN,
    {
        Money(magnitude_of(self.0 as int) as i64)
    }

    /// The amount with the same magnitude and a non-negative sign.
    pub fn abs(self) -> (r: Money)
        requires
            self.0 > i64::MIN,
        ensures
            r == self.abs_spec(),
            r.0 >= 0,
    {
        if self.0 < 0 {
            Money(-self.0)
        } else {
            self
        }
    }

    /// The magnitude of the amount, which fits an unsigned count even for the
    /// lowest amount.
    pub fn magnitude(self) -> (r: u64)
        ensures
            r as nat == magnitude_of(self.0 as int),
    {
        if self.0 == i64::MIN {
            9223372036854775808u64
        } else if self.0 < 0 {
            (-self.0) as u64
        } else {
            self.0 as u64
        }
    }

    /// The written form of the amount: `-` where it is negative, then the
    /// digits of its magnitude with a point before the last two. A magnitude
    /// of fewer than two digits is written behind the point as it is, so
    /// five minor units read `.5` and none reads `.`.
    pub fn to_string(&self) -> (s: String)
        ensures
            s@ == format_spec(self.0 as int),
    {
        let mut out = String::new();
        if self.0 < 0 {
            proof {
                reveal_strlit("-");
            }
            out.append("-");
        }
        append_magnitude(self.magnitude(), &mut out);
        assert(out@ =~= format_spec(self.0 as int));
        out
    }

    /// Reads an amount from `text`.
    ///
    /// The text must be a sign (`+` or `-`), one space, `$`, and then digits
    /// and points only. The first fault found, from the left, decides the
    /// error; a text whose digits count more than `i64::MAX` minor units is
    /// refused with `Overflow`.
    pub fn decode(text: &str) -> (r: Result<Money, ParseError>)
        ensures
            r == decode_spec(text@),
    {
        let mut input = text.chars();
        let sign = match input.next() {
            Some(c) => c,
            None => return Err(ParseError::MissingSign),
        };
        if sign != '+' && sign != '-' {
            return Err(ParseError::InvalidSign);
        }
        match input.next() {
            Some(' ') => {},
            Some(_) => return Err(ParseError::InvalidSeparator),
            None => return Err(ParseError::MissingSeparator),
        }
        match input.next() {
            Some('$') => {},
            Some(_) => return Err(ParseError::InvalidCurrencyMark),
            None => return Err(ParseError::MissingCurrencyMark),
        }
        let ghost body = text@.subrange(3, text@.len() as int);
        let ghost mut seen: int = 0;
        let mut num: u64 = 0;
        let mut overflow = false;
        assert(input.remaining() =~= body.skip(0));
        loop
            invariant
                text@.len() >= 3,
                text@[0] == sign,
                sign == '+' || sign == '-',
                text@[1] == ' ',
                text@[2] == '$',
                body == text@.subrange(3, text@.len() as int),
                0 <= seen <= body.len(),
                input.remaining() == body.skip(seen),
                first_invalid(body.take(seen)) is None,
                !overflow ==> num == digits_value(body.take(seen)) && num <= i64::MAX,
                overflow ==> digits_value(body.take(seen)) > i64::MAX,
            ensures
                seen == body.len(),
            decreases body.len() - seen,
        {
            let c = match input.next() {
                Some(c) => c,
                None => break,
            };
            proof {
                assert(body.skip(seen).drop_first() =~= body.skip(seen + 1));
                assert(body.take(seen + 1) =~= body.take(seen).push(c));
                lemma_push(body.take(seen), c);
                lemma_prefix(body, seen + 1);
                seen = seen + 1;
            }
            if '0' <= c && c <= '9' {
                let d: u64 = (c as u64) - ('0' as u64);
                if !overflow {
                    if num > (i64::MAX as u64 - d) / 10 {
                        overflow = true;
                    } else {
                        num = num * 10 + d;
                    }
                }
            } else if c != '.' {
                return Err(ParseError::InvalidDigit(c));
            }
        }
        proof {
            assert(body.take(seen) =~= body);
        }
        if overflow {
            Err(ParseError::Overflow)
        } else if sign == '-' {
            Ok(Money(-(num as i64)))
        } else {
            Ok(Money(num as i64))
        }
    }
}

} // verus!
