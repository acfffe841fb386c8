//! Decimal numbers as text, and joining words.

use vstd::prelude::*;

verus! {

/// Whether `c` is one of the ten ASCII digits.
pub open spec fn is_digit(c: char) -> bool {
    '0' <= c <= '9'
}

/// The value of the digit `c`.
pub open spec fn digit_value(c: char) -> nat
    recommends
        is_digit(c),
{
    (c as int - '0' as int) as nat
}

/// The digit that stands for `d`.
pub open spec fn digit_char(d: nat) -> char
    recommends
        d < 10,
{
    ('0' as int + d) as char
}

/// Whether every character of `s` is a digit.
pub open spec fn all_digits(s: Seq<char>) -> bool {
    forall|i: int| 0 <= i < s.len() ==> is_digit(#[trigger] s[i])
}

/// The number that the digits `s` write in base ten; the empty text writes 0.
pub open spec fn decimal_value(s: Seq<char>) -> nat
    decreases s.len(),
{
    if s.len() == 0 {
        0
    } else {
        decimal_value(s.drop_last()) * 10 + digit_value(s.last())
    }
}

/// How many digits `s` starts with.
pub open spec fn digit_run(s: Seq<char>) -> nat
    decreases s.len(),
{
    if s.len() == 0 || !is_digit(s[0]) {
        0
    } else {
        1 + digit_run(s.drop_first())
    }
}

/// Why a text is not a number that fits.
#[derive(Clone, Copy, Debug, PartialEq, Eq, Structural)]
pub enum ParseFailure {
    /// The text is empty.
    Empty,
    /// A character is not a digit, or a sign stands alone.
    InvalidDigit,
    /// The digits write a number above the limit.
    Overflow,
}

impl ParseFailure {
    /// The words for this failure.
    pub open spec fn message(self) -> Seq<char> {
        match self {
            ParseFailure::Empty => "cannot parse integer from empty string"@,
            ParseFailure::InvalidDigit => "invalid digit found in string"@,
            ParseFailure::Overflow => "number too large to fit in target type"@,
        }
    }

    /// The words for this failure.
    pub fn to_str(&self) -> (text: &'static str)
        ensures
            text@ == self.message(),
    {
        match self {
            ParseFailure::Empty => "cannot parse integer from empty string",
            ParseFailure::InvalidDigit => "invalid digit found in string",
            ParseFailure::Overflow => "number too large to fit in target type",
        }
    }
}

/// The number that `s` writes, if it is at most `max`.
///
/// A number is written as an optional `+` followed by one or more ASCII digits.
/// Reading goes from left to right and stops at the first fault: digits that
/// already exceed `max` are an overflow even if a character after them is no
/// digit.
pub open spec fn parse_decimal(s: Seq<char>, max: nat) -> Result<nat, ParseFailure> {
    let digits = if s.len() > 0 && s[0] == '+' {
        s.drop_first()
    } else {
        s
    };
    let run = digits.take(digit_run(digits) as int);
    if s.len() == 0 {
        Err(ParseFailure::Empty)
    } else if digits.len() == 0 {
        Err(ParseFailure::InvalidDigit)
    } else if decimal_value(run) > max {
        Err(ParseFailure::Overflow)
    } else if run.len() < digits.len() {
        Err(ParseFailure::InvalidDigit)
    } else {
        Ok(decimal_value(run))
    }
}

/// The digits of `n` in base ten, without leading zeros.
pub open spec fn decimal_text(n: nat) -> Seq<char>
    decreases n,
{
    if n < 10 {
        seq![digit_char(n)]
    } else {
        decimal_text(n / 10).push(digit_char(n % 10))
    }
}

/// The words with one space between neighbours.
pub open spec fn join_words(words: Seq<Seq<char>>) -> Seq<char>
    decreases words.len(),
{
    if words.len() == 0 {
        Seq::empty()
    } else if words.len() == 1 {
        words[0]
    } else {
        join_words(words.drop_last()) + seq![' '] + words.last()
    }
}

/// A run of digits that is followed by a character that is no digit, or by the
/// end of the text, is the whole digit run.
pub proof fn lemma_digit_run(s: Seq<char>, n: int)
    requires
        0 <= n <= s.len(),
        all_digits(s.take(n)),
        n < s.len() ==> !is_digit(s[n]),
    ensures
        digit_run(s) == n,
    decreases n,
{
    if n == 0 {
    } else {
        assert(is_digit(s.take(n)[0]));
        let rest = s.drop_first();
        assert forall|i: int| 0 <= i < n - 1 implies is_digit(#[trigger] rest.take(n - 1)[i]) by {
            assert(rest.take(n - 1)[i] == s.take(n)[i + 1]);
        }
        lemma_digit_run(rest, n - 1);
    }
}

/// At least as many digits start the text as a prefix made of digits has.
pub proof fn lemma_digit_run_at_least(s: Seq<char>, n: int)
    requires
        0 <= n <= s.len(),
        all_digits(s.take(n)),
    ensures
        digit_run(s) >= n,
        digit_run(s) <= s.len(),
        all_digits(s.take(digit_run(s) as int)),
    decreases s.len(),
{
    if s.len() == 0 || !is_digit(s[0]) {
        if n > 0 {
            assert(is_digit(s.take(n)[0]));
        }
        assert(s.take(0) =~= Seq::<char>::empty());
    } else {
        let rest = s.drop_first();
        let m = if n > 0 { n - 1 } else { 0 };
        assert forall|i: int| 0 <= i < m implies is_digit(#[trigger] rest.take(m)[i]) by {
            assert(rest.take(m)[i] == s.take(n)[i + 1]);
        }
        lemma_digit_run_at_least(rest, m);
        let r = digit_run(rest) as int;
        assert forall|i: int| 0 <= i < r + 1 implies is_digit(#[trigger] s.take(r + 1)[i]) by {
            if i > 0 {
                assert(s.take(r + 1)[i] == rest.take(r)[i - 1]);
            }
        }
    }
}

/// More digits never write a smaller number.
pub proof fn lemma_decimal_value_grows(s: Seq<char>, n: int, m: int)
    requires
        0 <= n <= m <= s.len(),
    ensures
        decimal_value(s.take(n)) <= decimal_value(s.take(m)),
    decreases m - n,
{
    if n < m {
        lemma_decimal_value_grows(s, n, m - 1);
        assert(s.take(m).drop_last() =~= s.take(m - 1));
    }
}

/// The number that `text` writes, if it fits a `usize`.
pub fn parse_usize(text: &str) -> (parsed: Result<usize, ParseFailure>)
    ensures
        parsed matches Ok(n) ==> parse_decimal(text@, usize::MAX as nat) == Ok::<nat, ParseFailure>(
            n as nat,
        ),
        parsed matches Err(e) ==> parse_decimal(text@, usize::MAX as nat) == Err::<
            nat,
            ParseFailure,
        >(e),
{
    let len: usize = text.unicode_len();
    if len == 0 {
        return Err(ParseFailure::Empty);
    }
    let start: usize = if text.get_char(0) == '+' {
        1
    } else {
        0
    };
    if start == len {
        return Err(ParseFailure::InvalidDigit);
    }
    let ghost digits = text@.skip(start as int);
    proof {
        assert(text@.skip(0) =~= text@);
        assert(text@.skip(1) =~= text@.drop_first());
    }
    let mut value: usize = 0;
    let mut i: usize = start;
    while i < len
        invariant
            start <= i <= len,
            len == text@.len(),
            digits == text@.skip(start as int),
            digits.len() > 0,
            digits == if text@[0] == '+' {
                text@.drop_first()
            } else {
                text@
            },
            all_digits(digits.take(i - start)),
            value == decimal_value(digits.take(i - start)),
        decreases len - i,
    {
        let c: char = text.get_char(i);
        let ghost seen = digits.take(i - start);
        let ghost next = digits.take(i - start + 1);
        if !(c >= '0' && c <= '9') {
            proof {
                lemma_digit_run(digits, i - start);
            }
            return Err(ParseFailure::InvalidDigit);
        }
        let d: usize = (c as u32 - '0' as u32) as usize;
        proof {
            assert(next.drop_last() =~= seen);
            assert(next.last() == c);
            assert forall|k: int| 0 <= k < next.len() implies is_digit(#[trigger] next[k]) by {
                if k < seen.len() {
                    assert(next[k] == seen[k]);
                }
            }
            assert(decimal_value(next) == value * 10 + d);
            lemma_digit_run_at_least(digits, i - start + 1);
            lemma_decimal_value_grows(digits, i - start + 1, digit_run(digits) as int);
        }
        let scaled: usize = match value.checked_mul(10) {
            Some(v) => v,
            None => {
                return Err(ParseFailure::Overflow);
            },
        };
        value = match scaled.checked_add(d) {
            Some(v) => v,
            None => {
                return Err(ParseFailure::Overflow);
            },
        };
        i += 1;
    }
    proof {
        assert(digits.take(len - start) =~= digits);
        lemma_digit_run(digits, len - start);
    }
    Ok(value)
}

/// The text of one digit.
fn digit_text(d: usize) -> (text: &'static str)
    requires
        d < 10,
    ensures
        text@ == seq![digit_char(d as nat)],
{
    proof {
        reveal_strlit("0");
        reveal_strlit("1");
        reveal_strlit("2");
        reveal_strlit("3");
        reveal_strlit("4");
        reveal_strlit("5");
        reveal_strlit("6");
        reveal_strlit("7");
        reveal_strlit("8");
        reveal_strlit("9");
    }
    let text: &'static str = match d {
        0 => "0",
        1 => "1",
        2 => "2",
        3 => "3",
        4 => "4",
        5 => "5",
        6 => "6",
        7 => "7",
        8 => "8",
        _ => "9",
    };
    assert(text@ =~= seq![digit_char(d as nat)]);
    text
}

/// The number `n` written in base ten.
pub fn decimal(n: usize) -> (text: String)
    ensures
        text@ == decimal_text(n as nat),
    decreases n,
{
    if n < 10 {
        String::from_str(digit_text(n))
    } else {
        let mut text: String = decimal(n / 10);
        text.append(digit_text(n % 10));
        assert(text@ =~= decimal_text(n as nat));
        text
    }
}

/// The words from position `from` on, with one space between neighbours.
pub fn join(words: &[String], from: usize) -> (text: String)
    requires
        from <= words.len(),
    ensures
        text@ == join_words(words.deep_view().skip(from as int)),
{
    let ghost tail = words.deep_view().skip(from as int);
    let mut text: String = String::new();
    let mut i: usize = from;
    proof {
        assert(tail.take(0) =~= Seq::<Seq<char>>::empty());
    }
    while i < words.len()
        invariant
            from <= i <= words.len(),
            tail == words.deep_view().skip(from as int),
            text@ == join_words(tail.take(i - from)),
        decreases words.len() - i,
    {
        if i > from {
            text.append(" ");
        }
        text.append(words[i].as_str());
        proof {
            reveal_strlit(" ");
            let seen = tail.take(i - from);
            let next = tail.take(i - from + 1);
            assert(next.drop_last() =~= seen);
            assert(next.last() == words[i as int]@);
            assert(" "@ =~= seq![' ']);
            assert(text@ =~= join_words(next));
        }
        i += 1;
    }
    proof {
        assert(tail.take(words.len() - from) =~= tail);
    }
    text
}

} // verus!
