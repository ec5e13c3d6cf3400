//! Reading a duration from text.
//!
//! A duration is written as one or more tokens, each a magnitude followed
//! by a unit word: `15 days 20 seconds 100 milliseconds`, `1h30m`, `-2.5h`.
//! White space may stand before, between and after the tokens, and between
//! a magnitude and its unit. A magnitude is an optional sign, one or more
//! digits, and optionally a point followed by one or more digits; its
//! digits, read as one number without the point, must not go beyond 64
//! bits. A unit word is a run of ASCII letters, or of these and the micro
//! sign, that the table of units knows. Months and years are counted in
//! whole numbers only. The tokens are summed from left to right.

use vstd::prelude::*;
use vstd::slice::slice_subrange;
use crate::duration::{Duration, Span, Unit};
use crate::error::Error;
use crate::lexer::{
    append_digits, is_digit, is_sign, is_space, lemma_append_digits_grows, lemma_run_end,
    lemma_run_end_from, lemma_run_end_is, read_digits, run_end, scan_run, CharClass,
};
use crate::text::chars_of;
use crate::token::{pow10, span_of, Magnitude, UnitToken};
use crate::units::{law_table_names_are_found, lemma_named_word_is_letters, names, unit_named};

verus! {

/// A token as it stands in the text, its unit word not yet looked up.
pub ghost struct RawToken {
    /// Whether the magnitude has a minus sign.
    pub negative: bool,
    /// The digits of the magnitude, read as one number without the point.
    pub digits: nat,
    /// How many of those digits stand after the point.
    pub scale: nat,
    /// The unit word.
    pub word: Seq<char>,
    /// The position after the unit word.
    pub end: int,
}

/// The token that starts at position `i` of `s`, if one does.
pub open spec fn token_at(s: Seq<char>, i: int) -> Option<RawToken> {
    let signed = 0 <= i < s.len() && is_sign(s[i]);
    let whole_from = if signed { i + 1 } else { i };
    let whole_to = run_end(s, whole_from, CharClass::Digit);
    let pointed = 0 <= whole_to < s.len() && s[whole_to] == '.';
    let fraction_to = if pointed { run_end(s, whole_to + 1, CharClass::Digit) } else { whole_to };
    let word_from = run_end(s, fraction_to, CharClass::Space);
    let word_to = run_end(s, word_from, CharClass::Letter);
    if whole_to == whole_from || (pointed && fraction_to == whole_to + 1) || word_to == word_from {
        None
    } else {
        Some(
            RawToken {
                negative: signed && s[i] == '-',
                digits: append_digits(
                    append_digits(0, s.subrange(whole_from, whole_to)),
                    if pointed { s.subrange(whole_to + 1, fraction_to) } else { Seq::empty() },
                ),
                scale: if pointed { (fraction_to - whole_to - 1) as nat } else { 0 },
                word: s.subrange(word_from, word_to),
                end: word_to,
            },
        )
    }
}

/// The unit that a token counts, or why the token is refused: its word
/// names no unit; it counts a fraction of a month or a year; or its digits
/// are beyond 64 bits.
pub open spec fn unit_of_token(t: RawToken) -> Result<Unit, Error> {
    match unit_named(t.word) {
        None => Err(Error::UnknownUnit),
        Some(unit) => if unit.is_calendar() && t.scale > 0 {
            Err(Error::InvalidDurationSyntax)
        } else if t.digits > u64::MAX {
            Err(Error::ArithmeticOverflow)
        } else {
            Ok(unit)
        },
    }
}

/// What the text from position `i` on means, given that the tokens before
/// it have summed to `acc`; `seen` says whether there were any.
pub open spec fn parse_from(s: Seq<char>, i: int, acc: Span, seen: bool) -> Result<Span, Error>
    decreases s.len() - i,
    via parse_from_decreases
{
    let j = run_end(s, i, CharClass::Space);
    if j >= s.len() {
        if seen {
            Ok(acc)
        } else {
            Err(Error::InvalidDurationSyntax)
        }
    } else {
        match token_at(s, j) {
            None => Err(Error::InvalidDurationSyntax),
            Some(t) => match unit_of_token(t) {
                Err(e) => Err(e),
                Ok(unit) => {
                    let span = span_of(unit, t.negative, t.digits, t.scale);
                    if span.fits() && acc.plus(span).fits() {
                        parse_from(s, t.end, acc.plus(span), true)
                    } else {
                        Err(Error::ArithmeticOverflow)
                    }
                },
            },
        }
    }
}

#[via_fn]
proof fn parse_from_decreases(s: Seq<char>, i: int, acc: Span, seen: bool) {
    let j = run_end(s, i, CharClass::Space);
    lemma_run_end_from(s, i, CharClass::Space);
    if j < s.len() && token_at(s, j) is Some {
        if j < 0 {
            assert(run_end(s, j, CharClass::Digit) == j);
        } else {
            lemma_token_advances(s, j);
        }
    }
}

/// A token ends after the position it starts at, and within the text.
pub proof fn lemma_token_advances(s: Seq<char>, i: int)
    requires
        0 <= i <= s.len(),
        token_at(s, i) is Some,
    ensures
        i < token_at(s, i)->Some_0.end <= s.len(),
{
    let signed = 0 <= i < s.len() && is_sign(s[i]);
    let whole_from = if signed { i + 1 } else { i };
    let whole_to = run_end(s, whole_from, CharClass::Digit);
    lemma_run_end(s, whole_from, CharClass::Digit);
    let pointed = 0 <= whole_to < s.len() && s[whole_to] == '.';
    if pointed {
        lemma_run_end(s, whole_to + 1, CharClass::Digit);
    }
    let fraction_to = if pointed { run_end(s, whole_to + 1, CharClass::Digit) } else { whole_to };
    lemma_run_end(s, fraction_to, CharClass::Space);
    let word_from = run_end(s, fraction_to, CharClass::Space);
    lemma_run_end(s, word_from, CharClass::Letter);
}

/// The meaning of a duration text: the sum of its tokens, or the first
/// reason, from left to right, why it has none.
pub open spec fn parse(s: Seq<char>) -> Result<Span, Error> {
    parse_from(s, 0, Span::zero(), false)
}

/// A text of white space alone, the empty text among them, is no duration.
pub proof fn law_blank_text_is_refused(s: Seq<char>)
    requires
        forall|k: int| 0 <= k < s.len() ==> is_space(#[trigger] s[k]),
    ensures
        parse(s) == Err::<Span, Error>(Error::InvalidDurationSyntax),
{
    lemma_run_end_is(s, 0, s.len() as int, CharClass::Space);
}

/// What a text of one token means: the token is an optional sign, a whole
/// number and, at once after it, a unit word.
proof fn lemma_one_token(sign: Seq<char>, digits: Seq<char>, word: Seq<char>)
    requires
        sign.len() == 0 || (sign.len() == 1 && is_sign(sign[0])),
        digits.len() > 0,
        forall|k: int| 0 <= k < digits.len() ==> is_digit(#[trigger] digits[k]),
        unit_named(word) is Some,
        append_digits(0, digits) <= u64::MAX,
        span_of(
            unit_named(word)->Some_0,
            sign == seq!['-'],
            append_digits(0, digits),
            0,
        ).fits(),
    ensures
        parse(sign + digits + word) == Ok::<Span, Error>(
            span_of(unit_named(word)->Some_0, sign == seq!['-'], append_digits(0, digits), 0),
        ),
{
    let s = sign + digits + word;
    let m = sign.len() as int;
    let n = m + digits.len();
    let unit = unit_named(word)->Some_0;
    let negative = sign == seq!['-'];
    let span = span_of(unit, negative, append_digits(0, digits), 0);
    lemma_named_word_is_letters(word);
    assert(s[n] == word[0]);
    assert forall|k: int| n <= k < s.len() implies CharClass::Letter.has(#[trigger] s[k]) by {
        assert(s[k] == word[k - n]);
    }
    assert forall|k: int| m <= k < n implies CharClass::Digit.has(#[trigger] s[k]) by {
        assert(s[k] == digits[k - m]);
    }
    assert(is_digit(s[m]));
    if m == 1 {
        assert(s[0] == sign[0]);
        assert(negative == (s[0] == '-')) by {
            if s[0] == '-' {
                assert(sign =~= seq!['-']);
            }
        }
    } else {
        assert(sign.len() != seq!['-'].len());
    }
    lemma_run_end_is(s, 0, 0, CharClass::Space);
    lemma_run_end_is(s, m, n, CharClass::Digit);
    lemma_run_end_is(s, n, n, CharClass::Space);
    lemma_run_end_is(s, n, s.len() as int, CharClass::Letter);
    lemma_run_end_is(s, s.len() as int, s.len() as int, CharClass::Space);
    assert(s.subrange(m, n) =~= digits);
    assert(s.subrange(n, s.len() as int) =~= word);
    let t = token_at(s, 0)->Some_0;
    assert(token_at(s, 0) is Some);
    assert(t.negative == negative);
    assert(t.digits == append_digits(0, digits));
    assert(t.scale == 0);
    assert(t.word == word);
    assert(t.end == s.len());
    assert(unit_of_token(t) == Ok::<Unit, Error>(unit));
    assert(Span::zero().plus(span) == span);
    assert(parse_from(s, s.len() as int, span, true) == Ok::<Span, Error>(span));
    assert(parse_from(s, 0, Span::zero(), false) == parse_from(s, t.end, span, true));
}

/// A whole number followed at once by a unit word means that many of the
/// unit, where a duration can hold them.
pub proof fn law_single_token(digits: Seq<char>, word: Seq<char>)
    requires
        digits.len() > 0,
        forall|k: int| 0 <= k < digits.len() ==> is_digit(#[trigger] digits[k]),
        unit_named(word) is Some,
        append_digits(0, digits) <= u64::MAX,
        span_of(unit_named(word)->Some_0, false, append_digits(0, digits), 0).fits(),
    ensures
        parse(digits + word) == Ok::<Span, Error>(
            span_of(unit_named(word)->Some_0, false, append_digits(0, digits), 0),
        ),
{
    let sign = Seq::<char>::empty();
    assert(sign + digits =~= digits);
    assert(sign.len() != seq!['-'].len());
    lemma_one_token(sign, digits, word);
}

/// A minus sign before a token takes away what the token would add: the
/// same number of the same unit, negated.
pub proof fn law_minus_subtracts(digits: Seq<char>, word: Seq<char>)
    requires
        digits.len() > 0,
        forall|k: int| 0 <= k < digits.len() ==> is_digit(#[trigger] digits[k]),
        unit_named(word) is Some,
        append_digits(0, digits) <= u64::MAX,
        span_of(unit_named(word)->Some_0, true, append_digits(0, digits), 0).fits(),
    ensures
        parse(seq!['-'] + digits + word) == Ok::<Span, Error>(
            span_of(unit_named(word)->Some_0, true, append_digits(0, digits), 0),
        ),
        span_of(unit_named(word)->Some_0, true, append_digits(0, digits), 0).plus(
            span_of(unit_named(word)->Some_0, false, append_digits(0, digits), 0),
        ) == Span::zero(),
{
    lemma_one_token(seq!['-'], digits, word);
}

/// One of any unit: `1` and a name of the unit mean the unit's length if
/// the unit has a fixed length, and one on its counter if it is a month or
/// a year.
pub proof fn law_one_of_each_unit(word: Seq<char>)
    requires
        unit_named(word) is Some,
    ensures
        parse(seq!['1'] + word) == Ok::<Span, Error>(Span::one(unit_named(word)->Some_0)),
{
    let digits = seq!['1'];
    let unit = unit_named(word)->Some_0;
    assert(digits.drop_last() =~= Seq::<char>::empty());
    assert(append_digits(0, digits) == 1) by {
        reveal_with_fuel(append_digits, 2);
    }
    assert(pow10(0) == 1);
    assert(span_of(unit, false, 1, 0) == Span::one(unit));
    law_single_token(digits, word);
}

/// One of any unit, by each name in the table: `1` and the name mean one
/// of the unit that the name stands under.
pub proof fn law_one_of_each_name(unit: Unit, i: int)
    requires
        0 <= i < names(unit).len(),
    ensures
        parse(seq!['1'] + names(unit)[i]) == Ok::<Span, Error>(Span::one(unit)),
{
    law_table_names_are_found(unit, i);
    law_one_of_each_unit(names(unit)[i]);
}

/// None of any unit: `0` and a name of a unit mean the empty span.
pub proof fn law_zero_of_any_unit(word: Seq<char>)
    requires
        unit_named(word) is Some,
    ensures
        parse(seq!['0'] + word) == Ok::<Span, Error>(Span::zero()),
{
    let digits = seq!['0'];
    let unit = unit_named(word)->Some_0;
    assert(digits.drop_last() =~= Seq::<char>::empty());
    assert(append_digits(0, digits) == 0) by {
        reveal_with_fuel(append_digits, 2);
    }
    assert(pow10(0) == 1);
    assert(span_of(unit, false, 0, 0) == Span::zero());
    law_single_token(digits, word);
}

/// Reads the token that starts at position `i`, and says where it ends.
fn read_token(s: &[char], i: usize) -> (r: Result<(UnitToken, usize), Error>)
    requires
        i < s.len(),
    ensures
        match token_at(s@, i as int) {
            None => r == Err::<(UnitToken, usize), Error>(Error::InvalidDurationSyntax),
            Some(t) => match unit_of_token(t) {
                Err(e) => r == Err::<(UnitToken, usize), Error>(e),
                Ok(unit) => match r {
                    Ok((token, end)) => {
                        &&& token.unit == unit
                        &&& token.magnitude.negative == t.negative
                        &&& token.magnitude.digits == t.digits
                        &&& token.magnitude.scale == t.scale
                        &&& end == t.end
                        &&& i < end <= s.len()
                    },
                    Err(_) => false,
                },
            },
        },
{
    let signed = s[i] == '+' || s[i] == '-';
    let negative = s[i] == '-';
    let whole_from: usize = if signed { i + 1 } else { i };
    let whole_to: usize = scan_run(s, whole_from, CharClass::Digit);
    if whole_to == whole_from {
        return Err(Error::InvalidDurationSyntax);
    }
    let pointed = whole_to < s.len() && s[whole_to] == '.';
    let fraction_to: usize = if pointed {
        scan_run(s, whole_to + 1, CharClass::Digit)
    } else {
        whole_to
    };
    if pointed && fraction_to == whole_to + 1 {
        return Err(Error::InvalidDurationSyntax);
    }
    let word_from: usize = scan_run(s, fraction_to, CharClass::Space);
    let word_to: usize = scan_run(s, word_from, CharClass::Letter);
    if word_to == word_from {
        return Err(Error::InvalidDurationSyntax);
    }
    let ghost t = token_at(s@, i as int)->Some_0;
    let unit = match Unit::from_word(slice_subrange(s, word_from, word_to)) {
        Some(unit) => unit,
        None => {
            return Err(Error::UnknownUnit);
        },
    };
    if unit.calendar() && pointed {
        return Err(Error::InvalidDurationSyntax);
    }
    proof {
        lemma_run_end(s@, whole_from as int, CharClass::Digit);
        if pointed {
            lemma_run_end(s@, whole_to + 1, CharClass::Digit);
        }
    }
    let ghost whole = s@.subrange(whole_from as int, whole_to as int);
    let ghost fraction = if pointed {
        s@.subrange(whole_to + 1, fraction_to as int)
    } else {
        Seq::<char>::empty()
    };
    let whole_digits: u64 = match read_digits(s, whole_from, whole_to, 0) {
        Some(v) => v,
        None => {
            proof {
                lemma_append_digits_grows(append_digits(0, whole), fraction, 0);
                assert(fraction.take(0) =~= Seq::<char>::empty());
            }
            return Err(Error::ArithmeticOverflow);
        },
    };
    let digits: u64 = if pointed {
        match read_digits(s, whole_to + 1, fraction_to, whole_digits) {
            Some(v) => v,
            None => {
                return Err(Error::ArithmeticOverflow);
            },
        }
    } else {
        whole_digits
    };
    let scale: usize = if pointed { fraction_to - whole_to - 1 } else { 0 };
    let token = UnitToken { magnitude: Magnitude { negative, digits, scale }, unit };
    Ok((token, word_to))
}

/// Reads a duration from text such as `"15 days 20 seconds 100 milliseconds"`.
///
/// The result is the sum of the tokens. The text is refused with
/// `InvalidDurationSyntax` if it holds no token or anything that is not
/// one, with `UnknownUnit` if a unit word is not in the table, and with
/// `ArithmeticOverflow` if a magnitude or the running sum cannot be held;
/// of several faults the leftmost decides.
pub fn parse_duration(expr: &str) -> (r: Result<Duration, Error>)
    ensures
        match r {
            Ok(d) => parse(expr@) == Ok::<Span, Error>(d@),
            Err(e) => parse(expr@) == Err::<Span, Error>(e),
        },
{
    let chars = chars_of(expr);
    let s = chars.as_slice();
    let mut total = Duration::zero();
    let mut seen = false;
    let mut i: usize = 0;
    loop
        invariant
            s@ == expr@,
            i <= s.len(),
            parse_from(s@, i as int, total@, seen) == parse(expr@),
        decreases s.len() - i,
    {
        let j: usize = scan_run(s, i, CharClass::Space);
        if j >= s.len() {
            if seen {
                return Ok(total);
            } else {
                return Err(Error::InvalidDurationSyntax);
            }
        }
        let (token, end) = match read_token(s, j) {
            Ok(found) => found,
            Err(e) => {
                return Err(e);
            },
        };
        let part = match token.to_duration() {
            Ok(d) => d,
            Err(e) => {
                return Err(e);
            },
        };
        total = match total.checked_add(&part) {
            Some(sum) => sum,
            None => {
                return Err(Error::ArithmeticOverflow);
            },
        };
        seen = true;
        i = end;
    }
}

} // verus!
