//! Duration texts joined by a blank mean the sum of what they mean apart.

use vstd::prelude::*;
use crate::duration::Span;
use crate::error::Error;
use crate::lexer::{is_sign, lemma_run_end, run_end, CharClass};
use crate::parser::{lemma_token_advances, parse, parse_from, token_at, unit_of_token, RawToken};
use crate::token::span_of;

verus! {

/// A run that ends inside a text ends at the same place when more text follows.
proof fn lemma_run_ends_inside(a: Seq<char>, rest: Seq<char>, i: int, class: CharClass)
    requires
        0 <= i <= a.len(),
        run_end(a, i, class) < a.len(),
    ensures
        run_end(a + rest, i, class) == run_end(a, i, class),
    decreases a.len() - i,
{
    lemma_run_end(a, i, class);
    if i < a.len() {
        assert((a + rest)[i] == a[i]);
        if class.has(a[i]) {
            lemma_run_ends_inside(a, rest, i + 1, class);
        }
    }
}

/// A run that reaches the end of a text goes on into the text that follows.
proof fn lemma_run_goes_on(a: Seq<char>, rest: Seq<char>, i: int, class: CharClass)
    requires
        0 <= i <= a.len(),
        run_end(a, i, class) == a.len(),
    ensures
        run_end(a + rest, i, class) == run_end(a + rest, a.len() as int, class),
    decreases a.len() - i,
{
    if i < a.len() {
        assert((a + rest)[i] == a[i]);
        lemma_run_goes_on(a, rest, i + 1, class);
    }
}

/// A run in a text lies as many places further on as there are characters
/// put before the text.
proof fn lemma_run_moves(before: Seq<char>, b: Seq<char>, i: int, class: CharClass)
    requires
        0 <= i <= b.len(),
    ensures
        run_end(before + b, before.len() + i, class) == before.len() + run_end(b, i, class),
    decreases b.len() - i,
{
    if i < b.len() {
        assert((before + b)[before.len() + i] == b[i]);
        if class.has(b[i]) {
            lemma_run_moves(before, b, i + 1, class);
        }
    }
}

/// A token of a text is the same token when a blank and more text follow.
proof fn lemma_token_stays(a: Seq<char>, rest: Seq<char>, j: int)
    requires
        0 <= j < a.len(),
        token_at(a, j) is Some,
        rest.len() > 0,
        rest[0] == ' ',
    ensures
        token_at(a + rest, j) == token_at(a, j),
{
    let s = a + rest;
    let signed = is_sign(a[j]);
    assert(s[j] == a[j]);
    let whole_from = if signed { j + 1 } else { j };
    let whole_to = run_end(a, whole_from, CharClass::Digit);
    lemma_run_end(a, whole_from, CharClass::Digit);
    let pointed = whole_to < a.len() && a[whole_to] == '.';
    if pointed {
        lemma_run_end(a, whole_to + 1, CharClass::Digit);
    }
    let fraction_to = if pointed { run_end(a, whole_to + 1, CharClass::Digit) } else { whole_to };
    lemma_run_end(a, fraction_to, CharClass::Space);
    let word_from = run_end(a, fraction_to, CharClass::Space);
    lemma_run_end(a, word_from, CharClass::Letter);
    let word_to = run_end(a, word_from, CharClass::Letter);
    assert(word_from < word_to <= a.len());
    lemma_run_ends_inside(a, rest, whole_from, CharClass::Digit);
    assert(s[whole_to] == a[whole_to]);
    if pointed {
        lemma_run_ends_inside(a, rest, whole_to + 1, CharClass::Digit);
    }
    lemma_run_ends_inside(a, rest, fraction_to, CharClass::Space);
    if word_to < a.len() {
        lemma_run_ends_inside(a, rest, word_from, CharClass::Letter);
    } else {
        lemma_run_goes_on(a, rest, word_from, CharClass::Letter);
        assert(s[a.len() as int] == rest[0]);
    }
    assert(s.subrange(whole_from, whole_to) =~= a.subrange(whole_from, whole_to));
    if pointed {
        assert(s.subrange(whole_to + 1, fraction_to) =~= a.subrange(whole_to + 1, fraction_to));
    }
    assert(s.subrange(word_from, word_to) =~= a.subrange(word_from, word_to));
}

/// A token with its end moved `by` places further on.
spec fn moved(t: Option<RawToken>, by: int) -> Option<RawToken> {
    match t {
        Some(t) => Some(RawToken { end: t.end + by, ..t }),
        None => None,
    }
}

/// A token in a text is the same token, as many places further on as there
/// are characters put before the text.
proof fn lemma_token_moves(before: Seq<char>, b: Seq<char>, j: int)
    requires
        0 <= j < b.len(),
    ensures
        token_at(before + b, before.len() + j) == moved(token_at(b, j), before.len() as int),
{
    let s = before + b;
    let n = before.len() as int;
    let signed = is_sign(b[j]);
    assert(s[n + j] == b[j]);
    let whole_from = if signed { j + 1 } else { j };
    let whole_to = run_end(b, whole_from, CharClass::Digit);
    lemma_run_end(b, whole_from, CharClass::Digit);
    lemma_run_moves(before, b, whole_from, CharClass::Digit);
    let pointed = whole_to < b.len() && b[whole_to] == '.';
    if whole_to < b.len() {
        assert(s[n + whole_to] == b[whole_to]);
    }
    if pointed {
        lemma_run_end(b, whole_to + 1, CharClass::Digit);
        lemma_run_moves(before, b, whole_to + 1, CharClass::Digit);
    }
    let fraction_to = if pointed { run_end(b, whole_to + 1, CharClass::Digit) } else { whole_to };
    lemma_run_end(b, fraction_to, CharClass::Space);
    lemma_run_moves(before, b, fraction_to, CharClass::Space);
    let word_from = run_end(b, fraction_to, CharClass::Space);
    lemma_run_end(b, word_from, CharClass::Letter);
    lemma_run_moves(before, b, word_from, CharClass::Letter);
    let word_to = run_end(b, word_from, CharClass::Letter);
    assert(s.subrange(n + whole_from, n + whole_to) =~= b.subrange(whole_from, whole_to));
    if pointed {
        assert(s.subrange(n + whole_to + 1, n + fraction_to) =~= b.subrange(
            whole_to + 1,
            fraction_to,
        ));
    }
    assert(s.subrange(n + word_from, n + word_to) =~= b.subrange(word_from, word_to));
}

/// Reading a text that means something comes, when a blank and more text
/// follow, to reading on from its end with what it means.
proof fn lemma_parse_reaches_end(
    a: Seq<char>,
    rest: Seq<char>,
    i: int,
    acc: Span,
    seen: bool,
    x: Span,
)
    requires
        0 <= i <= a.len(),
        parse_from(a, i, acc, seen) == Ok::<Span, Error>(x),
        rest.len() > 0,
        rest[0] == ' ',
    ensures
        parse_from(a + rest, i, acc, seen) == parse_from(a + rest, a.len() as int, x, true),
    decreases a.len() - i,
{
    let s = a + rest;
    let j = run_end(a, i, CharClass::Space);
    lemma_run_end(a, i, CharClass::Space);
    if j >= a.len() {
        lemma_run_goes_on(a, rest, i, CharClass::Space);
    } else {
        lemma_run_ends_inside(a, rest, i, CharClass::Space);
        lemma_token_stays(a, rest, j);
        lemma_token_advances(a, j);
        let t = token_at(a, j)->Some_0;
        let unit = unit_of_token(t)->Ok_0;
        let span = span_of(unit, t.negative, t.digits, t.scale);
        lemma_parse_reaches_end(a, rest, t.end, acc.plus(span), true, x);
    }
}

/// Reading a text from a place on is the same when characters are put
/// before the text and the place is counted from their start.
proof fn lemma_parse_moves(before: Seq<char>, b: Seq<char>, i: int, acc: Span, seen: bool)
    requires
        0 <= i <= b.len(),
    ensures
        parse_from(before + b, before.len() + i, acc, seen) == parse_from(b, i, acc, seen),
    decreases b.len() - i,
{
    let n = before.len() as int;
    let j = run_end(b, i, CharClass::Space);
    lemma_run_end(b, i, CharClass::Space);
    lemma_run_moves(before, b, i, CharClass::Space);
    if j < b.len() {
        lemma_token_moves(before, b, j);
        if token_at(b, j) is Some {
            lemma_token_advances(b, j);
            let t = token_at(b, j)->Some_0;
            if unit_of_token(t) is Ok {
                let unit = unit_of_token(t)->Ok_0;
                let span = span_of(unit, t.negative, t.digits, t.scale);
                lemma_parse_moves(before, b, t.end, acc.plus(span), true);
            }
        }
    }
}

/// What a text means on top of `acc` it means on top of `acc` and `x`,
/// with `x` added, unless the sum runs out of range on the way.
proof fn lemma_parse_carries(b: Seq<char>, i: int, acc: Span, seen: bool, x: Span, y: Span)
    requires
        0 <= i <= b.len(),
        parse_from(b, i, acc, seen) == Ok::<Span, Error>(y),
    ensures
        match parse_from(b, i, acc.plus(x), true) {
            Ok(z) => z == y.plus(x),
            Err(e) => e == Error::ArithmeticOverflow,
        },
    decreases b.len() - i,
{
    let j = run_end(b, i, CharClass::Space);
    lemma_run_end(b, i, CharClass::Space);
    if j < b.len() {
        lemma_token_advances(b, j);
        let t = token_at(b, j)->Some_0;
        let unit = unit_of_token(t)->Ok_0;
        let span = span_of(unit, t.negative, t.digits, t.scale);
        assert(acc.plus(x).plus(span) == acc.plus(span).plus(x));
        lemma_parse_carries(b, t.end, acc.plus(span), true, x, y);
    }
}

/// Two texts that each mean a duration, joined by a blank, mean the sum of
/// the two; the only fault that joining them can bring is an overflow of
/// the sum.
pub proof fn law_joined_texts_add_up(a: Seq<char>, b: Seq<char>)
    requires
        parse(a) is Ok,
        parse(b) is Ok,
    ensures
        match parse(a + seq![' '] + b) {
            Ok(z) => z == parse(a)->Ok_0.plus(parse(b)->Ok_0),
            Err(e) => e == Error::ArithmeticOverflow,
        },
{
    let x = parse(a)->Ok_0;
    let y = parse(b)->Ok_0;
    let rest = seq![' '] + b;
    let before = a + seq![' '];
    let s = a + seq![' '] + b;
    let n = a.len() as int;
    assert(s =~= a + rest);
    assert(s =~= before + b);
    lemma_parse_reaches_end(a, rest, 0, Span::zero(), false, x);
    assert(parse_from(s, n, x, true) == parse_from(s, n + 1, x, true)) by {
        assert(s[n] == ' ');
        assert(run_end(s, n, CharClass::Space) == run_end(s, n + 1, CharClass::Space));
    }
    lemma_parse_moves(before, b, 0, x, true);
    lemma_parse_carries(b, 0, Span::zero(), false, x, y);
    assert(Span::zero().plus(x) == x);
    assert(y.plus(x) == x.plus(y));
}

} // verus!
