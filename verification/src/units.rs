//! The table of unit words.
//!
//! Each unit has a short form or two and its full name, singular and
//! plural. Words are matched without regard to the case of ASCII letters.
//! A bare `m` is minutes; months are `mo`.

use vstd::prelude::*;
use crate::duration::Unit;
use crate::lexer::is_letter;
use crate::text::chars_of;

verus! {

/// The lower-case form of an upper-case ASCII letter; any other character itself.
pub open spec fn lower(c: char) -> char {
    if 'A' <= c <= 'Z' {
        ((c as u8) + 32) as char
    } else {
        c
    }
}

/// A word with each of its characters in lower case.
pub open spec fn lower_word(word: Seq<char>) -> Seq<char> {
    Seq::new(word.len(), |i: int| lower(word[i]))
}

/// The words that name `unit`, all in lower case.
pub open spec fn names(unit: Unit) -> Seq<Seq<char>> {
    match unit {
        Unit::Nanosecond => seq!["ns"@, "nanosecond"@, "nanoseconds"@],
        Unit::Microsecond => seq!["us"@, "µs"@, "microsecond"@, "microseconds"@],
        Unit::Millisecond => seq!["ms"@, "millisecond"@, "milliseconds"@],
        Unit::Second => seq!["s"@, "sec"@, "second"@, "seconds"@],
        Unit::Minute => seq!["m"@, "min"@, "minute"@, "minutes"@],
        Unit::Hour => seq!["h"@, "hr"@, "hour"@, "hours"@],
        Unit::Day => seq!["d"@, "day"@, "days"@],
        Unit::Week => seq!["w"@, "week"@, "weeks"@],
        Unit::Month => seq!["mo"@, "month"@, "months"@],
        Unit::Year => seq!["y"@, "yr"@, "year"@, "years"@],
    }
}

/// Whether `c` is a lower-case ASCII letter or the micro sign.
pub open spec fn is_lower_letter(c: char) -> bool {
    'a' <= c <= 'z' || c == 'µ'
}

/// Whether `word`, in whatever case, is one of the names of `unit`.
pub open spec fn is_name_of(word: Seq<char>, unit: Unit) -> bool {
    names(unit).contains(lower_word(word))
}

/// The unit that `word` names, if it names one.
pub open spec fn unit_named(word: Seq<char>) -> Option<Unit> {
    if is_name_of(word, Unit::Nanosecond) {
        Some(Unit::Nanosecond)
    } else if is_name_of(word, Unit::Microsecond) {
        Some(Unit::Microsecond)
    } else if is_name_of(word, Unit::Millisecond) {
        Some(Unit::Millisecond)
    } else if is_name_of(word, Unit::Second) {
        Some(Unit::Second)
    } else if is_name_of(word, Unit::Minute) {
        Some(Unit::Minute)
    } else if is_name_of(word, Unit::Hour) {
        Some(Unit::Hour)
    } else if is_name_of(word, Unit::Day) {
        Some(Unit::Day)
    } else if is_name_of(word, Unit::Week) {
        Some(Unit::Week)
    } else if is_name_of(word, Unit::Month) {
        Some(Unit::Month)
    } else if is_name_of(word, Unit::Year) {
        Some(Unit::Year)
    } else {
        None
    }
}

/// Every name in the table is a word: it is not empty, and it is made of
/// lower-case letters.
pub proof fn lemma_names_are_words(unit: Unit)
    ensures
        forall|i: int| 0 <= i < names(unit).len() ==> (#[trigger] names(unit)[i]).len() > 0,
        forall|i: int, k: int|
            0 <= i < names(unit).len() && 0 <= k < names(unit)[i].len() ==> is_lower_letter(
                #[trigger] names(unit)[i][k],
            ),
{
    match unit {
        Unit::Nanosecond => {
            reveal_strlit("ns");
            reveal_strlit("nanosecond");
            reveal_strlit("nanoseconds");
        },
        Unit::Microsecond => {
            reveal_strlit("us");
            reveal_strlit("µs");
            reveal_strlit("microsecond");
            reveal_strlit("microseconds");
        },
        Unit::Millisecond => {
            reveal_strlit("ms");
            reveal_strlit("millisecond");
            reveal_strlit("milliseconds");
        },
        Unit::Second => {
            reveal_strlit("s");
            reveal_strlit("sec");
            reveal_strlit("second");
            reveal_strlit("seconds");
        },
        Unit::Minute => {
            reveal_strlit("m");
            reveal_strlit("min");
            reveal_strlit("minute");
            reveal_strlit("minutes");
        },
        Unit::Hour => {
            reveal_strlit("h");
            reveal_strlit("hr");
            reveal_strlit("hour");
            reveal_strlit("hours");
        },
        Unit::Day => {
            reveal_strlit("d");
            reveal_strlit("day");
            reveal_strlit("days");
        },
        Unit::Week => {
            reveal_strlit("w");
            reveal_strlit("week");
            reveal_strlit("weeks");
        },
        Unit::Month => {
            reveal_strlit("mo");
            reveal_strlit("month");
            reveal_strlit("months");
        },
        Unit::Year => {
            reveal_strlit("y");
            reveal_strlit("yr");
            reveal_strlit("year");
            reveal_strlit("years");
        },
    }
}

/// A word that names a unit is not empty and is made of letters.
pub proof fn lemma_named_word_is_letters(word: Seq<char>)
    requires
        unit_named(word) is Some,
    ensures
        word.len() > 0,
        forall|k: int| 0 <= k < word.len() ==> is_letter(#[trigger] word[k]),
{
    let unit = unit_named(word)->Some_0;
    let w = lower_word(word);
    let i = choose|i: int| 0 <= i < names(unit).len() && names(unit)[i] == w;
    lemma_names_are_words(unit);
    assert forall|k: int| 0 <= k < word.len() implies is_letter(#[trigger] word[k]) by {
        assert(is_lower_letter(names(unit)[i][k]));
        assert(w[k] == lower(word[k]));
    }
}

/// No word names two units: a bare `m` is minutes and nothing else.
pub proof fn law_names_unambiguous(a: Unit, b: Unit, word: Seq<char>)
    requires
        is_name_of(word, a),
        is_name_of(word, b),
    ensures
        a == b,
{
    let w = lower_word(word);
    let i = choose|i: int| 0 <= i < names(a).len() && names(a)[i] == w;
    let j = choose|j: int| 0 <= j < names(b).len() && names(b)[j] == w;
    lemma_names_are_words(a);
    assert(names(a)[i].len() == names(b)[j].len());
    assert(names(a)[i][0] == names(b)[j][0]);
    assert(w.len() > 1 ==> names(a)[i][1] == names(b)[j][1]);
    assert(w.len() > 2 ==> names(a)[i][2] == names(b)[j][2]);
    reveal_strlit("ns");
    reveal_strlit("nanosecond");
    reveal_strlit("nanoseconds");
    reveal_strlit("us");
    reveal_strlit("µs");
    reveal_strlit("microsecond");
    reveal_strlit("microseconds");
    reveal_strlit("ms");
    reveal_strlit("millisecond");
    reveal_strlit("milliseconds");
    reveal_strlit("s");
    reveal_strlit("sec");
    reveal_strlit("second");
    reveal_strlit("seconds");
    reveal_strlit("m");
    reveal_strlit("min");
    reveal_strlit("minute");
    reveal_strlit("minutes");
    reveal_strlit("h");
    reveal_strlit("hr");
    reveal_strlit("hour");
    reveal_strlit("hours");
    reveal_strlit("d");
    reveal_strlit("day");
    reveal_strlit("days");
    reveal_strlit("w");
    reveal_strlit("week");
    reveal_strlit("weeks");
    reveal_strlit("mo");
    reveal_strlit("month");
    reveal_strlit("months");
    reveal_strlit("y");
    reveal_strlit("yr");
    reveal_strlit("year");
    reveal_strlit("years");
}

/// Every name in the table is found again as the unit it stands under.
pub proof fn law_table_names_are_found(unit: Unit, i: int)
    requires
        0 <= i < names(unit).len(),
    ensures
        unit_named(names(unit)[i]) == Some(unit),
{
    let name = names(unit)[i];
    lemma_names_are_words(unit);
    assert(lower_word(name) =~= name) by {
        assert forall|k: int| 0 <= k < name.len() implies lower(name[k]) == name[k] by {
            assert(is_lower_letter(names(unit)[i][k]));
        }
    }
    assert(is_name_of(name, unit));
    law_names_unambiguous(unit, unit_named(name)->Some_0, name);
}

/// The case of ASCII letters does not matter: words that are the same in
/// lower case name the same unit, or none.
pub proof fn law_case_is_ignored(word: Seq<char>, other: Seq<char>)
    requires
        lower_word(word) == lower_word(other),
    ensures
        unit_named(word) == unit_named(other),
{
}

/// The lower-case form of an upper-case ASCII letter; any other character itself.
pub fn to_lower(c: char) -> (r: char)
    ensures
        r == lower(c),
{
    if 'A' <= c && c <= 'Z' {
        ((c as u8) + 32) as char
    } else {
        c
    }
}

/// `word` with each of its characters in lower case.
pub fn to_lower_word(word: &[char]) -> (r: Vec<char>)
    ensures
        r@ == lower_word(word@),
{
    let mut r: Vec<char> = Vec::new();
    let mut i: usize = 0;
    while i < word.len()
        invariant
            i <= word.len(),
            r@.len() == i,
            forall|j: int| 0 <= j < i ==> r@[j] == lower(word@[j]),
        decreases word.len() - i,
    {
        r.push(to_lower(word[i]));
        i = i + 1;
    }
    assert(r@ =~= lower_word(word@));
    r
}

/// Whether two words are the same, character by character.
pub fn same_word(a: &[char], b: &[char]) -> (r: bool)
    ensures
        r == (a@ == b@),
{
    if a.len() != b.len() {
        return false;
    }
    let mut i: usize = 0;
    while i < a.len()
        invariant
            i <= a.len(),
            a.len() == b.len(),
            forall|j: int| 0 <= j < i ==> a@[j] == b@[j],
        decreases a.len() - i,
    {
        if a[i] != b[i] {
            return false;
        }
        i = i + 1;
    }
    assert(a@ =~= b@);
    true
}

impl Unit {
    /// The words that name the unit, all in lower case: first the short
    /// forms, then the full name in the singular and in the plural.
    pub fn names(self) -> (r: Vec<&'static str>)
        ensures
            r@.len() == names(self).len(),
            forall|i: int| 0 <= i < r@.len() ==> (#[trigger] r@[i])@ == names(self)[i],
    {
        match self {
            Unit::Nanosecond => vec!["ns", "nanosecond", "nanoseconds"],
            Unit::Microsecond => vec!["us", "µs", "microsecond", "microseconds"],
            Unit::Millisecond => vec!["ms", "millisecond", "milliseconds"],
            Unit::Second => vec!["s", "sec", "second", "seconds"],
            Unit::Minute => vec!["m", "min", "minute", "minutes"],
            Unit::Hour => vec!["h", "hr", "hour", "hours"],
            Unit::Day => vec!["d", "day", "days"],
            Unit::Week => vec!["w", "week", "weeks"],
            Unit::Month => vec!["mo", "month", "months"],
            Unit::Year => vec!["y", "yr", "year", "years"],
        }
    }

    /// Whether `word`, already in lower case, is one of the unit's names.
    fn has_name(self, word: &[char]) -> (r: bool)
        ensures
            r == names(self).contains(word@),
    {
        let list = self.names();
        let mut i: usize = 0;
        while i < list.len()
            invariant
                i <= list.len(),
                list@.len() == names(self).len(),
                forall|j: int| 0 <= j < list@.len() ==> (#[trigger] list@[j])@ == names(self)[j],
                forall|j: int| 0 <= j < i ==> names(self)[j] != word@,
            decreases list.len() - i,
        {
            let name = chars_of(list[i]);
            if same_word(name.as_slice(), word) {
                assert(names(self)[i as int] == word@);
                return true;
            }
            i = i + 1;
        }
        false
    }

    /// The unit that `word` names, in whatever case it is written.
    pub fn from_word(word: &[char]) -> (r: Option<Unit>)
        ensures
            r == unit_named(word@),
    {
        let w = to_lower_word(word);
        if Unit::Nanosecond.has_name(w.as_slice()) {
            Some(Unit::Nanosecond)
        } else if Unit::Microsecond.has_name(w.as_slice()) {
            Some(Unit::Microsecond)
        } else if Unit::Millisecond.has_name(w.as_slice()) {
            Some(Unit::Millisecond)
        } else if Unit::Second.has_name(w.as_slice()) {
            Some(Unit::Second)
        } else if Unit::Minute.has_name(w.as_slice()) {
            Some(Unit::Minute)
        } else if Unit::Hour.has_name(w.as_slice()) {
            Some(Unit::Hour)
        } else if Unit::Day.has_name(w.as_slice()) {
            Some(Unit::Day)
        } else if Unit::Week.has_name(w.as_slice()) {
            Some(Unit::Week)
        } else if Unit::Month.has_name(w.as_slice()) {
            Some(Unit::Month)
        } else if Unit::Year.has_name(w.as_slice()) {
            Some(Unit::Year)
        } else {
            None
        }
    }
}

} // verus!
