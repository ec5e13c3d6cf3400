use timewarp::duration::Unit;
use timewarp::units::{same_word, to_lower, to_lower_word};

fn chars(s: &str) -> Vec<char> {
    s.chars().collect()
}

const ALL: [Unit; 10] = [
    Unit::Nanosecond,
    Unit::Microsecond,
    Unit::Millisecond,
    Unit::Second,
    Unit::Minute,
    Unit::Hour,
    Unit::Day,
    Unit::Week,
    Unit::Month,
    Unit::Year,
];

#[test]
fn the_table_lists_short_forms_then_singular_then_plural() {
    assert_eq!(Unit::Nanosecond.names(), vec!["ns", "nanosecond", "nanoseconds"]);
    assert_eq!(Unit::Microsecond.names(), vec!["us", "µs", "microsecond", "microseconds"]);
    assert_eq!(Unit::Millisecond.names(), vec!["ms", "millisecond", "milliseconds"]);
    assert_eq!(Unit::Second.names(), vec!["s", "sec", "second", "seconds"]);
    assert_eq!(Unit::Minute.names(), vec!["m", "min", "minute", "minutes"]);
    assert_eq!(Unit::Hour.names(), vec!["h", "hr", "hour", "hours"]);
    assert_eq!(Unit::Day.names(), vec!["d", "day", "days"]);
    assert_eq!(Unit::Week.names(), vec!["w", "week", "weeks"]);
    assert_eq!(Unit::Month.names(), vec!["mo", "month", "months"]);
    assert_eq!(Unit::Year.names(), vec!["y", "yr", "year", "years"]);
}

#[test]
fn every_name_is_found_again_as_its_unit() {
    for unit in ALL {
        for name in unit.names() {
            assert_eq!(Unit::from_word(&chars(name)), Some(unit), "{}", name);
            assert_eq!(Unit::from_word(&chars(&name.to_ascii_uppercase())), Some(unit), "{}", name);
        }
    }
}

#[test]
fn no_name_stands_for_two_units() {
    for a in ALL {
        for b in ALL {
            if a != b {
                for name in a.names() {
                    assert!(!b.names().contains(&name), "{}", name);
                }
            }
        }
    }
}

#[test]
fn other_words_name_no_unit() {
    for word in ["", "fortnights", "mon", "secs", "dd", "n", "u", "µ", "minutess", "d ", " d", "1d"] {
        assert_eq!(Unit::from_word(&chars(word)), None, "{:?}", word);
    }
}

#[test]
fn only_upper_case_ascii_letters_are_lowered() {
    assert_eq!(to_lower('A'), 'a');
    assert_eq!(to_lower('Z'), 'z');
    assert_eq!(to_lower('M'), 'm');
    assert_eq!(to_lower('a'), 'a');
    assert_eq!(to_lower('z'), 'z');
    assert_eq!(to_lower('@'), '@');
    assert_eq!(to_lower('['), '[');
    assert_eq!(to_lower('5'), '5');
    assert_eq!(to_lower('µ'), 'µ');
    assert_eq!(to_lower('Μ'), 'Μ');
    assert_eq!(to_lower('É'), 'É');
    assert_eq!(to_lower_word(&chars("MilliSeconds")), chars("milliseconds"));
    assert_eq!(to_lower_word(&chars("")), chars(""));
}

#[test]
fn words_are_the_same_when_every_character_is() {
    assert!(same_word(&chars("days"), &chars("days")));
    assert!(same_word(&chars(""), &chars("")));
    assert!(!same_word(&chars("days"), &chars("day")));
    assert!(!same_word(&chars("day"), &chars("days")));
    assert!(!same_word(&chars("days"), &chars("dayz")));
    assert!(!same_word(&chars("Days"), &chars("days")));
}
