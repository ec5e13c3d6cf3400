use timewarp::duration::Duration;
use timewarp::instant::Instant;
use timewarp::parser::parse_duration;

fn total_nanos(d: &Duration) -> i128 {
    Instant::from_unix_nanos(0).offset_by(d).unwrap().unix_nanos()
}

fn chrono_nanos(text: &str) -> i128 {
    let d = duration_str::parse_chrono(text).unwrap();
    d.num_seconds() as i128 * 1_000_000_000 + d.subsec_nanos() as i128
}

#[test]
fn plain_texts_mean_what_the_duration_str_crate_reads() {
    for text in [
        "15 days 20 seconds 100 milliseconds",
        "1 days",
        "1d",
        "   1d   ",
        "0m",
        "1hr",
        "1m31s",
        "3m 1s 29ms 17µs",
        "3m1s29ms17us",
        "42µs",
        "2 weeks 3 hours",
        "7 nanoseconds 8 microseconds 9 milliseconds",
        "1H 2MIN 3SEC",
        "12345 ns",
        "100 years",
        "500y",
    ] {
        let ours = parse_duration(text).unwrap();
        assert_eq!(total_nanos(&ours), chrono_nanos(text), "{}", text);
    }
}

#[test]
fn months_and_years_come_to_the_same_length_once_applied() {
    for text in ["1 month", "12 months", "1 year", "1y", "2 years 3 months 4 days", "1 year 1 month"] {
        let ours = parse_duration(text).unwrap();
        assert_eq!(total_nanos(&ours), chrono_nanos(text), "{}", text);
    }
    assert_eq!(parse_duration("2 years 3 months 4 days").unwrap().nanos(), 4 * 86_400_000_000_000);
}

#[test]
fn both_refuse_the_empty_text_and_unknown_units() {
    for text in ["", "   ", "5 fortnights", "days", "1d!", "0mxyz"] {
        assert!(parse_duration(text).is_err(), "{:?}", text);
        assert!(duration_str::parse_chrono(text).is_err(), "{:?}", text);
    }
}
