use timewarp::error::Error;

#[test]
fn each_error_has_its_message() {
    assert_eq!(Error::InvalidDurationSyntax.message(), "invalid duration syntax");
    assert_eq!(Error::UnknownUnit.message(), "unknown unit in duration");
    assert_eq!(Error::ArithmeticOverflow.message(), "arithmetic overflow");
    assert_eq!(Error::MissingRequiredArgument.message(), "missing required argument");
    assert_eq!(Error::FileNotReadable.message(), "file not readable");
}

#[test]
fn a_timestamp_error_quotes_the_text_and_the_format() {
    let e = Error::TimestampParseError {
        text: "Fri May 13".to_string(),
        format: "%a %b %e %T %Y".to_string(),
    };
    assert_eq!(
        e.message(),
        "timestamp \"Fri May 13\" does not match format \"%a %b %e %T %Y\""
    );
    let e = Error::TimestampParseError { text: String::new(), format: String::new() };
    assert_eq!(e.message(), "timestamp \"\" does not match format \"\"");
}

#[test]
fn a_fault_in_the_offset_is_reported_with_the_offset() {
    assert_eq!(
        Error::InvalidDurationSyntax.report("15 dayz!", None),
        "invalid duration syntax: \"15 dayz!\""
    );
    assert_eq!(
        Error::UnknownUnit.report("5 fortnights", Some("samples.txt")),
        "unknown unit in duration: \"5 fortnights\""
    );
    assert_eq!(Error::ArithmeticOverflow.report("", None), "arithmetic overflow: \"\"");
}

#[test]
fn a_file_that_cannot_be_read_is_reported_with_its_path() {
    assert_eq!(
        Error::FileNotReadable.report("1 day", Some("samples.txt")),
        "file not readable: \"samples.txt\""
    );
    assert_eq!(Error::FileNotReadable.report("1 day", None), "file not readable");
}

#[test]
fn other_errors_are_reported_by_their_message() {
    let e = Error::TimestampParseError { text: "x".to_string(), format: "%Y".to_string() };
    assert_eq!(e.report("1 day", Some("samples.txt")), e.message());
    assert_eq!(
        Error::MissingRequiredArgument.report("1 day", None),
        "missing required argument"
    );
}
