//! Play orders, durations, and the trending identifier syntax.
use halkara::args::{is_trending, parse_duration, parse_trending_arg};
use halkara::PlayOrder;

#[test]
fn play_order_words() {
    assert!(matches!(
        PlayOrder::pico_parse("asc"),
        Ok(PlayOrder::Ascending)
    ));
    assert!(matches!(
        PlayOrder::pico_parse("desc"),
        Ok(PlayOrder::Descending)
    ));
    assert!(matches!(
        PlayOrder::pico_parse("rand"),
        Ok(PlayOrder::Random)
    ));
    match PlayOrder::pico_parse("sideways") {
        Err(e) => assert_eq!(e.details, "sideways is not a valid order"),
        Ok(_) => panic!("expected an error"),
    }
    assert!(PlayOrder::pico_parse("ASC").is_err());
}

#[test]
fn durations_sum_their_groups() {
    assert_eq!(parse_duration("1h30m15s").unwrap(), 5415);
    assert_eq!(parse_duration("90s").unwrap(), 90);
    assert_eq!(parse_duration("2m").unwrap(), 120);
    assert_eq!(parse_duration("3h").unwrap(), 10800);
    assert_eq!(parse_duration("2m2m").unwrap(), 240);
    assert_eq!(parse_duration("007s").unwrap(), 7);
    assert_eq!(parse_duration("").unwrap(), 0);
    // The largest number the integer parse accepts still counts.
    assert_eq!(parse_duration("18446744073709551615s").unwrap(), u64::MAX);
}

#[test]
fn trailing_unitless_digits_are_dropped() {
    assert_eq!(parse_duration("30").unwrap(), 0);
    assert_eq!(parse_duration("1h30").unwrap(), 3600);
    assert_eq!(parse_duration("1h30m15").unwrap(), 5400);
}

#[test]
fn bad_durations_describe_the_failing_part() {
    for (bad, msg) in [
        ("1x", "x is not a valid unit"),
        ("5x", "x is not a valid unit"),
        ("5min", "min is not a valid unit"),
        ("h", "cannot parse integer from empty string"),
        ("s1h", "cannot parse integer from empty string"),
        (
            "99999999999999999999999999s",
            "number too large to fit in target type",
        ),
        ("18446744073709551616s", "number too large to fit in target type"),
        ("9999999999999999999h", "duration is too long"),
    ] {
        match parse_duration(bad) {
            Err(e) => assert_eq!(e.details, msg, "for {bad}"),
            Ok(v) => panic!("{bad} unexpectedly parsed to {v}"),
        }
    }
}

#[test]
fn trending_identifiers_are_recognized() {
    assert!(is_trending("trending"));
    assert!(is_trending("trending:pop"));
    assert!(is_trending("trending:pop:month"));
    assert!(is_trending("trending:"));
    assert!(!is_trending("trendin"));
    assert!(!is_trending("trendingX"));
    assert!(!is_trending("https://example/track"));
    assert!(!is_trending(""));
}

#[test]
fn trending_identifiers_split_into_fields() {
    let none = parse_trending_arg("trending");
    assert_eq!(none.genre, None);
    assert_eq!(none.time, None);

    let genre_only = parse_trending_arg("trending:pop");
    assert_eq!(genre_only.genre.as_deref(), Some("pop"));
    assert_eq!(genre_only.time, None);

    let both = parse_trending_arg("trending:pop:month");
    assert_eq!(both.genre.as_deref(), Some("pop"));
    assert_eq!(both.time.as_deref(), Some("month"));

    // Empty segments count as absent.
    let no_genre = parse_trending_arg("trending::month");
    assert_eq!(no_genre.genre, None);
    assert_eq!(no_genre.time.as_deref(), Some("month"));

    let trailing = parse_trending_arg("trending:pop:");
    assert_eq!(trailing.genre.as_deref(), Some("pop"));
    assert_eq!(trailing.time, None);
}
