use std::time::Duration;

use waiter::span::Span;
use waiter::times::{normalize, parse_dur as parse_with, parse_normalized, DurError};

/// The plain-number grammar, read with floating point as the command line does.
fn plain_seconds(s: &str) -> Option<Span> {
    normalize(s)
        .parse::<f32>()
        .ok()
        .and_then(|x| Duration::try_from_secs_f32(x).ok())
        .map(|d| Span { secs: d.as_secs(), nanos: d.subsec_nanos() })
}

fn parse_dur(s: &str) -> Result<Duration, DurError> {
    parse_with(s, plain_seconds(s)).map(|sp| Duration::new(sp.secs, sp.nanos))
}

fn dur(mins: u64, secs: u64) -> Duration {
    Duration::from_secs(mins * 60 + secs)
}

#[test]
fn test_float_seconds() {
    assert_eq!(Duration::from_secs(10), parse_dur("10").unwrap());
    assert_eq!(Duration::from_secs_f32(1.2), parse_dur("1.2").unwrap());
}

#[test]
fn test_colon_sep() {
    assert_eq!(dur(10, 4), parse_dur("10:04").unwrap());
    assert_eq!(dur(10, 4), parse_dur("10:4").unwrap());
}

#[test]
fn test_human_formatted() {
    assert_eq!(dur(10, 4), parse_dur("10m 4s").unwrap());
    assert_eq!(dur(19, 3), parse_dur("19m3s").unwrap());
    assert_eq!(dur(0, 10), parse_dur("  10 ").unwrap());

    assert_eq!(dur(0, 9), parse_dur("6s 3s").unwrap()); // Units are added
    assert!(parse_dur("s").is_err());
    assert!(parse_dur("10s m").is_err());
    assert!(parse_dur("10sm").is_err());
}

#[test]
fn failing_inputs_give_their_errors() {
    assert_eq!(parse_dur("s"), Err(DurError::ExpectingNumber));
    assert_eq!(parse_dur("10s m"), Err(DurError::ExpectingNumber));
    assert_eq!(parse_dur("10sm"), Err(DurError::ExpectingNumber));
    assert_eq!(parse_dur("10x"), Err(DurError::UnknownUnit));
    assert_eq!(parse_dur("-5"), Err(DurError::ExpectingNumber));
}

#[test]
fn units_and_case() {
    assert_eq!(parse_dur("2h"), Ok(Duration::from_secs(7200)));
    assert_eq!(parse_dur("1d"), Ok(Duration::from_secs(90000)));
    assert_eq!(parse_dur("10M"), Ok(Duration::from_secs(600)));
    assert_eq!(parse_dur("1h 1m 1"), Ok(Duration::from_secs(3661)));
}

#[test]
fn number_after_number_counts_as_seconds() {
    assert_eq!(parse_dur("10 4"), Ok(Duration::from_secs(14)));
    assert_eq!(parse_dur("10 5"), Ok(Duration::from_secs(15)));
    assert_eq!(parse_dur("1m 30 2s"), Ok(Duration::from_secs(92)));
    assert_eq!(parse_dur("5 1h"), Ok(Duration::from_secs(3605)));
}

#[test]
fn clock_forms() {
    assert_eq!(parse_dur("1:2:3"), Ok(Duration::from_secs(3723)));
    assert_eq!(parse_dur("99:99"), Ok(Duration::from_secs(6039)));
    assert_eq!(parse_dur("+1:05"), Ok(Duration::from_secs(65)));
    // a fourth field sends the text on to the unit grammar
    assert_eq!(parse_dur("1:2:3:4"), Err(DurError::UnknownUnit));
    assert_eq!(parse_dur("1:x"), Err(DurError::UnknownUnit));
}

#[test]
fn empty_text_is_zero() {
    assert_eq!(parse_dur(""), Ok(Duration::from_secs(0)));
    assert_eq!(parse_dur("   "), Ok(Duration::from_secs(0)));
}

#[test]
fn too_large_is_refused() {
    assert_eq!(parse_dur("99999999999999999999s"), Err(DurError::TooLarge));
    assert_eq!(parse_dur("18446744073709551615:0"), Err(DurError::TooLarge));
    assert_eq!(parse_dur("18446744073709551615s 1s"), Err(DurError::TooLarge));
    assert_eq!(parse_dur("18446744073709551615h"), Err(DurError::TooLarge));
    assert_eq!(
        parse_dur("18446744073709551615s"),
        Ok(Duration::from_secs(18446744073709551615))
    );
}

#[test]
fn plain_value_comes_first() {
    let given = Span { secs: 7, nanos: 5 };
    assert_eq!(parse_normalized("3m", Some(given)), Ok(given));
    assert_eq!(parse_normalized("3m", None), Ok(Span { secs: 180, nanos: 0 }));
}

#[test]
fn normalize_trims_and_lowers() {
    assert_eq!(normalize("  10M 4S\t"), "10m 4s");
    assert_eq!(normalize("\u{a0}5s\u{3000}"), "5s");
}

#[test]
fn parse_is_deterministic() {
    for s in ["10", "1.2", "10:04", "10m 4s", "19m3s", "s", "1:2:3:4"] {
        assert_eq!(parse_dur(s), parse_dur(s));
    }
}
