use waiter::args::{is_dur, is_pid};
use waiter::span::Span;
use waiter::times::DurError;
use waiter::waiter::{filled_cells, Step, Waiter, Watch};

fn secs(s: u64) -> Span {
    Span { secs: s, nanos: 0 }
}

#[test]
fn clock_text() {
    assert_eq!(Waiter::fmt_duration(secs(0)), "00:00");
    assert_eq!(Waiter::fmt_duration(secs(65)), "01:05");
    assert_eq!(Waiter::fmt_duration(secs(3600)), "60:00");
    assert_eq!(Waiter::fmt_duration(secs(3661)), "1:01:01");
    assert_eq!(Waiter::fmt_duration(secs(36000 + 600 + 59)), "10:10:59");
    assert_eq!(Waiter::fmt_duration(Span { secs: 59, nanos: 999_999_999 }), "00:59");
}

#[test]
fn bar_ends() {
    assert_eq!(Waiter::progress_bar(secs(10), secs(10)), "[--------------------]");
    assert_eq!(Waiter::progress_bar(secs(0), secs(10)), "[####################]");
    assert_eq!(Waiter::progress_bar(secs(0), secs(0)), "[####################]");
    assert_eq!(Waiter::progress_bar(secs(5), secs(10)), "[##########----------]");
}

#[test]
fn bar_fill_is_floored() {
    // 20 * (1 - 2.6 / 10) = 14.8
    assert_eq!(filled_cells(Span { secs: 2, nanos: 600_000_000 }, secs(10)), 14);
    assert_eq!(filled_cells(secs(11), secs(10)), 0);
}

#[test]
fn bar_fill_never_falls() {
    let total = secs(37);
    let mut last = 0;
    for r in (0..=37u64).rev() {
        let f = filled_cells(secs(r), total);
        assert!(f >= last);
        assert!(f <= 20);
        last = f;
    }
    assert_eq!(last, 20);
}

#[test]
fn timed_wait_steps() {
    assert_eq!(Waiter::step(secs(11), secs(10)), Step::Finish);
    assert_eq!(
        Waiter::step(secs(1), secs(10)),
        Step::Render { remaining: secs(9), pause: Span { secs: 0, nanos: 200_000_000 } }
    );
    let near = Span { secs: 9, nanos: 900_000_000 };
    let left = Span { secs: 0, nanos: 100_000_000 };
    assert_eq!(Waiter::step(near, secs(10)), Step::Render { remaining: left, pause: left });
    assert_eq!(
        Waiter::step(secs(10), secs(10)),
        Step::Render { remaining: secs(0), pause: secs(0) }
    );
}

#[test]
fn speech_watch() {
    assert_eq!(Waiter::watch_speech(secs(1), false), Watch::Poll);
    assert_eq!(Waiter::watch_speech(secs(1), true), Watch::Exited);
    assert_eq!(Waiter::watch_speech(secs(5), false), Watch::Poll);
    assert_eq!(Waiter::watch_speech(Span { secs: 5, nanos: 1 }, true), Watch::Timeout);
}

#[test]
fn pid_validation() {
    assert_eq!(is_pid(String::from("123")), Ok(()));
    assert_eq!(is_pid(String::from("+7")), Ok(()));
    assert_eq!(is_pid(String::from("-1")), Err(String::from("'-1' is not a valid pid")));
    assert_eq!(is_pid(String::from("4294967296")), Err(String::from("'4294967296' is not a valid pid")));
    assert!(is_pid(String::from("")).is_err());
}

#[test]
fn duration_validation() {
    assert_eq!(is_dur(String::from("10m"), None), Ok(()));
    assert_eq!(
        is_dur(String::from("xyz"), None),
        Err(String::from("'xyz' is not a valid duration (Expecting a number)"))
    );
    assert_eq!(
        is_dur(String::from("5q"), None),
        Err(String::from("'5q' is not a valid duration (Unknown unit)"))
    );
    assert_eq!(is_dur(String::from("2.5"), Some(Span { secs: 2, nanos: 500_000_000 })), Ok(()));
}

#[test]
fn error_reasons() {
    assert_eq!(DurError::ExpectingNumber.reason(), "Expecting a number");
    assert_eq!(DurError::UnknownUnit.reason(), "Unknown unit");
    assert_eq!(DurError::TooLarge.reason(), "Duration too large");
}
