use vstd::prelude::*;

use crate::span::Span;
use crate::text::push_char;

verus! {

#[verifier::external_type_specification]
#[verifier::external_body]
pub struct ExInstant(std::time::Instant);

/// Cells of the progress bar.
pub const BAR_WIDTH: usize = 20;

/// Longest pause between two renders of the timer, in nanoseconds.
pub const FRAME_NANOS: u32 = 200_000_000;

/// Longest wait for a spoken announcement, in seconds.
pub const SPEAK_LIMIT_SECS: u64 = 5;

/// Seconds in one hour.
pub const HOUR_IN_SECS: u64 = 3600;

/// What to wait for before the alert.
#[derive(Debug, Clone)]
pub enum Action {
    /// A span of time.
    Wait(Span),
    /// The exit of a process.
    WaitPid(u32),
    /// The run of a command: the program, then its arguments.
    RunCommand(Vec<String>),
    /// Nothing.
    Noop,
}

/// One invocation: what to wait for, and how to announce the end.
#[derive(Debug)]
pub struct Waiter {
    pub message: String,
    pub action: Action,
    pub speak: bool,
    pub start: std::time::Instant,
}

/// What the timed wait does next.
#[derive(Debug, Clone, Copy, PartialEq, Eq, Structural)]
pub enum Step {
    /// Show `remaining` of the total, then sleep for `pause`.
    Render { remaining: Span, pause: Span },
    /// The time is up: show the finished bar and stop.
    Finish,
}

/// What the watch over a spoken announcement does next.
#[derive(Debug, Clone, Copy, PartialEq, Eq, Structural)]
pub enum Watch {
    /// The speech ended.
    Exited,
    /// The limit passed: stop the speech and ring the bell.
    Timeout,
    /// Look again after a short sleep.
    Poll,
}

/// Filled cells of the bar for `rem` nanoseconds left of `total`:
/// the floor of `BAR_WIDTH * (1 - rem / total)`, kept within the bar, and
/// the whole bar when `total` is zero.
pub open spec fn fill(rem: int, total: int) -> int {
    if total <= 0 || rem <= 0 {
        BAR_WIDTH as int
    } else if rem >= total {
        0
    } else {
        (BAR_WIDTH as int * (total - rem)) / total
    }
}

/// `n` copies of `c`.
pub open spec fn repeat(c: char, n: nat) -> Seq<char> {
    Seq::new(n, |_i: int| c)
}

/// The bar with `f` of its cells filled.
pub open spec fn bar_text(f: nat) -> Seq<char> {
    seq!['['] + repeat('#', f) + repeat('-', (BAR_WIDTH - f) as nat) + seq![']']
}

pub open spec fn digit_char(d: nat) -> char {
    ((48 + d) as u32) as char
}

/// `n` in decimal, with no leading zero.
pub open spec fn decimal(n: nat) -> Seq<char>
    decreases n,
{
    if n < 10 {
        seq![digit_char(n)]
    } else {
        decimal(n / 10).push(digit_char(n % 10))
    }
}

/// `n` in decimal, with at least two digits.
pub open spec fn two_digits(n: nat) -> Seq<char> {
    if n < 10 {
        seq!['0', digit_char(n)]
    } else {
        decimal(n)
    }
}

/// Whole seconds as a clock: `H:MM:SS` above one hour, else `MM:SS`.
pub open spec fn clock_text(secs: nat) -> Seq<char> {
    if secs > HOUR_IN_SECS {
        decimal(secs / 3600) + seq![':'] + two_digits(secs % 3600 / 60) + seq![':'] + two_digits(
            secs % 60,
        )
    } else {
        two_digits(secs / 60) + seq![':'] + two_digits(secs % 60)
    }
}

fn push_decimal(out: &mut String, n: u64)
    ensures
        final(out)@ == old(out)@ + decimal(n as nat),
    decreases n,
{
    if n >= 10 {
        push_decimal(out, n / 10);
    }
    push_char(out, ((48 + n % 10) as u8) as char);
    assert(final(out)@ =~= old(out)@ + decimal(n as nat));
}

fn push_two_digits(out: &mut String, n: u64)
    ensures
        final(out)@ == old(out)@ + two_digits(n as nat),
{
    if n < 10 {
        push_char(out, '0');
        push_char(out, ((48 + n) as u8) as char);
        assert(final(out)@ =~= old(out)@ + two_digits(n as nat));
    } else {
        push_decimal(out, n);
    }
}

/// Filled cells of the progress bar for `rem` left of `total`.
pub fn filled_cells(rem: Span, total: Span) -> (r: usize)
    ensures
        r == fill(rem.total(), total.total()),
        r <= BAR_WIDTH,
{
    let t = total.total_nanos();
    let m = rem.total_nanos();
    if t == 0 || m == 0 {
        BAR_WIDTH
    } else if m >= t {
        0
    } else {
        let f = (20 * (t - m)) / t;
        proof {
            lemma_fill_bounds(m as int, t as int);
        }
        f as usize
    }
}

proof fn lemma_fill_bounds(rem: int, total: int)
    requires
        0 < rem < total,
    ensures
        0 <= (20 * (total - rem)) / total <= 20,
{
    vstd::arithmetic::div_mod::lemma_div_is_ordered(20 * (total - rem), 20 * total, total);
    vstd::arithmetic::div_mod::lemma_div_pos_is_pos(20 * (total - rem), total);
    vstd::arithmetic::div_mod::lemma_div_by_multiple(20, total);
    assert(20 * total == total * 20) by (nonlinear_arith);
}

/// The bar's fill never falls as the time left falls, and runs from an empty
/// bar when all of a nonzero total is left to a full bar when none is left.
pub proof fn lemma_fill_monotone(r1: Span, r2: Span, total: Span)
    requires
        r1.total() <= r2.total() <= total.total(),
    ensures
        fill(r2.total(), total.total()) <= fill(r1.total(), total.total()),
        0 <= fill(r2.total(), total.total()) <= BAR_WIDTH,
        total.total() > 0 ==> fill(total.total(), total.total()) == 0,
        fill(0, total.total()) == BAR_WIDTH,
{
    let (a, b, t) = (r1.total(), r2.total(), total.total());
    if 0 < a && b < t {
        vstd::arithmetic::div_mod::lemma_div_is_ordered(20 * (t - b), 20 * (t - a), t);
    }
    if 0 < b && b < t {
        lemma_fill_bounds(b, t);
    }
    if 0 < a && a < t {
        lemma_fill_bounds(a, t);
    }
}

impl Waiter {
    /// The clock for a span: whole seconds, the fraction dropped.
    pub fn fmt_duration(d: Span) -> (r: String)
        ensures
            r@ == clock_text(d.secs as nat),
    {
        let secs = d.secs;
        let mut out = String::new();
        if secs > HOUR_IN_SECS {
            push_decimal(&mut out, secs / HOUR_IN_SECS);
            push_char(&mut out, ':');
            push_two_digits(&mut out, secs % HOUR_IN_SECS / 60);
            push_char(&mut out, ':');
            push_two_digits(&mut out, secs % 60);
        } else {
            push_two_digits(&mut out, secs / 60);
            push_char(&mut out, ':');
            push_two_digits(&mut out, secs % 60);
        }
        assert(out@ =~= clock_text(secs as nat));
        out
    }

    /// The progress bar for `rem` left of `total`.
    pub fn progress_bar(rem: Span, total: Span) -> (r: String)
        ensures
            r@ == bar_text(fill(rem.total(), total.total()) as nat),
    {
        let bars = filled_cells(rem, total);
        let mut out = String::new();
        push_char(&mut out, '[');
        let mut k: usize = 0;
        while k < bars
            invariant
                k <= bars <= BAR_WIDTH,
                out@ == seq!['['] + repeat('#', k as nat),
            decreases bars - k,
        {
            push_char(&mut out, '#');
            k = k + 1;
            assert(out@ =~= seq!['['] + repeat('#', k as nat));
        }
        let mut j: usize = 0;
        while j < BAR_WIDTH - bars
            invariant
                bars <= BAR_WIDTH,
                j <= BAR_WIDTH - bars,
                out@ == seq!['['] + repeat('#', bars as nat) + repeat('-', j as nat),
            decreases BAR_WIDTH - bars - j,
        {
            push_char(&mut out, '-');
            j = j + 1;
            assert(out@ =~= seq!['['] + repeat('#', bars as nat) + repeat('-', j as nat));
        }
        push_char(&mut out, ']');
        assert(out@ =~= bar_text(bars as nat));
        out
    }

    /// The timed wait's next step, `elapsed` into a wait of `total`: past the
    /// total it finishes; else it shows what is left and sleeps for one frame,
    /// or for what is left where that is shorter.
    pub fn step(elapsed: Span, total: Span) -> (r: Step)
        requires
            elapsed.wf(),
            total.wf(),
        ensures
            elapsed.total() > total.total() ==> r == Step::Finish,
            elapsed.total() <= total.total() ==> match r {
                Step::Render { remaining, pause } => {
                    &&& remaining.wf()
                    &&& pause.wf()
                    &&& remaining.total() == total.total() - elapsed.total()
                    &&& pause.total() == if remaining.total() < FRAME_NANOS {
                        remaining.total()
                    } else {
                        FRAME_NANOS as int
                    }
                },
                Step::Finish => false,
            },
    {
        if !elapsed.le(&total) {
            return Step::Finish;
        }
        let remaining = total.minus(&elapsed);
        let frame = Span { secs: 0, nanos: FRAME_NANOS };
        let pause = if remaining.le(&frame) {
            remaining
        } else {
            frame
        };
        Step::Render { remaining, pause }
    }

    /// The watch over a spoken announcement, `elapsed` after it began:
    /// past the limit it gives up, whether or not the speech has ended.
    pub fn watch_speech(elapsed: Span, exited: bool) -> (r: Watch)
        ensures
            elapsed.total() > SPEAK_LIMIT_SECS * 1_000_000_000 ==> r == Watch::Timeout,
            elapsed.total() <= SPEAK_LIMIT_SECS * 1_000_000_000 ==> r == if exited {
                Watch::Exited
            } else {
                Watch::Poll
            },
    {
        let limit = Span { secs: SPEAK_LIMIT_SECS, nanos: 0 };
        if !elapsed.le(&limit) {
            Watch::Timeout
        } else if exited {
            Watch::Exited
        } else {
            Watch::Poll
        }
    }
}

} // verus!
