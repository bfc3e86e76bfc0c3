use vstd::prelude::*;
use crate::intent::DONE_INTENT;
use crate::render::TICK_MS;
use crate::text::text_eq;

verus! {

pub const INTENT_5_MORE: &'static str = "5more";

pub const INTENT_10_MORE: &'static str = "10more";

pub const INTENT_20_MORE: &'static str = "20more";

pub const INTENT_5_LESS: &'static str = "5less";

pub const INTENT_10_LESS: &'static str = "10less";

pub const INTENT_20_LESS: &'static str = "20less";

/// Milliseconds in one minute.
pub const MINUTE_MS: u64 = 60000;

/// `a + b`, held at the largest duration.
pub open spec fn sat_add(a: u64, b: int) -> u64 {
    if a + b > u64::MAX {
        u64::MAX
    } else {
        (a + b) as u64
    }
}

/// `a - b`, held at zero.
pub open spec fn sat_sub(a: u64, b: int) -> u64 {
    if a >= b {
        (a - b) as u64
    } else {
        0
    }
}

/// A duration in milliseconds after the chronometer intent `intent`: five,
/// ten or twenty minutes more or less, never below zero; any other intent
/// leaves it as it is.
pub open spec fn adjusted(dur: u64, intent: Seq<char>) -> u64 {
    if intent == INTENT_5_MORE@ {
        sat_add(dur, 5 * MINUTE_MS)
    } else if intent == INTENT_10_MORE@ {
        sat_add(dur, 10 * MINUTE_MS)
    } else if intent == INTENT_20_MORE@ {
        sat_add(dur, 20 * MINUTE_MS)
    } else if intent == INTENT_5_LESS@ {
        sat_sub(dur, 5 * MINUTE_MS)
    } else if intent == INTENT_10_LESS@ {
        sat_sub(dur, 10 * MINUTE_MS)
    } else if intent == INTENT_20_LESS@ {
        sat_sub(dur, 20 * MINUTE_MS)
    } else {
        dur
    }
}

/// The duration `dur` (milliseconds) changed as the intent asks.
pub fn change_duration(dur: u64, intent: &str) -> (r: u64)
    ensures
        r == adjusted(dur, intent@),
{
    if text_eq(intent, INTENT_5_MORE) {
        dur.saturating_add(5 * MINUTE_MS)
    } else if text_eq(intent, INTENT_10_MORE) {
        dur.saturating_add(10 * MINUTE_MS)
    } else if text_eq(intent, INTENT_20_MORE) {
        dur.saturating_add(20 * MINUTE_MS)
    } else if text_eq(intent, INTENT_5_LESS) {
        dur.saturating_sub(5 * MINUTE_MS)
    } else if text_eq(intent, INTENT_10_LESS) {
        dur.saturating_sub(10 * MINUTE_MS)
    } else if text_eq(intent, INTENT_20_LESS) {
        dur.saturating_sub(20 * MINUTE_MS)
    } else {
        dur
    }
}

/// The decimal digit of a number below ten.
pub open spec fn digit(d: nat) -> char {
    if d == 0 {
        '0'
    } else if d == 1 {
        '1'
    } else if d == 2 {
        '2'
    } else if d == 3 {
        '3'
    } else if d == 4 {
        '4'
    } else if d == 5 {
        '5'
    } else if d == 6 {
        '6'
    } else if d == 7 {
        '7'
    } else if d == 8 {
        '8'
    } else {
        '9'
    }
}

/// The decimal writing of a number, with no leading zero.
pub open spec fn decimal(n: nat) -> Seq<char>
    decreases n,
{
    if n < 10 {
        seq![digit(n)]
    } else {
        decimal(n / 10).push(digit(n % 10))
    }
}

/// The decimal writing of a number, on at least two digits.
pub open spec fn two_digits(n: nat) -> Seq<char> {
    if n < 10 {
        seq!['0', digit(n)]
    } else {
        decimal(n)
    }
}

/// A duration in milliseconds as `hh:mm:ss`, whole seconds only; the hours
/// take more digits when they pass 99.
pub open spec fn clock_text(dur: u64) -> Seq<char> {
    let secs = dur as nat / 1000;
    two_digits(secs / 3600) + seq![':'] + two_digits((secs / 60) % 60) + seq![':'] + two_digits(
        secs % 60,
    )
}

fn digit_text(d: u64) -> (r: &'static str)
    requires
        d < 10,
    ensures
        r@ == seq![digit(d as nat)],
{
    if d == 0 {
        proof {
            reveal_strlit("0");
        }
        "0"
    } else if d == 1 {
        proof {
            reveal_strlit("1");
        }
        "1"
    } else if d == 2 {
        proof {
            reveal_strlit("2");
        }
        "2"
    } else if d == 3 {
        proof {
            reveal_strlit("3");
        }
        "3"
    } else if d == 4 {
        proof {
            reveal_strlit("4");
        }
        "4"
    } else if d == 5 {
        proof {
            reveal_strlit("5");
        }
        "5"
    } else if d == 6 {
        proof {
            reveal_strlit("6");
        }
        "6"
    } else if d == 7 {
        proof {
            reveal_strlit("7");
        }
        "7"
    } else if d == 8 {
        proof {
            reveal_strlit("8");
        }
        "8"
    } else {
        proof {
            reveal_strlit("9");
        }
        "9"
    }
}

fn append_decimal(out: &mut String, n: u64)
    ensures
        final(out)@ == old(out)@ + decimal(n as nat),
    decreases n,
{
    if n >= 10 {
        append_decimal(out, n / 10);
    }
    out.append(digit_text(n % 10));
    proof {
        if n < 10 {
            assert(decimal(n as nat) =~= seq![digit(n as nat)]);
        }
    }
    assert(final(out)@ =~= old(out)@ + decimal(n as nat));
}

fn append_two_digits(out: &mut String, n: u64)
    ensures
        final(out)@ == old(out)@ + two_digits(n as nat),
{
    if n < 10 {
        out.append(digit_text(0));
    }
    append_decimal(out, n);
    assert(decimal(n as nat) =~= seq![digit(n as nat)] || n >= 10);
    assert(final(out)@ =~= old(out)@ + two_digits(n as nat));
}

/// A duration in milliseconds as `hh:mm:ss`.
pub fn as_string(dur: u64) -> (r: String)
    ensures
        r@ == clock_text(dur),
{
    let secs = dur / 1000;
    let mut out = String::new();
    append_two_digits(&mut out, secs / 3600);
    proof {
        reveal_strlit(":");
    }
    out.append(":");
    append_two_digits(&mut out, (secs / 60) % 60);
    out.append(":");
    append_two_digits(&mut out, secs % 60);
    assert(out@ =~= clock_text(dur));
    out
}

/// What the chronometer's setting loop does on a received intent.
#[derive(Clone, Copy, Debug, PartialEq, Eq, Structural)]
pub enum Setting {
    /// Keep setting, showing this duration.
    Continue(u64),
    /// Setting is done: count down from this duration.
    Done(u64),
}

/// One received intent in the chronometer's setting loop: `done` ends it,
/// every other intent changes the duration as the table asks.
pub fn setting_step(dur: u64, intent: &str) -> (r: Setting)
    ensures
        intent@ == DONE_INTENT@ ==> r == Setting::Done(dur),
        intent@ != DONE_INTENT@ ==> r == Setting::Continue(adjusted(dur, intent@)),
{
    if text_eq(intent, DONE_INTENT) {
        Setting::Done(dur)
    } else {
        Setting::Continue(change_duration(dur, intent))
    }
}

/// What one tick of the countdown does.
#[derive(Clone, Copy, Debug, PartialEq, Eq, Structural)]
pub enum Countdown {
    /// Show this remaining time and tick again.
    Show(u64),
    /// Time is up: show the alarm face and play the alarm, once.
    Alarm,
}

/// One tick of the countdown from `remaining` milliseconds.
pub open spec fn countdown_next(remaining: u64) -> Countdown {
    if remaining <= TICK_MS {
        Countdown::Alarm
    } else {
        Countdown::Show((remaining - TICK_MS) as u64)
    }
}

/// What is left of `dur` milliseconds after `k` ticks, never below zero.
pub open spec fn left_after(dur: u64, k: nat) -> u64 {
    if dur >= k * TICK_MS {
        (dur - k * TICK_MS) as u64
    } else {
        0
    }
}

/// One tick of the countdown.
pub fn countdown_tick(remaining: u64) -> (r: Countdown)
    ensures
        r == countdown_next(remaining),
{
    let next = remaining.saturating_sub(TICK_MS);
    if next == 0 {
        Countdown::Alarm
    } else {
        Countdown::Show(next)
    }
}

/// The number of ticks a countdown from `dur` milliseconds takes.
pub open spec fn ticks_for(dur: u64) -> nat {
    ((dur + TICK_MS - 1) / (TICK_MS as int)) as nat
}

/// Counting down from `dur` milliseconds shows the time left after each
/// tick and sounds the alarm on tick `ticks_for(dur)`, once: no earlier tick
/// does, and that tick ends the countdown.
pub proof fn lemma_countdown_alarm_once(dur: u64, k: nat)
    requires
        dur > 0,
        k < ticks_for(dur),
    ensures
        k + 1 == ticks_for(dur) ==> countdown_next(left_after(dur, k)) == Countdown::Alarm,
        k + 1 < ticks_for(dur) ==> countdown_next(left_after(dur, k)) == Countdown::Show(
            left_after(dur, k + 1),
        ),
{
    let n = ticks_for(dur);
    assert(100 * n <= dur + 99 && dur + 99 < 100 * n + 100) by (nonlinear_arith)
        requires
            n == (dur + 99) / 100,
    ;
    assert(k * 100 < dur) by (nonlinear_arith)
        requires
            k < n,
            100 * n <= dur + 99,
    ;
    if k + 1 == n {
        assert(dur - k * 100 <= 100) by (nonlinear_arith)
            requires
                k + 1 == n,
                dur + 99 < 100 * n + 100,
        ;
    } else {
        assert(dur - k * 100 > 100) by (nonlinear_arith)
            requires
                k + 1 < n,
                100 * n <= dur + 99,
        ;
        assert((k + 1) * 100 == k * 100 + 100) by (nonlinear_arith);
    }
}

} // verus!
