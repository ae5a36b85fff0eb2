use vstd::prelude::*;
use crate::span::TimeSpan;

verus! {

/// The part of `total` that has elapsed, in whole percent, rounded down: 100
/// once `elapsed` has reached `total`, and below 100 before.
pub open spec fn percent_of(elapsed: nat, total: nat) -> nat {
    if elapsed >= total {
        100
    } else {
        elapsed * 100 / total
    }
}

/// The values of one frame of the countdown.
#[derive(Clone, Copy, Debug, PartialEq, Eq, Structural)]
pub struct FrameState {
    /// The time since the countdown began.
    pub elapsed: TimeSpan,
    /// The time until the countdown is over, never below nothing.
    pub remaining: TimeSpan,
    /// The part of the countdown that is done, in whole percent.
    pub percent: u16,
}

impl FrameState {
    /// The frame of a countdown of `total` when `elapsed` has passed.
    pub open spec fn of(total: TimeSpan, elapsed: TimeSpan) -> FrameState {
        FrameState {
            elapsed,
            remaining: total.minus(elapsed),
            percent: percent_of(elapsed.total_nanos(), total.total_nanos()) as u16,
        }
    }

    /// The frame of a countdown of `total` when `elapsed` has passed.
    pub fn at(total: TimeSpan, elapsed: TimeSpan) -> (frame: FrameState)
        requires
            total.wf(),
            elapsed.wf(),
        ensures
            frame == FrameState::of(total, elapsed),
            frame.remaining.wf(),
            frame.percent <= 100,
    {
        FrameState {
            elapsed,
            remaining: total.remaining_after(elapsed),
            percent: percent(elapsed, total),
        }
    }
}

/// The part of `total` that has elapsed, in whole percent.
pub fn percent(elapsed: TimeSpan, total: TimeSpan) -> (part: u16)
    requires
        elapsed.wf(),
        total.wf(),
    ensures
        part == percent_of(elapsed.total_nanos(), total.total_nanos()),
        part <= 100,
{
    if elapsed.reaches(total) {
        100
    } else {
        let done: u128 = elapsed.as_nanos();
        let all: u128 = total.as_nanos();
        proof {
            lemma_percent_bounds(done as nat, all as nat);
        }
        (done * 100 / all) as u16
    }
}

/// A percentage is never above 100, and it is 100 only once the whole span
/// has elapsed.
pub proof fn lemma_percent_bounds(elapsed: nat, total: nat)
    ensures
        percent_of(elapsed, total) <= 100,
        percent_of(elapsed, total) == 100 <==> elapsed >= total,
{
    if elapsed < total {
        assert(elapsed * 100 / total < 100) by (nonlinear_arith)
            requires
                elapsed < total,
        ;
    }
}

/// The percentage never goes down while time goes on.
pub proof fn lemma_percent_monotone(earlier: nat, later: nat, total: nat)
    requires
        earlier <= later,
    ensures
        percent_of(earlier, total) <= percent_of(later, total),
{
    lemma_percent_bounds(earlier, total);
    if later < total {
        assert(earlier * 100 / total <= later * 100 / total) by (nonlinear_arith)
            requires
                earlier <= later,
                total > 0,
        ;
    }
}

/// Of two frames of one countdown, the later one shows no smaller percentage
/// and no more time left. A frame shows 100 percent only once the whole span
/// has elapsed, and nothing is left exactly then.
pub proof fn lemma_frames_advance(total: TimeSpan, earlier: TimeSpan, later: TimeSpan)
    requires
        total.wf(),
        earlier.wf(),
        later.wf(),
        earlier.total_nanos() <= later.total_nanos(),
    ensures
        FrameState::of(total, earlier).percent <= FrameState::of(total, later).percent <= 100,
        FrameState::of(total, later).remaining.total_nanos() <= FrameState::of(
            total,
            earlier,
        ).remaining.total_nanos(),
        FrameState::of(total, later).percent == 100 <==> later.total_nanos()
            >= total.total_nanos(),
        FrameState::of(total, later).remaining.total_nanos() == 0 <==> later.total_nanos()
            >= total.total_nanos(),
{
    lemma_percent_bounds(later.total_nanos(), total.total_nanos());
    lemma_percent_monotone(earlier.total_nanos(), later.total_nanos(), total.total_nanos());
}

/// What is left of a span counts the nanoseconds between the two, and none
/// once the span has elapsed.
pub proof fn lemma_minus_nanos(total: TimeSpan, elapsed: TimeSpan)
    requires
        total.wf(),
        elapsed.wf(),
    ensures
        total.minus(elapsed).wf(),
        total.minus(elapsed).total_nanos() == if elapsed.total_nanos() >= total.total_nanos() {
            0
        } else {
            total.total_nanos() - elapsed.total_nanos()
        },
{
}

} // verus!
