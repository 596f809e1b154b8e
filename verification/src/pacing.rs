//! Frame pacing: elapsed time is added up, and a frame is due each time the
//! sum passes one frame period, which is then taken off the sum.

use vstd::prelude::*;

verus! {

/// Frames per second of the mirror.
pub const FPS: u128 = 5;

/// Nanoseconds in one second.
pub const NANOS_PER_SECOND: u128 = 1_000_000_000;

/// Milliseconds in one second.
pub const MILLIS_PER_SECOND: u64 = 1000;

/// What a pacer holds: the time not yet spent on frames, and the length of
/// one frame, both in nanoseconds.
pub struct PacerView {
    pub accumulator: nat,
    pub period: nat,
}

/// A frame pacer driven by the nanoseconds that pass between two polls.
pub struct FramePacer {
    accumulator: u128,
    period: u128,
}

impl View for FramePacer {
    type V = PacerView;

    closed spec fn view(&self) -> PacerView {
        PacerView { accumulator: self.accumulator as nat, period: self.period as nat }
    }
}

/// One poll: the elapsed time is added; if the sum is now strictly above
/// one period a frame is due and one period is taken off.
pub open spec fn spec_step(s: PacerView, elapsed: nat) -> (PacerView, bool) {
    let total = s.accumulator + elapsed;
    if total > s.period {
        (PacerView { accumulator: (total - s.period) as nat, period: s.period }, true)
    } else {
        (PacerView { accumulator: total, period: s.period }, false)
    }
}

/// The state after a run of polls, and how many frames fell due in it.
pub open spec fn spec_run(s: PacerView, ticks: Seq<nat>) -> (PacerView, nat)
    decreases ticks.len(),
{
    if ticks.len() == 0 {
        (s, 0)
    } else {
        let (mid, n) = spec_run(s, ticks.drop_last());
        let (next, due) = spec_step(mid, ticks.last());
        (next, if due { n + 1 } else { n })
    }
}

/// The total of a run of elapsed times.
pub open spec fn total_elapsed(ticks: Seq<nat>) -> nat
    decreases ticks.len(),
{
    if ticks.len() == 0 {
        0
    } else {
        total_elapsed(ticks.drop_last()) + ticks.last()
    }
}

impl FramePacer {
    /// A pacer for `fps` frames per second, with nothing accumulated yet.
    pub fn new(fps: u128) -> (p: FramePacer)
        requires
            fps > 0,
        ensures
            p@.accumulator == 0,
            p@.period == NANOS_PER_SECOND / fps,
    {
        FramePacer { accumulator: 0, period: NANOS_PER_SECOND / fps }
    }

    /// The nanoseconds accumulated and not yet spent on a frame.
    pub fn accumulator(&self) -> (a: u128)
        ensures
            a == self@.accumulator,
    {
        self.accumulator
    }

    /// The length of one frame in nanoseconds.
    pub fn period(&self) -> (p: u128)
        ensures
            p == self@.period,
    {
        self.period
    }

    /// Adds the nanoseconds that passed since the last poll and says whether
    /// a frame is due; when one is, one period is taken off the sum.
    pub fn tick(&mut self, elapsed_nanos: u128) -> (due: bool)
        requires
            old(self)@.accumulator + elapsed_nanos <= u128::MAX,
        ensures
            (final(self)@, due) == spec_step(old(self)@, elapsed_nanos as nat),
            due <==> old(self)@.accumulator + elapsed_nanos > old(self)@.period,
            final(self)@.period == old(self)@.period,
            final(self)@.accumulator + (if due { old(self)@.period } else { 0 })
                == old(self)@.accumulator + elapsed_nanos,
    {
        self.accumulator = self.accumulator + elapsed_nanos;
        if self.accumulator > self.period {
            self.accumulator = self.accumulator - self.period;
            true
        } else {
            false
        }
    }
}

/// The interval in milliseconds between two redraw requests at `fps`
/// frames per second.
pub fn redraw_interval_millis(fps: u64) -> (ms: u64)
    requires
        fps > 0,
    ensures
        ms == MILLIS_PER_SECOND / fps,
{
    MILLIS_PER_SECOND / fps
}

/// A frame is due on a poll exactly when what was accumulated plus the
/// time that passed is strictly above one period, however far above it is;
/// a due frame takes exactly one period off that sum, and otherwise the sum
/// is kept whole.
pub proof fn lemma_step_due_exactly_above_period(s: PacerView, elapsed: nat)
    ensures
        spec_step(s, elapsed).1 <==> s.accumulator + elapsed > s.period,
        spec_step(s, elapsed).0.period == s.period,
        spec_step(s, elapsed).1 ==> spec_step(s, elapsed).0.accumulator + s.period
            == s.accumulator + elapsed,
        !spec_step(s, elapsed).1 ==> spec_step(s, elapsed).0.accumulator == s.accumulator
            + elapsed,
{
}

/// A pacer holding more than one period owes a frame: a poll with no time
/// passed yields one and takes one period off.
pub proof fn lemma_backlog_yields_frame_on_empty_poll(s: PacerView)
    requires
        s.accumulator > s.period,
    ensures
        spec_step(s, 0).1,
        spec_step(s, 0).0.accumulator == s.accumulator - s.period,
{
}

/// A backlog of more than `n` periods is paid out one frame per poll: `n`
/// polls with no time passed yield `n` frames and leave the backlog short
/// by `n` periods.
pub proof fn lemma_backlog_drains_one_period_per_poll(s: PacerView, n: nat)
    requires
        s.accumulator > n * s.period,
    ensures
        spec_run(s, Seq::new(n, |i: int| 0nat)).1 == n,
        spec_run(s, Seq::new(n, |i: int| 0nat)).0.accumulator == s.accumulator - n * s.period,
        spec_run(s, Seq::new(n, |i: int| 0nat)).0.period == s.period,
    decreases n,
{
    if n > 0 {
        let m = (n - 1) as nat;
        assert(m * s.period <= n * s.period) by (nonlinear_arith)
            requires
                m + 1 == n,
        ;
        lemma_backlog_drains_one_period_per_poll(s, m);
        assert(Seq::new(n, |i: int| 0nat).drop_last() =~= Seq::new(m, |i: int| 0nat));
        assert(n * s.period == m * s.period + s.period) by (nonlinear_arith)
            requires
                m + 1 == n,
        ;
        assert(Seq::new(n, |i: int| 0nat).last() == 0);
    } else {
        assert(n * s.period == 0) by (nonlinear_arith)
            requires
                n == 0,
        ;
    }
}

/// No time is lost or made up: over any run of polls, the frames that fell
/// due times the period, plus what is left in the accumulator, equal what
/// was accumulated at the start plus all the time that passed; the period
/// never changes.
pub proof fn lemma_run_conserves_time(s: PacerView, ticks: Seq<nat>)
    ensures
        spec_run(s, ticks).0.period == s.period,
        spec_run(s, ticks).1 * s.period + spec_run(s, ticks).0.accumulator
            == s.accumulator + total_elapsed(ticks),
    decreases ticks.len(),
{
    if ticks.len() > 0 {
        lemma_run_conserves_time(s, ticks.drop_last());
        let (mid, n) = spec_run(s, ticks.drop_last());
        assert((n + 1) * s.period == n * s.period + s.period) by (nonlinear_arith);
    }
}

/// While no poll brings more than one period, a pacer that starts with at
/// most one period accumulated never holds more than one period.
pub proof fn lemma_run_stays_within_one_period(s: PacerView, ticks: Seq<nat>)
    requires
        s.accumulator <= s.period,
        forall|i: int| 0 <= i < ticks.len() ==> #[trigger] ticks[i] <= s.period,
    ensures
        spec_run(s, ticks).0.accumulator <= s.period,
    decreases ticks.len(),
{
    if ticks.len() > 0 {
        let init = ticks.drop_last();
        assert forall|i: int| 0 <= i < init.len() implies #[trigger] init[i] <= s.period by {
            assert(init[i] == ticks[i]);
        }
        lemma_run_stays_within_one_period(s, init);
        lemma_run_conserves_time(s, init);
        assert(ticks.last() == ticks[ticks.len() - 1]);
    }
}

/// At most one frame falls due per poll: a run of polls never yields more
/// frames than it has polls.
pub proof fn lemma_at_most_one_frame_per_poll(s: PacerView, ticks: Seq<nat>)
    ensures
        spec_run(s, ticks).1 <= ticks.len(),
    decreases ticks.len(),
{
    if ticks.len() > 0 {
        lemma_at_most_one_frame_per_poll(s, ticks.drop_last());
    }
}

} // verus!
