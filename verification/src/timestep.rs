//! Frame stepping of the server's main loop.
//!
//! Every frame the `Update` schedule runs once, then the time that passed since
//! the previous frame is added to an accumulator, and the `FixedUpdate`
//! schedule runs once for every whole fixed timestep in it. When the server
//! falls so far behind that more than a bounded number of fixed updates would
//! be owed, it runs that bounded number, drops the rest of the backlog and
//! reports that it lags. All durations are counted in nanoseconds.

use vstd::prelude::*;
use vstd::arithmetic::div_mod::lemma_fundamental_div_mod_converse;

verus! {

/// The largest number of nanoseconds that a `std::time::Duration` can hold.
pub const MAX_DURATION_NANOS: u128 = 18_446_744_073_709_551_615_999_999_999u128;

/// The most fixed updates that one frame runs before it drops the backlog.
pub const MAX_FIXED_UPDATES_PER_FRAME: u64 = 5;

/// Whether a frame that finds `total` nanoseconds accumulated, with a fixed
/// timestep of `step` nanoseconds, owes the bounded number of fixed updates or
/// more, and so lags.
pub open spec fn frame_lags(total: int, step: int) -> bool {
    total >= MAX_FIXED_UPDATES_PER_FRAME * step
}

/// How many fixed updates a frame runs when it finds `total` nanoseconds
/// accumulated, with a fixed timestep of `step` nanoseconds.
pub open spec fn fixed_updates_for(total: int, step: int) -> int {
    if frame_lags(total, step) {
        MAX_FIXED_UPDATES_PER_FRAME as int
    } else {
        total / step
    }
}

/// What stays in the accumulator after such a frame.
pub open spec fn carried_over(total: int, step: int) -> int {
    if frame_lags(total, step) {
        0
    } else {
        total % step
    }
}

/// The sum of the frame durations in `deltas`.
pub open spec fn total_time(deltas: Seq<int>) -> int
    decreases deltas.len(),
{
    if deltas.len() == 0 {
        0
    } else {
        total_time(deltas.drop_last()) + deltas.last()
    }
}

/// Runs frames of the given durations from an accumulator holding `acc`
/// nanoseconds: the fixed updates run in all, the accumulator at the end, and
/// whether any frame lagged.
pub open spec fn run_frames(acc: int, step: int, deltas: Seq<int>) -> (int, int, bool)
    decreases deltas.len(),
{
    if deltas.len() == 0 {
        (0, acc, false)
    } else {
        let before = run_frames(acc, step, deltas.drop_last());
        let total = before.1 + deltas.last();
        (
            before.0 + fixed_updates_for(total, step),
            carried_over(total, step),
            before.2 || frame_lags(total, step),
        )
    }
}

/// Fixed updates keep a fixed rate: over any run of frames in which the server
/// never lags, the time accumulated at the start plus the time of all frames
/// equals the time consumed by the fixed updates that ran plus what is left in
/// the accumulator, and what is left is less than one timestep.
pub proof fn lemma_fixed_rate_conserves_time(acc: int, step: int, deltas: Seq<int>)
    requires
        0 <= acc,
        0 <= step,
        acc < step || acc == 0,
        forall|i: int| 0 <= i < deltas.len() ==> 0 <= #[trigger] deltas[i],
        !run_frames(acc, step, deltas).2,
    ensures
        acc + total_time(deltas) == run_frames(acc, step, deltas).1 + run_frames(acc, step, deltas).0
            * step,
        0 <= run_frames(acc, step, deltas).1,
        run_frames(acc, step, deltas).1 < step || run_frames(acc, step, deltas).1 == 0,
    decreases deltas.len(),
{
    if deltas.len() > 0 {
        let init = deltas.drop_last();
        assert forall|i: int| 0 <= i < init.len() implies 0 <= #[trigger] init[i] by {
            assert(init[i] == deltas[i]);
        }
        lemma_fixed_rate_conserves_time(acc, step, init);
        let before = run_frames(acc, step, init);
        let total = before.1 + deltas.last();
        assert(deltas.last() == deltas[deltas.len() - 1]);
        assert(!frame_lags(total, step));
        assert(step != 0);
        assert(total == step * (total / step) + total % step) by {
            vstd::arithmetic::div_mod::lemma_fundamental_div_mod(total, step);
        }
        assert(0 <= total % step < step) by {
            vstd::arithmetic::div_mod::lemma_mod_bound(total, step);
        }
        assert((before.0 + total / step) * step == before.0 * step + step * (total / step))
            by (nonlinear_arith);
    }
}

/// Fixed updates never run ahead of time: over any run of frames, lagging or
/// not, the time consumed by the fixed updates that ran plus what is left in
/// the accumulator is at most the time accumulated at the start plus the time
/// of all frames (lagging frames drop their backlog, so time is only lost).
pub proof fn lemma_fixed_updates_never_run_ahead(acc: int, step: int, deltas: Seq<int>)
    requires
        0 <= acc,
        0 <= step,
        forall|i: int| 0 <= i < deltas.len() ==> 0 <= #[trigger] deltas[i],
    ensures
        run_frames(acc, step, deltas).0 * step + run_frames(acc, step, deltas).1 <= acc
            + total_time(deltas),
        0 <= run_frames(acc, step, deltas).0,
        0 <= run_frames(acc, step, deltas).1,
    decreases deltas.len(),
{
    if deltas.len() > 0 {
        let init = deltas.drop_last();
        assert forall|i: int| 0 <= i < init.len() implies 0 <= #[trigger] init[i] by {
            assert(init[i] == deltas[i]);
        }
        lemma_fixed_updates_never_run_ahead(acc, step, init);
        let before = run_frames(acc, step, init);
        let total = before.1 + deltas.last();
        assert(deltas.last() == deltas[deltas.len() - 1]);
        let n = fixed_updates_for(total, step);
        if frame_lags(total, step) {
            assert((before.0 + n) * step == before.0 * step + n * step) by (nonlinear_arith);
        } else {
            assert(step != 0);
            assert(total == step * (total / step) + total % step) by {
                vstd::arithmetic::div_mod::lemma_fundamental_div_mod(total, step);
            }
            assert(0 <= total % step < step) by {
                vstd::arithmetic::div_mod::lemma_mod_bound(total, step);
            }
            assert(0 <= total / step) by {
                vstd::arithmetic::div_mod::lemma_div_pos_is_pos(total, step);
            }
            assert((before.0 + total / step) * step == before.0 * step + step * (total / step))
                by (nonlinear_arith);
        }
    }
}

/// What one frame decided: how many fixed updates to run, and whether the
/// backlog was dropped because the server lags.
#[derive(Clone, Copy, Debug, PartialEq, Eq)]
pub struct FrameStep {
    pub fixed_updates: u64,
    pub lagging: bool,
}

/// The fixed timestep and the time accumulated towards the next fixed update.
pub struct FixedTimestep {
    step: u128,
    accumulator: u128,
}

impl FixedTimestep {
    /// The fixed timestep, in nanoseconds.
    pub closed spec fn step_nanos(self) -> int {
        self.step as int
    }

    /// The time accumulated towards the next fixed update, in nanoseconds.
    pub closed spec fn accumulated_nanos(self) -> int {
        self.accumulator as int
    }

    /// Both durations fit in a `Duration`, and the accumulator holds less than
    /// one timestep, or nothing.
    #[verifier::type_invariant]
    closed spec fn well_formed(self) -> bool {
        &&& self.step <= MAX_DURATION_NANOS
        &&& self.accumulator <= MAX_DURATION_NANOS
        &&& (self.accumulator < self.step || self.accumulator == 0)
    }

    /// A clock with the given fixed timestep and nothing accumulated.
    pub fn new(step_nanos: u128) -> (clock: Self)
        requires
            step_nanos <= MAX_DURATION_NANOS,
        ensures
            clock.step_nanos() == step_nanos,
            clock.accumulated_nanos() == 0,
    {
        FixedTimestep { step: step_nanos, accumulator: 0 }
    }

    /// The fixed timestep, in nanoseconds.
    pub fn step(&self) -> (step: u128)
        ensures
            step == self.step_nanos(),
            step <= MAX_DURATION_NANOS,
    {
        proof {
            use_type_invariant(self);
        }
        self.step
    }

    /// The time accumulated towards the next fixed update, in nanoseconds.
    pub fn accumulated(&self) -> (acc: u128)
        ensures
            acc == self.accumulated_nanos(),
            acc <= MAX_DURATION_NANOS,
            acc < self.step_nanos() || acc == 0,
    {
        proof {
            use_type_invariant(self);
        }
        self.accumulator
    }

    /// Adds the `delta` nanoseconds that passed since the previous frame and
    /// decides how many fixed updates this frame runs.
    pub fn advance(&mut self, delta: u128) -> (frame: FrameStep)
        requires
            old(self).accumulated_nanos() + delta <= MAX_DURATION_NANOS,
        ensures
            ({
                let total = old(self).accumulated_nanos() + delta;
                let step = old(self).step_nanos();
                &&& frame.fixed_updates == fixed_updates_for(total, step)
                &&& frame.lagging == frame_lags(total, step)
                &&& final(self).accumulated_nanos() == carried_over(total, step)
                &&& final(self).step_nanos() == step
            }),
            frame.fixed_updates <= MAX_FIXED_UPDATES_PER_FRAME,
            frame.lagging <==> old(self).accumulated_nanos() + delta >= MAX_FIXED_UPDATES_PER_FRAME
                * old(self).step_nanos(),
            frame.lagging ==> final(self).accumulated_nanos() == 0,
            !frame.lagging ==> final(self).accumulated_nanos() < final(self).step_nanos(),
            final(self).step_nanos() == old(self).step_nanos(),
            frame.lagging <==> frame.fixed_updates == MAX_FIXED_UPDATES_PER_FRAME,
            !frame.lagging ==> old(self).accumulated_nanos() + delta
                == final(self).accumulated_nanos() + frame.fixed_updates * final(self).step_nanos(),
    {
        proof {
            use_type_invariant(&*self);
        }
        let step = self.step;
        let total = self.accumulator + delta;
        let mut acc = total;
        let mut frames: u64 = 0;
        let mut lagging = false;
        while acc >= step
            invariant_except_break
                frames < MAX_FIXED_UPDATES_PER_FRAME,
                acc + frames * step == total,
                !lagging,
            invariant
                step <= MAX_DURATION_NANOS,
                total <= MAX_DURATION_NANOS,
            ensures
                lagging ==> frames == MAX_FIXED_UPDATES_PER_FRAME && acc == 0
                    && MAX_FIXED_UPDATES_PER_FRAME * step <= total,
                !lagging ==> frames < MAX_FIXED_UPDATES_PER_FRAME && acc < step && acc + frames
                    * step == total,
            decreases MAX_FIXED_UPDATES_PER_FRAME - frames,
        {
            assert((frames + 1) * step == frames * step + step) by (nonlinear_arith);
            acc = acc - step;
            frames = frames + 1;
            if frames >= MAX_FIXED_UPDATES_PER_FRAME {
                acc = 0;
                lagging = true;
                break;
            }
        }
        proof {
            if !lagging {
                assert(frames <= 4);
                assert(frames * step <= 4 * step) by (nonlinear_arith)
                    requires
                        frames <= 4,
                ;
                assert(step > 0);
                lemma_fundamental_div_mod_converse(total as int, step as int, frames as int, acc as int);
            }
        }
        self.accumulator = acc;
        FrameStep { fixed_updates: frames, lagging }
    }

    /// How long the loop sleeps after a frame that took `elapsed` nanoseconds:
    /// the rest of the fixed timestep, or nothing when the frame used it up.
    pub fn sleep_after(&self, elapsed: u128) -> (sleep: Option<u128>)
        ensures
            elapsed < self.step_nanos() ==> sleep == Some((self.step_nanos() - elapsed) as u128),
            elapsed >= self.step_nanos() ==> sleep is None,
    {
        if elapsed < self.step {
            Some(self.step - elapsed)
        } else {
            None
        }
    }
}

} // verus!
