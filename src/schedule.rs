//! The damper schedule: a piecewise-constant position profile, the tick that
//! walks it, and the rule for replacing it while it runs.
use vstd::prelude::*;
use crate::sample::{same_value, values_equal};

verus! {

/// Number of steps in a schedule.
pub const STEPS: usize = 20;

/// Settings shared by the control plane and the two background loops.
#[derive(Clone, Copy, Debug)]
pub struct Config {
    /// Seconds after `last_modified` at which each step begins; the first is 0
    /// and they do not decrease.
    pub step_times: [i64; 20],
    /// Damper position of each step, a fraction of the calibrated range,
    /// as single-precision bit patterns.
    pub step_fracs: [u32; 20],
    /// Time between two measurements, in milliseconds.
    pub measurement_period_ms: u32,
    /// Smoothing parameter.
    pub n_wavelets: u16,
    /// Absolute humidity threshold below which a sample counts as a cutoff,
    /// as a single-precision bit pattern.
    pub w_cut: u32,
    /// Epoch second from which `step_times` count.
    pub last_modified: i64,
}

/// Pattern of the default humidity threshold, `12.0`.
pub const DEFAULT_W_CUT: u32 = 0x4140_0000;

/// The first index `j >= from` with `times[j] > elapsed`, if any.
pub open spec fn first_later(times: Seq<i64>, from: int, elapsed: int) -> Option<int>
    decreases times.len() - from,
{
    if from < 0 || from >= times.len() {
        None
    } else if times[from] > elapsed {
        Some(from)
    } else {
        first_later(times, from + 1, elapsed)
    }
}

/// The progress after one tick and the step whose position that tick applies.
///
/// At progress 0 the first step is applied unconditionally. Otherwise the
/// earliest step not yet applied whose start lies after `elapsed` is applied,
/// and progress moves past it; when there is none, nothing happens.
pub open spec fn tick_result(times: Seq<i64>, progress: int, elapsed: int) -> (usize, Option<usize>) {
    if progress == 0 {
        (1, Some(0))
    } else {
        match first_later(times, progress, elapsed) {
            Some(j) => (if j + 1 < times.len() {
                (j + 1) as usize
            } else {
                times.len() as usize
            }, Some(j as usize)),
            None => (progress as usize, None),
        }
    }
}

/// The new schedule agrees with the old one on every step already applied:
/// same start times and numerically equal positions.
pub open spec fn prefix_matches(old: Config, new: Config, progress: int) -> bool {
    forall|k: int|
        0 <= k < progress ==> old.step_times@[k] == new.step_times@[k] && same_value(
            old.step_fracs@[k],
            new.step_fracs@[k],
        )
}

/// Agreement on one more step is agreement so far and on that step.
proof fn lemma_prefix_extend(old: Config, new: Config, k: int)
    requires
        0 <= k,
    ensures
        prefix_matches(old, new, k + 1) == (prefix_matches(old, new, k) && old.step_times@[k]
            == new.step_times@[k] && same_value(old.step_fracs@[k], new.step_fracs@[k])),
{
    if prefix_matches(old, new, k + 1) {
        assert forall|w: int| 0 <= w < k implies old.step_times@[w] == new.step_times@[w]
            && same_value(old.step_fracs@[w], new.step_fracs@[w]) by {
            assert(0 <= w < k + 1);
        }
        assert(0 <= k < k + 1);
    }
}

impl Config {
    /// The settings at boot: every step at position 0 from time 0, a two
    /// second measurement period, and the schedule counted from `now`.
    pub fn new(now: i64) -> (r: Config)
        ensures
            r.step_times@ == Seq::new(20, |k: int| 0i64),
            r.step_fracs@ == Seq::new(20, |k: int| 0u32),
            r.measurement_period_ms == 2000,
            r.n_wavelets == 40,
            r.w_cut == DEFAULT_W_CUT,
            r.last_modified == now,
    {
        let r = Config {
            step_times: [0i64; 20],
            step_fracs: [0u32; 20],
            measurement_period_ms: 2000,
            n_wavelets: 40,
            w_cut: DEFAULT_W_CUT,
            last_modified: now,
        };
        assert(r.step_times@ =~= Seq::new(20, |k: int| 0i64));
        assert(r.step_fracs@ =~= Seq::new(20, |k: int| 0u32));
        r
    }

    /// One tick of the actuation loop at epoch second `now`, from `progress`
    /// steps already applied: the new progress, and the step whose position
    /// is to be applied now, if any.
    pub fn tick(&self, progress: usize, now: i64) -> (r: (usize, Option<usize>))
        requires
            progress <= STEPS,
        ensures
            r == tick_result(self.step_times@, progress as int, now - self.last_modified),
            r.0 <= STEPS,
    {
        if progress == 0 {
            return (1, Some(0));
        }
        let elapsed: i128 = now as i128 - self.last_modified as i128;
        let mut j: usize = progress;
        while j < STEPS
            invariant
                0 < progress <= j <= STEPS,
                elapsed == now - self.last_modified,
                first_later(self.step_times@, progress as int, elapsed as int) == first_later(
                    self.step_times@,
                    j as int,
                    elapsed as int,
                ),
            decreases STEPS - j,
        {
            if self.step_times[j] as i128 > elapsed {
                assert(self.step_times@.len() == STEPS);
                assert(first_later(self.step_times@, j as int, elapsed as int) == Some(j as int));
                let next = if j + 1 < STEPS {
                    j + 1
                } else {
                    STEPS
                };
                return (next, Some(j));
            }
            j = j + 1;
        }
        (progress, None)
    }

    /// Replaces the schedule by `new`, received at epoch second `now`, while
    /// `progress` steps of this one have been applied.
    ///
    /// When the new schedule agrees with this one on those steps, the work
    /// already done stands for the new schedule too: progress restarts at 0
    /// and the new schedule counts from `now`. Otherwise the new schedule takes
    /// effect for the coming ticks, and progress and the time origin stay.
    pub fn update(&mut self, new: Config, progress: &mut usize, now: i64)
        requires
            *old(progress) <= STEPS,
        ensures
            prefix_matches(*old(self), new, *old(progress) as int) ==> *final(progress) == 0
                && *final(self) == (Config { last_modified: now, ..new }),
            !prefix_matches(*old(self), new, *old(progress) as int) ==> *final(progress) == *old(
                progress,
            ) && *final(self) == (Config { last_modified: old(self).last_modified, ..new }),
    {
        let mut same = true;
        let mut k: usize = 0;
        while k < *progress
            invariant
                *progress <= STEPS,
                k <= *progress,
                same == prefix_matches(*self, new, k as int),
            decreases *progress - k,
        {
            if self.step_times[k] != new.step_times[k] || !values_equal(
                self.step_fracs[k],
                new.step_fracs[k],
            ) {
                same = false;
            }
            proof {
                lemma_prefix_extend(*self, new, k as int);
            }
            k = k + 1;
        }
        let last_modified = if same {
            now
        } else {
            self.last_modified
        };
        if same {
            *progress = 0;
        }
        *self = Config { last_modified, ..new };
    }
}

} // verus!
