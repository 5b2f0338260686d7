//! The damper's stepper motor: half-step coil patterns, bounded moves, and
//! homing against three proximity sensors.
use vstd::prelude::*;

verus! {

/// Direction of one half step.
#[derive(Clone, Copy, Debug, PartialEq, Eq, Structural)]
pub enum Dir {
    /// Counter-clockwise: towards larger positions.
    CC,
    /// Clockwise: towards smaller positions.
    CW,
    /// Release all coils.
    Off,
}

/// Coil patterns of the eight half steps; bit `j` drives coil `j`.
pub open spec fn pulse_table() -> Seq<u8> {
    seq![0x9u8, 0x8u8, 0xcu8, 0x4u8, 0x6u8, 0x2u8, 0x3u8, 0x1u8]
}

/// Levels of the four coils for `pattern`; all low when released.
pub open spec fn coil_levels(pattern: u8, dir: Dir) -> Seq<bool> {
    let on = dir != Dir::Off;
    seq![
        on && pattern & 1u8 != 0,
        on && pattern & 2u8 != 0,
        on && pattern & 4u8 != 0,
        on && pattern & 8u8 != 0,
    ]
}

/// The half-step index after moving one step in `dir`.
pub open spec fn step_phase(phase: int, dir: Dir) -> int {
    match dir {
        Dir::CC => (phase + 1) % 8,
        Dir::CW => (phase + 7) % 8,
        Dir::Off => phase,
    }
}

/// The half-step index after `n` steps in `dir`.
pub open spec fn phase_after(phase: int, dir: Dir, n: int) -> int {
    match dir {
        Dir::CC => (phase + n) % 8,
        Dir::CW => (phase - n) % 8,
        Dir::Off => phase,
    }
}

/// The coil levels of `n` successive half steps in `dir` from `phase`.
pub open spec fn step_levels(phase: int, dir: Dir, n: nat) -> Seq<Seq<bool>> {
    Seq::new(n, |t: int| coil_levels(pulse_table()[phase_after(phase, dir, t + 1)], dir))
}

/// How many half steps a move from `pos` up to `target` drives: the motor
/// steps only while the new position stays below `max`.
pub open spec fn forward_moves(pos: int, target: int, max: int) -> nat {
    let top = if target < max {
        target
    } else {
        max - 1
    };
    if top > pos {
        (top - pos) as nat
    } else {
        0
    }
}

/// How many half steps a move from `pos` down to `target` drives: the motor
/// steps only while the new position stays above `min`.
pub open spec fn backward_moves(pos: int, target: int, min: int) -> nat {
    let bottom = if target > min {
        target
    } else {
        min + 1
    };
    if bottom < pos {
        (pos - bottom) as nat
    } else {
        0
    }
}

/// The driver's half-step sequencer: which of the eight coil patterns is on.
#[derive(Clone, Copy, Debug)]
pub struct HalfStep {
    phase: u8,
    pulse: [u8; 8],
}

impl HalfStep {
    /// Index of the current pattern.
    pub closed spec fn spec_phase(&self) -> int {
        self.phase as int
    }

    /// The index is in range and the table is the half-step table.
    pub closed spec fn wf(&self) -> bool {
        self.phase < 8 && self.pulse@ == pulse_table()
    }

    /// A sequencer at the first pattern.
    pub fn init() -> (r: HalfStep)
        ensures
            r.wf(),
            r.spec_phase() == 0,
    {
        let r = HalfStep { phase: 0, pulse: [0x9, 0x8, 0xc, 0x4, 0x6, 0x2, 0x3, 0x1] };
        assert(r.pulse@ =~= pulse_table());
        r
    }

    /// Moves one half step in `dir` (or releases the coils) and gives the
    /// levels to put on the four coils.
    pub fn activate(&mut self, dir: Dir) -> (r: [bool; 4])
        requires
            old(self).wf(),
        ensures
            final(self).wf(),
            final(self).spec_phase() == step_phase(old(self).spec_phase(), dir),
            r@ == coil_levels(pulse_table()[final(self).spec_phase()], dir),
    {
        self.phase = match dir {
            Dir::CC => (self.phase + 1) % 8,
            Dir::CW => (self.phase + 7) % 8,
            Dir::Off => self.phase,
        };
        let p = self.pulse[self.phase as usize];
        let on = dir != Dir::Off;
        let r = [on && p & 1 != 0, on && p & 2 != 0, on && p & 4 != 0, on && p & 8 != 0];
        assert(r@ =~= coil_levels(pulse_table()[self.spec_phase()], dir));
        r
    }
}

/// `n + 1` steps are `n` steps and one more.
proof fn lemma_phase_after_step(phase: int, dir: Dir, n: int)
    requires
        0 <= phase < 8,
        0 <= n,
        dir != Dir::Off,
    ensures
        step_phase(phase_after(phase, dir, n), dir) == phase_after(phase, dir, n + 1),
        0 <= phase_after(phase, dir, n) < 8,
{
    match dir {
        Dir::CC => {
            vstd::arithmetic::div_mod::lemma_add_mod_noop(phase + n, 1, 8);
        },
        Dir::CW => {
            vstd::arithmetic::div_mod::lemma_add_mod_noop(phase - n, 7, 8);
            vstd::arithmetic::div_mod::lemma_mod_add_multiples_vanish(phase - n - 1, 8);
        },
        Dir::Off => {},
    }
}

/// A requested position lies outside the calibrated range.
#[derive(Clone, Copy, Debug, PartialEq, Eq, Structural)]
pub struct PositionOutOfRange;

/// The damper motor with its calibrated range `[min, max]` and its position.
pub struct Stepper {
    pub min: i32,
    pub max: i32,
    pub pos: i32,
    /// Sequencer of the coil patterns.
    pub step: HalfStep,
    /// Pause before each half step, in milliseconds.
    pub delay_ms: u32,
}

impl Stepper {
    /// The sequencer is well formed.
    pub open spec fn wf(&self) -> bool {
        self.step.wf()
    }

    /// Index of the sequencer's current pattern.
    pub open spec fn spec_phase(&self) -> int {
        self.step.spec_phase()
    }

    /// Moves the position up by one, and gives the coil levels of the half
    /// step to drive when the new position is still below `max`.
    pub fn fwd(&mut self) -> (r: Option<[bool; 4]>)
        requires
            old(self).wf(),
            old(self).pos < i32::MAX,
        ensures
            final(self).wf(),
            final(self).pos == old(self).pos + 1,
            final(self).min == old(self).min,
            final(self).max == old(self).max,
            final(self).delay_ms == old(self).delay_ms,
            final(self).pos < final(self).max ==> final(self).spec_phase() == step_phase(
                old(self).spec_phase(),
                Dir::CC,
            ) && r is Some && r->Some_0@ == coil_levels(
                pulse_table()[final(self).spec_phase()],
                Dir::CC,
            ),
            final(self).pos >= final(self).max ==> final(self).spec_phase() == old(
                self,
            ).spec_phase() && r is None,
    {
        self.pos = self.pos + 1;
        if self.pos < self.max {
            Some(self.step.activate(Dir::CC))
        } else {
            None
        }
    }

    /// Moves the position down by one, and gives the coil levels of the half
    /// step to drive when the new position is still above `min`.
    pub fn rev(&mut self) -> (r: Option<[bool; 4]>)
        requires
            old(self).wf(),
            old(self).pos > i32::MIN,
        ensures
            final(self).wf(),
            final(self).pos == old(self).pos - 1,
            final(self).min == old(self).min,
            final(self).max == old(self).max,
            final(self).delay_ms == old(self).delay_ms,
            final(self).pos > final(self).min ==> final(self).spec_phase() == step_phase(
                old(self).spec_phase(),
                Dir::CW,
            ) && r is Some && r->Some_0@ == coil_levels(
                pulse_table()[final(self).spec_phase()],
                Dir::CW,
            ),
            final(self).pos <= final(self).min ==> final(self).spec_phase() == old(
                self,
            ).spec_phase() && r is None,
    {
        self.pos = self.pos - 1;
        if self.pos > self.min {
            Some(self.step.activate(Dir::CW))
        } else {
            None
        }
    }

    /// Releases the coils: the levels are all low and the pattern stays.
    pub fn off(&mut self) -> (r: [bool; 4])
        requires
            old(self).wf(),
        ensures
            final(self).wf(),
            final(self).spec_phase() == old(self).spec_phase(),
            final(self).pos == old(self).pos,
            final(self).min == old(self).min,
            final(self).max == old(self).max,
            r@ == seq![false, false, false, false],
    {
        let r = self.step.activate(Dir::Off);
        assert(r@ =~= seq![false, false, false, false]);
        r
    }

    /// Moves to position `pos`, which must lie in `[min, max]`, and gives the
    /// coil levels of the half steps to drive, in order. The motor steps only
    /// strictly inside the range, so arriving at `min` or `max` drives one
    /// step fewer than the distance.
    pub fn set_pos(&mut self, pos: i32) -> (r: Result<Vec<[bool; 4]>, PositionOutOfRange>)
        requires
            old(self).wf(),
        ensures
            final(self).wf(),
            final(self).min == old(self).min,
            final(self).max == old(self).max,
            final(self).delay_ms == old(self).delay_ms,
            (pos < old(self).min || pos > old(self).max) ==> r == Err::<
                Vec<[bool; 4]>,
                PositionOutOfRange,
            >(PositionOutOfRange) && *final(self) == *old(self),
            old(self).min <= pos <= old(self).max ==> r is Ok && final(self).pos == pos,
            old(self).min <= pos <= old(self).max && old(self).pos <= pos ==> ({
                let n = forward_moves(old(self).pos as int, pos as int, old(self).max as int);
                &&& r->Ok_0@.map_values(|l: [bool; 4]| l@) == step_levels(
                    old(self).spec_phase(),
                    Dir::CC,
                    n,
                )
                &&& final(self).spec_phase() == phase_after(old(self).spec_phase(), Dir::CC, n as int)
            }),
            old(self).min <= pos <= old(self).max && old(self).pos > pos ==> ({
                let n = backward_moves(old(self).pos as int, pos as int, old(self).min as int);
                &&& r->Ok_0@.map_values(|l: [bool; 4]| l@) == step_levels(
                    old(self).spec_phase(),
                    Dir::CW,
                    n,
                )
                &&& final(self).spec_phase() == phase_after(old(self).spec_phase(), Dir::CW, n as int)
            }),
    {
        if pos < self.min || pos > self.max {
            return Err(PositionOutOfRange);
        }
        let ghost start = *self;
        let ghost phase0 = self.spec_phase();
        let mut out: Vec<[bool; 4]> = Vec::new();
        while self.pos < pos
            invariant
                self.wf(),
                self.min == start.min,
                self.max == start.max,
                self.delay_ms == start.delay_ms,
                start.wf(),
                phase0 == start.spec_phase(),
                start.pos <= pos ==> start.pos <= self.pos <= pos,
                start.pos > pos ==> self.pos == start.pos && out@.len() == 0,
                self.min <= pos <= self.max,
                out@.len() == forward_moves(start.pos as int, self.pos as int, self.max as int),
                out@.map_values(|l: [bool; 4]| l@) == step_levels(phase0, Dir::CC, out@.len()),
                self.spec_phase() == phase_after(phase0, Dir::CC, out@.len() as int),
            decreases pos - self.pos,
        {
            let ghost before = out@;
            proof {
                lemma_phase_after_step(phase0, Dir::CC, out@.len() as int);
            }
            match self.fwd() {
                Some(l) => {
                    out.push(l);
                    assert(out@.map_values(|l: [bool; 4]| l@) =~= before.map_values(
                        |l: [bool; 4]| l@,
                    ).push(l@));
                },
                None => {},
            }
            assert(out@.map_values(|l: [bool; 4]| l@) =~= step_levels(phase0, Dir::CC, out@.len()));
        }
        while self.pos > pos
            invariant
                self.wf(),
                self.min == start.min,
                self.max == start.max,
                self.delay_ms == start.delay_ms,
                start.wf(),
                phase0 == start.spec_phase(),
                pos <= self.pos,
                start.pos > pos ==> self.pos <= start.pos && out@.len() == backward_moves(
                    start.pos as int,
                    self.pos as int,
                    self.min as int,
                ) && out@.map_values(|l: [bool; 4]| l@) == step_levels(phase0, Dir::CW, out@.len())
                    && self.spec_phase() == phase_after(phase0, Dir::CW, out@.len() as int),
                start.pos <= pos ==> self.pos == pos && out@.map_values(|l: [bool; 4]| l@)
                    == step_levels(
                    phase0,
                    Dir::CC,
                    forward_moves(start.pos as int, pos as int, self.max as int),
                ) && self.spec_phase() == phase_after(
                    phase0,
                    Dir::CC,
                    forward_moves(start.pos as int, pos as int, self.max as int) as int,
                ),
                self.min <= pos <= self.max,
            decreases self.pos - pos,
        {
            let ghost before = out@;
            proof {
                lemma_phase_after_step(phase0, Dir::CW, out@.len() as int);
            }
            match self.rev() {
                Some(l) => {
                    out.push(l);
                    assert(out@.map_values(|l: [bool; 4]| l@) =~= before.map_values(
                        |l: [bool; 4]| l@,
                    ).push(l@));
                },
                None => {},
            }
            assert(out@.map_values(|l: [bool; 4]| l@) =~= step_levels(phase0, Dir::CW, out@.len()));
        }
        Ok(out)
    }
}

/// The reading that at least two of the three sensors gave at the start; it
/// stands for "no magnet near".
pub open spec fn majority(a: bool, b: bool, c: bool) -> bool {
    (a && b) || (a && c) || (b && c)
}

/// A raw reading corrected against the baseline: `true` means "at a magnet".
pub open spec fn corrected(baseline: bool, raw: bool) -> bool {
    raw != baseline
}

/// Where homing stands.
#[derive(Clone, Copy, Debug, PartialEq, Eq, Structural)]
pub enum HomingPhase {
    /// Stepping up until a boundary sensor fires.
    Forward,
    /// Stepping down until a boundary sensor fires.
    Backward,
    /// Both searches are over.
    Done,
}

/// Pause between half steps while homing, in milliseconds.
pub const HOMING_DELAY_MS: u32 = 20;

/// The search for the damper's range, from position 0, against three
/// proximity sensors at the low end, the middle and the high end, whose
/// polarity is not known in advance.
pub struct Homing {
    /// The motor, with the boundaries found so far.
    pub stepper: Stepper,
    /// The majority reading at the start.
    pub baseline: bool,
    /// Which search runs.
    pub phase: HomingPhase,
}

impl Homing {
    /// Begins homing from the sensors' first readings; the motor stands at
    /// position 0 and both boundaries are 0 until found.
    pub fn start(step: HalfStep, at_min: bool, at_mid: bool, at_max: bool) -> (r: Homing)
        requires
            step.wf(),
        ensures
            r.stepper.wf(),
            r.stepper.step == step,
            r.stepper.min == 0 && r.stepper.max == 0 && r.stepper.pos == 0,
            r.stepper.delay_ms == HOMING_DELAY_MS,
            r.baseline == majority(at_min, at_mid, at_max),
            r.phase == HomingPhase::Forward,
    {
        let baseline = (at_min && at_mid) || (at_min && at_max) || (at_mid && at_max);
        Homing {
            stepper: Stepper { min: 0, max: 0, pos: 0, step, delay_ms: HOMING_DELAY_MS },
            baseline,
            phase: HomingPhase::Forward,
        }
    }

    /// Whether both searches are over.
    pub fn is_done(&self) -> (r: bool)
        ensures
            r == (self.phase == HomingPhase::Done),
    {
        self.phase == HomingPhase::Done
    }

    /// Takes one half step in the direction of the running search and gives
    /// the coil levels to drive; `None`, with nothing changed, when the
    /// position cannot move further in that direction.
    pub fn advance(&mut self) -> (r: Option<[bool; 4]>)
        requires
            old(self).stepper.wf(),
            old(self).phase != HomingPhase::Done,
        ensures
            final(self).stepper.wf(),
            final(self).baseline == old(self).baseline,
            final(self).phase == old(self).phase,
            final(self).stepper.min == old(self).stepper.min,
            final(self).stepper.max == old(self).stepper.max,
            final(self).stepper.delay_ms == old(self).stepper.delay_ms,
            ({
                let dir = if old(self).phase == HomingPhase::Forward {
                    Dir::CC
                } else {
                    Dir::CW
                };
                let at_end = if dir == Dir::CC {
                    old(self).stepper.pos == i32::MAX
                } else {
                    old(self).stepper.pos == i32::MIN
                };
                &&& at_end ==> r is None && final(self).stepper == old(self).stepper
                &&& !at_end ==> r is Some && final(self).stepper.pos == old(self).stepper.pos + (
                if dir == Dir::CC {
                    1int
                } else {
                    -1int
                }) && final(self).stepper.spec_phase() == step_phase(
                    old(self).stepper.spec_phase(),
                    dir,
                ) && r->Some_0@ == coil_levels(
                    pulse_table()[final(self).stepper.spec_phase()],
                    dir,
                )
            }),
    {
        if self.phase == HomingPhase::Forward {
            if self.stepper.pos == i32::MAX {
                return None;
            }
            self.stepper.pos = self.stepper.pos + 1;
            Some(self.stepper.step.activate(Dir::CC))
        } else {
            if self.stepper.pos == i32::MIN {
                return None;
            }
            self.stepper.pos = self.stepper.pos - 1;
            Some(self.stepper.step.activate(Dir::CW))
        }
    }

    /// Takes the boundary sensors' raw readings after a step. Going up, the
    /// high sensor is asked first; going down, the low one. The first that
    /// reports a magnet records the current position as its boundary and ends
    /// the running search.
    pub fn observe(&mut self, at_min: bool, at_max: bool)
        requires
            old(self).phase != HomingPhase::Done,
        ensures
            final(self).baseline == old(self).baseline,
            final(self).stepper.pos == old(self).stepper.pos,
            final(self).stepper.step == old(self).stepper.step,
            final(self).stepper.delay_ms == old(self).stepper.delay_ms,
            ({
                let hi = corrected(old(self).baseline, at_max);
                let lo = corrected(old(self).baseline, at_min);
                let pos = old(self).stepper.pos;
                let (min, max) = (old(self).stepper.min, old(self).stepper.max);
                let next = if old(self).phase == HomingPhase::Forward {
                    HomingPhase::Backward
                } else {
                    HomingPhase::Done
                };
                let (first, second) = if old(self).phase == HomingPhase::Forward {
                    (hi, lo)
                } else {
                    (lo, hi)
                };
                let first_is_max = old(self).phase == HomingPhase::Forward;
                &&& first ==> final(self).phase == next && (if first_is_max {
                    final(self).stepper.max == pos && final(self).stepper.min == min
                } else {
                    final(self).stepper.min == pos && final(self).stepper.max == max
                })
                &&& !first && second ==> final(self).phase == next && (if first_is_max {
                    final(self).stepper.min == pos && final(self).stepper.max == max
                } else {
                    final(self).stepper.max == pos && final(self).stepper.min == min
                })
                &&& !first && !second ==> final(self).phase == old(self).phase
                    && final(self).stepper.min == min && final(self).stepper.max == max
            }),
    {
        let hi = at_max != self.baseline;
        let lo = at_min != self.baseline;
        if self.phase == HomingPhase::Forward {
            if hi {
                self.stepper.max = self.stepper.pos;
                self.phase = HomingPhase::Backward;
            } else if lo {
                self.stepper.min = self.stepper.pos;
                self.phase = HomingPhase::Backward;
            }
        } else {
            if lo {
                self.stepper.min = self.stepper.pos;
                self.phase = HomingPhase::Done;
            } else if hi {
                self.stepper.max = self.stepper.pos;
                self.phase = HomingPhase::Done;
            }
        }
    }

    /// The motor with the range that homing found.
    pub fn finish(self) -> (r: Stepper)
        requires
            self.phase == HomingPhase::Done,
        ensures
            r == self.stepper,
    {
        self.stepper
    }
}

/// Homing reads polarity from agreement alone: with every sensor wired the
/// other way round, the baseline flips too and each corrected reading is the
/// same, so the search takes the same steps and finds the same boundaries.
pub proof fn lemma_polarity_free(at_min: bool, at_mid: bool, at_max: bool, raw: bool)
    ensures
        majority(!at_min, !at_mid, !at_max) == !majority(at_min, at_mid, at_max),
        corrected(majority(!at_min, !at_mid, !at_max), !raw) == corrected(
            majority(at_min, at_mid, at_max),
            raw,
        ),
{
}

} // verus!
