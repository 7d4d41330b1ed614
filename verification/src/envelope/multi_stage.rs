//! The general envelope machine with a fixed number of ordered stages.
//! Its state is a closed enumeration: idle (reached after the final
//! stage, retriggerable), hold (reached after the penultimate stage,
//! not retriggerable by natural completion), or an active stage. A stage
//! completes when its normalized time reaches one; completion re-anchors
//! at the exact target level and resets the elapsed time.

use super::{
    curve_value, curve_value_of, slope_param, slope_param_of, time_param, time_param_of,
    INIT_STAGE_TIME,
};
use crate::sample::{
    add_of, add_word, clamp_of, clamp_word, le_word, lemma_cmp_like, lemma_nan_word,
    lemma_zero_words, word_le, word_like, POS_ONE, POS_ZERO,
};
use super::{curve_numeric, lemma_curve_of_like};
use vstd::prelude::*;

verus! {

/// The machine's position: settled idle, holding before release, or
/// inside a numbered stage.
#[derive(Debug, Clone, Copy, PartialEq, Eq, Structural)]
pub enum StagePhase {
    Idle,
    Hold,
    Active(u8),
}

/// An envelope with `STAGES` ordered stages (at least two, at most a
/// hundred and twenty-seven so that stage numbers fit a signed byte).
pub struct MultiStageEnvelope<const STAGES: usize> {
    /// per-sample time increment of each stage, always strictly positive
    pub stage_time: Vec<u32>,
    /// curvature of each stage, always between minus ten and ten
    pub stage_slope: Vec<u32>,
    /// level each stage moves toward, always between zero and one
    pub stage_level: Vec<u32>,
    /// the anchor: the output at the instant the current stage began
    pub stage_begin_level: u32,
    /// normalized elapsed time within the current stage
    pub t: u32,
    /// the current output
    pub envelope_value: u32,
    pub current_stage: StagePhase,
    /// the stage a trigger jumps to
    pub retrigger_stage: u8,
}

impl<const STAGES: usize> MultiStageEnvelope<STAGES> {
    /// A usable machine: one parameter per stage, a legal stage count,
    /// the cursor and retrigger stage in range.
    pub open spec fn wf(&self) -> bool {
        &&& 2 <= STAGES <= 127
        &&& self.stage_time@.len() == STAGES
        &&& self.stage_slope@.len() == STAGES
        &&& self.stage_level@.len() == STAGES
        &&& (self.retrigger_stage as int) < STAGES as int
        &&& (match self.current_stage {
            StagePhase::Active(k) => (k as int) < STAGES as int,
            _ => true,
        })
    }

    pub fn new(init_val: u32) -> (r: MultiStageEnvelope<STAGES>)
        requires
            2 <= STAGES <= 127,
        ensures
            r.wf(),
            r.stage_time@ == Seq::new(STAGES as nat, |k: int| INIT_STAGE_TIME),
            r.stage_slope@ == Seq::new(STAGES as nat, |k: int| POS_ZERO),
            r.stage_level@ == Seq::new(STAGES as nat, |k: int| POS_ZERO),
            r.stage_begin_level == POS_ZERO,
            r.t == POS_ZERO,
            r.envelope_value == clamp_of(init_val, POS_ZERO, POS_ONE),
            r.current_stage == StagePhase::Idle,
            r.retrigger_stage == 0,
    {
        proof {
            lemma_zero_words();
            crate::sample::lemma_small_int_words();
            crate::sample::lemma_word_from_int_holds(1);
        }
        let mut times: Vec<u32> = Vec::new();
        let mut slopes: Vec<u32> = Vec::new();
        let mut levels: Vec<u32> = Vec::new();
        let mut k: usize = 0;
        while k < STAGES
            invariant
                k <= STAGES,
                times@ == Seq::new(k as nat, |i: int| INIT_STAGE_TIME),
                slopes@ == Seq::new(k as nat, |i: int| POS_ZERO),
                levels@ == Seq::new(k as nat, |i: int| POS_ZERO),
            decreases STAGES - k,
        {
            times.push(INIT_STAGE_TIME);
            slopes.push(POS_ZERO);
            levels.push(POS_ZERO);
            k = k + 1;
            proof {
                assert(times@ =~= Seq::new(k as nat, |i: int| INIT_STAGE_TIME));
                assert(slopes@ =~= Seq::new(k as nat, |i: int| POS_ZERO));
                assert(levels@ =~= Seq::new(k as nat, |i: int| POS_ZERO));
            }
        }
        proof {
            assert(times@ =~= Seq::new(STAGES as nat, |i: int| INIT_STAGE_TIME));
            assert(slopes@ =~= Seq::new(STAGES as nat, |i: int| POS_ZERO));
            assert(levels@ =~= Seq::new(STAGES as nat, |i: int| POS_ZERO));
        }
        MultiStageEnvelope {
            stage_time: times,
            stage_slope: slopes,
            stage_level: levels,
            stage_begin_level: POS_ZERO,
            t: POS_ZERO,
            envelope_value: clamp_word(init_val, POS_ZERO, POS_ONE),
            current_stage: StagePhase::Idle,
            retrigger_stage: 0,
        }
    }

    /// Sets stage `n`'s time, target level and slope together.
    pub fn set_all(
        &mut self,
        n: usize,
        stage_time_in_secs: u32,
        stage_level: u32,
        stage_slope: u32,
        sr: u32,
    )
        requires
            old(self).wf(),
            n < STAGES,
        ensures
            final(self).wf(),
            final(self).stage_time@.len() == STAGES,
            word_like(final(self).stage_time@[n as int], time_param_of(stage_time_in_secs, sr)),
            forall|m: int|
                0 <= m < STAGES && m != n ==> final(self).stage_time@[m] == old(
                    self,
                ).stage_time@[m],
            final(self).stage_level@ == old(self).stage_level@.update(
                n as int,
                clamp_of(stage_level, POS_ZERO, POS_ONE),
            ),
            final(self).stage_slope@ == old(self).stage_slope@.update(
                n as int,
                slope_param_of(stage_slope),
            ),
            ms_state_unchanged(old(self), final(self)),
    {
        proof {
            lemma_zero_words();
            crate::sample::lemma_small_int_words();
            crate::sample::lemma_word_from_int_holds(1);
        }
        let time = time_param(stage_time_in_secs, sr);
        let level = clamp_word(stage_level, POS_ZERO, POS_ONE);
        let slope = slope_param(stage_slope);
        self.stage_time[n] = time;
        self.stage_level[n] = level;
        self.stage_slope[n] = slope;
    }

    pub fn set_time(&mut self, n: usize, stage_time_in_secs: u32, sr: u32)
        requires
            old(self).wf(),
            n < STAGES,
        ensures
            final(self).wf(),
            final(self).stage_time@.len() == STAGES,
            word_like(final(self).stage_time@[n as int], time_param_of(stage_time_in_secs, sr)),
            forall|m: int|
                0 <= m < STAGES && m != n ==> final(self).stage_time@[m] == old(
                    self,
                ).stage_time@[m],
            final(self).stage_level@ == old(self).stage_level@,
            final(self).stage_slope@ == old(self).stage_slope@,
            ms_state_unchanged(old(self), final(self)),
    {
        let time = time_param(stage_time_in_secs, sr);
        self.stage_time[n] = time;
    }

    pub fn set_level(&mut self, n: usize, stage_level: u32)
        requires
            old(self).wf(),
            n < STAGES,
        ensures
            final(self).wf(),
            final(self).stage_level@ == old(self).stage_level@.update(
                n as int,
                clamp_of(stage_level, POS_ZERO, POS_ONE),
            ),
            final(self).stage_time@ == old(self).stage_time@,
            final(self).stage_slope@ == old(self).stage_slope@,
            ms_state_unchanged(old(self), final(self)),
    {
        proof {
            lemma_zero_words();
            crate::sample::lemma_small_int_words();
            crate::sample::lemma_word_from_int_holds(1);
        }
        let level = clamp_word(stage_level, POS_ZERO, POS_ONE);
        self.stage_level[n] = level;
    }

    pub fn set_slope(&mut self, n: usize, stage_slope: u32)
        requires
            old(self).wf(),
            n < STAGES,
        ensures
            final(self).wf(),
            final(self).stage_slope@ == old(self).stage_slope@.update(
                n as int,
                slope_param_of(stage_slope),
            ),
            final(self).stage_time@ == old(self).stage_time@,
            final(self).stage_level@ == old(self).stage_level@,
            ms_state_unchanged(old(self), final(self)),
    {
        let slope = slope_param(stage_slope);
        self.stage_slope[n] = slope;
    }

    /// The current position as a signed byte: the stage number, or minus
    /// one for idle, minus two for hold.
    pub fn get_stage(&self) -> (r: i8)
        requires
            self.wf(),
        ensures
            r as int == stage_code(self.current_stage),
    {
        match self.current_stage {
            StagePhase::Idle => -1,
            StagePhase::Hold => -2,
            StagePhase::Active(k) => k as i8,
        }
    }

    pub fn set_retrigger_stage(&mut self, n: u8)
        requires
            old(self).wf(),
            (n as int) < STAGES as int,
        ensures
            final(self).wf(),
            final(self).retrigger_stage == n,
            final(self).stage_time@ == old(self).stage_time@,
            final(self).stage_level@ == old(self).stage_level@,
            final(self).stage_slope@ == old(self).stage_slope@,
            final(self).stage_begin_level == old(self).stage_begin_level,
            final(self).t == old(self).t,
            final(self).envelope_value == old(self).envelope_value,
            final(self).current_stage == old(self).current_stage,
    {
        self.retrigger_stage = n;
    }

    /// One sample step. Idle and hold leave everything as it is; an
    /// active stage evaluates the curve at the advanced time, and when
    /// the normalized time reaches one the machine re-anchors at the
    /// exact target and moves on — sequentially through the stages, into
    /// hold after the penultimate one, into idle after the final one.
    pub fn tick(&mut self) -> (r: u32)
        requires
            old(self).wf(),
        ensures
            final(self).wf(),
            r == final(self).envelope_value,
            ms_params_unchanged(old(self), final(self)),
            final(self).retrigger_stage == old(self).retrigger_stage,
            (old(self).current_stage == StagePhase::Idle || old(self).current_stage
                == StagePhase::Hold) ==> *final(self) == *old(self),
            ms_tick_numeric(*old(self)) ==> ms_like(*final(self), ms_tick_spec(*old(self))),
    {
        proof {
            crate::sample::lemma_small_int_words();
            crate::sample::lemma_word_from_int_holds(1);
        }
        match self.current_stage {
            StagePhase::Active(k) => {
                let n = k as usize;
                let t1 = add_word(self.t, self.stage_time[n]);
                let v = curve_value(
                    self.stage_begin_level,
                    self.stage_level[n],
                    self.stage_slope[n],
                    t1,
                );
                proof {
                    lemma_nan_word();
                    let t1s = add_of(old(self).t, old(self).stage_time@[n as int]);
                    lemma_cmp_like(POS_ONE, t1, POS_ONE, t1s);
                    if ms_tick_numeric(*old(self)) && !word_le(POS_ONE, t1s) {
                        lemma_curve_of_like(
                            old(self).stage_begin_level,
                            old(self).stage_level@[n as int],
                            old(self).stage_slope@[n as int],
                            t1,
                            old(self).stage_begin_level,
                            old(self).stage_level@[n as int],
                            old(self).stage_slope@[n as int],
                            t1s,
                        );
                    }
                }
                if le_word(POS_ONE, t1) {
                    self.envelope_value = self.stage_level[n];
                    self.stage_begin_level = self.envelope_value;
                    self.t = POS_ZERO;
                    self.current_stage = if n < STAGES - 2 {
                        StagePhase::Active(k + 1)
                    } else if n == STAGES - 2 {
                        StagePhase::Hold
                    } else {
                        StagePhase::Idle
                    };
                } else {
                    self.envelope_value = v;
                    self.t = t1;
                }
            },
            _ => {},
        }
        self.envelope_value
    }

    /// Hard reset without smoothing: idle at the given output value.
    pub fn reset(&mut self, val: u32)
        requires
            old(self).wf(),
        ensures
            final(self).wf(),
            final(self).current_stage == StagePhase::Idle,
            final(self).envelope_value == val,
            final(self).t == old(self).t,
            final(self).stage_begin_level == old(self).stage_begin_level,
            final(self).retrigger_stage == old(self).retrigger_stage,
            ms_params_unchanged(old(self), final(self)),
    {
        self.current_stage = StagePhase::Idle;
        self.envelope_value = val;
    }

    /// Starts (or smoothly restarts) the machine at the configured
    /// retrigger stage, anchored at the current output so that a
    /// retrigger makes no jump.
    pub fn trigger(&mut self)
        requires
            old(self).wf(),
        ensures
            final(self).wf(),
            final(self).t == POS_ZERO,
            final(self).stage_begin_level == old(self).envelope_value,
            final(self).current_stage == StagePhase::Active(old(self).retrigger_stage),
            final(self).envelope_value == old(self).envelope_value,
            final(self).retrigger_stage == old(self).retrigger_stage,
            ms_params_unchanged(old(self), final(self)),
    {
        self.t = POS_ZERO;
        self.stage_begin_level = self.envelope_value;
        self.current_stage = StagePhase::Active(self.retrigger_stage);
    }

    /// Forces a jump to the terminal stage, anchored at the current
    /// output; ignored when the machine is already in it or has passed
    /// it into idle.
    pub fn release(&mut self)
        requires
            old(self).wf(),
        ensures
            final(self).wf(),
            ms_params_unchanged(old(self), final(self)),
            final(self).retrigger_stage == old(self).retrigger_stage,
            final(self).envelope_value == old(self).envelope_value,
            ms_releases(old(self).current_stage, STAGES as int) ==> final(self).t == POS_ZERO
                && final(self).stage_begin_level == old(self).envelope_value && final(self).current_stage
                == StagePhase::Active((STAGES - 1) as u8),
            !ms_releases(old(self).current_stage, STAGES as int) ==> *final(self) == *old(self),
    {
        let acts: bool = match self.current_stage {
            StagePhase::Hold => true,
            StagePhase::Active(k) => (k as usize) < STAGES - 1,
            StagePhase::Idle => false,
        };
        if acts {
            self.t = POS_ZERO;
            self.stage_begin_level = self.envelope_value;
            self.current_stage = StagePhase::Active((STAGES - 1) as u8);
        }
    }
}

/// Whether `release` acts from this position: from hold or from any
/// stage before the terminal one.
pub open spec fn ms_releases(phase: StagePhase, stages: int) -> bool {
    match phase {
        StagePhase::Hold => true,
        StagePhase::Active(k) => (k as int) < stages - 1,
        StagePhase::Idle => false,
    }
}

/// The three per-stage parameter tables are unchanged.
pub open spec fn ms_params_unchanged<const STAGES: usize>(
    s0: &MultiStageEnvelope<STAGES>,
    s1: &MultiStageEnvelope<STAGES>,
) -> bool {
    &&& s1.stage_time@ == s0.stage_time@
    &&& s1.stage_slope@ == s0.stage_slope@
    &&& s1.stage_level@ == s0.stage_level@
}

/// What one tick does to the machine, as a function of its state: idle
/// and hold are left untouched, an active stage advances its time and
/// evaluates its curve, and a completed stage snaps to its target and
/// moves on.
pub open spec fn ms_tick_spec<const STAGES: usize>(
    s: MultiStageEnvelope<STAGES>,
) -> MultiStageEnvelope<STAGES> {
    match s.current_stage {
        StagePhase::Active(k) => {
            let t1 = add_of(s.t, s.stage_time@[k as int]);
            let v = curve_value_of(
                s.stage_begin_level,
                s.stage_level@[k as int],
                s.stage_slope@[k as int],
                t1,
            );
            if word_le(POS_ONE, t1) {
                MultiStageEnvelope {
                    envelope_value: s.stage_level@[k as int],
                    stage_begin_level: s.stage_level@[k as int],
                    t: POS_ZERO,
                    current_stage: (if (k as int) < STAGES - 2 {
                        StagePhase::Active((k + 1) as u8)
                    } else if k as int == STAGES - 2 {
                        StagePhase::Hold
                    } else {
                        StagePhase::Idle
                    }),
                    ..s
                }
            } else {
                MultiStageEnvelope { envelope_value: v, t: t1, ..s }
            }
        },
        _ => s,
    }
}

/// Two machine states that agree except possibly in not-a-number
/// payload bits of the running words.
pub open spec fn ms_like<const STAGES: usize>(
    s1: MultiStageEnvelope<STAGES>,
    s2: MultiStageEnvelope<STAGES>,
) -> bool {
    &&& s1.stage_time@ == s2.stage_time@
    &&& s1.stage_slope@ == s2.stage_slope@
    &&& s1.stage_level@ == s2.stage_level@
    &&& word_like(s1.stage_begin_level, s2.stage_begin_level)
    &&& word_like(s1.t, s2.t)
    &&& word_like(s1.envelope_value, s2.envelope_value)
    &&& s1.current_stage == s2.current_stage
    &&& s1.retrigger_stage == s2.retrigger_stage
}

/// Whether one tick stays within pinned arithmetic: the stage completes
/// on time, or its curve does not feed the exponential a not-a-number.
pub open spec fn ms_tick_numeric<const STAGES: usize>(s: MultiStageEnvelope<STAGES>) -> bool {
    match s.current_stage {
        StagePhase::Active(k) => {
            let t1 = add_of(s.t, s.stage_time@[k as int]);
            word_le(POS_ONE, t1) || curve_numeric(
                s.stage_begin_level,
                s.stage_level@[k as int],
                s.stage_slope@[k as int],
                t1,
            )
        },
        _ => true,
    }
}

/// Hold is a fixed point of ticking: once the machine holds, repeated
/// ticks leave the state — the output included — exactly as it is, until
/// an explicit release.
pub proof fn lemma_hold_is_stable<const STAGES: usize>(s: MultiStageEnvelope<STAGES>)
    requires
        s.current_stage == StagePhase::Hold || s.current_stage == StagePhase::Idle,
    ensures
        ms_tick_spec(s) == s,
{
}

/// Natural completion walks the machine forward: a completed stage below
/// the penultimate one advances sequentially, the penultimate one settles
/// into hold at its target level, and the final one settles into idle.
pub proof fn lemma_completion_advances<const STAGES: usize>(s: MultiStageEnvelope<STAGES>, k: u8)
    requires
        s.wf(),
        s.current_stage == StagePhase::Active(k),
        word_le(POS_ONE, add_of(s.t, s.stage_time@[k as int])),
    ensures
        ms_tick_spec(s).envelope_value == s.stage_level@[k as int],
        ms_tick_spec(s).stage_begin_level == s.stage_level@[k as int],
        ms_tick_spec(s).t == POS_ZERO,
        (k as int) < STAGES - 2 ==> ms_tick_spec(s).current_stage == StagePhase::Active(
            (k + 1) as u8,
        ),
        k as int == STAGES - 2 ==> ms_tick_spec(s).current_stage == StagePhase::Hold,
        k as int == STAGES - 1 ==> ms_tick_spec(s).current_stage == StagePhase::Idle,
{
}

/// The position as a signed integer: the stage number, minus one for
/// idle, minus two for hold.
pub open spec fn stage_code(phase: StagePhase) -> int {
    match phase {
        StagePhase::Idle => -1,
        StagePhase::Hold => -2,
        StagePhase::Active(k) => k as int,
    }
}

/// The machine's dynamic state is unchanged.
pub open spec fn ms_state_unchanged<const STAGES: usize>(
    s0: &MultiStageEnvelope<STAGES>,
    s1: &MultiStageEnvelope<STAGES>,
) -> bool {
    &&& s1.stage_begin_level == s0.stage_begin_level
    &&& s1.t == s0.t
    &&& s1.envelope_value == s0.envelope_value
    &&& s1.current_stage == s0.current_stage
    &&& s1.retrigger_stage == s0.retrigger_stage
}

} // verus!
