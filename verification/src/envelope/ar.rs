//! The two-stage attack/release envelope machine. Each stage moves the
//! output from the anchor captured at its start toward its target level;
//! a stage completes when its normalized time reaches one, when the
//! computed value comes within tolerance of the target, or when it leaves
//! the legal `[0, 1]` output range — a deliberately permissive early exit
//! against overshoot from aggressive curvature. Completion re-anchors at
//! the exact target, never at the possibly overshot computed value.

use super::{
    curve_value, curve_value_of, slope_param, slope_param_of, time_param, time_param_of,
    COMPLETION_TOLERANCE, INIT_STAGE_TIME,
};
use crate::sample::{
    abs_word, add_of, add_word, le_word, lemma_abs_mask, lemma_cmp_like, lemma_nan_word,
    lemma_sub_of_like, lt_word, sub_of, sub_word, word_le, word_like, word_lt, POS_ONE, POS_ZERO,
};
use vstd::prelude::*;

verus! {

/// The machine's phase: holding (its idle, retriggerable state), or one
/// of the two stages.
#[derive(Debug, Clone, Copy, PartialEq, Eq, Structural)]
pub enum ARPhase {
    HOLD,
    ATTACK,
    RELEASE,
}

/// A two-stage attack/release envelope.
pub struct AttackRelease {
    /// per-sample time increment of each stage, always strictly positive
    pub attack_time: u32,
    pub release_time: u32,
    /// curvature of each stage, always between minus ten and ten
    pub attack_slope: u32,
    pub release_slope: u32,
    /// level each stage moves toward
    pub attack_level: u32,
    pub release_level: u32,
    /// the anchor: the output at the instant the current stage began
    pub stage_begin_level: u32,
    /// normalized elapsed time within the current stage
    pub t: u32,
    /// the current output
    pub envelope_value: u32,
    pub current_stage: ARPhase,
}

/// The stage's target level, time increment and slope, selected by phase.
pub open spec fn ar_time(s: &AttackRelease, phase: ARPhase) -> u32 {
    if phase == ARPhase::ATTACK {
        s.attack_time
    } else {
        s.release_time
    }
}

pub open spec fn ar_level(s: &AttackRelease, phase: ARPhase) -> u32 {
    if phase == ARPhase::ATTACK {
        s.attack_level
    } else {
        s.release_level
    }
}

pub open spec fn ar_slope(s: &AttackRelease, phase: ARPhase) -> u32 {
    if phase == ARPhase::ATTACK {
        s.attack_slope
    } else {
        s.release_slope
    }
}

/// Whether a stage completes at normalized time `t1` with computed value
/// `v` and target `level`: time fully traversed, value within tolerance
/// of the target, or value outside `[0, 1]`.
pub open spec fn ar_stage_complete(t1: u32, v: u32, level: u32) -> bool {
    ||| word_le(POS_ONE, t1)
    ||| word_le((sub_of(v, level) & 0x7FFF_FFFF), COMPLETION_TOLERANCE)
    ||| word_lt(POS_ONE, v)
    ||| word_lt(v, POS_ZERO)
}

/// What one tick does to the machine, as a function of its state.
pub open spec fn ar_tick_spec(s: AttackRelease) -> AttackRelease {
    if s.current_stage == ARPhase::HOLD {
        s
    } else {
        let phase = s.current_stage;
        let t1 = add_of(s.t, ar_time(&s, phase));
        let v = curve_value_of(s.stage_begin_level, ar_level(&s, phase), ar_slope(&s, phase), t1);
        if ar_stage_complete(t1, v, ar_level(&s, phase)) {
            AttackRelease {
                envelope_value: ar_level(&s, phase),
                stage_begin_level: ar_level(&s, phase),
                t: POS_ZERO,
                current_stage: (if phase == ARPhase::ATTACK {
                    ARPhase::RELEASE
                } else {
                    ARPhase::HOLD
                }),
                ..s
            }
        } else {
            AttackRelease { envelope_value: v, t: t1, ..s }
        }
    }
}

/// What `trigger` does: restart the attack stage, anchored at the
/// current output.
pub open spec fn ar_trigger_spec(s: AttackRelease) -> AttackRelease {
    AttackRelease {
        t: POS_ZERO,
        stage_begin_level: s.envelope_value,
        current_stage: ARPhase::ATTACK,
        ..s
    }
}

/// What `release` does: force the release stage, anchored at the current
/// output, unless the machine is already in or past it.
pub open spec fn ar_release_spec(s: AttackRelease) -> AttackRelease {
    if s.current_stage == ARPhase::ATTACK {
        AttackRelease {
            t: POS_ZERO,
            stage_begin_level: s.envelope_value,
            current_stage: ARPhase::RELEASE,
            ..s
        }
    } else {
        s
    }
}

/// Two machine states that agree except possibly in not-a-number
/// payload bits of their sample words.
pub open spec fn ar_like(s1: AttackRelease, s2: AttackRelease) -> bool {
    &&& word_like(s1.attack_time, s2.attack_time)
    &&& word_like(s1.release_time, s2.release_time)
    &&& word_like(s1.attack_slope, s2.attack_slope)
    &&& word_like(s1.release_slope, s2.release_slope)
    &&& word_like(s1.attack_level, s2.attack_level)
    &&& word_like(s1.release_level, s2.release_level)
    &&& word_like(s1.stage_begin_level, s2.stage_begin_level)
    &&& word_like(s1.t, s2.t)
    &&& word_like(s1.envelope_value, s2.envelope_value)
    &&& s1.current_stage == s2.current_stage
}

/// Whether one tick of the machine stays within pinned arithmetic: in a
/// stage, either the stage completes on time (the computed value is then
/// discarded in favor of the exact target), or the curve evaluation at
/// the advanced time must not feed the exponential a not-a-number.
pub open spec fn ar_tick_numeric(s: AttackRelease) -> bool {
    ||| s.current_stage == ARPhase::HOLD
    ||| word_le(POS_ONE, add_of(s.t, ar_time(&s, s.current_stage)))
    ||| super::curve_numeric(
        s.stage_begin_level,
        ar_level(&s, s.current_stage),
        ar_slope(&s, s.current_stage),
        add_of(s.t, ar_time(&s, s.current_stage)),
    )
}

/// The tick function is blind to not-a-number payloads: on states that
/// agree up to them it moves to states that agree up to them, and its
/// pinning condition agrees.
pub proof fn lemma_ar_tick_spec_like(s1: AttackRelease, s2: AttackRelease)
    requires
        ar_like(s1, s2),
    ensures
        ar_like(ar_tick_spec(s1), ar_tick_spec(s2)),
        ar_tick_numeric(s1) == ar_tick_numeric(s2),
{
    lemma_nan_word();
    if s1.current_stage != ARPhase::HOLD {
        let phase = s1.current_stage;
        crate::sample::lemma_add_of_like(
            s1.t,
            ar_time(&s1, phase),
            s2.t,
            ar_time(&s2, phase),
        );
        let t1 = add_of(s1.t, ar_time(&s1, phase));
        super::lemma_curve_of_like(
            s1.stage_begin_level,
            ar_level(&s1, phase),
            ar_slope(&s1, phase),
            t1,
            s2.stage_begin_level,
            ar_level(&s2, phase),
            ar_slope(&s2, phase),
            t1,
        );
        let v = curve_value_of(s1.stage_begin_level, ar_level(&s1, phase), ar_slope(&s1, phase), t1);
        lemma_sub_of_like(v, ar_level(&s1, phase), v, ar_level(&s2, phase));
        lemma_abs_mask(sub_of(v, ar_level(&s1, phase)));
        lemma_abs_mask(sub_of(v, ar_level(&s2, phase)));
        lemma_cmp_like(
            (sub_of(v, ar_level(&s1, phase)) & 0x7FFF_FFFF),
            COMPLETION_TOLERANCE,
            (sub_of(v, ar_level(&s2, phase)) & 0x7FFF_FFFF),
            COMPLETION_TOLERANCE,
        );
    }
}

/// The control edges never move the output: a trigger, and a release
/// taken mid-attack, anchor the new stage exactly at the value the
/// envelope stood at, which is what makes retriggers and mid-stage
/// releases click-free.
pub proof fn lemma_control_edges_are_smooth(s: AttackRelease)
    ensures
        ar_trigger_spec(s).envelope_value == s.envelope_value,
        ar_trigger_spec(s).stage_begin_level == s.envelope_value,
        ar_release_spec(s).envelope_value == s.envelope_value,
        s.current_stage == ARPhase::ATTACK ==> ar_release_spec(s).stage_begin_level
            == s.envelope_value,
{
}

impl AttackRelease {
    pub fn new(init_val: u32) -> (r: AttackRelease)
        ensures
            r.attack_time == INIT_STAGE_TIME,
            r.release_time == INIT_STAGE_TIME,
            r.attack_slope == POS_ZERO,
            r.release_slope == POS_ZERO,
            r.attack_level == POS_ZERO,
            r.release_level == POS_ZERO,
            r.stage_begin_level == POS_ZERO,
            r.t == POS_ZERO,
            r.envelope_value == init_val,
            r.current_stage == ARPhase::HOLD,
    {
        AttackRelease {
            attack_time: INIT_STAGE_TIME,
            release_time: INIT_STAGE_TIME,
            attack_slope: POS_ZERO,
            release_slope: POS_ZERO,
            attack_level: POS_ZERO,
            release_level: POS_ZERO,
            stage_begin_level: POS_ZERO,
            t: POS_ZERO,
            envelope_value: init_val,
            current_stage: ARPhase::HOLD,
        }
    }

    /// Sets a stage's time, target level and slope together.
    pub fn set_all(
        &mut self,
        phase: ARPhase,
        stage_time_in_secs: u32,
        stage_level: u32,
        stage_slope: u32,
        sr: u32,
    )
        requires
            phase != ARPhase::HOLD,
        ensures
            word_like(ar_time(final(self), phase), time_param_of(stage_time_in_secs, sr)),
            ar_level(final(self), phase) == stage_level,
            ar_slope(final(self), phase) == slope_param_of(stage_slope),
            ar_unchanged_but(old(self), final(self), phase),
    {
        let time = time_param(stage_time_in_secs, sr);
        let slope = slope_param(stage_slope);
        match phase {
            ARPhase::ATTACK => {
                self.attack_time = time;
                self.attack_level = stage_level;
                self.attack_slope = slope;
            },
            _ => {
                self.release_time = time;
                self.release_level = stage_level;
                self.release_slope = slope;
            },
        }
    }

    pub fn set_time(&mut self, phase: ARPhase, stage_time_in_secs: u32, sr: u32)
        requires
            phase != ARPhase::HOLD,
        ensures
            word_like(ar_time(final(self), phase), time_param_of(stage_time_in_secs, sr)),
            ar_level(final(self), phase) == ar_level(old(self), phase),
            ar_slope(final(self), phase) == ar_slope(old(self), phase),
            ar_unchanged_but(old(self), final(self), phase),
    {
        let time = time_param(stage_time_in_secs, sr);
        match phase {
            ARPhase::ATTACK => self.attack_time = time,
            _ => self.release_time = time,
        }
    }

    pub fn set_level(&mut self, phase: ARPhase, stage_level: u32)
        requires
            phase != ARPhase::HOLD,
        ensures
            ar_level(final(self), phase) == stage_level,
            ar_time(final(self), phase) == ar_time(old(self), phase),
            ar_slope(final(self), phase) == ar_slope(old(self), phase),
            ar_unchanged_but(old(self), final(self), phase),
    {
        match phase {
            ARPhase::ATTACK => self.attack_level = stage_level,
            _ => self.release_level = stage_level,
        }
    }

    pub fn set_slope(&mut self, phase: ARPhase, stage_slope: u32)
        requires
            phase != ARPhase::HOLD,
        ensures
            ar_slope(final(self), phase) == slope_param_of(stage_slope),
            ar_time(final(self), phase) == ar_time(old(self), phase),
            ar_level(final(self), phase) == ar_level(old(self), phase),
            ar_unchanged_but(old(self), final(self), phase),
    {
        let slope = slope_param(stage_slope);
        match phase {
            ARPhase::ATTACK => self.attack_slope = slope,
            _ => self.release_slope = slope,
        }
    }

    pub fn set_current_env_val(&mut self, val: u32)
        ensures
            final(self).envelope_value == val,
            final(self).current_stage == old(self).current_stage,
            final(self).t == old(self).t,
            final(self).stage_begin_level == old(self).stage_begin_level,
            ar_params_unchanged(old(self), final(self)),
    {
        self.envelope_value = val;
    }

    pub fn set_current_stage(&mut self, phase: ARPhase)
        ensures
            final(self).current_stage == phase,
            final(self).envelope_value == old(self).envelope_value,
            final(self).t == old(self).t,
            final(self).stage_begin_level == old(self).stage_begin_level,
            ar_params_unchanged(old(self), final(self)),
    {
        self.current_stage = phase;
    }

    pub fn get_stage(&self) -> (r: ARPhase)
        ensures
            r == self.current_stage,
    {
        self.current_stage
    }

    pub fn get_current_env_val(&self) -> (r: u32)
        ensures
            r == self.envelope_value,
    {
        self.envelope_value
    }

    /// One sample step. Holding leaves everything as it is; in a stage
    /// the curve is evaluated at the advanced time, and on completion the
    /// machine re-anchors at the exact target and moves on — attack into
    /// release, release into hold.
    pub fn tick(&mut self) -> (r: u32)
        ensures
            r == final(self).envelope_value,
            ar_params_unchanged(old(self), final(self)),
            old(self).current_stage == ARPhase::HOLD ==> *final(self) == *old(self),
            ar_tick_numeric(*old(self)) ==> ar_like(*final(self), ar_tick_spec(*old(self))),
    {
        match self.current_stage {
            ARPhase::HOLD => {},
            phase => {
                let time = if matches!(phase, ARPhase::ATTACK) {
                    self.attack_time
                } else {
                    self.release_time
                };
                let level = if matches!(phase, ARPhase::ATTACK) {
                    self.attack_level
                } else {
                    self.release_level
                };
                let slope = if matches!(phase, ARPhase::ATTACK) {
                    self.attack_slope
                } else {
                    self.release_slope
                };
                let t1 = add_word(self.t, time);
                let v = curve_value(self.stage_begin_level, level, slope, t1);
                let dw = sub_word(v, level);
                let diff = abs_word(dw);
                proof {
                    lemma_nan_word();
                    let t1s = add_of(old(self).t, time);
                    lemma_cmp_like(POS_ONE, t1, POS_ONE, t1s);
                    if ar_tick_numeric(*old(self)) && !word_le(POS_ONE, t1s) {
                        // not completing on time, so the curve is numeric
                        // and its value is pinned
                        super::lemma_curve_of_like(
                            old(self).stage_begin_level,
                            level,
                            slope,
                            t1,
                            old(self).stage_begin_level,
                            level,
                            slope,
                            t1s,
                        );
                        let vs = curve_value_of(old(self).stage_begin_level, level, slope, t1s);
                        lemma_sub_of_like(v, level, vs, level);
                        lemma_abs_mask(sub_of(vs, level));
                        lemma_cmp_like(POS_ONE, v, POS_ONE, vs);
                        lemma_cmp_like(v, POS_ZERO, vs, POS_ZERO);
                        lemma_cmp_like(
                            diff,
                            COMPLETION_TOLERANCE,
                            (sub_of(vs, level) & 0x7FFF_FFFF),
                            COMPLETION_TOLERANCE,
                        );
                    }
                }
                if le_word(POS_ONE, t1) || le_word(diff, COMPLETION_TOLERANCE) || lt_word(
                    POS_ONE,
                    v,
                ) || lt_word(v, POS_ZERO) {
                    self.envelope_value = level;
                    self.stage_begin_level = level;
                    self.t = POS_ZERO;
                    self.current_stage = if matches!(phase, ARPhase::ATTACK) {
                        ARPhase::RELEASE
                    } else {
                        ARPhase::HOLD
                    };
                } else {
                    self.envelope_value = v;
                    self.t = t1;
                }
            },
        }
        self.envelope_value
    }

    /// Hard reset without smoothing: back to holding, the anchor forced
    /// to the given value.
    pub fn reset(&mut self, val: u32)
        ensures
            final(self).t == POS_ZERO,
            final(self).current_stage == ARPhase::HOLD,
            final(self).stage_begin_level == val,
            final(self).envelope_value == old(self).envelope_value,
            ar_params_unchanged(old(self), final(self)),
    {
        self.t = POS_ZERO;
        self.current_stage = ARPhase::HOLD;
        self.stage_begin_level = val;
    }

    /// Starts (or smoothly restarts) the attack stage, anchored at the
    /// current output so that a retrigger makes no jump.
    pub fn trigger(&mut self)
        ensures
            *final(self) == ar_trigger_spec(*old(self)),
            final(self).t == POS_ZERO,
            final(self).stage_begin_level == old(self).envelope_value,
            final(self).current_stage == ARPhase::ATTACK,
            final(self).envelope_value == old(self).envelope_value,
            ar_params_unchanged(old(self), final(self)),
    {
        self.t = POS_ZERO;
        self.stage_begin_level = self.envelope_value;
        self.current_stage = ARPhase::ATTACK;
    }

    /// Forces the release stage, anchored at the current output; ignored
    /// when the machine is already in or past it.
    pub fn release(&mut self)
        ensures
            *final(self) == ar_release_spec(*old(self)),
            old(self).current_stage == ARPhase::ATTACK ==> final(self).t == POS_ZERO
                && final(self).stage_begin_level == old(self).envelope_value
                && final(self).current_stage
                == ARPhase::RELEASE && final(self).envelope_value == old(self).envelope_value,
            old(self).current_stage != ARPhase::ATTACK ==> *final(self) == *old(self),
            ar_params_unchanged(old(self), final(self)),
    {
        if matches!(self.current_stage, ARPhase::ATTACK) {
            self.t = POS_ZERO;
            self.stage_begin_level = self.envelope_value;
            self.current_stage = ARPhase::RELEASE;
        }
    }
}

/// The stage parameters of the phases other than `phase`, and everything
/// not a parameter of a stage, are unchanged.
pub open spec fn ar_unchanged_but(s0: &AttackRelease, s1: &AttackRelease, phase: ARPhase) -> bool {
    &&& ar_time(s1, other_phase(phase)) == ar_time(s0, other_phase(phase))
    &&& ar_level(s1, other_phase(phase)) == ar_level(s0, other_phase(phase))
    &&& ar_slope(s1, other_phase(phase)) == ar_slope(s0, other_phase(phase))
    &&& s1.stage_begin_level == s0.stage_begin_level
    &&& s1.t == s0.t
    &&& s1.envelope_value == s0.envelope_value
    &&& s1.current_stage == s0.current_stage
}

/// All six stage parameters are unchanged.
pub open spec fn ar_params_unchanged(s0: &AttackRelease, s1: &AttackRelease) -> bool {
    &&& s1.attack_time == s0.attack_time
    &&& s1.release_time == s0.release_time
    &&& s1.attack_slope == s0.attack_slope
    &&& s1.release_slope == s0.release_slope
    &&& s1.attack_level == s0.attack_level
    &&& s1.release_level == s0.release_level
}

/// The stage that is not `phase` (of the two real stages).
pub open spec fn other_phase(phase: ARPhase) -> ARPhase {
    if phase == ARPhase::ATTACK {
        ARPhase::RELEASE
    } else {
        ARPhase::ATTACK
    }
}

} // verus!
