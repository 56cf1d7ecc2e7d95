use vstd::prelude::*;

use crate::model_setting::ModelSetting;

verus! {

/// The phase of a blink.
#[derive(Debug, Clone, Copy, PartialEq, Eq, Structural)]
pub enum EyeState {
    /// Initial state.
    First,
    /// Not blinking.
    Interval,
    /// Closing the eyelids.
    Closing,
    /// Eyelids closed.
    Closed,
    /// Opening the eyelids.
    Opening,
}

/// The eye-openness value a blink step sets, in terms of the phase progress
/// `t` (elapsed time over the phase's length).
#[derive(Debug, Clone, Copy, PartialEq, Eq, Structural)]
pub enum BlinkValue {
    /// Fully open: 1.
    Open,
    /// Fully closed: 0.
    Shut,
    /// Closing: `1 - t`.
    Falling,
    /// Opening: `t`.
    Rising,
}

/// The outcome of one blink update.
#[derive(Debug, Clone, Copy, PartialEq, Eq, Structural)]
pub struct BlinkStep {
    /// The phase after the update.
    pub next: EyeState,
    /// The value to set on the blink parameters.
    pub value: BlinkValue,
    /// A new phase starts now: its start time becomes the current time.
    pub restart_phase: bool,
    /// The time of the next blink must be drawn anew.
    pub schedule_next_blink: bool,
}

/// One update of the blink state machine. `phase_done` says that the current
/// phase (closing, closed or opening) has run its length; `blink_due` that the
/// time of the next blink has passed.
pub open spec fn blink_step_spec(state: EyeState, phase_done: bool, blink_due: bool) -> BlinkStep {
    match state {
        EyeState::Closing => if phase_done {
            BlinkStep { next: EyeState::Closed, value: BlinkValue::Shut, restart_phase: true, schedule_next_blink: false }
        } else {
            BlinkStep { next: EyeState::Closing, value: BlinkValue::Falling, restart_phase: false, schedule_next_blink: false }
        },
        EyeState::Closed => if phase_done {
            BlinkStep { next: EyeState::Opening, value: BlinkValue::Shut, restart_phase: true, schedule_next_blink: false }
        } else {
            BlinkStep { next: EyeState::Closed, value: BlinkValue::Shut, restart_phase: false, schedule_next_blink: false }
        },
        EyeState::Opening => if phase_done {
            BlinkStep { next: EyeState::Interval, value: BlinkValue::Open, restart_phase: false, schedule_next_blink: true }
        } else {
            BlinkStep { next: EyeState::Opening, value: BlinkValue::Rising, restart_phase: false, schedule_next_blink: false }
        },
        EyeState::Interval => if blink_due {
            BlinkStep { next: EyeState::Closing, value: BlinkValue::Open, restart_phase: true, schedule_next_blink: false }
        } else {
            BlinkStep { next: EyeState::Interval, value: BlinkValue::Open, restart_phase: false, schedule_next_blink: false }
        },
        EyeState::First => BlinkStep {
            next: EyeState::Interval,
            value: BlinkValue::Open,
            restart_phase: false,
            schedule_next_blink: true,
        },
    }
}

/// Decides one update of the blink state machine.
pub fn blink_step(state: EyeState, phase_done: bool, blink_due: bool) -> (s: BlinkStep)
    ensures
        s == blink_step_spec(state, phase_done, blink_due),
        state == EyeState::Closed ==> s.value == BlinkValue::Shut,
        state == EyeState::Interval ==> s.value == BlinkValue::Open,
{
    match state {
        EyeState::Closing => if phase_done {
            BlinkStep { next: EyeState::Closed, value: BlinkValue::Shut, restart_phase: true, schedule_next_blink: false }
        } else {
            BlinkStep { next: EyeState::Closing, value: BlinkValue::Falling, restart_phase: false, schedule_next_blink: false }
        },
        EyeState::Closed => if phase_done {
            BlinkStep { next: EyeState::Opening, value: BlinkValue::Shut, restart_phase: true, schedule_next_blink: false }
        } else {
            BlinkStep { next: EyeState::Closed, value: BlinkValue::Shut, restart_phase: false, schedule_next_blink: false }
        },
        EyeState::Opening => if phase_done {
            BlinkStep { next: EyeState::Interval, value: BlinkValue::Open, restart_phase: false, schedule_next_blink: true }
        } else {
            BlinkStep { next: EyeState::Opening, value: BlinkValue::Rising, restart_phase: false, schedule_next_blink: false }
        },
        EyeState::Interval => if blink_due {
            BlinkStep { next: EyeState::Closing, value: BlinkValue::Open, restart_phase: true, schedule_next_blink: false }
        } else {
            BlinkStep { next: EyeState::Interval, value: BlinkValue::Open, restart_phase: false, schedule_next_blink: false }
        },
        EyeState::First => BlinkStep {
            next: EyeState::Interval,
            value: BlinkValue::Open,
            restart_phase: false,
            schedule_next_blink: true,
        },
    }
}

/// The blink cycle: from `Interval`, a due blink closes, stays closed and
/// opens again, each phase ending when it has run its length, and returns to
/// `Interval` with a new blink time drawn.
pub proof fn lemma_blink_cycle()
    ensures
        blink_step_spec(EyeState::Interval, false, true).next == EyeState::Closing,
        blink_step_spec(EyeState::Closing, true, false).next == EyeState::Closed,
        blink_step_spec(EyeState::Closed, true, false).next == EyeState::Opening,
        blink_step_spec(EyeState::Opening, true, false).next == EyeState::Interval,
        blink_step_spec(EyeState::Opening, true, false).schedule_next_blink,
        forall|s: EyeState, d: bool, b: bool| s != EyeState::First ==> (#[trigger] blink_step_spec(s, d, b)).next != EyeState::First,
{
}

/// What the eyes show in each phase: shut for the whole closed phase and at
/// the moment closing ends; falling while closing, rising while opening; fully
/// open otherwise (between blinks, at the start, and when opening ends). The
/// eyes are shut only in a closing or closed phase.
pub proof fn lemma_blink_values(state: EyeState, phase_done: bool, blink_due: bool)
    ensures
        state == EyeState::Closed ==> blink_step_spec(state, phase_done, blink_due).value == BlinkValue::Shut,
        state == EyeState::Closing ==> blink_step_spec(state, phase_done, blink_due).value == if phase_done {
            BlinkValue::Shut
        } else {
            BlinkValue::Falling
        },
        state == EyeState::Opening ==> blink_step_spec(state, phase_done, blink_due).value == if phase_done {
            BlinkValue::Open
        } else {
            BlinkValue::Rising
        },
        (state == EyeState::Interval || state == EyeState::First) ==> blink_step_spec(
            state,
            phase_done,
            blink_due,
        ).value == BlinkValue::Open,
        blink_step_spec(state, phase_done, blink_due).value == BlinkValue::Shut ==> (state == EyeState::Closed
            || state == EyeState::Closing),
        blink_step_spec(state, phase_done, blink_due).value == BlinkValue::Shut ==> (
        blink_step_spec(state, phase_done, blink_due).next == EyeState::Closed
            || blink_step_spec(state, phase_done, blink_due).next == EyeState::Opening),
{
}

/// How the phases follow each other: a timed phase (closing, closed,
/// opening) lasts until it has run its length; between blinks the eyes wait
/// until a blink is due. A phase's clock restarts exactly when a timed phase
/// is entered, and a new blink time is drawn exactly when the eyes come back
/// to waiting between blinks.
pub proof fn lemma_blink_transitions(state: EyeState, phase_done: bool, blink_due: bool)
    ensures
        ({
            let st = blink_step_spec(state, phase_done, blink_due);
            &&& (state == EyeState::Closing || state == EyeState::Closed || state == EyeState::Opening)
                ==> (st.next == state <==> !phase_done)
            &&& state == EyeState::Interval ==> (st.next == EyeState::Closing <==> blink_due)
            &&& state == EyeState::Interval ==> (st.next == EyeState::Interval <==> !blink_due)
            &&& st.restart_phase <==> (st.next != state && (st.next == EyeState::Closing || st.next
                == EyeState::Closed || st.next == EyeState::Opening))
            &&& st.schedule_next_blink <==> (st.next == EyeState::Interval && state != EyeState::Interval)
        }),
{
}

/// The ids of the model's `EyeBlink` parameters, in order.
pub fn blink_parameter_ids(model_setting: &ModelSetting) -> (ids: Vec<String>)
    ensures
        ids@.len() == model_setting.eye_blink_ids().len(),
        forall|i: int| 0 <= i < ids@.len() ==> (#[trigger] ids@[i])@ == model_setting.eye_blink_ids()[i]@,
{
    let mut ids: Vec<String> = Vec::new();
    let n = model_setting.get_eye_blink_parameter_count();
    let mut i: usize = 0;
    while i < n
        invariant
            n == model_setting.eye_blink_ids().len(),
            i <= n,
            ids@.len() == i,
            forall|k: int| 0 <= k < i ==> (#[trigger] ids@[k])@ == model_setting.eye_blink_ids()[k]@,
        decreases n - i,
    {
        match model_setting.get_eye_blink_parameter_id(i) {
            Some(id) => ids.push(String::from_str(id)),
            None => {
                proof {
                    assert(i < model_setting.eye_blink_ids().len());
                }
            },
        }
        i += 1;
    }
    ids
}

} // verus!
