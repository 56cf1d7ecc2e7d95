use vstd::prelude::*;

use crate::motion::json::{CurveTargetType, MotionCurve, MotionData};

verus! {

// `f32` settings of a motion are held as their IEEE-754 bit patterns.

/// The bit pattern of `-1.0f32`.
pub const MINUS_ONE_F32: u32 = 0xBF80_0000u32;

/// The bit pattern of `1.0f32`.
pub const ONE_F32: u32 = 0x3F80_0000u32;

/// Marker trait for motions.
pub trait AMotion {}

/// Settings shared by every kind of motion.
pub struct MotionBase {
    pub fade_in_seconds: u32,
    pub fade_out_seconds: u32,
    pub weight: u32,
    pub offset_seconds: u32,
    pub is_loop: bool,
    pub is_loop_fade_in: bool,
    pub previous_loop_state: bool,
    pub fired_event_values: Vec<String>,
}

impl MotionBase {
    pub fn new() -> (b: Self)
        ensures
            b.fade_in_seconds == MINUS_ONE_F32,
            b.fade_out_seconds == ONE_F32,
            b.weight == ONE_F32,
            b.offset_seconds == 0,
            !b.is_loop,
            b.is_loop_fade_in,
            !b.previous_loop_state,
            b.fired_event_values@.len() == 0,
    {
        MotionBase {
            fade_in_seconds: MINUS_ONE_F32,
            fade_out_seconds: ONE_F32,
            weight: ONE_F32,
            offset_seconds: 0,
            is_loop: false,
            is_loop_fade_in: true,
            previous_loop_state: false,
            fired_event_values: Vec::new(),
        }
    }
}

/// How a motion blends when it loops.
pub enum MotionBehavior {
    MotionBehaviorV1,
    MotionBehaviorV2,
}

/// A motion played from motion data.
pub struct CubismMotion {
    pub base: MotionBase,
    pub source_frame_rate: u32,
    pub loop_duration_seconds: u32,
    pub motion_behavior: MotionBehavior,
    pub last_weight: u32,
    pub motion_data: MotionData,
    pub model_curve_id_eye_blink: Vec<String>,
    pub model_curve_id_lip_sync: Vec<String>,
    pub model_curve_id_opacity: Vec<String>,
    pub model_opacity: u32,
}

/// The index of the first of `curves` whose id is `id`.
pub open spec fn first_curve_with_id(curves: Seq<MotionCurve>, id: Seq<char>) -> Option<int> {
    if exists|i: int| 0 <= i < curves.len() && (#[trigger] curves[i]).id@ == id {
        Some(choose|i: int| 0 <= i < curves.len() && curves[i].id@ == id
            && forall|j: int| 0 <= j < i ==> (#[trigger] curves[j]).id@ != id)
    } else {
        None
    }
}

/// The curve drives the opacity of the whole model.
pub open spec fn is_model_opacity(c: MotionCurve) -> bool {
    c.target_type == CurveTargetType::Model && c.id@ == "Opacity"@
}

proof fn lemma_first_curve(curves: Seq<MotionCurve>, id: Seq<char>, i: int)
    requires
        0 <= i < curves.len(),
        curves[i].id@ == id,
        forall|j: int| 0 <= j < i ==> (#[trigger] curves[j]).id@ != id,
    ensures
        first_curve_with_id(curves, id) == Some(i),
{
    let k = choose|k: int| 0 <= k < curves.len() && curves[k].id@ == id
        && forall|j: int| 0 <= j < k ==> (#[trigger] curves[j]).id@ != id;
    assert(curves[i].id@ == id);
    if k < i {
        assert(curves[k].id@ != id);
    }
    if i < k {
        assert(curves[i].id@ != id);
    }
}

impl CubismMotion {
    pub fn new(motion_data: MotionData) -> (m: Self)
        ensures
            m.source_frame_rate == motion_data.fps,
            m.loop_duration_seconds == motion_data.duration,
            m.motion_behavior is MotionBehaviorV2,
            m.last_weight == 0,
            m.motion_data == motion_data,
            m.model_curve_id_eye_blink@.len() == 0,
            m.model_curve_id_lip_sync@.len() == 0,
            m.model_curve_id_opacity@.len() == 0,
            m.model_opacity == ONE_F32,
            !m.base.is_loop,
            m.base.fade_in_seconds == MINUS_ONE_F32,
            m.base.fade_out_seconds == ONE_F32,
            m.base.weight == ONE_F32,
    {
        let base = MotionBase::new();
        CubismMotion {
            base,
            source_frame_rate: motion_data.fps,
            loop_duration_seconds: motion_data.duration,
            motion_behavior: MotionBehavior::MotionBehaviorV2,
            last_weight: 0,
            motion_data,
            model_curve_id_eye_blink: Vec::new(),
            model_curve_id_lip_sync: Vec::new(),
            model_curve_id_opacity: Vec::new(),
            model_opacity: ONE_F32,
        }
    }

    /// The duration: `-1.0` for a looping motion, else the loop duration.
    pub fn get_duration(&self) -> (d: u32)
        ensures
            d == if self.base.is_loop { MINUS_ONE_F32 } else { self.loop_duration_seconds },
    {
        if self.base.is_loop {
            MINUS_ONE_F32
        } else {
            self.loop_duration_seconds
        }
    }

    /// Sets the fade-in time of the first curve whose id is `id`; nothing if none is.
    pub fn set_fade_in_time(&mut self, id: String, value: u32)
        ensures
            final(self).motion_data.curves@.len() == old(self).motion_data.curves@.len(),
            match first_curve_with_id(old(self).motion_data.curves@, id@) {
                Some(i) => final(self).motion_data.curves@ == old(self).motion_data.curves@.update(
                    i,
                    MotionCurve { fade_in_time: value, ..old(self).motion_data.curves@[i] },
                ),
                None => final(self).motion_data.curves@ == old(self).motion_data.curves@,
            },
            *final(self) == (CubismMotion {
                motion_data: MotionData { curves: final(self).motion_data.curves, ..old(self).motion_data },
                ..*old(self)
            }),
    {
        let n = self.motion_data.curves.len();
        let mut i: usize = 0;
        while i < n
            invariant
                n == self.motion_data.curves@.len(),
                i <= n,
                *self == *old(self),
                forall|j: int| 0 <= j < i ==> (#[trigger] self.motion_data.curves@[j]).id@ != id@,
            decreases n - i,
        {
            if self.motion_data.curves[i].id == id {
                proof {
                    lemma_first_curve(self.motion_data.curves@, id@, i as int);
                }
                let mut c = self.motion_data.curves[i].clone_curve();
                c.fade_in_time = value;
                self.motion_data.curves.set(i, c);
                return;
            }
            i += 1;
        }
    }

    /// Sets the fade-out time of the first curve whose id is `id`; nothing if none is.
    pub fn set_fade_out_time(&mut self, id: String, value: u32)
        ensures
            final(self).motion_data.curves@.len() == old(self).motion_data.curves@.len(),
            match first_curve_with_id(old(self).motion_data.curves@, id@) {
                Some(i) => final(self).motion_data.curves@ == old(self).motion_data.curves@.update(
                    i,
                    MotionCurve { fade_out_time: value, ..old(self).motion_data.curves@[i] },
                ),
                None => final(self).motion_data.curves@ == old(self).motion_data.curves@,
            },
            *final(self) == (CubismMotion {
                motion_data: MotionData { curves: final(self).motion_data.curves, ..old(self).motion_data },
                ..*old(self)
            }),
    {
        let n = self.motion_data.curves.len();
        let mut i: usize = 0;
        while i < n
            invariant
                n == self.motion_data.curves@.len(),
                i <= n,
                *self == *old(self),
                forall|j: int| 0 <= j < i ==> (#[trigger] self.motion_data.curves@[j]).id@ != id@,
            decreases n - i,
        {
            if self.motion_data.curves[i].id == id {
                proof {
                    lemma_first_curve(self.motion_data.curves@, id@, i as int);
                }
                let mut c = self.motion_data.curves[i].clone_curve();
                c.fade_out_time = value;
                self.motion_data.curves.set(i, c);
                return;
            }
            i += 1;
        }
    }

    /// The fade-in time of the first curve whose id is `id`.
    pub fn get_fade_in_time(&mut self, id: String, value: u32) -> (r: Option<u32>)
        ensures
            *final(self) == *old(self),
            r == match first_curve_with_id(old(self).motion_data.curves@, id@) {
                Some(i) => Some(old(self).motion_data.curves@[i].fade_in_time),
                None => None::<u32>,
            },
    {
        let n = self.motion_data.curves.len();
        let mut i: usize = 0;
        while i < n
            invariant
                n == self.motion_data.curves@.len(),
                i <= n,
                *self == *old(self),
                forall|j: int| 0 <= j < i ==> (#[trigger] self.motion_data.curves@[j]).id@ != id@,
            decreases n - i,
        {
            if self.motion_data.curves[i].id == id {
                proof {
                    lemma_first_curve(self.motion_data.curves@, id@, i as int);
                }
                return Some(self.motion_data.curves[i].fade_in_time);
            }
            i += 1;
        }
        None
    }

    /// The fade-out time of the first curve whose id is `id`.
    pub fn get_fade_out_time(&mut self, id: String, value: u32) -> (r: Option<u32>)
        ensures
            *final(self) == *old(self),
            r == match first_curve_with_id(old(self).motion_data.curves@, id@) {
                Some(i) => Some(old(self).motion_data.curves@[i].fade_out_time),
                None => None::<u32>,
            },
    {
        let n = self.motion_data.curves.len();
        let mut i: usize = 0;
        while i < n
            invariant
                n == self.motion_data.curves@.len(),
                i <= n,
                *self == *old(self),
                forall|j: int| 0 <= j < i ==> (#[trigger] self.motion_data.curves@[j]).id@ != id@,
            decreases n - i,
        {
            if self.motion_data.curves[i].id == id {
                proof {
                    lemma_first_curve(self.motion_data.curves@, id@, i as int);
                }
                return Some(self.motion_data.curves[i].fade_out_time);
            }
            i += 1;
        }
        None
    }

    pub fn set_effect_ids(&mut self, eye_blink_ids: Vec<String>, lip_sync_ids: Vec<String>)
        ensures
            *final(self) == (CubismMotion {
                model_curve_id_eye_blink: eye_blink_ids,
                model_curve_id_lip_sync: lip_sync_ids,
                ..*old(self)
            }),
    {
        self.model_curve_id_eye_blink = eye_blink_ids;
        self.model_curve_id_lip_sync = lip_sync_ids;
    }

    /// Whether some curve drives the model's opacity.
    pub fn is_exist_model_opacity(&self) -> (r: bool)
        ensures
            r == exists|i: int| 0 <= i < self.motion_data.curves@.len()
                && is_model_opacity(#[trigger] self.motion_data.curves@[i]),
    {
        match self.get_model_opacity_index() {
            Some(_) => true,
            None => false,
        }
    }

    /// The index of the first curve that drives the model's opacity.
    pub fn get_model_opacity_index(&self) -> (r: Option<usize>)
        ensures
            match r {
                Some(i) => {
                    &&& i < self.motion_data.curves@.len()
                    &&& is_model_opacity(self.motion_data.curves@[i as int])
                    &&& forall|j: int| 0 <= j < i ==> !is_model_opacity(#[trigger] self.motion_data.curves@[j])
                },
                None => forall|j: int| 0 <= j < self.motion_data.curves@.len()
                    ==> !is_model_opacity(#[trigger] self.motion_data.curves@[j]),
            },
    {
        let opacity = String::from_str("Opacity");
        let n = self.motion_data.curves.len();
        let mut i: usize = 0;
        while i < n
            invariant
                n == self.motion_data.curves@.len(),
                i <= n,
                opacity@ == "Opacity"@,
                forall|j: int| 0 <= j < i ==> !is_model_opacity(#[trigger] self.motion_data.curves@[j]),
            decreases n - i,
        {
            let c = &self.motion_data.curves[i];
            if c.target_type == CurveTargetType::Model && c.id == opacity {
                return Some(i);
            }
            i += 1;
        }
        None
    }
}

impl MotionCurve {
    /// A copy of the curve.
    pub fn clone_curve(&self) -> (c: MotionCurve)
        ensures
            c == *self,
    {
        MotionCurve {
            target_type: self.target_type,
            id: self.id.clone(),
            segment_count: self.segment_count,
            base_segment_index: self.base_segment_index,
            fade_in_time: self.fade_in_time,
            fade_out_time: self.fade_out_time,
        }
    }
}

} // verus!
