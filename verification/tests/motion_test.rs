use live_ascii::motion::amotion::{CubismMotion, MotionBase, MINUS_ONE_F32, ONE_F32};
use live_ascii::motion::json::{
    curve_target_type, Curve, CurveTargetType, DecodeRequest, DecodeStage, Motion3, MotionCurve, MotionData,
    MotionEvent, MotionMeta, MotionSegment, MotionSegmentType, SegmentDecoder, SegmentError, SegmentInput,
    SegmentKind, SegmentPoint, SegmentType, Segments,
};

fn p(time: f32, value: f32) -> SegmentPoint {
    SegmentPoint { time: time.to_bits(), value: value.to_bits() }
}

enum Elem {
    N(f32),
    T(i32),
}

/// Feeds a number stream to the decoder the way a deserializer would.
fn decode(elems: &[Elem]) -> Result<Segments, SegmentError> {
    let mut dec = SegmentDecoder::new();
    let mut it = elems.iter();
    loop {
        let input = match dec.request() {
            DecodeRequest::Finished => return Ok(dec.finish()),
            DecodeRequest::Number => match it.next() {
                Some(Elem::N(x)) => SegmentInput::Number(x.to_bits()),
                Some(Elem::T(t)) => SegmentInput::Number((*t as f32).to_bits()),
                None => SegmentInput::End,
            },
            DecodeRequest::Tag => match it.next() {
                Some(Elem::T(t)) => SegmentInput::Tag(*t),
                Some(Elem::N(_)) => panic!("a tag must be an integer"),
                None => SegmentInput::End,
            },
        };
        dec.step(input)?;
    }
}

use Elem::{N, T};

#[test]
fn decodes_linear_segments() {
    let s = decode(&[N(0.), N(0.), T(0), N(1.), N(30.), T(0), N(2.), N(-30.), T(0), N(3.), N(30.), T(0), N(4.), N(0.)])
        .unwrap();
    assert_eq!(
        s,
        Segments(vec![
            SegmentType::Linear(p(0., 0.), p(1., 30.)),
            SegmentType::Linear(p(1., 30.), p(2., -30.)),
            SegmentType::Linear(p(2., -30.), p(3., 30.)),
            SegmentType::Linear(p(3., 30.), p(4., 0.)),
        ])
    );
}

#[test]
fn decodes_every_segment_kind() {
    let s = decode(&[
        N(0.), N(0.),
        T(1), N(0.3), N(0.), N(0.7), N(10.), N(1.), N(10.),
        T(2), N(2.), N(5.),
        T(3), N(3.), N(7.),
    ])
    .unwrap();
    assert_eq!(
        s.0,
        vec![
            SegmentType::Bezier([p(0., 0.), p(0.3, 0.), p(0.7, 10.), p(1., 10.)]),
            SegmentType::Stepped(p(1., 10.), p(2., 5.)),
            SegmentType::InverseStepped(p(2., 5.), p(3., 7.)),
        ]
    );
    assert_eq!(decode(&[N(1.), N(2.)]).unwrap().0, vec![]);
}

#[test]
fn decoder_errors() {
    assert_eq!(decode(&[]), Err(SegmentError::MissingStart));
    assert_eq!(decode(&[N(0.)]), Err(SegmentError::MissingStart));
    assert_eq!(decode(&[N(0.), N(0.), T(4)]), Err(SegmentError::UnknownTag(4)));
    assert_eq!(decode(&[N(0.), N(0.), T(0), N(1.)]), Err(SegmentError::MissingArgument(SegmentKind::Linear, 1)));
    assert_eq!(
        decode(&[N(0.), N(0.), T(1), N(1.), N(1.), N(1.)]),
        Err(SegmentError::MissingArgument(SegmentKind::Bezier, 3))
    );
}

#[test]
fn decoder_keeps_its_state_on_error() {
    let mut dec = SegmentDecoder::new();
    dec.step(SegmentInput::Number(0)).unwrap();
    dec.step(SegmentInput::Number(0)).unwrap();
    assert_eq!(dec.step(SegmentInput::Tag(9)), Err(SegmentError::UnknownTag(9)));
    assert_eq!(dec.request(), DecodeRequest::Tag);
    assert_eq!(dec.step(SegmentInput::End), Ok(DecodeRequest::Finished));
    assert_eq!(dec.finish().0, vec![]);
}

fn curve(id: &str, segs: Vec<SegmentType>) -> Curve {
    Curve {
        target: "Parameter".to_string(),
        id: id.to_string(),
        fade_in_time: (-1.0f32).to_bits(),
        fade_out_time: (-1.0f32).to_bits(),
        segments: Segments(segs),
    }
}

fn motion3(curves: Vec<Curve>) -> Motion3 {
    Motion3 {
        version: 3,
        meta: MotionMeta {
            duration: 2.0f32.to_bits(),
            fps: 30.0f32.to_bits(),
            loop_: true,
            are_beziers_restricted: true,
            curve_count: curves.len() as i32,
            total_segment_count: 4,
            total_point_count: 8,
            fade_in_time: None,
            fade_out_time: None,
            user_data_count: 0,
            total_user_data_size: 0,
        },
        curves,
        user_data: vec![],
    }
}

fn expected_motion_data() -> MotionData {
    MotionData {
        duration: 2.0f32.to_bits(),
        loop_: true,
        fps: 30.0f32.to_bits(),
        curves: vec![
            MotionCurve {
                target_type: CurveTargetType::Parameter,
                id: "PARAM_ANGLE_X".into(),
                segment_count: 2,
                base_segment_index: 0,
                fade_in_time: (-1.0f32).to_bits(),
                fade_out_time: (-1.0f32).to_bits(),
            },
            MotionCurve {
                target_type: CurveTargetType::Parameter,
                id: "ParamArmRA".into(),
                segment_count: 2,
                base_segment_index: 2,
                fade_in_time: (-1.0f32).to_bits(),
                fade_out_time: (-1.0f32).to_bits(),
            },
        ],
        segments: vec![
            MotionSegment { base_point_index: 0, segment_type: MotionSegmentType::Linear },
            MotionSegment { base_point_index: 2, segment_type: MotionSegmentType::Linear },
            MotionSegment { base_point_index: 3, segment_type: MotionSegmentType::Bezier },
            MotionSegment { base_point_index: 7, segment_type: MotionSegmentType::Linear },
        ],
        points: vec![
            p(0.0, 0.0),
            p(1.0, 30.0),
            p(2.0, 0.0),
            p(0.0, 0.0),
            p(0.3, 0.0),
            p(0.7, 10.0),
            p(1.0, 10.0),
            p(2.0, 0.0),
        ],
        events: vec![],
    }
}

fn sample_motion3() -> Motion3 {
    motion3(vec![
        curve(
            "PARAM_ANGLE_X",
            vec![SegmentType::Linear(p(0., 0.), p(1., 30.)), SegmentType::Linear(p(1., 30.), p(2., 0.))],
        ),
        curve(
            "ParamArmRA",
            vec![
                SegmentType::Bezier([p(0., 0.), p(0.3, 0.), p(0.7, 10.), p(1., 10.)]),
                SegmentType::Linear(p(1., 10.), p(2., 0.)),
            ],
        ),
    ])
}

#[test]
fn test_motion3_full_structure_comparison() {
    let result = MotionData::from_motion3(sample_motion3());
    assert_eq!(result, expected_motion_data(), "The parsed MotionData does not match the expected structure.");
}

#[test]
fn flattening_keeps_events_and_meta() {
    let mut m = motion3(vec![]);
    m.user_data = vec![MotionEvent { time: 1.5f32.to_bits(), value: "blink".into() }];
    let d = MotionData::from_motion3(m);
    assert!(d.curves.is_empty() && d.segments.is_empty() && d.points.is_empty());
    assert_eq!(d.events.len(), 1);
    assert_eq!(d.events[0].value, "blink");
    assert_eq!(f32::from_bits(d.duration), 2.0);
}

#[test]
fn curve_target_types() {
    assert_eq!(curve_target_type(&"Parameter".into()), Some(CurveTargetType::Parameter));
    assert_eq!(curve_target_type(&"PartOpacity".into()), Some(CurveTargetType::PartOpacity));
    assert_eq!(curve_target_type(&"Model".into()), Some(CurveTargetType::Model));
    assert_eq!(curve_target_type(&"Other".into()), None);
}

#[test]
fn motion_base_defaults() {
    let b = MotionBase::new();
    assert_eq!(f32::from_bits(b.fade_in_seconds), -1.0);
    assert_eq!(f32::from_bits(b.fade_out_seconds), 1.0);
    assert_eq!(f32::from_bits(b.weight), 1.0);
    assert_eq!(f32::from_bits(b.offset_seconds), 0.0);
    assert!(!b.is_loop && b.is_loop_fade_in && !b.previous_loop_state);
}

#[test]
fn cubism_motion_curve_settings() {
    let mut m = CubismMotion::new(expected_motion_data());
    assert_eq!(m.get_duration(), 2.0f32.to_bits());
    m.base.is_loop = true;
    assert_eq!(m.get_duration(), MINUS_ONE_F32);
    assert_eq!(m.model_opacity, ONE_F32);
    m.set_fade_in_time("ParamArmRA".to_string(), 0.25f32.to_bits());
    m.set_fade_out_time("ParamArmRA".to_string(), 0.75f32.to_bits());
    m.set_fade_in_time("Missing".to_string(), 9.0f32.to_bits());
    assert_eq!(m.get_fade_in_time("ParamArmRA".to_string(), 0), Some(0.25f32.to_bits()));
    assert_eq!(m.get_fade_out_time("ParamArmRA".to_string(), 0), Some(0.75f32.to_bits()));
    assert_eq!(m.get_fade_in_time("PARAM_ANGLE_X".to_string(), 0), Some((-1.0f32).to_bits()));
    assert_eq!(m.get_fade_in_time("Missing".to_string(), 0), None);
    assert!(!m.is_exist_model_opacity());
    assert_eq!(m.get_model_opacity_index(), None);
}

#[test]
fn model_opacity_curve_is_found() {
    let mut d = expected_motion_data();
    d.curves.push(MotionCurve {
        target_type: CurveTargetType::Parameter,
        id: "Opacity".into(),
        segment_count: 0,
        base_segment_index: 4,
        fade_in_time: 0,
        fade_out_time: 0,
    });
    d.curves.push(MotionCurve {
        target_type: CurveTargetType::Model,
        id: "Opacity".into(),
        segment_count: 0,
        base_segment_index: 4,
        fade_in_time: 0,
        fade_out_time: 0,
    });
    let m = CubismMotion::new(d);
    assert!(m.is_exist_model_opacity());
    assert_eq!(m.get_model_opacity_index(), Some(3));
}

#[test]
fn decoder_stage_starts_at_start_time() {
    let d = SegmentDecoder::new();
    assert_eq!(d.request(), DecodeRequest::Number);
    let _ = DecodeStage::StartTime;
}

#[test]
fn decodes_chained_linear_pair() {
    let s = decode(&[N(0.), N(0.), T(0), N(1.), N(30.), T(0), N(2.), N(-30.)]).unwrap();
    assert_eq!(
        s,
        Segments(vec![SegmentType::Linear(p(0., 0.), p(1., 30.)), SegmentType::Linear(p(1., 30.), p(2., -30.))])
    );
}

#[test]
fn decodes_bezier_then_linear() {
    let s = decode(&[N(0.), N(0.), T(1), N(0.3), N(0.), N(0.7), N(10.), N(1.), N(10.), T(0), N(2.), N(0.)]).unwrap();
    assert_eq!(
        s,
        Segments(vec![
            SegmentType::Bezier([p(0., 0.), p(0.3, 0.), p(0.7, 10.), p(1., 10.)]),
            SegmentType::Linear(p(1., 10.), p(2., 0.)),
        ])
    );
}

#[test]
fn short_bezier_is_an_error() {
    assert_eq!(
        decode(&[N(0.), N(0.), T(1), N(0.3), N(0.), N(0.7)]),
        Err(SegmentError::MissingArgument(SegmentKind::Bezier, 3))
    );
    assert_eq!(decode(&[N(0.), N(0.), T(4), N(1.), N(1.)]), Err(SegmentError::UnknownTag(4)));
}
