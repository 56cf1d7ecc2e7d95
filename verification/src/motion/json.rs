use vstd::prelude::*;

verus! {

// Times and values of a motion are `f32` numbers that this module only moves
// around, never computes with; they are held as their IEEE-754 bit patterns
// (`f32::to_bits`), which the caller converts back with `f32::from_bits`.

/// A point of a motion curve: a time and a value, both `f32` bit patterns.
#[derive(Debug, Clone, Copy, PartialEq)]
pub struct SegmentPoint {
    pub time: u32,
    pub value: u32,
}

/// One segment of a curve, with all of its points; the first point is where
/// the previous segment ended.
#[derive(Copy, Clone, Debug, PartialEq)]
pub enum SegmentType {
    Linear(SegmentPoint, SegmentPoint),
    Bezier([SegmentPoint; 4]),
    Stepped(SegmentPoint, SegmentPoint),
    InverseStepped(SegmentPoint, SegmentPoint),
}

/// The decoded segments of a curve.
#[derive(Clone, Debug, PartialEq)]
pub struct Segments(pub Vec<SegmentType>);

/// The kind of a segment, as its tag in the number stream gives it.
#[derive(Copy, Clone, Debug, PartialEq, Eq, Structural)]
pub enum SegmentKind {
    Linear,
    Bezier,
    Stepped,
    InverseStepped,
}

/// The kind that a tag of the number stream stands for.
pub open spec fn kind_of_tag(tag: i32) -> Option<SegmentKind> {
    if tag == 0 {
        Some(SegmentKind::Linear)
    } else if tag == 1 {
        Some(SegmentKind::Bezier)
    } else if tag == 2 {
        Some(SegmentKind::Stepped)
    } else if tag == 3 {
        Some(SegmentKind::InverseStepped)
    } else {
        None
    }
}

/// How many numbers follow the tag of a segment of this kind.
pub open spec fn argument_count(kind: SegmentKind) -> nat {
    match kind {
        SegmentKind::Bezier => 6,
        _ => 2,
    }
}

/// The segment of `kind` that starts at `start` and is given by `args`.
pub open spec fn segment_from(kind: SegmentKind, start: SegmentPoint, args: Seq<u32>) -> SegmentType {
    match kind {
        SegmentKind::Linear => SegmentType::Linear(start, SegmentPoint { time: args[0], value: args[1] }),
        SegmentKind::Bezier => SegmentType::Bezier(
            [
                start,
                SegmentPoint { time: args[0], value: args[1] },
                SegmentPoint { time: args[2], value: args[3] },
                SegmentPoint { time: args[4], value: args[5] },
            ],
        ),
        SegmentKind::Stepped => SegmentType::Stepped(start, SegmentPoint { time: args[0], value: args[1] }),
        SegmentKind::InverseStepped => SegmentType::InverseStepped(
            start,
            SegmentPoint { time: args[0], value: args[1] },
        ),
    }
}

/// The point where a segment starts.
pub open spec fn start_point(seg: SegmentType) -> SegmentPoint {
    match seg {
        SegmentType::Linear(p0, _) => p0,
        SegmentType::Bezier(p) => p[0],
        SegmentType::Stepped(p0, _) => p0,
        SegmentType::InverseStepped(p0, _) => p0,
    }
}

/// The point where a segment ends.
pub open spec fn end_point(seg: SegmentType) -> SegmentPoint {
    match seg {
        SegmentType::Linear(_, p1) => p1,
        SegmentType::Bezier(p) => p[3],
        SegmentType::Stepped(_, p1) => p1,
        SegmentType::InverseStepped(_, p1) => p1,
    }
}

/// Each segment starts where the one before it ended.
pub open spec fn chained(segs: Seq<SegmentType>) -> bool {
    forall|i: int| 0 < i < segs.len() ==> #[trigger] start_point(segs[i]) == end_point(segs[i - 1])
}

/// What the decoder expects next.
#[derive(Copy, Clone, Debug, PartialEq, Eq, Structural)]
pub enum DecodeStage {
    /// The time of the first point.
    StartTime,
    /// The value of the first point.
    StartValue,
    /// A segment tag, or the end of the stream.
    Tag,
    /// The numbers of a segment of this kind.
    Arguments(SegmentKind),
    /// Nothing: the stream has ended.
    Done,
}

/// One element of the number stream, read as the decoder asked for it.
#[derive(Copy, Clone, Debug, PartialEq, Eq, Structural)]
pub enum SegmentInput {
    /// A number read as an `f32`, by its bit pattern.
    Number(u32),
    /// A number read as an `i32` segment tag.
    Tag(i32),
    /// The stream has no more elements.
    End,
}

/// What the caller must read next from the stream.
#[derive(Copy, Clone, Debug, PartialEq, Eq, Structural)]
pub enum DecodeRequest {
    /// Read the next element as an `f32`.
    Number,
    /// Read the next element as an `i32` tag.
    Tag,
    /// Stop: the segments are complete.
    Finished,
}

/// Why a stream of numbers is not a segment list.
#[derive(Copy, Clone, Debug, PartialEq, Eq, Structural)]
pub enum SegmentError {
    /// The stream ended before the first point was complete.
    MissingStart,
    /// The stream ended inside a segment of this kind; `usize` is the position
    /// of the missing number among the segment's numbers.
    MissingArgument(SegmentKind, usize),
    /// A tag that names no segment kind.
    UnknownTag(i32),
}

/// The request that belongs to a stage.
pub open spec fn request_of(stage: DecodeStage) -> DecodeRequest {
    match stage {
        DecodeStage::Tag => DecodeRequest::Tag,
        DecodeStage::Done => DecodeRequest::Finished,
        _ => DecodeRequest::Number,
    }
}

/// Decodes the number stream of a curve's segments, one element at a time.
///
/// The stream holds the time and value of the first point, then for each
/// segment a tag (0 linear, 1 bezier, 2 stepped, 3 inverse stepped) followed by
/// the time and value of each further point of the segment.
pub struct SegmentDecoder {
    stage: DecodeStage,
    start_time: u32,
    last: SegmentPoint,
    args: Vec<u32>,
    segments: Vec<SegmentType>,
}

impl SegmentDecoder {
    pub closed spec fn stage(&self) -> DecodeStage {
        self.stage
    }

    /// The time of the first point, once it has been read.
    pub closed spec fn start_time(&self) -> u32 {
        self.start_time
    }

    /// The point where the next segment starts.
    pub closed spec fn last(&self) -> SegmentPoint {
        self.last
    }

    /// The numbers read so far of the segment being decoded.
    pub closed spec fn args(&self) -> Seq<u32> {
        self.args@
    }

    /// The segments decoded so far.
    pub closed spec fn segments(&self) -> Seq<SegmentType> {
        self.segments@
    }

    pub open spec fn wf(&self) -> bool {
        &&& chained(self.segments())
        &&& self.segments().len() > 0 ==> self.last() == end_point(self.segments().last())
        &&& match self.stage() {
            DecodeStage::Arguments(k) => self.args().len() < argument_count(k),
            _ => self.args().len() == 0,
        }
        &&& (self.stage() == DecodeStage::StartTime || self.stage() == DecodeStage::StartValue)
            ==> self.segments().len() == 0
    }

    pub fn new() -> (d: Self)
        ensures
            d.wf(),
            d.stage() == DecodeStage::StartTime,
            d.segments().len() == 0,
    {
        SegmentDecoder {
            stage: DecodeStage::StartTime,
            start_time: 0,
            last: SegmentPoint { time: 0, value: 0 },
            args: Vec::new(),
            segments: Vec::new(),
        }
    }

    /// What the caller must read next.
    pub fn request(&self) -> (r: DecodeRequest)
        ensures
            r == request_of(self.stage()),
    {
        match self.stage {
            DecodeStage::Tag => DecodeRequest::Tag,
            DecodeStage::Done => DecodeRequest::Finished,
            _ => DecodeRequest::Number,
        }
    }

    /// Takes the next element of the stream; returns what to read after it.
    /// On an error the decoder is left as it was.
    pub fn step(&mut self, input: SegmentInput) -> (r: Result<DecodeRequest, SegmentError>)
        requires
            old(self).wf(),
            old(self).stage() != DecodeStage::Done,
            old(self).stage() == DecodeStage::Tag ==> !(input is Number),
            old(self).stage() != DecodeStage::Tag ==> !(input is Tag),
        ensures
            final(self).wf(),
            r matches Ok(req) ==> req == request_of(final(self).stage()),
            r is Err ==> *final(self) == *old(self),
            match (old(self).stage(), input) {
                (DecodeStage::StartTime, SegmentInput::Number(t)) => {
                    &&& r == Ok::<DecodeRequest, SegmentError>(DecodeRequest::Number)
                    &&& final(self).stage() == DecodeStage::StartValue
                    &&& final(self).start_time() == t
                    &&& final(self).segments() == old(self).segments()
                },
                (DecodeStage::StartValue, SegmentInput::Number(v)) => {
                    &&& r == Ok::<DecodeRequest, SegmentError>(DecodeRequest::Tag)
                    &&& final(self).stage() == DecodeStage::Tag
                    &&& final(self).last() == SegmentPoint { time: old(self).start_time(), value: v }
                    &&& final(self).segments() == old(self).segments()
                },
                (DecodeStage::StartTime, SegmentInput::End) => r == Err::<DecodeRequest, SegmentError>(
                    SegmentError::MissingStart,
                ),
                (DecodeStage::StartValue, SegmentInput::End) => r == Err::<DecodeRequest, SegmentError>(
                    SegmentError::MissingStart,
                ),
                (DecodeStage::Tag, SegmentInput::End) => {
                    &&& r == Ok::<DecodeRequest, SegmentError>(DecodeRequest::Finished)
                    &&& final(self).stage() == DecodeStage::Done
                    &&& final(self).segments() == old(self).segments()
                },
                (DecodeStage::Tag, SegmentInput::Tag(t)) => match kind_of_tag(t) {
                    Some(k) => {
                        &&& r == Ok::<DecodeRequest, SegmentError>(DecodeRequest::Number)
                        &&& final(self).stage() == DecodeStage::Arguments(k)
                        &&& final(self).args() == Seq::<u32>::empty()
                        &&& final(self).last() == old(self).last()
                        &&& final(self).segments() == old(self).segments()
                    },
                    None => r == Err::<DecodeRequest, SegmentError>(SegmentError::UnknownTag(t)),
                },
                (DecodeStage::Arguments(k), SegmentInput::End) => r == Err::<DecodeRequest, SegmentError>(
                    SegmentError::MissingArgument(k, old(self).args().len() as usize),
                ),
                (DecodeStage::Arguments(k), SegmentInput::Number(x)) => {
                    let args = old(self).args().push(x);
                    if args.len() == argument_count(k) {
                        let seg = segment_from(k, old(self).last(), args);
                        &&& r == Ok::<DecodeRequest, SegmentError>(DecodeRequest::Tag)
                        &&& final(self).stage() == DecodeStage::Tag
                        &&& final(self).segments() == old(self).segments().push(seg)
                        &&& final(self).last() == end_point(seg)
                    } else {
                        &&& r == Ok::<DecodeRequest, SegmentError>(DecodeRequest::Number)
                        &&& final(self).stage() == DecodeStage::Arguments(k)
                        &&& final(self).args() == args
                        &&& final(self).last() == old(self).last()
                        &&& final(self).segments() == old(self).segments()
                    }
                },
                _ => false,
            },
    {
        match (self.stage, input) {
            (DecodeStage::StartTime, SegmentInput::Number(t)) => {
                self.start_time = t;
                self.stage = DecodeStage::StartValue;
                Ok(DecodeRequest::Number)
            },
            (DecodeStage::StartValue, SegmentInput::Number(v)) => {
                self.last = SegmentPoint { time: self.start_time, value: v };
                self.stage = DecodeStage::Tag;
                Ok(DecodeRequest::Tag)
            },
            (DecodeStage::StartTime, SegmentInput::End) => Err(SegmentError::MissingStart),
            (DecodeStage::StartValue, SegmentInput::End) => Err(SegmentError::MissingStart),
            (DecodeStage::Tag, SegmentInput::End) => {
                self.stage = DecodeStage::Done;
                Ok(DecodeRequest::Finished)
            },
            (DecodeStage::Tag, SegmentInput::Tag(t)) => {
                let kind = if t == 0 {
                    SegmentKind::Linear
                } else if t == 1 {
                    SegmentKind::Bezier
                } else if t == 2 {
                    SegmentKind::Stepped
                } else if t == 3 {
                    SegmentKind::InverseStepped
                } else {
                    return Err(SegmentError::UnknownTag(t));
                };
                self.stage = DecodeStage::Arguments(kind);
                Ok(DecodeRequest::Number)
            },
            (DecodeStage::Arguments(k), SegmentInput::End) => Err(
                SegmentError::MissingArgument(k, self.args.len()),
            ),
            (DecodeStage::Arguments(k), SegmentInput::Number(x)) => {
                self.args.push(x);
                let needed: usize = match k {
                    SegmentKind::Bezier => 6,
                    _ => 2,
                };
                if self.args.len() == needed {
                    let a = &self.args;
                    let p0 = SegmentPoint { time: a[0], value: a[1] };
                    let seg = match k {
                        SegmentKind::Linear => SegmentType::Linear(self.last, p0),
                        SegmentKind::Bezier => {
                            let p1 = SegmentPoint { time: a[2], value: a[3] };
                            let p2 = SegmentPoint { time: a[4], value: a[5] };
                            SegmentType::Bezier([self.last, p0, p1, p2])
                        },
                        SegmentKind::Stepped => SegmentType::Stepped(self.last, p0),
                        SegmentKind::InverseStepped => SegmentType::InverseStepped(self.last, p0),
                    };
                    let end = match k {
                        SegmentKind::Bezier => SegmentPoint { time: a[4], value: a[5] },
                        _ => p0,
                    };
                    self.segments.push(seg);
                    self.last = end;
                    self.args = Vec::new();
                    self.stage = DecodeStage::Tag;
                    Ok(DecodeRequest::Tag)
                } else {
                    Ok(DecodeRequest::Number)
                }
            },
            _ => Err(SegmentError::MissingStart),
        }
    }

    /// The decoded segments, once the stream has ended.
    pub fn finish(self) -> (s: Segments)
        requires
            self.wf(),
            self.stage() == DecodeStage::Done,
        ensures
            s.0@ == self.segments(),
            chained(s.0@),
    {
        Segments(self.segments)
    }
}

/// A curve as the motion file gives it.
#[derive(Debug, Clone, PartialEq)]
pub struct Curve {
    pub target: String,
    pub id: String,
    /// `f32` bit pattern.
    pub fade_in_time: u32,
    /// `f32` bit pattern.
    pub fade_out_time: u32,
    pub segments: Segments,
}

/// A user-data event of a motion: a time (`f32` bit pattern) and a text.
#[derive(Debug, Clone, PartialEq)]
pub struct MotionEvent {
    pub time: u32,
    pub value: String,
}

/// The `Meta` block of a motion file; `f32` fields are bit patterns.
#[derive(Debug, Copy, Clone, PartialEq)]
pub struct MotionMeta {
    pub duration: u32,
    pub fps: u32,
    pub loop_: bool,
    pub are_beziers_restricted: bool,
    pub curve_count: i32,
    pub total_segment_count: i32,
    pub total_point_count: i32,
    pub fade_in_time: Option<u32>,
    pub fade_out_time: Option<u32>,
    pub user_data_count: i32,
    pub total_user_data_size: i32,
}

/// A whole motion file.
#[derive(Debug, Clone, PartialEq)]
pub struct Motion3 {
    pub version: usize,
    pub meta: MotionMeta,
    pub curves: Vec<Curve>,
    pub user_data: Vec<MotionEvent>,
}

/// What a curve animates.
#[derive(Debug, Copy, Clone, PartialEq, Eq, Structural)]
pub enum CurveTargetType {
    Parameter,
    PartOpacity,
    Model,
}

/// A curve of the flattened motion data: its segments are
/// `segments[base_segment_index .. base_segment_index + segment_count]`.
#[derive(Debug, Clone, PartialEq)]
pub struct MotionCurve {
    pub target_type: CurveTargetType,
    pub id: String,
    pub segment_count: usize,
    pub base_segment_index: usize,
    /// `f32` bit pattern.
    pub fade_in_time: u32,
    /// `f32` bit pattern.
    pub fade_out_time: u32,
}

#[derive(Debug, Copy, Clone, PartialEq, Eq, Structural)]
pub enum MotionSegmentType {
    Linear,
    Bezier,
    Stepped,
    InverseStepped,
}

/// A segment of the flattened motion data, by the index of its first stored
/// point and its kind.
#[derive(Debug, Copy, Clone, PartialEq, Eq, Structural)]
pub struct MotionSegment {
    pub base_point_index: usize,
    pub segment_type: MotionSegmentType,
}

/// A motion with all curves' segments and points in flat arrays.
#[derive(Debug, Clone, PartialEq)]
pub struct MotionData {
    /// `f32` bit pattern.
    pub duration: u32,
    pub loop_: bool,
    /// `f32` bit pattern.
    pub fps: u32,
    pub curves: Vec<MotionCurve>,
    pub segments: Vec<MotionSegment>,
    pub points: Vec<SegmentPoint>,
    pub events: Vec<MotionEvent>,
}

/// The target type that a curve's `Target` text names.
pub open spec fn target_of(target: Seq<char>) -> Option<CurveTargetType> {
    if target == "Parameter"@ {
        Some(CurveTargetType::Parameter)
    } else if target == "PartOpacity"@ {
        Some(CurveTargetType::PartOpacity)
    } else if target == "Model"@ {
        Some(CurveTargetType::Model)
    } else {
        None
    }
}

/// The target type that a curve's `Target` text names, if any.
pub fn curve_target_type(target: &String) -> (r: Option<CurveTargetType>)
    ensures
        r == target_of(target@),
{
    if *target == String::from_str("Parameter") {
        Some(CurveTargetType::Parameter)
    } else if *target == String::from_str("PartOpacity") {
        Some(CurveTargetType::PartOpacity)
    } else if *target == String::from_str("Model") {
        Some(CurveTargetType::Model)
    } else {
        None
    }
}

pub open spec fn kind_of_segment(seg: SegmentType) -> MotionSegmentType {
    match seg {
        SegmentType::Linear(..) => MotionSegmentType::Linear,
        SegmentType::Bezier(..) => MotionSegmentType::Bezier,
        SegmentType::Stepped(..) => MotionSegmentType::Stepped,
        SegmentType::InverseStepped(..) => MotionSegmentType::InverseStepped,
    }
}

/// The points of a segment after its start point.
pub open spec fn tail_points(seg: SegmentType) -> Seq<SegmentPoint> {
    match seg {
        SegmentType::Linear(_, p1) => seq![p1],
        SegmentType::Bezier(p) => seq![p[1], p[2], p[3]],
        SegmentType::Stepped(_, p1) => seq![p1],
        SegmentType::InverseStepped(_, p1) => seq![p1],
    }
}

/// The points that a curve's segments store: the start point of the first
/// segment, then for every segment the points after its start.
pub open spec fn curve_points(segs: Seq<SegmentType>) -> Seq<SegmentPoint>
    decreases segs.len(),
{
    if segs.len() == 0 {
        Seq::empty()
    } else if segs.len() == 1 {
        seq![start_point(segs[0])] + tail_points(segs[0])
    } else {
        curve_points(segs.drop_last()) + tail_points(segs.last())
    }
}

/// The flattened segments of one curve whose points are stored from index `base`:
/// each segment's `base_point_index` is the number of points stored before it.
pub open spec fn curve_segments(segs: Seq<SegmentType>, base: int) -> Seq<MotionSegment>
    decreases segs.len(),
{
    if segs.len() == 0 {
        Seq::empty()
    } else {
        curve_segments(segs.drop_last(), base).push(
            MotionSegment {
                base_point_index: (base + curve_points(segs.drop_last()).len()) as usize,
                segment_type: kind_of_segment(segs.last()),
            },
        )
    }
}

/// The points of all curves, curve after curve.
pub open spec fn all_points(curves: Seq<Curve>) -> Seq<SegmentPoint>
    decreases curves.len(),
{
    if curves.len() == 0 {
        Seq::empty()
    } else {
        all_points(curves.drop_last()) + curve_points(curves.last().segments.0@)
    }
}

/// The flattened segments of all curves, curve after curve.
pub open spec fn all_segments(curves: Seq<Curve>) -> Seq<MotionSegment>
    decreases curves.len(),
{
    if curves.len() == 0 {
        Seq::empty()
    } else {
        all_segments(curves.drop_last()) + curve_segments(
            curves.last().segments.0@,
            all_points(curves.drop_last()).len() as int,
        )
    }
}

/// The flattened curve that stands for the last of `curves`.
pub open spec fn flat_curve(curves: Seq<Curve>) -> MotionCurve
    recommends
        curves.len() > 0,
{
    let c = curves.last();
    MotionCurve {
        target_type: target_of(c.target@).unwrap(),
        id: c.id,
        segment_count: c.segments.0@.len() as usize,
        base_segment_index: all_segments(curves.drop_last()).len() as usize,
        fade_in_time: c.fade_in_time,
        fade_out_time: c.fade_out_time,
    }
}

/// The flattened curves.
pub open spec fn all_curves(curves: Seq<Curve>) -> Seq<MotionCurve>
    decreases curves.len(),
{
    if curves.len() == 0 {
        Seq::empty()
    } else {
        all_curves(curves.drop_last()).push(flat_curve(curves))
    }
}

proof fn lemma_curve_points_step(segs: Seq<SegmentType>, k: int)
    requires
        0 <= k < segs.len(),
    ensures
        curve_points(segs.take(k + 1)) == curve_points(segs.take(k)) + (if k == 0 {
            seq![start_point(segs[0])]
        } else {
            Seq::empty()
        }) + tail_points(segs[k]),
{
    assert(segs.take(k + 1).drop_last() =~= segs.take(k));
    if k == 0 {
        assert(curve_points(segs.take(0)) =~= Seq::empty());
        assert(curve_points(segs.take(1)) =~= Seq::empty() + seq![start_point(segs[0])] + tail_points(segs[0]));
    } else {
        assert(Seq::<SegmentPoint>::empty() + tail_points(segs[k]) =~= tail_points(segs[k]));
        assert(curve_points(segs.take(k)) + Seq::<SegmentPoint>::empty() =~= curve_points(segs.take(k)));
    }
}

impl MotionData {
    /// Flattens a motion file: the points, segments and curves of all curves in
    /// order, each segment pointing at the first point it stored.
    pub fn from_motion3(m3: Motion3) -> (d: MotionData)
        requires
            forall|i: int| 0 <= i < m3.curves@.len() ==> (#[trigger] target_of(m3.curves@[i].target@)) is Some,
            all_points(m3.curves@).len() <= usize::MAX,
        ensures
            d.duration == m3.meta.duration,
            d.loop_ == m3.meta.loop_,
            d.fps == m3.meta.fps,
            d.points@ == all_points(m3.curves@),
            d.segments@ == all_segments(m3.curves@),
            d.curves@ == all_curves(m3.curves@),
            d.events@ == m3.user_data@,
            d.curves@.len() == m3.curves@.len(),
            forall|i: int| 0 <= i < m3.curves@.len() ==> {
                &&& (#[trigger] d.curves@[i]).id == m3.curves@[i].id
                &&& d.curves@[i].target_type == target_of(m3.curves@[i].target@).unwrap()
                &&& d.curves@[i].fade_in_time == m3.curves@[i].fade_in_time
                &&& d.curves@[i].fade_out_time == m3.curves@[i].fade_out_time
                &&& d.curves@[i].segment_count == m3.curves@[i].segments.0@.len() as usize
            },
    {
        let mut curves: Vec<MotionCurve> = Vec::with_capacity(m3.curves.len());
        let mut segments: Vec<MotionSegment> = Vec::new();
        let mut points: Vec<SegmentPoint> = Vec::new();
        let n = m3.curves.len();
        let mut i: usize = 0;
        while i < n
            invariant
                n == m3.curves@.len(),
                i <= n,
                forall|j: int| 0 <= j < m3.curves@.len() ==> (#[trigger] target_of(m3.curves@[j].target@)) is Some,
                all_points(m3.curves@).len() <= usize::MAX,
                points@ == all_points(m3.curves@.take(i as int)),
                segments@ == all_segments(m3.curves@.take(i as int)),
                curves@ == all_curves(m3.curves@.take(i as int)),
            decreases n - i,
        {
            let curve = &m3.curves[i];
            let segs = &curve.segments.0;
            let base_segment_index = segments.len();
            let ghost points_before = points@;
            let ghost segments_before = segments@;
            let mut segment_count: usize = 0;
            let m = segs.len();
            proof {
                lemma_all_points_prefix(m3.curves@, i as int + 1);
                assert(m3.curves@.take(i as int + 1).drop_last() =~= m3.curves@.take(i as int));
                assert(m3.curves@.take(i as int + 1).last() == m3.curves@[i as int]);
            }
            while segment_count < m
                invariant
                    m == segs@.len(),
                    segs@ == m3.curves@[i as int].segments.0@,
                    segment_count <= m,
                    points_before.len() + curve_points(segs@).len() <= usize::MAX,
                    points@ == points_before + curve_points(segs@.take(segment_count as int)),
                    segments@ == segments_before + curve_segments(
                        segs@.take(segment_count as int),
                        points_before.len() as int,
                    ),
                decreases m - segment_count,
            {
                let base_point_index = points.len();
                let seg = segs[segment_count];
                proof {
                    lemma_curve_points_step(segs@, segment_count as int);
                    lemma_curve_points_prefix(segs@, segment_count as int + 1);
                    assert(segs@.take(segment_count as int + 1).drop_last() =~= segs@.take(segment_count as int));
                    assert(segs@.take(segment_count as int + 1).last() == seg);
                }
                match seg {
                    SegmentType::Linear(p0, p1) => {
                        if segment_count == 0 {
                            points.push(p0);
                        }
                        points.push(p1);
                        segments.push(MotionSegment { base_point_index, segment_type: MotionSegmentType::Linear });
                    },
                    SegmentType::Bezier(p) => {
                        if segment_count == 0 {
                            points.push(p[0]);
                        }
                        points.push(p[1]);
                        points.push(p[2]);
                        points.push(p[3]);
                        segments.push(MotionSegment { base_point_index, segment_type: MotionSegmentType::Bezier });
                    },
                    SegmentType::Stepped(p0, p1) => {
                        if segment_count == 0 {
                            points.push(p0);
                        }
                        points.push(p1);
                        segments.push(MotionSegment { base_point_index, segment_type: MotionSegmentType::Stepped });
                    },
                    SegmentType::InverseStepped(p0, p1) => {
                        if segment_count == 0 {
                            points.push(p0);
                        }
                        points.push(p1);
                        segments.push(
                            MotionSegment { base_point_index, segment_type: MotionSegmentType::InverseStepped },
                        );
                    },
                }
                proof {
                    assert(points@ =~= points_before + curve_points(segs@.take(segment_count as int + 1)));
                    assert(segments@ =~= segments_before + curve_segments(
                        segs@.take(segment_count as int + 1),
                        points_before.len() as int,
                    ));
                }
                segment_count += 1;
            }
            proof {
                assert(segs@.take(m as int) =~= segs@);
            }
            let target_type = match curve_target_type(&curve.target) {
                Some(t) => t,
                None => {
                    proof {
                        assert(target_of(m3.curves@[i as int].target@) is Some);
                    }
                    CurveTargetType::Parameter
                },
            };
            curves.push(
                MotionCurve {
                    target_type,
                    id: curve.id.clone(),
                    segment_count,
                    base_segment_index,
                    fade_in_time: curve.fade_in_time,
                    fade_out_time: curve.fade_out_time,
                },
            );
            proof {
                assert(points@ =~= all_points(m3.curves@.take(i as int + 1)));
                assert(segments@ =~= all_segments(m3.curves@.take(i as int + 1)));
                assert(curves@ =~= all_curves(m3.curves@.take(i as int + 1)));
            }
            i += 1;
        }
        proof {
            assert(m3.curves@.take(n as int) =~= m3.curves@);
            lemma_flat_curves_keep_settings(m3.curves@);
        }
        MotionData {
            duration: m3.meta.duration,
            loop_: m3.meta.loop_,
            fps: m3.meta.fps,
            curves,
            segments,
            points,
            events: m3.user_data,
        }
    }
}

/// Flattening keeps each curve's own settings: flattened curve `i` has the
/// target, id, fade-in time, fade-out time and segment count of input curve
/// `i`, and its segments start where those of the curves before it end.
pub proof fn lemma_flat_curves_keep_settings(curves: Seq<Curve>)
    ensures
        all_curves(curves).len() == curves.len(),
        forall|i: int| 0 <= i < curves.len() ==> {
            let f = #[trigger] all_curves(curves)[i];
            &&& f.target_type == target_of(curves[i].target@).unwrap()
            &&& f.id == curves[i].id
            &&& f.fade_in_time == curves[i].fade_in_time
            &&& f.fade_out_time == curves[i].fade_out_time
            &&& f.segment_count == curves[i].segments.0@.len() as usize
            &&& f.base_segment_index == all_segments(curves.take(i)).len() as usize
        },
    decreases curves.len(),
{
    if curves.len() > 0 {
        let prev = curves.drop_last();
        lemma_flat_curves_keep_settings(prev);
        assert forall|i: int| 0 <= i < curves.len() implies {
            let f = #[trigger] all_curves(curves)[i];
            &&& f.target_type == target_of(curves[i].target@).unwrap()
            &&& f.id == curves[i].id
            &&& f.fade_in_time == curves[i].fade_in_time
            &&& f.fade_out_time == curves[i].fade_out_time
            &&& f.segment_count == curves[i].segments.0@.len() as usize
            &&& f.base_segment_index == all_segments(curves.take(i)).len() as usize
        } by {
            if i < curves.len() - 1 {
                assert(all_curves(curves)[i] == all_curves(prev)[i]);
                assert(prev[i] == curves[i]);
                assert(prev.take(i) =~= curves.take(i));
            } else {
                assert(curves.take(i) =~= prev);
            }
        }
    }
}

/// The stream's tags: 0 is a linear segment, 1 a Bezier, 2 a stepped and 3 an
/// inverse-stepped one; a Bezier takes three further points (six numbers),
/// the others one (two numbers); any other tag is none.
pub proof fn lemma_segment_tags(tag: i32)
    ensures
        kind_of_tag(tag) is Some <==> 0 <= tag <= 3,
        kind_of_tag(tag) == Some(SegmentKind::Linear) <==> tag == 0,
        kind_of_tag(tag) == Some(SegmentKind::Bezier) <==> tag == 1,
        kind_of_tag(tag) == Some(SegmentKind::Stepped) <==> tag == 2,
        kind_of_tag(tag) == Some(SegmentKind::InverseStepped) <==> tag == 3,
        argument_count(SegmentKind::Bezier) == 6,
        argument_count(SegmentKind::Linear) == 2,
        argument_count(SegmentKind::Stepped) == 2,
        argument_count(SegmentKind::InverseStepped) == 2,
{
}

/// A segment built from the numbers after its tag starts at the given point,
/// ends at the point made of its last two numbers (time first, then value),
/// keeps its kind, and holds its numbers as time/value pairs in stream order.
pub proof fn lemma_segment_from(kind: SegmentKind, start: SegmentPoint, args: Seq<u32>)
    requires
        args.len() == argument_count(kind),
    ensures
        ({
            let seg = segment_from(kind, start, args);
            let n = args.len() as int;
            &&& start_point(seg) == start
            &&& end_point(seg) == (SegmentPoint { time: args[n - 2], value: args[n - 1] })
            &&& tail_points(seg).len() == n / 2
            &&& forall|k: int| 0 <= k < n / 2 ==> #[trigger] tail_points(seg)[k] == (SegmentPoint {
                time: args[2 * k],
                value: args[2 * k + 1],
            })
            &&& (seg is Linear <==> kind == SegmentKind::Linear)
            &&& (seg is Bezier <==> kind == SegmentKind::Bezier)
            &&& (seg is Stepped <==> kind == SegmentKind::Stepped)
            &&& (seg is InverseStepped <==> kind == SegmentKind::InverseStepped)
        }),
{
}

/// A flattened segment records the kind of the segment it stands for.
pub proof fn lemma_segment_kind(seg: SegmentType)
    ensures
        kind_of_segment(seg) == MotionSegmentType::Linear <==> seg is Linear,
        kind_of_segment(seg) == MotionSegmentType::Bezier <==> seg is Bezier,
        kind_of_segment(seg) == MotionSegmentType::Stepped <==> seg is Stepped,
        kind_of_segment(seg) == MotionSegmentType::InverseStepped <==> seg is InverseStepped,
{
}

/// The points of a prefix of the curves are a prefix of all the points.
proof fn lemma_all_points_prefix(curves: Seq<Curve>, k: int)
    requires
        0 <= k <= curves.len(),
    ensures
        all_points(curves.take(k)).len() <= all_points(curves).len(),
    decreases curves.len() - k,
{
    if k < curves.len() {
        lemma_all_points_prefix(curves, k + 1);
        assert(curves.take(k + 1).drop_last() =~= curves.take(k));
    } else {
        assert(curves.take(k) =~= curves);
    }
}

/// The points of a prefix of a curve's segments are no more than all of its points.
proof fn lemma_curve_points_prefix(segs: Seq<SegmentType>, k: int)
    requires
        0 <= k <= segs.len(),
    ensures
        curve_points(segs.take(k)).len() <= curve_points(segs).len(),
    decreases segs.len() - k,
{
    if k < segs.len() {
        lemma_curve_points_prefix(segs, k + 1);
        lemma_curve_points_step(segs, k);
    } else {
        assert(segs.take(k) =~= segs);
    }
}

proof fn lemma_curve_points_grow(segs: Seq<SegmentType>)
    requires
        segs.len() > 0,
    ensures
        curve_points(segs.drop_last()).len() < curve_points(segs).len(),
{
}

/// Each flattened segment of one curve points into that curve's points.
proof fn lemma_curve_segments_in_bounds(segs: Seq<SegmentType>, base: int)
    requires
        0 <= base,
        base + curve_points(segs).len() <= usize::MAX,
    ensures
        curve_segments(segs, base).len() == segs.len(),
        forall|j: int| 0 <= j < segs.len() ==> base <= (#[trigger] curve_segments(segs, base)[j]).base_point_index
            < base + curve_points(segs).len(),
    decreases segs.len(),
{
    if segs.len() > 0 {
        let prev = segs.drop_last();
        lemma_curve_points_grow(segs);
        lemma_curve_segments_in_bounds(prev, base);
        let cs = curve_segments(segs, base);
        assert forall|j: int| 0 <= j < segs.len() implies base <= (#[trigger] cs[j]).base_point_index
            < base + curve_points(segs).len() by {
            if j < segs.len() - 1 {
                assert(cs[j] == curve_segments(prev, base)[j]);
            }
        }
    }
}

/// Every index that flattened motion data holds lies inside its lists: each
/// curve's segments lie within the segments, and each segment's first point
/// within the points.
pub proof fn lemma_flattened_in_bounds(curves: Seq<Curve>)
    requires
        all_points(curves).len() <= usize::MAX,
    ensures
        all_curves(curves).len() == curves.len(),
        forall|i: int| 0 <= i < curves.len() ==> (#[trigger] all_curves(curves)[i]).base_segment_index
            + all_curves(curves)[i].segment_count <= all_segments(curves).len(),
        forall|j: int| 0 <= j < all_segments(curves).len() ==> (#[trigger] all_segments(curves)[j]).base_point_index
            < all_points(curves).len(),
    decreases curves.len(),
{
    if curves.len() > 0 {
        let prev = curves.drop_last();
        let segs = curves.last().segments.0@;
        let base = all_points(prev).len() as int;
        lemma_flattened_in_bounds(prev);
        lemma_curve_segments_in_bounds(segs, base);
        let all = all_segments(curves);
        assert forall|j: int| 0 <= j < all.len() implies (#[trigger] all[j]).base_point_index < all_points(curves).len() by {
            if j < all_segments(prev).len() {
                assert(all[j] == all_segments(prev)[j]);
            } else {
                assert(all[j] == curve_segments(segs, base)[j - all_segments(prev).len()]);
            }
        }
        let ac = all_curves(curves);
        assert forall|i: int| 0 <= i < curves.len() implies (#[trigger] ac[i]).base_segment_index + ac[i].segment_count
            <= all.len() by {
            if i < curves.len() - 1 {
                assert(ac[i] == all_curves(prev)[i]);
            }
        }
    }
}

} // verus!
