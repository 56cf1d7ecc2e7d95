use vstd::prelude::*;

use byteorder::{ByteOrder, LittleEndian};

verus! {

/// The number of bytes of a face-tracking packet.
pub const PACKET_LEN: usize = 1785;

/// Offsets of the fields of a packet.
pub const OFF_ID: usize = 8;
pub const OFF_WIDTH: usize = 12;
pub const OFF_HEIGHT: usize = 16;
pub const OFF_EYE_BLINK_RIGHT: usize = 20;
pub const OFF_EYE_BLINK_LEFT: usize = 24;
pub const OFF_SUCCESS: usize = 28;
pub const OFF_PNP_ERROR: usize = 29;
pub const OFF_QUATERNION: usize = 33;
pub const OFF_EULER: usize = 49;
pub const OFF_TRANSLATION: usize = 61;
pub const OFF_LMS_CONFIDENCE: usize = 73;
pub const OFF_LMS: usize = 345;
pub const OFF_PNP_POINTS: usize = 889;
pub const OFF_FEATURES: usize = 1729;

/// A face-tracking packet as the tracker sends it: every `f32` of it is held
/// as its bit pattern (`f32::from_bits` gives the number back), and `now`, an
/// `f64`, as its 64-bit pattern.
#[derive(Clone, Debug, PartialEq)]
pub struct Packet {
    pub now: u64,
    pub id: i32,
    pub width: u32,
    pub height: u32,
    pub eye_blink_right: u32,
    pub eye_blink_left: u32,
    pub success: u8,
    pub pnp_error: u32,
    /// 4 numbers.
    pub quaternion: Vec<u32>,
    /// 3 numbers.
    pub euler: Vec<u32>,
    /// 3 numbers.
    pub translation: Vec<u32>,
    /// 68 numbers.
    pub lms_confidence: Vec<u32>,
    /// 68 points; the stream sends each point's second coordinate first.
    pub lms: Vec<[u32; 2]>,
    /// 70 points.
    pub pnp_points: Vec<[u32; 3]>,
    pub eye_left: u32,
    pub eye_right: u32,
    pub eye_steepness_left: u32,
    pub eye_up_down_left: u32,
    pub eye_quirk_left: u32,
    pub eye_steepness_right: u32,
    pub eye_up_down_right: u32,
    pub eye_quirk_right: u32,
    pub mouth_corner_updown_left: u32,
    pub mouth_corner_inout_left: u32,
    pub mouth_corner_updown_right: u32,
    pub mouth_corner_inout_right: u32,
    pub mouth_open: u32,
    pub mouth_wide: u32,
}

/// The little-endian number of the 4 bytes at `at`.
pub open spec fn le_u32(b: Seq<u8>, at: int) -> int {
    b[at] + b[at + 1] * 0x100 + b[at + 2] * 0x1_0000 + b[at + 3] * 0x100_0000
}

/// The little-endian number of the 8 bytes at `at`.
pub open spec fn le_u64(b: Seq<u8>, at: int) -> int {
    le_u32(b, at) + le_u32(b, at + 4) * 0x1_0000_0000
}

/// The little-endian two's-complement number of the 4 bytes at `at`.
pub open spec fn le_i32(b: Seq<u8>, at: int) -> int {
    if le_u32(b, at) < 0x8000_0000 {
        le_u32(b, at)
    } else {
        le_u32(b, at) - 0x1_0000_0000
    }
}

/// `count` consecutive little-endian `u32`s from `at`.
pub open spec fn le_u32_run(v: Seq<u32>, b: Seq<u8>, at: int, count: int) -> bool {
    &&& v.len() == count
    &&& forall|i: int| 0 <= i < count ==> #[trigger] v[i] as int == le_u32(b, at + 4 * i)
}

/// The eye and mouth features at the end of a packet, in stream order.
pub open spec fn features(p: Packet) -> Seq<u32> {
    seq![
        p.eye_left,
        p.eye_right,
        p.eye_steepness_left,
        p.eye_up_down_left,
        p.eye_quirk_left,
        p.eye_steepness_right,
        p.eye_up_down_right,
        p.eye_quirk_right,
        p.mouth_corner_updown_left,
        p.mouth_corner_inout_left,
        p.mouth_corner_updown_right,
        p.mouth_corner_inout_right,
        p.mouth_open,
        p.mouth_wide,
    ]
}

/// `p` is what the bytes `b` encode.
pub open spec fn decodes_to(b: Seq<u8>, p: Packet) -> bool {
    &&& p.now as int == le_u64(b, 0)
    &&& p.id as int == le_i32(b, OFF_ID as int)
    &&& p.width as int == le_u32(b, OFF_WIDTH as int)
    &&& p.height as int == le_u32(b, OFF_HEIGHT as int)
    &&& p.eye_blink_right as int == le_u32(b, OFF_EYE_BLINK_RIGHT as int)
    &&& p.eye_blink_left as int == le_u32(b, OFF_EYE_BLINK_LEFT as int)
    &&& p.success == b[OFF_SUCCESS as int]
    &&& p.pnp_error as int == le_u32(b, OFF_PNP_ERROR as int)
    &&& le_u32_run(p.quaternion@, b, OFF_QUATERNION as int, 4)
    &&& le_u32_run(p.euler@, b, OFF_EULER as int, 3)
    &&& le_u32_run(p.translation@, b, OFF_TRANSLATION as int, 3)
    &&& le_u32_run(p.lms_confidence@, b, OFF_LMS_CONFIDENCE as int, 68)
    &&& p.lms@.len() == 68
    &&& forall|i: int| 0 <= i < 68 ==> {
        &&& (#[trigger] p.lms@[i])[1] as int == le_u32(b, OFF_LMS + 8 * i)
        &&& p.lms@[i][0] as int == le_u32(b, OFF_LMS + 8 * i + 4)
    }
    &&& p.pnp_points@.len() == 70
    &&& forall|i: int| 0 <= i < 70 ==> {
        &&& (#[trigger] p.pnp_points@[i])[0] as int == le_u32(b, OFF_PNP_POINTS + 12 * i)
        &&& p.pnp_points@[i][1] as int == le_u32(b, OFF_PNP_POINTS + 12 * i + 4)
        &&& p.pnp_points@[i][2] as int == le_u32(b, OFF_PNP_POINTS + 12 * i + 8)
    }
    &&& le_u32_run(features(p), b, OFF_FEATURES as int, 14)
}

/// `byteorder`'s `LittleEndian::read_u32` on `buf[at..]`: the little-endian
/// number of the four bytes at `at`. The crate panics on fewer than four bytes,
/// which `requires` leaves out.
#[verifier::external_body]
fn read_u32_at(buf: &[u8], at: usize) -> (r: u32)
    requires
        at + 4 <= buf@.len(),
    ensures
        r as int == le_u32(buf@, at as int),
{
    LittleEndian::read_u32(&buf[at..])
}

/// `byteorder`'s `LittleEndian::read_u64` on `buf[at..]`: the little-endian
/// number of the eight bytes at `at`; it panics on fewer than eight.
#[verifier::external_body]
fn read_u64_at(buf: &[u8], at: usize) -> (r: u64)
    requires
        at + 8 <= buf@.len(),
    ensures
        r as int == le_u64(buf@, at as int),
{
    LittleEndian::read_u64(&buf[at..])
}

/// `byteorder`'s `LittleEndian::read_i32` on `buf[at..]`, which is the
/// little-endian `u32` of the four bytes at `at` taken as an `i32`; it panics
/// on fewer than four bytes.
#[verifier::external_body]
fn read_i32_at(buf: &[u8], at: usize) -> (r: i32)
    requires
        at + 4 <= buf@.len(),
    ensures
        r as int == le_i32(buf@, at as int),
{
    LittleEndian::read_i32(&buf[at..])
}

/// `count` little-endian `u32`s from `at`.
fn read_u32_run(buf: &[u8], at: usize, count: usize) -> (v: Vec<u32>)
    requires
        at + 4 * count <= buf@.len(),
    ensures
        le_u32_run(v@, buf@, at as int, count as int),
{
    let len = buf.len();
    let mut v: Vec<u32> = Vec::new();
    let mut i: usize = 0;
    while i < count
        invariant
            len == buf@.len(),
            at + 4 * count <= buf@.len(),
            i <= count,
            v@.len() == i,
            forall|k: int| 0 <= k < i ==> #[trigger] v@[k] as int == le_u32(buf@, at + 4 * k),
        decreases count - i,
    {
        v.push(read_u32_at(buf, at + 4 * i));
        i += 1;
    }
    v
}

/// Decodes a face-tracking packet; `None` when `buf` is shorter than a packet.
/// Bytes after the packet are ignored.
pub fn parse_packet(buf: &[u8]) -> (r: Option<Packet>)
    ensures
        r is Some <==> buf@.len() >= PACKET_LEN,
        r matches Some(p) ==> decodes_to(buf@, p),
        r matches Some(p) ==> p.mouth_corner_inout_right as int == le_u32(buf@, 1773)
            && p.mouth_open as int == le_u32(buf@, 1777) && p.mouth_wide as int == le_u32(buf@, 1781)
            && p.eye_left as int == le_u32(buf@, 1729) && p.eye_right as int == le_u32(buf@, 1733),
{
    if buf.len() < PACKET_LEN {
        return None;
    }
    let now = read_u64_at(buf, 0);
    let id = read_i32_at(buf, OFF_ID);
    let width = read_u32_at(buf, OFF_WIDTH);
    let height = read_u32_at(buf, OFF_HEIGHT);
    let eye_blink_right = read_u32_at(buf, OFF_EYE_BLINK_RIGHT);
    let eye_blink_left = read_u32_at(buf, OFF_EYE_BLINK_LEFT);
    let success = buf[OFF_SUCCESS];
    let pnp_error = read_u32_at(buf, OFF_PNP_ERROR);
    let quaternion = read_u32_run(buf, OFF_QUATERNION, 4);
    let euler = read_u32_run(buf, OFF_EULER, 3);
    let translation = read_u32_run(buf, OFF_TRANSLATION, 3);
    let lms_confidence = read_u32_run(buf, OFF_LMS_CONFIDENCE, 68);

    let mut lms: Vec<[u32; 2]> = Vec::new();
    let mut i: usize = 0;
    while i < 68
        invariant
            buf@.len() >= PACKET_LEN,
            i <= 68,
            lms@.len() == i,
            forall|k: int| 0 <= k < i ==> {
                &&& (#[trigger] lms@[k])[1] as int == le_u32(buf@, OFF_LMS + 8 * k)
                &&& lms@[k][0] as int == le_u32(buf@, OFF_LMS + 8 * k + 4)
            },
        decreases 68 - i,
    {
        let y = read_u32_at(buf, OFF_LMS + 8 * i);
        let x = read_u32_at(buf, OFF_LMS + 8 * i + 4);
        lms.push([x, y]);
        i += 1;
    }

    let mut pnp_points: Vec<[u32; 3]> = Vec::new();
    let mut j: usize = 0;
    while j < 70
        invariant
            buf@.len() >= PACKET_LEN,
            j <= 70,
            pnp_points@.len() == j,
            forall|k: int| 0 <= k < j ==> {
                &&& (#[trigger] pnp_points@[k])[0] as int == le_u32(buf@, OFF_PNP_POINTS + 12 * k)
                &&& pnp_points@[k][1] as int == le_u32(buf@, OFF_PNP_POINTS + 12 * k + 4)
                &&& pnp_points@[k][2] as int == le_u32(buf@, OFF_PNP_POINTS + 12 * k + 8)
            },
        decreases 70 - j,
    {
        let a = read_u32_at(buf, OFF_PNP_POINTS + 12 * j);
        let b = read_u32_at(buf, OFF_PNP_POINTS + 12 * j + 4);
        let c = read_u32_at(buf, OFF_PNP_POINTS + 12 * j + 8);
        pnp_points.push([a, b, c]);
        j += 1;
    }

    let f = read_u32_run(buf, OFF_FEATURES, 14);
    let p = Packet {
        now,
        id,
        width,
        height,
        eye_blink_right,
        eye_blink_left,
        success,
        pnp_error,
        quaternion,
        euler,
        translation,
        lms_confidence,
        lms,
        pnp_points,
        eye_left: f[0],
        eye_right: f[1],
        eye_steepness_left: f[2],
        eye_up_down_left: f[3],
        eye_quirk_left: f[4],
        eye_steepness_right: f[5],
        eye_up_down_right: f[6],
        eye_quirk_right: f[7],
        mouth_corner_updown_left: f[8],
        mouth_corner_inout_left: f[9],
        mouth_corner_updown_right: f[10],
        mouth_corner_inout_right: f[11],
        mouth_open: f[12],
        mouth_wide: f[13],
    };
    assert(features(p) =~= f@);
    proof {
        lemma_packet_layout(buf@, p);
    }
    Some(p)
}

/// The fields of a decoded packet sit at fixed offsets of the stream: the
/// timestamp at byte 0, the id at 8, the frame size at 12 and 16, the blink
/// values at 20 and 24, the success flag at 28, the fit error at 29, the head
/// pose from 33, the landmarks from 73, and the fourteen eye and mouth
/// features from 1729, four bytes each, in the order eye_left, eye_right,
/// eye_steepness_left, eye_up_down_left, eye_quirk_left, eye_steepness_right,
/// eye_up_down_right, eye_quirk_right, mouth_corner_updown_left,
/// mouth_corner_inout_left, mouth_corner_updown_right,
/// mouth_corner_inout_right, mouth_open, mouth_wide.
pub proof fn lemma_packet_layout(b: Seq<u8>, p: Packet)
    requires
        decodes_to(b, p),
    ensures
        p.now as int == le_u64(b, 0),
        p.id as int == le_i32(b, 8),
        p.width as int == le_u32(b, 12),
        p.height as int == le_u32(b, 16),
        p.eye_blink_right as int == le_u32(b, 20),
        p.eye_blink_left as int == le_u32(b, 24),
        p.success == b[28],
        p.pnp_error as int == le_u32(b, 29),
        forall|i: int| 0 <= i < 4 ==> #[trigger] p.quaternion@[i] as int == le_u32(b, 33 + 4 * i),
        forall|i: int| 0 <= i < 3 ==> #[trigger] p.euler@[i] as int == le_u32(b, 49 + 4 * i),
        forall|i: int| 0 <= i < 3 ==> #[trigger] p.translation@[i] as int == le_u32(b, 61 + 4 * i),
        forall|i: int| 0 <= i < 68 ==> #[trigger] p.lms_confidence@[i] as int == le_u32(b, 73 + 4 * i),
        forall|i: int| 0 <= i < 68 ==> (#[trigger] p.lms@[i])[1] as int == le_u32(b, 345 + 8 * i),
        forall|i: int| 0 <= i < 68 ==> (#[trigger] p.lms@[i])[0] as int == le_u32(b, 349 + 8 * i),
        forall|i: int| 0 <= i < 70 ==> (#[trigger] p.pnp_points@[i])[0] as int == le_u32(b, 889 + 12 * i),
        forall|i: int| 0 <= i < 70 ==> (#[trigger] p.pnp_points@[i])[1] as int == le_u32(b, 893 + 12 * i),
        forall|i: int| 0 <= i < 70 ==> (#[trigger] p.pnp_points@[i])[2] as int == le_u32(b, 897 + 12 * i),
        p.eye_left as int == le_u32(b, 1729),
        p.eye_right as int == le_u32(b, 1733),
        p.eye_steepness_left as int == le_u32(b, 1737),
        p.eye_up_down_left as int == le_u32(b, 1741),
        p.eye_quirk_left as int == le_u32(b, 1745),
        p.eye_steepness_right as int == le_u32(b, 1749),
        p.eye_up_down_right as int == le_u32(b, 1753),
        p.eye_quirk_right as int == le_u32(b, 1757),
        p.mouth_corner_updown_left as int == le_u32(b, 1761),
        p.mouth_corner_inout_left as int == le_u32(b, 1765),
        p.mouth_corner_updown_right as int == le_u32(b, 1769),
        p.mouth_corner_inout_right as int == le_u32(b, 1773),
        p.mouth_open as int == le_u32(b, 1777),
        p.mouth_wide as int == le_u32(b, 1781),
{
    let f = features(p);
    assert(f[0] as int == le_u32(b, 1729int));
    assert(f[1] as int == le_u32(b, (1729 + 4 * 1) as int));
    assert(f[2] as int == le_u32(b, (1729 + 4 * 2) as int));
    assert(f[3] as int == le_u32(b, (1729 + 4 * 3) as int));
    assert(f[4] as int == le_u32(b, (1729 + 4 * 4) as int));
    assert(f[5] as int == le_u32(b, (1729 + 4 * 5) as int));
    assert(f[6] as int == le_u32(b, (1729 + 4 * 6) as int));
    assert(f[7] as int == le_u32(b, (1729 + 4 * 7) as int));
    assert(f[8] as int == le_u32(b, (1729 + 4 * 8) as int));
    assert(f[9] as int == le_u32(b, (1729 + 4 * 9) as int));
    assert(f[10] as int == le_u32(b, (1729 + 4 * 10) as int));
    assert(f[11] as int == le_u32(b, (1729 + 4 * 11) as int));
    assert(f[12] as int == le_u32(b, (1729 + 4 * 12) as int));
    assert(f[13] as int == le_u32(b, (1729 + 4 * 13) as int));
}

/// Only the first `PACKET_LEN` bytes of a buffer make the packet: bytes after
/// them change nothing.
pub proof fn lemma_packet_ignores_trailing_bytes(b1: Seq<u8>, b2: Seq<u8>, p: Packet)
    requires
        b1.len() >= PACKET_LEN,
        b2.len() >= PACKET_LEN,
        b1.subrange(0, PACKET_LEN as int) == b2.subrange(0, PACKET_LEN as int),
    ensures
        decodes_to(b1, p) == decodes_to(b2, p),
{
    assert forall|i: int| 0 <= i < PACKET_LEN implies #[trigger] b1[i] == b2[i] by {
        assert(b1[i] == b1.subrange(0, PACKET_LEN as int)[i]);
        assert(b2[i] == b2.subrange(0, PACKET_LEN as int)[i]);
    }
}

} // verus!
