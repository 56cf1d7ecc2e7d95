use live_ascii::tracker::{parse_packet, PACKET_LEN};

fn f(buf: &mut Vec<u8>, x: f32) {
    buf.extend_from_slice(&x.to_le_bytes());
}

fn sample_bytes() -> Vec<u8> {
    let mut b = Vec::new();
    b.extend_from_slice(&12.5f64.to_le_bytes());
    b.extend_from_slice(&(-7i32).to_le_bytes());
    f(&mut b, 640.0);
    f(&mut b, 480.0);
    f(&mut b, 0.25);
    f(&mut b, 0.75);
    b.push(1);
    f(&mut b, 0.125);
    for i in 0..4 {
        f(&mut b, i as f32);
    }
    for i in 0..3 {
        f(&mut b, 10.0 + i as f32);
    }
    for i in 0..3 {
        f(&mut b, 20.0 + i as f32);
    }
    for i in 0..68 {
        f(&mut b, 100.0 + i as f32);
    }
    for i in 0..68 {
        f(&mut b, 1000.0 + i as f32);
        f(&mut b, 2000.0 + i as f32);
    }
    for i in 0..70 {
        f(&mut b, 3000.0 + i as f32);
        f(&mut b, 4000.0 + i as f32);
        f(&mut b, 5000.0 + i as f32);
    }
    for i in 0..14 {
        f(&mut b, 0.5 + i as f32);
    }
    b
}

#[test]
fn packet_length() {
    assert_eq!(sample_bytes().len(), PACKET_LEN);
}

#[test]
fn parses_every_field() {
    let b = sample_bytes();
    let p = parse_packet(&b).unwrap();
    assert_eq!(f64::from_bits(p.now), 12.5);
    assert_eq!(p.id, -7);
    assert_eq!(f32::from_bits(p.width), 640.0);
    assert_eq!(f32::from_bits(p.height), 480.0);
    assert_eq!(f32::from_bits(p.eye_blink_right), 0.25);
    assert_eq!(f32::from_bits(p.eye_blink_left), 0.75);
    assert_eq!(p.success, 1);
    assert_eq!(f32::from_bits(p.pnp_error), 0.125);
    assert_eq!(p.quaternion.iter().map(|x| f32::from_bits(*x)).collect::<Vec<_>>(), vec![0.0, 1.0, 2.0, 3.0]);
    assert_eq!(f32::from_bits(p.euler[2]), 12.0);
    assert_eq!(f32::from_bits(p.translation[0]), 20.0);
    assert_eq!(f32::from_bits(p.lms_confidence[67]), 167.0);
    assert_eq!(f32::from_bits(p.lms[5][1]), 1005.0);
    assert_eq!(f32::from_bits(p.lms[5][0]), 2005.0);
    assert_eq!(f32::from_bits(p.pnp_points[69][0]), 3069.0);
    assert_eq!(f32::from_bits(p.pnp_points[69][2]), 5069.0);
    assert_eq!(f32::from_bits(p.eye_left), 0.5);
    assert_eq!(f32::from_bits(p.eye_quirk_right), 7.5);
    assert_eq!(f32::from_bits(p.mouth_wide), 13.5);
}

#[test]
fn short_buffers_give_none_and_extra_bytes_are_ignored() {
    let b = sample_bytes();
    assert!(parse_packet(&b[..PACKET_LEN - 1]).is_none());
    assert!(parse_packet(&[]).is_none());
    let mut longer = b.clone();
    longer.extend_from_slice(&[9, 9, 9]);
    assert_eq!(parse_packet(&longer), parse_packet(&b));
}
