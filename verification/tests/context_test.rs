use live_ascii::context::Context;

#[test]
fn new_context_is_empty() {
    let c = Context::new(true);
    assert_eq!(c.width, 0);
    assert_eq!(c.height, 0);
    assert!(c.frame_buffer.is_empty());
    assert!(c.image);
}

#[test]
fn resize_pads_with_blank_cells_and_keeps_old_ones() {
    let mut c = Context::new(false);
    c.resize(3, 2);
    assert_eq!(c.frame_buffer, vec![(' ', (0, 0, 0)); 6]);
    c.set_pixel(1, 1, '#', (1, 2, 3));
    c.resize(4, 2);
    assert_eq!(c.frame_buffer.len(), 8);
    assert_eq!(c.frame_buffer[4], ('#', (1, 2, 3)));
    c.resize(2, 1);
    assert_eq!(c.frame_buffer.len(), 2);
    c.resize(2, 1);
    assert_eq!(c.frame_buffer.len(), 2);
}

#[test]
fn set_pixel_writes_the_addressed_cell_only() {
    let mut c = Context::new(false);
    c.resize(4, 3);
    c.set_pixel(2, 1, '@', (10, 20, 30));
    assert_eq!(c.frame_buffer[2 + 4], ('@', (10, 20, 30)));
    assert_eq!(c.frame_buffer.iter().filter(|p| p.0 == '@').count(), 1);
    let before = c.frame_buffer.clone();
    c.set_pixel(4, 0, 'x', (0, 0, 0));
    c.set_pixel(0, 3, 'x', (0, 0, 0));
    assert_eq!(c.frame_buffer, before);
}

#[test]
fn clear_blanks_every_cell() {
    let mut c = Context::new(false);
    c.resize(2, 2);
    c.set_pixel(0, 0, 'a', (9, 9, 9));
    c.set_pixel(1, 1, 'b', (9, 9, 9));
    c.clear();
    assert_eq!(c.frame_buffer, vec![(' ', (0, 0, 0)); 4]);
}

#[test]
fn frame_chars_lists_the_characters() {
    let mut c = Context::new(false);
    c.resize(3, 1);
    c.set_pixel(0, 0, 'h', (0, 0, 0));
    c.set_pixel(1, 0, 'i', (0, 0, 0));
    let s: String = c.frame_chars().into_iter().collect();
    assert_eq!(s, "hi ");
}

#[test]
fn set_pixel_on_a_large_frame() {
    let mut c = Context { width: 300, height: 300, frame_buffer: vec![(' ', (0, 0, 0)); 90000], image: false };
    c.set_pixel(0, 0, '#', (1, 2, 3));
    assert_eq!(c.frame_buffer[0], ('#', (1, 2, 3)));
    c.set_pixel(300, 0, '@', (1, 2, 3));
    assert!(c.frame_buffer[1..].iter().all(|p| *p == (' ', (0, 0, 0))));
    let mut d = Context { width: 256, height: 256, frame_buffer: vec![(' ', (0, 0, 0)); 65536], image: false };
    d.set_pixel(255, 255, 'x', (9, 9, 9));
    assert_eq!(d.frame_buffer[65535], ('x', (9, 9, 9)));
}
