use chip8::display::{FrameBuffer, DISPLAY_HEIGHT, DISPLAY_WIDTH, FRAME_BYTES, PIXELS, STRIDE};

fn lit_pixels(frame: &FrameBuffer) -> Vec<(usize, usize)> {
    let mut lit = Vec::new();
    for y in 0..DISPLAY_HEIGHT {
        for x in 0..DISPLAY_WIDTH {
            if frame.pixel(x, y) {
                lit.push((x, y));
            }
        }
    }
    lit
}

#[test]
fn display_dimensions() {
    assert_eq!(DISPLAY_WIDTH, 64);
    assert_eq!(DISPLAY_HEIGHT, 32);
    assert_eq!(PIXELS, 2048);
    assert_eq!(STRIDE, 8);
    assert_eq!(FRAME_BYTES, 256);
}

#[test]
fn a_new_frame_buffer_is_dark() {
    let frame = FrameBuffer::new();
    assert!(lit_pixels(&frame).is_empty());
    assert!(frame.as_bytes().iter().all(|&byte| byte == 0));
}

#[test]
fn positions_outside_the_display_hold_no_pixel() {
    let mut frame = FrameBuffer::new();
    frame.draw_sprite(&[0xFF], 56, 31);
    assert!(frame.pixel(63, 31));
    assert!(!frame.pixel(64, 31));
    assert!(!frame.pixel(63, 32));
    assert!(!frame.pixel(usize::MAX, usize::MAX));
}

#[test]
fn an_aligned_sprite_byte_lands_in_one_buffer_byte() {
    let mut frame = FrameBuffer::new();
    let collision = frame.draw_sprite(&[0b1010_0001], 8, 2);
    assert!(!collision);
    assert_eq!(lit_pixels(&frame), vec![(8, 2), (10, 2), (15, 2)]);
    assert_eq!(frame.as_bytes()[2 * 8 + 1], 0b1010_0001);
}

#[test]
fn the_most_significant_bit_is_the_leftmost_pixel() {
    let mut frame = FrameBuffer::new();
    frame.draw_sprite(&[0x80], 0, 0);
    assert_eq!(lit_pixels(&frame), vec![(0, 0)]);
    frame.draw_sprite(&[0x01], 0, 1);
    assert_eq!(lit_pixels(&frame), vec![(0, 0), (7, 1)]);
}

#[test]
fn an_unaligned_sprite_byte_spans_two_buffer_bytes() {
    let mut frame = FrameBuffer::new();
    let collision = frame.draw_sprite(&[0xFF], 3, 0);
    assert!(!collision);
    assert_eq!(
        lit_pixels(&frame),
        vec![(3, 0), (4, 0), (5, 0), (6, 0), (7, 0), (8, 0), (9, 0), (10, 0)]
    );
    assert_eq!(frame.as_bytes()[0], 0b0001_1111);
    assert_eq!(frame.as_bytes()[1], 0b1110_0000);
}

#[test]
fn bits_outside_the_sprite_window_are_left_untouched() {
    let mut frame = FrameBuffer::new();
    frame.draw_sprite(&[0xFF], 0, 0);
    frame.draw_sprite(&[0xFF], 8, 0);
    let collision = frame.draw_sprite(&[0b1000_0001], 4, 0);
    assert!(collision);
    assert_eq!(frame.as_bytes()[0], 0b1111_0111);
    assert_eq!(frame.as_bytes()[1], 0b1110_1111);
}

#[test]
fn a_sprite_of_several_rows_goes_down_the_display() {
    let mut frame = FrameBuffer::new();
    frame.draw_sprite(&[0xF0, 0x90, 0x90, 0x90, 0xF0], 10, 5);
    let expected = vec![
        (10, 5), (11, 5), (12, 5), (13, 5),
        (10, 6), (13, 6),
        (10, 7), (13, 7),
        (10, 8), (13, 8),
        (10, 9), (11, 9), (12, 9), (13, 9),
    ];
    assert_eq!(lit_pixels(&frame), expected);
}

#[test]
fn drawing_twice_restores_the_frame_and_collides() {
    let mut frame = FrameBuffer::new();
    frame.draw_sprite(&[0x3C, 0xC3], 20, 10);
    let before = *frame.as_bytes();
    let sprite = [0xF0, 0x0F, 0xAA];
    let first = frame.draw_sprite(&sprite, 21, 9);
    assert!(first);
    assert_ne!(*frame.as_bytes(), before);
    let second = frame.draw_sprite(&sprite, 21, 9);
    assert!(second);
    assert_eq!(*frame.as_bytes(), before);
}

#[test]
fn drawing_twice_on_a_dark_display_collides_the_second_time_only() {
    let mut frame = FrameBuffer::new();
    let sprite = [0x81];
    assert!(!frame.draw_sprite(&sprite, 5, 5));
    assert!(frame.draw_sprite(&sprite, 5, 5));
    assert!(lit_pixels(&frame).is_empty());
}

#[test]
fn an_empty_sprite_row_never_collides() {
    let mut frame = FrameBuffer::new();
    frame.draw_sprite(&[0xFF], 0, 0);
    assert!(!frame.draw_sprite(&[0x00], 0, 0));
    assert!(!frame.draw_sprite(&[], 0, 0));
    assert_eq!(frame.as_bytes()[0], 0xFF);
}

#[test]
fn collision_needs_a_pixel_that_was_on_under_a_set_bit() {
    let mut frame = FrameBuffer::new();
    frame.draw_sprite(&[0b1010_1010], 0, 0);
    assert!(!frame.draw_sprite(&[0b0101_0101], 0, 0));
    assert_eq!(frame.as_bytes()[0], 0xFF);
    assert!(frame.draw_sprite(&[0b0000_0001], 0, 0));
    assert_eq!(frame.as_bytes()[0], 0xFE);
}

#[test]
fn collision_in_the_second_touched_byte_is_seen() {
    let mut frame = FrameBuffer::new();
    frame.draw_sprite(&[0x80], 8, 0);
    assert!(frame.draw_sprite(&[0x01], 1, 0));
    assert!(lit_pixels(&frame).is_empty());
}

#[test]
fn a_sprite_past_the_right_edge_is_clipped() {
    let mut frame = FrameBuffer::new();
    let collision = frame.draw_sprite(&[0xFF], 60, 3);
    assert!(!collision);
    assert_eq!(lit_pixels(&frame), vec![(60, 3), (61, 3), (62, 3), (63, 3)]);
    for x in 0..8 {
        assert!(!frame.pixel(x, 3));
        assert!(!frame.pixel(x, 4));
    }
    assert_eq!(frame.as_bytes()[3 * 8 + 7], 0x0F);
    assert_eq!(frame.as_bytes()[4 * 8], 0x00);
}

#[test]
fn clipped_bits_do_not_collide_with_the_next_row() {
    let mut frame = FrameBuffer::new();
    frame.draw_sprite(&[0xFF], 0, 4);
    let collision = frame.draw_sprite(&[0x0F], 60, 3);
    assert!(!collision);
    assert_eq!(frame.as_bytes()[4 * 8], 0xFF);
    assert_eq!(lit_pixels(&frame).len(), 8);
}

#[test]
fn a_sprite_in_the_last_row_and_column_stays_inside_the_buffer() {
    let mut frame = FrameBuffer::new();
    let collision = frame.draw_sprite(&[0xFF, 0xFF], 63, 31);
    assert!(!collision);
    assert_eq!(lit_pixels(&frame), vec![(63, 31)]);
    assert_eq!(frame.as_bytes()[255], 0x01);
    assert_eq!(frame.as_bytes()[0], 0x00);
}

#[test]
fn a_sprite_past_the_bottom_edge_is_clipped() {
    let mut frame = FrameBuffer::new();
    frame.draw_sprite(&[0x80, 0x80, 0x80, 0x80], 0, 30);
    assert_eq!(lit_pixels(&frame), vec![(0, 30), (0, 31)]);
}

#[test]
fn a_sprite_placed_outside_the_display_draws_nothing() {
    let mut frame = FrameBuffer::new();
    assert!(!frame.draw_sprite(&[0xFF], 64, 0));
    assert!(!frame.draw_sprite(&[0xFF], 0, 32));
    assert!(!frame.draw_sprite(&[0xFF], usize::MAX, usize::MAX));
    assert!(lit_pixels(&frame).is_empty());
}

#[test]
fn a_sprite_longer_than_the_display_is_clipped() {
    let mut frame = FrameBuffer::new();
    let sprite = [0x80u8; 40];
    frame.draw_sprite(&sprite, 0, 0);
    assert_eq!(lit_pixels(&frame).len(), 32);
}

#[test]
fn clear_turns_every_pixel_off() {
    let mut frame = FrameBuffer::new();
    frame.draw_sprite(&[0xFF, 0xFF, 0xFF], 13, 7);
    frame.draw_sprite(&[0xFF], 60, 31);
    frame.clear();
    assert!(lit_pixels(&frame).is_empty());
    assert!(frame.as_bytes().iter().all(|&byte| byte == 0));
}

#[test]
fn every_offset_flips_exactly_the_set_bits() {
    for x in 0..DISPLAY_WIDTH {
        let mut frame = FrameBuffer::new();
        frame.draw_sprite(&[0b1100_0101], x, 1);
        let mut expected = Vec::new();
        for column in [0usize, 1, 5, 7] {
            if x + column < DISPLAY_WIDTH {
                expected.push((x + column, 1));
            }
        }
        assert_eq!(lit_pixels(&frame), expected);
    }
}
