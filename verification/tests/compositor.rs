use chip8::compositor::{Compositor, OFF_COLOR, ON_COLOR};
use chip8::display::{FrameBuffer, DISPLAY_WIDTH, PIXELS};

fn changed_indices(before: &[u32], after: &[u32]) -> Vec<usize> {
    (0..before.len()).filter(|&i| before[i] != after[i]).collect()
}

#[test]
fn colors_are_green_on_black() {
    assert_eq!(ON_COLOR, 0x00FF00);
    assert_eq!(OFF_COLOR, 0);
}

#[test]
fn a_new_compositor_shows_a_dark_display() {
    let compositor = Compositor::new();
    assert_eq!(compositor.colors().len(), PIXELS);
    assert!(compositor.colors().iter().all(|&color| color == OFF_COLOR));
}

#[test]
fn one_changed_pixel_changes_one_color() {
    let mut frame = FrameBuffer::new();
    let mut compositor = Compositor::new();
    compositor.composite(&frame);
    let before = compositor.colors().clone();
    frame.draw_sprite(&[0x80], 13, 5);
    compositor.composite(&frame);
    let after = compositor.colors().clone();
    assert_eq!(changed_indices(&before, &after), vec![5 * DISPLAY_WIDTH + 13]);
    assert_eq!(after[5 * DISPLAY_WIDTH + 13], ON_COLOR);
}

#[test]
fn compositing_again_changes_nothing() {
    let mut frame = FrameBuffer::new();
    let mut compositor = Compositor::new();
    frame.draw_sprite(&[0x80], 13, 5);
    compositor.composite(&frame);
    let first = compositor.colors().clone();
    compositor.composite(&frame);
    assert_eq!(*compositor.colors(), first);
}

#[test]
fn a_pixel_turned_off_takes_the_off_color() {
    let mut frame = FrameBuffer::new();
    let mut compositor = Compositor::new();
    frame.draw_sprite(&[0xC0], 0, 0);
    compositor.composite(&frame);
    assert_eq!(compositor.colors()[0], ON_COLOR);
    assert_eq!(compositor.colors()[1], ON_COLOR);
    let before = compositor.colors().clone();
    frame.draw_sprite(&[0x80], 0, 0);
    compositor.composite(&frame);
    assert_eq!(changed_indices(&before, compositor.colors()), vec![0]);
    assert_eq!(compositor.colors()[0], OFF_COLOR);
    assert_eq!(compositor.colors()[1], ON_COLOR);
}

#[test]
fn color_indices_follow_the_packing_order() {
    for column in 0..8 {
        let mut frame = FrameBuffer::new();
        let mut compositor = Compositor::new();
        frame.draw_sprite(&[0x80 >> column], 0, 0);
        compositor.composite(&frame);
        let lit: Vec<usize> =
            (0..PIXELS).filter(|&i| compositor.colors()[i] == ON_COLOR).collect();
        assert_eq!(lit, vec![column]);
    }
}

#[test]
fn every_color_matches_its_pixel() {
    let mut frame = FrameBuffer::new();
    let mut compositor = Compositor::new();
    frame.draw_sprite(&[0xF0, 0x90, 0x90, 0x90, 0xF0], 61, 29);
    frame.draw_sprite(&[0xAA, 0x55], 3, 0);
    compositor.composite(&frame);
    frame.draw_sprite(&[0xFF, 0x18], 5, 1);
    compositor.composite(&frame);
    for i in 0..PIXELS {
        let on = frame.pixel(i % DISPLAY_WIDTH, i / DISPLAY_WIDTH);
        assert_eq!(compositor.colors()[i], if on { ON_COLOR } else { OFF_COLOR });
    }
}

#[test]
fn changes_between_composites_that_cancel_out_repaint_nothing() {
    let mut frame = FrameBuffer::new();
    let mut compositor = Compositor::new();
    frame.draw_sprite(&[0xFF], 8, 8);
    compositor.composite(&frame);
    let before = compositor.colors().clone();
    frame.draw_sprite(&[0x3C], 10, 8);
    frame.draw_sprite(&[0x3C], 10, 8);
    compositor.composite(&frame);
    assert!(changed_indices(&before, compositor.colors()).is_empty());
}

#[test]
fn the_last_pixel_has_the_last_index() {
    let mut frame = FrameBuffer::new();
    let mut compositor = Compositor::new();
    frame.draw_sprite(&[0x80], 63, 31);
    compositor.composite(&frame);
    let lit: Vec<usize> = (0..PIXELS).filter(|&i| compositor.colors()[i] == ON_COLOR).collect();
    assert_eq!(lit, vec![PIXELS - 1]);
}
