use cj2k26::color::Palette;
use cj2k26::geom::IVec2;
use cj2k26::gfx::{blit, blit_at, clear, FRAME_LEN};

fn palette() -> Palette {
    let mut p = Palette::new();
    p.set(1, 0x102030);
    p.set(2, 0x405060);
    p
}

fn pixel(frame: &[u8], x: usize, y: usize) -> [u8; 4] {
    let i = (y * 240 + x) * 4;
    [frame[i], frame[i + 1], frame[i + 2], frame[i + 3]]
}

#[test]
fn clear_fills_whole_pixels() {
    let mut frame = vec![7u8; 10];
    clear(&mut frame, [1, 2, 3]);
    assert_eq!(frame, vec![1, 2, 3, 0xFF, 1, 2, 3, 0xFF, 7, 7]);
}

#[test]
fn clear_empty_frame() {
    let mut frame: Vec<u8> = Vec::new();
    clear(&mut frame, [1, 2, 3]);
    assert!(frame.is_empty());
}

#[test]
fn blit_draws_opaque_pixels() {
    let mut frame = vec![0u8; FRAME_LEN];
    let pal = palette();
    // 2x2 sprite: transparent, colour 1 / colour 2, colour 1
    let pixels = [0u8, 1, 2, 1];
    blit(&mut frame, &pal, &pixels, IVec2::new(10, 20), 2);
    assert_eq!(pixel(&frame, 10, 20), [0, 0, 0, 0]);
    assert_eq!(pixel(&frame, 11, 20), [0x10, 0x20, 0x30, 0]);
    assert_eq!(pixel(&frame, 10, 21), [0x40, 0x50, 0x60, 0]);
    assert_eq!(pixel(&frame, 11, 21), [0x10, 0x20, 0x30, 0]);
    assert_eq!(pixel(&frame, 12, 20), [0, 0, 0, 0]);
}

#[test]
fn blit_keeps_alpha_and_transparent_background() {
    let mut frame = vec![9u8; FRAME_LEN];
    let pal = palette();
    blit(&mut frame, &pal, &[1, 0, 0, 0], IVec2::new(0, 0), 2);
    assert_eq!(pixel(&frame, 0, 0), [0x10, 0x20, 0x30, 9]);
    assert_eq!(pixel(&frame, 1, 0), [9, 9, 9, 9]);
    assert_eq!(pixel(&frame, 0, 1), [9, 9, 9, 9]);
}

#[test]
fn blit_clips_to_screen() {
    let mut frame = vec![0u8; FRAME_LEN];
    let pal = palette();
    blit(&mut frame, &pal, &[1, 2, 2, 1], IVec2::new(-1, -1), 2);
    // only the bottom-right pixel lands on screen
    assert_eq!(pixel(&frame, 0, 0), [0x10, 0x20, 0x30, 0]);
    assert_eq!(frame.iter().filter(|&&b| b != 0).count(), 3);

    let mut frame = vec![0u8; FRAME_LEN];
    blit(&mut frame, &pal, &[1, 1], IVec2::new(239, 159), 2);
    assert_eq!(pixel(&frame, 239, 159), [0x10, 0x20, 0x30, 0]);
    assert_eq!(frame.iter().filter(|&&b| b != 0).count(), 3);
}

#[test]
fn blit_off_screen_changes_nothing() {
    let mut frame = vec![0u8; FRAME_LEN];
    let pal = palette();
    blit(&mut frame, &pal, &[1, 1, 1, 1], IVec2::new(240, 0), 2);
    blit(&mut frame, &pal, &[1, 1, 1, 1], IVec2::new(0, -2), 2);
    blit_at(&mut frame, &pal, &[1, 1], 1 << 40, 0, 1);
    assert!(frame.iter().all(|&b| b == 0));
}

#[test]
fn blit_rows_wrap_by_width() {
    let mut frame = vec![0u8; FRAME_LEN];
    let pal = palette();
    blit(&mut frame, &pal, &[1, 2, 1], IVec2::new(5, 5), 1);
    assert_eq!(pixel(&frame, 5, 5), [0x10, 0x20, 0x30, 0]);
    assert_eq!(pixel(&frame, 5, 6), [0x40, 0x50, 0x60, 0]);
    assert_eq!(pixel(&frame, 5, 7), [0x10, 0x20, 0x30, 0]);
}

#[test]
fn blit_negative_width_lays_rows_upward() {
    let mut frame = vec![0u8; FRAME_LEN];
    let pal = palette();
    // width -2: pixel i lands at column i % 2, row -(i / 2) from the corner
    let pixels = [1u8, 2, 2, 1];
    blit(&mut frame, &pal, &pixels, IVec2::new(10, 20), -2);
    assert_eq!(pixel(&frame, 10, 20), [0x10, 0x20, 0x30, 0]);
    assert_eq!(pixel(&frame, 11, 20), [0x40, 0x50, 0x60, 0]);
    assert_eq!(pixel(&frame, 10, 19), [0x40, 0x50, 0x60, 0]);
    assert_eq!(pixel(&frame, 11, 19), [0x10, 0x20, 0x30, 0]);
    assert_eq!(pixel(&frame, 10, 21), [0, 0, 0, 0]);
}

#[test]
fn blit_negative_width_clipped_at_top() {
    let mut frame = vec![0u8; FRAME_LEN];
    let pal = palette();
    // the second row would land at y = -1 and is clipped
    blit(&mut frame, &pal, &[1u8, 1], IVec2::new(0, 0), -1);
    assert_eq!(pixel(&frame, 0, 0), [0x10, 0x20, 0x30, 0]);
    assert!(frame[4..].iter().all(|&b| b == 0));
}

#[test]
fn blit_zero_width_transparent_draws_nothing() {
    let mut frame = vec![9u8; FRAME_LEN];
    let pal = palette();
    blit(&mut frame, &pal, &[0u8, 0, 0], IVec2::new(5, 5), 0);
    assert!(frame.iter().all(|&b| b == 9));
}

#[test]
fn blit_into_short_frame() {
    // only the first screen pixel is painted, so a two-pixel frame holds it
    let mut frame = vec![0u8; 8];
    let pal = palette();
    blit(&mut frame, &pal, &[1u8, 0], IVec2::new(0, 0), 2);
    assert_eq!(frame, vec![0x10, 0x20, 0x30, 0, 0, 0, 0, 0]);
}
