use cj2k26::color::Palette;
use cj2k26::geom::IVec2;
use cj2k26::gfx::FRAME_LEN;
use cj2k26::tilemap::{Tilemap, Tileset};

#[test]
fn tileset_tiles() {
    let t = Tileset::new(2, 1, vec![1, 2, 3, 4, 5, 6]);
    assert_eq!(t.tile(0), &[1, 2]);
    assert_eq!(t.tile(2), &[5, 6]);
}

#[test]
fn tilemap_draws_each_cell() {
    let mut pal = Palette::new();
    pal.set(1, 0x010101);
    pal.set(2, 0x020202);
    let t = Tileset::new(1, 1, vec![0, 1, 2]);
    let m = Tilemap::new(IVec2::new(3, 4), 2, 2, vec![1, 2, 0, 1], t);
    let mut frame = vec![0u8; FRAME_LEN];
    m.draw(&mut frame, &pal);
    let px = |x: usize, y: usize| frame[(y * 240 + x) * 4];
    assert_eq!(px(3, 4), 1);
    assert_eq!(px(4, 4), 2);
    assert_eq!(px(3, 5), 0);
    assert_eq!(px(4, 5), 1);
}

#[test]
fn tilemap_with_wide_tiles() {
    let mut pal = Palette::new();
    pal.set(7, 0x070707);
    let t = Tileset::new(2, 2, vec![7, 7, 7, 7]);
    let m = Tilemap::new(IVec2::new(0, 0), 1, 2, vec![0, 0], t);
    let mut frame = vec![0u8; FRAME_LEN];
    m.draw(&mut frame, &pal);
    let px = |x: usize, y: usize| frame[(y * 240 + x) * 4];
    for y in 0..4 {
        assert_eq!(px(0, y), 7);
        assert_eq!(px(1, y), 7);
        assert_eq!(px(2, y), 0);
    }
    assert_eq!(px(0, 4), 0);
}

#[test]
fn tilemap_negative_cols_lays_rows_upward() {
    let mut pal = Palette::new();
    pal.set(1, 0x010101);
    pal.set(2, 0x020202);
    let t = Tileset::new(1, 1, vec![0, 1, 2]);
    // cols -2: cell c sits at column c % 2, row -(c / 2)
    let m = Tilemap::new(IVec2::new(3, 4), -2, -2, vec![1, 2, 2, 1], t);
    let mut frame = vec![0u8; FRAME_LEN];
    m.draw(&mut frame, &pal);
    let px = |x: usize, y: usize| frame[(y * 240 + x) * 4];
    assert_eq!(px(3, 4), 1);
    assert_eq!(px(4, 4), 2);
    assert_eq!(px(3, 3), 2);
    assert_eq!(px(4, 3), 1);
    assert_eq!(px(3, 5), 0);
}

#[test]
fn tilemap_negative_tile_size_lays_tiles_leftward() {
    let mut pal = Palette::new();
    pal.set(5, 0x050505);
    pal.set(6, 0x060606);
    // tiles -2 by -1: two pixels per tile, laid leftward from each corner
    let t = Tileset::new(-2, -1, vec![5, 6]);
    let m = Tilemap::new(IVec2::new(10, 10), 2, 1, vec![0, 0], t);
    let mut frame = vec![0u8; FRAME_LEN];
    m.draw(&mut frame, &pal);
    let px = |x: usize, y: usize| frame[(y * 240 + x) * 4];
    // cell 0 at x = 10, cell 1 at x = 10 + 1 * -2 = 8; each tile's pixel i
    // sits at column i % -2 = i and row i / -2 = 0
    assert_eq!(px(10, 10), 5);
    assert_eq!(px(11, 10), 6);
    assert_eq!(px(8, 10), 5);
    assert_eq!(px(9, 10), 6);
}
