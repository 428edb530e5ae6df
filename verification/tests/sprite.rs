use cj2k26::color::Palette;
use cj2k26::geom::IVec2;
use cj2k26::gfx::FRAME_LEN;
use cj2k26::sprite::{find_layer, AseCel, AseLayer, Sprite};

fn layers() -> Vec<AseLayer> {
    vec![
        AseLayer { name: "bg".to_string(), cel: None },
        AseLayer {
            name: "player".to_string(),
            cel: Some(AseCel { width: 2, height: 1, data: vec![3, 4] }),
        },
        AseLayer {
            name: "player".to_string(),
            cel: Some(AseCel { width: 1, height: 1, data: vec![9] }),
        },
    ]
}

#[test]
fn find_layer_first_match() {
    let l = layers();
    assert_eq!(find_layer(&l, "player"), Some(1));
    assert_eq!(find_layer(&l, "bg"), Some(0));
    assert_eq!(find_layer(&l, "enemy0"), None);
}

#[test]
fn sprite_from_ase_takes_first_layer() {
    let s = Sprite::from_ase(&layers(), "player");
    assert_eq!(s.size, IVec2::new(2, 1));
    assert_eq!(s.pixels(), &[3, 4]);
}

#[test]
fn sprite_new_and_clone() {
    let s = Sprite::new(3, 2, vec![1, 2, 3, 4, 5, 6]);
    let t = s.clone();
    assert_eq!(t.size, IVec2::new(3, 2));
    assert_eq!(t.pixels(), &[1, 2, 3, 4, 5, 6]);
}

#[test]
fn sprite_draw_at() {
    let mut pal = Palette::new();
    pal.set(3, 0x030303);
    pal.set(4, 0x040404);
    let s = Sprite::new(2, 1, vec![3, 4]);
    let mut frame = vec![0u8; FRAME_LEN];
    s.draw_at(&mut frame, &pal, IVec2::new(100, 50));
    assert_eq!(frame[(50 * 240 + 100) * 4], 3);
    assert_eq!(frame[(50 * 240 + 101) * 4], 4);
}

#[test]
fn sprite_draw_at_negative_width() {
    let mut pal = Palette::new();
    pal.set(3, 0x030303);
    pal.set(4, 0x040404);
    // width -1: one pixel per row, rows laid upward from the corner
    let s = Sprite::new(-1, 2, vec![3, 4]);
    let mut frame = vec![0u8; FRAME_LEN];
    s.draw_at(&mut frame, &pal, IVec2::new(100, 50));
    assert_eq!(frame[(50 * 240 + 100) * 4], 3);
    assert_eq!(frame[(49 * 240 + 100) * 4], 4);
    assert_eq!(frame[(51 * 240 + 100) * 4], 0);
}
