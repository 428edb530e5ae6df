use cj2k26::color::{from_rgb, to_rgb, AseColor, Palette};

#[test]
fn to_rgb_splits_bytes() {
    assert_eq!(to_rgb(0x12_34_56), [0x12, 0x34, 0x56]);
    assert_eq!(to_rgb(0xFF_12_34_56), [0x12, 0x34, 0x56]);
}

#[test]
fn from_rgb_packs_bytes() {
    assert_eq!(from_rgb(0x12, 0x34, 0x56), 0x12_34_56);
    assert_eq!(from_rgb(0xFF, 0xFF, 0xFF), 0xFF_FF_FF);
}

#[test]
fn rgb_round_trip() {
    let c = from_rgb(1, 2, 3);
    assert_eq!(to_rgb(c), [1, 2, 3]);
}

#[test]
fn new_palette_is_black() {
    let p = Palette::new();
    for i in 0..=255u8 {
        assert_eq!(p.at(i), 0);
    }
    let d = Palette::default();
    assert_eq!(d.at(200), 0);
}

#[test]
fn set_then_at() {
    let mut p = Palette::new();
    p.set(7, 0xABCDEF);
    assert_eq!(p.at(7), 0xABCDEF);
    assert_eq!(p.at(6), 0);
    assert_eq!(p.rgb(7), [0xAB, 0xCD, 0xEF]);
}

#[test]
fn cycle_wraps_around() {
    let mut p = Palette::new();
    p.set(1, 0x111111);
    p.set(10, 0x222222);
    assert_eq!(p.cycle(255, 2), 0x111111);
    assert_eq!(p.cycle(5, 5), 0x222222);
    assert_eq!(p.cycle(10, 0), 0x222222);
}

#[test]
fn index_of_finds_first() {
    let mut p = Palette::new();
    p.set(3, 0x00FF00);
    p.set(9, 0x00FF00);
    assert_eq!(p.index_of(0x00FF00), Some(3));
    assert_eq!(p.index_of(0), Some(0));
    assert_eq!(p.index_of(0x123456), None);
}

#[test]
fn palette_from_ase_short() {
    let src = [
        AseColor { r: 0xFF, g: 0, b: 0 },
        AseColor { r: 0, g: 0x80, b: 0x40 },
    ];
    let p = Palette::from_ase(&src);
    assert_eq!(p.at(0), 0xFF0000);
    assert_eq!(p.at(1), 0x008040);
    assert_eq!(p.at(2), 0);
    assert_eq!(p.at(255), 0);
}

#[test]
fn palette_from_ase_long() {
    let src: Vec<AseColor> = (0..300u32)
        .map(|i| AseColor { r: (i % 256) as u8, g: 1, b: 2 })
        .collect();
    let p = Palette::from_ase(&src);
    assert_eq!(p.at(0), 0x000102);
    assert_eq!(p.at(255), 0xFF0102);
}

#[test]
fn palette_is_copy() {
    let mut p = Palette::new();
    p.set(4, 9);
    let q = p;
    p.set(4, 10);
    assert_eq!(q.at(4), 9);
    assert_eq!(p.at(4), 10);
}
