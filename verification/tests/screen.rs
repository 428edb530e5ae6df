use cj2k26::geom::IVec2;
use cj2k26::screen::Screen;

#[test]
fn new_screen_is_empty() {
    let s: Screen<u8> = Screen::new();
    assert!(s.sprites.is_empty());
    assert!(s.tilemaps.is_empty());
    assert!(s.window.is_none());
    assert_eq!(s.palette.at(10), 0);
    assert!(!s.grid.aabb(IVec2::new(0, 0), IVec2::new(10, 10)));
    let t = s.clone();
    assert!(t.window.is_none());
    let d: Screen<u8> = Screen::default();
    assert!(d.sprites.is_empty());
}
