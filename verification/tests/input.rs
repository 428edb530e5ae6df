use cj2k26::geom::IVec2;
use cj2k26::input::{Action, Input};

#[test]
fn press_and_release() {
    let mut i = Input::new();
    assert!(!i.has_action(Action::Fire));
    i.press(Action::Fire);
    assert!(i.has_action(Action::Fire));
    assert!(!i.has_action(Action::Up));
    i.press(Action::Fire);
    assert!(i.has_action(Action::Fire));
    i.release(Action::Fire);
    assert!(!i.has_action(Action::Fire));
    i.release(Action::Left);
    assert!(!i.has_action(Action::Left));
}

#[test]
fn direction_sums_held_moves() {
    let mut i = Input::new();
    assert_eq!(i.direction(), IVec2::new(0, 0));
    i.press(Action::Up);
    assert_eq!(i.direction(), IVec2::new(0, -1));
    i.press(Action::Right);
    assert_eq!(i.direction(), IVec2::new(1, -1));
    i.press(Action::Down);
    assert_eq!(i.direction(), IVec2::new(1, 0));
    i.press(Action::Left);
    assert_eq!(i.direction(), IVec2::new(0, 0));
    i.press(Action::Fire);
    assert_eq!(i.direction(), IVec2::new(0, 0));
    i.release(Action::Right);
    assert_eq!(i.direction(), IVec2::new(-1, 0));
}
