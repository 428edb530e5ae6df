use cj2k26::geom::IVec2;
use cj2k26::grid::Grid;

#[test]
fn fresh_grid_is_empty() {
    let g = Grid::new(IVec2::new(0, 0), 4, 3, 8, 8);
    assert!(!g.aabb(IVec2::new(0, 0), IVec2::new(32, 24)));
}

#[test]
fn default_grid_never_collides() {
    let g = Grid::default();
    assert!(!g.aabb(IVec2::new(-100, -100), IVec2::new(1000, 1000)));
}

#[test]
fn solid_tile_collides() {
    let mut g = Grid::new(IVec2::new(10, 10), 4, 3, 8, 8);
    g.set(1, 2, true);
    // tile (1, 2) spans x 18..26, y 26..34
    assert!(g.aabb(IVec2::new(18, 26), IVec2::new(1, 1)));
    assert!(g.aabb(IVec2::new(25, 33), IVec2::new(1, 1)));
    assert!(g.aabb(IVec2::new(0, 0), IVec2::new(19, 27)));
    assert!(!g.aabb(IVec2::new(0, 0), IVec2::new(18, 26)));
    assert!(!g.aabb(IVec2::new(26, 26), IVec2::new(5, 5)));
    g.set(1, 2, false);
    assert!(!g.aabb(IVec2::new(18, 26), IVec2::new(8, 8)));
}

#[test]
fn set_outside_is_ignored() {
    let mut g = Grid::new(IVec2::new(0, 0), 2, 2, 4, 4);
    g.set(-1, 0, true);
    g.set(2, 0, true);
    g.set(0, 2, true);
    assert!(!g.aabb(IVec2::new(-50, -50), IVec2::new(100, 100)));
}

#[test]
fn negative_coordinates_round_down() {
    let mut g = Grid::new(IVec2::new(0, 0), 2, 2, 4, 4);
    g.set(0, 0, true);
    // x = -1 lies in tile column -1, so a one-pixel box there misses
    assert!(!g.aabb(IVec2::new(-1, 0), IVec2::new(1, 1)));
    assert!(g.aabb(IVec2::new(-1, 0), IVec2::new(2, 1)));
}

#[test]
fn cloned_grid_keeps_tiles() {
    let mut g = Grid::new(IVec2::new(0, 0), 2, 2, 4, 4);
    g.set(1, 1, true);
    let h = g.clone();
    g.set(1, 1, false);
    assert!(h.aabb(IVec2::new(4, 4), IVec2::new(1, 1)));
    assert!(!g.aabb(IVec2::new(4, 4), IVec2::new(1, 1)));
}
