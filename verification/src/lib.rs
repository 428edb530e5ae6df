//! Verified core of a small fixed-screen shoot-'em-up: palettes and colour
//! packing, indexed-colour blitting into an RGBA frame, collision grids,
//! tile maps, sprites, input and timing decisions.

use vstd::prelude::*;

mod chip;
pub mod color;
pub mod geom;
pub mod gfx;
pub mod grid;
pub mod input;
pub mod rng;
pub mod screen;
pub mod sequencer;
pub mod sfx;
pub mod sprite;
pub mod tilemap;
pub mod timing;

verus! {

/// Width of the game screen in pixels.
pub const GAME_W: u32 = 240;

/// Height of the game screen in pixels.
pub const GAME_H: u32 = 160;

} // verus!
