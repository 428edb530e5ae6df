//! Everything one screen of the game shows: its collision grid, palette,
//! sprites and tile maps, and the window it is shown in.

use vstd::prelude::*;
use crate::color::Palette;
use crate::geom::IVec2;
use crate::grid::Grid;
use crate::sprite::Sprite;
use crate::tilemap::Tilemap;

verus! {

/// One screen of the game, shown in a window of type `W`.
pub struct Screen<W> {
    pub grid: Grid,
    pub palette: Palette,
    pub sprites: Vec<Sprite>,
    pub tilemaps: Vec<Tilemap>,
    pub window: Option<W>,
}

impl<W> Screen<W> {
    /// An empty screen: no tiles, an all-black palette, no sprites or tile
    /// maps, and no window yet.
    pub fn new() -> (s: Self)
        ensures
            s.grid.origin() == IVec2::zero_spec(),
            s.grid.cols() == 0,
            s.grid.rows() == 0,
            s.grid.tile_w() == 0,
            s.grid.tile_h() == 0,
            !s.grid.has_tiles(),
            forall|c: int, r: int| !s.grid.is_solid(c, r),
            s.palette@ == Seq::new(256, |i: int| 0u32),
            s.sprites@.len() == 0,
            s.tilemaps@.len() == 0,
            s.window is None,
    {
        Screen {
            grid: Grid::default(),
            palette: Palette::default(),
            sprites: Vec::new(),
            tilemaps: Vec::new(),
            window: None,
        }
    }
}

impl<W: Clone> Clone for Screen<W> {
    fn clone(&self) -> (s: Self)
        ensures
            s.palette@ == self.palette@,
            s.grid.origin() == self.grid.origin(),
            s.grid.cols() == self.grid.cols(),
            s.grid.rows() == self.grid.rows(),
            s.grid.tile_w() == self.grid.tile_w(),
            s.grid.tile_h() == self.grid.tile_h(),
            s.grid.has_tiles() == self.grid.has_tiles(),
            forall|c: int, r: int| s.grid.is_solid(c, r) == self.grid.is_solid(c, r),
            s.sprites@.len() == self.sprites@.len(),
            forall|i: int|
                0 <= i < self.sprites@.len() ==> {
                    &&& #[trigger] s.sprites@[i].dims() == self.sprites@[i].dims()
                    &&& s.sprites@[i].pixel_data() == self.sprites@[i].pixel_data()
                },
            s.tilemaps@.len() == self.tilemaps@.len(),
            forall|i: int|
                0 <= i < self.tilemaps@.len() ==> {
                    &&& #[trigger] s.tilemaps@[i].origin() == self.tilemaps@[i].origin()
                    &&& s.tilemaps@[i].cols() == self.tilemaps@[i].cols()
                    &&& s.tilemaps@[i].cells() == self.tilemaps@[i].cells()
                    &&& s.tilemaps@[i].tileset().tile_w() == self.tilemaps@[i].tileset().tile_w()
                    &&& s.tilemaps@[i].tileset().tile_h() == self.tilemaps@[i].tileset().tile_h()
                    &&& s.tilemaps@[i].tileset().tiles() == self.tilemaps@[i].tileset().tiles()
                },
            s.window is Some == self.window is Some,
            s.window is Some ==> cloned(self.window->Some_0, s.window->Some_0),
    {
        let window = match &self.window {
            Some(w) => Some(w.clone()),
            None => None,
        };
        let sprites = self.sprites.clone();
        let tilemaps = self.tilemaps.clone();
        assert forall|i: int| 0 <= i < self.sprites@.len() implies {
            &&& #[trigger] sprites@[i].dims() == self.sprites@[i].dims()
            &&& sprites@[i].pixel_data() == self.sprites@[i].pixel_data()
        } by {
            assert(cloned(self.sprites[i], sprites[i]));
        }
        assert forall|i: int| 0 <= i < self.tilemaps@.len() implies {
            &&& #[trigger] tilemaps@[i].origin() == self.tilemaps@[i].origin()
            &&& tilemaps@[i].cols() == self.tilemaps@[i].cols()
            &&& tilemaps@[i].cells() == self.tilemaps@[i].cells()
            &&& tilemaps@[i].tileset().tile_w() == self.tilemaps@[i].tileset().tile_w()
            &&& tilemaps@[i].tileset().tile_h() == self.tilemaps@[i].tileset().tile_h()
            &&& tilemaps@[i].tileset().tiles() == self.tilemaps@[i].tileset().tiles()
        } by {
            assert(cloned(self.tilemaps[i], tilemaps[i]));
        }
        Screen { grid: self.grid.clone(), palette: self.palette, sprites, tilemaps, window }
    }
}

impl<W> Default for Screen<W> {
    fn default() -> (s: Self)
        ensures
            s.grid.origin() == IVec2::zero_spec(),
            s.grid.cols() == 0,
            s.grid.rows() == 0,
            s.grid.tile_w() == 0,
            s.grid.tile_h() == 0,
            !s.grid.has_tiles(),
            forall|c: int, r: int| !s.grid.is_solid(c, r),
            s.palette@ == Seq::new(256, |i: int| 0u32),
            s.sprites@.len() == 0,
            s.tilemaps@.len() == 0,
            s.window is None,
    {
        Self::new()
    }
}

} // verus!
