//! Tile sets and tile maps drawn from them.

use vstd::prelude::*;
use crate::color::{Palette, rgb_bytes};
use crate::geom::IVec2;
use crate::{GAME_H, GAME_W};
use crate::gfx::{
    FRAME_LEN,
    blit_at,
    blit_spec,
    lemma_blit_shows_pixel,
    lemma_screen_frame_fits,
    pixel_col,
    pixel_row,
    row_len,
};

verus! {

/// Whether `len` bytes make a whole number of `tile_w` by `tile_h` tiles of
/// a positive size, as the tile set's constructor demands.
pub open spec fn whole_tiles(tile_w: int, tile_h: int, len: int) -> bool {
    let size = tile_w * tile_h;
    size > 0 && len % size == 0
}

/// A set of equally sized tiles, stored one after another, each as
/// `tile_w * tile_h` palette indices row by row.
pub struct Tileset {
    tile_w: i32,
    tile_h: i32,
    tiles: Vec<u8>,
}

impl Tileset {
    #[verifier::type_invariant]
    spec fn inv(self) -> bool {
        i32::MIN <= self.tile_w * self.tile_h <= i32::MAX
    }

    /// Tile width in pixels.
    pub closed spec fn tile_w(&self) -> int {
        self.tile_w as int
    }

    /// Tile height in pixels.
    pub closed spec fn tile_h(&self) -> int {
        self.tile_h as int
    }

    /// All tile pixels, tile after tile.
    pub closed spec fn tiles(&self) -> Seq<u8> {
        self.tiles@
    }

    /// Number of pixels in one tile.
    pub open spec fn tile_size(&self) -> int {
        self.tile_w() * self.tile_h()
    }

    /// Whether `id` names a tile of the set.
    pub open spec fn has_tile(&self, id: int) -> bool {
        &&& 0 < self.tile_size()
        &&& 0 <= id
        &&& (id + 1) * self.tile_size() <= self.tiles().len()
    }

    /// The pixels of tile `id`.
    pub open spec fn tile_spec(&self, id: int) -> Seq<u8> {
        self.tiles().subrange(id * self.tile_size(), (id + 1) * self.tile_size())
    }

    /// A tile set over `tiles`; the length must be a whole number of tiles of
    /// a positive size (as `whole_tiles` says). Both sizes may be negative:
    /// a map then places its tiles leftward and upward, and each tile's rows
    /// are drawn upward.
    pub fn new(tile_w: i32, tile_h: i32, tiles: Vec<u8>) -> (t: Self)
        requires
            i32::MIN <= tile_w * tile_h <= i32::MAX,
            whole_tiles(tile_w as int, tile_h as int, tiles@.len() as int),
        ensures
            t.tile_w() == tile_w,
            t.tile_h() == tile_h,
            t.tiles() == tiles@,
    {
        Tileset { tile_w, tile_h, tiles }
    }

    /// The pixels of tile `id`.
    pub fn tile(&self, id: u16) -> (px: &[u8])
        requires
            self.has_tile(id as int),
        ensures
            px@ == self.tile_spec(id as int),
    {
        proof {
            let s = self.tile_size();
            assert((id + 1) * s == id * s + s) by (nonlinear_arith);
            assert(0 <= id * s) by (nonlinear_arith)
                requires
                    0 <= id,
                    0 < s,
            ;
            assert(i64::MIN <= self.tile_w * self.tile_h <= i64::MAX) by (nonlinear_arith)
                requires
                    i32::MIN <= self.tile_w <= i32::MAX,
                    i32::MIN <= self.tile_h <= i32::MAX,
            ;
        }
        let tiles_len = self.tiles.len();
        let size = (self.tile_w as i64 * self.tile_h as i64) as usize;
        let start = id as usize * size;
        assert(start + size <= tiles_len);
        vstd::slice::slice_subrange(self.tiles.as_slice(), start, start + size)
    }
}

/// A grid of tiles, `cols` per row, whose top-left corner is at `pos`; each
/// cell holds the id of its tile in `tileset`.
pub struct Tilemap {
    pos: IVec2,
    cols: i32,
    cells: Vec<u16>,
    tileset: Tileset,
}

/// A cell's offset, `k` tiles of `t` pixels, stays well inside 64 bits.
proof fn lemma_offset_bound(k: int, t: int)
    requires
        -0x7fff_ffff <= k <= 0x7fff_ffff,
        -0x8000_0000 <= t <= 0x7fff_ffff,
    ensures
        -0x3fff_ffff_8000_0000 <= k * t <= 0x3fff_ffff_8000_0000,
{
    let ak = if k < 0 { -k } else { k };
    let at = if t < 0 { -t } else { t };
    assert(ak * at <= 0x7fff_ffff * 0x8000_0000) by (nonlinear_arith)
        requires
            0 <= ak <= 0x7fff_ffff,
            0 <= at <= 0x8000_0000,
    ;
    assert(k * t == ak * at || k * t == -(ak * at)) by (nonlinear_arith)
        requires
            ak == k || ak == -k,
            at == t || at == -t,
    ;
}

impl Tilemap {
    #[verifier::type_invariant]
    spec fn inv(self) -> bool {
        self.cells@.len() <= i32::MAX
    }

    /// Where the map's top-left corner is.
    pub closed spec fn origin(&self) -> IVec2 {
        self.pos
    }

    /// Tiles per row.
    pub closed spec fn cols(&self) -> int {
        self.cols as int
    }

    /// The tile id of each cell, row by row.
    pub closed spec fn cells(&self) -> Seq<u16> {
        self.cells@
    }

    /// The tiles the cells refer to.
    pub closed spec fn tileset(&self) -> Tileset {
        self.tileset
    }

    /// A map of `cols` by `rows` cells.
    pub fn new(pos: IVec2, cols: i32, rows: i32, cells: Vec<u16>, tileset: Tileset) -> (m: Self)
        requires
            cells@.len() == cols * rows,
            cols * rows <= i32::MAX,
        ensures
            m.origin() == pos,
            m.cols() == cols,
            m.cells() == cells@,
            m.tileset() == tileset,
    {
        Tilemap { pos, cols, cells, tileset }
    }

    /// Whether the map can be drawn: every cell names a tile of the set, and
    /// the column count is not zero. A negative column count lays the map's
    /// rows upward, and negative tile sizes lay tiles leftward or upward.
    pub open spec fn drawable(&self) -> bool {
        self.cells().len() > 0 ==> {
            &&& self.cols() != 0
            &&& forall|c: int|
                0 <= c < self.cells().len() ==> #[trigger] self.tileset().has_tile(
                    self.cells()[c] as int,
                )
        }
    }

    /// The frame after drawing the first `n` cells, in order.
    pub open spec fn draw_spec(&self, frame: Seq<u8>, palette: Seq<u32>, n: nat) -> Seq<u8>
        decreases n,
    {
        if n == 0 {
            frame
        } else {
            let c = n - 1;
            let tw = self.tileset().tile_w();
            let th = self.tileset().tile_h();
            blit_spec(
                self.draw_spec(frame, palette, (n - 1) as nat),
                palette,
                self.tileset().tile_spec(self.cells()[c] as int),
                self.origin().x + pixel_col(self.cols(), c) * tw,
                self.origin().y + pixel_row(self.cols(), c) * th,
                tw,
            )
        }
    }

    /// Draws every cell's tile at its place in the map, cell after cell.
    pub fn draw(&self, frame: &mut [u8], palette: &Palette)
        requires
            self.drawable(),
            old(frame)@.len() >= FRAME_LEN,
        ensures
            final(frame)@ == self.draw_spec(old(frame)@, palette@, self.cells().len()),
    {
        proof {
            use_type_invariant(self);
            use_type_invariant(&self.tileset);
        }
        let ghost f0 = frame@;
        let n = self.cells.len();
        let tw = self.tileset.tile_w;
        let th = self.tileset.tile_h;
        let mut cell: usize = 0;
        while cell < n
            invariant
                0 <= cell <= n,
                n == self.cells().len(),
                n <= i32::MAX,
                tw == self.tileset().tile_w(),
                th == self.tileset().tile_h(),
                i32::MIN <= tw * th <= i32::MAX,
                self.drawable(),
                frame@.len() == f0.len(),
                f0.len() >= FRAME_LEN,
                frame@ == self.draw_spec(f0, palette@, cell as nat),
            decreases n - cell,
        {
            let id = self.cells[cell];
            assert(self.tileset().has_tile(self.cells()[cell as int] as int));
            proof {
                let sz = self.tileset().tile_size();
                assert((id + 1) * sz == id * sz + sz) by (nonlinear_arith);
            }
            let wide: i64 = if self.cols < 0 {
                -(self.cols as i64)
            } else {
                self.cols as i64
            };
            let cols = wide as usize;
            let col = (cell % cols) as i64;
            let down = (cell / cols) as i64;
            let row: i64 = if self.cols < 0 {
                -down
            } else {
                down
            };
            proof {
                let aw = row_len(self.cols as int);
                vstd::arithmetic::div_mod::lemma_mod_bound(cell as int, aw);
                vstd::arithmetic::div_mod::lemma_div_pos_is_pos(cell as int, aw);
                vstd::arithmetic::div_mod::lemma_div_is_ordered_by_denominator(cell as int, 1, aw);
                assert(col == pixel_col(self.cols as int, cell as int));
                assert(row == pixel_row(self.cols as int, cell as int));
                assert(self.tileset().tile_size() > 0);
                assert(tw != 0 && th != 0) by (nonlinear_arith)
                    requires
                        tw * th > 0,
                ;
                lemma_offset_bound(col as int, tw as int);
                lemma_offset_bound(row as int, th as int);
            }
            let ox: i64 = self.pos.x as i64 + col * tw as i64;
            let oy: i64 = self.pos.y as i64 + row * th as i64;
            let tile = self.tileset.tile(id);
            proof {
                assert(tile@.len() == self.tileset().tile_size());
                lemma_screen_frame_fits(frame@.len() as int, tile@, ox as int, oy as int, tw as int);
            }
            blit_at(frame, palette, tile, ox, oy, tw);
            cell = cell + 1;
        }
    }
}

/// Drawing keeps the frame's length.
pub proof fn lemma_draw_keeps_len(m: Tilemap, frame: Seq<u8>, palette: Seq<u32>, n: nat)
    ensures
        m.draw_spec(frame, palette, n).len() == frame.len(),
    decreases n,
{
    if n > 0 {
        lemma_draw_keeps_len(m, frame, palette, (n - 1) as nat);
    }
}

/// Where a cell's tile goes: cell `c` sits `c % cols` tiles across and
/// `c / cols` tiles down from the map's corner (Rust's `%` and `/`), each
/// tile `tile_w` pixels across and `tile_h` down, and pixel `i` of its tile
/// sits `i % tile_w` across and `i / tile_w` down from the tile's corner.
/// Once the cells up to `c` are drawn, each opaque pixel of cell `c`'s tile
/// that lands on the screen shows its palette colour there.
pub proof fn lemma_cell_tile_placed(
    m: Tilemap,
    frame: Seq<u8>,
    palette: Seq<u32>,
    c: int,
    i: int,
    ch: int,
)
    requires
        m.drawable(),
        0 <= c < m.cells().len(),
        frame.len() >= FRAME_LEN,
        0 <= i < m.tileset().tile_size(),
        m.tileset().tile_spec(m.cells()[c] as int)[i] != 0,
        0 <= ch < 3,
        0 <= m.origin().x + pixel_col(m.cols(), c) * m.tileset().tile_w() + pixel_col(
            m.tileset().tile_w(),
            i,
        ) < GAME_W as int,
        0 <= m.origin().y + pixel_row(m.cols(), c) * m.tileset().tile_h() + pixel_row(
            m.tileset().tile_w(),
            i,
        ) < GAME_H as int,
    ensures
        ({
            let x = m.origin().x + pixel_col(m.cols(), c) * m.tileset().tile_w() + pixel_col(
                m.tileset().tile_w(),
                i,
            );
            let y = m.origin().y + pixel_row(m.cols(), c) * m.tileset().tile_h() + pixel_row(
                m.tileset().tile_w(),
                i,
            );
            let tile = m.tileset().tile_spec(m.cells()[c] as int);
            m.draw_spec(frame, palette, (c + 1) as nat)[4 * (y * (GAME_W as int) + x) + ch]
                == rgb_bytes(palette[tile[i] as int])[ch]
        }),
{
    let tw = m.tileset().tile_w();
    let th = m.tileset().tile_h();
    let tile = m.tileset().tile_spec(m.cells()[c] as int);
    assert(m.tileset().has_tile(m.cells()[c] as int));
    let id = m.cells()[c] as int;
    let sz = m.tileset().tile_size();
    assert((id + 1) * sz == id * sz + sz) by (nonlinear_arith);
    assert(0 <= id * sz) by (nonlinear_arith)
        requires
            0 <= id,
            0 < sz,
    ;
    assert(tile.len() == sz);
    assert(tw != 0) by (nonlinear_arith)
        requires
            sz == tw * th,
            sz > 0,
    ;
    lemma_draw_keeps_len(m, frame, palette, c as nat);
    let ox = m.origin().x + pixel_col(m.cols(), c) * tw;
    let oy = m.origin().y + pixel_row(m.cols(), c) * th;
    lemma_blit_shows_pixel(
        m.draw_spec(frame, palette, c as nat),
        palette,
        tile,
        ox,
        oy,
        tw,
        i,
        ch,
    );
}

impl Clone for Tileset {
    fn clone(&self) -> (t: Self)
        ensures
            t.tile_w() == self.tile_w(),
            t.tile_h() == self.tile_h(),
            t.tiles() == self.tiles(),
    {
        proof {
            use_type_invariant(self);
        }
        let tiles = self.tiles.clone();
        assert(tiles@ =~= self.tiles@);
        Tileset { tile_w: self.tile_w, tile_h: self.tile_h, tiles }
    }
}

impl Clone for Tilemap {
    fn clone(&self) -> (m: Self)
        ensures
            m.origin() == self.origin(),
            m.cols() == self.cols(),
            m.cells() == self.cells(),
            m.tileset().tile_w() == self.tileset().tile_w(),
            m.tileset().tile_h() == self.tileset().tile_h(),
            m.tileset().tiles() == self.tileset().tiles(),
    {
        proof {
            use_type_invariant(self);
        }
        let cells = self.cells.clone();
        assert(cells@ =~= self.cells@);
        Tilemap { pos: self.pos, cols: self.cols, cells, tileset: self.tileset.clone() }
    }
}

impl Default for Tileset {
    /// An empty tile set of zero-sized tiles.
    fn default() -> (t: Self)
        ensures
            t.tile_w() == 0,
            t.tile_h() == 0,
            t.tiles() == Seq::<u8>::empty(),
    {
        Tileset { tile_w: 0, tile_h: 0, tiles: Vec::new() }
    }
}

impl Default for Tilemap {
    /// An empty map at the origin, of no columns, over an empty tile set.
    fn default() -> (m: Self)
        ensures
            m.origin() == IVec2::zero_spec(),
            m.cols() == 0,
            m.cells() == Seq::<u16>::empty(),
            m.tileset().tile_w() == 0,
            m.tileset().tile_h() == 0,
            m.tileset().tiles() == Seq::<u8>::empty(),
    {
        Tilemap { pos: IVec2::zero(), cols: 0, cells: Vec::new(), tileset: Tileset::default() }
    }
}

} // verus!
