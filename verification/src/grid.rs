//! A rectangular grid of solid or empty tiles, used for collision tests.

use vstd::prelude::*;
use crate::geom::IVec2;

verus! {

/// A grid of `cols` by `rows` tiles, each `tile_w` by `tile_h` pixels, whose
/// top-left corner is at `pos`. Each tile is solid or empty.
pub struct Grid {
    pos: IVec2,
    cols: i32,
    rows: i32,
    tile_w: i32,
    tile_h: i32,
    solid: Vec<bool>,
}

/// A quotient and remainder in range are the Euclidean ones.
proof fn lemma_euclid(x: int, d: int, q: int, r: int)
    requires
        d != 0,
        x == q * d + r,
        0 <= r,
        r < d || r < -d,
    ensures
        q == x / d,
{
    if d > 0 {
        vstd::arithmetic::div_mod::lemma_fundamental_div_mod_converse(x, d, q, r);
    } else {
        assert(x == (-q) * (-d) + r) by (nonlinear_arith)
            requires
                x == q * d + r,
        ;
        vstd::arithmetic::div_mod::lemma_fundamental_div_mod_converse(x, -d, -q, r);
        assert(x / d == -(x / (-d))) by (nonlinear_arith)
            requires
                d < 0,
        ;
    }
}

/// The quotient of Euclidean division of `x` by `d` (what `i64::div_euclid`
/// computes): `q` with `x == q * d + r` and `0 <= r < |d|`.
fn div_euclid(x: i64, d: i64) -> (q: i64)
    requires
        d != 0,
        !(x == i64::MIN && d == -1),
    ensures
        q == x as int / d as int,
{
    let ax: u64 = if x < 0 { (-(x as i128)) as u64 } else { x as u64 };
    let ad: u64 = if d < 0 { (-(d as i128)) as u64 } else { d as u64 };
    let qa = ax / ad;
    let ra = ax % ad;
    proof {
        vstd::arithmetic::div_mod::lemma_fundamental_div_mod(ax as int, ad as int);
        assert(ax == qa * ad + ra) by (nonlinear_arith)
            requires
                ax == ad * qa + ra,
        ;
        assert(qa <= ax) by (nonlinear_arith)
            requires
                ax == qa * ad + ra,
                ad >= 1,
                ra >= 0,
                qa >= 0,
        ;
        assert(ad >= 2 ==> 2 * qa <= ax) by (nonlinear_arith)
            requires
                ax == qa * ad + ra,
                ra >= 0,
                qa >= 0,
        ;
        assert(ra > 0 ==> ad >= 2);
        assert(ad == 1 ==> ra == 0);
        assert(x < 0 && d < 0 && ad == 1 ==> ax < 0x8000_0000_0000_0000);
    }
    if x >= 0 {
        if d > 0 {
            proof {
                lemma_euclid(x as int, d as int, qa as int, ra as int);
            }
            qa as i64
        } else {
            proof {
                assert(x == (-qa) * d + ra) by (nonlinear_arith)
                    requires
                        x == qa * ad + ra,
                        ad == -d,
                ;
                lemma_euclid(x as int, d as int, -qa, ra as int);
            }
            -(qa as i64)
        }
    } else if ra == 0 {
        if d > 0 {
            proof {
                assert(x == (-qa) * d) by (nonlinear_arith)
                    requires
                        -x == qa * ad,
                        ad == d,
                ;
                lemma_euclid(x as int, d as int, -qa, 0);
            }
            (-(qa as i128)) as i64
        } else {
            proof {
                assert(x == qa * d) by (nonlinear_arith)
                    requires
                        -x == qa * ad,
                        ad == -d,
                ;
                lemma_euclid(x as int, d as int, qa as int, 0);
            }
            qa as i64
        }
    } else {
        if d > 0 {
            proof {
                assert(x == (-qa - 1) * d + (ad - ra)) by (nonlinear_arith)
                    requires
                        -x == qa * ad + ra,
                        ad == d,
                ;
                lemma_euclid(x as int, d as int, -qa - 1, ad - ra);
            }
            -(qa as i64) - 1
        } else {
            proof {
                assert(x == (qa + 1) * d + (ad - ra)) by (nonlinear_arith)
                    requires
                        -x == qa * ad + ra,
                        ad == -d,
                ;
                lemma_euclid(x as int, d as int, qa + 1, ad - ra);
            }
            qa as i64 + 1
        }
    }
}

/// A Euclidean quotient is no further from zero than its dividend, plus one.
proof fn lemma_quotient_bound(x: int, d: int)
    requires
        d != 0,
    ensures
        -(if x < 0 { -x } else { x }) - 1 <= x / d <= (if x < 0 { -x } else { x }) + 1,
{
    let q = x / d;
    let r = x % d;
    assert(x == d * q + r && 0 <= r < (if d < 0 { -d } else { d })) by (nonlinear_arith)
        requires
            d != 0,
            q == x / d,
            r == x % d,
    ;
    assert(-(if x < 0 { -x } else { x }) - 1 <= q <= (if x < 0 { -x } else { x }) + 1)
        by (nonlinear_arith)
        requires
            x == d * q + r,
            0 <= r < (if d < 0 { -d } else { d }),
            d != 0,
    ;
}

/// The tile column or row that holds coordinate `p` of a grid starting at
/// `origin` with tiles `tile` pixels long (rounding toward negative infinity
/// for positive tile sizes, as `i32::div_euclid` does).
pub open spec fn tile_index(p: int, origin: int, tile: int) -> int {
    (p - origin) / tile
}

impl Grid {
    #[verifier::type_invariant]
    spec fn inv(self) -> bool {
        &&& self.solid@.len() == self.cols * self.rows
        &&& self.cols * self.rows <= i32::MAX
    }

    /// Where the grid's top-left corner is.
    pub closed spec fn origin(&self) -> IVec2 {
        self.pos
    }

    /// The number of tile columns.
    pub closed spec fn cols(&self) -> int {
        self.cols as int
    }

    /// The number of tile rows.
    pub closed spec fn rows(&self) -> int {
        self.rows as int
    }

    /// The width of one tile in pixels.
    pub closed spec fn tile_w(&self) -> int {
        self.tile_w as int
    }

    /// The height of one tile in pixels.
    pub closed spec fn tile_h(&self) -> int {
        self.tile_h as int
    }

    /// Whether the tile at (`col`, `row`) lies inside the grid and is solid.
    pub closed spec fn is_solid(&self, col: int, row: int) -> bool {
        &&& 0 <= col < self.cols
        &&& 0 <= row < self.rows
        &&& self.solid@[row * self.cols + col]
    }

    /// Whether the grid has any tiles at all.
    pub closed spec fn has_tiles(&self) -> bool {
        self.solid@.len() > 0
    }

    /// Whether any solid tile meets the box whose top-left pixel is `pos` and
    /// which is `dim` pixels large.
    pub open spec fn overlaps(&self, pos: IVec2, dim: IVec2) -> bool {
        let cx0 = tile_index(pos.x as int, self.origin().x as int, self.tile_w());
        let cx1 = tile_index(pos.x + dim.x - 1, self.origin().x as int, self.tile_w());
        let cy0 = tile_index(pos.y as int, self.origin().y as int, self.tile_h());
        let cy1 = tile_index(pos.y + dim.y - 1, self.origin().y as int, self.tile_h());
        exists|col: int, row: int|
            cx0 <= col <= cx1 && cy0 <= row <= cy1 && #[trigger] self.is_solid(col, row)
    }

    /// A grid of `cols` by `rows` empty tiles.
    pub fn new(pos: IVec2, cols: i32, rows: i32, tile_w: i32, tile_h: i32) -> (g: Self)
        requires
            0 <= cols * rows <= i32::MAX,
        ensures
            g.origin() == pos,
            g.cols() == cols,
            g.rows() == rows,
            g.tile_w() == tile_w,
            g.tile_h() == tile_h,
            g.has_tiles() <==> cols * rows > 0,
            forall|c: int, r: int| !g.is_solid(c, r),
    {
        let n = (cols as i64 * rows as i64) as usize;
        let mut solid: Vec<bool> = Vec::new();
        let mut i: usize = 0;
        while i < n
            invariant
                0 <= i <= n,
                solid@.len() == i,
                forall|j: int| 0 <= j < i ==> !solid@[j],
            decreases n - i,
        {
            solid.push(false);
            i = i + 1;
        }
        proof {
            assert forall|c: int, r: int| 0 <= c < cols && 0 <= r < rows implies !solid@[#[trigger] (r
                * cols + c)] by {
                assert(0 <= r * cols + c < cols * rows) by (nonlinear_arith)
                    requires
                        0 <= c < cols,
                        0 <= r < rows,
                ;
            }
        }
        Grid { pos, cols, rows, tile_w, tile_h, solid }
    }

    /// Whether any solid tile meets the box whose top-left pixel is `pos` and
    /// which is `dim` pixels large. A grid without tiles meets nothing.
    pub fn aabb(&self, pos: IVec2, dim: IVec2) -> (hit: bool)
        requires
            self.has_tiles() ==> self.tile_w() != 0 && self.tile_h() != 0,
        ensures
            hit == self.overlaps(pos, dim),
    {
        proof {
            use_type_invariant(self);
        }
        if self.solid.len() == 0 {
            assert forall|c: int, r: int| !self.is_solid(c, r) by {
                if 0 <= c < self.cols && 0 <= r < self.rows {
                    assert(r * self.cols + c < self.cols * self.rows) by (nonlinear_arith)
                        requires
                            0 <= c < self.cols,
                            0 <= r < self.rows,
                    ;
                }
            }
            return false;
        }
        let tw = self.tile_w as i64;
        let th = self.tile_h as i64;
        let ox = self.pos.x as i64;
        let oy = self.pos.y as i64;
        let cx0 = div_euclid(pos.x as i64 - ox, tw);
        let cx1 = div_euclid(pos.x as i64 + dim.x as i64 - 1 - ox, tw);
        let cy0 = div_euclid(pos.y as i64 - oy, th);
        let cy1 = div_euclid(pos.y as i64 + dim.y as i64 - 1 - oy, th);
        proof {
            lemma_quotient_bound(pos.x as i64 - ox, tw as int);
            lemma_quotient_bound(pos.x as i64 + dim.x as i64 - 1 - ox, tw as int);
            lemma_quotient_bound(pos.y as i64 - oy, th as int);
            lemma_quotient_bound(pos.y as i64 + dim.y as i64 - 1 - oy, th as int);
        }
        let mut row = cy0;
        while row <= cy1
            invariant
                cy0 <= row,
                row <= cy1 + 1 || row == cy0,
                -0x4_0000_0000 <= cx0 <= 0x4_0000_0000,
                -0x4_0000_0000 <= cx1 <= 0x4_0000_0000,
                -0x4_0000_0000 <= cy0 <= 0x4_0000_0000,
                -0x4_0000_0000 <= cy1 <= 0x4_0000_0000,
                cx0 == tile_index(pos.x as int, self.origin().x as int, self.tile_w()),
                cx1 == tile_index(pos.x + dim.x - 1, self.origin().x as int, self.tile_w()),
                cy0 == tile_index(pos.y as int, self.origin().y as int, self.tile_h()),
                cy1 == tile_index(pos.y + dim.y - 1, self.origin().y as int, self.tile_h()),
                self.solid@.len() == self.cols * self.rows,
                self.cols * self.rows <= i32::MAX,
                forall|c: int, r: int|
                    cx0 <= c <= cx1 && cy0 <= r < row ==> !#[trigger] self.is_solid(c, r),
            decreases cy1 + 1 - row,
        {
            let mut col = cx0;
            while col <= cx1
                invariant
                    cx0 <= col,
                    col <= cx1 + 1 || col == cx0,
                    cy0 <= row <= cy1,
                    -0x4_0000_0000 <= cx0 <= 0x4_0000_0000,
                    -0x4_0000_0000 <= cx1 <= 0x4_0000_0000,
                    -0x4_0000_0000 <= cy1 <= 0x4_0000_0000,
                    cx0 == tile_index(pos.x as int, self.origin().x as int, self.tile_w()),
                    cx1 == tile_index(pos.x + dim.x - 1, self.origin().x as int, self.tile_w()),
                    cy0 == tile_index(pos.y as int, self.origin().y as int, self.tile_h()),
                    cy1 == tile_index(pos.y + dim.y - 1, self.origin().y as int, self.tile_h()),
                    self.solid@.len() == self.cols * self.rows,
                    self.cols * self.rows <= i32::MAX,
                    forall|c: int, r: int|
                        cx0 <= c <= cx1 && cy0 <= r < row ==> !#[trigger] self.is_solid(c, r),
                    forall|c: int| cx0 <= c < col ==> !#[trigger] self.is_solid(c, row as int),
                decreases cx1 + 1 - col,
            {
                if 0 <= col && col < self.cols as i64 && 0 <= row && row < self.rows as i64 {
                    proof {
                        assert(row * self.cols + col < self.cols * self.rows) by (nonlinear_arith)
                            requires
                                0 <= col < self.cols,
                                0 <= row < self.rows,
                        ;
                        assert(0 <= row * self.cols <= row * self.cols + col) by (nonlinear_arith)
                            requires
                                0 <= col < self.cols,
                                0 <= row < self.rows,
                        ;
                    }
                    let idx = (row * self.cols as i64 + col) as usize;
                    if self.solid[idx] {
                        assert(self.is_solid(col as int, row as int));
                        return true;
                    }
                }
                col = col + 1;
            }
            row = row + 1;
        }
        false
    }

    /// Marks the tile at (`col`, `row`) solid or empty; a tile outside the
    /// grid is ignored.
    pub fn set(&mut self, col: i32, row: i32, solid: bool)
        ensures
            final(self).origin() == old(self).origin(),
            final(self).cols() == old(self).cols(),
            final(self).rows() == old(self).rows(),
            final(self).tile_w() == old(self).tile_w(),
            final(self).tile_h() == old(self).tile_h(),
            final(self).has_tiles() == old(self).has_tiles(),
            forall|c: int, r: int|
                #[trigger] final(self).is_solid(c, r) == if c == col && r == row && 0 <= col
                    < old(self).cols() && 0 <= row < old(self).rows() {
                    solid
                } else {
                    old(self).is_solid(c, r)
                },
    {
        proof {
            use_type_invariant(&*self);
        }
        if col >= 0 && col < self.cols && row >= 0 && row < self.rows {
            proof {
                assert(row * self.cols + col < self.cols * self.rows) by (nonlinear_arith)
                    requires
                        0 <= col < self.cols,
                        0 <= row < self.rows,
                ;
                assert(0 <= row * self.cols <= row * self.cols + col) by (nonlinear_arith)
                    requires
                        0 <= col < self.cols,
                        0 <= row < self.rows,
                ;
            }
            let idx = (row * self.cols + col) as usize;
            let ghost before = self.solid@;
            self.solid[idx] = solid;
            proof {
                assert forall|c: int, r: int|
                    #[trigger] self.is_solid(c, r) == if c == col && r == row {
                        solid
                    } else {
                        old(self).is_solid(c, r)
                    } by {
                    if 0 <= c < self.cols && 0 <= r < self.rows {
                        assert(0 <= r * self.cols + c < self.cols * self.rows) by (nonlinear_arith)
                            requires
                                0 <= c < self.cols,
                                0 <= r < self.rows,
                        ;
                        if r * self.cols + c == idx {
                            vstd::arithmetic::div_mod::lemma_fundamental_div_mod_converse(
                                idx as int,
                                self.cols as int,
                                r,
                                c,
                            );
                            vstd::arithmetic::div_mod::lemma_fundamental_div_mod_converse(
                                idx as int,
                                self.cols as int,
                                row as int,
                                col as int,
                            );
                        }
                    }
                }
            }
        }
    }
}

/// A grid with no solid tile collides with nothing.
pub proof fn lemma_no_solid_no_hit(g: Grid, pos: IVec2, dim: IVec2)
    requires
        forall|c: int, r: int| !g.is_solid(c, r),
    ensures
        !g.overlaps(pos, dim),
{
}

/// A box that covers a solid tile collides.
pub proof fn lemma_covered_solid_hits(g: Grid, pos: IVec2, dim: IVec2, col: int, row: int)
    requires
        g.is_solid(col, row),
        tile_index(pos.x as int, g.origin().x as int, g.tile_w()) <= col <= tile_index(
            pos.x + dim.x - 1,
            g.origin().x as int,
            g.tile_w(),
        ),
        tile_index(pos.y as int, g.origin().y as int, g.tile_h()) <= row <= tile_index(
            pos.y + dim.y - 1,
            g.origin().y as int,
            g.tile_h(),
        ),
    ensures
        g.overlaps(pos, dim),
{
}

/// Whether tile `c` of a line of tiles, `t` pixels long each and starting at
/// `origin`, holds the pixel at coordinate `x`.
pub open spec fn tile_holds(origin: int, t: int, c: int, x: int) -> bool {
    origin + c * t <= x < origin + (c + 1) * t
}

/// A tile in the span of tile indices from `p0` to `p1` holds a pixel
/// between them.
proof fn lemma_tile_in_span(p0: int, p1: int, o: int, t: int, c: int) -> (x: int)
    requires
        t > 0,
        p0 <= p1,
        (p0 - o) / t <= c <= (p1 - o) / t,
    ensures
        p0 <= x <= p1,
        tile_holds(o, t, c, x),
{
    let q0 = (p0 - o) / t;
    let q1 = (p1 - o) / t;
    vstd::arithmetic::div_mod::lemma_fundamental_div_mod(p0 - o, t);
    vstd::arithmetic::div_mod::lemma_mod_bound(p0 - o, t);
    vstd::arithmetic::div_mod::lemma_fundamental_div_mod(p1 - o, t);
    vstd::arithmetic::div_mod::lemma_mod_bound(p1 - o, t);
    assert((q0 + 1) * t <= (c + 1) * t) by (nonlinear_arith)
        requires
            q0 <= c,
            t > 0,
    ;
    assert(c * t <= q1 * t) by (nonlinear_arith)
        requires
            c <= q1,
            t > 0,
    ;
    assert((c + 1) * t == c * t + t) by (nonlinear_arith);
    assert((q0 + 1) * t == t * q0 + t) by (nonlinear_arith);
    assert(q1 * t == t * q1) by (nonlinear_arith);
    if p0 >= o + c * t {
        p0
    } else {
        o + c * t
    }
}

/// A tile that holds a pixel between `p0` and `p1` lies in the span of tile
/// indices from `p0` to `p1`.
proof fn lemma_span_of_tile(p0: int, p1: int, o: int, t: int, c: int, x: int)
    requires
        t > 0,
        p0 <= x <= p1,
        tile_holds(o, t, c, x),
    ensures
        (p0 - o) / t <= c <= (p1 - o) / t,
{
    assert(x - o == c * t + (x - o - c * t));
    assert((c + 1) * t == c * t + t) by (nonlinear_arith);
    assert(x - o == t * c + (x - o - c * t)) by (nonlinear_arith)
        requires
            x - o == c * t + (x - o - c * t),
    ;
    vstd::arithmetic::div_mod::lemma_fundamental_div_mod_converse(x - o, t, c, x - o - c * t);
    vstd::arithmetic::div_mod::lemma_div_is_ordered(p0 - o, x - o, t);
    vstd::arithmetic::div_mod::lemma_div_is_ordered(x - o, p1 - o, t);
}

/// Soundness and completeness of the collision test, for positive tile
/// sizes and a box at least one pixel large: the box collides exactly when
/// some solid tile and the box share a pixel.
pub proof fn lemma_hit_iff_shared_pixel(g: Grid, pos: IVec2, dim: IVec2)
    requires
        g.tile_w() > 0,
        g.tile_h() > 0,
        dim.x >= 1,
        dim.y >= 1,
    ensures
        g.overlaps(pos, dim) <==> exists|col: int, row: int, x: int, y: int|
            #![trigger g.is_solid(col, row), tile_holds(g.origin().x as int, g.tile_w(), col, x), tile_holds(g.origin().y as int, g.tile_h(), row, y)]
            g.is_solid(col, row) && pos.x <= x < pos.x + dim.x && pos.y <= y < pos.y + dim.y
                && tile_holds(g.origin().x as int, g.tile_w(), col, x) && tile_holds(
                g.origin().y as int,
                g.tile_h(),
                row,
                y,
            ),
{
    let ox = g.origin().x as int;
    let oy = g.origin().y as int;
    let tw = g.tile_w();
    let th = g.tile_h();
    let x0 = pos.x as int;
    let x1 = pos.x + dim.x - 1;
    let y0 = pos.y as int;
    let y1 = pos.y + dim.y - 1;
    if g.overlaps(pos, dim) {
        let (col, row) = choose|col: int, row: int|
            tile_index(x0, ox, tw) <= col <= tile_index(x1, ox, tw) && tile_index(y0, oy, th)
                <= row <= tile_index(y1, oy, th) && #[trigger] g.is_solid(col, row);
        let x = lemma_tile_in_span(x0, x1, ox, tw, col);
        let y = lemma_tile_in_span(y0, y1, oy, th, row);
        assert(g.is_solid(col, row) && tile_holds(ox, tw, col, x) && tile_holds(oy, th, row, y));
    }
    if exists|col: int, row: int, x: int, y: int|
        #![trigger g.is_solid(col, row), tile_holds(ox, tw, col, x), tile_holds(oy, th, row, y)]
        g.is_solid(col, row) && x0 <= x <= x1 && y0 <= y <= y1 && tile_holds(ox, tw, col, x)
            && tile_holds(oy, th, row, y) {
        let (col, row, x, y) = choose|col: int, row: int, x: int, y: int|
            #![trigger g.is_solid(col, row), tile_holds(ox, tw, col, x), tile_holds(oy, th, row, y)]
            g.is_solid(col, row) && x0 <= x <= x1 && y0 <= y <= y1 && tile_holds(ox, tw, col, x)
                && tile_holds(oy, th, row, y);
        lemma_span_of_tile(x0, x1, ox, tw, col, x);
        lemma_span_of_tile(y0, y1, oy, th, row, y);
        assert(g.is_solid(col, row));
    }
}

impl Clone for Grid {
    fn clone(&self) -> (g: Self)
        ensures
            g.origin() == self.origin(),
            g.cols() == self.cols(),
            g.rows() == self.rows(),
            g.tile_w() == self.tile_w(),
            g.tile_h() == self.tile_h(),
            g.has_tiles() == self.has_tiles(),
            forall|c: int, r: int| g.is_solid(c, r) == self.is_solid(c, r),
    {
        proof {
            use_type_invariant(self);
        }
        let solid = self.solid.clone();
        assert(solid@ =~= self.solid@);
        Grid {
            pos: self.pos,
            cols: self.cols,
            rows: self.rows,
            tile_w: self.tile_w,
            tile_h: self.tile_h,
            solid,
        }
    }
}

impl Default for Grid {
    /// A grid without tiles, at the origin.
    fn default() -> (g: Self)
        ensures
            g.origin() == IVec2::zero_spec(),
            g.cols() == 0,
            g.rows() == 0,
            g.tile_w() == 0,
            g.tile_h() == 0,
            !g.has_tiles(),
            forall|c: int, r: int| !g.is_solid(c, r),
    {
        Grid { pos: IVec2 { x: 0, y: 0 }, cols: 0, rows: 0, tile_w: 0, tile_h: 0, solid: Vec::new() }
    }
}

} // verus!
