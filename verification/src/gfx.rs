//! Drawing indexed-colour pixels into the screen's RGBA frame buffer.
//!
//! The frame holds `GAME_W * GAME_H` pixels, row by row, four bytes each
//! (red, green, blue, alpha). Sprite pixels are palette indices; index 0 is
//! transparent.

use vstd::prelude::*;
use crate::color::{Palette, rgb_bytes};
use crate::geom::IVec2;
use crate::{GAME_H, GAME_W};

verus! {

/// Number of bytes in a frame buffer for the whole game screen.
pub const FRAME_LEN: usize = 153600;

/// Number of pixels on the game screen.
pub open spec fn screen_pixels() -> int {
    GAME_W as int * GAME_H as int
}

/// How many pixels a row of a sprite `width` pixels wide holds: the width's
/// magnitude. A negative width lays the sprite's rows upward.
pub open spec fn row_len(width: int) -> int {
    if width < 0 {
        -width
    } else {
        width
    }
}

/// The column, counted rightward from the sprite's corner, of sprite pixel
/// `i` in a sprite `width` pixels wide: Rust's `i % width`.
pub open spec fn pixel_col(width: int, i: int) -> int {
    i % row_len(width)
}

/// The row, counted downward from the sprite's corner, of sprite pixel `i`
/// in a sprite `width` pixels wide: Rust's `i / width`, which is negative
/// for a negative width.
pub open spec fn pixel_row(width: int, i: int) -> int {
    if width < 0 {
        -(i / row_len(width))
    } else {
        i / row_len(width)
    }
}

/// The index into a sprite's pixels of the pixel that lands on screen pixel
/// `p` when the sprite is `width` pixels wide and its corner is at
/// `(ox, oy)`; `-1` where `p` is off the screen or no sprite position maps to
/// it (the index may still lie past the sprite's last pixel).
pub open spec fn sprite_source(ox: int, oy: int, width: int, p: int) -> int {
    let dx = p % (GAME_W as int) - ox;
    let dy = if width < 0 {
        oy - p / (GAME_W as int)
    } else {
        p / (GAME_W as int) - oy
    };
    if 0 <= p < screen_pixels() && 0 <= dx < row_len(width) && 0 <= dy {
        dy * row_len(width) + dx
    } else {
        -1
    }
}

/// Byte `k` of the frame after blitting `pixels` over `frame`.
pub open spec fn blit_byte(
    frame: Seq<u8>,
    palette: Seq<u32>,
    pixels: Seq<u8>,
    ox: int,
    oy: int,
    width: int,
    k: int,
) -> u8 {
    let s = sprite_source(ox, oy, width, k / 4);
    if k % 4 < 3 && 0 <= s < pixels.len() && pixels[s] != 0 {
        rgb_bytes(palette[pixels[s] as int])[k % 4]
    } else {
        frame[k]
    }
}

/// The frame after blitting a sprite of `width` columns with top-left corner
/// `(ox, oy)`: every non-transparent sprite pixel that falls on the screen
/// sets the colour bytes of its screen pixel; nothing else changes.
pub open spec fn blit_spec(
    frame: Seq<u8>,
    palette: Seq<u32>,
    pixels: Seq<u8>,
    ox: int,
    oy: int,
    width: int,
) -> Seq<u8> {
    Seq::new(frame.len(), |k: int| blit_byte(frame, palette, pixels, ox, oy, width, k))
}

/// The frame after filling every whole pixel with an opaque colour.
pub open spec fn clear_spec(frame: Seq<u8>, rgb: Seq<u8>) -> Seq<u8> {
    Seq::new(
        frame.len(),
        |k: int|
            if k < frame.len() / 4 * 4 {
                if k % 4 < 3 {
                    rgb[k % 4]
                } else {
                    0xFFu8
                }
            } else {
                frame[k]
            },
    )
}

/// Byte `4 * p + c` belongs to pixel `p` as its channel `c`.
proof fn lemma_byte_of_pixel(p: int, c: int)
    requires
        0 <= c < 4,
    ensures
        (4 * p + c) / 4 == p,
        (4 * p + c) % 4 == c,
{
    vstd::arithmetic::div_mod::lemma_fundamental_div_mod_converse(4 * p + c, 4, p, c);
}

/// A byte belongs to pixel `p` only if it lies among that pixel's four bytes.
proof fn lemma_pixel_of_byte(k: int, p: int)
    requires
        0 <= k,
        k / 4 == p,
    ensures
        4 * p <= k < 4 * p + 4,
{
    vstd::arithmetic::div_mod::lemma_fundamental_div_mod(k, 4);
    vstd::arithmetic::div_mod::lemma_mod_bound(k, 4);
}

/// A sprite pixel that falls on the screen is the source of the screen pixel
/// it falls on.
proof fn lemma_source_of_position(ox: int, oy: int, width: int, i: int)
    requires
        width != 0,
        i >= 0,
        0 <= ox + pixel_col(width, i) < GAME_W as int,
        0 <= oy + pixel_row(width, i) < GAME_H as int,
    ensures
        sprite_source(
            ox,
            oy,
            width,
            (oy + pixel_row(width, i)) * (GAME_W as int) + (ox + pixel_col(width, i)),
        ) == i,
{
    let w = row_len(width);
    let sx = ox + pixel_col(width, i);
    let sy = oy + pixel_row(width, i);
    let p = sy * (GAME_W as int) + sx;
    vstd::arithmetic::div_mod::lemma_fundamental_div_mod_converse(p, GAME_W as int, sy, sx);
    vstd::arithmetic::div_mod::lemma_fundamental_div_mod(i, w);
    vstd::arithmetic::div_mod::lemma_mod_bound(i, w);
    vstd::arithmetic::div_mod::lemma_div_pos_is_pos(i, w);
    assert(p < screen_pixels()) by (nonlinear_arith)
        requires
            p == sy * 240 + sx,
            0 <= sx < 240,
            0 <= sy < 160,
    ;
    assert(0 <= p) by (nonlinear_arith)
        requires
            p == sy * 240 + sx,
            0 <= sx,
            0 <= sy,
    ;
    assert((i / w) * w + i % w == i) by (nonlinear_arith)
        requires
            i == w * (i / w) + (i % w),
    ;
}

/// The only screen pixel whose source is sprite pixel `i` is the one that
/// pixel falls on, and it lies on the screen.
proof fn lemma_position_of_source(ox: int, oy: int, width: int, p: int, i: int)
    requires
        width != 0,
        i >= 0,
        sprite_source(ox, oy, width, p) == i,
    ensures
        0 <= ox + pixel_col(width, i) < GAME_W as int,
        0 <= oy + pixel_row(width, i) < GAME_H as int,
        p == (oy + pixel_row(width, i)) * (GAME_W as int) + (ox + pixel_col(width, i)),
{
    let w = row_len(width);
    let fx = p % (GAME_W as int);
    let fy = p / (GAME_W as int);
    let dx = fx - ox;
    let dy = if width < 0 {
        oy - fy
    } else {
        fy - oy
    };
    assert(0 <= p < screen_pixels());
    vstd::arithmetic::div_mod::lemma_fundamental_div_mod_converse(i, w, dy, dx);
    vstd::arithmetic::div_mod::lemma_fundamental_div_mod(p, GAME_W as int);
    vstd::arithmetic::div_mod::lemma_mod_bound(p, GAME_W as int);
    assert(0 <= fy < 160) by (nonlinear_arith)
        requires
            p == 240 * fy + fx,
            0 <= fx < 240,
            0 <= p < 38400,
    ;
}

/// Whether a frame of `frame_len` bytes holds the colour bytes of every
/// screen pixel that a non-transparent sprite pixel lands on.
pub open spec fn blit_fits(frame_len: int, pixels: Seq<u8>, ox: int, oy: int, width: int) -> bool {
    forall|p: int|
        #![trigger sprite_source(ox, oy, width, p)]
        0 <= sprite_source(ox, oy, width, p) < pixels.len() && pixels[sprite_source(
            ox,
            oy,
            width,
            p,
        )] != 0 ==> 4 * p + 3 <= frame_len
}

/// Whether a sprite can be drawn: it has a nonzero width, or every pixel is
/// transparent (a sprite of width zero draws nothing).
pub open spec fn blit_width_ok(pixels: Seq<u8>, width: int) -> bool {
    width != 0 || forall|i: int| 0 <= i < pixels.len() ==> pixels[i] == 0
}

/// A frame that holds the whole screen holds every pixel a sprite can land
/// on.
pub proof fn lemma_screen_frame_fits(frame_len: int, pixels: Seq<u8>, ox: int, oy: int, width: int)
    requires
        frame_len >= FRAME_LEN,
    ensures
        blit_fits(frame_len, pixels, ox, oy, width),
{
}

/// Blitting the first `i + 1` sprite pixels differs from blitting the first
/// `i` only on the bytes of the screen pixel that pixel `i` falls on.
proof fn lemma_blit_extend(
    frame: Seq<u8>,
    palette: Seq<u32>,
    pixels: Seq<u8>,
    ox: int,
    oy: int,
    width: int,
    i: int,
    k: int,
)
    requires
        0 <= i < pixels.len(),
        0 <= k < frame.len(),
        sprite_source(ox, oy, width, k / 4) != i,
    ensures
        blit_byte(frame, palette, pixels.take(i + 1), ox, oy, width, k) == blit_byte(
            frame,
            palette,
            pixels.take(i),
            ox,
            oy,
            width,
            k,
        ),
{
    let s = sprite_source(ox, oy, width, k / 4);
    if 0 <= s < i {
        assert(pixels.take(i + 1)[s] == pixels.take(i)[s]);
    }
}

/// Blitting never changes an alpha byte.
pub proof fn lemma_blit_keeps_alpha(
    frame: Seq<u8>,
    palette: Seq<u32>,
    pixels: Seq<u8>,
    ox: int,
    oy: int,
    width: int,
    k: int,
)
    requires
        0 <= k < frame.len(),
        k % 4 == 3,
    ensures
        blit_spec(frame, palette, pixels, ox, oy, width)[k] == frame[k],
{
}

/// A sprite whose pixels are all transparent leaves the frame as it was.
pub proof fn lemma_blit_transparent(
    frame: Seq<u8>,
    palette: Seq<u32>,
    pixels: Seq<u8>,
    ox: int,
    oy: int,
    width: int,
)
    requires
        forall|i: int| 0 <= i < pixels.len() ==> pixels[i] == 0,
    ensures
        blit_spec(frame, palette, pixels, ox, oy, width) == frame,
{
    assert(blit_spec(frame, palette, pixels, ox, oy, width) =~= frame);
}

/// A sprite pixel that falls on the screen and is not transparent shows its
/// palette colour there: channel `c` of screen pixel `(x, y)` becomes
/// channel `c` of the colour.
pub proof fn lemma_blit_shows_pixel(
    frame: Seq<u8>,
    palette: Seq<u32>,
    pixels: Seq<u8>,
    ox: int,
    oy: int,
    width: int,
    i: int,
    c: int,
)
    requires
        width != 0,
        0 <= i < pixels.len(),
        pixels[i] != 0,
        0 <= ox + pixel_col(width, i) < GAME_W as int,
        0 <= oy + pixel_row(width, i) < GAME_H as int,
        0 <= c < 3,
        frame.len() >= FRAME_LEN,
    ensures
        ({
            let p = (oy + pixel_row(width, i)) * (GAME_W as int) + (ox + pixel_col(width, i));
            blit_spec(frame, palette, pixels, ox, oy, width)[4 * p + c] == rgb_bytes(
                palette[pixels[i] as int],
            )[c]
        }),
{
    let p = (oy + pixel_row(width, i)) * (GAME_W as int) + (ox + pixel_col(width, i));
    lemma_source_of_position(ox, oy, width, i);
    lemma_byte_of_pixel(p, c);
    assert(0 <= p < screen_pixels());
    assert(4 * p + c < FRAME_LEN);
}

/// After clearing, every whole pixel is opaque: its alpha byte is 0xFF.
pub proof fn lemma_clear_opaque(frame: Seq<u8>, rgb: Seq<u8>, p: int)
    requires
        0 <= p < frame.len() / 4,
    ensures
        clear_spec(frame, rgb)[4 * p + 3] == 0xFF,
        clear_spec(frame, rgb)[4 * p] == rgb[0],
{
    lemma_byte_of_pixel(p, 3);
    lemma_byte_of_pixel(p, 0);
}

/// Draws the non-transparent pixels of a sprite `width` pixels wide with its
/// corner at `origin`, clipped to the screen. Sprite pixel `i` lands at
/// column `i % width` and row `i / width` from the corner, so a negative
/// width lays the sprite's rows upward. A sprite of width zero must be
/// wholly transparent, and draws nothing. The frame must hold every screen
/// pixel the sprite paints (`blit_fits`), as a frame of the whole screen
/// does.
pub fn blit(frame: &mut [u8], palette: &Palette, pixels: &[u8], origin: IVec2, width: i32)
    requires
        blit_width_ok(pixels@, width as int),
        blit_fits(old(frame)@.len() as int, pixels@, origin.x as int, origin.y as int, width as int),
        pixels@.len() <= i32::MAX,
    ensures
        final(frame)@ == blit_spec(
            old(frame)@,
            palette@,
            pixels@,
            origin.x as int,
            origin.y as int,
            width as int,
        ),
{
    blit_at(frame, palette, pixels, origin.x as i64, origin.y as i64, width);
}

/// `blit` for a corner given in 64-bit coordinates.
pub fn blit_at(frame: &mut [u8], palette: &Palette, pixels: &[u8], ox: i64, oy: i64, width: i32)
    requires
        blit_width_ok(pixels@, width as int),
        blit_fits(old(frame)@.len() as int, pixels@, ox as int, oy as int, width as int),
        pixels@.len() <= i32::MAX,
        -0x4000_0000_0000_0000 <= ox <= 0x4000_0000_0000_0000,
        -0x4000_0000_0000_0000 <= oy <= 0x4000_0000_0000_0000,
    ensures
        final(frame)@ == blit_spec(old(frame)@, palette@, pixels@, ox as int, oy as int, width as int),
{
    let ghost f0 = frame@;
    let ghost w = width as int;
    let n = pixels.len();
    let wide: i64 = if width < 0 {
        -(width as i64)
    } else {
        width as i64
    };
    let wu = wide as usize;
    assert(frame@ =~= blit_spec(f0, palette@, pixels@.take(0), ox as int, oy as int, w));
    let mut i: usize = 0;
    while i < n
        invariant
            0 <= i <= n,
            n == pixels@.len(),
            wu == row_len(w),
            w == width as int,
            blit_width_ok(pixels@, w),
            blit_fits(f0.len() as int, pixels@, ox as int, oy as int, w),
            n <= i32::MAX,
            -0x4000_0000_0000_0000 <= ox <= 0x4000_0000_0000_0000,
            -0x4000_0000_0000_0000 <= oy <= 0x4000_0000_0000_0000,
            frame@.len() == f0.len(),
            frame@ == blit_spec(f0, palette@, pixels@.take(i as int), ox as int, oy as int, w),
        decreases n - i,
    {
        let px = pixels[i];
        let ghost ii = i as int;
        if px != 0 {
            proof {
                let aw = row_len(w);
                vstd::arithmetic::div_mod::lemma_mod_bound(ii, aw);
                vstd::arithmetic::div_mod::lemma_div_pos_is_pos(ii, aw);
                vstd::arithmetic::div_mod::lemma_div_is_ordered_by_denominator(ii, 1, aw);
                assert((i % wu) as int == pixel_col(w, ii));
                assert((i / wu) as int == ii / aw);
            }
            let sx: i64 = ox + (i % wu) as i64;
            let sy: i64 = if width < 0 {
                oy - (i / wu) as i64
            } else {
                oy + (i / wu) as i64
            };
            assert(sy == oy + pixel_row(w, ii));
            if 0 <= sx && sx < GAME_W as i64 && 0 <= sy && sy < GAME_H as i64 {
                let ghost p0 = sy * 240 + sx;
                proof {
                    lemma_source_of_position(ox as int, oy as int, w, ii);
                    assert(sprite_source(ox as int, oy as int, w, p0) == ii);
                }
                let idx: usize = ((sy * GAME_W as i64 + sx) * 4) as usize;
                let rgb = palette.rgb(px);
                frame[idx] = rgb[0];
                frame[idx + 1] = rgb[1];
                frame[idx + 2] = rgb[2];
                proof {
                    assert forall|k: int| 0 <= k < f0.len() implies frame@[k] == blit_byte(
                        f0,
                        palette@,
                        pixels@.take(ii + 1),
                        ox as int,
                        oy as int,
                        w,
                        k,
                    ) by {
                        if sprite_source(ox as int, oy as int, w, k / 4) == ii {
                            lemma_position_of_source(ox as int, oy as int, w, k / 4, ii);
                            lemma_pixel_of_byte(k, p0);
                            lemma_byte_of_pixel(p0, k - 4 * p0);
                            assert(pixels@.take(ii + 1)[ii] == px);
                        } else {
                            lemma_blit_extend(f0, palette@, pixels@, ox as int, oy as int, w, ii, k);
                            if idx <= k < idx + 3 {
                                lemma_byte_of_pixel(p0, k - 4 * p0);
                            }
                        }
                    }
                }
            } else {
                proof {
                    assert forall|k: int| 0 <= k < f0.len() implies frame@[k] == blit_byte(
                        f0,
                        palette@,
                        pixels@.take(ii + 1),
                        ox as int,
                        oy as int,
                        w,
                        k,
                    ) by {
                        if sprite_source(ox as int, oy as int, w, k / 4) == ii {
                            lemma_position_of_source(ox as int, oy as int, w, k / 4, ii);
                        } else {
                            lemma_blit_extend(f0, palette@, pixels@, ox as int, oy as int, w, ii, k);
                        }
                    }
                }
            }
        } else {
            proof {
                assert forall|k: int| 0 <= k < f0.len() implies frame@[k] == blit_byte(
                    f0,
                    palette@,
                    pixels@.take(ii + 1),
                    ox as int,
                    oy as int,
                    w,
                    k,
                ) by {
                    if sprite_source(ox as int, oy as int, w, k / 4) == ii {
                        assert(pixels@.take(ii + 1)[ii] == px);
                    } else {
                        lemma_blit_extend(f0, palette@, pixels@, ox as int, oy as int, w, ii, k);
                    }
                }
            }
        }
        i = i + 1;
        assert(frame@ =~= blit_spec(f0, palette@, pixels@.take(i as int), ox as int, oy as int, w));
    }
    assert(pixels@.take(n as int) =~= pixels@);
}

/// Fills every whole four-byte pixel of the frame with the colour `rgb` at
/// full opacity; a trailing partial pixel is left as it was.
pub fn clear(frame: &mut [u8], rgb: [u8; 3])
    ensures
        final(frame)@ == clear_spec(old(frame)@, rgb@),
{
    let ghost f0 = frame@;
    let len = frame.len();
    let n = len / 4;
    let mut j: usize = 0;
    while j < n
        invariant
            0 <= j <= n,
            n == f0.len() / 4,
            len == f0.len(),
            frame@.len() == f0.len(),
            forall|k: int|
                0 <= k < f0.len() ==> frame@[k] == if k < 4 * j {
                    clear_spec(f0, rgb@)[k]
                } else {
                    f0[k]
                },
        decreases n - j,
    {
        assert(4 * j + 4 <= f0.len()) by (nonlinear_arith)
            requires
                j < n,
                n == f0.len() / 4,
        {
            vstd::arithmetic::div_mod::lemma_fundamental_div_mod(f0.len() as int, 4);
            vstd::arithmetic::div_mod::lemma_mod_bound(f0.len() as int, 4);
        }
        let b = 4 * j;
        frame[b] = rgb[0];
        frame[b + 1] = rgb[1];
        frame[b + 2] = rgb[2];
        frame[b + 3] = 0xFF;
        proof {
            assert forall|k: int| 0 <= k < f0.len() implies frame@[k] == if k < 4 * (j + 1) {
                clear_spec(f0, rgb@)[k]
            } else {
                f0[k]
            } by {
                if b <= k < b + 4 {
                    lemma_byte_of_pixel(j as int, k - b);
                }
                if k < 4 * n {
                    lemma_pixel_of_byte(k, k / 4);
                }
            }
        }
        j = j + 1;
    }
    proof {
        assert forall|k: int| 0 <= k < f0.len() implies frame@[k] == clear_spec(f0, rgb@)[k] by {
        }
        assert(frame@ =~= clear_spec(f0, rgb@));
    }
}

} // verus!
