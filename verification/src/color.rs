//! 24-bit RGB colours and 256-entry indexed palettes.

use vstd::prelude::*;

verus! {

/// A colour packed as `0x00RRGGBB`.
pub type Color = u32;

/// The red component of a packed colour.
pub open spec fn red(c: u32) -> u8 {
    ((c / 0x10000) % 0x100) as u8
}

/// The green component of a packed colour.
pub open spec fn green(c: u32) -> u8 {
    ((c / 0x100) % 0x100) as u8
}

/// The blue component of a packed colour.
pub open spec fn blue(c: u32) -> u8 {
    (c % 0x100) as u8
}

/// The three components of a packed colour, red first.
pub open spec fn rgb_bytes(c: u32) -> Seq<u8> {
    seq![red(c), green(c), blue(c)]
}

/// The colour packed from three components.
pub open spec fn packed(r: u8, g: u8, b: u8) -> u32 {
    (r * 0x10000 + g * 0x100 + b) as u32
}

/// Splits a packed colour into its red, green and blue bytes.
pub fn to_rgb(c: Color) -> (out: [u8; 3])
    ensures
        out@ == rgb_bytes(c),
{
    let r = (c >> 16) as u8;
    let g = (c >> 8) as u8;
    let b = c as u8;
    assert(r == red(c) && g == green(c) && b == blue(c)) by (bit_vector)
        requires
            r == (c >> 16) as u8,
            g == (c >> 8) as u8,
            b == c as u8,
    ;
    let out = [r, g, b];
    assert(out@ =~= rgb_bytes(c));
    out
}

/// Packs red, green and blue bytes into one colour.
pub fn from_rgb(r: u8, g: u8, b: u8) -> (c: Color)
    ensures
        c == packed(r, g, b),
        c < 0x100_0000,
{
    let c = (r as u32) << 16 | (g as u32) << 8 | b as u32;
    assert(c == (r * 0x10000 + g * 0x100 + b) as u32 && c < 0x100_0000) by (bit_vector)
        requires
            c == (r as u32) << 16 | (g as u32) << 8 | b as u32,
    ;
    c
}

/// Packing the components of a colour gives back its low 24 bits.
pub proof fn lemma_pack_of_components(c: u32)
    ensures
        packed(red(c), green(c), blue(c)) == c % 0x100_0000,
{
    assert(((((c / 0x10000) % 0x100) as u8) * 0x10000 + (((c / 0x100) % 0x100) as u8) * 0x100
        + ((c % 0x100) as u8)) as u32 == c % 0x100_0000) by (bit_vector);
}

/// The components of a packed colour are the bytes it was packed from.
pub proof fn lemma_components_of_pack(r: u8, g: u8, b: u8)
    ensures
        red(packed(r, g, b)) == r,
        green(packed(r, g, b)) == g,
        blue(packed(r, g, b)) == b,
{
    assert({
        let c = (r * 0x10000 + g * 0x100 + b) as u32;
        &&& ((c / 0x10000) % 0x100) as u8 == r
        &&& ((c / 0x100) % 0x100) as u8 == g
        &&& (c % 0x100) as u8 == b
    }) by (bit_vector);
}

/// One entry of an Aseprite palette: its red, green and blue bytes.
#[derive(Clone, Copy, Debug, PartialEq, Eq, Structural)]
pub struct AseColor {
    pub r: u8,
    pub g: u8,
    pub b: u8,
}

/// The palette entry at `i` taken from the Aseprite colours `src`: the
/// packed colour of `src[i]` where there is one, black past its end.
pub open spec fn ase_entry(src: Seq<AseColor>, i: int) -> u32 {
    if i < src.len() {
        packed(src[i].r, src[i].g, src[i].b)
    } else {
        0
    }
}

/// A palette of 256 colours, addressed by a byte.
#[derive(Clone, Copy)]
pub struct Palette([Color; 256]);

impl View for Palette {
    type V = Seq<Color>;

    closed spec fn view(&self) -> Seq<Color> {
        self.0@
    }
}

impl Palette {
    /// A palette in which every entry is black.
    pub fn new() -> (p: Self)
        ensures
            p@ == Seq::new(256, |i: int| 0u32),
    {
        let p = Palette([0; 256]);
        assert(p@ =~= Seq::new(256, |i: int| 0u32));
        p
    }

    /// The palette holding the first 256 Aseprite colours of `src`, black
    /// where `src` runs out.
    pub fn from_ase(src: &[AseColor]) -> (p: Self)
        ensures
            p@ == Seq::new(256, |i: int| ase_entry(src@, i)),
    {
        let mut out = [0u32; 256];
        let n = if src.len() < 256 {
            src.len()
        } else {
            256
        };
        let mut i: usize = 0;
        while i < n
            invariant
                0 <= i <= n,
                n <= 256,
                n == src@.len() || (n == 256 && src@.len() >= 256),
                out@.len() == 256,
                forall|j: int| 0 <= j < i ==> out@[j] == ase_entry(src@, j),
                forall|j: int| i <= j < 256 ==> out@[j] == 0,
            decreases n - i,
        {
            let s = src[i];
            out[i] = from_rgb(s.r, s.g, s.b);
            i = i + 1;
        }
        let p = Palette(out);
        assert(p@ =~= Seq::new(256, |i: int| ase_entry(src@, i)));
        p
    }

    /// The colour at `index`.
    pub fn at(&self, index: u8) -> (c: Color)
        ensures
            c == self@[index as int],
    {
        self.0[index as usize]
    }

    /// The colour `offset` places after `base`, wrapping round after the
    /// last entry.
    pub fn cycle(&self, base: u8, offset: u8) -> (c: Color)
        ensures
            c == self@[(base + offset) % 256],
    {
        self.0[base.wrapping_add(offset) as usize]
    }

    /// The first index that holds `color`, if any does.
    pub fn index_of(&self, color: Color) -> (r: Option<u8>)
        ensures
            match r {
                Some(i) => self@[i as int] == color && forall|j: int|
                    0 <= j < i ==> self@[j] != color,
                None => forall|j: int| 0 <= j < 256 ==> self@[j] != color,
            },
    {
        let mut i: usize = 0;
        while i < 256
            invariant
                0 <= i <= 256,
                self@.len() == 256,
                forall|j: int| 0 <= j < i ==> self@[j] != color,
            decreases 256 - i,
        {
            if self.0[i] == color {
                return Some(i as u8);
            }
            i = i + 1;
        }
        None
    }

    /// Replaces the colour at `index`.
    pub fn set(&mut self, index: u8, color: Color)
        ensures
            final(self)@ == old(self)@.update(index as int, color),
    {
        self.0[index as usize] = color;
    }

    /// The red, green and blue bytes of the colour at `index`.
    pub fn rgb(&self, index: u8) -> (out: [u8; 3])
        ensures
            out@ == rgb_bytes(self@[index as int]),
    {
        to_rgb(self.0[index as usize])
    }
}

/// Reading an entry after writing it gives the colour written, and every
/// other entry keeps its colour.
pub proof fn lemma_read_after_set(p: Palette, index: u8, color: u32, other: u8)
    ensures
        p@.update(index as int, color)[index as int] == color,
        other != index ==> p@.update(index as int, color)[other as int] == p@[other as int],
        p@.update(index as int, color).len() == 256,
{
    assert(p@.len() == 256);
}

/// Cycling by `offset` from `base` reads the entry `offset` places on,
/// wrapping round: cycling by 0 reads `base` itself, and cycling by `a`
/// then by `b` from there reads the same entry as cycling by `a + b`.
pub proof fn lemma_cycle_wraps(base: u8, a: u8, b: u8)
    ensures
        (base + 0) % 256 == base,
        (((base + a) % 256) + b) % 256 == (base + a + b) % 256,
{
    assert((((base + a) % 256) + b) % 256 == (base + a + b) % 256) by (nonlinear_arith);
}

/// When some entry holds a colour, looking the colour up finds an entry
/// holding it, no later than that one.
pub proof fn lemma_index_of_found(p: Seq<u32>, i: int, r: Option<u8>)
    requires
        p.len() == 256,
        0 <= i < 256,
        r is Some ==> p[r->Some_0 as int] == p[i] && forall|j: int|
            0 <= j < r->Some_0 ==> #[trigger] p[j] != p[i],
        r is None ==> forall|j: int| 0 <= j < 256 ==> #[trigger] p[j] != p[i],
    ensures
        r is Some,
        p[r->Some_0 as int] == p[i],
        r->Some_0 <= i,
{
    // Taken at `j == i`, the precondition's quantifiers rule out a search
    // that found nothing or passed entry `i`: it would differ from itself.
    let v = p[i];
    assert(r is None ==> v != p[i]);
    assert(r is Some && r->Some_0 > i ==> v != p[i]);
}

impl Default for Palette {
    fn default() -> (p: Self)
        ensures
            p@ == Seq::new(256, |i: int| 0u32),
    {
        Self::new()
    }
}

} // verus!
