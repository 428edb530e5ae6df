//! Sprites: rectangles of palette indices, loaded from the layers of an
//! Aseprite sheet and drawn onto the screen.

use vstd::prelude::*;
use crate::color::Palette;
use crate::geom::IVec2;
use crate::gfx::{blit, blit_fits, blit_spec, blit_width_ok};

verus! {

/// The pixels of one Aseprite cel: `width * height` palette indices, row by
/// row.
pub struct AseCel {
    pub width: u16,
    pub height: u16,
    pub data: Vec<u8>,
}

/// One layer of an Aseprite sheet: its name and the pixel cel it holds in the
/// first frame, if it holds one.
pub struct AseLayer {
    pub name: String,
    pub cel: Option<AseCel>,
}

/// The position of the first layer called `name`.
pub open spec fn first_layer_named(layers: Seq<AseLayer>, name: Seq<char>) -> Option<int> {
    if exists|i: int| 0 <= i < layers.len() && #[trigger] layers[i].name@ == name {
        Some(
            choose|i: int|
                0 <= i < layers.len() && #[trigger] layers[i].name@ == name && forall|j: int|
                    0 <= j < i ==> layers[j].name@ != name,
        )
    } else {
        None
    }
}

/// Finds the first layer called `name`.
pub fn find_layer(layers: &[AseLayer], name: &str) -> (r: Option<usize>)
    ensures
        match r {
            Some(i) => i < layers@.len() && layers@[i as int].name@ == name@ && forall|j: int|
                0 <= j < i ==> layers@[j].name@ != name@,
            None => forall|j: int| 0 <= j < layers@.len() ==> layers@[j].name@ != name@,
        },
        r == (match first_layer_named(layers@, name@) {
            Some(i) => Some(i as usize),
            None => None::<usize>,
        }),
{
    let wanted: String = name.to_owned();
    let n = layers.len();
    let mut i: usize = 0;
    while i < n
        invariant
            0 <= i <= n,
            n == layers@.len(),
            wanted@ == name@,
            forall|j: int| 0 <= j < i ==> layers@[j].name@ != name@,
        decreases n - i,
    {
        if layers[i].name == wanted {
            proof {
                let k = choose|k: int|
                    0 <= k < layers@.len() && #[trigger] layers@[k].name@ == name@ && forall|j: int|
                        0 <= j < k ==> layers@[j].name@ != name@;
                assert(0 <= i < layers@.len() && layers@[i as int].name@ == name@ && forall|j: int|
                    0 <= j < i ==> layers@[j].name@ != name@);
                if k < i {
                } else if k > i {
                    assert(layers@[i as int].name@ != name@);
                }
            }
            return Some(i);
        }
        i = i + 1;
    }
    None
}

/// A rectangle of palette indices, `size.x` wide and `size.y` high; index 0
/// is transparent.
#[derive(Default)]
pub struct Sprite {
    pixels: Vec<u8>,
    pub size: IVec2,
}

impl Sprite {
    /// The sprite's pixels, row by row.
    pub closed spec fn pixel_data(&self) -> Seq<u8> {
        self.pixels@
    }

    /// The sprite's width and height.
    pub closed spec fn dims(&self) -> IVec2 {
        self.size
    }

    /// A sprite of the given size over `pixels`.
    pub fn new(width: i32, height: i32, pixels: Vec<u8>) -> (s: Self)
        ensures
            s.dims() == IVec2::new_spec(width, height),
            s.pixel_data() == pixels@,
    {
        Sprite { pixels, size: IVec2::new(width, height) }
    }

    /// The sprite's pixels.
    pub fn pixels(&self) -> (px: &[u8])
        ensures
            px@ == self.pixel_data(),
    {
        self.pixels.as_slice()
    }

    /// Whether the first layer called `layer` exists and holds a pixel cel
    /// in the first frame.
    pub open spec fn loadable(layers: Seq<AseLayer>, layer: Seq<char>) -> bool {
        match first_layer_named(layers, layer) {
            Some(i) => layers[i].cel is Some,
            None => false,
        }
    }

    /// The sprite drawn on the first layer called `layer`, taken from that
    /// layer's cel in the first frame.
    pub fn from_ase(layers: &[AseLayer], layer: &str) -> (s: Self)
        requires
            Self::loadable(layers@, layer@),
        ensures
            ({
                let cel = layers@[first_layer_named(layers@, layer@)->Some_0].cel->Some_0;
                &&& s.dims() == IVec2::new_spec(cel.width as i32, cel.height as i32)
                &&& s.pixel_data() == cel.data@
            }),
    {
        let index = find_layer(layers, layer);
        let i = match index {
            Some(i) => i,
            None => {
                assert(false);
                0
            },
        };
        match &layers[i].cel {
            Some(cel) => {
                let data = cel.data.clone();
                assert(data@ =~= cel.data@);
                Self::new(cel.width as i32, cel.height as i32, data)
            },
            None => {
                assert(false);
                Self::new(0, 0, Vec::new())
            },
        }
    }

    /// Draws the sprite with its corner at `pos`, as `blit` lays it out: a
    /// negative width lays its rows upward.
    pub fn draw_at(&self, frame: &mut [u8], palette: &Palette, pos: IVec2)
        requires
            blit_width_ok(self.pixel_data(), self.dims().x as int),
            blit_fits(
                old(frame)@.len() as int,
                self.pixel_data(),
                pos.x as int,
                pos.y as int,
                self.dims().x as int,
            ),
            self.pixel_data().len() <= i32::MAX,
        ensures
            final(frame)@ == blit_spec(
                old(frame)@,
                palette@,
                self.pixel_data(),
                pos.x as int,
                pos.y as int,
                self.dims().x as int,
            ),
    {
        blit(frame, palette, self.pixels.as_slice(), pos, self.size.x);
    }
}

impl Clone for Sprite {
    fn clone(&self) -> (s: Self)
        ensures
            s.dims() == self.dims(),
            s.pixel_data() == self.pixel_data(),
    {
        let pixels = self.pixels.clone();
        assert(pixels@ =~= self.pixels@);
        Sprite { pixels, size: self.size }
    }
}

} // verus!
