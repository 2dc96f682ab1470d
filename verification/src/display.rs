//! The monochrome framebuffer: a 64 x 32 grid of pixels that sprites are
//! XORed onto. The core flips pixels through [`Display::set_pixel`] and wipes
//! the grid through [`Display::clear`]; turning the grid into something
//! visible on a screen is an outside concern.

use vstd::prelude::*;
use vstd::arithmetic::div_mod::lemma_mod_multiples_vanish;

verus! {

/// Render data for one pixel of the grid: its position and whether it is lit.
#[derive(Clone, Copy, Debug)]
pub struct Instance {
    pub pos: [u32; 2],
    pub on: u32,
}

/// The framebuffer. Pixels are stored row-major: the pixel at column `x`,
/// row `y` sits at index `y * 64 + x`.
pub struct Display {
    pub pixels: Vec<bool>,
}

impl View for Display {
    type V = Seq<bool>;

    open spec fn view(&self) -> Seq<bool> {
        self.pixels@
    }
}

/// Horizontal resolution of the grid, in pixels.
pub const WIDTH: usize = 64;
/// Vertical resolution of the grid, in pixels.
pub const HEIGHT: usize = 32;
/// Total number of pixels in the grid.
pub const PIXEL_COUNT: usize = 2048;

/// A blank framebuffer: every pixel unlit.
pub open spec fn blank_grid() -> Seq<bool> {
    Seq::new(2048, |p: int| false)
}

/// Reduce a (possibly negative) sprite coordinate to a column in `[0, 64)`.
fn wrap_x(x: i32) -> (r: usize)
    ensures
        r == (x as int) % 64,
{
    let t: u64 = ((x as i64) + 0x8000_0000i64) as u64;
    proof {
        lemma_mod_multiples_vanish(0x200_0000int, x as int, 64int);
    }
    (t % 64) as usize
}

/// Reduce a (possibly negative) sprite coordinate to a row in `[0, 32)`.
fn wrap_y(y: i32) -> (r: usize)
    ensures
        r == (y as int) % 32,
{
    let t: u64 = ((y as i64) + 0x8000_0000i64) as u64;
    proof {
        lemma_mod_multiples_vanish(0x400_0000int, y as int, 32int);
    }
    (t % 32) as usize
}

impl Display {
    /// The framebuffer holds exactly one cell per pixel of the 64 x 32 grid.
    pub open spec fn wf(self) -> bool {
        self@.len() == 2048
    }

    /// Create a blank framebuffer.
    pub fn new() -> (d: Display)
        ensures
            d.wf(),
            d@ == blank_grid(),
    {
        let mut pixels: Vec<bool> = Vec::new();
        while pixels.len() < 2048
            invariant
                pixels@ == Seq::new(pixels@.len(), |p: int| false),
                pixels@.len() <= 2048,
            decreases 2048 - pixels@.len(),
        {
            pixels.push(false);
        }
        proof {
            assert(pixels@ =~= blank_grid());
        }
        Display { pixels }
    }

    /// Toggle the pixel at the wrapped coordinates `(x mod 64, y mod 32)`
    /// (negative inputs wrap too) and report whether the toggle turned a lit
    /// pixel off.
    pub fn set_pixel(&mut self, x: i32, y: i32) -> (erased: bool)
        requires
            old(self).wf(),
        ensures
            final(self).wf(),
            final(self)@ == old(self)@.update(
                ((y as int) % 32) * 64 + ((x as int) % 64),
                !old(self)@[((y as int) % 32) * 64 + ((x as int) % 64)],
            ),
            erased == old(self)@[((y as int) % 32) * 64 + ((x as int) % 64)],
    {
        let ux = wrap_x(x);
        let uy = wrap_y(y);
        let idx: usize = uy * 64 + ux;
        let lit = self.pixels[idx];
        self.pixels.set(idx, !lit);
        lit
    }

    /// Reset every pixel to unlit.
    pub fn clear(&mut self)
        ensures
            final(self).wf(),
            final(self)@ == blank_grid(),
    {
        let fresh = Display::new();
        self.pixels = fresh.pixels;
    }

    /// One render instance per pixel of the grid, row-major, all unlit.
    pub fn gen_instances() -> (r: Vec<Instance>)
        ensures
            r@.len() == 2048,
            forall|p: int| 0 <= p < 2048 ==> {
                &&& (#[trigger] r@[p]).pos@[0] == p % 64
                &&& r@[p].pos@[1] == p / 64
                &&& r@[p].on == 0
            },
    {
        let mut r: Vec<Instance> = Vec::new();
        let mut y: usize = 0;
        while y < 32
            invariant
                y <= 32,
                r@.len() == y * 64,
                forall|p: int| 0 <= p < r@.len() ==> {
                    &&& (#[trigger] r@[p]).pos@[0] == p % 64
                    &&& r@[p].pos@[1] == p / 64
                    &&& r@[p].on == 0
                },
            decreases 32 - y,
        {
            let mut x: usize = 0;
            while x < 64
                invariant
                    y < 32,
                    x <= 64,
                    r@.len() == y * 64 + x,
                    forall|p: int| 0 <= p < r@.len() ==> {
                        &&& (#[trigger] r@[p]).pos@[0] == p % 64
                        &&& r@[p].pos@[1] == p / 64
                        &&& r@[p].on == 0
                    },
                decreases 64 - x,
            {
                let inst = Instance { pos: [x as u32, y as u32], on: 0 };
                r.push(inst);
                proof {
                    let p: int = r@.len() - 1;
                    assert(p == y * 64 + x);
                    assert(p % 64 == x && p / 64 == y) by (nonlinear_arith)
                        requires p == y * 64 + x && 0 <= x < 64 && 0 <= y,
                    ;
                }
                x = x + 1;
            }
            y = y + 1;
        }
        r
    }
}

} // verus!
