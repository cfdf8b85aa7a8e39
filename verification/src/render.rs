//! A software canvas for the world, and what of a world falls on it.

use crate::geometry::{Point, GM_ONE_PIXEL};
use vstd::prelude::*;

verus! {

#[verifier::external_type_specification]
#[verifier::external_body]
#[verifier::reject_recursive_types(Backing)]
pub struct ExDrawTarget<Backing>(raqote::DrawTarget<Backing>);

/// The pixels of a canvas, row by row, each as alpha, red, green and blue
/// from its highest byte to its lowest.
pub uninterp spec fn canvas_pixels(canvas: raqote::DrawTarget) -> Seq<u32>;

/// The width in pixels that a canvas was made with.
pub uninterp spec fn canvas_width(canvas: raqote::DrawTarget) -> i32;

/// The height in pixels that a canvas was made with.
pub uninterp spec fn canvas_height(canvas: raqote::DrawTarget) -> i32;

/// Byte `k` of `pixel`, the lowest being byte zero.
pub open spec fn byte_of(pixel: u32, k: int) -> u8 {
    ((pixel as int / pow256(k)) % 256) as u8
}

/// 256 to the power `k`, for `k` from zero to three.
pub open spec fn pow256(k: int) -> int {
    if k <= 0 {
        1
    } else if k == 1 {
        256
    } else if k == 2 {
        65536
    } else {
        16777216
    }
}

/// Whether `bytes` holds the pixels of `pixels` one after the other, four
/// bytes each, lowest byte first where `low_first` holds and highest byte
/// first where it does not.
pub open spec fn spells(bytes: Seq<u8>, pixels: Seq<u32>, low_first: bool) -> bool {
    &&& bytes.len() == 4 * pixels.len()
    &&& forall|i: int, k: int|
        0 <= i < pixels.len() && 0 <= k < 4 ==> #[trigger] bytes[4 * i + k] == byte_of(
            pixels[i],
            if low_first {
                k
            } else {
                3 - k
            },
        )
}

/// `raqote::DrawTarget::width`: the width that the canvas was made with.
#[verifier::external_body]
fn read_width(canvas: &raqote::DrawTarget) -> (width: i32)
    ensures
        width == canvas_width(*canvas),
{
    canvas.width()
}

/// `raqote::DrawTarget::height`: the height that the canvas was made with.
#[verifier::external_body]
fn read_height(canvas: &raqote::DrawTarget) -> (height: i32)
    ensures
        height == canvas_height(*canvas),
{
    canvas.height()
}

/// `raqote::DrawTarget::get_data`: the pixels of the canvas.
#[verifier::external_body]
fn read_pixels(canvas: &raqote::DrawTarget) -> (pixels: &[u32])
    ensures
        pixels@ == canvas_pixels(*canvas),
{
    canvas.get_data()
}

/// `raqote::DrawTarget::get_data_u8`: the memory of the pixels as bytes, so
/// each pixel's four bytes in the order of the machine, which is one of the
/// two.
#[verifier::external_body]
fn read_bytes(canvas: &raqote::DrawTarget) -> (bytes: &[u8])
    ensures
        spells(bytes@, canvas_pixels(*canvas), true) || spells(
            bytes@,
            canvas_pixels(*canvas),
            false,
        ),
{
    canvas.get_data_u8()
}

/// The whole pixels in `distance`, rounded towards zero.
pub open spec fn whole_pixels(distance: i64) -> int {
    if distance >= 0 {
        distance as int / GM_ONE_PIXEL as int
    } else {
        -((-distance) / GM_ONE_PIXEL as int)
    }
}

/// The margin, in pixels, by which a thing left of or below the canvas is
/// still drawn.
pub const DRAW_MARGIN: i64 = 40;

/// A renderer that draws into a canvas in memory.
pub struct RaqoteRenderer {
    raqote: raqote::DrawTarget,
}

impl RaqoteRenderer {
    /// The canvas drawn into.
    pub closed spec fn canvas(&self) -> raqote::DrawTarget {
        self.raqote
    }

    /// Whether a thing at `position` is drawn: its pixel lies no more than
    /// the margin left of or below the canvas, and neither right of nor above
    /// it.
    pub open spec fn shows(&self, position: Point) -> bool {
        &&& -DRAW_MARGIN <= whole_pixels(position.x) < canvas_width(self.canvas())
        &&& -DRAW_MARGIN <= whole_pixels(position.y) < canvas_height(self.canvas())
    }

    /// The renderer that draws into `canvas`.
    pub fn from_target(canvas: raqote::DrawTarget) -> (renderer: Self)
        ensures
            renderer.canvas() == canvas,
    {
        RaqoteRenderer { raqote: canvas }
    }

    /// The canvas, to draw into.
    pub fn target(&mut self) -> (canvas: &mut raqote::DrawTarget)
        ensures
            *canvas == old(self).canvas(),
            final(self).canvas() == *final(canvas),
    {
        &mut self.raqote
    }

    /// The pixels as bytes, four for each pixel, in the byte order of the
    /// machine.
    pub fn get_data_u8(&self) -> (bytes: &[u8])
        ensures
            spells(bytes@, canvas_pixels(self.canvas()), true) || spells(
                bytes@,
                canvas_pixels(self.canvas()),
                false,
            ),
    {
        read_bytes(&self.raqote)
    }

    /// The pixels, row by row.
    pub fn get_data(&self) -> (pixels: &[u32])
        ensures
            pixels@ == canvas_pixels(self.canvas()),
    {
        read_pixels(&self.raqote)
    }

    /// The width of the canvas in pixels.
    pub fn width(&self) -> (width: i32)
        ensures
            width == canvas_width(self.canvas()),
    {
        read_width(&self.raqote)
    }

    /// The height of the canvas in pixels.
    pub fn height(&self) -> (height: i32)
        ensures
            height == canvas_height(self.canvas()),
    {
        read_height(&self.raqote)
    }

    /// Whether a thing at `position` is drawn; see
    /// [`RaqoteRenderer::shows`].
    pub fn visible(&self, position: &Point) -> (drawn: bool)
        ensures
            drawn == self.shows(*position),
    {
        let x: i64 = pixels_in(position.x);
        let y: i64 = pixels_in(position.y);
        -DRAW_MARGIN <= x && x < self.width() as i64 && -DRAW_MARGIN <= y && y
            < self.height() as i64
    }
}

/// The whole pixels in `distance`, rounded towards zero.
pub fn pixels_in(distance: i64) -> (pixels: i64)
    ensures
        pixels == whole_pixels(distance),
{
    distance / GM_ONE_PIXEL
}

} // verus!
