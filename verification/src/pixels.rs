//! Page bitmaps: four bytes a pixel, red, green, blue and alpha.

use vstd::prelude::*;

use crate::scalar::Scalar;

verus! {

/// A colour of eight bits a channel, as it is painted into a bitmap.
#[derive(Clone, Copy, Debug, PartialEq, Eq, Structural)]
pub struct Ink {
    pub red: u8,
    pub green: u8,
    pub blue: u8,
}

impl Ink {
    /// The byte of the channel at offset `channel` of a pixel.
    pub open spec fn channel(self, channel: int) -> u8 {
        if channel == 0 {
            self.red
        } else if channel == 1 {
            self.green
        } else {
            self.blue
        }
    }
}

/// How the PDF engine has to draw a page into a bitmap.
#[derive(Clone, Copy, Debug, PartialEq, Eq, Structural)]
pub struct RenderOptions {
    /// The bitmap's width in pixels.
    pub width: i32,
    /// The bitmap's height in pixels.
    pub height: i32,
    /// The page's number of pixels a point.
    pub scale: Scalar,
    /// Whether blank areas are left transparent.
    pub transparent_background: bool,
    /// Whether annotations are drawn too.
    pub annotations: bool,
    /// Whether text is smoothed by subpixels, for one known background.
    pub subpixel_text: bool,
}

/// How the PDF engine has to draw a page into a bitmap of `width` by `height` pixels: with its
/// annotations, on nothing, and without subpixel smoothing, which would assume a background of
/// one known colour where the blur shows through.
pub fn render_options(width: u32, height: u32, scale: Scalar) -> (options: RenderOptions)
    ensures
        options.width == width as i32,
        options.height == height as i32,
        options.scale == scale,
        options.transparent_background,
        options.annotations,
        !options.subpixel_text,
{
    RenderOptions {
        width: width as i32,
        height: height as i32,
        scale,
        transparent_background: true,
        annotations: true,
        subpixel_text: false,
    }
}

/// Where the alpha byte of the pixel stands to which byte `i` belongs.
pub open spec fn alpha_index(i: int) -> int {
    i / 4 * 4 + 3
}

/// Whether byte `i` is a colour byte of a whole pixel that has been painted at all.
pub open spec fn is_painted(bytes: Seq<u8>, i: int) -> bool {
    i % 4 != 3 && alpha_index(i) < bytes.len() && bytes[alpha_index(i)] > 0
}

/// The bitmap in which every painted pixel has the colour `ink`. Alpha bytes, pixels that are
/// fully transparent, and bytes beyond the last whole pixel are as before.
pub open spec fn recolored(bytes: Seq<u8>, ink: Ink) -> Seq<u8> {
    Seq::new(
        bytes.len(),
        |i: int|
            if is_painted(bytes, i) {
                ink.channel(i % 4)
            } else {
                bytes[i]
            },
    )
}

/// Gives every painted pixel the colour `ink` and leaves its alpha alone, so that the edges that
/// were smoothed still blend.
pub fn recolor(pixels: &mut Vec<u8>, ink: Ink)
    ensures
        final(pixels)@ == recolored(old(pixels)@, ink),
{
    let ghost before = pixels@;
    let len: usize = pixels.len();
    let mut done: usize = 0;
    while len - done >= 4
        invariant
            len == before.len(),
            pixels@.len() == len,
            done <= len,
            done % 4 == 0,
            forall|i: int| 0 <= i < done ==> pixels@[i] == recolored(before, ink)[i],
            forall|i: int| done <= i < len ==> pixels@[i] == before[i],
        decreases len - done,
    {
        if pixels[done + 3] > 0 {
            pixels.set(done, ink.red);
            pixels.set(done + 1, ink.green);
            pixels.set(done + 2, ink.blue);
        }
        proof {
            assert forall|i: int| done <= i < done + 4 implies pixels@[i] == recolored(
                before,
                ink,
            )[i] by {
                assert(alpha_index(i) == done + 3);
                assert(i % 4 == i - done);
            }
        }
        done += 4;
    }
    proof {
        assert forall|i: int| done <= i < len implies before[i] == recolored(before, ink)[i] by {
            assert(alpha_index(i) == done + 3);
        }
        assert(pixels@ =~= recolored(before, ink));
    }
}

/// Recolouring changes no alpha byte and no transparent pixel, and keeps the bitmap's size.
pub proof fn law_recolor_keeps_alpha(bytes: Seq<u8>, ink: Ink)
    ensures
        recolored(bytes, ink).len() == bytes.len(),
        forall|i: int|
            0 <= i < bytes.len() && i % 4 == 3 ==> recolored(bytes, ink)[i] == bytes[i],
        forall|i: int|
            0 <= i < bytes.len() && alpha_index(i) < bytes.len() && bytes[alpha_index(i)] == 0
                ==> recolored(bytes, ink)[i] == bytes[i],
{
}

/// Only the last of several recolourings shows.
pub proof fn law_last_ink_wins(bytes: Seq<u8>, first: Ink, second: Ink)
    ensures
        recolored(recolored(bytes, first), second) == recolored(bytes, second),
{
    let once = recolored(bytes, first);
    assert forall|i: int| 0 <= i < bytes.len() implies recolored(once, second)[i] == recolored(
        bytes,
        second,
    )[i] by {
        let a = alpha_index(i);
        assert(a % 4 == 3);
        if a < bytes.len() {
            assert(once[a] == bytes[a]);
        }
    }
    assert(recolored(once, second) =~= recolored(bytes, second));
}

/// Every pixel that has been painted at all, wherever it is in the bitmap, gets the ink's red,
/// green and blue, and keeps its alpha.
pub proof fn law_painted_pixels_get_the_ink(bytes: Seq<u8>, ink: Ink, pixel: int)
    requires
        0 <= pixel,
        4 * pixel + 3 < bytes.len(),
        bytes[4 * pixel + 3] > 0,
    ensures
        recolored(bytes, ink)[4 * pixel] == ink.red,
        recolored(bytes, ink)[4 * pixel + 1] == ink.green,
        recolored(bytes, ink)[4 * pixel + 2] == ink.blue,
        recolored(bytes, ink)[4 * pixel + 3] == bytes[4 * pixel + 3],
{
    let i = 4 * pixel;
    assert(i / 4 == pixel && (i + 1) / 4 == pixel && (i + 2) / 4 == pixel && (i + 3) / 4 == pixel);
    assert(i % 4 == 0 && (i + 1) % 4 == 1 && (i + 2) % 4 == 2 && (i + 3) % 4 == 3);
}

/// A pixel that is fully transparent stays as it is, and so does what is too short for a pixel at
/// the bitmap's end.
pub proof fn law_blank_pixels_stay(bytes: Seq<u8>, ink: Ink, i: int)
    requires
        0 <= i < bytes.len(),
        i / 4 * 4 + 3 >= bytes.len() || bytes[i / 4 * 4 + 3] == 0,
    ensures
        recolored(bytes, ink).len() == bytes.len(),
        recolored(bytes, ink)[i] == bytes[i],
{
}

} // verus!
