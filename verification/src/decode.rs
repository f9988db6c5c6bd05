//! The work of the worker that decodes an image, once the decoder has done its
//! part: from the red, green, blue and alpha values of the pixels to the pixels
//! that are shown.

use vstd::prelude::*;
use vstd::arithmetic::div_mod::{
    lemma_div_multiples_vanish, lemma_fundamental_div_mod, lemma_mod_multiples_basic,
};
use crate::content::{Pixel, PostId};
use crate::fetch::Message;
use crate::Error;

verus! {

/// Whether `pixel` can be what a colour with the values `r`, `g`, `b` and the
/// alpha `a` becomes once its colours are multiplied by its alpha: the alpha
/// stays, an opaque colour stays as it is, and a fully transparent one has no
/// colour left. In between, the colours depend on rounding.
pub open spec fn multiplied_from(pixel: Pixel, r: u8, g: u8, b: u8, a: u8) -> bool {
    &&& pixel.a == a
    &&& a == 255 ==> pixel.r == r && pixel.g == g && pixel.b == b
    &&& a == 0 ==> pixel.r == 0 && pixel.g == 0 && pixel.b == 0
}

/// `Color32::from_rgba_unmultiplied`: the colour with its red, green and blue
/// multiplied by its alpha.
#[verifier::external_body]
fn premultiplied(r: u8, g: u8, b: u8, a: u8) -> (pixel: Pixel)
    ensures
        multiplied_from(pixel, r, g, b, a),
{
    let color = egui::Color32::from_rgba_unmultiplied(r, g, b, a);
    Pixel { r: color.r(), g: color.g(), b: color.b(), a: color.a() }
}

/// Whether `pixels` can be the pixels of the image with the values `raw`, four
/// for every pixel.
pub open spec fn pixels_from(pixels: Seq<Pixel>, raw: Seq<u8>) -> bool {
    &&& raw.len() == 4 * pixels.len()
    &&& forall|i: int|
        0 <= i < pixels.len() ==> multiplied_from(
            #[trigger] pixels[i],
            raw[4 * i],
            raw[4 * i + 1],
            raw[4 * i + 2],
            raw[4 * i + 3],
        )
}

/// The pixels of an image from their red, green, blue and alpha values.
pub fn pixels_of(raw: &Vec<u8>) -> (pixels: Vec<Pixel>)
    requires
        raw@.len() % 4 == 0,
    ensures
        pixels_from(pixels@, raw@),
{
    let mut pixels: Vec<Pixel> = Vec::new();
    let count: usize = raw.len() / 4;
    let mut i: usize = 0;
    while i < count
        invariant
            i <= count,
            raw@.len() == 4 * count,
            4 * count <= usize::MAX,
            pixels@.len() == i,
            forall|k: int|
                0 <= k < i ==> multiplied_from(
                    #[trigger] pixels@[k],
                    raw@[4 * k],
                    raw@[4 * k + 1],
                    raw@[4 * k + 2],
                    raw@[4 * k + 3],
                ),
        decreases count - i,
    {
        let at: usize = 4 * i;
        pixels.push(premultiplied(raw[at], raw[at + 1], raw[at + 2], raw[at + 3]));
        i += 1;
    }
    pixels
}

/// Whether `len` values are the red, green, blue and alpha of every pixel of an
/// image that is `width` pixels wide and `height` pixels high.
pub open spec fn fills(len: nat, width: nat, height: nat) -> bool {
    len == 4 * (width * height)
}

/// Whether `len` values fill an image of `width` by `height` pixels.
fn fits(len: usize, width: usize, height: usize) -> (fitting: bool)
    ensures
        fitting == fills(len as nat, width as nat, height as nat),
{
    if len % 4 != 0 {
        return false;
    }
    let count: usize = len / 4;
    if width == 0 {
        assert(width * height == 0) by (nonlinear_arith)
            requires
                width == 0,
        ;
        count == 0
    } else {
        proof {
            lemma_fundamental_div_mod(count as int, width as int);
            lemma_div_multiples_vanish(height as int, width as int);
            lemma_mod_multiples_basic(height as int, width as int);
            assert(height * width == width * height) by (nonlinear_arith);
        }
        count % width == 0 && count / width == height
    }
}

/// The outcome that `message` has to be for what the decoder made of the image
/// of item `post_id`: the pixels with the width and the height of the image,
/// where the decoder handed over the values of `width` times `height` pixels;
/// the failure, where it handed over nothing or values that do not fill the
/// image.
pub open spec fn reports<F, A>(
    message: Message<F, A>,
    loaded: Option<(Vec<u8>, usize, usize)>,
    post_id: PostId,
) -> bool {
    match loaded {
        Some((raw, width, height)) => if fills(raw@.len(), width as nat, height as nat) {
            &&& message matches Message::ImageDecoded(pixels, size, index)
            &&& index == post_id
            &&& size == (width, height)
            &&& pixels@.len() == width * height
            &&& pixels_from(pixels@, raw@)
        } else {
            message == Message::<F, A>::Failed(Error::DecodeError(post_id))
        },
        None => message == Message::<F, A>::Failed(Error::DecodeError(post_id)),
    }
}

/// The outcome to report for the image of item `post_id`, from what the decoder
/// made of its bytes: the values of its pixels, four for each, row by row, with
/// its width and its height; or nothing, where the bytes held no image.
pub fn decoded_message<F, A>(loaded: Option<(Vec<u8>, usize, usize)>, post_id: PostId) -> (message:
    Message<F, A>)
    ensures
        reports(message, loaded, post_id),
{
    match loaded {
        Some((raw, width, height)) => {
            if fits(raw.len(), width, height) {
                let pixels = pixels_of(&raw);
                Message::ImageDecoded(pixels, (width, height), post_id)
            } else {
                Message::Failed(Error::DecodeError(post_id))
            }
        },
        None => Message::Failed(Error::DecodeError(post_id)),
    }
}

} // verus!
