//! Handing a finished frame to a PNG encoder, in memory. Writing the bytes to
//! a file is left to the caller.
use image::codecs::png::PngEncoder;
use image::{ColorType, ImageEncoder};
use vstd::prelude::*;

verus! {

#[verifier::external_type_specification]
#[verifier::external_body]
pub struct ExImageError(image::ImageError);

/// The PNG file that the `image` crate writes for an RGB8 frame of the given
/// size.
pub uninterp spec fn png_of(pixels: Seq<u8>, width: nat, height: nat) -> Seq<u8>;

/// Why a frame could not be encoded.
#[derive(Clone, Copy, Debug, PartialEq, Eq, Structural)]
pub enum EncodeError {
    /// The width or the height does not fit the format's 32-bit sizes.
    TooLarge,
    /// The frame does not hold three bytes for each pixel.
    WrongLength,
    /// The frame has no pixels, which the format does not allow.
    EmptyImage,
    /// The encoder reported a failure.
    Encoder,
}

/// Relies on `image::codecs::png::PngEncoder::write_image` (the `ImageEncoder`
/// method), writing into a `Vec<u8>`: it panics unless the buffer holds three
/// bytes per pixel for `ColorType::Rgb8`, hence the `requires`. The png crate's
/// header check refuses only a zero width or height, and writing into a vector
/// cannot fail, so any other frame is encoded; what it writes is named `png_of`.
#[verifier::external_body]
fn write_png(pixels: &Vec<u8>, width: u32, height: u32) -> (r: Result<Vec<u8>, image::ImageError>)
    requires
        pixels@.len() == 3 * width * height,
    ensures
        width > 0 && height > 0 ==> r is Ok,
        r matches Ok(bytes) ==> bytes@ == png_of(pixels@, width as nat, height as nat),
{
    let mut out: Vec<u8> = Vec::new();
    match PngEncoder::new(&mut out).write_image(pixels, width, height, ColorType::Rgb8) {
        Ok(()) => Ok(out),
        Err(e) => Err(e),
    }
}

/// Encodes an RGB8 frame (row-major from the top row, three bytes per pixel)
/// as a PNG file.
pub fn encode_png(pixels: &Vec<u8>, width: usize, height: usize) -> (r: Result<Vec<u8>, EncodeError>)
    ensures
        r == Err::<Vec<u8>, EncodeError>(EncodeError::TooLarge) <==> (width > u32::MAX || height
            > u32::MAX),
        r == Err::<Vec<u8>, EncodeError>(EncodeError::WrongLength) <==> {
            &&& width <= u32::MAX
            &&& height <= u32::MAX
            &&& pixels@.len() != 3 * width * height
        },
        r == Err::<Vec<u8>, EncodeError>(EncodeError::EmptyImage) <==> {
            &&& width <= u32::MAX
            &&& height <= u32::MAX
            &&& pixels@.len() == 3 * width * height
            &&& (width == 0 || height == 0)
        },
        r is Ok <==> {
            &&& width <= u32::MAX
            &&& height <= u32::MAX
            &&& pixels@.len() == 3 * width * height
            &&& width > 0
            &&& height > 0
        },
        r matches Ok(bytes) ==> bytes@ == png_of(pixels@, width as nat, height as nat),
{
    if width > u32::MAX as usize || height > u32::MAX as usize {
        return Err(EncodeError::TooLarge);
    }
    let len = pixels.len();
    let expected = match width.checked_mul(height) {
        Some(area) => area.checked_mul(3),
        None => None,
    };
    assert(3 * width * height == (width * height) * 3) by (nonlinear_arith);
    match expected {
        Some(n) => {
            if len != n {
                return Err(EncodeError::WrongLength);
            }
        },
        None => {
            assert((width * height) * 3 >= width * height) by (nonlinear_arith)
                requires
                    width * height >= 0,
            ;
            return Err(EncodeError::WrongLength);
        },
    }
    if width == 0 || height == 0 {
        return Err(EncodeError::EmptyImage);
    }
    match write_png(pixels, width as u32, height as u32) {
        Ok(bytes) => Ok(bytes),
        Err(_) => Err(EncodeError::Encoder),
    }
}

} // verus!
