//! Images embedded in the document: read in any format the `image` crate
//! knows, and written as PNG together with their pixel size.
use vstd::prelude::*;
use image::{DynamicImage, GenericImageView, ImageError, ImageFormat};

verus! {

#[verifier::external_type_specification]
#[verifier::external_body]
pub struct ExDynamicImage(DynamicImage);

#[verifier::external_type_specification]
#[verifier::external_body]
pub struct ExImageError(ImageError);

/// `image::load_from_memory`: guesses the format from the bytes and decodes
/// them.  Nothing is stated of the outcome: besides the bytes, it depends on
/// the decoding and format-detection hooks registered in the process.
#[verifier::external_body]
fn load_from_memory(buf: &[u8]) -> Result<DynamicImage, ImageError> {
    image::load_from_memory(buf)
}

/// `GenericImageView::dimensions` of a decoded image: its width and height
/// in pixels.  Nothing is stated of the numbers, which the opaque image holds.
#[verifier::external_body]
fn dimensions(img: &DynamicImage) -> (u32, u32) {
    img.dimensions()
}

/// `DynamicImage::write_to` with `ImageFormat::Png` into a memory buffer:
/// the PNG encoding of the image, or the encoder's error.  Nothing is stated
/// of the bytes.
#[verifier::external_body]
fn write_png(img: &DynamicImage) -> Result<Vec<u8>, ImageError> {
    let mut out = std::io::Cursor::new(Vec::new());
    match img.write_to(&mut out, ImageFormat::Png) {
        Ok(()) => Ok(out.into_inner()),
        Err(e) => Err(e),
    }
}

/// The text of an `ImageError` (its `Display`).  Nothing is stated of it.
#[verifier::external_body]
fn error_text(e: &ImageError) -> String {
    format!("{}", e)
}

/// Why an image could not be turned into PNG, with the reader's or writer's message.
#[derive(Debug)]
pub enum ImageFailure {
    /// The bytes are not an image in a format that can be read.
    Unreadable(String),
    /// The image could not be written as PNG.
    Unwritable(String),
}

impl ImageFailure {
    /// The message of the failure.
    pub fn message(&self) -> (r: String)
        ensures
            r@ == match self {
                ImageFailure::Unreadable(m) => m@,
                ImageFailure::Unwritable(m) => m@,
            },
    {
        match self {
            ImageFailure::Unreadable(m) => m.clone(),
            ImageFailure::Unwritable(m) => m.clone(),
        }
    }
}

/// An image written as PNG, with its width and height in pixels.
#[derive(Debug)]
pub struct PngImage {
    pub png: Vec<u8>,
    pub width: u32,
    pub height: u32,
}

/// Puts the outcome of the PNG encoder together with the image's size: the
/// encoded bytes with `width` and `height` as they are, or the encoder's
/// message as an unwritable image.
pub fn png_image(width: u32, height: u32, encoded: Result<Vec<u8>, String>) -> (r: Result<
    PngImage,
    ImageFailure,
>)
    ensures
        match encoded {
            Ok(b) => r matches Ok(p) && p.png@ == b@ && p.width == width && p.height == height,
            Err(m) => r matches Err(ImageFailure::Unwritable(n)) && n@ == m@,
        },
{
    match encoded {
        Ok(png) => Ok(PngImage { png, width, height }),
        Err(m) => Err(ImageFailure::Unwritable(m)),
    }
}

/// Reads the image in `buf` in any format the `image` crate knows and gives
/// it as PNG with its width and height in pixels (see [`png_image`]); it
/// fails as unreadable when the reader refuses the bytes.  What the reader
/// and the encoder give back is not stated: it depends on the bytes and on
/// the hooks registered in the process.
pub fn convert_to_png_with_dimensions(buf: &[u8]) -> Result<PngImage, ImageFailure> {
    let img = match load_from_memory(buf) {
        Ok(img) => img,
        Err(e) => return Err(ImageFailure::Unreadable(error_text(&e))),
    };
    let (width, height) = dimensions(&img);
    let encoded = match write_png(&img) {
        Ok(png) => Ok(png),
        Err(e) => Err(error_text(&e)),
    };
    png_image(width, height, encoded)
}

} // verus!
