//! The image pipeline: prepares pixel data for each device's wire format.
//!
//! An image is held as plain 8-bit RGB pixel rows. Preparing a key image
//! resizes it to the family's exact key size with nearest-neighbor filtering,
//! applies the family's rotation and mirroring, and encodes the result as the
//! family's container format (raw, BMP or JPEG). The resampling and encoding
//! themselves are done by an image codec library behind trusted wrappers; the
//! pipeline composes them in the fixed order.

use vstd::prelude::*;

use crate::info::{ImageMirroring, ImageMode, ImageRotation, Kind};
use crate::util::zeros;
use crate::StreamDeckError;

verus! {

/// An image as plain values: 8-bit RGB pixels in row-major order.
#[derive(Clone, Debug)]
pub struct ImageData {
    /// Width in pixels
    pub width: u32,
    /// Height in pixels
    pub height: u32,
    /// `width * height` pixels, three bytes each, row by row
    pub pixels: Vec<u8>,
}

impl ImageData {
    /// A well-formed image has at least one pixel and exactly three bytes per
    /// pixel.
    pub open spec fn wf(&self) -> bool {
        &&& self.width >= 1
        &&& self.height >= 1
        &&& self.width * self.height * 3 <= usize::MAX
        &&& self.pixels@.len() == self.width * self.height * 3
    }

    /// Builds an image from its dimensions and pixel bytes, if they agree.
    pub fn new(width: u32, height: u32, pixels: Vec<u8>) -> (r: Option<ImageData>)
        ensures
            r matches Some(img) ==> img.wf() && img.width == width && img.height == height
                && img.pixels@ == pixels@,
            r is Some <==> (width >= 1 && height >= 1 && width * height * 3 <= usize::MAX
                && pixels@.len() == width * height * 3),
    {
        if width >= 1 && height >= 1 {
            proof {
                assert((width as u64) * (height as u64) <= 0xffffffff * 0xffffffff)
                    by (nonlinear_arith)
                    requires
                        width <= 0xffffffffu32,
                        height <= 0xffffffffu32,
                ;
            }
            let wh: u64 = (width as u64) * (height as u64);
            if wh <= usize::MAX as u64 / 3 {
                let byte_len: u64 = wh * 3;
                if pixels.len() as u64 == byte_len {
                    return Some(ImageData { width, height, pixels });
                }
            }
        }
        None
    }
}

/// The pixels of the source image resampled to the target size with
/// nearest-neighbor filtering. The result is a function of its arguments
/// alone; what it is on given values is determined by the resampler relied on
/// below.
pub uninterp spec fn resized_nearest(pixels: Seq<u8>, sw: int, sh: int, tw: int, th: int) -> Seq<
    u8,
>;

/// The pixels scaled, aspect ratio preserved, to cover the target size and
/// cropped to it.
pub uninterp spec fn resized_to_fill(pixels: Seq<u8>, sw: int, sh: int, tw: int, th: int) -> Seq<
    u8,
>;

/// The pixels rotated 90 degrees clockwise.
pub uninterp spec fn rotated90(pixels: Seq<u8>, w: int, h: int) -> Seq<u8>;

/// The pixels rotated 180 degrees.
pub uninterp spec fn rotated180(pixels: Seq<u8>, w: int, h: int) -> Seq<u8>;

/// The pixels rotated 270 degrees clockwise.
pub uninterp spec fn rotated270(pixels: Seq<u8>, w: int, h: int) -> Seq<u8>;

/// The pixels flipped horizontally.
pub uninterp spec fn flipped_h(pixels: Seq<u8>, w: int, h: int) -> Seq<u8>;

/// The pixels flipped vertically.
pub uninterp spec fn flipped_v(pixels: Seq<u8>, w: int, h: int) -> Seq<u8>;

/// The BMP container encoding of an RGB8 pixel buffer.
pub uninterp spec fn bmp_bytes(pixels: Seq<u8>, w: int, h: int) -> Seq<u8>;

/// The JPEG encoding of an RGB8 pixel buffer at the pipeline's fixed quality.
pub uninterp spec fn jpeg_bytes(pixels: Seq<u8>, w: int, h: int) -> Seq<u8>;

/// Relies on image::DynamicImage::resize_exact with nearest-neighbor
/// filtering: the result has exactly the requested dimensions, and the
/// resampled pixels depend on the source pixels and dimensions alone.
#[verifier::external_body]
fn resize_nearest_rgb(pixels: &Vec<u8>, sw: u32, sh: u32, tw: u32, th: u32) -> (r: Vec<u8>)
    requires
        pixels@.len() == sw * sh * 3,
        sw >= 1,
        sh >= 1,
        tw >= 1,
        th >= 1,
        tw * th * 3 <= usize::MAX,
    ensures
        r@ == resized_nearest(pixels@, sw as int, sh as int, tw as int, th as int),
        r@.len() == tw * th * 3,
{
    let img = image::RgbImage::from_raw(sw, sh, pixels.clone()).unwrap();
    let resized = image::DynamicImage::ImageRgb8(img).resize_exact(
        tw,
        th,
        image::imageops::FilterType::Nearest,
    );
    resized.into_rgb8().into_raw()
}

/// Relies on image::DynamicImage::resize_to_fill with nearest-neighbor
/// filtering: the result has exactly the requested dimensions, covered and
/// cropped, and depends on the source pixels and dimensions alone. The
/// source bounds keep the aspect-preserving cover dimension within range, so
/// the resampler never saturates and the crop is exact.
#[verifier::external_body]
fn resize_to_fill_rgb(pixels: &Vec<u8>, sw: u32, sh: u32, tw: u32, th: u32) -> (r: Vec<u8>)
    requires
        pixels@.len() == sw * sh * 3,
        1 <= sw <= 0xffff,
        1 <= sh <= 0xffff,
        1 <= tw <= 0xffff,
        1 <= th <= 0xffff,
        tw * th * 3 <= usize::MAX,
    ensures
        r@ == resized_to_fill(pixels@, sw as int, sh as int, tw as int, th as int),
        r@.len() == tw * th * 3,
{
    let img = image::RgbImage::from_raw(sw, sh, pixels.clone()).unwrap();
    let resized = image::DynamicImage::ImageRgb8(img).resize_to_fill(
        tw,
        th,
        image::imageops::FilterType::Nearest,
    );
    resized.into_rgb8().into_raw()
}

/// Relies on image::DynamicImage::rotate90: the result is the source rotated
/// 90 degrees clockwise, with its dimensions swapped.
#[verifier::external_body]
fn rotate90_rgb(pixels: &Vec<u8>, w: u32, h: u32) -> (r: Vec<u8>)
    requires
        pixels@.len() == w * h * 3,
    ensures
        r@ == rotated90(pixels@, w as int, h as int),
        r@.len() == h * w * 3,
{
    let img = image::RgbImage::from_raw(w, h, pixels.clone()).unwrap();
    image::DynamicImage::ImageRgb8(img).rotate90().into_rgb8().into_raw()
}

/// Relies on image::DynamicImage::rotate180: the result is the source rotated
/// 180 degrees, with the same dimensions.
#[verifier::external_body]
fn rotate180_rgb(pixels: &Vec<u8>, w: u32, h: u32) -> (r: Vec<u8>)
    requires
        pixels@.len() == w * h * 3,
    ensures
        r@ == rotated180(pixels@, w as int, h as int),
        r@.len() == w * h * 3,
{
    let img = image::RgbImage::from_raw(w, h, pixels.clone()).unwrap();
    image::DynamicImage::ImageRgb8(img).rotate180().into_rgb8().into_raw()
}

/// Relies on image::DynamicImage::rotate270: the result is the source rotated
/// 270 degrees clockwise, with its dimensions swapped.
#[verifier::external_body]
fn rotate270_rgb(pixels: &Vec<u8>, w: u32, h: u32) -> (r: Vec<u8>)
    requires
        pixels@.len() == w * h * 3,
    ensures
        r@ == rotated270(pixels@, w as int, h as int),
        r@.len() == h * w * 3,
{
    let img = image::RgbImage::from_raw(w, h, pixels.clone()).unwrap();
    image::DynamicImage::ImageRgb8(img).rotate270().into_rgb8().into_raw()
}

/// Relies on image::DynamicImage::fliph: the result is the source mirrored
/// horizontally, with the same dimensions.
#[verifier::external_body]
fn fliph_rgb(pixels: &Vec<u8>, w: u32, h: u32) -> (r: Vec<u8>)
    requires
        pixels@.len() == w * h * 3,
    ensures
        r@ == flipped_h(pixels@, w as int, h as int),
        r@.len() == w * h * 3,
{
    let img = image::RgbImage::from_raw(w, h, pixels.clone()).unwrap();
    image::DynamicImage::ImageRgb8(img).fliph().into_rgb8().into_raw()
}

/// Relies on image::DynamicImage::flipv: the result is the source mirrored
/// vertically, with the same dimensions.
#[verifier::external_body]
fn flipv_rgb(pixels: &Vec<u8>, w: u32, h: u32) -> (r: Vec<u8>)
    requires
        pixels@.len() == w * h * 3,
    ensures
        r@ == flipped_v(pixels@, w as int, h as int),
        r@.len() == w * h * 3,
{
    let img = image::RgbImage::from_raw(w, h, pixels.clone()).unwrap();
    image::DynamicImage::ImageRgb8(img).flipv().into_rgb8().into_raw()
}

/// Relies on image's BmpEncoder: the output is the BMP container encoding of
/// the RGB8 buffer, a function of the buffer and dimensions alone. Within
/// these bounds the encoder cannot fail: it writes into a byte vector, whose
/// writes never error, and its size and row-padding arithmetic stays in
/// range.
#[verifier::external_body]
fn encode_bmp(pixels: &Vec<u8>, w: u32, h: u32) -> (r: Result<Vec<u8>, StreamDeckError>)
    requires
        pixels@.len() == w * h * 3,
        1 <= w <= 4096,
        1 <= h <= 4096,
    ensures
        r is Ok,
        r matches Ok(b) ==> b@ == bmp_bytes(pixels@, w as int, h as int),
{
    let mut buf = Vec::new();
    let mut encoder = image::codecs::bmp::BmpEncoder::new(&mut buf);
    match encoder.encode(pixels, w, h, image::ColorType::Rgb8) {
        Ok(_) => Ok(buf),
        Err(_) => Err(StreamDeckError::ImageError),
    }
}

/// Relies on image's JpegEncoder at fixed quality 90: the output is the JPEG
/// encoding of the RGB8 buffer, a function of the buffer and dimensions
/// alone. Within a JPEG frame header's dimension range the encoder cannot
/// fail: it writes into a byte vector, whose writes never error.
#[verifier::external_body]
fn encode_jpeg(pixels: &Vec<u8>, w: u32, h: u32) -> (r: Result<Vec<u8>, StreamDeckError>)
    requires
        pixels@.len() == w * h * 3,
        1 <= w <= 0xffff,
        1 <= h <= 0xffff,
    ensures
        r is Ok,
        r matches Ok(b) ==> b@ == jpeg_bytes(pixels@, w as int, h as int),
{
    let mut buf = Vec::new();
    let mut encoder = image::codecs::jpeg::JpegEncoder::new_with_quality(&mut buf, 90);
    match encoder.encode(pixels, w, h, image::ColorType::Rgb8) {
        Ok(_) => Ok(buf),
        Err(_) => Err(StreamDeckError::ImageError),
    }
}

/// The RGB pixel buffer after the three preparation steps of the key-image
/// pipeline: resize to the family's key size, rotate, mirror.
pub open spec fn spec_prepared_pixels(kind: Kind, pixels: Seq<u8>, w: int, h: int) -> Seq<u8> {
    let format = kind.spec_key_image_format();
    let fw = format.size.0 as int;
    let fh = format.size.1 as int;
    let sized = resized_nearest(pixels, w, h, fw, fh);
    let rotated = match format.rotation {
        ImageRotation::Rot0 => sized,
        ImageRotation::Rot90 => rotated90(sized, fw, fh),
        ImageRotation::Rot180 => rotated180(sized, fw, fh),
        ImageRotation::Rot270 => rotated270(sized, fw, fh),
    };
    let rw = spec_rotated_width(kind);
    let rh = spec_rotated_height(kind);
    match format.mirror {
        ImageMirroring::NoMirroring => rotated,
        ImageMirroring::X => flipped_h(rotated, rw, rh),
        ImageMirroring::Y => flipped_v(rotated, rw, rh),
        ImageMirroring::Both => flipped_v(flipped_h(rotated, rw, rh), rw, rh),
    }
}

/// Key-image width after the family's rotation.
pub open spec fn spec_rotated_width(kind: Kind) -> int {
    let format = kind.spec_key_image_format();
    match format.rotation {
        ImageRotation::Rot0 | ImageRotation::Rot180 => format.size.0 as int,
        ImageRotation::Rot90 | ImageRotation::Rot270 => format.size.1 as int,
    }
}

/// Key-image height after the family's rotation.
pub open spec fn spec_rotated_height(kind: Kind) -> int {
    let format = kind.spec_key_image_format();
    match format.rotation {
        ImageRotation::Rot0 | ImageRotation::Rot180 => format.size.1 as int,
        ImageRotation::Rot90 | ImageRotation::Rot270 => format.size.0 as int,
    }
}

/// The device-ready encoding of an image for a family's keys: the prepared
/// pixels in the family's container format, or empty bytes for families
/// without key images.
pub open spec fn spec_convert_image(kind: Kind, pixels: Seq<u8>, w: int, h: int) -> Seq<u8> {
    let format = kind.spec_key_image_format();
    let prepared = spec_prepared_pixels(kind, pixels, w, h);
    let rw = spec_rotated_width(kind);
    let rh = spec_rotated_height(kind);
    match format.mode {
        ImageMode::NoImage => Seq::empty(),
        ImageMode::BMP => bmp_bytes(prepared, rw, rh),
        ImageMode::JPEG => jpeg_bytes(prepared, rw, rh),
    }
}

/// The device-ready encoding of a blank (all-black) key image for a family.
pub open spec fn spec_blank_image(kind: Kind) -> Seq<u8> {
    let format = kind.spec_key_image_format();
    let fw = format.size.0 as int;
    let fh = format.size.1 as int;
    spec_convert_image(kind, zeros((fw * fh * 3) as nat), fw, fh)
}

/// Every family with key images has a square key of a handful of sizes; the
/// families without have size zero and no encoding.
proof fn lemma_key_format_cases(kind: Kind)
    ensures
        kind.spec_key_image_format().mode is NoImage ==> kind.spec_key_image_format().size.0 == 0,
        !(kind.spec_key_image_format().mode is NoImage) ==> {
            &&& 1 <= kind.spec_key_image_format().size.0 <= 120
            &&& kind.spec_key_image_format().size.0 == kind.spec_key_image_format().size.1
        },
{
}

/// Converts an image into the ready-to-transfer image data for a device
/// family's keys: resize to the key size, rotate, mirror, then encode. Every
/// family's key size is within what the encoders accept, so conversion of a
/// well-formed image always succeeds.
pub fn convert_image(kind: Kind, image: &ImageData) -> (r: Result<Vec<u8>, StreamDeckError>)
    requires
        image.wf(),
    ensures
        r is Ok,
        r matches Ok(b) ==> b@ == spec_convert_image(
            kind,
            image.pixels@,
            image.width as int,
            image.height as int,
        ),
{
    let format = kind.key_image_format();
    proof {
        lemma_key_format_cases(kind);
    }
    if matches!(format.mode, ImageMode::NoImage) {
        return Ok(Vec::new());
    }
    let (fw_usize, fh_usize) = format.size;
    let fw = fw_usize as u32;
    let fh = fh_usize as u32;

    let sized = resize_nearest_rgb(&image.pixels, image.width, image.height, fw, fh);

    let (rotated, rw, rh): (Vec<u8>, u32, u32) = match format.rotation {
        ImageRotation::Rot0 => (sized, fw, fh),
        ImageRotation::Rot90 => (rotate90_rgb(&sized, fw, fh), fh, fw),
        ImageRotation::Rot180 => (rotate180_rgb(&sized, fw, fh), fw, fh),
        ImageRotation::Rot270 => (rotate270_rgb(&sized, fw, fh), fh, fw),
    };

    let mirrored: Vec<u8> = match format.mirror {
        ImageMirroring::NoMirroring => rotated,
        ImageMirroring::X => fliph_rgb(&rotated, rw, rh),
        ImageMirroring::Y => flipv_rgb(&rotated, rw, rh),
        ImageMirroring::Both => {
            let flipped = fliph_rgb(&rotated, rw, rh);
            flipv_rgb(&flipped, rw, rh)
        },
    };

    match format.mode {
        ImageMode::NoImage => Ok(Vec::new()),
        ImageMode::BMP => encode_bmp(&mirrored, rw, rh),
        ImageMode::JPEG => encode_jpeg(&mirrored, rw, rh),
    }
}

/// Generates a blank (all-black) key image for a device family, through the
/// same pipeline as any other image.
pub fn generate_blank_image(kind: Kind) -> (r: Result<Vec<u8>, StreamDeckError>)
    ensures
        r is Ok,
        r matches Ok(b) ==> b@ == spec_blank_image(kind),
{
    let format = kind.key_image_format();
    proof {
        lemma_key_format_cases(kind);
    }
    if matches!(format.mode, ImageMode::NoImage) {
        return Ok(Vec::new());
    }
    let (fw_usize, fh_usize) = format.size;
    let byte_len = fw_usize * fh_usize * 3;
    let pixels = crate::util::new_zero_vec(byte_len);
    match ImageData::new(fw_usize as u32, fh_usize as u32, pixels) {
        Some(black) => convert_image(kind, &black),
        None => Err(StreamDeckError::ImageError),
    }
}

/// The pixel buffer with the first and third byte of every three-byte pixel
/// exchanged: RGB rows become BGR rows.
pub open spec fn spec_bgr_swap(s: Seq<u8>) -> Seq<u8> {
    Seq::new(
        s.len(),
        |j: int|
            if j % 3 == 0 && j + 2 < s.len() {
                s[j + 2]
            } else if j % 3 == 2 {
                s[j - 2]
            } else {
                s[j]
            },
    )
}

/// Exchanges the red and blue channel of every pixel in place.
fn bgr_swap(pixels: &mut Vec<u8>)
    requires
        old(pixels)@.len() % 3 == 0,
    ensures
        final(pixels)@ == spec_bgr_swap(old(pixels)@),
{
    let n = pixels.len();
    let mut x: usize = 0;
    while x < n
        invariant
            n == pixels@.len(),
            n == old(pixels)@.len(),
            n % 3 == 0,
            x % 3 == 0,
            x <= n,
            forall|j: int| 0 <= j < x ==> pixels@[j] == spec_bgr_swap(old(pixels)@)[j],
            forall|j: int| x <= j < n ==> pixels@[j] == old(pixels)@[j],
        decreases n - x,
    {
        let a = pixels[x];
        let c = pixels[x + 2];
        pixels[x] = c;
        pixels[x + 2] = a;
        x += 3;
    }
    assert(pixels@ =~= spec_bgr_swap(old(pixels)@));
}

/// The logo payload: the source covered and cropped to the logo screen,
/// rotated a quarter turn clockwise and mirrored both ways, with the red and
/// blue channel of every pixel exchanged.
pub open spec fn spec_logo_payload(pixels: Seq<u8>, w: int, h: int) -> Seq<u8> {
    spec_bgr_swap(
        flipped_v(
            flipped_h(rotated90(resized_to_fill(pixels, w, h, 854, 480), 854, 480), 480, 854),
            480,
            854,
        ),
    )
}

/// Prepares an image for a full-screen logo upload.
pub fn logo_pixels(image: &ImageData) -> (r: Vec<u8>)
    requires
        image.wf(),
        image.width <= 0xffff,
        image.height <= 0xffff,
    ensures
        r@ == spec_logo_payload(image.pixels@, image.width as int, image.height as int),
{
    let filled = resize_to_fill_rgb(&image.pixels, image.width, image.height, 854, 480);
    let rotated = rotate90_rgb(&filled, 854, 480);
    let flipped = fliph_rgb(&rotated, 480, 854);
    let mut swapped = flipv_rgb(&flipped, 480, 854);
    bgr_swap(&mut swapped);
    swapped
}

/// Rect to be used when trying to send image to lcd screen
#[derive(Clone, Debug)]
pub struct ImageRect {
    /// Width of the image
    pub w: u16,
    /// Height of the image
    pub h: u16,
    /// JPEG-encoded image data
    pub data: Vec<u8>,
}

impl ImageRect {
    /// Converts an image to an image rect for an LCD region write: the pixels
    /// JPEG-encoded at their own dimensions.
    pub fn from_image(image: &ImageData) -> (r: Result<ImageRect, StreamDeckError>)
        requires
            image.wf(),
            image.width <= 0xffff,
            image.height <= 0xffff,
        ensures
            r is Ok,
            r matches Ok(rect) ==> {
                &&& rect.w == image.width
                &&& rect.h == image.height
                &&& rect.data@ == jpeg_bytes(image.pixels@, image.width as int, image.height as int)
            },
    {
        let data = encode_jpeg(&image.pixels, image.width, image.height)?;
        Ok(ImageRect { w: image.width as u16, h: image.height as u16, data })
    }
}

} // verus!
