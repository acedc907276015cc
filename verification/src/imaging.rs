//! The calls into the `image` crate: decoding and encoding JPEG, the five
//! flips and turns, resampling, and copying one picture into another.
//!
//! Pictures cross this boundary as plain values: two sides and the samples.
//! Nothing in this file is proved; each contract says what the crate's
//! source shows.

use crate::raster::{sample_index, RasterView};
use image::codecs::jpeg::JpegEncoder;
use image::imageops::FilterType;
use image::{ColorType, ImageBuffer, ImageError, ImageFormat, Rgba};
use vstd::prelude::*;

verus! {

/// The error type of the `image` crate.
#[verifier::external_type_specification]
#[verifier::external_body]
pub struct ExImageError(ImageError);

/// The kernel used to resample a picture.
#[derive(Clone, Copy, Debug)]
pub enum Resampling {
    /// The nearest pixel.
    Nearest,
    /// Linear interpolation.
    Triangle,
    /// The cubic spline of Catmull and Rom.
    CatmullRom,
    /// A Gaussian.
    Gaussian,
    /// The sinc function, windowed to three lobes.
    Lanczos3,
}

/// The picture with the given sides and samples.
pub open spec fn picture(width: u32, height: u32, samples: Seq<u8>) -> RasterView {
    RasterView { width: width as nat, height: height as nat, samples }
}

/// The JPEG file that the encoder of the `image` crate writes for a picture,
/// at its default quality, or `None` where it refuses the picture.
pub uninterp spec fn jpeg_encoding(samples: Seq<u8>, width: nat, height: nat) -> Option<Seq<u8>>;

/// Calls `image::load_from_memory_with_format` for the JPEG format and
/// converts the picture to eight-bit RGBA with `DynamicImage::into_rgba8`.
/// Claims nothing of what comes back: the decoder picks its arithmetic by the
/// processor it runs on, so that the samples may differ from one machine to
/// another.
#[verifier::external_body]
pub(crate) fn decode_jpeg(bytes: &[u8]) -> (r: Result<(u32, u32, Vec<u8>), ImageError>) {
    let decoded = image::load_from_memory_with_format(bytes, ImageFormat::Jpeg)?.into_rgba8();
    Ok((decoded.width(), decoded.height(), decoded.into_raw()))
}

/// Calls `JpegEncoder::new` and `JpegEncoder::encode` on RGBA samples, writing
/// into a vector. Claims that the outcome is a function of the picture: the
/// encoder works in integers and in sums, products, quotients and roundings
/// of single precision, which come out the same wherever they are computed.
/// Claims also that a picture whose sides fit 16 bits is encoded: the one
/// refusal of the encoder is that of a longer side, and writing into a
/// vector does not fail.
#[verifier::external_body]
pub(crate) fn encode_jpeg(width: u32, height: u32, samples: &Vec<u8>) -> (r: Result<
    Vec<u8>,
    ImageError,
>)
    requires
        picture(width, height, samples@).wf(),
    ensures
        match r {
            Ok(bytes) => jpeg_encoding(samples@, width as nat, height as nat) == Some(bytes@),
            Err(_) => jpeg_encoding(samples@, width as nat, height as nat) is None,
        },
        (width <= 0xffff && height <= 0xffff) ==> r is Ok,
{
    let mut out = Vec::new();
    JpegEncoder::new(&mut out).encode(samples.as_slice(), width, height, ColorType::Rgba8)?;
    Ok(out)
}

/// Calls `image::imageops::flip_horizontal`, which writes the pixel `(x, y)`
/// of the source to `(width - 1 - x, y)` of a picture of the same size.
#[verifier::external_body]
pub(crate) fn flip_horizontal(width: u32, height: u32, samples: &Vec<u8>) -> (out: Vec<u8>)
    requires
        picture(width, height, samples@).wf(),
    ensures
        out@.len() == samples@.len(),
        forall|x: int, y: int, c: int|
            0 <= x < width && 0 <= y < height && 0 <= c < 4 ==> out@[sample_index(
                width as nat,
                width - 1 - x,
                y,
                c,
            )] == samples@[#[trigger] sample_index(width as nat, x, y, c)],
{
    let source = ImageBuffer::<Rgba<u8>, &[u8]>::from_raw(width, height, samples).unwrap();
    image::imageops::flip_horizontal(&source).into_raw()
}

/// Calls `image::imageops::flip_vertical`, which writes the pixel `(x, y)` of
/// the source to `(x, height - 1 - y)` of a picture of the same size.
#[verifier::external_body]
pub(crate) fn flip_vertical(width: u32, height: u32, samples: &Vec<u8>) -> (out: Vec<u8>)
    requires
        picture(width, height, samples@).wf(),
    ensures
        out@.len() == samples@.len(),
        forall|x: int, y: int, c: int|
            0 <= x < width && 0 <= y < height && 0 <= c < 4 ==> out@[sample_index(
                width as nat,
                x,
                height - 1 - y,
                c,
            )] == samples@[#[trigger] sample_index(width as nat, x, y, c)],
{
    let source = ImageBuffer::<Rgba<u8>, &[u8]>::from_raw(width, height, samples).unwrap();
    image::imageops::flip_vertical(&source).into_raw()
}

/// Calls `image::imageops::rotate90`, which makes a picture `height` wide and
/// `width` high and writes the pixel `(x, y)` of the source to
/// `(height - 1 - y, x)`.
#[verifier::external_body]
pub(crate) fn rotate90(width: u32, height: u32, samples: &Vec<u8>) -> (out: Vec<u8>)
    requires
        picture(width, height, samples@).wf(),
    ensures
        out@.len() == samples@.len(),
        forall|x: int, y: int, c: int|
            0 <= x < width && 0 <= y < height && 0 <= c < 4 ==> out@[sample_index(
                height as nat,
                height - 1 - y,
                x,
                c,
            )] == samples@[#[trigger] sample_index(width as nat, x, y, c)],
{
    let source = ImageBuffer::<Rgba<u8>, &[u8]>::from_raw(width, height, samples).unwrap();
    image::imageops::rotate90(&source).into_raw()
}

/// Calls `image::imageops::rotate180`, which writes the pixel `(x, y)` of the
/// source to `(width - 1 - x, height - 1 - y)` of a picture of the same size.
#[verifier::external_body]
pub(crate) fn rotate180(width: u32, height: u32, samples: &Vec<u8>) -> (out: Vec<u8>)
    requires
        picture(width, height, samples@).wf(),
    ensures
        out@.len() == samples@.len(),
        forall|x: int, y: int, c: int|
            0 <= x < width && 0 <= y < height && 0 <= c < 4 ==> out@[sample_index(
                width as nat,
                width - 1 - x,
                height - 1 - y,
                c,
            )] == samples@[#[trigger] sample_index(width as nat, x, y, c)],
{
    let source = ImageBuffer::<Rgba<u8>, &[u8]>::from_raw(width, height, samples).unwrap();
    image::imageops::rotate180(&source).into_raw()
}

/// Calls `image::imageops::rotate270`, which makes a picture `height` wide
/// and `width` high and writes the pixel `(x, y)` of the source to
/// `(y, width - 1 - x)`.
#[verifier::external_body]
pub(crate) fn rotate270(width: u32, height: u32, samples: &Vec<u8>) -> (out: Vec<u8>)
    requires
        picture(width, height, samples@).wf(),
    ensures
        out@.len() == samples@.len(),
        forall|x: int, y: int, c: int|
            0 <= x < width && 0 <= y < height && 0 <= c < 4 ==> out@[sample_index(
                height as nat,
                y,
                width - 1 - x,
                c,
            )] == samples@[#[trigger] sample_index(width as nat, x, y, c)],
{
    let source = ImageBuffer::<Rgba<u8>, &[u8]>::from_raw(width, height, samples).unwrap();
    image::imageops::rotate270(&source).into_raw()
}

/// Calls `image::imageops::resize`. Claims the number of samples that come
/// back, and that a picture asked for in its own size comes back as it is:
/// the call copies it then. Of a picture of another size it claims no sample:
/// the kernels are evaluated in floating point, with a sine whose last digit
/// the platform decides. The two size limits are those of the buffers that
/// the call allocates: one of `width` by `new_height` pixels with four 32-bit
/// samples each, and the result.
#[verifier::external_body]
pub(crate) fn resize(
    width: u32,
    height: u32,
    samples: &Vec<u8>,
    new_width: u32,
    new_height: u32,
    kernel: Resampling,
) -> (out: Vec<u8>)
    requires
        picture(width, height, samples@).wf(),
        new_width >= 1,
        new_height >= 1,
        16 * (width * new_height) <= isize::MAX,
        4 * (new_width * new_height) <= isize::MAX,
    ensures
        out@.len() == 4 * (new_width * new_height),
        (new_width == width && new_height == height) ==> out@ == samples@,
{
    let source = ImageBuffer::<Rgba<u8>, &[u8]>::from_raw(width, height, samples).unwrap();
    let filter = match kernel {
        Resampling::Nearest => FilterType::Nearest,
        Resampling::Triangle => FilterType::Triangle,
        Resampling::CatmullRom => FilterType::CatmullRom,
        Resampling::Gaussian => FilterType::Gaussian,
        Resampling::Lanczos3 => FilterType::Lanczos3,
    };
    image::imageops::resize(&source, new_width, new_height, filter).into_raw()
}

/// Calls `ImageBuffer::from_pixel`, which makes a picture all of whose pixels
/// are the given one.
#[verifier::external_body]
pub(crate) fn filled(width: u32, height: u32, pixel: [u8; 4]) -> (out: Vec<u8>)
    requires
        4 * (width * height) <= isize::MAX,
    ensures
        out@.len() == 4 * (width * height),
        forall|i: int| 0 <= i < out@.len() ==> out@[i] == pixel@[i % 4],
{
    ImageBuffer::from_pixel(width, height, Rgba(pixel)).into_raw()
}

/// Calls `image::imageops::replace` with a `top` picture that lies inside
/// `bottom` when its corner is put at `(x0, y0)`. The call writes the pixel
/// `(x, y)` of `top` to `(x0 + x, y0 + y)` of `bottom` and leaves the other
/// pixels of `bottom` as they are.
#[verifier::external_body]
pub(crate) fn replace(
    bottom: &mut Vec<u8>,
    bottom_width: u32,
    bottom_height: u32,
    top: &Vec<u8>,
    top_width: u32,
    top_height: u32,
    x0: u32,
    y0: u32,
)
    requires
        picture(bottom_width, bottom_height, old(bottom)@).wf(),
        picture(top_width, top_height, top@).wf(),
        x0 + top_width <= bottom_width,
        y0 + top_height <= bottom_height,
    ensures
        final(bottom)@.len() == old(bottom)@.len(),
        forall|x: int, y: int, c: int|
            0 <= x < top_width && 0 <= y < top_height && 0 <= c < 4 ==> final(bottom)@[sample_index(
                bottom_width as nat,
                x0 + x,
                y0 + y,
                c,
            )] == top@[#[trigger] sample_index(top_width as nat, x, y, c)],
        forall|x: int, y: int, c: int|
            0 <= x < bottom_width && 0 <= y < bottom_height && 0 <= c < 4 && !(x0 <= x < x0
                + top_width && y0 <= y < y0 + top_height) ==> final(bottom)@[#[trigger] sample_index(
                bottom_width as nat,
                x,
                y,
                c,
            )] == old(bottom)@[sample_index(bottom_width as nat, x, y, c)],
{
    let mut under = ImageBuffer::<Rgba<u8>, &mut [u8]>::from_raw(
        bottom_width,
        bottom_height,
        bottom.as_mut_slice(),
    ).unwrap();
    let over = ImageBuffer::<Rgba<u8>, &[u8]>::from_raw(top_width, top_height, top).unwrap();
    image::imageops::replace(&mut under, &over, i64::from(x0), i64::from(y0));
}

} // verus!
