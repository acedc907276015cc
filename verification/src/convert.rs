//! The conversion of one photograph: from the bytes of its file to the bytes
//! of the canvas file and the name to write them under.

use crate::compose::{compose, frames, resamplable};
use crate::error::ConvertError;
use crate::imaging::{decode_jpeg, encode_jpeg, jpeg_encoding, picture};
use crate::metadata::{
    read_unread_fields, recorded_naming, recorded_orientation, recorded_unread, resolve,
};
use crate::naming::Naming;
use crate::orientation::{oriented, Orientation};
use crate::raster::{Raster, RasterView};
use crate::scaling::{fitted_height, fitted_width};
use crate::timestamp::{text_of, DateField};
use image::ImageError;
use vstd::prelude::*;

verus! {

/// A converted photograph: what its file is named after, the bytes of the
/// file, and the date-time fields of the metadata that could not be read on
/// the way to the name.
#[derive(Debug)]
pub struct Converted {
    pub naming: Naming,
    pub jpeg: Vec<u8>,
    pub unread: Vec<DateField>,
}

/// Whether `jpeg` is the file that the encoder writes for `canvas`.
pub open spec fn encodes(jpeg: Seq<u8>, canvas: RasterView) -> bool {
    jpeg_encoding(canvas.samples, canvas.width, canvas.height) == Some(jpeg)
}

/// Whether a picture of the fitted size of `upright` can be resampled on this
/// machine: always where the fitted size has no pixel, as nothing is
/// resampled then.
pub open spec fn fits_machine(upright: RasterView) -> bool {
    fitted_width(upright.width, upright.height) == 0 || fitted_height(
        upright.width,
        upright.height,
    ) == 0 || resamplable(upright.width, fitted_height(upright.width, upright.height))
}

/// Whether `jpeg` is the encoding of `canvas`, and `canvas` a canvas for the
/// upright picture `upright`.
pub open spec fn portrays(jpeg: Seq<u8>, upright: RasterView, canvas: RasterView) -> bool {
    &&& canvas.wf()
    &&& frames(canvas, upright)
    &&& encodes(jpeg, canvas)
}

/// Whether `jpeg` is the encoding of a canvas for some stored picture set
/// upright by `orientation`.
pub open spec fn shows(jpeg: Seq<u8>, orientation: Orientation) -> bool {
    exists|stored: RasterView, canvas: RasterView|
        stored.wf() && #[trigger] portrays(jpeg, oriented(stored, orientation), canvas)
}

/// Takes what the decoder gave: a picture with at least one pixel and four
/// samples for each is accepted, everything else is a file that could not be
/// decoded.
pub fn accept(decoded: Result<(u32, u32, Vec<u8>), ImageError>) -> (r: Result<
    Raster,
    ConvertError,
>)
    ensures
        match decoded {
            Ok(parts) => if picture(parts.0, parts.1, parts.2@).wf() {
                r is Ok && r->Ok_0@ == picture(parts.0, parts.1, parts.2@)
            } else {
                r == Err::<Raster, ConvertError>(ConvertError::Decode)
            },
            Err(_) => r == Err::<Raster, ConvertError>(ConvertError::Decode),
        },
{
    match decoded {
        Ok(parts) => {
            let (width, height, samples) = parts;
            match Raster::new(width, height, samples) {
                Some(stored) => Ok(stored),
                None => Err(ConvertError::Decode),
            }
        },
        Err(_) => Err(ConvertError::Decode),
    }
}

/// Decodes the bytes of a JPEG file. The decoder alone decides whether and to
/// what: a picture that comes back is well formed, and the only failure is
/// that of decoding.
pub fn decode(bytes: &[u8]) -> (r: Result<Raster, ConvertError>)
    ensures
        r matches Ok(stored) ==> stored@.wf(),
        r matches Err(e) ==> e == ConvertError::Decode,
{
    accept(decode_jpeg(bytes))
}

/// Encodes a picture as a JPEG file. A picture whose sides fit 16 bits is
/// always encoded.
pub fn encode(canvas: &Raster) -> (r: Result<Vec<u8>, ConvertError>)
    ensures
        match r {
            Ok(jpeg) => encodes(jpeg@, canvas@),
            Err(e) => e == ConvertError::Encode && jpeg_encoding(
                canvas@.samples,
                canvas@.width,
                canvas@.height,
            ) is None,
        },
        (canvas@.width <= 0xffff && canvas@.height <= 0xffff) ==> r is Ok,
{
    let width = canvas.width();
    let height = canvas.height();
    match encode_jpeg(width, height, canvas.samples()) {
        Ok(jpeg) => Ok(jpeg),
        Err(_) => Err(ConvertError::Encode),
    }
}

/// Sets a stored picture upright, puts it on the canvas and encodes the
/// canvas. The file that comes back is the encoding of a canvas for the
/// upright picture. The conversion succeeds wherever the machine can resample
/// the picture: the canvas is always encoded.
pub fn convert_picture(stored: Raster, orientation: Orientation) -> (r: Result<
    Vec<u8>,
    ConvertError,
>)
    ensures
        match r {
            Ok(jpeg) => exists|canvas: RasterView| #[trigger]
                portrays(jpeg@, oriented(stored@, orientation), canvas),
            Err(e) => e == ConvertError::TooLarge,
        },
        r is Ok <==> fits_machine(oriented(stored@, orientation)),
{
    let ghost upright = oriented(stored@, orientation);
    match compose(stored, orientation) {
        Ok(canvas) => {
            match encode(&canvas) {
                Ok(jpeg) => {
                    assert(portrays(jpeg@, upright, canvas@));
                    Ok(jpeg)
                },
                Err(e) => Err(e),
            }
        },
        Err(e) => Err(e),
    }
}

/// What is owed for a photograph once the decoder has answered: the failure
/// of decoding where it gave no picture with a pixel, the failure of size
/// where the machine cannot resample the upright picture, and else a
/// converted photograph with the name and the unread fields that the bytes
/// decide and a file that shows the upright picture.
pub open spec fn converted(
    r: Result<Converted, ConvertError>,
    decoded: Result<(u32, u32, Vec<u8>), ImageError>,
    bytes: Seq<u8>,
    modified: Option<u64>,
    base_name: Option<Seq<char>>,
) -> bool {
    match decoded {
        Ok(parts) => if picture(parts.0, parts.1, parts.2@).wf() {
            let upright = oriented(
                picture(parts.0, parts.1, parts.2@),
                recorded_orientation(bytes),
            );
            if fits_machine(upright) {
                &&& r is Ok
                &&& r->Ok_0.naming@ == recorded_naming(bytes, modified, base_name)
                &&& r->Ok_0.unread@ == recorded_unread(bytes)
                &&& exists|canvas: RasterView| #[trigger] portrays(r->Ok_0.jpeg@, upright, canvas)
            } else {
                r matches Err(e) && e == ConvertError::TooLarge
            }
        } else {
            r matches Err(e) && e == ConvertError::Decode
        },
        Err(_) => r matches Err(e) && e == ConvertError::Decode,
    }
}

/// Converts a photograph from what the decoder gave for its file, the bytes
/// of the file, the seconds since 1970 at which the file was last modified,
/// and the name of the file without its extension. Every picture that the
/// decoder gives and the machine can resample is converted.
pub fn convert_decoded(
    decoded: Result<(u32, u32, Vec<u8>), ImageError>,
    bytes: &[u8],
    modified: Option<u64>,
    base_name: Option<&str>,
) -> (r: Result<Converted, ConvertError>)
    ensures
        converted(r, decoded, bytes@, modified, text_of(base_name)),
        r matches Ok(done) ==> done.naming@.wf(),
{
    let stored = match accept(decoded) {
        Ok(stored) => stored,
        Err(e) => { return Err(e); },
    };
    let (orientation, naming) = resolve(bytes, modified, base_name);
    let unread = read_unread_fields(bytes);
    let ghost upright = oriented(stored@, orientation);
    match convert_picture(stored, orientation) {
        Ok(jpeg) => {
            let done = Converted { naming, jpeg, unread };
            proof {
                let canvas = choose|canvas: RasterView| #[trigger]
                    portrays(jpeg@, upright, canvas);
                assert(portrays(done.jpeg@, upright, canvas));
            }
            Ok(done)
        },
        Err(e) => Err(e),
    }
}

/// Converts one photograph, given the bytes of its file, the seconds since
/// 1970 at which the file was last modified, and the name of the file without
/// its extension, the last two as far as they are known.
///
/// What the converted file is named after is decided by the metadata in the
/// bytes and the two other arguments. Its content is the encoding of a canvas
/// for some decoded picture set upright by the orientation that the metadata
/// records. The decoder decides whether there is a picture; a picture that
/// it gives is converted wherever the machine can resample it.
pub fn convert(bytes: &[u8], modified: Option<u64>, base_name: Option<&str>) -> (r: Result<
    Converted,
    ConvertError,
>)
    ensures
        r matches Ok(done) ==> {
            &&& done.naming@ == recorded_naming(bytes@, modified, text_of(base_name))
            &&& done.naming@.wf()
            &&& done.unread@ == recorded_unread(bytes@)
            &&& shows(done.jpeg@, recorded_orientation(bytes@))
        },
        r matches Err(e) ==> e == ConvertError::Decode || e == ConvertError::TooLarge,
        r matches Err(ConvertError::TooLarge) ==> exists|stored: RasterView|
            stored.wf() && !#[trigger] fits_machine(
                oriented(stored, recorded_orientation(bytes@)),
            ),
{
    let decoded = decode_jpeg(bytes);
    let ghost given = decoded;
    let r = convert_decoded(decoded, bytes, modified, base_name);
    proof {
        if let Ok(parts) = given {
            let stored = picture(parts.0, parts.1, parts.2@);
            if stored.wf() {
                let upright = oriented(stored, recorded_orientation(bytes@));
                if fits_machine(upright) {
                    let canvas = choose|canvas: RasterView| #[trigger]
                        portrays(r->Ok_0.jpeg@, upright, canvas);
                    assert(portrays(r->Ok_0.jpeg@, upright, canvas));
                }
            }
        }
    }
    r
}

} // verus!
