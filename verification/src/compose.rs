//! The canvas: opaque black, with the scaled picture copied into its centre.

use crate::error::ConvertError;
use crate::imaging::{filled, replace, resize, Resampling};
use crate::orientation::{orient, oriented, Orientation};
use crate::raster::{
    lemma_equal_by_pixels, lemma_overlaid, lemma_uniform, sample_index, Raster, RasterView,
};
use crate::scaling::{
    center_offsets, centered, fit_dimensions, fitted_height, fitted_width,
    lemma_fitted_within_canvas, CANVAS_HEIGHT, CANVAS_WIDTH,
};
use vstd::prelude::*;

verus! {

/// The samples of the background: black, fully opaque.
pub open spec fn background() -> Seq<u8> {
    seq![0u8, 0u8, 0u8, 255u8]
}

/// The canvas before anything is copied onto it.
pub open spec fn blank_canvas() -> RasterView {
    RasterView::uniform(3840, 2160, background())
}

/// The canvas with the picture `scaled` copied into its centre.
pub open spec fn framed(scaled: RasterView) -> RasterView
    recommends
        scaled.width <= 3840,
        scaled.height <= 2160,
{
    blank_canvas().overlaid(
        scaled,
        centered(3840, scaled.width) as int,
        centered(2160, scaled.height) as int,
    )
}

/// Whether `canvas` is a canvas for the upright picture `upright`: the blank
/// canvas with the picture, scaled to the fitted size, copied into its
/// centre. A picture that has the fitted size already is copied as it is. Of
/// a picture that is scaled nothing more is said than its size. Where the
/// fitted size has no pixel the canvas is blank.
pub open spec fn frames(canvas: RasterView, upright: RasterView) -> bool {
    let new_width = fitted_width(upright.width, upright.height);
    let new_height = fitted_height(upright.width, upright.height);
    if new_width == 0 || new_height == 0 {
        canvas == blank_canvas()
    } else if new_width == upright.width && new_height == upright.height {
        canvas == framed(upright)
    } else {
        exists|scaled: RasterView|
            scaled.wf() && scaled.width == new_width && scaled.height == new_height && canvas
                == #[trigger] framed(scaled)
    }
}

/// Whether resampling a picture `width` pixels wide to `new_height` rows
/// fits this machine: the call holds a buffer of that many pixels with four
/// 32-bit samples each.
pub open spec fn resamplable(width: nat, new_height: nat) -> bool {
    16 * (width * new_height) <= isize::MAX
}

/// The framed canvas is a canvas-sized picture which shows the scaled picture
/// inside the centred rectangle and the opaque black background outside it.
pub proof fn lemma_framed(scaled: RasterView)
    requires
        scaled.wf(),
        scaled.width <= 3840,
        scaled.height <= 2160,
    ensures
        framed(scaled).wf(),
        framed(scaled).width == 3840,
        framed(scaled).height == 2160,
        forall|x: int, y: int, c: int|
            0 <= x < 3840 && 0 <= y < 2160 && 0 <= c < 4 ==> #[trigger] framed(scaled).sample(
                x,
                y,
                c,
            ) == if scaled.contains(
                x - centered(3840, scaled.width),
                y - centered(2160, scaled.height),
            ) {
                scaled.sample(
                    x - centered(3840, scaled.width),
                    y - centered(2160, scaled.height),
                    c,
                )
            } else {
                background()[c]
            },
{
    lemma_uniform(3840, 2160, background());
    lemma_overlaid(
        blank_canvas(),
        scaled,
        centered(3840, scaled.width) as int,
        centered(2160, scaled.height) as int,
    );
}

/// Every canvas for an upright picture has the size of the canvas and is
/// opaque black outside the centred rectangle of the fitted size.
pub proof fn lemma_frames_background(canvas: RasterView, upright: RasterView)
    requires
        upright.wf(),
        frames(canvas, upright),
    ensures
        canvas.wf(),
        canvas.width == 3840,
        canvas.height == 2160,
        forall|x: int, y: int, c: int|
            0 <= x < 3840 && 0 <= y < 2160 && 0 <= c < 4 && !({
                &&& 0 <= x - centered(3840, fitted_width(upright.width, upright.height))
                    < fitted_width(upright.width, upright.height)
                &&& 0 <= y - centered(2160, fitted_height(upright.width, upright.height))
                    < fitted_height(upright.width, upright.height)
            }) ==> #[trigger] canvas.sample(x, y, c) == background()[c],
{
    let new_width = fitted_width(upright.width, upright.height);
    let new_height = fitted_height(upright.width, upright.height);
    lemma_fitted_within_canvas(upright.width, upright.height);
    lemma_uniform(3840, 2160, background());
    if new_width == upright.width && new_height == upright.height {
        lemma_framed(upright);
    } else if new_width != 0 && new_height != 0 {
        let scaled = choose|scaled: RasterView|
            scaled.wf() && scaled.width == new_width && scaled.height == new_height && canvas
                == #[trigger] framed(scaled);
        lemma_framed(scaled);
    }
}

/// A canvas for a stored picture under an orientation is a canvas for the
/// upright picture under no orientation: the size and the place of the
/// scaled picture depend on the upright picture alone.
pub proof fn lemma_frames_upright(canvas: RasterView, stored: RasterView, o: Orientation)
    ensures
        frames(canvas, oriented(stored, o)) <==> frames(
            canvas,
            oriented(oriented(stored, o), Orientation::Normal),
        ),
{
}

/// Makes the blank canvas.
pub fn blank() -> (canvas: Raster)
    ensures
        canvas@ == blank_canvas(),
        canvas@.wf(),
{
    proof {
        lemma_uniform(3840, 2160, background());
    }
    let pixel: [u8; 4] = [0, 0, 0, 255];
    assert(pixel@ =~= background());
    let samples = filled(CANVAS_WIDTH, CANVAS_HEIGHT, pixel);
    assert(samples@ =~= blank_canvas().samples);
    Raster::from_parts(CANVAS_WIDTH, CANVAS_HEIGHT, samples)
}

/// Copies a picture no larger than the canvas into the centre of a blank
/// canvas.
pub fn frame(scaled: &Raster) -> (canvas: Raster)
    requires
        scaled@.width <= CANVAS_WIDTH,
        scaled@.height <= CANVAS_HEIGHT,
    ensures
        canvas@ == framed(scaled@),
        canvas@.wf(),
{
    let width = scaled.width();
    let height = scaled.height();
    let (x, y) = center_offsets(width, height);
    proof {
        lemma_uniform(3840, 2160, background());
        lemma_framed(scaled@);
    }
    let mut samples = blank().into_samples();
    replace(&mut samples, CANVAS_WIDTH, CANVAS_HEIGHT, scaled.samples(), width, height, x, y);
    proof {
        let made = RasterView { width: 3840, height: 2160, samples: samples@ };
        assert forall|px: int, py: int, c: int|
            0 <= px < 3840 && 0 <= py < 2160 && 0 <= c < 4 implies made.sample(px, py, c)
            == framed(scaled@).sample(px, py, c) by {
            if scaled@.contains(px - x, py - y) {
                assert(made.sample(px, py, c) == samples@[sample_index(
                    3840,
                    x + (px - x),
                    y + (py - y),
                    c,
                )]);
                assert(scaled@.sample(px - x, py - y, c) == scaled@.samples[sample_index(
                    scaled@.width,
                    px - x,
                    py - y,
                    c,
                )]);
            } else {
                assert(blank_canvas().sample(px, py, c) == blank_canvas().samples[sample_index(
                    3840,
                    px,
                    py,
                    c,
                )]);
            }
        }
        lemma_equal_by_pixels(made, framed(scaled@));
    }
    Raster::from_parts(CANVAS_WIDTH, CANVAS_HEIGHT, samples)
}

/// Resamples a picture to a size within the canvas, with the Lanczos kernel
/// of three lobes. A picture that has the size already comes back as it is.
/// There is no result where the machine cannot hold the buffers.
pub fn resample(upright: &Raster, new_width: u32, new_height: u32) -> (r: Option<Raster>)
    requires
        1 <= new_width <= CANVAS_WIDTH,
        1 <= new_height <= CANVAS_HEIGHT,
    ensures
        r is Some <==> resamplable(upright@.width, new_height as nat),
        r matches Some(scaled) ==> scaled@.wf() && scaled@.width == new_width && scaled@.height
            == new_height,
        r matches Some(scaled) ==> ((new_width == upright@.width && new_height
            == upright@.height) ==> scaled@ == upright@),
{
    let width = upright.width();
    let height = upright.height();
    assert(width * new_height <= 0xffff_ffff * 2160) by (nonlinear_arith)
        requires
            width <= 0xffff_ffff,
            new_height <= 2160,
    ;
    assert(new_width * new_height <= 3840 * 2160) by (nonlinear_arith)
        requires
            new_width <= 3840,
            new_height <= 2160,
    ;
    let needed: u64 = 16 * (width as u64 * new_height as u64);
    if needed > isize::MAX as u64 {
        return None;
    }
    let samples = resize(
        width,
        height,
        upright.samples(),
        new_width,
        new_height,
        Resampling::Lanczos3,
    );
    Some(Raster::from_parts(new_width, new_height, samples))
}

/// Sets a stored picture upright, scales it to fit the canvas and copies it
/// into the centre of a blank canvas. An upright picture that fits the
/// canvas as it is is copied sample for sample.
pub fn compose(stored: Raster, orientation: Orientation) -> (r: Result<Raster, ConvertError>)
    ensures
        match r {
            Ok(canvas) => {
                &&& canvas@.wf()
                &&& frames(canvas@, oriented(stored@, orientation))
                &&& ({
                    let upright = oriented(stored@, orientation);
                    (fitted_width(upright.width, upright.height) == upright.width
                        && fitted_height(upright.width, upright.height) == upright.height)
                        ==> canvas@ == framed(upright)
                })
            },
            Err(e) => e == ConvertError::TooLarge,
        },
        r is Err <==> {
            let upright = oriented(stored@, orientation);
            &&& fitted_width(upright.width, upright.height) > 0
            &&& fitted_height(upright.width, upright.height) > 0
            &&& !resamplable(upright.width, fitted_height(upright.width, upright.height))
        },
{
    let upright = orient(stored, orientation);
    let (new_width, new_height) = fit_dimensions(upright.width(), upright.height());
    if new_width == 0 || new_height == 0 {
        return Ok(blank());
    }
    match resample(&upright, new_width, new_height) {
        Some(scaled) => Ok(frame(&scaled)),
        None => Err(ConvertError::TooLarge),
    }
}

} // verus!
