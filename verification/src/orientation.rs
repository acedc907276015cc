//! The eight orientations that a photograph's metadata can record, and the
//! flips and turns that set a picture upright.

use crate::imaging::{flip_horizontal, flip_vertical, picture, rotate180, rotate270, rotate90};
use crate::raster::{lemma_equal_by_pixels, lemma_remapped, sample_index, Raster, RasterView};
use vstd::prelude::*;

verus! {

/// How a stored picture has to be transformed to be seen upright. The
/// variants stand in the order of their codes, one to eight.
#[derive(Clone, Copy, Debug, PartialEq, Eq, Structural)]
pub enum Orientation {
    /// Code 1: the picture is upright.
    Normal,
    /// Code 2: mirror left to right.
    FlipHorizontal,
    /// Code 3: turn by a half turn.
    Rotate180,
    /// Code 4: mirror top to bottom.
    FlipVertical,
    /// Code 5: turn clockwise by a quarter turn, then mirror left to right.
    Rotate90FlipHorizontal,
    /// Code 6: turn clockwise by a quarter turn.
    Rotate90,
    /// Code 7: turn clockwise by three quarter turns, then mirror left to right.
    Rotate270FlipHorizontal,
    /// Code 8: turn clockwise by three quarter turns.
    Rotate270,
}

impl Orientation {
    /// The orientation that a metadata value stands for. A missing value and
    /// a value outside one to eight stand for the upright picture.
    pub open spec fn of_raw(raw: Option<u32>) -> Orientation {
        match raw {
            Some(2) => Orientation::FlipHorizontal,
            Some(3) => Orientation::Rotate180,
            Some(4) => Orientation::FlipVertical,
            Some(5) => Orientation::Rotate90FlipHorizontal,
            Some(6) => Orientation::Rotate90,
            Some(7) => Orientation::Rotate270FlipHorizontal,
            Some(8) => Orientation::Rotate270,
            _ => Orientation::Normal,
        }
    }

    /// The code of this orientation, from one to eight.
    pub open spec fn spec_code(self) -> u8 {
        match self {
            Orientation::Normal => 1,
            Orientation::FlipHorizontal => 2,
            Orientation::Rotate180 => 3,
            Orientation::FlipVertical => 4,
            Orientation::Rotate90FlipHorizontal => 5,
            Orientation::Rotate90 => 6,
            Orientation::Rotate270FlipHorizontal => 7,
            Orientation::Rotate270 => 8,
        }
    }

    /// Whether the upright picture is as wide as the stored one is high.
    pub open spec fn swaps_sides(self) -> bool {
        self.spec_code() >= 5
    }

    /// The pixel of a stored `width` by `height` picture that the upright
    /// picture shows at `(x, y)`.
    pub open spec fn source(self, width: nat, height: nat, x: int, y: int) -> (int, int) {
        match self {
            Orientation::Normal => (x, y),
            Orientation::FlipHorizontal => (width - 1 - x, y),
            Orientation::Rotate180 => (width - 1 - x, height - 1 - y),
            Orientation::FlipVertical => (x, height - 1 - y),
            Orientation::Rotate90FlipHorizontal => (y, x),
            Orientation::Rotate90 => (y, height - 1 - x),
            Orientation::Rotate270FlipHorizontal => (width - 1 - y, height - 1 - x),
            Orientation::Rotate270 => (width - 1 - y, x),
        }
    }

    /// Reads an orientation from a metadata value.
    pub fn from_raw(raw: Option<u32>) -> (o: Orientation)
        ensures
            o == Orientation::of_raw(raw),
            (raw matches Some(code) && 1 <= code <= 8) ==> o.spec_code() == raw->0,
            !(raw matches Some(code) && 1 <= code <= 8) ==> o == Orientation::Normal,
    {
        match raw {
            Some(2) => Orientation::FlipHorizontal,
            Some(3) => Orientation::Rotate180,
            Some(4) => Orientation::FlipVertical,
            Some(5) => Orientation::Rotate90FlipHorizontal,
            Some(6) => Orientation::Rotate90,
            Some(7) => Orientation::Rotate270FlipHorizontal,
            Some(8) => Orientation::Rotate270,
            _ => Orientation::Normal,
        }
    }

    /// The code of this orientation, from one to eight.
    pub fn code(self) -> (code: u8)
        ensures
            code == self.spec_code(),
            Orientation::of_raw(Some(code as u32)) == self,
    {
        match self {
            Orientation::Normal => 1,
            Orientation::FlipHorizontal => 2,
            Orientation::Rotate180 => 3,
            Orientation::FlipVertical => 4,
            Orientation::Rotate90FlipHorizontal => 5,
            Orientation::Rotate90 => 6,
            Orientation::Rotate270FlipHorizontal => 7,
            Orientation::Rotate270 => 8,
        }
    }
}

/// The upright picture: the stored picture `v` after the flips and turns that
/// its orientation asks for, in their order.
pub open spec fn oriented(v: RasterView, o: Orientation) -> RasterView {
    match o {
        Orientation::Normal => v,
        Orientation::FlipHorizontal => v.flipped_horizontal(),
        Orientation::Rotate180 => v.rotated180(),
        Orientation::FlipVertical => v.flipped_vertical(),
        Orientation::Rotate90FlipHorizontal => v.rotated90().flipped_horizontal(),
        Orientation::Rotate90 => v.rotated90(),
        Orientation::Rotate270FlipHorizontal => v.rotated270().flipped_horizontal(),
        Orientation::Rotate270 => v.rotated270(),
    }
}

/// Each flip and turn of a well-formed picture is well formed; the quarter
/// turns swap its sides.
pub proof fn lemma_transforms(v: RasterView)
    requires
        v.wf(),
    ensures
        v.flipped_horizontal().wf(),
        v.flipped_vertical().wf(),
        v.rotated90().wf(),
        v.rotated180().wf(),
        v.rotated270().wf(),
        v.rotated90().width == v.height && v.rotated90().height == v.width,
        v.rotated270().width == v.height && v.rotated270().height == v.width,
{
    lemma_remapped(v, v.width, v.height, |x: int, y: int| (v.width - 1 - x, y));
    lemma_remapped(v, v.width, v.height, |x: int, y: int| (x, v.height - 1 - y));
    lemma_remapped(v, v.height, v.width, |x: int, y: int| (y, v.height - 1 - x));
    lemma_remapped(v, v.width, v.height, |x: int, y: int| (v.width - 1 - x, v.height - 1 - y));
    lemma_remapped(v, v.height, v.width, |x: int, y: int| (v.width - 1 - y, x));
}

/// For each of the eight orientations, the upright picture holds exactly the
/// pixels of the stored picture, each at the place that the orientation's
/// flips and turns send it to.
pub proof fn lemma_oriented(v: RasterView, o: Orientation)
    requires
        v.wf(),
    ensures
        oriented(v, o).wf(),
        oriented(v, o).width == if o.swaps_sides() {
            v.height
        } else {
            v.width
        },
        oriented(v, o).height == if o.swaps_sides() {
            v.width
        } else {
            v.height
        },
        forall|x: int, y: int, c: int|
            oriented(v, o).contains(x, y) && 0 <= c < 4 ==> {
                &&& v.contains(o.source(v.width, v.height, x, y).0, o.source(v.width, v.height, x, y).1)
                &&& #[trigger] oriented(v, o).sample(x, y, c) == v.sample(
                    o.source(v.width, v.height, x, y).0,
                    o.source(v.width, v.height, x, y).1,
                    c,
                )
            },
{
    lemma_transforms(v);
    lemma_remapped(v, v.width, v.height, |x: int, y: int| (v.width - 1 - x, y));
    lemma_remapped(v, v.width, v.height, |x: int, y: int| (x, v.height - 1 - y));
    lemma_remapped(v, v.height, v.width, |x: int, y: int| (y, v.height - 1 - x));
    lemma_remapped(v, v.width, v.height, |x: int, y: int| (v.width - 1 - x, v.height - 1 - y));
    lemma_remapped(v, v.height, v.width, |x: int, y: int| (v.width - 1 - y, x));
    match o {
        Orientation::Rotate90FlipHorizontal => {
            let t = v.rotated90();
            lemma_remapped(t, t.width, t.height, |x: int, y: int| (t.width - 1 - x, y));
            assert forall|x: int, y: int, c: int|
                oriented(v, o).contains(x, y) && 0 <= c < 4 implies #[trigger] oriented(
                v,
                o,
            ).sample(x, y, c) == v.sample(y, x, c) by {
                assert(t.flipped_horizontal().sample(x, y, c) == t.sample(t.width - 1 - x, y, c));
                assert(t.sample(t.width - 1 - x, y, c) == v.sample(
                    y,
                    v.height - 1 - (t.width - 1 - x),
                    c,
                ));
            }
        },
        Orientation::Rotate270FlipHorizontal => {
            let t = v.rotated270();
            lemma_remapped(t, t.width, t.height, |x: int, y: int| (t.width - 1 - x, y));
            assert forall|x: int, y: int, c: int|
                oriented(v, o).contains(x, y) && 0 <= c < 4 implies #[trigger] oriented(
                v,
                o,
            ).sample(x, y, c) == v.sample(v.width - 1 - y, v.height - 1 - x, c) by {
                assert(t.flipped_horizontal().sample(x, y, c) == t.sample(t.width - 1 - x, y, c));
                assert(t.sample(t.width - 1 - x, y, c) == v.sample(
                    v.width - 1 - y,
                    t.width - 1 - x,
                    c,
                ));
            }
        },
        _ => {},
    }
}

/// A picture `width` by `height` whose pixels are those of `v`, each at the
/// place that `target` sends it to, is `v` remapped by `source`, where
/// `source` leads back from each place to the pixel that was sent there.
proof fn lemma_moved(
    v: RasterView,
    out: Seq<u8>,
    width: nat,
    height: nat,
    target: spec_fn(int, int) -> (int, int),
    source: spec_fn(int, int) -> (int, int),
)
    requires
        v.wf(),
        (width == v.width && height == v.height) || (width == v.height && height == v.width),
        out.len() == v.samples.len(),
        forall|x: int, y: int, c: int|
            0 <= x < v.width && 0 <= y < v.height && 0 <= c < 4 ==> out[sample_index(
                width,
                target(x, y).0,
                target(x, y).1,
                c,
            )] == v.samples[#[trigger] sample_index(v.width, x, y, c)],
        forall|x: int, y: int|
            0 <= x < width && 0 <= y < height ==> v.contains(
                (#[trigger] source(x, y)).0,
                source(x, y).1,
            ) && target(source(x, y).0, source(x, y).1) == (x, y),
    ensures
        out == v.remapped(width, height, source).samples,
{
    let made = RasterView { width, height, samples: out };
    let wanted = v.remapped(width, height, source);
    lemma_remapped(v, width, height, source);
    assert(v.width * v.height == v.height * v.width) by (nonlinear_arith);
    assert forall|x: int, y: int, c: int|
        0 <= x < width && 0 <= y < height && 0 <= c < 4 implies made.sample(x, y, c)
        == wanted.sample(x, y, c) by {
        let at = source(x, y);
        assert(wanted.sample(x, y, c) == v.sample(at.0, at.1, c));
        assert(v.sample(at.0, at.1, c) == v.samples[sample_index(v.width, at.0, at.1, c)]);
    }
    lemma_equal_by_pixels(made, wanted);
}

/// Mirrors a picture left to right.
fn mirror_across(width: u32, height: u32, samples: &Vec<u8>) -> (out: Vec<u8>)
    requires
        picture(width, height, samples@).wf(),
    ensures
        out@ == picture(width, height, samples@).flipped_horizontal().samples,
{
    let out = flip_horizontal(width, height, samples);
    proof {
        let v = picture(width, height, samples@);
        lemma_moved(
            v,
            out@,
            v.width,
            v.height,
            |x: int, y: int| (v.width - 1 - x, y),
            |x: int, y: int| (v.width - 1 - x, y),
        );
    }
    out
}

/// Mirrors a picture top to bottom.
fn mirror_down(width: u32, height: u32, samples: &Vec<u8>) -> (out: Vec<u8>)
    requires
        picture(width, height, samples@).wf(),
    ensures
        out@ == picture(width, height, samples@).flipped_vertical().samples,
{
    let out = flip_vertical(width, height, samples);
    proof {
        let v = picture(width, height, samples@);
        lemma_moved(
            v,
            out@,
            v.width,
            v.height,
            |x: int, y: int| (x, v.height - 1 - y),
            |x: int, y: int| (x, v.height - 1 - y),
        );
    }
    out
}

/// Turns a picture clockwise by a quarter turn.
fn turn_quarter(width: u32, height: u32, samples: &Vec<u8>) -> (out: Vec<u8>)
    requires
        picture(width, height, samples@).wf(),
    ensures
        out@ == picture(width, height, samples@).rotated90().samples,
{
    let out = rotate90(width, height, samples);
    proof {
        let v = picture(width, height, samples@);
        lemma_moved(
            v,
            out@,
            v.height,
            v.width,
            |x: int, y: int| (v.height - 1 - y, x),
            |x: int, y: int| (y, v.height - 1 - x),
        );
    }
    out
}

/// Turns a picture by a half turn.
fn turn_half(width: u32, height: u32, samples: &Vec<u8>) -> (out: Vec<u8>)
    requires
        picture(width, height, samples@).wf(),
    ensures
        out@ == picture(width, height, samples@).rotated180().samples,
{
    let out = rotate180(width, height, samples);
    proof {
        let v = picture(width, height, samples@);
        lemma_moved(
            v,
            out@,
            v.width,
            v.height,
            |x: int, y: int| (v.width - 1 - x, v.height - 1 - y),
            |x: int, y: int| (v.width - 1 - x, v.height - 1 - y),
        );
    }
    out
}

/// Turns a picture clockwise by three quarter turns.
fn turn_three_quarters(width: u32, height: u32, samples: &Vec<u8>) -> (out: Vec<u8>)
    requires
        picture(width, height, samples@).wf(),
    ensures
        out@ == picture(width, height, samples@).rotated270().samples,
{
    let out = rotate270(width, height, samples);
    proof {
        let v = picture(width, height, samples@);
        lemma_moved(
            v,
            out@,
            v.height,
            v.width,
            |x: int, y: int| (y, v.width - 1 - x),
            |x: int, y: int| (v.width - 1 - y, x),
        );
    }
    out
}

/// Sets a stored picture upright.
pub fn orient(raster: Raster, orientation: Orientation) -> (upright: Raster)
    ensures
        upright@ == oriented(raster@, orientation),
        upright@.wf(),
{
    let width = raster.width();
    let height = raster.height();
    proof {
        lemma_oriented(raster@, orientation);
        lemma_transforms(raster@);
    }
    match orientation {
        Orientation::Normal => raster,
        Orientation::FlipHorizontal => {
            let out = mirror_across(width, height, raster.samples());
            Raster::from_parts(width, height, out)
        },
        Orientation::Rotate180 => {
            let out = turn_half(width, height, raster.samples());
            Raster::from_parts(width, height, out)
        },
        Orientation::FlipVertical => {
            let out = mirror_down(width, height, raster.samples());
            Raster::from_parts(width, height, out)
        },
        Orientation::Rotate90FlipHorizontal => {
            let turned = turn_quarter(width, height, raster.samples());
            let out = mirror_across(height, width, &turned);
            Raster::from_parts(height, width, out)
        },
        Orientation::Rotate90 => {
            let out = turn_quarter(width, height, raster.samples());
            Raster::from_parts(height, width, out)
        },
        Orientation::Rotate270FlipHorizontal => {
            let turned = turn_three_quarters(width, height, raster.samples());
            let out = mirror_across(height, width, &turned);
            Raster::from_parts(height, width, out)
        },
        Orientation::Rotate270 => {
            let out = turn_three_quarters(width, height, raster.samples());
            Raster::from_parts(height, width, out)
        },
    }
}

} // verus!
