//! Pictures as plain values: a width, a height and four samples (red, green,
//! blue, alpha) for every pixel, row by row from the top left corner.

use vstd::prelude::*;

verus! {

/// Position of sample `c` of pixel `(x, y)` in a picture `width` pixels wide.
pub open spec fn sample_index(width: nat, x: int, y: int, c: int) -> int {
    4 * (y * width + x) + c
}

/// What a picture holds.
pub struct RasterView {
    pub width: nat,
    pub height: nat,
    pub samples: Seq<u8>,
}

impl RasterView {
    /// A picture has at least one pixel, sides that fit 32 bits, and four
    /// samples for each pixel.
    pub open spec fn wf(self) -> bool {
        &&& 1 <= self.width <= u32::MAX
        &&& 1 <= self.height <= u32::MAX
        &&& self.samples.len() == 4 * (self.width * self.height)
    }

    /// Whether `(x, y)` is a pixel of this picture.
    pub open spec fn contains(self, x: int, y: int) -> bool {
        0 <= x < self.width && 0 <= y < self.height
    }

    /// Sample `c` of pixel `(x, y)`.
    pub open spec fn sample(self, x: int, y: int, c: int) -> u8
        recommends
            self.contains(x, y),
            0 <= c < 4,
    {
        self.samples[sample_index(self.width, x, y, c)]
    }

    /// The picture of the given size whose pixel `(x, y)` is the pixel of this
    /// picture at `source(x, y)`.
    pub open spec fn remapped(
        self,
        width: nat,
        height: nat,
        source: spec_fn(int, int) -> (int, int),
    ) -> RasterView {
        RasterView {
            width,
            height,
            samples: Seq::new(
                4 * (width * height),
                |i: int|
                    {
                        let at = source((i / 4) % (width as int), (i / 4) / (width as int));
                        self.sample(at.0, at.1, i % 4)
                    },
            ),
        }
    }

    /// This picture with `top` copied over it, the top left corner of `top`
    /// at `(x0, y0)`.
    pub open spec fn overlaid(self, top: RasterView, x0: int, y0: int) -> RasterView {
        RasterView {
            width: self.width,
            height: self.height,
            samples: Seq::new(
                self.samples.len(),
                |i: int|
                    {
                        let x = (i / 4) % (self.width as int);
                        let y = (i / 4) / (self.width as int);
                        if top.contains(x - x0, y - y0) {
                            top.sample(x - x0, y - y0, i % 4)
                        } else {
                            self.samples[i]
                        }
                    },
            ),
        }
    }

    /// The picture of the given size all of whose pixels are `pixel`.
    pub open spec fn uniform(width: nat, height: nat, pixel: Seq<u8>) -> RasterView {
        RasterView {
            width,
            height,
            samples: Seq::new(4 * (width * height), |i: int| pixel[i % 4]),
        }
    }

    /// This picture mirrored left to right.
    pub open spec fn flipped_horizontal(self) -> RasterView {
        self.remapped(self.width, self.height, |x: int, y: int| (self.width - 1 - x, y))
    }

    /// This picture mirrored top to bottom.
    pub open spec fn flipped_vertical(self) -> RasterView {
        self.remapped(self.width, self.height, |x: int, y: int| (x, self.height - 1 - y))
    }

    /// This picture turned clockwise by a quarter turn.
    pub open spec fn rotated90(self) -> RasterView {
        self.remapped(self.height, self.width, |x: int, y: int| (y, self.height - 1 - x))
    }

    /// This picture turned by a half turn.
    pub open spec fn rotated180(self) -> RasterView {
        self.remapped(
            self.width,
            self.height,
            |x: int, y: int| (self.width - 1 - x, self.height - 1 - y),
        )
    }

    /// This picture turned clockwise by three quarter turns.
    pub open spec fn rotated270(self) -> RasterView {
        self.remapped(self.height, self.width, |x: int, y: int| (self.width - 1 - y, x))
    }
}

/// The samples of a picture lie one after the other without gaps: each
/// position inside the picture is a valid index, and splits back into the
/// pixel and the channel it came from.
pub proof fn lemma_sample_index(width: nat, height: nat, x: int, y: int, c: int)
    requires
        0 <= x < width,
        0 <= y < height,
        0 <= c < 4,
    ensures
        0 <= sample_index(width, x, y, c) < 4 * (width * height),
        sample_index(width, x, y, c) % 4 == c,
        (sample_index(width, x, y, c) / 4) % (width as int) == x,
        (sample_index(width, x, y, c) / 4) / (width as int) == y,
{
    let w = width as int;
    let p = y * w + x;
    assert(0 <= p < w * height) by (nonlinear_arith)
        requires
            p == y * w + x,
            0 <= x < w,
            0 <= y < height,
    ;
    assert(p % w == x && p / w == y) by {
        vstd::arithmetic::div_mod::lemma_fundamental_div_mod_converse(p, w, y, x);
    }
    assert((4 * p + c) / 4 == p && (4 * p + c) % 4 == c);
}

/// Each index into the samples of a picture names a pixel inside it.
pub proof fn lemma_index_splits(width: nat, height: nat, i: int)
    requires
        0 <= i < 4 * (width * height),
    ensures
        0 <= (i / 4) % (width as int) < width,
        0 <= (i / 4) / (width as int) < height,
        0 <= i % 4 < 4,
        sample_index(width, (i / 4) % (width as int), (i / 4) / (width as int), i % 4) == i,
{
    let w = width as int;
    let p = i / 4;
    assert(width > 0) by (nonlinear_arith)
        requires
            0 < 4 * (width * height),
    ;
    assert(0 <= p < w * height);
    vstd::arithmetic::div_mod::lemma_fundamental_div_mod(p, w);
    assert(0 <= p % w < w);
    assert(0 <= p / w < height) by (nonlinear_arith)
        requires
            0 <= p < w * height,
            w > 0,
            p == w * (p / w) + p % w,
            0 <= p % w < w,
    ;
    assert((p / w) * w == w * (p / w)) by (nonlinear_arith);
}

/// A remapped picture is well formed, and each of its pixels is the pixel
/// that the map names in the picture it was made from.
pub proof fn lemma_remapped(
    v: RasterView,
    width: nat,
    height: nat,
    source: spec_fn(int, int) -> (int, int),
)
    requires
        1 <= width <= u32::MAX,
        1 <= height <= u32::MAX,
    ensures
        v.remapped(width, height, source).wf(),
        forall|x: int, y: int, c: int|
            0 <= x < width && 0 <= y < height && 0 <= c < 4 ==> #[trigger] v.remapped(
                width,
                height,
                source,
            ).sample(x, y, c) == v.sample(source(x, y).0, source(x, y).1, c),
{
    let r = v.remapped(width, height, source);
    assert forall|x: int, y: int, c: int|
        0 <= x < width && 0 <= y < height && 0 <= c < 4 implies #[trigger] r.sample(x, y, c)
        == v.sample(source(x, y).0, source(x, y).1, c) by {
        lemma_sample_index(width, height, x, y, c);
    }
}

/// A picture with another copied over it shows the other inside the copied
/// rectangle and itself outside.
pub proof fn lemma_overlaid(v: RasterView, top: RasterView, x0: int, y0: int)
    requires
        v.wf(),
    ensures
        v.overlaid(top, x0, y0).wf(),
        v.overlaid(top, x0, y0).width == v.width,
        v.overlaid(top, x0, y0).height == v.height,
        forall|x: int, y: int, c: int|
            v.contains(x, y) && 0 <= c < 4 ==> #[trigger] v.overlaid(top, x0, y0).sample(x, y, c)
                == if top.contains(x - x0, y - y0) {
                top.sample(x - x0, y - y0, c)
            } else {
                v.sample(x, y, c)
            },
{
    let r = v.overlaid(top, x0, y0);
    assert forall|x: int, y: int, c: int| v.contains(x, y) && 0 <= c < 4 implies #[trigger] r.sample(
        x,
        y,
        c,
    ) == if top.contains(x - x0, y - y0) {
        top.sample(x - x0, y - y0, c)
    } else {
        v.sample(x, y, c)
    } by {
        lemma_sample_index(v.width, v.height, x, y, c);
    }
}

/// Every pixel of a uniform picture is the given pixel.
pub proof fn lemma_uniform(width: nat, height: nat, pixel: Seq<u8>)
    requires
        1 <= width <= u32::MAX,
        1 <= height <= u32::MAX,
    ensures
        RasterView::uniform(width, height, pixel).wf(),
        forall|x: int, y: int, c: int|
            0 <= x < width && 0 <= y < height && 0 <= c < 4 ==> #[trigger] RasterView::uniform(
                width,
                height,
                pixel,
            ).sample(x, y, c) == pixel[c],
{
    let r = RasterView::uniform(width, height, pixel);
    assert forall|x: int, y: int, c: int|
        0 <= x < width && 0 <= y < height && 0 <= c < 4 implies #[trigger] r.sample(x, y, c)
        == pixel[c] by {
        lemma_sample_index(width, height, x, y, c);
    }
}

/// Two well-formed pictures of one size with the same pixels are equal.
pub proof fn lemma_equal_by_pixels(a: RasterView, b: RasterView)
    requires
        a.wf(),
        b.wf(),
        a.width == b.width,
        a.height == b.height,
        forall|x: int, y: int, c: int|
            0 <= x < a.width && 0 <= y < a.height && 0 <= c < 4 ==> a.sample(x, y, c)
                == b.sample(x, y, c),
    ensures
        a == b,
{
    assert forall|i: int| 0 <= i < a.samples.len() implies a.samples[i] == b.samples[i] by {
        lemma_index_splits(a.width, a.height, i);
        let w = a.width as int;
        assert(a.sample((i / 4) % w, (i / 4) / w, i % 4) == b.sample(
            (i / 4) % w,
            (i / 4) / w,
            i % 4,
        ));
    }
    assert(a.samples =~= b.samples);
}

/// A picture held in memory.
pub struct Raster {
    width: u32,
    height: u32,
    data: Vec<u8>,
}

impl View for Raster {
    type V = RasterView;

    closed spec fn view(&self) -> RasterView {
        RasterView { width: self.width as nat, height: self.height as nat, samples: self.data@ }
    }
}

impl Raster {
    #[verifier::type_invariant]
    closed spec fn well_formed(self) -> bool {
        self@.wf()
    }

    /// Makes a picture from its sides and samples, where there are four
    /// samples for every pixel and at least one pixel.
    pub fn new(width: u32, height: u32, data: Vec<u8>) -> (r: Option<Raster>)
        ensures
            r is Some <==> (RasterView {
                width: width as nat,
                height: height as nat,
                samples: data@,
            }).wf(),
            r is Some ==> r->0@ == (RasterView {
                width: width as nat,
                height: height as nat,
                samples: data@,
            }),
    {
        if width == 0 || height == 0 {
            return None;
        }
        assert(width * height <= 0xffff_ffff * 0xffff_ffff) by (nonlinear_arith)
            requires
                width <= 0xffff_ffff,
                height <= 0xffff_ffff,
        ;
        let pixels: u64 = width as u64 * height as u64;
        let length: u64 = data.len() as u64;
        if length % 4 == 0 && length / 4 == pixels {
            Some(Raster { width, height, data })
        } else {
            None
        }
    }

    /// Makes a picture from sides and samples that are known to match.
    pub fn from_parts(width: u32, height: u32, data: Vec<u8>) -> (r: Raster)
        requires
            (RasterView { width: width as nat, height: height as nat, samples: data@ }).wf(),
        ensures
            r@ == (RasterView { width: width as nat, height: height as nat, samples: data@ }),
    {
        Raster { width, height, data }
    }

    /// Width in pixels.
    pub fn width(&self) -> (w: u32)
        ensures
            w == self@.width,
            self@.wf(),
    {
        proof {
            use_type_invariant(self);
        }
        self.width
    }

    /// Height in pixels.
    pub fn height(&self) -> (h: u32)
        ensures
            h == self@.height,
            self@.wf(),
    {
        proof {
            use_type_invariant(self);
        }
        self.height
    }

    /// The samples, row by row.
    pub fn samples(&self) -> (s: &Vec<u8>)
        ensures
            s@ == self@.samples,
            self@.wf(),
    {
        proof {
            use_type_invariant(self);
        }
        &self.data
    }

    /// Gives up the picture for its samples.
    pub fn into_samples(self) -> (s: Vec<u8>)
        ensures
            s@ == self@.samples,
            self@.wf(),
    {
        proof {
            use_type_invariant(&self);
        }
        self.data
    }

    /// Sample `c` of pixel `(x, y)`.
    pub fn sample(&self, x: u32, y: u32, c: u8) -> (s: u8)
        requires
            self@.contains(x as int, y as int),
            c < 4,
        ensures
            s == self@.sample(x as int, y as int, c as int),
    {
        let length = self.data.len();
        proof {
            use_type_invariant(self);
            lemma_sample_index(self@.width, self@.height, x as int, y as int, c as int);
            let w = self.width as int;
            let h = self.height as int;
            assert(0 <= y * w && y * w + x < w * h) by (nonlinear_arith)
                requires
                    0 <= x < w,
                    0 <= y < h,
            ;
            assert(length == 4 * (w * h));
        }
        let pixel: usize = y as usize * self.width as usize + x as usize;
        self.data[4 * pixel + c as usize]
    }
}

} // verus!
