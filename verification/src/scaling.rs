//! Fitting a picture onto the canvas: the scale that keeps its aspect ratio,
//! the scaled size, and the offsets that centre it.
//!
//! The scale is the smaller of the two ratios between canvas and picture,
//! computed in single precision; a scaled length is the integer part of the
//! single-precision product of the length and the scale.

use crate::single::{
    lemma_nearest_error, lemma_nearest_shape, nearest, product, quotient, single_of, Ratio, Single,
};
use vstd::prelude::*;

verus! {

/// Width of the canvas in pixels.
pub const CANVAS_WIDTH: u32 = 3840;

/// Height of the canvas in pixels.
pub const CANVAS_HEIGHT: u32 = 2160;

/// The scale that fits a `w` by `h` picture onto the canvas. A side of
/// length zero puts no limit on the scale.
pub open spec fn scale_factor(w: nat, h: nat) -> Ratio
    recommends
        w > 0 || h > 0,
{
    let by_width = quotient(3840, single_of(w));
    let by_height = quotient(2160, single_of(h));
    if w == 0 {
        by_height
    } else if h == 0 {
        by_width
    } else if by_height.below(by_width) {
        by_height
    } else {
        by_width
    }
}

/// Width of a `w` by `h` picture after scaling.
pub open spec fn fitted_width(w: nat, h: nat) -> nat {
    if w == 0 {
        0
    } else {
        product(single_of(w), scale_factor(w, h)).floor()
    }
}

/// Height of a `w` by `h` picture after scaling.
pub open spec fn fitted_height(w: nat, h: nat) -> nat {
    if h == 0 {
        0
    } else {
        product(single_of(h), scale_factor(w, h)).floor()
    }
}

/// The margin before a run of `length` pixels centred in `extent` pixels.
pub open spec fn centered(extent: nat, length: nat) -> nat
    recommends
        length <= extent,
{
    ((extent - length) / 2) as nat
}

/// Width of a `w` by `h` picture scaled in exact arithmetic: as wide as the
/// canvas where the width limits the scale, else the width times the ratio of
/// the heights, cut down to whole pixels.
pub open spec fn exact_width(w: nat, h: nat) -> nat
    recommends
        w > 0,
        h > 0,
{
    if 3840 * h <= 2160 * w {
        3840
    } else {
        (2160 * w) / h
    }
}

/// Height of a `w` by `h` picture scaled in exact arithmetic.
pub open spec fn exact_height(w: nat, h: nat) -> nat
    recommends
        w > 0,
        h > 0,
{
    if 3840 * h <= 2160 * w {
        (3840 * h) / w
    } else {
        2160
    }
}

/// The size to which a `w` by `h` picture is scaled: as large as fits the
/// canvas with the aspect ratio kept, each side cut down to whole pixels.
pub fn fit_dimensions(w: u32, h: u32) -> (r: (u32, u32))
    ensures
        r.0 == fitted_width(w as nat, h as nat),
        r.1 == fitted_height(w as nat, h as nat),
        r.0 <= CANVAS_WIDTH,
        r.1 <= CANVAS_HEIGHT,
{
    if w == 0 && h == 0 {
        return (0, 0);
    }
    proof {
        lemma_scale_factor(w as nat, h as nat);
        lemma_fitted_within_canvas(w as nat, h as nat);
    }
    let scale = scale_for(w, h);
    let new_w: u32 = if w == 0 {
        0
    } else {
        scale_length(w, scale) as u32
    };
    let new_h: u32 = if h == 0 {
        0
    } else {
        scale_length(h, scale) as u32
    };
    (new_w, new_h)
}

/// The offsets of the top left corner of a picture of the given size centred
/// on the canvas. The two margins of a side differ by at most one pixel.
pub fn center_offsets(new_w: u32, new_h: u32) -> (r: (u32, u32))
    requires
        new_w <= CANVAS_WIDTH,
        new_h <= CANVAS_HEIGHT,
    ensures
        r.0 == centered(3840, new_w as nat),
        r.1 == centered(2160, new_h as nat),
        2 * r.0 + new_w == 3840 || 2 * r.0 + new_w == 3839,
        2 * r.1 + new_h == 2160 || 2 * r.1 + new_h == 2159,
{
    ((CANVAS_WIDTH - new_w) / 2, (CANVAS_HEIGHT - new_h) / 2)
}

/// The scale that fits a `w` by `h` picture with a positive side.
fn scale_for(w: u32, h: u32) -> (s: Single)
    requires
        w > 0 || h > 0,
    ensures
        s@ == scale_factor(w as nat, h as nat),
{
    proof {
        if w > 0 {
            lemma_single_of_bounds(w as nat);
        }
        if h > 0 {
            lemma_single_of_bounds(h as nat);
        }
    }
    if w == 0 {
        Single::divide(CANVAS_HEIGHT, Single::from_u32(h))
    } else if h == 0 {
        Single::divide(CANVAS_WIDTH, Single::from_u32(w))
    } else {
        let by_width = Single::divide(CANVAS_WIDTH, Single::from_u32(w));
        let by_height = Single::divide(CANVAS_HEIGHT, Single::from_u32(h));
        if by_height.below(&by_width) {
            by_height
        } else {
            by_width
        }
    }
}

/// The integer part of a positive length multiplied by a scale.
fn scale_length(length: u32, scale: Single) -> (r: u64)
    requires
        length >= 1,
        scale_sized(scale@),
    ensures
        r == product(single_of(length as nat), scale@).floor(),
{
    let a = Single::from_u32(length);
    proof {
        lemma_single_of_bounds(length as nat);
        assert(a.den * scale.den <= 0x100_0000_0000 * (a.num * scale.num)) by (nonlinear_arith)
            requires
                a.den <= 2 * a.num,
                scale.den <= 0x4_0000_0000 * scale.num,
                a.den >= 1,
                scale.den >= 1,
        ;
        assert(a.num * scale.num >= 1 && a.den * scale.den >= 1) by (nonlinear_arith)
            requires
                a.num >= 1,
                scale.num >= 1,
                a.den >= 1,
                scale.den >= 1,
        ;
        lemma_nearest_shape((a.num * scale.num) as nat, (a.den * scale.den) as nat);
    }
    Single::multiply(a, scale).floor()
}

/// No side of the scaled picture exceeds the canvas.
pub proof fn lemma_fitted_within_canvas(w: nat, h: nat)
    requires
        w <= 0xffff_ffff,
        h <= 0xffff_ffff,
    ensures
        fitted_width(w, h) <= 3840,
        fitted_height(w, h) <= 2160,
{
    if w > 0 {
        let a = single_of(w);
        lemma_scale_factor(w, h);
        lemma_single_of_bounds(w);
        lemma_quotient_bounds(3840, a);
        lemma_product_smaller(a, scale_factor(w, h), quotient(3840, a), 3840);
        lemma_product_floor(a, scale_factor(w, h), 3840);
    }
    if h > 0 {
        let a = single_of(h);
        lemma_scale_factor(w, h);
        lemma_single_of_bounds(h);
        lemma_quotient_bounds(2160, a);
        lemma_product_smaller(a, scale_factor(w, h), quotient(2160, a), 2160);
        lemma_product_floor(a, scale_factor(w, h), 2160);
    }
}

/// A picture smaller than the canvas on both sides is enlarged: its scale
/// exceeds one, neither side becomes shorter, and the enlarged picture still
/// fits the canvas.
pub proof fn lemma_small_picture_enlarged(w: nat, h: nat)
    requires
        1 <= w < 3840,
        1 <= h < 2160,
    ensures
        scale_factor(w, h).den < scale_factor(w, h).num,
        w <= fitted_width(w, h) <= 3840,
        h <= fitted_height(w, h) <= 2160,
{
    lemma_fitted_within_canvas(w, h);
    let a = single_of(w);
    let b = single_of(h);
    lemma_single_of_bounds(w);
    lemma_single_of_bounds(h);
    lemma_quotient_bounds(3840, a);
    lemma_quotient_bounds(2160, b);
    let sw = quotient(3840, a);
    let sh = quotient(2160, b);
    assert(4097 * sw.den <= 4096 * sw.num) by (nonlinear_arith)
        requires
            0xff_ffff * (3840 * (a.den * sw.den)) <= 0x100_0000 * (a.num * sw.num),
            0x100_0000 * a.num <= 0x100_0001 * (w * a.den),
            w <= 3839,
            a.den >= 1,
            a.num >= 1,
            sw.den >= 1,
            sw.num >= 1,
    ;
    assert(4097 * sh.den <= 4096 * sh.num) by (nonlinear_arith)
        requires
            0xff_ffff * (2160 * (b.den * sh.den)) <= 0x100_0000 * (b.num * sh.num),
            0x100_0000 * b.num <= 0x100_0001 * (h * b.den),
            h <= 2159,
            b.den >= 1,
            b.num >= 1,
            sh.den >= 1,
            sh.num >= 1,
    ;
    lemma_grows(w, scale_factor(w, h));
    lemma_grows(h, scale_factor(w, h));
}

/// The aspect ratio is kept to within a pixel: each side of the fitted size
/// differs by at most one from that side scaled in exact arithmetic by the
/// smaller of the two ratios between canvas and picture.
pub proof fn lemma_fitted_near_exact(w: nat, h: nat)
    requires
        1 <= w <= 0xffff_ffff,
        1 <= h <= 0xffff_ffff,
    ensures
        exact_width(w, h) - 1 <= fitted_width(w, h) <= exact_width(w, h) + 1,
        exact_height(w, h) - 1 <= fitted_height(w, h) <= exact_height(w, h) + 1,
{
    if 3840 * h <= 2160 * w {
        lemma_side_near_exact(w, w, h, 3840, w);
        lemma_side_near_exact(h, w, h, 3840, w);
        assert((3840 * w) / w == 3840) by (nonlinear_arith)
            requires
                w >= 1,
        ;
    } else {
        lemma_side_near_exact(w, w, h, 2160, h);
        lemma_side_near_exact(h, w, h, 2160, h);
        assert((2160 * h) / h == 2160) by (nonlinear_arith)
            requires
                h >= 1,
        ;
    }
}

/// Whether `s` has the size of a scale computed for a picture with sides
/// below two to the power 32.
pub open spec fn scale_sized(s: Ratio) -> bool {
    &&& 1 <= s.num <= 0x100_0000
    &&& 1 <= s.den <= 0x400_0000_0000_0000
    &&& s.den <= 0x4_0000_0000 * s.num
}

/// The aspect ratio is kept to within a pixel and its 1024th part: the
/// product of the fitted width and the height differs from that of the
/// fitted height and the width by little more than the longer side. A
/// difference of exactly the longer side is not kept throughout: the picture
/// 26095 by 29557 is fitted to 1906 by 2160, where 1907 is the width in
/// proportion, and the two products differ by 29558.
pub proof fn lemma_aspect_kept(w: nat, h: nat)
    requires
        1 <= w <= 0xffff_ffff,
        1 <= h <= 0xffff_ffff,
    ensures
        1024 * (fitted_width(w, h) * h - fitted_height(w, h) * w) < h + 1025 * w,
        1024 * (fitted_height(w, h) * w - fitted_width(w, h) * h) < 1025 * h + w,
{
    let nw = fitted_width(w, h) as int;
    let nh = fitted_height(w, h) as int;
    let (n, y): (nat, nat) = if 3840 * h <= 2160 * w {
        (3840, w)
    } else {
        (2160, h)
    };
    lemma_side_close(w, w, h, n, y);
    lemma_side_close(h, w, h, n, y);
    let (wi, hi, ni, yi) = (w as int, h as int, n as int, y as int);
    let a = nw * yi;
    let b = nh * yi;
    let c = ni * wi;
    let d = ni * hi;
    assert((nw + 1) * yi == a + yi && (nh + 1) * yi == b + yi) by (nonlinear_arith)
        requires
            a == nw * yi,
            b == nh * yi,
    ;
    assert(hi * c == wi * d) by (nonlinear_arith)
        requires
            c == ni * wi,
            d == ni * hi,
    ;
    assert(1024 * (hi * a - wi * b) < (hi + 1025 * wi) * yi) by (nonlinear_arith)
        requires
            1024 * a < 1024 * c + yi,
            1024 * d < 1024 * (b + yi) + yi,
            hi * c == wi * d,
            hi >= 1,
            wi >= 1,
            yi >= 1,
    ;
    assert(1024 * (wi * b - hi * a) < (1025 * hi + wi) * yi) by (nonlinear_arith)
        requires
            1024 * b < 1024 * d + yi,
            1024 * c < 1024 * (a + yi) + yi,
            hi * c == wi * d,
            hi >= 1,
            wi >= 1,
            yi >= 1,
    ;
    assert(hi * a - wi * b == (nw * hi - nh * wi) * yi && wi * b - hi * a == (nh * wi - nw * hi)
        * yi) by (nonlinear_arith)
        requires
            a == nw * yi,
            b == nh * yi,
    ;
    assert(1024 * (nw * hi - nh * wi) < hi + 1025 * wi) by (nonlinear_arith)
        requires
            1024 * ((nw * hi - nh * wi) * yi) < (hi + 1025 * wi) * yi,
            yi >= 1,
    ;
    assert(1024 * (nh * wi - nw * hi) < 1025 * hi + wi) by (nonlinear_arith)
        requires
            1024 * ((nh * wi - nw * hi) * yi) < (1025 * hi + wi) * yi,
            yi >= 1,
    ;
}

/// A converted integer lies within one part in two to the power 24 of the
/// integer, and its numerator and denominator are small.
pub proof fn lemma_single_of_bounds(n: nat)
    requires
        1 <= n <= 0xffff_ffff,
    ensures
        1 <= single_of(n).num <= 0x2_0000_0000,
        1 <= single_of(n).den <= 0x200_0000,
        single_of(n).den <= 2 * single_of(n).num,
        0x100_0000 * single_of(n).num <= 0x100_0001 * (n * single_of(n).den),
        0xff_ffff * (n * single_of(n).den) <= 0x100_0000 * single_of(n).num,
{
    let r = single_of(n);
    lemma_nearest_shape(n, 1);
    lemma_nearest_error(n, 1);
    assert(r.num * 1 == r.num);
    assert(n * r.den >= r.den) by (nonlinear_arith)
        requires
            n >= 1,
            r.den >= 0,
    ;
    if n >= 0x80_0000 {
        assert(n * r.den == n) by (nonlinear_arith)
            requires
                r.den == 1,
        ;
    }
}

/// The quotient of a small integer by a value of moderate size lies within one
/// part in two to the power 24 of the exact quotient.
pub proof fn lemma_quotient_bounds(n: nat, d: Ratio)
    requires
        1 <= n <= 0xffff,
        1 <= d.num <= 0x2_0000_0000,
        1 <= d.den <= 0x200_0000,
        d.den <= 2 * d.num,
    ensures
        0x80_0000 <= quotient(n, d).num <= 0x100_0000,
        1 <= quotient(n, d).den,
        quotient(n, d).den <= 0x4_0000_0000 * quotient(n, d).num,
        quotient(n, d).den <= 0x400_0000_0000_0000,
        0x100_0000 * (d.num * quotient(n, d).num) <= 0x100_0001 * (n * (d.den * quotient(
            n,
            d,
        ).den)),
        0xff_ffff * (n * (d.den * quotient(n, d).den)) <= 0x100_0000 * (d.num * quotient(
            n,
            d,
        ).num),
{
    let s = quotient(n, d);
    let p = n * d.den;
    assert(1 <= p && p < 0x100_0000 * d.num) by (nonlinear_arith)
        requires
            p == n * d.den,
            1 <= n <= 0xffff,
            1 <= d.den <= 2 * d.num,
    ;
    lemma_nearest_shape(p, d.num);
    lemma_nearest_error(p, d.num);
    assert(s.num * d.num == d.num * s.num) by (nonlinear_arith);
    assert(p * s.den == n * (d.den * s.den)) by (nonlinear_arith)
        requires
            p == n * d.den,
    ;
    assert(s.den <= p * s.den) by (nonlinear_arith)
        requires
            p >= 1,
            s.den >= 0,
    ;
    assert(d.num * s.num <= 0x2_0000_0000 * s.num) by (nonlinear_arith)
        requires
            d.num <= 0x2_0000_0000,
            s.num >= 0,
    ;
}

/// The scale of a picture with a positive side is positive and of moderate
/// size, and it is no larger than the scale that either positive side alone
/// would allow.
pub proof fn lemma_scale_factor(w: nat, h: nat)
    requires
        w <= 0xffff_ffff,
        h <= 0xffff_ffff,
        w > 0 || h > 0,
    ensures
        scale_sized(scale_factor(w, h)),
        w > 0 ==> !quotient(3840, single_of(w)).below(scale_factor(w, h)),
        h > 0 ==> !quotient(2160, single_of(h)).below(scale_factor(w, h)),
{
    if w > 0 {
        lemma_single_of_bounds(w);
        lemma_quotient_bounds(3840, single_of(w));
    }
    if h > 0 {
        lemma_single_of_bounds(h);
        lemma_quotient_bounds(2160, single_of(h));
    }
}

/// A product that is at most `n`, up to one part in two to the power 24,
/// has an integer part of at most `n`.
pub proof fn lemma_product_floor(a: Ratio, s: Ratio, n: nat)
    requires
        a.num > 0,
        a.den > 0,
        s.num > 0,
        s.den > 0,
        n <= 0xffff,
        0x100_0000 * (a.num * s.num) <= 0x100_0001 * (n * (a.den * s.den)),
    ensures
        product(a, s).floor() <= n,
{
    let p = a.num * s.num;
    let q = a.den * s.den;
    assert(p > 0 && q > 0) by (nonlinear_arith)
        requires
            p == a.num * s.num,
            q == a.den * s.den,
            a.num > 0,
            a.den > 0,
            s.num > 0,
            s.den > 0,
    ;
    let r = nearest(p, q);
    lemma_nearest_shape(p, q);
    lemma_nearest_error(p, q);
    let g = r.num;
    let k = r.den;
    // 2^48 g q <= (2^24 + 1)^2 n q k
    assert(0x100_0000 * (0x100_0000 * (g * q)) <= 0x100_0001 * (0x100_0001 * (n * (q * k))))
        by (nonlinear_arith)
        requires
            0x100_0000 * (g * q) <= 0x100_0001 * (p * k),
            0x100_0000 * p <= 0x100_0001 * (n * q),
            k >= 1,
    ;
    assert(g < (n + 1) * k) by (nonlinear_arith)
        requires
            0x100_0000 * (0x100_0000 * (g * q)) <= 0x100_0001 * (0x100_0001 * (n * (q * k))),
            q > 0,
            k >= 1,
            n <= 0xffff,
    ;
    assert(g / k <= n) by (nonlinear_arith)
        requires
            g < (n + 1) * k,
            k >= 1,
    ;
}

/// A bound on the product with one factor carries over to a smaller factor.
pub proof fn lemma_product_smaller(a: Ratio, s: Ratio, t: Ratio, n: nat)
    requires
        a.num > 0,
        a.den > 0,
        s.den > 0,
        t.den > 0,
        !t.below(s),
        0x100_0000 * (a.num * t.num) <= 0x100_0001 * (n * (a.den * t.den)),
    ensures
        0x100_0000 * (a.num * s.num) <= 0x100_0001 * (n * (a.den * s.den)),
{
    assert(0x100_0000 * (a.num * s.num) * t.den <= 0x100_0001 * (n * (a.den * s.den)) * t.den)
        by (nonlinear_arith)
        requires
            s.num * t.den <= t.num * s.den,
            0x100_0000 * (a.num * t.num) <= 0x100_0001 * (n * (a.den * t.den)),
            a.num > 0,
            s.den > 0,
    ;
    assert(0x100_0000 * (a.num * s.num) <= 0x100_0001 * (n * (a.den * s.den)))
        by (nonlinear_arith)
        requires
            0x100_0000 * (a.num * s.num) * t.den <= 0x100_0001 * (n * (a.den * s.den)) * t.den,
            t.den > 0,
    ;
}

/// The product of two bounds bounds the product.
proof fn lemma_le_mul(a: int, b: int, c: int, d: int)
    requires
        0 <= a <= b,
        0 <= c <= d,
    ensures
        a * c <= b * d,
{
    assert(a * c <= b * d) by (nonlinear_arith)
        requires
            0 <= a <= b,
            0 <= c <= d,
    ;
}

/// A positive factor on both sides of a bound can be dropped.
proof fn lemma_le_cancel(a: int, b: int, m: int)
    requires
        m > 0,
        a * m <= b * m,
    ensures
        a <= b,
{
    assert(a <= b) by (nonlinear_arith)
        requires
            m > 0,
            a * m <= b * m,
    ;
}

/// A side `x` scaled by a scale that is at most the one that the side `y`
/// allows for the length `n` comes out below `n * x / y` and the 1024th part
/// of a pixel.
proof fn lemma_scaled_above(x: nat, y: nat, n: nat, s: Ratio)
    requires
        1 <= x <= 0xffff_ffff,
        1 <= y <= 0xffff_ffff,
        1 <= n <= 3840,
        n * x <= 3840 * y,
        s.num >= 1,
        s.den >= 1,
        !quotient(n, single_of(y)).below(s),
    ensures
        product(single_of(x), s).num * y < (n * x + y) * product(single_of(x), s).den,
        1024 * (product(single_of(x), s).num * y) < (1024 * (n * x) + y) * product(
            single_of(x),
            s,
        ).den,
        product(single_of(x), s).den >= 1,
{
    let a = single_of(x);
    let v = single_of(y);
    let l = quotient(n, v);
    let p = product(a, s);
    lemma_single_of_bounds(x);
    lemma_single_of_bounds(y);
    lemma_quotient_bounds(n, v);
    let big_p = a.num * s.num;
    let big_q = a.den * s.den;
    assert(big_p >= 1 && big_q >= 1) by (nonlinear_arith)
        requires
            big_p == a.num * s.num,
            big_q == a.den * s.den,
            a.num >= 1,
            s.num >= 1,
            a.den >= 1,
            s.den >= 1,
    ;
    lemma_nearest_shape(big_p, big_q);
    lemma_nearest_error(big_p, big_q);
    let (an, ad, yn, yd, cn, cd, e, f, g, k) = (
        a.num as int,
        a.den as int,
        v.num as int,
        v.den as int,
        l.num as int,
        l.den as int,
        s.num as int,
        s.den as int,
        p.num as int,
        p.den as int,
    );
    let (xi, yi, ni, pi, qi) = (x as int, y as int, n as int, big_p as int, big_q as int);
    // The scale: e y (E - 1) <= f n (E + 1).
    let s_low = e * yi * 0xff_ffff;
    let s_high = f * ni * 0x100_0001;
    assert(s_low <= s_high) by {
        lemma_le_mul(e * cd, cn * f, 0xff_ffff * (yi * yd), 0x100_0000 * yn);
        assert((cn * f) * (0x100_0000 * yn) == f * (0x100_0000 * (yn * cn)))
            by (nonlinear_arith);
        assert(f * (0x100_0000 * (yn * cn)) <= f * (0x100_0001 * (ni * (yd * cd))))
            by (nonlinear_arith)
            requires
                0x100_0000 * (yn * cn) <= 0x100_0001 * (ni * (yd * cd)),
                f >= 0,
        ;
        assert((e * cd) * (0xff_ffff * (yi * yd)) == s_low * (yd * cd)) by (nonlinear_arith)
            requires
                s_low == e * yi * 0xff_ffff,
        ;
        assert(f * (0x100_0001 * (ni * (yd * cd))) == s_high * (yd * cd)) by (nonlinear_arith)
            requires
                s_high == f * ni * 0x100_0001,
        ;
        assert(yd * cd > 0) by (nonlinear_arith)
            requires
                yd >= 1,
                cd >= 1,
        ;
        lemma_le_cancel(s_low, s_high, yd * cd);
    }
    // The exact product: P y E (E - 1) <= Q n x (E + 1)^2.
    let m_low = pi * yi * 0x100_0000 * 0xff_ffff;
    let m_high = qi * ni * xi * 0x100_0001 * 0x100_0001;
    assert(m_low <= m_high) by {
        assert(0 <= s_low) by (nonlinear_arith)
            requires
                s_low == e * yi * 0xff_ffff,
                e >= 0,
                yi >= 0,
        ;
        lemma_le_mul(0x100_0000 * an, 0x100_0001 * (xi * ad), s_low, s_high);
        assert((0x100_0000 * an) * s_low == m_low) by (nonlinear_arith)
            requires
                s_low == e * yi * 0xff_ffff,
                m_low == pi * yi * 0x100_0000 * 0xff_ffff,
                pi == an * e,
        ;
        assert((0x100_0001 * (xi * ad)) * s_high == m_high) by (nonlinear_arith)
            requires
                s_high == f * ni * 0x100_0001,
                m_high == qi * ni * xi * 0x100_0001 * 0x100_0001,
                qi == ad * f,
        ;
    }
    // The rounded product: g y E^2 (E - 1) <= k n x (E + 1)^3.
    let r_low = g * yi * 0x100_0000 * 0x100_0000 * 0xff_ffff;
    let r_high = k * (ni * xi) * 0x100_0001 * 0x100_0001 * 0x100_0001;
    assert(r_low <= r_high) by {
        assert(0 <= m_low) by (nonlinear_arith)
            requires
                m_low == pi * yi * 0x100_0000 * 0xff_ffff,
                pi >= 0,
                yi >= 0,
        ;
        assert(0 <= 0x100_0000 * (g * qi)) by (nonlinear_arith)
            requires
                g >= 0,
                qi >= 0,
        ;
        assert((0x100_0000 * (g * qi)) * (yi * 0x100_0000 * 0xff_ffff) <= (0x100_0001 * (pi * k))
            * (yi * 0x100_0000 * 0xff_ffff)) by (nonlinear_arith)
            requires
                0x100_0000 * (g * qi) <= 0x100_0001 * (pi * k),
                yi >= 0,
        ;
        assert((0x100_0000 * (g * qi)) * (yi * 0x100_0000 * 0xff_ffff) == r_low * qi)
            by (nonlinear_arith)
            requires
                r_low == g * yi * 0x100_0000 * 0x100_0000 * 0xff_ffff,
        ;
        assert((0x100_0001 * (pi * k)) * (yi * 0x100_0000 * 0xff_ffff) == (0x100_0001 * k)
            * m_low) by (nonlinear_arith)
            requires
                m_low == pi * yi * 0x100_0000 * 0xff_ffff,
        ;
        assert((0x100_0001 * k) * m_low <= (0x100_0001 * k) * m_high) by (nonlinear_arith)
            requires
                m_low <= m_high,
                k >= 0,
        ;
        assert((0x100_0001 * k) * m_high == r_high * qi) by (nonlinear_arith)
            requires
                m_high == qi * ni * xi * 0x100_0001 * 0x100_0001,
                r_high == k * (ni * xi) * 0x100_0001 * 0x100_0001 * 0x100_0001,
        ;
        lemma_le_cancel(r_low, r_high, qi);
    }
    let nx = ni * xi;
    assert(0 <= nx <= 3840 * yi);
    assert(g * yi < (nx + yi) * k) by (nonlinear_arith)
        requires
            g * yi * 0x100_0000 * 0x100_0000 * 0xff_ffff <= k * nx * 0x100_0001 * 0x100_0001
                * 0x100_0001,
            0 <= nx <= 3840 * yi,
            yi >= 1,
            k >= 1,
    ;
    assert(1024 * (g * yi) < (1024 * nx + yi) * k) by (nonlinear_arith)
        requires
            g * yi * 0x100_0000 * 0x100_0000 * 0xff_ffff <= k * nx * 0x100_0001 * 0x100_0001
                * 0x100_0001,
            0 <= nx <= 3840 * yi,
            yi >= 1,
            k >= 1,
    ;
}

/// A side `x` scaled by the scale that the side `z` allows for the length `m`,
/// which is at least the scale that the side `y` allows for the length `n`,
/// comes out above `n * x / y` less the 1024th part of a pixel.
proof fn lemma_scaled_below(x: nat, y: nat, n: nat, z: nat, m: nat)
    requires
        1 <= x <= 0xffff_ffff,
        1 <= y <= 0xffff_ffff,
        1 <= z <= 0xffff_ffff,
        1 <= n <= 3840,
        1 <= m <= 3840,
        n * x <= 3840 * y,
        n * z <= m * y,
    ensures
        (n * x) * product(single_of(x), quotient(m, single_of(z))).den < (product(
            single_of(x),
            quotient(m, single_of(z)),
        ).num + product(single_of(x), quotient(m, single_of(z))).den) * y,
        1024 * ((n * x) * product(single_of(x), quotient(m, single_of(z))).den) < (1024
            * product(single_of(x), quotient(m, single_of(z))).num + product(
            single_of(x),
            quotient(m, single_of(z)),
        ).den) * y,
{
    let a = single_of(x);
    let v = single_of(z);
    let s = quotient(m, v);
    let p = product(a, s);
    lemma_single_of_bounds(x);
    lemma_single_of_bounds(z);
    lemma_quotient_bounds(m, v);
    let big_p = a.num * s.num;
    let big_q = a.den * s.den;
    assert(big_p >= 1 && big_q >= 1) by (nonlinear_arith)
        requires
            big_p == a.num * s.num,
            big_q == a.den * s.den,
            a.num >= 1,
            s.num >= 1,
            a.den >= 1,
            s.den >= 1,
    ;
    lemma_nearest_shape(big_p, big_q);
    lemma_nearest_error(big_p, big_q);
    let (an, ad, zn, zd, e, f, g, k) = (
        a.num as int,
        a.den as int,
        v.num as int,
        v.den as int,
        s.num as int,
        s.den as int,
        p.num as int,
        p.den as int,
    );
    let (xi, yi, zi, ni, mi, pi, qi) = (
        x as int,
        y as int,
        z as int,
        n as int,
        m as int,
        big_p as int,
        big_q as int,
    );
    // The scale: f n (E - 1) <= e y (E + 1).
    let s_low = f * ni * 0xff_ffff;
    let s_high = e * yi * 0x100_0001;
    assert(s_low <= s_high) by {
        assert((f * 0xff_ffff * zd) * (ni * zi) <= (f * 0xff_ffff * zd) * (mi * yi))
            by (nonlinear_arith)
            requires
                ni * zi <= mi * yi,
                f >= 0,
                zd >= 0,
        ;
        assert((f * 0xff_ffff * zd) * (mi * yi) == yi * (0xff_ffff * (mi * (zd * f))))
            by (nonlinear_arith);
        assert(yi * (0xff_ffff * (mi * (zd * f))) <= yi * (0x100_0000 * (zn * e)))
            by (nonlinear_arith)
            requires
                0xff_ffff * (mi * (zd * f)) <= 0x100_0000 * (zn * e),
                yi >= 0,
        ;
        assert(yi * (0x100_0000 * (zn * e)) == (yi * e) * (0x100_0000 * zn)) by (nonlinear_arith);
        assert((yi * e) * (0x100_0000 * zn) <= (yi * e) * (0x100_0001 * (zi * zd)))
            by (nonlinear_arith)
            requires
                0x100_0000 * zn <= 0x100_0001 * (zi * zd),
                yi >= 0,
                e >= 0,
        ;
        assert((f * 0xff_ffff * zd) * (ni * zi) == s_low * (zi * zd)) by (nonlinear_arith)
            requires
                s_low == f * ni * 0xff_ffff,
        ;
        assert((yi * e) * (0x100_0001 * (zi * zd)) == s_high * (zi * zd)) by (nonlinear_arith)
            requires
                s_high == e * yi * 0x100_0001,
        ;
        assert(zi * zd > 0) by (nonlinear_arith)
            requires
                zi >= 1,
                zd >= 1,
        ;
        lemma_le_cancel(s_low, s_high, zi * zd);
    }
    // The exact product: Q n x (E - 1)^2 <= P y E (E + 1).
    let m_low = qi * ni * xi * 0xff_ffff * 0xff_ffff;
    let m_high = pi * yi * 0x100_0000 * 0x100_0001;
    assert(m_low <= m_high) by {
        assert(0 <= s_low) by (nonlinear_arith)
            requires
                s_low == f * ni * 0xff_ffff,
                f >= 0,
                ni >= 0,
        ;
        assert(0 <= 0xff_ffff * (xi * ad)) by (nonlinear_arith)
            requires
                xi >= 0,
                ad >= 0,
        ;
        lemma_le_mul(0xff_ffff * (xi * ad), 0x100_0000 * an, s_low, s_high);
        assert((0xff_ffff * (xi * ad)) * s_low == m_low) by (nonlinear_arith)
            requires
                s_low == f * ni * 0xff_ffff,
                m_low == qi * ni * xi * 0xff_ffff * 0xff_ffff,
                qi == ad * f,
        ;
        assert((0x100_0000 * an) * s_high == m_high) by (nonlinear_arith)
            requires
                s_high == e * yi * 0x100_0001,
                m_high == pi * yi * 0x100_0000 * 0x100_0001,
                pi == an * e,
        ;
    }
    // The rounded product: k n x (E - 1)^3 <= g y E^2 (E + 1).
    let r_low = k * (ni * xi) * 0xff_ffff * 0xff_ffff * 0xff_ffff;
    let r_high = g * yi * 0x100_0000 * 0x100_0000 * 0x100_0001;
    assert(r_low <= r_high) by {
        assert((0xff_ffff * k) * m_low <= (0xff_ffff * k) * m_high) by (nonlinear_arith)
            requires
                m_low <= m_high,
                k >= 0,
        ;
        assert((0xff_ffff * k) * m_low == r_low * qi) by (nonlinear_arith)
            requires
                m_low == qi * ni * xi * 0xff_ffff * 0xff_ffff,
                r_low == k * (ni * xi) * 0xff_ffff * 0xff_ffff * 0xff_ffff,
        ;
        assert((0xff_ffff * k) * m_high == (0xff_ffff * (pi * k)) * (yi * 0x100_0000
            * 0x100_0001)) by (nonlinear_arith)
            requires
                m_high == pi * yi * 0x100_0000 * 0x100_0001,
        ;
        assert((0xff_ffff * (pi * k)) * (yi * 0x100_0000 * 0x100_0001) <= (0x100_0000 * (g
            * qi)) * (yi * 0x100_0000 * 0x100_0001)) by (nonlinear_arith)
            requires
                0xff_ffff * (pi * k) <= 0x100_0000 * (g * qi),
                yi >= 0,
        ;
        assert((0x100_0000 * (g * qi)) * (yi * 0x100_0000 * 0x100_0001) == r_high * qi)
            by (nonlinear_arith)
            requires
                r_high == g * yi * 0x100_0000 * 0x100_0000 * 0x100_0001,
        ;
        lemma_le_cancel(r_low, r_high, qi);
    }
    let nx = ni * xi;
    assert(0 <= nx <= 3840 * yi);
    assert(nx * k < (g + k) * yi) by (nonlinear_arith)
        requires
            k * nx * 0xff_ffff * 0xff_ffff * 0xff_ffff <= g * yi * 0x100_0000 * 0x100_0000
                * 0x100_0001,
            0 <= nx <= 3840 * yi,
            yi >= 1,
            k >= 1,
            g >= 0,
    ;
    assert(1024 * (nx * k) < (1024 * g + k) * yi) by (nonlinear_arith)
        requires
            k * nx * 0xff_ffff * 0xff_ffff * 0xff_ffff <= g * yi * 0x100_0000 * 0x100_0000
                * 0x100_0001,
            0 <= nx <= 3840 * yi,
            yi >= 1,
            k >= 1,
            g >= 0,
    ;
}

/// A length multiplied by a scale of at least one and a 4096th comes out no
/// shorter.
proof fn lemma_grows(x: nat, s: Ratio)
    requires
        1 <= x <= 0xffff_ffff,
        s.num >= 1,
        s.den >= 1,
        4097 * s.den <= 4096 * s.num,
    ensures
        product(single_of(x), s).floor() >= x,
{
    let a = single_of(x);
    lemma_single_of_bounds(x);
    let big_p = a.num * s.num;
    let big_q = a.den * s.den;
    assert(big_p >= 1 && big_q >= 1) by (nonlinear_arith)
        requires
            big_p == a.num * s.num,
            big_q == a.den * s.den,
            a.num >= 1,
            s.num >= 1,
            a.den >= 1,
            s.den >= 1,
    ;
    lemma_nearest_shape(big_p, big_q);
    lemma_nearest_error(big_p, big_q);
    let p = product(a, s);
    let (an, ad, e, f, g, k) = (
        a.num as int,
        a.den as int,
        s.num as int,
        s.den as int,
        p.num as int,
        p.den as int,
    );
    let (xi, pi, qi) = (x as int, big_p as int, big_q as int);
    // The exact product: 4097 (E - 1) x Q <= 4096 E P.
    assert(4097 * (0xff_ffff * (xi * qi)) <= 4096 * (0x100_0000 * pi)) by {
        assert(0 <= 0xff_ffff * (xi * ad)) by (nonlinear_arith)
            requires
                xi >= 0,
                ad >= 0,
        ;
        lemma_le_mul(0xff_ffff * (xi * ad), 0x100_0000 * an, 4097 * f, 4096 * e);
        assert((0xff_ffff * (xi * ad)) * (4097 * f) == 4097 * (0xff_ffff * (xi * qi)))
            by (nonlinear_arith)
            requires
                qi == ad * f,
        ;
        assert((0x100_0000 * an) * (4096 * e) == 4096 * (0x100_0000 * pi)) by (nonlinear_arith)
            requires
                pi == an * e,
        ;
    }
    assert((xi * k) * qi <= g * qi) by (nonlinear_arith)
        requires
            4097 * (0xff_ffff * (xi * qi)) <= 4096 * (0x100_0000 * pi),
            0xff_ffff * (pi * k) <= 0x100_0000 * (g * qi),
            xi >= 0,
            qi >= 1,
            k >= 1,
            pi >= 0,
            g >= 0,
    ;
    lemma_le_cancel(xi * k, g, qi);
    assert(g / k >= xi) by (nonlinear_arith)
        requires
            xi * k <= g,
            k >= 1,
    ;
}

/// A ratio within one of another has its integer part within one of the
/// integer part of the other.
proof fn lemma_floor_near(g: int, k: int, nx: int, y: int)
    requires
        g >= 0,
        k >= 1,
        nx >= 0,
        y >= 1,
        g * y < (nx + y) * k,
        nx * k < (g + k) * y,
    ensures
        nx / y - 1 <= g / k <= nx / y + 1,
{
    let new = g / k;
    let exact = nx / y;
    assert(new * k <= g < (new + 1) * k) by (nonlinear_arith)
        requires
            new == g / k,
            k >= 1,
            g >= 0,
    ;
    assert(exact * y <= nx < (exact + 1) * y) by (nonlinear_arith)
        requires
            exact == nx / y,
            y >= 1,
            nx >= 0,
    ;
    assert(new <= exact + 1) by (nonlinear_arith)
        requires
            new * k <= g,
            g * y < (nx + y) * k,
            nx < (exact + 1) * y,
            k >= 1,
            y >= 1,
    ;
    assert(exact <= new + 1) by (nonlinear_arith)
        requires
            g < (new + 1) * k,
            nx * k < (g + k) * y,
            exact * y <= nx,
            k >= 1,
            y >= 1,
    ;
}

/// One side of the fitted size lies between that side scaled in exact
/// arithmetic by the ratio `n / y`, less one pixel and the 1024th part of a
/// pixel, and that side scaled so and the 1024th part of a pixel more.
proof fn lemma_side_close(x: nat, w: nat, h: nat, n: nat, y: nat)
    requires
        1 <= w <= 0xffff_ffff,
        1 <= h <= 0xffff_ffff,
        x == w || x == h,
        (n == 3840 && y == w) || (n == 2160 && y == h),
        n * w <= 3840 * y,
        n * h <= 2160 * y,
    ensures
        1024 * (product(single_of(x), scale_factor(w, h)).floor() * y) < 1024 * (n * x) + y,
        1024 * (n * x) < 1024 * ((product(single_of(x), scale_factor(w, h)).floor() + 1) * y)
            + y,
        product(single_of(x), scale_factor(w, h)).floor() == if x == w {
            fitted_width(w, h)
        } else {
            fitted_height(w, h)
        },
{
    let s = scale_factor(w, h);
    let p = product(single_of(x), s);
    lemma_scale_factor(w, h);
    assert(n * x <= 3840 * y);
    lemma_scaled_above(x, y, n, s);
    if s == quotient(3840, single_of(w)) {
        lemma_scaled_below(x, y, n, w, 3840);
    } else {
        lemma_scaled_below(x, y, n, h, 2160);
    }
    let (g, k, yi) = (p.num as int, p.den as int, y as int);
    let nx = (n * x) as int;
    let new = g / k;
    assert(new * k <= g < (new + 1) * k) by (nonlinear_arith)
        requires
            new == g / k,
            k >= 1,
            g >= 0,
    ;
    assert(1024 * (new * yi) < 1024 * nx + yi) by (nonlinear_arith)
        requires
            new * k <= g,
            1024 * (g * yi) < (1024 * nx + yi) * k,
            k >= 1,
            yi >= 1,
    ;
    assert(1024 * nx < 1024 * ((new + 1) * yi) + yi) by (nonlinear_arith)
        requires
            g < (new + 1) * k,
            1024 * (nx * k) < (1024 * g + k) * yi,
            k >= 1,
            yi >= 1,
            new >= 0,
    ;
}

/// One side of the fitted size is within one pixel of that side scaled in
/// exact arithmetic by the ratio `n / y`, where that ratio is the smaller of
/// the two that the canvas allows.
proof fn lemma_side_near_exact(x: nat, w: nat, h: nat, n: nat, y: nat)
    requires
        1 <= w <= 0xffff_ffff,
        1 <= h <= 0xffff_ffff,
        x == w || x == h,
        (n == 3840 && y == w) || (n == 2160 && y == h),
        n * w <= 3840 * y,
        n * h <= 2160 * y,
    ensures
        (n * x) / y - 1 <= product(single_of(x), scale_factor(w, h)).floor() <= (n * x) / y + 1,
{
    let s = scale_factor(w, h);
    let p = product(single_of(x), s);
    lemma_scale_factor(w, h);
    assert(n * x <= 3840 * y);
    lemma_scaled_above(x, y, n, s);
    if s == quotient(3840, single_of(w)) {
        lemma_scaled_below(x, y, n, w, 3840);
    } else {
        lemma_scaled_below(x, y, n, h, 2160);
    }
    assert(0 <= n * x) by (nonlinear_arith)
        requires
            n >= 0,
            x >= 0,
    ;
    lemma_floor_near(p.num as int, p.den as int, (n * x) as int, y as int);
}

} // verus!
