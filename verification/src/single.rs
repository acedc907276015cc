//! Round-to-nearest arithmetic on positive single-precision binary values,
//! carried out on integers.
//!
//! A value is held as a ratio of two naturals, one of which is a power of
//! two. Every operation computes the exact rational result and then rounds it
//! to the nearest value with a significand of 24 bits, a tie going to the
//! even significand. The exponent is not limited: the arithmetic is that of
//! the binary32 format wherever a result is a normal number of that format,
//! which lies between two to the power -126 and two to the power 128.

use vstd::prelude::*;

verus! {

/// A non-negative rational `num / den`.
pub struct Ratio {
    pub num: nat,
    pub den: nat,
}

impl Ratio {
    /// This ratio multiplied by `up / down`.
    pub open spec fn scaled(self, up: nat, down: nat) -> Ratio {
        Ratio { num: up * self.num, den: down * self.den }
    }

    /// Whether this ratio is smaller than `other`.
    pub open spec fn below(self, other: Ratio) -> bool {
        self.num * other.den < other.num * self.den
    }

    /// The integer part of this ratio.
    pub open spec fn floor(self) -> nat
        recommends
            self.den > 0,
    {
        self.num / self.den
    }
}

/// `p / q` rounded to the nearest integer, a tie going to the even neighbour.
pub open spec fn round_half_even(p: nat, q: nat) -> nat
    recommends
        q > 0,
{
    let f = p / q;
    let r = p % q;
    if 2 * r > q || (2 * r == q && f % 2 == 1) {
        f + 1
    } else {
        f
    }
}

/// The distance of `p` from the binade `[2^23 q, 2^24 q)`, which the
/// normalisation in `nearest` shrinks at every step.
pub open spec fn binade_distance(p: nat, q: nat) -> nat {
    if p >= 0x100_0000 * q {
        (p - 0x100_0000 * q + 1) as nat
    } else if p < 0x80_0000 * q {
        (0x80_0000 * q - p) as nat
    } else {
        0
    }
}

/// The single-precision value nearest to `p / q`, for `p` and `q` positive.
///
/// The ratio is first brought into the binade `[2^23, 2^24)` by halving or
/// doubling, then rounded to an integer significand, and the scaling is
/// undone on the result.
pub open spec fn nearest(p: nat, q: nat) -> Ratio
    recommends
        p > 0,
        q > 0,
    decreases binade_distance(p, q),
{
    if p == 0 || q == 0 {
        Ratio { num: 0, den: 1 }
    } else if p >= 0x100_0000 * q {
        let r = nearest(p, 2 * q);
        Ratio { num: 2 * r.num, den: r.den }
    } else if p < 0x80_0000 * q {
        let r = nearest(2 * p, q);
        Ratio { num: r.num, den: 2 * r.den }
    } else {
        Ratio { num: round_half_even(p, q), den: 1 }
    }
}

/// The integer `n` converted to single precision.
pub open spec fn single_of(n: nat) -> Ratio {
    nearest(n, 1)
}

/// The single-precision quotient of the integer `n` by `d`.
pub open spec fn quotient(n: nat, d: Ratio) -> Ratio {
    nearest(n * d.den, d.num)
}

/// The single-precision product of `a` and `b`.
pub open spec fn product(a: Ratio, b: Ratio) -> Ratio {
    nearest(a.num * b.num, a.den * b.den)
}

/// Rounding to an integer moves a ratio by at most one half.
pub proof fn lemma_round_half_even(p: nat, q: nat)
    requires
        q > 0,
    ensures
        2 * (round_half_even(p, q) * q) <= 2 * p + q,
        2 * p <= 2 * (round_half_even(p, q) * q) + q,
        p / q <= round_half_even(p, q) <= p / q + 1,
{
    let f = p / q;
    let r = p % q;
    assert(p == f * q + r && 0 <= r < q) by (nonlinear_arith)
        requires
            f == p / q,
            r == p % q,
            q > 0,
    ;
    assert((f + 1) * q == f * q + q) by (nonlinear_arith);
}

/// The shape of a rounded value: a significand of 24 bits, scaled up with
/// denominator one where the ratio is large, scaled down where it is small.
pub proof fn lemma_nearest_shape(p: nat, q: nat)
    requires
        p > 0,
        q > 0,
    ensures
        nearest(p, q).num >= 0x80_0000,
        nearest(p, q).den >= 1,
        p >= 0x80_0000 * q ==> nearest(p, q).den == 1,
        p < 0x100_0000 * q ==> nearest(p, q).num <= 0x100_0000,
    decreases binade_distance(p, q),
{
    if p >= 0x100_0000 * q {
        lemma_nearest_shape(p, 2 * q);
    } else if p < 0x80_0000 * q {
        lemma_nearest_shape(2 * p, q);
    } else {
        lemma_round_half_even(p, q);
        assert(0x80_0000 <= p / q <= 0xff_ffff) by (nonlinear_arith)
            requires
                q > 0,
                0x80_0000 * q <= p < 0x100_0000 * q,
        ;
    }
}

/// Rounding moves a value by at most one part in two to the power 24.
pub proof fn lemma_nearest_error(p: nat, q: nat)
    requires
        p > 0,
        q > 0,
    ensures
        0x100_0000 * (nearest(p, q).num * q) <= 0x100_0001 * (p * nearest(p, q).den),
        0xff_ffff * (p * nearest(p, q).den) <= 0x100_0000 * (nearest(p, q).num * q),
    decreases binade_distance(p, q),
{
    let r = nearest(p, q);
    if p >= 0x100_0000 * q {
        let s = nearest(p, 2 * q);
        lemma_nearest_error(p, 2 * q);
        assert(s.num * (2 * q) == (2 * s.num) * q) by (nonlinear_arith);
    } else if p < 0x80_0000 * q {
        let s = nearest(2 * p, q);
        lemma_nearest_error(2 * p, q);
        assert((2 * p) * s.den == p * (2 * s.den)) by (nonlinear_arith);
    } else {
        lemma_round_half_even(p, q);
        assert(p * 1 == p);
    }
}

/// A positive single-precision value, held as the ratio `num / den`.
#[derive(Clone, Copy, Debug)]
pub struct Single {
    pub num: u64,
    pub den: u64,
}

impl View for Single {
    type V = Ratio;

    open spec fn view(&self) -> Ratio {
        Ratio { num: self.num as nat, den: self.den as nat }
    }
}

impl Single {
    /// Rounds the positive ratio `p / q` to the nearest single-precision value.
    ///
    /// The limits keep every intermediate inside 128 bits and the result inside
    /// 64 bits: `p / q` lies between two to the power -40 and two to the power 63.
    pub fn round(p: u128, q: u128) -> (r: Single)
        requires
            0 < p < 0x8000_0000_0000_0000,
            0 < q < 0x10_0000_0000_0000_0000_0000_0000,
            q <= 0x100_0000_0000 * p,
        ensures
            r@ == nearest(p as nat, q as nat),
    {
        let ghost p_in = p as nat;
        let ghost q_in = q as nat;
        let mut p = p;
        let mut q = q;
        let mut up: u128 = 1;
        let mut down: u128 = 1;
        while p >= 0x100_0000 * q
            invariant
                p == p_in,
                0 < p < 0x8000_0000_0000_0000,
                0 < q_in,
                0 < q < 0x10_0000_0000_0000_0000_0000_0000,
                q == up * q_in,
                1 <= up <= q,
                down == 1,
                up == 1 || 0x80_0000 * q <= p,
                nearest(p_in, q_in) == nearest(p as nat, q as nat).scaled(up as nat, 1),
            decreases p - q,
        {
            proof {
                let r = nearest(p as nat, (2 * q) as nat);
                assert(2 * (up * q_in) == (2 * up) * q_in) by (nonlinear_arith);
                assert(up * (2 * r.num) == (2 * up) * r.num) by (nonlinear_arith);
                assert(nearest(p as nat, q as nat) == Ratio { num: 2 * r.num, den: r.den });
            }
            q = 2 * q;
            up = 2 * up;
        }
        while p < 0x80_0000 * q
            invariant
                0 < p_in < 0x8000_0000_0000_0000,
                0 < q < 0x10_0000_0000_0000_0000_0000_0000,
                0 < p < 0x100_0000 * q,
                p == down * p_in,
                1 <= down <= p,
                up == 1 || (down == 1 && 0x80_0000 * q <= p),
                q == up * q_in,
                1 <= up <= q,
                q_in <= 0x100_0000_0000 * p_in,
                nearest(p_in, q_in) == nearest(p as nat, q as nat).scaled(up as nat, down as nat),
            decreases binade_distance(p as nat, q as nat),
        {
            proof {
                let r = nearest((2 * p) as nat, q as nat);
                assert(2 * (down * p_in) == (2 * down) * p_in) by (nonlinear_arith);
                assert(down * (2 * r.den) == (2 * down) * r.den) by (nonlinear_arith);
                assert(nearest(p as nat, q as nat) == Ratio { num: r.num, den: 2 * r.den });
            }
            p = 2 * p;
            down = 2 * down;
        }
        let f = p / q;
        let rem = p % q;
        let m = if 2 * rem > q || (2 * rem == q && f % 2 == 1) {
            f + 1
        } else {
            f
        };
        proof {
            assert(f <= 0xff_ffff) by (nonlinear_arith)
                requires
                    f == p / q,
                    q > 0,
                    p < 0x100_0000 * q,
            ;
            assert(up < 0x100_0000_0000) by (nonlinear_arith)
                requires
                    up == 1 || 0x80_0000 * (up * q_in) <= p_in,
                    p_in < 0x8000_0000_0000_0000,
                    q_in >= 1,
                    up >= 1,
            ;
            assert(down < 0x1_0000_0000_0000_0000) by (nonlinear_arith)
                requires
                    down == 1 || down * p_in < 0x100_0000 * q_in,
                    q_in <= 0x100_0000_0000 * p_in,
                    p_in >= 1,
                    down >= 1,
            ;
            assert(m * up < 0x1_0000_0000_0000_0000) by (nonlinear_arith)
                requires
                    m <= 0x100_0000,
                    up < 0x100_0000_0000,
            ;
            assert(nearest(p as nat, q as nat) == Ratio { num: m as nat, den: 1 });
            assert(up * m == m * up) by (nonlinear_arith);
            assert(down * 1 == down);
        }
        Single { num: (m * up) as u64, den: down as u64 }
    }

    /// Converts a positive integer.
    pub fn from_u32(n: u32) -> (r: Single)
        requires
            n >= 1,
        ensures
            r@ == single_of(n as nat),
    {
        Single::round(n as u128, 1)
    }

    /// Divides the integer `n` by `d`.
    pub fn divide(n: u32, d: Single) -> (r: Single)
        requires
            1 <= n <= 0xffff,
            1 <= d.num <= 0x2_0000_0000,
            1 <= d.den <= 0x200_0000,
        ensures
            r@ == quotient(n as nat, d@),
    {
        assert(n * d.den <= 0xffff * 0x200_0000 && n * d.den >= 1) by (nonlinear_arith)
            requires
                1 <= n <= 0xffff,
                1 <= d.den <= 0x200_0000,
        ;
        Single::round(n as u128 * d.den as u128, d.num as u128)
    }

    /// Multiplies two values whose product is at least two to the power -40.
    pub fn multiply(a: Single, b: Single) -> (r: Single)
        requires
            1 <= a.num <= 0x2_0000_0000,
            1 <= b.num <= 0x100_0000,
            1 <= a.den <= 0x200_0000,
            1 <= b.den,
            a.den * b.den <= 0x100_0000_0000 * (a.num * b.num),
        ensures
            r@ == product(a@, b@),
    {
        assert(1 <= a.num * b.num <= 0x2_0000_0000 * 0x100_0000) by (nonlinear_arith)
            requires
                1 <= a.num <= 0x2_0000_0000,
                1 <= b.num <= 0x100_0000,
        ;
        assert(1 <= a.den * b.den <= 0x200_0000 * 0xffff_ffff_ffff_ffff) by (nonlinear_arith)
            requires
                1 <= a.den <= 0x200_0000,
                1 <= b.den <= 0xffff_ffff_ffff_ffff,
        ;
        Single::round(a.num as u128 * b.num as u128, a.den as u128 * b.den as u128)
    }

    /// Whether this value is smaller than `other`.
    pub fn below(&self, other: &Single) -> (r: bool)
        ensures
            r == self@.below(other@),
    {
        assert(self.num * other.den <= 0xffff_ffff_ffff_ffff * 0xffff_ffff_ffff_ffff)
            by (nonlinear_arith)
            requires
                self.num <= 0xffff_ffff_ffff_ffff,
                other.den <= 0xffff_ffff_ffff_ffff,
        ;
        assert(other.num * self.den <= 0xffff_ffff_ffff_ffff * 0xffff_ffff_ffff_ffff)
            by (nonlinear_arith)
            requires
                other.num <= 0xffff_ffff_ffff_ffff,
                self.den <= 0xffff_ffff_ffff_ffff,
        ;
        (self.num as u128) * (other.den as u128) < (other.num as u128) * (self.den as u128)
    }

    /// The integer part of this value.
    pub fn floor(&self) -> (r: u64)
        requires
            self.den > 0,
        ensures
            r == self@.floor(),
    {
        self.num / self.den
    }
}

} // verus!
