//! Arithmetic of weighing a known quantity against a measured one by their variances.

use vstd::prelude::*;

verus! {

/// A factor of something that is not negative, beside one that is positive, is not negative.
proof fn other_factor(x: real, d: real)
    by (nonlinear_arith)
    requires
        d > 0real,
        x * d >= 0real,
    ensures
        x >= 0real,
{
}

/// The product of numbers that are not negative is not negative.
proof fn product(x: real, y: real)
    by (nonlinear_arith)
    requires
        x >= 0real,
        y >= 0real,
    ensures
        x * y >= 0real,
{
}

/// A unit factor changes nothing.
proof fn unit_factor(x: real, one: real)
    by (nonlinear_arith)
    requires
        one == 1real,
    ensures
        x * one == x,
{
}

/// What has a reciprocal is not zero.
proof fn reciprocal(s: real, d: real)
    by (nonlinear_arith)
    requires
        s * d == 1real,
    ensures
        d != 0real,
{
}

/// Multiplication distributes over addition and subtraction.
proof fn spread(x: real, y: real, z: real)
    by (nonlinear_arith)
    ensures
        (x + y) * z == x * z + y * z,
        (x - y) * z == x * z - y * z,
{
}

/// Factors can be taken in any order.
pub proof fn reorder(x: real, y: real, z: real)
    by (nonlinear_arith)
    ensures
        x * y == y * x,
        (x * y) * z == (x * z) * y,
        (x * y) * z == x * (y * z),
{
}

/// With the reciprocal `s` of `d`, the share `x / d` of `off` is `x * s * off`.
pub proof fn share(x: real, s: real, d: real, off: real)
    requires
        s * d == 1real,
    ensures
        ((x * s) * off) * d == x * off,
{
    reorder(x * s, off, d);
    reorder(x, s, d);
    unit_factor(x, s * d);
}

/// With the reciprocal `s` of `p + r`, what is left of `c` after its share `p / (p + r)` has
/// been taken away is the share `r / (p + r)`.
pub proof fn rest(p: real, r: real, s: real, c: real)
    requires
        s * (p + r) == 1real,
    ensures
        (c - (p * s) * c) * (p + r) == c * r,
        p + r != 0real,
{
    let d = p + r;
    reciprocal(s, d);
    spread(c, (p * s) * c, d);
    share(p, s, d, c);
    reorder(c, d, 1real);
    spread(p, r, c);
    reorder(r, c, 1real);
}

/// The share `p / (p + r)` of a difference lies between nothing and all of it.
pub proof fn share_is_a_part(p: real, r: real, off: real, x: real)
    requires
        p >= 0real,
        r >= 0real,
        p + r != 0real,
        x * (p + r) == p * off,
    ensures
        off >= 0real ==> 0real <= x <= off,
        off <= 0real ==> off <= x <= 0real,
{
    let d = p + r;
    if off >= 0real {
        product(p, off);
        other_factor(x, d);
        spread(off, x, d);
        reorder(off, d, 1real);
        spread(p, r, off);
        product(r, off);
        other_factor(off - x, d);
    }
    if off <= 0real {
        let back = 0real - off;
        spread(0real, x, d);
        spread(0real, off, p);
        reorder(p, off, 1real);
        reorder(p, back, 1real);
        nothing(d);
        nothing(p);
        product(p, back);
        other_factor(0real - x, d);
        spread(x, off, d);
        reorder(off, d, 1real);
        spread(p, r, off);
        reorder(r, off, 1real);
        spread(0real, off, r);
        nothing(r);
        reorder(r, back, 1real);
        product(r, back);
        other_factor(x - off, d);
    }
}

/// Nothing, any number of times, is nothing.
proof fn nothing(x: real)
    by (nonlinear_arith)
    ensures
        0real * x == 0real,
{
}

/// Of the same difference, the share `q / (q + r)` is the larger one where `q` is larger than
/// `p`.
pub proof fn larger_variance_weighs_more(
    p: real,
    q: real,
    r: real,
    off: real,
    b: real,
    w: real,
)
    requires
        0real <= p <= q,
        r > 0real,
        b * (p + r) == p * off,
        w * (q + r) == q * off,
        off >= 0real,
    ensures
        b <= w,
{
    // (w - b) * (q + r) == (q - p) * (off - b), and b is no more than off.
    let x = p + r;
    let y = q + r;
    share_is_a_part(p, r, off, b);
    spread(w, b, y);
    // b * y == b * x + b * (q - p)
    spread(x, q - p, b);
    reorder(x, b, 1real);
    reorder(y, b, 1real);
    reorder(q - p, b, 1real);
    spread(q, p, off);
    spread(off, b, q - p);
    reorder(q - p, off, 1real);
    product(off - b, q - p);
    other_factor(w - b, y);
}

/// So it is with a difference the other way round.
pub proof fn larger_variance_weighs_more_back(
    p: real,
    q: real,
    r: real,
    off: real,
    b: real,
    w: real,
)
    requires
        0real <= p <= q,
        r > 0real,
        b * (p + r) == p * off,
        w * (q + r) == q * off,
        off <= 0real,
    ensures
        w <= b,
{
    let back = 0real - off;
    spread(0real, b, p + r);
    spread(0real, w, q + r);
    spread(0real, off, p);
    spread(0real, off, q);
    nothing(p + r);
    nothing(q + r);
    nothing(p);
    nothing(q);
    reorder(p, off, 1real);
    reorder(q, off, 1real);
    reorder(p, back, 1real);
    reorder(q, back, 1real);
    larger_variance_weighs_more(p, q, r, back, 0real - b, 0real - w);
}

/// A fraction of a difference lies between nothing and all of it.
pub proof fn fraction_is_a_part(gain: real, off: real)
    requires
        0real <= gain <= 1real,
    ensures
        off >= 0real ==> 0real <= gain * off <= off,
        off <= 0real ==> off <= gain * off <= 0real,
{
    let p = gain;
    let r = 1real - gain;
    unit_factor(gain * off, p + r);
    share_is_a_part(p, r, off, gain * off);
}

} // verus!
