//! 3D points on a fixed-point grid, and rotation about the coordinate axes.

use vstd::prelude::*;

verus! {

/// Fixed-point scale: one world unit is `SCALE` raw units.
pub const SCALE: i64 = 65536;

/// Raw coordinate bound accepted by a single axis rotation.
pub const ROT_LIMIT: i64 = 0x100_0000_0000;

/// Raw coordinate bound accepted by a full three-axis rotation
/// (each axis step can at most double a coordinate bound).
pub const ROT_ALL_LIMIT: i64 = 0x20_0000_0000;

/// Truncating division (the semantics of `/` on the machine integers),
/// for a positive divisor.
pub open spec fn tdiv(a: int, b: int) -> int {
    if a >= 0 {
        a / b
    } else {
        -((-a) / b)
    }
}

/// Rescale a sum of products of raw coordinates with scaled trigonometric
/// values back to raw coordinates.
pub open spec fn scale_down(a: int) -> int {
    tdiv(a, SCALE as int)
}

/// First coordinate of rotating the plane point `(u, w)` by the angle whose
/// scaled cosine and sine are `c` and `s`: `(u*c + w*s) / SCALE`, truncated.
pub open spec fn rot_u(u: int, w: int, c: int, s: int) -> int {
    scale_down(u * c + w * s)
}

/// Second coordinate of rotating the plane point `(u, w)`:
/// `(w*c - u*s) / SCALE`, truncated.
pub open spec fn rot_w(u: int, w: int, c: int, s: int) -> int {
    scale_down(w * c - u * s)
}

/// Rotation about the x axis: acts on the (y, z) plane.
pub open spec fn spec_rotate_x(p: (int, int, int), c: int, s: int) -> (int, int, int) {
    (p.0, rot_u(p.1, p.2, c, s), rot_w(p.1, p.2, c, s))
}

/// Rotation about the y axis: acts on the (z, x) plane.
pub open spec fn spec_rotate_y(p: (int, int, int), c: int, s: int) -> (int, int, int) {
    (rot_w(p.2, p.0, c, s), p.1, rot_u(p.2, p.0, c, s))
}

/// Rotation about the z axis: acts on the (x, y) plane.
pub open spec fn spec_rotate_z(p: (int, int, int), c: int, s: int) -> (int, int, int) {
    (rot_w(p.1, p.0, c, s), rot_u(p.1, p.0, c, s), p.2)
}

/// The composite rotation: x axis first, then y, then z. The order is part
/// of the design: the three rotations do not commute.
pub open spec fn spec_rotate_all(
    p: (int, int, int),
    cx: int,
    sx: int,
    cy: int,
    sy: int,
    cz: int,
    sz: int,
) -> (int, int, int) {
    spec_rotate_z(spec_rotate_y(spec_rotate_x(p, cx, sx), cy, sy), cz, sz)
}

/// An angle, represented by its cosine and sine scaled by `SCALE`.
#[derive(Clone, Copy, Debug, PartialEq, Eq, Structural)]
pub struct Angle {
    pub cos: i64,
    pub sin: i64,
}

impl View for Angle {
    type V = (int, int);

    open spec fn view(&self) -> (int, int) {
        (self.cos as int, self.sin as int)
    }
}

impl Angle {
    /// A scaled cosine or sine can be no larger in magnitude than `SCALE`.
    pub open spec fn wf(self) -> bool {
        &&& -SCALE <= self.cos <= SCALE
        &&& -SCALE <= self.sin <= SCALE
    }

    /// The zero angle: cosine one, sine zero.
    pub fn zero() -> (a: Angle)
        ensures
            a.cos == SCALE,
            a.sin == 0,
            a.wf(),
    {
        Angle { cos: SCALE, sin: 0 }
    }
}

/// A point in 3D space, each coordinate in raw fixed-point units.
#[derive(Clone, Copy, Debug, PartialEq, Eq, Structural)]
pub struct Vector {
    pub x: i64,
    pub y: i64,
    pub z: i64,
}

impl View for Vector {
    type V = (int, int, int);

    open spec fn view(&self) -> (int, int, int) {
        (self.x as int, self.y as int, self.z as int)
    }
}

impl Vector {
    /// Every coordinate lies within `l` raw units of the origin.
    pub open spec fn in_lim(self, l: int) -> bool {
        &&& -l <= self.x <= l
        &&& -l <= self.y <= l
        &&& -l <= self.z <= l
    }
}

/// Rotation about the coordinate axes, for point types whose mathematical
/// value is an integer triple.
pub trait Rotation: Sized {
    /// The mathematical value of the point.
    spec fn model(self) -> (int, int, int);

    /// Every coordinate lies within `l` raw units of the origin.
    spec fn bounded(self, l: int) -> bool;

    /// Rotate about the x axis by the angle `a`.
    fn rotate_x(&self, a: Angle) -> (r: Self)
        requires
            self.bounded(ROT_LIMIT as int),
            a.wf(),
        ensures
            r.model() == spec_rotate_x(self.model(), a@.0, a@.1),
    ;

    /// Rotate about the y axis by the angle `a`.
    fn rotate_y(&self, a: Angle) -> (r: Self)
        requires
            self.bounded(ROT_LIMIT as int),
            a.wf(),
        ensures
            r.model() == spec_rotate_y(self.model(), a@.0, a@.1),
    ;

    /// Rotate about the z axis by the angle `a`.
    fn rotate_z(&self, a: Angle) -> (r: Self)
        requires
            self.bounded(ROT_LIMIT as int),
            a.wf(),
        ensures
            r.model() == spec_rotate_z(self.model(), a@.0, a@.1),
    ;

    /// Rotate about the x axis, then the y axis, then the z axis, replacing
    /// the point with the composed rotation. The order is fixed by design.
    fn rotate_all(&mut self, ax: Angle, ay: Angle, az: Angle)
        requires
            old(self).bounded(ROT_ALL_LIMIT as int),
            ax.wf(),
            ay.wf(),
            az.wf(),
        ensures
            final(self).model() == spec_rotate_all(
                old(self).model(),
                ax@.0,
                ax@.1,
                ay@.0,
                ay@.1,
                az@.0,
                az@.1,
            ),
            final(self).bounded(8 * ROT_ALL_LIMIT as int),
    ;
}

impl Rotation for Vector {
    open spec fn model(self) -> (int, int, int) {
        self@
    }

    open spec fn bounded(self, l: int) -> bool {
        self.in_lim(l)
    }

    fn rotate_x(&self, a: Angle) -> (r: Vector) {
        Vector {
            x: self.x,
            y: rotate_coords_u(self.y, self.z, a),
            z: rotate_coords_w(self.y, self.z, a),
        }
    }

    fn rotate_y(&self, a: Angle) -> (r: Vector) {
        Vector {
            x: rotate_coords_w(self.z, self.x, a),
            y: self.y,
            z: rotate_coords_u(self.z, self.x, a),
        }
    }

    fn rotate_z(&self, a: Angle) -> (r: Vector) {
        Vector {
            x: rotate_coords_w(self.y, self.x, a),
            y: rotate_coords_u(self.y, self.x, a),
            z: self.z,
        }
    }

    fn rotate_all(&mut self, ax: Angle, ay: Angle, az: Angle) {
        let ghost b: int = ROT_ALL_LIMIT as int;
        proof {
            lemma_rot_bound(self.y as int, self.z as int, ax@.0, ax@.1, b);
        }
        let r1 = self.rotate_x(ax);
        proof {
            lemma_rot_bound(r1.z as int, r1.x as int, ay@.0, ay@.1, 2 * b);
        }
        let r2 = r1.rotate_y(ay);
        proof {
            lemma_rot_bound(r2.y as int, r2.x as int, az@.0, az@.1, 4 * b);
        }
        let r3 = r2.rotate_z(az);
        *self = r3;
    }
}

/// The rotated coordinates of a point bounded by `b` are bounded by `2 * b`.
pub proof fn lemma_rot_bound(u: int, w: int, c: int, s: int, b: int)
    requires
        -b <= u <= b,
        -b <= w <= b,
        -SCALE <= c <= SCALE,
        -SCALE <= s <= SCALE,
        0 <= b,
    ensures
        -2 * b <= rot_u(u, w, c, s) <= 2 * b,
        -2 * b <= rot_w(u, w, c, s) <= 2 * b,
{
    lemma_product_bound(u, c, b);
    lemma_product_bound(w, s, b);
    lemma_product_bound(w, c, b);
    lemma_product_bound(u, s, b);
    lemma_tdiv_bound(u * c + w * s, SCALE as int, 2 * b);
    lemma_tdiv_bound(w * c - u * s, SCALE as int, 2 * b);
}

/// A quotient is bounded by `m` when the dividend is bounded by `m * b`.
proof fn lemma_tdiv_bound(a: int, b: int, m: int)
    requires
        b >= 1,
        0 <= m,
        -(m * b) <= a <= m * b,
    ensures
        -m <= tdiv(a, b) <= m,
{
    if a >= 0 {
        vstd::arithmetic::div_mod::lemma_div_pos_is_pos(a, b);
        vstd::arithmetic::div_mod::lemma_div_is_ordered(a, m * b, b);
        vstd::arithmetic::div_mod::lemma_div_multiples_vanish(m, b);
        assert(m * b == b * m) by (nonlinear_arith);
    } else {
        vstd::arithmetic::div_mod::lemma_div_pos_is_pos(-a, b);
        vstd::arithmetic::div_mod::lemma_div_is_ordered(-a, m * b, b);
        vstd::arithmetic::div_mod::lemma_div_multiples_vanish(m, b);
        assert(m * b == b * m) by (nonlinear_arith);
    }
}

/// Rotating by the zero angle (cosine `SCALE`, sine 0) about any axis, or
/// about all three, leaves every point unchanged.
pub proof fn lemma_rotate_zero_identity(p: (int, int, int))
    ensures
        spec_rotate_x(p, SCALE as int, 0) == p,
        spec_rotate_y(p, SCALE as int, 0) == p,
        spec_rotate_z(p, SCALE as int, 0) == p,
        spec_rotate_all(p, SCALE as int, 0, SCALE as int, 0, SCALE as int, 0) == p,
{
    lemma_scale_down_multiple(p.0);
    lemma_scale_down_multiple(p.1);
    lemma_scale_down_multiple(p.2);
}

/// Rescaling a value that is an exact multiple of `SCALE` recovers it.
proof fn lemma_scale_down_multiple(a: int)
    ensures
        scale_down(a * SCALE) == a,
{
    if a >= 0 {
        assert(a * SCALE >= 0) by (nonlinear_arith)
            requires a >= 0;
        vstd::arithmetic::div_mod::lemma_div_multiples_vanish(a, SCALE as int);
        assert(a * SCALE == SCALE * a) by (nonlinear_arith);
    } else {
        assert(a * SCALE < 0) by (nonlinear_arith)
            requires a < 0;
        assert(-(a * SCALE) == (-a) * SCALE) by (nonlinear_arith);
        vstd::arithmetic::div_mod::lemma_div_multiples_vanish(-a, SCALE as int);
        assert((-a) * SCALE == SCALE * (-a)) by (nonlinear_arith);
    }
}

/// A planar rotation by an exact angle (one whose scaled cosine and sine
/// satisfy `c*c + s*s == SCALE*SCALE`) preserves the squared norm exactly
/// before rescaling: the rotated products sum to the original squared norm
/// times `SCALE*SCALE`. Rescaling then changes each coordinate by less than
/// one raw unit (`lemma_scale_down_error`).
pub proof fn lemma_rotation_preserves_norm(u: int, w: int, c: int, s: int)
    requires
        c * c + s * s == SCALE * SCALE,
    ensures
        (u * c + w * s) * (u * c + w * s) + (w * c - u * s) * (w * c - u * s) == (u * u + w * w)
            * (SCALE * SCALE),
{
    lemma_square_of_sum(u * c, w * s);
    lemma_square_of_difference(w * c, u * s);
    assert((u * c) * (u * c) == u * u * (c * c)) by (nonlinear_arith);
    assert((w * s) * (w * s) == w * w * (s * s)) by (nonlinear_arith);
    assert((w * c) * (w * c) == w * w * (c * c)) by (nonlinear_arith);
    assert((u * s) * (u * s) == u * u * (s * s)) by (nonlinear_arith);
    assert((u * c) * (w * s) == u * w * (c * s)) by (nonlinear_arith);
    assert((w * c) * (u * s) == u * w * (c * s)) by (nonlinear_arith);
    lemma_product_of_sums(u * u, w * w, c * c, s * s);
    lemma_multiply_equal_factor(u * u + w * w, c * c + s * s, SCALE * SCALE);
}

/// `(a + b)^2 == a^2 + 2ab + b^2`.
proof fn lemma_square_of_sum(a: int, b: int)
    by (nonlinear_arith)
    ensures
        (a + b) * (a + b) == a * a + 2 * (a * b) + b * b,
{
}

/// `(a - b)^2 == a^2 - 2ab + b^2`.
proof fn lemma_square_of_difference(a: int, b: int)
    by (nonlinear_arith)
    ensures
        (a - b) * (a - b) == a * a - 2 * (a * b) + b * b,
{
}

/// `(a + b)(c + d)` distributes over its four products.
proof fn lemma_product_of_sums(a: int, b: int, c: int, d: int)
    by (nonlinear_arith)
    ensures
        (a + b) * (c + d) == a * c + a * d + b * c + b * d,
{
}

/// Multiplying by either of two equal factors gives the same product.
proof fn lemma_multiply_equal_factor(a: int, b: int, c: int)
    by (nonlinear_arith)
    requires
        b == c,
    ensures
        a * b == a * c,
{
}

/// Rescaling truncates: the rescaled value, brought back to the product
/// scale, differs from the exact value by less than `SCALE`.
pub proof fn lemma_scale_down_error(a: int)
    ensures
        a - SCALE < scale_down(a) * SCALE,
        scale_down(a) * SCALE < a + SCALE,
{
    if a >= 0 {
        vstd::arithmetic::div_mod::lemma_fundamental_div_mod(a, SCALE as int);
        vstd::arithmetic::div_mod::lemma_mod_bound(a, SCALE as int);
        assert((a / SCALE as int) * SCALE == SCALE * (a / SCALE as int)) by (nonlinear_arith);
    } else {
        vstd::arithmetic::div_mod::lemma_fundamental_div_mod(-a, SCALE as int);
        vstd::arithmetic::div_mod::lemma_mod_bound(-a, SCALE as int);
        assert(-(((-a) / SCALE as int) * SCALE) == scale_down(a) * SCALE) by (nonlinear_arith)
            requires a < 0 && scale_down(a) == -((-a) / SCALE as int);
        assert(((-a) / SCALE as int) * SCALE == SCALE * ((-a) / SCALE as int)) by (nonlinear_arith);
    }
}

/// The composite rotation is exactly the x-axis rotation, then the y-axis
/// rotation of that result, then the z-axis rotation of that: the fixed
/// order in which the three axis rotations compose.
pub proof fn lemma_rotate_all_composition(
    p: (int, int, int),
    cx: int,
    sx: int,
    cy: int,
    sy: int,
    cz: int,
    sz: int,
)
    ensures
        spec_rotate_all(p, cx, sx, cy, sy, cz, sz) == spec_rotate_z(
            spec_rotate_y(spec_rotate_x(p, cx, sx), cy, sy),
            cz,
            sz,
        ),
{
}

/// Compute `rot_u` on machine integers.
fn rotate_coords_u(u: i64, w: i64, a: Angle) -> (r: i64)
    requires
        -ROT_LIMIT <= u <= ROT_LIMIT,
        -ROT_LIMIT <= w <= ROT_LIMIT,
        a.wf(),
    ensures
        r == rot_u(u as int, w as int, a@.0, a@.1),
{
    proof {
        lemma_product_bound(u as int, a.cos as int, ROT_LIMIT as int);
        lemma_product_bound(w as int, a.sin as int, ROT_LIMIT as int);
    }
    let sum: i64 = u * a.cos + w * a.sin;
    scale_div(sum)
}

/// Compute `rot_w` on machine integers.
fn rotate_coords_w(u: i64, w: i64, a: Angle) -> (r: i64)
    requires
        -ROT_LIMIT <= u <= ROT_LIMIT,
        -ROT_LIMIT <= w <= ROT_LIMIT,
        a.wf(),
    ensures
        r == rot_w(u as int, w as int, a@.0, a@.1),
{
    proof {
        lemma_product_bound(w as int, a.cos as int, ROT_LIMIT as int);
        lemma_product_bound(u as int, a.sin as int, ROT_LIMIT as int);
    }
    let sum: i64 = w * a.cos - u * a.sin;
    scale_div(sum)
}

/// `|a| <= b` and `|c| <= SCALE` bound the product `a * c`.
proof fn lemma_product_bound(a: int, c: int, b: int)
    by (nonlinear_arith)
    requires
        -b <= a <= b,
        -SCALE <= c <= SCALE,
        0 <= b,
    ensures
        -b * SCALE <= a * c <= b * SCALE,
{
}

/// Truncating division by `SCALE` on machine integers.
fn scale_div(a: i64) -> (r: i64)
    ensures
        r == scale_down(a as int),
{
    proof {
        lemma_tdiv_shrinks(a as int, SCALE as int);
    }
    a / SCALE
}

/// Truncating division by a positive divisor never grows the magnitude.
proof fn lemma_tdiv_shrinks(a: int, b: int)
    by (nonlinear_arith)
    requires
        b >= 1,
    ensures
        a >= 0 ==> 0 <= tdiv(a, b) <= a,
        a < 0 ==> a <= tdiv(a, b) <= 0,
{
}

} // verus!
