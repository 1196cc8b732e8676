//! Integer lattice geometry: points, axis-aligned boxes, and the alignment of
//! a view box to the chunk grid.

use vstd::prelude::*;
use vstd::arithmetic::div_mod::{lemma_fundamental_div_mod, lemma_fundamental_div_mod_converse};
use vstd::arithmetic::mul::{lemma_mul_inequality, lemma_mul_is_commutative, lemma_mul_nonnegative};

verus! {

/// A point of the three-dimensional integer lattice.
#[derive(Clone, Copy, Debug, PartialEq, Eq, Structural)]
pub struct Point3 {
    pub x: i32,
    pub y: i32,
    pub z: i32,
}

impl Point3 {
    pub fn new(x: i32, y: i32, z: i32) -> (p: Point3)
        ensures
            p == (Point3 { x, y, z }),
    {
        Point3 { x, y, z }
    }
}

/// An axis-aligned box of lattice points: in each dimension the half-open
/// interval that starts at `minimum` and has the length given by `shape`.
#[derive(Clone, Copy, Debug, PartialEq, Eq, Structural)]
pub struct Extent {
    pub minimum: Point3,
    pub shape: Point3,
}

impl Extent {
    pub open spec fn lub_x(self) -> int {
        self.minimum.x + self.shape.x
    }

    pub open spec fn lub_y(self) -> int {
        self.minimum.y + self.shape.y
    }

    pub open spec fn lub_z(self) -> int {
        self.minimum.z + self.shape.z
    }

    /// No side is negative, the least upper bound is a lattice point, and the
    /// number of points fits the machine's signed 32-bit range.
    pub open spec fn wf(self) -> bool {
        &&& self.shape.x >= 0
        &&& self.shape.y >= 0
        &&& self.shape.z >= 0
        &&& self.lub_x() <= i32::MAX
        &&& self.lub_y() <= i32::MAX
        &&& self.lub_z() <= i32::MAX
        &&& self.volume() <= i32::MAX
    }

    /// The number of lattice points in the box.
    pub open spec fn volume(self) -> int {
        self.shape.x * self.shape.y * self.shape.z
    }

    pub open spec fn spec_contains(self, p: Point3) -> bool {
        &&& self.minimum.x <= p.x < self.lub_x()
        &&& self.minimum.y <= p.y < self.lub_y()
        &&& self.minimum.z <= p.z < self.lub_z()
    }

    /// The position of `p` in the row-major order of the box, where `x` runs
    /// fastest and `z` slowest.
    pub open spec fn offset_of(self, p: Point3) -> int {
        (p.z - self.minimum.z) * (self.shape.y * self.shape.x) + (p.y - self.minimum.y)
            * self.shape.x + (p.x - self.minimum.x)
    }

    /// The point at position `i` of the row-major order of the box.
    pub open spec fn point_at(self, i: int) -> Point3 {
        Point3 {
            x: (self.minimum.x + i % (self.shape.x as int)) as i32,
            y: (self.minimum.y + (i / (self.shape.x as int)) % (self.shape.y as int)) as i32,
            z: (self.minimum.z + (i / (self.shape.x as int)) / (self.shape.y as int)) as i32,
        }
    }

    pub open spec fn spec_padded(self, pad: int) -> Extent
        recommends
            self.paddable(pad),
    {
        Extent {
            minimum: Point3 {
                x: (self.minimum.x - pad) as i32,
                y: (self.minimum.y - pad) as i32,
                z: (self.minimum.z - pad) as i32,
            },
            shape: Point3 {
                x: (self.shape.x + 2 * pad) as i32,
                y: (self.shape.y + 2 * pad) as i32,
                z: (self.shape.z + 2 * pad) as i32,
            },
        }
    }

    /// Padding by `pad` stays within the lattice.
    pub open spec fn paddable(self, pad: int) -> bool {
        &&& i32::MIN <= self.minimum.x - pad <= i32::MAX
        &&& i32::MIN <= self.minimum.y - pad <= i32::MAX
        &&& i32::MIN <= self.minimum.z - pad <= i32::MAX
        &&& i32::MIN <= self.shape.x + 2 * pad <= i32::MAX
        &&& i32::MIN <= self.shape.y + 2 * pad <= i32::MAX
        &&& i32::MIN <= self.shape.z + 2 * pad <= i32::MAX
    }

    pub fn from_min_and_shape(minimum: Point3, shape: Point3) -> (e: Extent)
        ensures
            e == (Extent { minimum, shape }),
    {
        Extent { minimum, shape }
    }

    /// The box from `minimum` up to, and without, `least_upper_bound`. A side
    /// that would be negative is empty instead.
    pub fn from_min_and_lub(minimum: Point3, least_upper_bound: Point3) -> (e: Extent)
        requires
            least_upper_bound.x - minimum.x <= i32::MAX,
            least_upper_bound.y - minimum.y <= i32::MAX,
            least_upper_bound.z - minimum.z <= i32::MAX,
        ensures
            e.minimum == minimum,
            e.shape.x == clamp_side(least_upper_bound.x - minimum.x),
            e.shape.y == clamp_side(least_upper_bound.y - minimum.y),
            e.shape.z == clamp_side(least_upper_bound.z - minimum.z),
    {
        Extent {
            minimum,
            shape: Point3 {
                x: side_between(minimum.x, least_upper_bound.x),
                y: side_between(minimum.y, least_upper_bound.y),
                z: side_between(minimum.z, least_upper_bound.z),
            },
        }
    }

    /// The least point that is above every point of the box in all three
    /// coordinates.
    pub fn least_upper_bound(&self) -> (lub: Point3)
        requires
            i32::MIN <= self.lub_x() <= i32::MAX,
            i32::MIN <= self.lub_y() <= i32::MAX,
            i32::MIN <= self.lub_z() <= i32::MAX,
        ensures
            lub.x == self.lub_x(),
            lub.y == self.lub_y(),
            lub.z == self.lub_z(),
    {
        Point3 {
            x: self.minimum.x + self.shape.x,
            y: self.minimum.y + self.shape.y,
            z: self.minimum.z + self.shape.z,
        }
    }

    pub fn contains(&self, p: Point3) -> (inside: bool)
        ensures
            inside == self.spec_contains(p),
    {
        let lx: i64 = self.minimum.x as i64 + self.shape.x as i64;
        let ly: i64 = self.minimum.y as i64 + self.shape.y as i64;
        let lz: i64 = self.minimum.z as i64 + self.shape.z as i64;
        self.minimum.x <= p.x && (p.x as i64) < lx && self.minimum.y <= p.y && (p.y as i64) < ly
            && self.minimum.z <= p.z && (p.z as i64) < lz
    }

    /// The box grown by `pad` lattice steps on each of its six sides.
    pub fn padded(&self, pad: i32) -> (e: Extent)
        requires
            self.paddable(pad as int),
        ensures
            e == self.spec_padded(pad as int),
    {
        Extent {
            minimum: Point3 {
                x: self.minimum.x - pad,
                y: self.minimum.y - pad,
                z: self.minimum.z - pad,
            },
            shape: Point3 {
                x: (self.shape.x as i64 + 2 * (pad as i64)) as i32,
                y: (self.shape.y as i64 + 2 * (pad as i64)) as i32,
                z: (self.shape.z as i64 + 2 * (pad as i64)) as i32,
            },
        }
    }

    /// Whether the box is well-formed.
    pub fn is_wf(&self) -> (ok: bool)
        ensures
            ok == self.wf(),
    {
        if self.shape.x < 0 || self.shape.y < 0 || self.shape.z < 0 {
            return false;
        }
        let limit: i64 = 0x7fff_ffff;
        if self.minimum.x as i64 + self.shape.x as i64 > limit || self.minimum.y as i64
            + self.shape.y as i64 > limit || self.minimum.z as i64 + self.shape.z as i64 > limit {
            return false;
        }
        proof {
            assert(0 <= self.shape.x * self.shape.y <= 0x7fff_ffff * 0x7fff_ffff)
                by (nonlinear_arith)
                requires
                    0 <= self.shape.x <= 0x7fff_ffff,
                    0 <= self.shape.y <= 0x7fff_ffff,
            ;
        }
        let xy: i64 = (self.shape.x as i64) * (self.shape.y as i64);
        proof {
            assert(0 <= xy * self.shape.z <= 0x3fff_ffff_0000_0001 * 0x7fff_ffff)
                by (nonlinear_arith)
                requires
                    0 <= xy <= 0x3fff_ffff_0000_0001,
                    0 <= self.shape.z <= 0x7fff_ffff,
            ;
        }
        let n: i128 = (xy as i128) * (self.shape.z as i128);
        n <= 0x7fff_ffff
    }

    /// The number of points of a well-formed box, as a machine integer.
    pub fn num_points(&self) -> (n: usize)
        requires
            self.wf(),
        ensures
            n == self.volume(),
    {
        proof {
            lemma_volume_bounds(*self);
            assert(self.shape.x * self.shape.y <= 0x7fff_ffff * 0x7fff_ffff) by (nonlinear_arith)
                requires
                    0 <= self.shape.x <= 0x7fff_ffff,
                    0 <= self.shape.y <= 0x7fff_ffff,
            ;
        }
        let xy: i64 = (self.shape.x as i64) * (self.shape.y as i64);
        let n: i64 = xy * (self.shape.z as i64);
        n as usize
    }
}

/// Whether `p` comes before `(z, x, y)` in the order in which a box is
/// walked: `z` slowest, then `x`, then `y`.
pub open spec fn walked(p: Point3, z: int, x: int, y: int) -> bool {
    p.z < z || (p.z == z && (p.x < x || (p.x == x && p.y < y)))
}

/// The length of a side of `d` steps, zero where `d` is negative.
pub open spec fn clamp_side(d: int) -> int {
    if d < 0 {
        0
    } else {
        d
    }
}

fn side_between(lo: i32, hi: i32) -> (side: i32)
    requires
        hi - lo <= i32::MAX,
    ensures
        side == clamp_side(hi - lo),
{
    if hi < lo {
        0
    } else {
        hi - lo
    }
}

/// In a well-formed box with a positive `z` side, the product of the `x` and
/// `y` sides is no more than the volume; with any `z` side it fits 32 bits
/// whenever the volume is not zero.
pub proof fn lemma_volume_bounds(e: Extent)
    requires
        e.wf(),
    ensures
        0 <= e.volume(),
        0 <= e.shape.x * e.shape.y,
        e.shape.z > 0 ==> e.shape.x * e.shape.y <= e.volume(),
        e.shape.z == 0 ==> e.volume() == 0,
        (e.shape.x * e.shape.y) * e.shape.z == e.volume(),
        e.shape.y * e.shape.x == e.shape.x * e.shape.y,
{
    let xy = e.shape.x * e.shape.y;
    lemma_mul_nonnegative(e.shape.x as int, e.shape.y as int);
    lemma_mul_nonnegative(xy, e.shape.z as int);
    lemma_mul_is_commutative(e.shape.x as int, e.shape.y as int);
    if e.shape.z > 0 {
        lemma_mul_inequality(1, e.shape.z as int, xy);
        lemma_mul_is_commutative(xy, e.shape.z as int);
    } else {
        assert(xy * 0 == 0) by (nonlinear_arith);
    }
}

/// A point of a well-formed box has a row-major position below the volume,
/// and two points with the same position are the same point.
pub proof fn lemma_offset_in_range(e: Extent, p: Point3)
    requires
        e.wf(),
        e.spec_contains(p),
    ensures
        0 <= e.offset_of(p) < e.volume(),
{
    let sx = e.shape.x as int;
    let sy = e.shape.y as int;
    let sz = e.shape.z as int;
    let dx = p.x - e.minimum.x;
    let dy = p.y - e.minimum.y;
    let dz = p.z - e.minimum.z;
    assert(0 <= dz * (sy * sx) + dy * sx + dx < sx * sy * sz) by (nonlinear_arith)
        requires
            0 <= dx < sx,
            0 <= dy < sy,
            0 <= dz < sz,
    ;
}

/// Every position below the volume of a well-formed box is that of one of
/// its points, the one that `point_at` gives.
pub proof fn lemma_point_at(e: Extent, i: int)
    requires
        e.wf(),
        0 <= i < e.volume(),
    ensures
        e.spec_contains(e.point_at(i)),
        e.offset_of(e.point_at(i)) == i,
{
    let sx = e.shape.x as int;
    let sy = e.shape.y as int;
    let sz = e.shape.z as int;
    assert(sx > 0 && sy > 0 && sz > 0) by (nonlinear_arith)
        requires
            0 <= sx,
            0 <= sy,
            0 <= sz,
            0 <= i < sx * sy * sz,
    ;
    let a = i / sx;
    let x = i % sx;
    let b = a / sy;
    let y = a % sy;
    lemma_fundamental_div_mod(i, sx);
    lemma_fundamental_div_mod(a, sy);
    assert(0 <= a) by (nonlinear_arith)
        requires
            i == sx * a + x,
            0 <= x < sx,
            0 <= i,
    ;
    assert(0 <= b) by (nonlinear_arith)
        requires
            a == sy * b + y,
            0 <= y < sy,
            0 <= a,
    ;
    assert(b < sz) by (nonlinear_arith)
        requires
            i == sx * a + x,
            a == sy * b + y,
            0 <= x < sx,
            0 <= y < sy,
            0 <= b,
            i < sx * sy * sz,
            sx > 0,
            sy > 0,
    ;
    assert(b * (sy * sx) + y * sx + x == i) by (nonlinear_arith)
        requires
            i == sx * a + x,
            a == sy * b + y,
    ;
}

/// Row-major positions tell the points of a box apart.
pub proof fn lemma_offset_injective(e: Extent, p: Point3, q: Point3)
    requires
        e.wf(),
        e.spec_contains(p),
        e.spec_contains(q),
        e.offset_of(p) == e.offset_of(q),
    ensures
        p == q,
{
    let sx = e.shape.x as int;
    let sy = e.shape.y as int;
    let px = p.x - e.minimum.x;
    let py = p.y - e.minimum.y;
    let pz = p.z - e.minimum.z;
    let qx = q.x - e.minimum.x;
    let qy = q.y - e.minimum.y;
    let qz = q.z - e.minimum.z;
    assert(pz == qz && py == qy && px == qx) by (nonlinear_arith)
        requires
            0 <= px < sx,
            0 <= py < sy,
            0 <= qx < sx,
            0 <= qy < sy,
            0 <= pz,
            0 <= qz,
            pz * (sy * sx) + py * sx + px == qz * (sy * sx) + qy * sx + qx,
    ;
}

/// The greatest multiple of `modulo` that is not above `v`.
pub open spec fn spec_modulo_down(v: int, modulo: int) -> int {
    (v / modulo) * modulo
}

/// The least multiple of `modulo` that is above `v`.
pub open spec fn spec_modulo_up(v: int, modulo: int) -> int {
    (v / modulo + 1) * modulo
}

/// `spec_modulo_down` is a multiple of the modulus within one modulus below
/// `v`; `spec_modulo_up` is the next multiple.
pub proof fn lemma_modulo_bounds(v: int, modulo: int)
    requires
        modulo > 0,
    ensures
        spec_modulo_down(v, modulo) <= v < spec_modulo_down(v, modulo) + modulo,
        spec_modulo_up(v, modulo) == spec_modulo_down(v, modulo) + modulo,
        spec_modulo_down(v, modulo) % modulo == 0,
        spec_modulo_up(v, modulo) % modulo == 0,
{
    lemma_fundamental_div_mod(v, modulo);
    let q = v / modulo;
    assert(modulo * q == q * modulo) by (nonlinear_arith);
    assert((q + 1) * modulo == q * modulo + modulo) by (nonlinear_arith);
    lemma_fundamental_div_mod_converse(q * modulo, modulo, q, 0);
    lemma_fundamental_div_mod_converse((q + 1) * modulo, modulo, q + 1, 0);
}

/// Every multiple of the modulus that is not above `v` is not above
/// `spec_modulo_down(v, modulo)`.
pub proof fn lemma_modulo_down_greatest(v: int, modulo: int, k: int)
    requires
        modulo > 0,
        k % modulo == 0,
        k <= v,
    ensures
        k <= spec_modulo_down(v, modulo),
{
    lemma_modulo_bounds(v, modulo);
    lemma_fundamental_div_mod(k, modulo);
    let q = v / modulo;
    let j = k / modulo;
    assert(modulo * j == j * modulo) by (nonlinear_arith);
    assert(j <= q) by (nonlinear_arith)
        requires
            modulo > 0,
            j * modulo < q * modulo + modulo,
    ;
    assert(j * modulo <= q * modulo) by (nonlinear_arith)
        requires
            modulo > 0,
            j <= q,
    ;
}

fn floor_div(v: i32, modulo: i32) -> (q: i32)
    requires
        modulo > 0,
    ensures
        q == v as int / modulo as int,
{
    if v >= 0 {
        v / modulo
    } else {
        let a: i64 = -(v as i64) - 1;
        let t: i64 = a / (modulo as i64);
        proof {
            let m = modulo as int;
            lemma_fundamental_div_mod(a as int, m);
            let s = (a as int) % m;
            assert(m * (t as int) == (t as int) * m) by (nonlinear_arith);
            assert((-(t as int) - 1) * m == -((t as int) * m) - m) by (nonlinear_arith);
            lemma_fundamental_div_mod_converse(v as int, m, -(t as int) - 1, m - s - 1);
            assert(0 <= t <= a) by (nonlinear_arith)
                requires
                    a >= 0,
                    m >= 1,
                    a == t * m + s,
                    0 <= s < m,
            ;
        }
        (-t - 1) as i32
    }
}

/// A number lies less than `modulo` above a multiple of `modulo` exactly if
/// rounding it down gives that multiple.
pub proof fn lemma_chunk_of_point(v: int, k: int, modulo: int)
    requires
        modulo > 0,
        k % modulo == 0,
    ensures
        k <= v < k + modulo <==> spec_modulo_down(v, modulo) == k,
{
    lemma_modulo_bounds(v, modulo);
    if k <= v < k + modulo {
        lemma_fundamental_div_mod(k, modulo);
        let q = k / modulo;
        assert(modulo * q == q * modulo) by (nonlinear_arith);
        lemma_fundamental_div_mod_converse(v, modulo, q, v - k);
    }
}

/// Whether `v` is a multiple of `modulo`.
pub fn is_multiple(v: i32, modulo: i32) -> (b: bool)
    requires
        modulo > 0,
    ensures
        b == (v as int % modulo as int == 0),
{
    let m: i64 = modulo as i64;
    if v >= 0 {
        (v as i64) % m == 0
    } else {
        let a: i64 = -(v as i64);
        let r: i64 = a % m;
        proof {
            let q = (a as int) / (m as int);
            lemma_fundamental_div_mod(a as int, m as int);
            assert((m as int) * q == q * (m as int)) by (nonlinear_arith);
            if r == 0 {
                assert((-q) * (m as int) == -(q * (m as int))) by (nonlinear_arith);
                lemma_fundamental_div_mod_converse(v as int, m as int, -q, 0);
            } else {
                assert((-q - 1) * (m as int) == -(q * (m as int)) - (m as int)) by (nonlinear_arith);
                lemma_fundamental_div_mod_converse(v as int, m as int, -q - 1, (m - r) as int);
            }
        }
        r == 0
    }
}

/// Rounds `v` down to a multiple of `modulo`.
pub fn modulo_down(v: i32, modulo: i32) -> (r: i32)
    requires
        modulo > 0,
        i32::MIN <= spec_modulo_down(v as int, modulo as int),
    ensures
        r == spec_modulo_down(v as int, modulo as int),
{
    let q: i32 = floor_div(v, modulo);
    proof {
        lemma_modulo_bounds(v as int, modulo as int);
    }
    ((q as i64) * (modulo as i64)) as i32
}

/// Rounds `v` up to the next multiple of `modulo`, also when `v` is one.
pub fn modulo_up(v: i32, modulo: i32) -> (r: i32)
    requires
        modulo > 0,
        spec_modulo_up(v as int, modulo as int) <= i32::MAX,
    ensures
        r == spec_modulo_up(v as int, modulo as int),
{
    let q: i32 = floor_div(v, modulo);
    proof {
        lemma_modulo_bounds(v as int, modulo as int);
    }
    ((q as i64 + 1) * (modulo as i64)) as i32
}

/// The flat square box of half-width `view_distance` around a viewer, on the
/// horizontal plane `y = 0`.
pub open spec fn spec_transform_to_extent(cam_pos: Point3, view_distance: i32) -> Extent {
    Extent {
        minimum: Point3 {
            x: (cam_pos.x - view_distance) as i32,
            y: 0,
            z: (cam_pos.z - view_distance) as i32,
        },
        shape: Point3 {
            x: clamp_side(2 * view_distance) as i32,
            y: 0,
            z: clamp_side(2 * view_distance) as i32,
        },
    }
}

/// The viewer's square stays within the lattice.
pub open spec fn view_fits(cam_pos: Point3, view_distance: i32) -> bool {
    &&& i32::MIN <= cam_pos.x - view_distance <= i32::MAX
    &&& i32::MIN <= cam_pos.x + view_distance <= i32::MAX
    &&& i32::MIN <= cam_pos.z - view_distance <= i32::MAX
    &&& i32::MIN <= cam_pos.z + view_distance <= i32::MAX
    &&& 2 * view_distance <= i32::MAX
}

pub fn transform_to_extent(cam_pos: Point3, view_distance: i32) -> (e: Extent)
    requires
        view_fits(cam_pos, view_distance),
    ensures
        e == spec_transform_to_extent(cam_pos, view_distance),
{
    Extent::from_min_and_lub(
        Point3 { x: cam_pos.x - view_distance, y: 0, z: cam_pos.z - view_distance },
        Point3 { x: cam_pos.x + view_distance, y: 0, z: cam_pos.z + view_distance },
    )
}

/// The box whose horizontal bounds are those of `extent` moved outward to
/// multiples of `modulo`: the lower ones down, the upper ones up to the next
/// multiple and one step beyond it, so that the multiple itself is inside.
/// The vertical side grows by one.
pub open spec fn spec_extent_modulo_expand(extent: Extent, modulo: i32) -> Extent {
    let min_x = spec_modulo_down(extent.minimum.x as int, modulo as int);
    let min_z = spec_modulo_down(extent.minimum.z as int, modulo as int);
    let lub_x = spec_modulo_up(extent.lub_x(), modulo as int) + 1;
    let lub_z = spec_modulo_up(extent.lub_z(), modulo as int) + 1;
    Extent {
        minimum: Point3 { x: min_x as i32, y: extent.minimum.y, z: min_z as i32 },
        shape: Point3 {
            x: (lub_x - min_x) as i32,
            y: clamp_side(extent.shape.y + 1) as i32,
            z: (lub_z - min_z) as i32,
        },
    }
}

/// The expanded box stays within the lattice.
pub open spec fn expand_fits(extent: Extent, modulo: i32) -> bool {
    &&& modulo > 0
    &&& extent.shape.x >= 0
    &&& extent.shape.z >= 0
    &&& i32::MIN <= extent.shape.y < i32::MAX
    &&& i32::MIN <= extent.lub_y() < i32::MAX
    &&& i32::MIN <= spec_modulo_down(extent.minimum.x as int, modulo as int)
    &&& i32::MIN <= spec_modulo_down(extent.minimum.z as int, modulo as int)
    &&& extent.lub_x() <= i32::MAX
    &&& extent.lub_z() <= i32::MAX
    &&& spec_modulo_up(extent.lub_x(), modulo as int) + 1 - spec_modulo_down(
        extent.minimum.x as int,
        modulo as int,
    ) <= i32::MAX
    &&& spec_modulo_up(extent.lub_z(), modulo as int) + 1 - spec_modulo_down(
        extent.minimum.z as int,
        modulo as int,
    ) <= i32::MAX
    &&& spec_modulo_up(extent.lub_x(), modulo as int) < i32::MAX
    &&& spec_modulo_up(extent.lub_z(), modulo as int) < i32::MAX
}

/// The expanded box starts at a multiple of `modulo` that is less than one
/// `modulo` below the start of `extent`, and ends one step after the first
/// multiple above the end of `extent`: every multiple of `modulo` from the
/// start of `extent` to its end, both included, lies within it.
pub proof fn lemma_expand_covers(extent: Extent, modulo: i32, k: int)
    requires
        expand_fits(extent, modulo),
    ensures
        spec_extent_modulo_expand(extent, modulo).minimum.x as int % (modulo as int) == 0,
        spec_extent_modulo_expand(extent, modulo).minimum.z as int % (modulo as int) == 0,
        extent.minimum.x - modulo < spec_extent_modulo_expand(extent, modulo).minimum.x
            <= extent.minimum.x,
        extent.minimum.z - modulo < spec_extent_modulo_expand(extent, modulo).minimum.z
            <= extent.minimum.z,
        extent.minimum.x <= k <= extent.lub_x() ==> spec_extent_modulo_expand(
            extent,
            modulo,
        ).minimum.x <= k < spec_extent_modulo_expand(extent, modulo).lub_x(),
        extent.minimum.z <= k <= extent.lub_z() ==> spec_extent_modulo_expand(
            extent,
            modulo,
        ).minimum.z <= k < spec_extent_modulo_expand(extent, modulo).lub_z(),
{
    lemma_modulo_bounds(extent.minimum.x as int, modulo as int);
    lemma_modulo_bounds(extent.minimum.z as int, modulo as int);
    lemma_modulo_bounds(extent.lub_x(), modulo as int);
    lemma_modulo_bounds(extent.lub_z(), modulo as int);
}

pub fn extent_modulo_expand(extent: Extent, modulo: i32) -> (e: Extent)
    requires
        expand_fits(extent, modulo),
    ensures
        e == spec_extent_modulo_expand(extent, modulo),
{
    let min: Point3 = extent.minimum;
    proof {
        lemma_modulo_bounds(extent.minimum.x as int, modulo as int);
        lemma_modulo_bounds(extent.minimum.z as int, modulo as int);
        lemma_modulo_bounds(extent.lub_x(), modulo as int);
        lemma_modulo_bounds(extent.lub_z(), modulo as int);
    }
    let max: Point3 = extent.least_upper_bound();
    Extent::from_min_and_lub(
        Point3 { x: modulo_down(min.x, modulo), y: min.y, z: modulo_down(min.z, modulo) },
        Point3 { x: modulo_up(max.x, modulo) + 1, y: max.y + 1, z: modulo_up(max.z, modulo) + 1 },
    )
}

} // verus!
