//! The six face directions of a cube, and quads: rectangles of voxel faces
//! that look in one direction and share a material.

use vstd::prelude::*;
use crate::geometry::{Extent, Point3};

verus! {

/// One of the three coordinate axes.
#[derive(Clone, Copy, Debug, PartialEq, Eq, Structural)]
pub enum Axis {
    X,
    Y,
    Z,
}

impl Axis {
    /// The unit vector along the axis.
    pub open spec fn spec_unit(self) -> Point3 {
        match self {
            Axis::X => Point3 { x: 1, y: 0, z: 0 },
            Axis::Y => Point3 { x: 0, y: 1, z: 0 },
            Axis::Z => Point3 { x: 0, y: 0, z: 1 },
        }
    }

    pub fn unit(self) -> (p: Point3)
        ensures
            p == self.spec_unit(),
    {
        match self {
            Axis::X => Point3 { x: 1, y: 0, z: 0 },
            Axis::Y => Point3 { x: 0, y: 1, z: 0 },
            Axis::Z => Point3 { x: 0, y: 0, z: 1 },
        }
    }
}

/// One of the six faces of a cube, named by the direction of its outward
/// normal. Each face has a normal axis and two axes that span its plane,
/// called `u` and `v`.
#[derive(Clone, Copy, Debug, PartialEq, Eq, Structural)]
pub enum Direction {
    NegX,
    NegY,
    NegZ,
    PosX,
    PosY,
    PosZ,
}

impl Direction {
    pub open spec fn spec_normal_axis(self) -> Axis {
        match self {
            Direction::NegX | Direction::PosX => Axis::X,
            Direction::NegY | Direction::PosY => Axis::Y,
            Direction::NegZ | Direction::PosZ => Axis::Z,
        }
    }

    pub open spec fn spec_u_axis(self) -> Axis {
        match self {
            Direction::NegX | Direction::PosX => Axis::Z,
            Direction::NegY | Direction::PosY => Axis::X,
            Direction::NegZ | Direction::PosZ => Axis::X,
        }
    }

    pub open spec fn spec_v_axis(self) -> Axis {
        match self {
            Direction::NegX | Direction::PosX => Axis::Y,
            Direction::NegY | Direction::PosY => Axis::Z,
            Direction::NegZ | Direction::PosZ => Axis::Y,
        }
    }

    /// Whether the normal points along its axis rather than against it.
    pub open spec fn spec_is_positive(self) -> bool {
        match self {
            Direction::PosX | Direction::PosY | Direction::PosZ => true,
            _ => false,
        }
    }

    /// Whether the two triangles of a quad on this face are wound
    /// counter-clockwise in the order of its corners.
    pub open spec fn spec_counter_clockwise(self) -> bool {
        match self {
            Direction::NegX | Direction::NegY | Direction::PosZ => true,
            _ => false,
        }
    }

    /// The outward unit normal.
    pub open spec fn spec_normal(self) -> Point3 {
        match self {
            Direction::NegX => Point3 { x: -1i32, y: 0, z: 0 },
            Direction::NegY => Point3 { x: 0, y: -1i32, z: 0 },
            Direction::NegZ => Point3 { x: 0, y: 0, z: -1i32 },
            Direction::PosX => Point3 { x: 1, y: 0, z: 0 },
            Direction::PosY => Point3 { x: 0, y: 1, z: 0 },
            Direction::PosZ => Point3 { x: 0, y: 0, z: 1 },
        }
    }

    /// The position of the face in the fixed order `NegX`, `NegY`, `NegZ`,
    /// `PosX`, `PosY`, `PosZ`.
    pub open spec fn spec_index(self) -> int {
        match self {
            Direction::NegX => 0,
            Direction::NegY => 1,
            Direction::NegZ => 2,
            Direction::PosX => 3,
            Direction::PosY => 4,
            Direction::PosZ => 5,
        }
    }

    pub fn normal_axis(self) -> (a: Axis)
        ensures
            a == self.spec_normal_axis(),
    {
        match self {
            Direction::NegX | Direction::PosX => Axis::X,
            Direction::NegY | Direction::PosY => Axis::Y,
            Direction::NegZ | Direction::PosZ => Axis::Z,
        }
    }

    pub fn u_axis(self) -> (a: Axis)
        ensures
            a == self.spec_u_axis(),
    {
        match self {
            Direction::NegX | Direction::PosX => Axis::Z,
            Direction::NegY | Direction::PosY => Axis::X,
            Direction::NegZ | Direction::PosZ => Axis::X,
        }
    }

    pub fn v_axis(self) -> (a: Axis)
        ensures
            a == self.spec_v_axis(),
    {
        match self {
            Direction::NegX | Direction::PosX => Axis::Y,
            Direction::NegY | Direction::PosY => Axis::Z,
            Direction::NegZ | Direction::PosZ => Axis::Y,
        }
    }

    pub fn is_positive(self) -> (b: bool)
        ensures
            b == self.spec_is_positive(),
    {
        match self {
            Direction::PosX | Direction::PosY | Direction::PosZ => true,
            _ => false,
        }
    }

    pub fn counter_clockwise(self) -> (b: bool)
        ensures
            b == self.spec_counter_clockwise(),
    {
        match self {
            Direction::NegX | Direction::NegY | Direction::PosZ => true,
            _ => false,
        }
    }

    pub fn normal(self) -> (n: Point3)
        ensures
            n == self.spec_normal(),
    {
        match self {
            Direction::NegX => Point3 { x: -1, y: 0, z: 0 },
            Direction::NegY => Point3 { x: 0, y: -1, z: 0 },
            Direction::NegZ => Point3 { x: 0, y: 0, z: -1 },
            Direction::PosX => Point3 { x: 1, y: 0, z: 0 },
            Direction::PosY => Point3 { x: 0, y: 1, z: 0 },
            Direction::PosZ => Point3 { x: 0, y: 0, z: 1 },
        }
    }

    /// The face at position `i` of the fixed order, if there is one.
    pub fn from_index(i: usize) -> (d: Option<Direction>)
        ensures
            d.is_some() <==> i < 6,
            d.is_some() ==> d.unwrap().spec_index() == i,
    {
        if i == 0 {
            Some(Direction::NegX)
        } else if i == 1 {
            Some(Direction::NegY)
        } else if i == 2 {
            Some(Direction::NegZ)
        } else if i == 3 {
            Some(Direction::PosX)
        } else if i == 4 {
            Some(Direction::PosY)
        } else if i == 5 {
            Some(Direction::PosZ)
        } else {
            None
        }
    }
}

/// A rectangle of voxel faces that all look in one direction and share a
/// material. `minimum` is the least voxel whose face belongs to the quad;
/// from there it spans `width` voxels along the face's `u` axis and `height`
/// voxels along its `v` axis.
#[derive(Clone, Copy, Debug, PartialEq, Eq, Structural)]
pub struct FaceQuad {
    pub face: Direction,
    pub minimum: Point3,
    pub width: i32,
    pub height: i32,
    pub material: u8,
}

/// `k` steps along `axis`.
pub open spec fn along(axis: Axis, k: int) -> (int, int, int) {
    match axis {
        Axis::X => (k, 0, 0),
        Axis::Y => (0, k, 0),
        Axis::Z => (0, 0, k),
    }
}

impl FaceQuad {
    /// The sides of the box of voxels whose faces make up the quad: one voxel
    /// thick along the normal axis.
    pub open spec fn span(self) -> (int, int, int) {
        let n = along(self.face.spec_normal_axis(), 1);
        let u = along(self.face.spec_u_axis(), self.width as int);
        let v = along(self.face.spec_v_axis(), self.height as int);
        (n.0 + u.0 + v.0, n.1 + u.1 + v.1, n.2 + u.2 + v.2)
    }

    /// The quad is not empty and its voxels lie in the interior of `extent`,
    /// that is at least one step away from each of its six sides.
    pub open spec fn within(self, extent: Extent) -> bool {
        &&& self.width >= 1
        &&& self.height >= 1
        &&& extent.minimum.x < self.minimum.x
        &&& extent.minimum.y < self.minimum.y
        &&& extent.minimum.z < self.minimum.z
        &&& self.minimum.x + self.span().0 < extent.lub_x()
        &&& self.minimum.y + self.span().1 < extent.lub_y()
        &&& self.minimum.z + self.span().2 < extent.lub_z()
    }

    /// Whether the voxel at `p` has one of its faces in the quad.
    pub open spec fn covers(self, p: Point3) -> bool {
        &&& self.minimum.x <= p.x < self.minimum.x + self.span().0
        &&& self.minimum.y <= p.y < self.minimum.y + self.span().1
        &&& self.minimum.z <= p.z < self.minimum.z + self.span().2
    }

    /// Corner `k` of the quad as a lattice vertex. Corner 0 is the least one,
    /// corner 1 lies `width` further along `u`, corner 2 `height` further
    /// along `v`, and corner 3 both. On a face whose normal is positive the
    /// corners lie one step further along the normal axis, on the far side of
    /// the voxels.
    pub open spec fn spec_corner(self, k: int) -> Point3 {
        let lift = along(self.face.spec_normal_axis(), if self.face.spec_is_positive() { 1int } else { 0int });
        let du = along(self.face.spec_u_axis(), if k % 2 == 1 { self.width as int } else { 0int });
        let dv = along(self.face.spec_v_axis(), if k >= 2 { self.height as int } else { 0int });
        Point3 {
            x: (self.minimum.x + lift.0 + du.0 + dv.0) as i32,
            y: (self.minimum.y + lift.1 + du.1 + dv.1) as i32,
            z: (self.minimum.z + lift.2 + du.2 + dv.2) as i32,
        }
    }

    /// The texture coordinates of corner `k`: the whole texture once for each
    /// voxel face.
    pub open spec fn spec_tex_coord(self, k: int) -> (i32, i32) {
        (if k % 2 == 1 { self.width } else { 0i32 }, if k >= 2 { self.height } else { 0i32 })
    }

    /// The texture layer of the quad: that of the top of its material on an
    /// upward face, of the bottom on a downward face, and of the sides
    /// elsewhere.
    pub open spec fn spec_layer(self) -> i32 {
        let layers = spec_texture_layer_from_voxel_type(self.material);
        match self.face {
            Direction::PosY => layers.0,
            Direction::NegY => layers.2,
            _ => layers.1,
        }
    }

    /// Whether the quad lies within the interior of `extent`.
    pub fn fits(&self, extent: &Extent) -> (ok: bool)
        requires
            extent.wf(),
        ensures
            ok == self.within(*extent),
    {
        if self.width < 1 || self.height < 1 {
            return false;
        }
        let (sx, sy, sz): (i64, i64, i64) = self.box_sides();
        let lx: i64 = extent.minimum.x as i64 + extent.shape.x as i64;
        let ly: i64 = extent.minimum.y as i64 + extent.shape.y as i64;
        let lz: i64 = extent.minimum.z as i64 + extent.shape.z as i64;
        extent.minimum.x < self.minimum.x && extent.minimum.y < self.minimum.y && extent.minimum.z
            < self.minimum.z && self.minimum.x as i64 + sx < lx && self.minimum.y as i64 + sy < ly
            && self.minimum.z as i64 + sz < lz
    }

    /// The sides of the box of voxels whose faces make up the quad.
    pub fn box_sides(&self) -> (s: (i64, i64, i64))
        ensures
            s.0 == self.span().0,
            s.1 == self.span().1,
            s.2 == self.span().2,
    {
        let n: (i64, i64, i64) = steps(self.face.normal_axis(), 1);
        let u: (i64, i64, i64) = steps(self.face.u_axis(), self.width);
        let v: (i64, i64, i64) = steps(self.face.v_axis(), self.height);
        (n.0 + u.0 + v.0, n.1 + u.1 + v.1, n.2 + u.2 + v.2)
    }

    /// Corner `k` of the quad.
    pub fn corner(&self, k: usize, extent: &Extent) -> (c: Point3)
        requires
            k < 4,
            extent.wf(),
            self.within(*extent),
        ensures
            c == self.spec_corner(k as int),
    {
        let lift: (i64, i64, i64) = steps(
            self.face.normal_axis(),
            if self.face.is_positive() { 1 } else { 0 },
        );
        let du: (i64, i64, i64) = steps(self.face.u_axis(), if k % 2 == 1 { self.width } else { 0 });
        let dv: (i64, i64, i64) = steps(self.face.v_axis(), if k >= 2 { self.height } else { 0 });
        Point3 {
            x: (self.minimum.x as i64 + lift.0 + du.0 + dv.0) as i32,
            y: (self.minimum.y as i64 + lift.1 + du.1 + dv.1) as i32,
            z: (self.minimum.z as i64 + lift.2 + du.2 + dv.2) as i32,
        }
    }

    pub fn tex_coord(&self, k: usize) -> (t: (i32, i32))
        requires
            k < 4,
        ensures
            t == self.spec_tex_coord(k as int),
    {
        (if k % 2 == 1 { self.width } else { 0 }, if k >= 2 { self.height } else { 0 })
    }

    pub fn layer(&self) -> (l: i32)
        ensures
            l == self.spec_layer(),
    {
        let (top, sides, bottom): (i32, i32, i32) = texture_layer_from_voxel_type(self.material);
        match self.face {
            Direction::PosY => top,
            Direction::NegY => bottom,
            _ => sides,
        }
    }
}

fn steps(axis: Axis, k: i32) -> (s: (i64, i64, i64))
    ensures
        s.0 == along(axis, k as int).0,
        s.1 == along(axis, k as int).1,
        s.2 == along(axis, k as int).2,
{
    match axis {
        Axis::X => (k as i64, 0, 0),
        Axis::Y => (0, k as i64, 0),
        Axis::Z => (0, 0, k as i64),
    }
}

/// The texture layers of a material, as (top, sides, bottom).
pub open spec fn spec_texture_layer_from_voxel_type(voxel_type: u8) -> (i32, i32, i32) {
    if voxel_type == 1 {
        (1, 2, 3)
    } else if voxel_type == 2 {
        (3, 3, 3)
    } else if voxel_type == 3 {
        (4, 4, 4)
    } else if voxel_type == 4 {
        (5, 5, 5)
    } else {
        (0, 0, 0)
    }
}

pub fn texture_layer_from_voxel_type(voxel_type: u8) -> (layers: (i32, i32, i32))
    ensures
        layers == spec_texture_layer_from_voxel_type(voxel_type),
{
    match voxel_type {
        1 => (1, 2, 3),
        2 => (3, 3, 3),
        3 => (4, 4, 4),
        4 => (5, 5, 5),
        _ => (0, 0, 0),
    }
}

} // verus!
