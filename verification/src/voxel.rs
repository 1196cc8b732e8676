//! Voxels and dense voxel arrays.

use vstd::prelude::*;
use crate::geometry::{Extent, Point3, lemma_offset_in_range, lemma_offset_injective, lemma_volume_bounds};

verus! {

/// One cell of terrain: a material identifier, where zero is air.
#[derive(Clone, Copy, Debug, PartialEq, Eq, Structural)]
pub struct Voxel(pub u8);

impl Voxel {
    /// The empty voxel.
    pub fn air() -> (v: Voxel)
        ensures
            v == Voxel(0),
    {
        Voxel(0)
    }

    pub open spec fn spec_is_empty(self) -> bool {
        self.0 == 0
    }

    pub fn set(&mut self, value: u8)
        ensures
            final(self).0 == value,
    {
        self.0 = value;
    }
}

impl Default for Voxel {
    fn default() -> (v: Voxel)
        ensures
            v == Voxel(0),
    {
        Voxel(0)
    }
}

impl building_blocks::storage::IsEmpty for Voxel {
    fn is_empty(&self) -> (empty: bool)
        ensures
            empty == self.spec_is_empty(),
    {
        self.0 == 0
    }
}

impl building_blocks::mesh::MaterialVoxel for Voxel {
    type Material = u8;

    fn material(&self) -> (m: u8)
        ensures
            m == self.0,
    {
        self.0
    }
}

/// The mathematical model of a dense block of voxels: a box and one voxel
/// for each of its points, in row-major order with `x` running fastest and
/// `z` slowest.
pub struct VoxelGrid {
    pub extent: Extent,
    pub values: Seq<Voxel>,
}

impl VoxelGrid {
    /// The box is well-formed and there is exactly one voxel for each of its
    /// points.
    pub open spec fn wf(self) -> bool {
        &&& self.extent.wf()
        &&& self.values.len() == self.extent.volume()
    }

    /// The voxel at `p`. Points outside the box read as air.
    pub open spec fn voxel_at(self, p: Point3) -> Voxel {
        if self.extent.spec_contains(p) {
            self.values[self.extent.offset_of(p)]
        } else {
            Voxel(0)
        }
    }

    /// The cell at `p` holds something other than air.
    pub open spec fn occupied(self, p: Point3) -> bool {
        self.voxel_at(p).0 != 0
    }
}

/// A dense block of voxels: one voxel for every lattice point of a box, kept
/// in row-major order with `x` running fastest and `z` slowest.
pub struct VoxelArray {
    pub(crate) extent: Extent,
    pub(crate) values: Vec<Voxel>,
}

impl View for VoxelArray {
    type V = VoxelGrid;

    closed spec fn view(&self) -> VoxelGrid {
        VoxelGrid { extent: self.extent, values: self.values@ }
    }
}

impl VoxelArray {
    /// An array over `extent` with `value` at every point.
    pub fn fill(extent: Extent, value: Voxel) -> (array: VoxelArray)
        requires
            extent.wf(),
        ensures
            array@.wf(),
            array@.extent == extent,
            forall|i: int| 0 <= i < array@.values.len() ==> array@.values[i] == value,
    {
        let n: usize = extent.num_points();
        let mut values: Vec<Voxel> = Vec::new();
        let mut i: usize = 0;
        while i < n
            invariant
                i <= n,
                values@.len() == i,
                forall|j: int| 0 <= j < i ==> values@[j] == value,
            decreases n - i,
        {
            values.push(value);
            i += 1;
        }
        VoxelArray { extent, values }
    }

    /// An array over `extent` with the given voxels in row-major order, or
    /// nothing where the box is malformed or the count does not match it.
    pub fn new(extent: Extent, values: Vec<Voxel>) -> (array: Option<VoxelArray>)
        ensures
            array.is_some() <==> extent.wf() && values@.len() == extent.volume(),
            array.is_some() ==> array.unwrap()@ == (VoxelGrid { extent, values: values@ }),
    {
        if !extent.is_wf() {
            return None;
        }
        if values.len() != extent.num_points() {
            return None;
        }
        Some(VoxelArray { extent, values })
    }

    /// An array over `extent` with the given voxels in row-major order.
    pub(crate) fn from_parts(extent: Extent, values: Vec<Voxel>) -> (array: VoxelArray)
        requires
            extent.wf(),
            values@.len() == extent.volume(),
        ensures
            array@ == (VoxelGrid { extent, values: values@ }),
    {
        VoxelArray { extent, values }
    }

    pub fn extent(&self) -> (e: Extent)
        ensures
            e == self@.extent,
    {
        self.extent
    }

    /// The voxels in row-major order.
    pub fn values(&self) -> (values: &Vec<Voxel>)
        ensures
            values@ == self@.values,
    {
        &self.values
    }

    /// Gives up the array for its voxels in row-major order.
    pub fn into_values(self) -> (values: Vec<Voxel>)
        ensures
            values@ == self@.values,
    {
        self.values
    }

    /// The position of `p` in the row-major order of the array.
    pub fn position(&self, p: Point3) -> (i: usize)
        requires
            self@.wf(),
            self@.extent.spec_contains(p),
        ensures
            i == self@.extent.offset_of(p),
            i < self@.values.len(),
    {
        self.index_of(p)
    }

    fn index_of(&self, p: Point3) -> (i: usize)
        requires
            self@.wf(),
            self@.extent.spec_contains(p),
        ensures
            i == self@.extent.offset_of(p),
            i < self@.values.len(),
    {
        let dx: i64 = p.x as i64 - self.extent.minimum.x as i64;
        let dy: i64 = p.y as i64 - self.extent.minimum.y as i64;
        let dz: i64 = p.z as i64 - self.extent.minimum.z as i64;
        let sx: i64 = self.extent.shape.x as i64;
        let sy: i64 = self.extent.shape.y as i64;
        proof {
            lemma_volume_bounds(self.extent);
            lemma_offset_in_range(self.extent, p);
            assert(0 <= dy * sx && 0 <= dz * (sy * sx)) by (nonlinear_arith)
                requires
                    0 <= dy,
                    0 <= dz,
                    0 <= sx,
                    0 <= sy,
            ;
        }
        let plane: i64 = sy * sx;
        let i: i64 = dz * plane + dy * sx + dx;
        i as usize
    }

    /// The voxel at `p`; air where `p` is outside the array.
    pub fn get(&self, p: Point3) -> (v: Voxel)
        requires
            self@.wf(),
        ensures
            v == self@.voxel_at(p),
    {
        if self.extent.contains(p) {
            let i: usize = self.index_of(p);
            self.values[i]
        } else {
            Voxel(0)
        }
    }

    /// Whether the cell at `p` holds something other than air.
    pub fn is_occupied(&self, p: Point3) -> (b: bool)
        requires
            self@.wf(),
        ensures
            b == self@.occupied(p),
    {
        self.get(p).0 != 0
    }

    /// Writes `value` at `p` and leaves every other point as it was.
    pub fn put(&mut self, p: Point3, value: Voxel)
        requires
            old(self)@.wf(),
            old(self)@.extent.spec_contains(p),
        ensures
            final(self)@.wf(),
            final(self)@.extent == old(self)@.extent,
            final(self)@.voxel_at(p) == value,
            forall|q: Point3| q != p ==> final(self)@.voxel_at(q) == old(self)@.voxel_at(q),
            final(self)@.values == old(self)@.values.update(old(self)@.extent.offset_of(p), value),
    {
        let i: usize = self.index_of(p);
        self.values.set(i, value);
        proof {
            let e = self.extent;
            assert forall|q: Point3| q != p implies self@.voxel_at(q) == old(self)@.voxel_at(q) by {
                if e.spec_contains(q) {
                    lemma_offset_in_range(e, q);
                    if e.offset_of(q) == e.offset_of(p) {
                        lemma_offset_injective(e, p, q);
                    }
                }
            }
        }
    }
}

} // verus!
