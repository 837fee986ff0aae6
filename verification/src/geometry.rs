//! Axes and grids: the coordinates on which a field lives.

use crate::dense::Array1D;
use vstd::prelude::*;

verus! {

/// The geometry of an axis: which distance and which potential apply along it.
#[derive(Clone, Copy, Debug, PartialEq, Eq, Structural)]
pub enum AxisGeometry {
    /// The distance from the centre plane of a slit.
    Cartesian,
    /// The distance from the axis of a cylinder.
    Polar,
    /// The distance from the centre of a sphere.
    Spherical,
}

impl AxisGeometry {
    /// Whether an axis of this geometry runs from the centre plane of a slit.
    /// Such an axis spans half the width of the pore, and beyond the wall the
    /// stretch on which the potential of the wall decays; any other spans the
    /// radius of the pore.
    pub open spec fn is_slit(self) -> bool {
        self == AxisGeometry::Cartesian
    }

    /// Tells whether an axis of this geometry runs from the centre plane of a slit.
    pub fn spans_half_width(self) -> (r: bool)
        ensures
            r == self.is_slit(),
    {
        match self {
            AxisGeometry::Cartesian => true,
            AxisGeometry::Polar => false,
            AxisGeometry::Spherical => false,
        }
    }
}

/// The grid points along one dimension.
pub struct Axis {
    /// The geometry of the axis.
    pub geometry: AxisGeometry,
    /// The positions of the grid points, in order.
    pub grid: Array1D,
    /// The distance from the centre of the pore to its wall: half the width
    /// of a slit, the radius of a cylinder or sphere. Along a periodic axis,
    /// the length of the box.
    pub length: u64,
}

impl Clone for Axis {
    fn clone(&self) -> (axis: Axis)
        ensures
            axis.same(*self),
    {
        Axis { geometry: self.geometry, grid: self.grid.clone(), length: self.length }
    }
}

impl Axis {
    /// Whether the two axes have the same geometry, grid points and length.
    pub open spec fn same(&self, other: Axis) -> bool {
        self.geometry == other.geometry && self.grid@ == other.grid@ && self.length == other.length
    }

    /// An axis of the given geometry with the grid points `grid`.
    pub fn new(geometry: AxisGeometry, grid: Array1D, length: u64) -> (axis: Axis)
        ensures
            axis == (Axis { geometry, grid, length }),
    {
        Axis { geometry, grid, length }
    }

    /// The number of grid points.
    pub open spec fn points(&self) -> nat {
        self.grid@.len()
    }

    /// The number of grid points.
    pub fn len(&self) -> (n: usize)
        ensures
            n == self.points(),
    {
        self.grid.len()
    }
}

/// The coordinates of a field: one axis, or three that span a periodic box.
pub enum Grid {
    /// Across a slit.
    Cartesian1(Axis),
    /// Outwards from the axis of a cylinder.
    Polar(Axis),
    /// Outwards from the centre of a sphere.
    Spherical(Axis),
    /// A box that repeats itself in all three directions.
    Periodical3(Axis, Axis, Axis),
}

impl Clone for Grid {
    fn clone(&self) -> (grid: Grid)
        ensures
            grid.same(*self),
    {
        match self {
            Grid::Cartesian1(axis) => Grid::Cartesian1(axis.clone()),
            Grid::Polar(axis) => Grid::Polar(axis.clone()),
            Grid::Spherical(axis) => Grid::Spherical(axis.clone()),
            Grid::Periodical3(x, y, z) => Grid::Periodical3(x.clone(), y.clone(), z.clone()),
        }
    }
}

impl Grid {
    /// Whether the two grids are of the same kind and have the same axes.
    pub open spec fn same(&self, other: Grid) -> bool {
        match (*self, other) {
            (Grid::Cartesian1(a), Grid::Cartesian1(b)) => a.same(b),
            (Grid::Polar(a), Grid::Polar(b)) => a.same(b),
            (Grid::Spherical(a), Grid::Spherical(b)) => a.same(b),
            (Grid::Periodical3(x, y, z), Grid::Periodical3(u, v, w)) => x.same(u) && y.same(v)
                && z.same(w),
            _ => false,
        }
    }

    /// The grid of one dimension that `axis` spans.
    pub open spec fn along(axis: Axis) -> Grid {
        match axis.geometry {
            AxisGeometry::Cartesian => Grid::Cartesian1(axis),
            AxisGeometry::Polar => Grid::Polar(axis),
            AxisGeometry::Spherical => Grid::Spherical(axis),
        }
    }

    /// Makes the grid of one dimension that `axis` spans.
    pub fn new_1d(axis: Axis) -> (grid: Grid)
        ensures
            grid == Grid::along(axis),
    {
        match axis.geometry {
            AxisGeometry::Cartesian => Grid::Cartesian1(axis),
            AxisGeometry::Polar => Grid::Polar(axis),
            AxisGeometry::Spherical => Grid::Spherical(axis),
        }
    }
}

} // verus!
