//! Pore specifications: what is needed to set up the profile of a pore.

use crate::binary64::{is_positive, positive};
use crate::dense::{Array1D, Array2D, Array4D};
use crate::geometry::{Axis, AxisGeometry, Grid};
use crate::potential::{
    cutoff_of, external_potential_1d, external_potential_3d, is_field_1d, is_field_3d,
    CUTOFF_RADIUS,
};
use crate::profile::{DensityProfile, PoreProfile};
use crate::rounding::{double, doubled, half, halved};
use vstd::prelude::*;

verus! {

/// The number of grid points of a pore of one dimension for which none is given.
pub const DEFAULT_GRID_POINTS: usize = 2048;

/// Why a pore cannot be set up.
#[derive(Clone, Copy, Debug, PartialEq, Eq, Structural)]
pub enum PoreError {
    /// A number of grid points is zero.
    GridPoints,
    /// The size of the pore, or of the box along one axis, is not above zero.
    Size,
    /// The solid sites do not have three coordinates, one size parameter and
    /// one energy parameter each.
    SiteParameters,
    /// An axis is not the one that the specification asks for: it has another
    /// geometry, another number of grid points or another length.
    Axis,
    /// The potential does not have one value for each grid point.
    PotentialShape,
}

/// Where the external field of a new profile comes from.
pub enum FieldSource<'a, A> {
    /// A field that was computed before, to be taken as it is.
    Supplied(&'a A),
    /// The potential on every grid point, of which the field is yet to be made.
    Evaluated(A),
}

/// A pore of one dimension: a slit, a cylinder or a sphere.
pub struct Pore1D<F, P> {
    /// The Helmholtz energy functional of the fluid.
    pub functional: F,
    /// The geometry of the pore.
    pub geometry: AxisGeometry,
    /// The width of the slit, or the radius of the cylinder or sphere.
    pub pore_size: u64,
    /// The model of the potential between the wall and the fluid.
    pub potential: P,
    /// The number of grid points; `DEFAULT_GRID_POINTS` where none is given.
    pub n_grid: Option<usize>,
    /// The highest value of the external field; `MAX_POTENTIAL` where none is given.
    pub potential_cutoff: Option<u64>,
}

/// A pore in a periodic box, made of solid sites.
pub struct Pore3D<F> {
    /// The Helmholtz energy functional of the fluid.
    pub functional: F,
    /// The lengths of the box along the three axes.
    pub system_size: [u64; 3],
    /// The numbers of grid points along the three axes.
    pub n_grid: [usize; 3],
    /// The coordinates of the solid sites: three rows, one column for each site.
    pub coordinates: Array2D,
    /// The size parameter of each solid site.
    pub sigma_ss: Array1D,
    /// The energy parameter of each solid site.
    pub epsilon_k_ss: Array1D,
    /// The highest value of the external field; `MAX_POTENTIAL` where none is given.
    pub potential_cutoff: Option<u64>,
    /// The distance beyond which a solid site exerts no potential;
    /// `CUTOFF_RADIUS` where none is given.
    pub cutoff_radius: Option<u64>,
}

/// What a pore specification has in common with every other: a profile can
/// be set up from it.
pub trait PoreSpecification {
    /// The axes that the profile lives on.
    type Axes;

    /// The array that holds a field on those axes, for every segment of the fluid.
    type Field;

    /// Why no profile can be set up, if none can.
    spec fn rejection(&self, axes: Self::Axes, source: FieldSource<'_, Self::Field>) -> Option<
        PoreError,
    >;

    /// The grid that the axes span.
    spec fn grid(axes: Self::Axes) -> Grid;

    /// Whether `field` is the external field that the source asks for.
    spec fn is_external_potential(
        &self,
        axes: Self::Axes,
        source: FieldSource<'_, Self::Field>,
        field: Self::Field,
    ) -> bool;

    /// Sets up the profile of the pore in contact with `bulk`.
    ///
    /// A supplied field is taken as it is; an evaluated potential is capped,
    /// and walled where the pore has a wall. The profile is not solved, and
    /// neither the grand potential nor the interfacial tension is set.
    fn initialize<B, C>(
        &self,
        axes: Self::Axes,
        source: FieldSource<'_, Self::Field>,
        bulk: B,
        convolver: C,
    ) -> (r: Result<PoreProfile<Self::Field, B, C>, PoreError>)
        ensures
            match r {
                Ok(pore) => {
                    &&& self.rejection(axes, source) is None
                    &&& pore.profile.grid == Self::grid(axes)
                    &&& pore.profile.convolver == convolver
                    &&& pore.profile.bulk == bulk
                    &&& self.is_external_potential(axes, source, pore.profile.external_potential)
                    &&& pore.profile.density is None
                    &&& pore.grand_potential is None
                    &&& pore.interfacial_tension is None
                },
                Err(e) => self.rejection(axes, source) == Some(e),
            },
    ;
}

impl<F, P> Pore1D<F, P> {
    /// The specification of a pore of one dimension.
    pub fn new(
        functional: F,
        geometry: AxisGeometry,
        pore_size: u64,
        potential: P,
        n_grid: Option<usize>,
        potential_cutoff: Option<u64>,
    ) -> (pore: Self)
        ensures
            pore == (Pore1D { functional, geometry, pore_size, potential, n_grid, potential_cutoff }),
    {
        Pore1D { functional, geometry, pore_size, potential, n_grid, potential_cutoff }
    }

    /// The number of grid points: the one given, or `DEFAULT_GRID_POINTS`.
    pub open spec fn points(&self) -> usize {
        match self.n_grid {
            Some(n) => n,
            None => DEFAULT_GRID_POINTS,
        }
    }

    /// The number of grid points: the one given, or `DEFAULT_GRID_POINTS`.
    pub fn grid_points(&self) -> (n: usize)
        ensures
            n == self.points(),
    {
        match self.n_grid {
            Some(n) => n,
            None => DEFAULT_GRID_POINTS,
        }
    }

    /// The distance from the centre of the pore to its wall: half the width
    /// of a slit, the radius of a cylinder or sphere.
    pub open spec fn wall(&self) -> u64 {
        if self.geometry.is_slit() {
            halved(self.pore_size)
        } else {
            self.pore_size
        }
    }

    /// The distance from the centre of the pore to its wall: half the width
    /// of a slit, the radius of a cylinder or sphere.
    pub fn effective_pore_size(&self) -> (length: u64)
        ensures
            length == self.wall(),
    {
        if self.geometry.spans_half_width() {
            half(self.pore_size)
        } else {
            self.pore_size
        }
    }

    /// The stretch by which the axis reaches behind the wall, so that the
    /// potential of the wall can decay on it: two diameters of the largest
    /// segment of the fluid for a slit, and none for a cylinder or sphere.
    pub open spec fn offset(&self, largest_diameter: u64) -> Option<u64> {
        if self.geometry.is_slit() {
            Some(doubled(largest_diameter))
        } else {
            None
        }
    }

    /// The stretch by which the axis reaches behind the wall: two diameters
    /// of the largest segment of the fluid for a slit, and none for a
    /// cylinder or sphere.
    pub fn potential_offset(&self, largest_diameter: u64) -> (offset: Option<u64>)
        ensures
            offset == self.offset(largest_diameter),
    {
        if self.geometry.spans_half_width() {
            Some(double(largest_diameter))
        } else {
            None
        }
    }

    /// What is wrong with the specification, if anything: the first of no
    /// grid points and a size that is not above zero.
    pub open spec fn fault(&self) -> Option<PoreError> {
        if self.points() == 0 {
            Some(PoreError::GridPoints)
        } else if !positive(self.pore_size) {
            Some(PoreError::Size)
        } else {
            None
        }
    }

    /// Whether a profile can be set up from the specification: it has grid
    /// points, and its size is above zero.
    pub open spec fn is_valid(&self) -> bool {
        self.points() > 0 && positive(self.pore_size)
    }

    /// Tells what is wrong with the specification, if anything.
    pub fn validate(&self) -> (r: Result<(), PoreError>)
        ensures
            r == match self.fault() {
                Some(e) => Err::<(), PoreError>(e),
                None => Ok::<(), PoreError>(()),
            },
            r is Ok <==> self.is_valid(),
    {
        if self.grid_points() == 0 {
            Err(PoreError::GridPoints)
        } else if !is_positive(self.pore_size) {
            Err(PoreError::Size)
        } else {
            Ok(())
        }
    }
}

impl<F, P> PoreSpecification for Pore1D<F, P> {
    type Axes = Axis;

    type Field = Array2D;

    open spec fn rejection(&self, axes: Axis, source: FieldSource<'_, Array2D>) -> Option<
        PoreError,
    > {
        let columns = match source {
            FieldSource::Supplied(field) => field.cols(),
            FieldSource::Evaluated(potential) => potential.cols(),
        };
        if self.fault() is Some {
            self.fault()
        } else if axes.geometry != self.geometry || axes.points() != self.points() || axes.length
            != self.wall() {
            Some(PoreError::Axis)
        } else if columns != axes.points() {
            Some(PoreError::PotentialShape)
        } else {
            None
        }
    }

    open spec fn grid(axes: Axis) -> Grid {
        Grid::along(axes)
    }

    open spec fn is_external_potential(
        &self,
        axes: Axis,
        source: FieldSource<'_, Array2D>,
        field: Array2D,
    ) -> bool {
        match source {
            FieldSource::Supplied(supplied) => field.same(*supplied),
            FieldSource::Evaluated(potential) => is_field_1d(
                field,
                potential,
                axes,
                cutoff_of(self.potential_cutoff),
            ),
        }
    }

    fn initialize<B, C>(
        &self,
        axes: Axis,
        source: FieldSource<'_, Array2D>,
        bulk: B,
        convolver: C,
    ) -> (r: Result<PoreProfile<Array2D, B, C>, PoreError>) {
        match self.validate() {
            Ok(()) => {},
            Err(e) => {
                return Err(e);
            },
        }
        let n_grid: usize = self.grid_points();
        if axes.geometry != self.geometry || axes.len() != n_grid || axes.length
            != self.effective_pore_size() {
            return Err(PoreError::Axis);
        }
        let external_potential = match source {
            FieldSource::Supplied(field) => {
                if field.ncols() != n_grid {
                    return Err(PoreError::PotentialShape);
                }
                field.clone()
            },
            FieldSource::Evaluated(potential) => {
                if potential.ncols() != n_grid {
                    return Err(PoreError::PotentialShape);
                }
                external_potential_1d(potential, &axes, self.potential_cutoff)
            },
        };
        let grid = Grid::new_1d(axes);
        Ok(PoreProfile::new(DensityProfile::new(grid, convolver, bulk, external_potential)))
    }
}

impl<F> Pore3D<F> {
    /// The specification of a pore in a periodic box.
    pub fn new(
        functional: F,
        system_size: [u64; 3],
        n_grid: [usize; 3],
        coordinates: Array2D,
        sigma_ss: Array1D,
        epsilon_k_ss: Array1D,
        potential_cutoff: Option<u64>,
        cutoff_radius: Option<u64>,
    ) -> (pore: Self)
        ensures
            pore == (Pore3D {
                functional,
                system_size,
                n_grid,
                coordinates,
                sigma_ss,
                epsilon_k_ss,
                potential_cutoff,
                cutoff_radius,
            }),
    {
        Pore3D {
            functional,
            system_size,
            n_grid,
            coordinates,
            sigma_ss,
            epsilon_k_ss,
            potential_cutoff,
            cutoff_radius,
        }
    }

    /// The distance beyond which a solid site exerts no potential: the one
    /// given, or `CUTOFF_RADIUS`.
    pub open spec fn radius(&self) -> u64 {
        match self.cutoff_radius {
            Some(radius) => radius,
            None => CUTOFF_RADIUS,
        }
    }

    /// The distance beyond which a solid site exerts no potential: the one
    /// given, or `CUTOFF_RADIUS`.
    pub fn cutoff_radius(&self) -> (radius: u64)
        ensures
            radius == self.radius(),
    {
        match self.cutoff_radius {
            Some(radius) => radius,
            None => CUTOFF_RADIUS,
        }
    }

    /// The number of solid sites.
    pub open spec fn sites(&self) -> nat {
        self.coordinates.cols()
    }

    /// Whether every solid site has three coordinates, one size parameter and
    /// one energy parameter.
    pub open spec fn sites_complete(&self) -> bool {
        &&& self.coordinates.rows() == 3
        &&& self.sigma_ss@.len() == self.sites()
        &&& self.epsilon_k_ss@.len() == self.sites()
    }

    /// What is wrong with the specification, if anything: the first of no
    /// grid points along an axis, a size along an axis that is not above
    /// zero, and solid sites without all their parameters.
    pub open spec fn fault(&self) -> Option<PoreError> {
        if self.n_grid@[0] == 0 || self.n_grid@[1] == 0 || self.n_grid@[2] == 0 {
            Some(PoreError::GridPoints)
        } else if !positive(self.system_size@[0]) || !positive(self.system_size@[1]) || !positive(
            self.system_size@[2],
        ) {
            Some(PoreError::Size)
        } else if !self.sites_complete() {
            Some(PoreError::SiteParameters)
        } else {
            None
        }
    }

    /// Whether a profile can be set up from the specification: it has grid
    /// points along every axis, its size along every axis is above zero, and
    /// every solid site has all its parameters.
    pub open spec fn is_valid(&self) -> bool {
        &&& forall|k: int| 0 <= k < 3 ==> self.n_grid@[k] > 0
        &&& forall|k: int| 0 <= k < 3 ==> positive(#[trigger] self.system_size@[k])
        &&& self.sites_complete()
    }

    /// Tells what is wrong with the specification, if anything.
    pub fn validate(&self) -> (r: Result<(), PoreError>)
        ensures
            r == match self.fault() {
                Some(e) => Err::<(), PoreError>(e),
                None => Ok::<(), PoreError>(()),
            },
            r is Ok <==> self.is_valid(),
    {
        if self.n_grid[0] == 0 || self.n_grid[1] == 0 || self.n_grid[2] == 0 {
            return Err(PoreError::GridPoints);
        }
        if !is_positive(self.system_size[0]) || !is_positive(self.system_size[1]) || !is_positive(
            self.system_size[2],
        ) {
            return Err(PoreError::Size);
        }
        let n_sites: usize = self.coordinates.ncols();
        if self.coordinates.nrows() != 3 || self.sigma_ss.len() != n_sites
            || self.epsilon_k_ss.len() != n_sites {
            return Err(PoreError::SiteParameters);
        }
        Ok(())
    }

    /// Whether `axis` is the axis of the box in direction `k`: cartesian, with
    /// the grid points and the length that the specification gives.
    pub open spec fn fits_axis(&self, axis: Axis, k: int) -> bool {
        &&& axis.geometry == AxisGeometry::Cartesian
        &&& axis.points() == self.n_grid@[k]
        &&& axis.length == self.system_size@[k]
    }

    /// Tells whether `axis` is the axis of the box in direction `k`.
    fn axis_fits(&self, axis: &Axis, k: usize) -> (r: bool)
        requires
            k < 3,
        ensures
            r == self.fits_axis(*axis, k as int),
    {
        axis.geometry == AxisGeometry::Cartesian && axis.len() == self.n_grid[k] && axis.length
            == self.system_size[k]
    }
}

impl<F> PoreSpecification for Pore3D<F> {
    type Axes = (Axis, Axis, Axis);

    type Field = Array4D;

    open spec fn rejection(
        &self,
        axes: (Axis, Axis, Axis),
        source: FieldSource<'_, Array4D>,
    ) -> Option<PoreError> {
        let shape = match source {
            FieldSource::Supplied(field) => field.shape(),
            FieldSource::Evaluated(potential) => potential.shape(),
        };
        if self.fault() is Some {
            self.fault()
        } else if !self.fits_axis(axes.0, 0) || !self.fits_axis(axes.1, 1) || !self.fits_axis(
            axes.2,
            2,
        ) {
            Some(PoreError::Axis)
        } else if shape.1 != self.n_grid@[0] || shape.2 != self.n_grid@[1] || shape.3
            != self.n_grid@[2] {
            Some(PoreError::PotentialShape)
        } else {
            None
        }
    }

    open spec fn grid(axes: (Axis, Axis, Axis)) -> Grid {
        Grid::Periodical3(axes.0, axes.1, axes.2)
    }

    open spec fn is_external_potential(
        &self,
        axes: (Axis, Axis, Axis),
        source: FieldSource<'_, Array4D>,
        field: Array4D,
    ) -> bool {
        match source {
            FieldSource::Supplied(supplied) => field.same(*supplied),
            FieldSource::Evaluated(potential) => is_field_3d(
                field,
                potential,
                cutoff_of(self.potential_cutoff),
            ),
        }
    }

    fn initialize<B, C>(
        &self,
        axes: (Axis, Axis, Axis),
        source: FieldSource<'_, Array4D>,
        bulk: B,
        convolver: C,
    ) -> (r: Result<PoreProfile<Array4D, B, C>, PoreError>) {
        match self.validate() {
            Ok(()) => {},
            Err(e) => {
                return Err(e);
            },
        }
        let n_grid: [usize; 3] = self.n_grid;
        let (x, y, z) = axes;
        if !self.axis_fits(&x, 0) || !self.axis_fits(&y, 1) || !self.axis_fits(&z, 2) {
            return Err(PoreError::Axis);
        }
        let external_potential = match source {
            FieldSource::Supplied(field) => {
                let shape = field.dim();
                if shape.1 != n_grid[0] || shape.2 != n_grid[1] || shape.3 != n_grid[2] {
                    return Err(PoreError::PotentialShape);
                }
                field.clone()
            },
            FieldSource::Evaluated(potential) => {
                let shape = potential.dim();
                if shape.1 != n_grid[0] || shape.2 != n_grid[1] || shape.3 != n_grid[2] {
                    return Err(PoreError::PotentialShape);
                }
                external_potential_3d(potential, self.potential_cutoff)
            },
        };
        let grid = Grid::Periodical3(x, y, z);
        Ok(PoreProfile::new(DensityProfile::new(grid, convolver, bulk, external_potential)))
    }
}

/// A field that was made for a pore of one dimension, supplied again for
/// the same pore on the same axis, is accepted and comes back as it is: of
/// the same shape, with the same value on every grid point, and so again the
/// field of the potential it was made of.
pub proof fn lemma_supplied_field_comes_back_1d<F, P>(
    pore: Pore1D<F, P>,
    axis: Axis,
    potential: Array2D,
    made: Array2D,
    back: Array2D,
)
    requires
        pore.rejection(axis, FieldSource::Evaluated(potential)) is None,
        pore.is_external_potential(axis, FieldSource::Evaluated(potential), made),
        pore.is_external_potential(axis, FieldSource::Supplied(&made), back),
    ensures
        pore.rejection(axis, FieldSource::Supplied(&made)) is None,
        back.same(made),
        pore.is_external_potential(axis, FieldSource::Evaluated(potential), back),
{
}

/// A field that was made for a pore in a box, supplied again for the same
/// pore on the same axes, is accepted and comes back as it is: of the same
/// shape, with the same value on every grid point, and so again the field of
/// the potential it was made of.
pub proof fn lemma_supplied_field_comes_back_3d<F>(
    pore: Pore3D<F>,
    axes: (Axis, Axis, Axis),
    potential: Array4D,
    made: Array4D,
    back: Array4D,
)
    requires
        pore.rejection(axes, FieldSource::Evaluated(potential)) is None,
        pore.is_external_potential(axes, FieldSource::Evaluated(potential), made),
        pore.is_external_potential(axes, FieldSource::Supplied(&made), back),
    ensures
        pore.rejection(axes, FieldSource::Supplied(&made)) is None,
        back.same(made),
        pore.is_external_potential(axes, FieldSource::Evaluated(potential), back),
{
}

} // verus!
