//! The external field: the potential that the solid exerts on the fluid, on
//! every grid point and for every segment of the fluid.
//!
//! The closed-form potentials themselves are sums and powers of binary64
//! values and are evaluated elsewhere. This module decides what becomes of
//! their values: where the wall stands, where the field is capped, and which
//! of its three branches the pair potential takes.

use crate::binary64::{capped, exceeds, greater, is_zero, nan, value, zero, INFINITY, ZERO};
use crate::dense::{
    array1_index, array2_cap, array2_fill_column, array4_cap, Array2D, Array4D,
};
use crate::geometry::Axis;
use vstd::prelude::*;

verus! {

/// The cutoff of a field for which none is given: 50.
pub const MAX_POTENTIAL: u64 = 0x4049_0000_0000_0000;

/// The distance beyond which a solid site exerts no potential, where none is given: 14.
pub const CUTOFF_RADIUS: u64 = 0x402C_0000_0000_0000;

/// The cutoff that applies: the one given, or `MAX_POTENTIAL`.
pub open spec fn cutoff_of(potential_cutoff: Option<u64>) -> u64 {
    match potential_cutoff {
        Some(cutoff) => cutoff,
        None => MAX_POTENTIAL,
    }
}

/// The field at a grid point of one dimension: the cutoff where the position
/// exceeds `length`, whatever the potential is there, and else the potential,
/// capped.
pub open spec fn walled(potential: u64, position: u64, length: u64, cutoff: u64) -> u64 {
    if greater(position, length) {
        cutoff
    } else {
        capped(potential, cutoff)
    }
}

/// Whether `field` is the external field that comes of `potential` on `axis`:
/// of the same shape, and on every grid point the potential behind the wall
/// and under the cap.
pub open spec fn is_field_1d(field: Array2D, potential: Array2D, axis: Axis, cutoff: u64) -> bool {
    &&& field.rows() == potential.rows()
    &&& field.cols() == potential.cols()
    &&& forall|s: int, i: int|
        0 <= s < field.rows() && 0 <= i < field.cols() ==> #[trigger] field.at(s, i) == walled(
            potential.at(s, i),
            axis.grid@[i],
            axis.length,
            cutoff,
        )
}

/// Whether `field` is the external field that comes of `potential` in a box:
/// of the same shape, and on every grid point the potential under the cap.
pub open spec fn is_field_3d(field: Array4D, potential: Array4D, cutoff: u64) -> bool {
    &&& field.shape() == potential.shape()
    &&& forall|s: int, x: int, y: int, z: int|
        field.holds(s, x, y, z) ==> #[trigger] field.at(s, x, y, z) == capped(
            potential.at(s, x, y, z),
            cutoff,
        )
}

/// The pair potential between a solid site and a fluid segment at the squared
/// distance `distance2`: zero beyond the cutoff radius, infinite where the two
/// coincide, and else `interaction`, the value of the 12-6 potential there.
pub open spec fn pair_potential(distance2: u64, interaction: u64, cutoff_radius2: u64) -> u64 {
    if greater(distance2, cutoff_radius2) {
        ZERO
    } else if zero(distance2) {
        INFINITY
    } else {
        interaction
    }
}

/// The external field of one dimension.
///
/// `potential` holds, for every segment (row) and every grid point of `axis`
/// (column), the closed-form potential divided by the temperature. The field
/// is the cutoff on every grid point beyond `axis.length`, and nowhere above
/// the cutoff.
pub fn external_potential_1d(
    potential: Array2D,
    axis: &Axis,
    potential_cutoff: Option<u64>,
) -> (field: Array2D)
    requires
        potential.cols() == axis.points(),
    ensures
        is_field_1d(field, potential, *axis, cutoff_of(potential_cutoff)),
        forall|s: int, i: int|
            0 <= s < field.rows() && 0 <= i < field.cols() && greater(axis.grid@[i], axis.length)
                ==> #[trigger] field.at(s, i) == cutoff_of(potential_cutoff),
        forall|s: int, i: int|
            0 <= s < field.rows() && 0 <= i < field.cols() ==> !greater(
                #[trigger] field.at(s, i),
                cutoff_of(potential_cutoff),
            ),
{
    let cutoff: u64 = match potential_cutoff {
        Some(cutoff) => cutoff,
        None => MAX_POTENTIAL,
    };
    let mut field = potential;
    let n: usize = axis.len();
    let mut i: usize = 0;
    while i < n
        invariant
            i <= n,
            n == axis.points(),
            field.rows() == potential.rows(),
            field.cols() == potential.cols(),
            field.cols() == n,
            forall|s: int, j: int|
                0 <= s < field.rows() && 0 <= j < n ==> #[trigger] field.at(s, j) == if j < i
                    && greater(axis.grid@[j], axis.length) {
                    cutoff
                } else {
                    potential.at(s, j)
                },
        decreases n - i,
    {
        if exceeds(array1_index(&axis.grid, i), axis.length) {
            array2_fill_column(&mut field, i, cutoff);
        }
        i = i + 1;
    }
    array2_cap(&mut field, cutoff);
    field
}

/// The external field in a box.
///
/// `potential` holds, for every segment and every grid point, the sum of the
/// pair potentials with all solid sites, scaled and divided by the
/// temperature. The field is nowhere above the cutoff. A box has no wall.
pub fn external_potential_3d(potential: Array4D, potential_cutoff: Option<u64>) -> (field: Array4D)
    ensures
        is_field_3d(field, potential, cutoff_of(potential_cutoff)),
        forall|s: int, x: int, y: int, z: int|
            field.holds(s, x, y, z) ==> !greater(
                #[trigger] field.at(s, x, y, z),
                cutoff_of(potential_cutoff),
            ),
{
    let cutoff: u64 = match potential_cutoff {
        Some(cutoff) => cutoff,
        None => MAX_POTENTIAL,
    };
    let mut field = potential;
    array4_cap(&mut field, cutoff);
    field
}

/// The pair potential between a solid site and a fluid segment: zero where
/// `distance2` exceeds `cutoff_radius2`, infinite where it is zero, and else
/// `interaction`.
pub fn evaluate(distance2: u64, interaction: u64, cutoff_radius2: u64) -> (potential: u64)
    ensures
        potential == pair_potential(distance2, interaction, cutoff_radius2),
        greater(distance2, cutoff_radius2) ==> potential == ZERO,
        zero(distance2) && !greater(distance2, cutoff_radius2) ==> potential == INFINITY,
{
    if exceeds(distance2, cutoff_radius2) {
        ZERO
    } else if is_zero(distance2) {
        INFINITY
    } else {
        interaction
    }
}

/// On every grid point beyond the length of the axis, a field of one
/// dimension is the cutoff, for every segment and whatever the potential is
/// there.
pub proof fn lemma_field_1d_is_cutoff_beyond_wall(
    field: Array2D,
    potential: Array2D,
    axis: Axis,
    cutoff: u64,
)
    requires
        is_field_1d(field, potential, axis, cutoff),
    ensures
        forall|s: int, i: int|
            0 <= s < field.rows() && 0 <= i < field.cols() && greater(axis.grid@[i], axis.length)
                ==> #[trigger] field.at(s, i) == cutoff,
{
}

/// No value of a field of one dimension exceeds the cutoff. Where the
/// cutoff is a number, the value of the field is at most that of the cutoff
/// on every grid point beyond the wall and on every grid point where the
/// potential is a number.
pub proof fn lemma_field_1d_never_exceeds_cutoff(
    field: Array2D,
    potential: Array2D,
    axis: Axis,
    cutoff: u64,
)
    requires
        is_field_1d(field, potential, axis, cutoff),
    ensures
        forall|s: int, i: int|
            0 <= s < field.rows() && 0 <= i < field.cols() ==> !greater(
                #[trigger] field.at(s, i),
                cutoff,
            ),
        forall|s: int, i: int|
            0 <= s < field.rows() && 0 <= i < field.cols() && !nan(cutoff) && (greater(
                axis.grid@[i],
                axis.length,
            ) || !nan(potential.at(s, i))) ==> value(#[trigger] field.at(s, i)) <= value(cutoff),
{
}

/// No value of a field in a box exceeds the cutoff. Where the cutoff is a
/// number, the value of the field is at most that of the cutoff on every grid
/// point where the potential is a number.
pub proof fn lemma_field_3d_never_exceeds_cutoff(field: Array4D, potential: Array4D, cutoff: u64)
    requires
        is_field_3d(field, potential, cutoff),
    ensures
        forall|s: int, x: int, y: int, z: int|
            field.holds(s, x, y, z) ==> !greater(#[trigger] field.at(s, x, y, z), cutoff),
        forall|s: int, x: int, y: int, z: int|
            field.holds(s, x, y, z) && !nan(cutoff) && !nan(potential.at(s, x, y, z)) ==> value(
                #[trigger] field.at(s, x, y, z),
            ) <= value(cutoff),
{
}

/// The pair potential is zero wherever the squared distance exceeds the
/// squared cutoff radius, and infinite wherever the squared distance is zero
/// and the squared cutoff radius is not below zero.
pub proof fn lemma_pair_potential_far_and_near(
    distance2: u64,
    interaction: u64,
    cutoff_radius2: u64,
)
    ensures
        greater(distance2, cutoff_radius2) ==> pair_potential(distance2, interaction, cutoff_radius2)
            == ZERO,
        zero(distance2) && !greater(ZERO, cutoff_radius2) ==> pair_potential(
            distance2,
            interaction,
            cutoff_radius2,
        ) == INFINITY,
{
}

} // verus!
