//! The density profile of a pore, and what is derived from it once it is solved.
//!
//! The solver and the thermodynamic integrals work outside this library. A
//! profile records what they return: the converged density together with the
//! grand potential and the interfacial tension, or nothing at all.

use crate::dense::{Array2D, Array4D};
use crate::geometry::Grid;
use vstd::prelude::*;

verus! {

/// What the solver works on: the grid, the convolver that was planned for it,
/// the bulk state that the pore is in contact with, and the external field.
pub struct DensityProfile<A, B, C> {
    /// The coordinates of the fields.
    pub grid: Grid,
    /// The convolver, planned for `grid`.
    pub convolver: C,
    /// The bulk state, with what is derived from it.
    pub bulk: B,
    /// The external field.
    pub external_potential: A,
    /// The converged density, once the profile has been solved.
    pub density: Option<A>,
}

/// What a converged solve returns.
pub struct Solution<A> {
    /// The converged density.
    pub density: A,
    /// The integral of the grand potential density over the grid.
    pub grand_potential: u64,
    /// The grand potential plus the bulk pressure times the volume of the profile.
    pub interfacial_tension: u64,
}

/// The density profile of a pore with its grand potential and its interfacial
/// tension. The two are set together by a solve that converged and cleared
/// together when the bulk state changes.
pub struct PoreProfile<A, B, C> {
    /// The density profile.
    pub profile: DensityProfile<A, B, C>,
    /// The grand potential of the solved profile.
    pub grand_potential: Option<u64>,
    /// The interfacial tension of the solved profile.
    pub interfacial_tension: Option<u64>,
}

/// The profile of a pore of one dimension.
pub type PoreProfile1D<B, C> = PoreProfile<Array2D, B, C>;

/// The profile of a pore in a box.
pub type PoreProfile3D<B, C> = PoreProfile<Array4D, B, C>;

impl<A, B, C> DensityProfile<A, B, C> {
    /// A profile that has not been solved.
    pub fn new(grid: Grid, convolver: C, bulk: B, external_potential: A) -> (profile: Self)
        ensures
            profile == (DensityProfile { grid, convolver, bulk, external_potential, density: None }),
    {
        DensityProfile { grid, convolver, bulk, external_potential, density: None }
    }
}

impl<A: Clone, B: Clone, C: Clone> Clone for PoreProfile<A, B, C> {
    fn clone(&self) -> (pore: Self)
        ensures
            pore.profile.grid.same(self.profile.grid),
            cloned(self.profile.convolver, pore.profile.convolver),
            cloned(self.profile.bulk, pore.profile.bulk),
            cloned(self.profile.external_potential, pore.profile.external_potential),
            match (self.profile.density, pore.profile.density) {
                (Some(a), Some(b)) => cloned(a, b),
                (None, None) => true,
                _ => false,
            },
            pore.grand_potential == self.grand_potential,
            pore.interfacial_tension == self.interfacial_tension,
    {
        let density = match &self.profile.density {
            Some(density) => Some(density.clone()),
            None => None,
        };
        PoreProfile {
            profile: DensityProfile {
                grid: self.profile.grid.clone(),
                convolver: self.profile.convolver.clone(),
                bulk: self.profile.bulk.clone(),
                external_potential: self.profile.external_potential.clone(),
                density,
            },
            grand_potential: self.grand_potential,
            interfacial_tension: self.interfacial_tension,
        }
    }
}

impl<A, B, C> PoreProfile<A, B, C> {
    /// Whether the profile has been solved since its bulk state was last set.
    pub open spec fn is_solved(&self) -> bool {
        self.grand_potential is Some && self.interfacial_tension is Some
    }

    /// Whether the grand potential and the interfacial tension are both set or both unset.
    pub open spec fn is_consistent(&self) -> bool {
        self.grand_potential is Some <==> self.interfacial_tension is Some
    }

    /// The pore around a profile that has not been solved.
    pub fn new(profile: DensityProfile<A, B, C>) -> (pore: Self)
        ensures
            pore.profile == profile,
            pore.grand_potential is None,
            pore.interfacial_tension is None,
            pore.is_consistent(),
    {
        PoreProfile { profile, grand_potential: None, interfacial_tension: None }
    }

    /// Records how a solve of the profile ended.
    ///
    /// Where it converged, the density, the grand potential and the
    /// interfacial tension are set, all three. Where it failed, the error is
    /// returned as it came and nothing changes.
    pub fn solve_inplace<E>(&mut self, outcome: Result<Solution<A>, E>) -> (r: Result<(), E>)
        ensures
            match outcome {
                Ok(solution) => {
                    &&& r is Ok
                    &&& final(self).profile == (DensityProfile {
                        density: Some(solution.density),
                        ..old(self).profile
                    })
                    &&& final(self).grand_potential == Some(solution.grand_potential)
                    &&& final(self).interfacial_tension == Some(solution.interfacial_tension)
                },
                Err(e) => r == Err::<(), E>(e) && *final(self) == *old(self),
            },
            r is Ok ==> final(self).is_solved(),
            old(self).is_consistent() ==> final(self).is_consistent(),
    {
        match outcome {
            Ok(solution) => {
                self.profile.density = Some(solution.density);
                self.grand_potential = Some(solution.grand_potential);
                self.interfacial_tension = Some(solution.interfacial_tension);
                Ok(())
            },
            Err(e) => Err(e),
        }
    }

    /// Records how a solve of the profile ended, and hands the profile back
    /// where it converged.
    pub fn solve<E>(self, outcome: Result<Solution<A>, E>) -> (r: Result<Self, E>)
        ensures
            match outcome {
                Ok(solution) => r == Ok::<Self, E>(
                    PoreProfile {
                        profile: DensityProfile {
                            density: Some(solution.density),
                            ..self.profile
                        },
                        grand_potential: Some(solution.grand_potential),
                        interfacial_tension: Some(solution.interfacial_tension),
                    },
                ),
                Err(e) => r == Err::<Self, E>(e),
            },
            r is Ok ==> r->Ok_0.is_solved(),
    {
        let mut pore = self;
        match pore.solve_inplace(outcome) {
            Ok(()) => Ok(pore),
            Err(e) => Err(e),
        }
    }

    /// Puts the profile in contact with another bulk state. The grand
    /// potential and the interfacial tension belong to the old one and are
    /// cleared; the rest of the profile stays.
    pub fn update_bulk(self, bulk: B) -> (pore: Self)
        ensures
            pore.profile == (DensityProfile { bulk, ..self.profile }),
            pore.grand_potential is None,
            pore.interfacial_tension is None,
            !pore.is_solved(),
            pore.is_consistent(),
    {
        let mut pore = self;
        pore.profile.bulk = bulk;
        pore.grand_potential = None;
        pore.interfacial_tension = None;
        pore
    }
}

} // verus!
