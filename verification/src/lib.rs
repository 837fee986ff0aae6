//! Pore specifications and the external field of a fluid confined in a pore.
//!
//! A pore is a slit, a cylinder or a sphere, described along one axis, or a
//! periodic box that holds solid sites. From its specification and a bulk
//! state a profile is set up: the grid, the external field that the solid
//! exerts on the fluid, and the convolver. A solve of the profile yields the
//! density, the grand potential and the interfacial tension.
//!
//! Every number that the library holds is an IEEE 754 binary64 value, kept as
//! its 64 bits in a `u64`. The library compares, selects, halves, doubles and
//! rounds such values, and reads all of that off the bits. It takes no sum,
//! product or power: what comes of those is handed to it as a value, such as
//! the potential before it is walled and capped, or the outcome of a solve.
//!
//! - [`binary64`]: the bits of a value, its order, and the cap.
//! - [`rounding`]: half and twice a value, and the nearest whole number.
//! - [`dense`]: arrays of values in one, two and four dimensions.
//! - [`geometry`]: axes and grids.
//! - [`potential`]: the wall, the cap and the branches of the pair potential.
//! - [`pore`]: the specifications of pores, and how a profile is set up.
//! - [`profile`]: the profile of a pore and its life from solve to solve.

pub mod binary64;
pub mod dense;
pub mod geometry;
pub mod pore;
pub mod potential;
pub mod profile;
pub mod rounding;
