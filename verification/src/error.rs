//! The ways an operation on a planet can be refused.

use vstd::prelude::*;

verus! {

/// Why an operation was refused.
#[derive(Clone, Copy, Debug, PartialEq, Eq, Structural)]
pub enum PlanetError {
    /// A latitude outside the grid; longitudes wrap and are never out of bounds.
    OutOfBounds,
    /// The footprint leaves the grid or touches a tile that holds a structure.
    NotPlaceable,
    /// A kind that the catalog does not describe, or that names no building.
    UnknownKind,
}

impl PlanetError {
    /// A short English description of the error.
    pub fn message(&self) -> (s: &'static str)
        ensures
            s@ == (match *self {
                PlanetError::OutOfBounds => "coordinates out of bounds"@,
                PlanetError::NotPlaceable => "structure cannot be placed here"@,
                PlanetError::UnknownKind => "unknown kind"@,
            }),
    {
        match self {
            PlanetError::OutOfBounds => "coordinates out of bounds",
            PlanetError::NotPlaceable => "structure cannot be placed here",
            PlanetError::UnknownKind => "unknown kind",
        }
    }
}

} // verus!
