//! Integer tile coordinates.

use vstd::prelude::*;

verus! {

/// A column and a row. The column is a longitude and wraps around the
/// planet; the row is a latitude and does not.
#[derive(Clone, Copy, Debug, PartialEq, Eq, Structural, Hash)]
pub struct Coords(pub i32, pub i32);

impl Coords {
    pub fn new(x: i32, y: i32) -> (c: Coords)
        ensures
            c == Coords(x, y),
    {
        Coords(x, y)
    }
}

impl From<(i32, i32)> for Coords {
    fn from(p: (i32, i32)) -> (c: Coords) {
        Coords(p.0, p.1)
    }
}

impl vstd::std_specs::convert::FromSpecImpl<(i32, i32)> for Coords {
    open spec fn obeys_from_spec() -> bool {
        true
    }

    open spec fn from_spec(p: (i32, i32)) -> Coords {
        Coords(p.0, p.1)
    }
}

} // verus!
