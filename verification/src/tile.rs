//! One cell of the planet's surface.

use crate::defs::{Biome, Structure};
use vstd::prelude::*;

verus! {

/// The temperature of a new tile: 300 K, in millikelvin.
pub const TEMP_DEFAULT: u32 = 300_000;

/// The highest temperature a tile can have: 1000 K, in millikelvin.
pub const TEMP_MAX: u32 = 1_000_000;

/// The most biomass a tile can carry.
pub const BIOMASS_MAX: u32 = 0xffff_ffff;

/// A tile: its terrain, what stands on it, its elevation in metres, its
/// biomass in grams per square metre and its temperature in millikelvin.
#[derive(Clone, Copy, Debug, PartialEq, Eq, Structural)]
pub struct Tile {
    pub biome: Biome,
    pub structure: Structure,
    pub height: i32,
    pub biomass: u32,
    pub temp: u32,
}

/// A temperature brought into the range that a tile can have: above
/// absolute zero, at most `TEMP_MAX`.
pub open spec fn clamp_temp(v: int) -> u32 {
    if v < 1 {
        1
    } else if v > TEMP_MAX {
        TEMP_MAX
    } else {
        v as u32
    }
}

/// A biomass brought into the range that a tile can carry.
pub open spec fn clamp_biomass(v: int) -> u32 {
    if v < 0 {
        0
    } else if v > BIOMASS_MAX {
        BIOMASS_MAX
    } else {
        v as u32
    }
}

impl Tile {
    /// The temperature is above absolute zero and at most `TEMP_MAX`.
    pub open spec fn wf(self) -> bool {
        0 < self.temp <= TEMP_MAX
    }

    /// This tile holding `structure`.
    pub open spec fn spec_with_structure(self, structure: Structure) -> Tile {
        Tile { structure, ..self }
    }

    /// This tile with the terrain `biome`.
    pub open spec fn spec_with_biome(self, biome: Biome) -> Tile {
        Tile { biome, ..self }
    }

    /// This tile, `by` millikelvin warmer (colder, where `by` is negative).
    pub open spec fn spec_warmed(self, by: int) -> Tile {
        Tile { temp: clamp_temp(self.temp + by), ..self }
    }

    /// This tile with `by` more biomass (less, where `by` is negative).
    pub open spec fn spec_fertilized(self, by: int) -> Tile {
        Tile { biomass: clamp_biomass(self.biomass + by), ..self }
    }

    /// This tile at the temperature `temp`, or at the nearest temperature
    /// that a tile can have.
    pub open spec fn spec_with_temp(self, temp: u32) -> Tile {
        Tile { temp: clamp_temp(temp as int), ..self }
    }

    /// This tile carrying the biomass `biomass`.
    pub open spec fn spec_with_biomass(self, biomass: u32) -> Tile {
        Tile { biomass, ..self }
    }

    /// This tile at the elevation `height`.
    pub open spec fn spec_with_height(self, height: i32) -> Tile {
        Tile { height, ..self }
    }

    /// This tile at the temperature `temp`, or at the nearest temperature
    /// that a tile can have.
    pub fn with_temp(self, temp: u32) -> (t: Tile)
        ensures
            t == self.spec_with_temp(temp),
            t.wf(),
    {
        let temp: u32 = if temp < 1 {
            1
        } else if temp > TEMP_MAX {
            TEMP_MAX
        } else {
            temp
        };
        Tile { temp, ..self }
    }

    /// This tile carrying the biomass `biomass`.
    #[verifier::when_used_as_spec(spec_with_biomass)]
    pub fn with_biomass(self, biomass: u32) -> (t: Tile)
        ensures
            t == self.spec_with_biomass(biomass),
    {
        Tile { biomass, ..self }
    }

    /// This tile at the elevation `height`.
    #[verifier::when_used_as_spec(spec_with_height)]
    pub fn with_height(self, height: i32) -> (t: Tile)
        ensures
            t == self.spec_with_height(height),
    {
        Tile { height, ..self }
    }

    /// This tile holding `structure`.
    #[verifier::when_used_as_spec(spec_with_structure)]
    pub fn with_structure(self, structure: Structure) -> (t: Tile)
        ensures
            t == self.spec_with_structure(structure),
    {
        Tile { structure, ..self }
    }

    /// This tile with the terrain `biome`.
    #[verifier::when_used_as_spec(spec_with_biome)]
    pub fn with_biome(self, biome: Biome) -> (t: Tile)
        ensures
            t == self.spec_with_biome(biome),
    {
        Tile { biome, ..self }
    }

    /// This tile, `by` millikelvin warmer (colder, where `by` is negative),
    /// within the range that a tile can have.
    pub fn warmed(self, by: i64) -> (t: Tile)
        ensures
            t == self.spec_warmed(by as int),
            t.wf(),
    {
        let wide: i64 = if by > TEMP_MAX as i64 {
            self.temp as i64 + TEMP_MAX as i64
        } else if by < -(0xffff_ffffi64) {
            0
        } else {
            self.temp as i64 + by
        };
        let temp: u32 = if wide < 1 {
            1
        } else if wide > TEMP_MAX as i64 {
            TEMP_MAX
        } else {
            wide as u32
        };
        Tile { temp, ..self }
    }

    /// This tile with `by` more biomass (less, where `by` is negative),
    /// within the range that a tile can carry.
    pub fn fertilized(self, by: i64) -> (t: Tile)
        ensures
            t == self.spec_fertilized(by as int),
            t.wf() == self.wf(),
    {
        let wide: i128 = self.biomass as i128 + by as i128;
        let biomass: u32 = if wide < 0 {
            0
        } else if wide > BIOMASS_MAX as i128 {
            BIOMASS_MAX
        } else {
            wide as u32
        };
        Tile { biomass, ..self }
    }
}

impl Default for Tile {
    /// Bare rock at sea level and 300 K.
    fn default() -> (t: Tile)
        ensures
            t == (Tile {
                biome: Biome::Rock,
                structure: Structure::Empty,
                height: 0,
                biomass: 0,
                temp: TEMP_DEFAULT,
            }),
    {
        Tile {
            biome: Biome::Rock,
            structure: Structure::Empty,
            height: 0,
            biomass: 0,
            temp: TEMP_DEFAULT,
        }
    }
}

} // verus!
