//! The air of the planet as a whole: how much there is of each gas.

use crate::defs::StartParams;
use vstd::prelude::*;

verus! {

/// The gases that the air is made of.
#[derive(Clone, Copy, Debug, PartialEq, Eq, Structural, Hash)]
pub enum GasKind {
    Oxygen,
    Nitrogen,
    CarbonDioxide,
}

/// The largest mass of one gas that the air can hold.
pub const GAS_MAX: u64 = 0xffff_ffff_ffff_ffff;

/// The mass of each gas, in megatonnes.
#[derive(Clone, Copy, Debug, PartialEq, Eq, Structural)]
pub struct Atmosphere {
    pub oxygen: u64,
    pub nitrogen: u64,
    pub carbon_dioxide: u64,
}

/// A mass after a change that would have brought it to `v`: never below
/// zero, never above what the air can hold.
pub open spec fn clamp_mass(v: int) -> int {
    if v < 0 {
        0
    } else if v > GAS_MAX {
        GAS_MAX as int
    } else {
        v
    }
}

impl Atmosphere {
    /// The mass of `gas`.
    pub open spec fn spec_mass(self, gas: GasKind) -> u64 {
        match gas {
            GasKind::Oxygen => self.oxygen,
            GasKind::Nitrogen => self.nitrogen,
            GasKind::CarbonDioxide => self.carbon_dioxide,
        }
    }

    /// The air with the mass of `gas` set to `mass`.
    pub open spec fn spec_with(self, gas: GasKind, mass: u64) -> Atmosphere {
        match gas {
            GasKind::Oxygen => Atmosphere { oxygen: mass, ..self },
            GasKind::Nitrogen => Atmosphere { nitrogen: mass, ..self },
            GasKind::CarbonDioxide => Atmosphere { carbon_dioxide: mass, ..self },
        }
    }

    /// The air after `amount` of `gas` was released into it (taken out of
    /// it, where `amount` is negative).
    pub open spec fn spec_add(self, gas: GasKind, amount: int) -> Atmosphere {
        self.spec_with(gas, clamp_mass(self.spec_mass(gas) + amount) as u64)
    }

    /// How much of `from` turns into `into` where `amount` is asked for:
    /// no more than there is of `from`, and no more than `into` has room
    /// for; nothing where both are the same gas.
    pub open spec fn spec_turned(self, from: GasKind, into: GasKind, amount: u64) -> u64 {
        if from == into {
            0
        } else if amount <= self.spec_mass(from) && amount <= GAS_MAX - self.spec_mass(into) {
            amount
        } else if self.spec_mass(from) <= GAS_MAX - self.spec_mass(into) {
            self.spec_mass(from)
        } else {
            (GAS_MAX - self.spec_mass(into)) as u64
        }
    }

    /// The mass of all gases together.
    pub open spec fn spec_total(self) -> int {
        self.oxygen + self.nitrogen + self.carbon_dioxide
    }

    /// The air of a new planet.
    pub fn from_params(start_params: &StartParams) -> (a: Atmosphere)
        ensures
            a == start_params.atmo,
    {
        start_params.atmo
    }

    /// The mass of `gas`.
    #[verifier::when_used_as_spec(spec_mass)]
    pub fn mass(self, gas: GasKind) -> (m: u64)
        ensures
            m == self.spec_mass(gas),
    {
        match gas {
            GasKind::Oxygen => self.oxygen,
            GasKind::Nitrogen => self.nitrogen,
            GasKind::CarbonDioxide => self.carbon_dioxide,
        }
    }

    /// The air with the mass of `gas` set to `mass`.
    #[verifier::when_used_as_spec(spec_with)]
    pub fn with(self, gas: GasKind, mass: u64) -> (a: Atmosphere)
        ensures
            a == self.spec_with(gas, mass),
    {
        match gas {
            GasKind::Oxygen => Atmosphere { oxygen: mass, ..self },
            GasKind::Nitrogen => Atmosphere { nitrogen: mass, ..self },
            GasKind::CarbonDioxide => Atmosphere { carbon_dioxide: mass, ..self },
        }
    }

    /// Releases `amount` of `gas` into the air, or takes it out where
    /// `amount` is negative. The mass stops at zero and at `GAS_MAX`.
    pub fn add(&mut self, gas: GasKind, amount: i64)
        ensures
            *final(self) == old(self).spec_add(gas, amount as int),
    {
        let wide: i128 = self.mass(gas) as i128 + amount as i128;
        let mass: u64 = if wide < 0 {
            0
        } else if wide > GAS_MAX as i128 {
            GAS_MAX
        } else {
            wide as u64
        };
        *self = self.with(gas, mass);
    }

    /// Turns up to `amount` of `from` into as much of `into`, and says how
    /// much was turned. The mass of all gases together stays as it is.
    pub fn convert(&mut self, from: GasKind, into: GasKind, amount: u64) -> (turned: u64)
        ensures
            turned == old(self).spec_turned(from, into, amount),
            *final(self) == old(self).spec_with(
                from,
                (old(self).spec_mass(from) - turned) as u64,
            ).spec_with(
                into,
                (if from == into {
                    old(self).spec_mass(into)
                } else {
                    (old(self).spec_mass(into) + turned) as u64
                }),
            ),
            final(self).spec_total() == old(self).spec_total(),
    {
        if from == into {
            return 0;
        }
        let there: u64 = self.mass(from);
        let room: u64 = GAS_MAX - self.mass(into);
        let turned: u64 = if amount <= there && amount <= room {
            amount
        } else if there <= room {
            there
        } else {
            room
        };
        *self = self.with(from, there - turned);
        *self = self.with(into, self.mass(into) + turned);
        turned
    }

    /// The mass of all gases together.
    pub fn total(self) -> (t: u128)
        ensures
            t == self.spec_total(),
    {
        self.oxygen as u128 + self.nitrogen as u128 + self.carbon_dioxide as u128
    }
}

} // verus!
