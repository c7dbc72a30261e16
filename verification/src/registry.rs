//! The counts of facilities in orbit and in the star system: how many of a
//! kind were built and how many of them are running.

use crate::defs::amount_at;
use crate::fnv_map::{map_get, map_insert};
use fnv::FnvHashMap;
use vstd::prelude::*;

verus! {

/// The facilities of one kind: `n` built, `enabled` of them running.
#[derive(Clone, Copy, Debug, PartialEq, Eq, Structural)]
pub struct Building {
    pub n: u32,
    pub enabled: u32,
}

/// What the host can order of the facilities of one kind.
#[derive(Clone, Copy, Debug, PartialEq, Eq, Structural)]
pub enum BuildingCommand {
    /// Build one more.
    Construct,
    /// Take one down.
    Demolish,
    /// Have this many running, or all where fewer were built.
    SetEnabled(u32),
}

impl Default for Building {
    /// No facility at all.
    fn default() -> (b: Building)
        ensures
            b == (Building { n: 0, enabled: 0 }),
    {
        Building { n: 0, enabled: 0 }
    }
}

impl Building {
    /// No more facilities run than were built.
    pub open spec fn wf(self) -> bool {
        self.enabled <= self.n
    }

    /// The counts after one more was built; it runs at once. Nothing
    /// changes where the count is at its limit.
    pub open spec fn spec_constructed(self) -> Building {
        if self.n < u32::MAX && self.enabled < u32::MAX {
            Building { n: (self.n + 1) as u32, enabled: (self.enabled + 1) as u32 }
        } else {
            self
        }
    }

    /// The counts after one was taken down: one fewer, and no more running
    /// than are left. Where there was none, there is none.
    pub open spec fn spec_demolished(self) -> Building {
        if self.n > 0 {
            Building {
                n: (self.n - 1) as u32,
                enabled: if self.enabled < self.n {
                    self.enabled
                } else {
                    (self.n - 1) as u32
                },
            }
        } else {
            Building { n: 0, enabled: 0 }
        }
    }

    /// The counts with `wanted` running, or all where fewer were built.
    pub open spec fn spec_with_enabled(self, wanted: u32) -> Building {
        Building {
            n: self.n,
            enabled: if wanted <= self.n {
                wanted
            } else {
                self.n
            },
        }
    }

    /// The counts after `command` was carried out.
    pub open spec fn spec_after(self, command: BuildingCommand) -> Building {
        match command {
            BuildingCommand::Construct => self.spec_constructed(),
            BuildingCommand::Demolish => self.spec_demolished(),
            BuildingCommand::SetEnabled(wanted) => self.spec_with_enabled(wanted),
        }
    }

    /// `n` facilities, all running.
    pub fn new(n: u32) -> (b: Building)
        ensures
            b == (Building { n, enabled: n }),
            b.wf(),
    {
        Building { n, enabled: n }
    }

    /// The counts after one more was built.
    #[verifier::when_used_as_spec(spec_constructed)]
    pub fn constructed(self) -> (b: Building)
        ensures
            b == self.spec_constructed(),
            self.wf() ==> b.wf(),
    {
        if self.n < u32::MAX && self.enabled < u32::MAX {
            Building { n: self.n + 1, enabled: self.enabled + 1 }
        } else {
            self
        }
    }

    /// The counts after one was taken down.
    #[verifier::when_used_as_spec(spec_demolished)]
    pub fn demolished(self) -> (b: Building)
        ensures
            b == self.spec_demolished(),
            b.wf(),
    {
        if self.n > 0 {
            Building {
                n: self.n - 1,
                enabled: if self.enabled < self.n {
                    self.enabled
                } else {
                    self.n - 1
                },
            }
        } else {
            Building { n: 0, enabled: 0 }
        }
    }

    /// The counts with `wanted` running, or all where fewer were built.
    #[verifier::when_used_as_spec(spec_with_enabled)]
    pub fn with_enabled(self, wanted: u32) -> (b: Building)
        ensures
            b == self.spec_with_enabled(wanted),
            b.wf(),
    {
        Building {
            n: self.n,
            enabled: if wanted <= self.n {
                wanted
            } else {
                self.n
            },
        }
    }
}

impl Building {
    /// The counts after `command` was carried out.
    pub fn after(self, command: BuildingCommand) -> (b: Building)
        ensures
            b == self.spec_after(command),
            self.wf() ==> b.wf(),
    {
        match command {
            BuildingCommand::Construct => self.constructed(),
            BuildingCommand::Demolish => self.demolished(),
            BuildingCommand::SetEnabled(wanted) => self.with_enabled(wanted),
        }
    }
}

/// What a registry holds for the key `code`: no facility where it holds
/// nothing.
pub open spec fn building_at(m: Map<u32, Building>, code: u32) -> Building {
    if m.contains_key(code) {
        m[code]
    } else {
        Building { n: 0, enabled: 0 }
    }
}

/// Of no kind with a code below `kinds` do more facilities run than were
/// built.
pub open spec fn registry_wf(m: Map<u32, Building>, kinds: u32) -> bool {
    forall|code: u32| code < kinds ==> (#[trigger] building_at(m, code)).wf()
}

/// The registry of a new planet: an entry for each of the codes below
/// `kinds`, with as many facilities as `counts` gives it, all running.
pub open spec fn registry_started(
    m: Map<u32, Building>,
    kinds: u32,
    counts: Map<u32, u32>,
) -> bool {
    &&& forall|code: u32| #[trigger] m.contains_key(code) <==> code < kinds
    &&& forall|code: u32|
        code < kinds ==> #[trigger] m[code] == (Building {
            n: amount_at(counts, code) as u32,
            enabled: amount_at(counts, code) as u32,
        })
}

/// What a registry holds for the key `code`.
pub fn building_of(m: &FnvHashMap<u32, Building>, code: u32) -> (b: Building)
    ensures
        b == building_at(m@, code),
{
    match map_get(m, code) {
        Some(b) => *b,
        None => Building { n: 0, enabled: 0 },
    }
}

/// Carries out `command` on the facilities held under `code` and leaves
/// the others as they are.
pub fn registry_command(m: &mut FnvHashMap<u32, Building>, code: u32, command: BuildingCommand)
    ensures
        final(m)@ == old(m)@.insert(code, building_at(old(m)@, code).spec_after(command)),
        forall|kinds: u32|
            building_at(old(m)@, code).wf() && registry_wf(old(m)@, kinds)
                ==> #[trigger] registry_wf(final(m)@, kinds),
{
    let building = building_of(m, code);
    map_insert(m, code, building.after(command));
    proof {
        assert forall|kinds: u32|
            building_at(old(m)@, code).wf() && registry_wf(
                old(m)@,
                kinds,
            ) implies #[trigger] registry_wf(m@, kinds) by {
            assert forall|c: u32| c < kinds implies (#[trigger] building_at(m@, c)).wf() by {
                assert(building_at(old(m)@, c).wf());
            }
        }
    }
}

/// Whether of no kind with a code below `kinds` more facilities run than
/// were built.
pub fn registry_check(m: &FnvHashMap<u32, Building>, kinds: u32) -> (b: bool)
    ensures
        b == registry_wf(m@, kinds),
{
    let mut code: u32 = 0;
    while code < kinds
        invariant
            code <= kinds,
            registry_wf(m@, code),
        decreases kinds - code,
    {
        let building = building_of(m, code);
        if building.enabled > building.n {
            assert(!building_at(m@, code).wf());
            return false;
        }
        code = code + 1;
    }
    true
}

/// The registry of a new planet.
pub fn registry_new(kinds: u32, counts: &FnvHashMap<u32, u32>) -> (m: FnvHashMap<u32, Building>)
    ensures
        registry_started(m@, kinds, counts@),
        registry_wf(m@, kinds),
{
    let mut m: FnvHashMap<u32, Building> = FnvHashMap::default();
    let mut code: u32 = 0;
    while code < kinds
        invariant
            code <= kinds,
            registry_started(m@, code, counts@),
            registry_wf(m@, kinds),
        decreases kinds - code,
    {
        let n: u32 = crate::defs::amount_of(counts, code);
        map_insert(&mut m, code, Building::new(n));
        code = code + 1;
    }
    m
}

} // verus!
