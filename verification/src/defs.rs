//! The closed sets of kinds, and the static catalogs that describe them.

use crate::atmo::Atmosphere;
use crate::coords::Coords;
use crate::error::PlanetError;
use crate::fnv_map::map_get;
use fnv::FnvHashMap;
use vstd::prelude::*;

verus! {

/// The terrain of a tile.
#[derive(Clone, Copy, Debug, PartialEq, Eq, Structural, Hash)]
pub enum Biome {
    Rock,
    Ocean,
    Ice,
    Desert,
    Grassland,
}

/// What is traded in the ledger.
#[derive(Clone, Copy, Debug, PartialEq, Eq, Structural, Hash)]
pub enum ResourceKind {
    Energy,
    Material,
    Ice,
    Carbon,
    Nitrogen,
}

/// What can be chosen to stand on the surface; `Empty` chooses nothing.
#[derive(Clone, Copy, Debug, PartialEq, Eq, Structural, Hash)]
pub enum StructureKind {
    Empty,
    OxygenGenerator,
    FertilizationPlant,
    Heater,
}

/// What a tile holds: nothing, a structure anchored on it, or a part of a
/// structure anchored on the tile `by`.
#[derive(Clone, Copy, Debug, PartialEq, Eq, Structural, Hash)]
pub enum Structure {
    Empty,
    Occupied { by: Coords },
    OxygenGenerator,
    FertilizationPlant,
    Heater,
}

/// The facilities in orbit.
#[derive(Clone, Copy, Debug, PartialEq, Eq, Structural, Hash)]
pub enum OrbitalBuildingKind {
    FusionReactor,
    SolarMirror,
}

/// The facilities elsewhere in the star system.
#[derive(Clone, Copy, Debug, PartialEq, Eq, Structural, Hash)]
pub enum StarSystemBuildingKind {
    AsteroidMiningStation,
    DysonSwarmUnit,
}

impl ResourceKind {
    /// The key under which maps hold this kind.
    pub open spec fn spec_code(self) -> u32 {
        match self {
            ResourceKind::Energy => 0,
            ResourceKind::Material => 1,
            ResourceKind::Ice => 2,
            ResourceKind::Carbon => 3,
            ResourceKind::Nitrogen => 4,
        }
    }

    /// Every kind, by rising code.
    pub open spec fn spec_all() -> Seq<ResourceKind> {
        seq![
            ResourceKind::Energy,
            ResourceKind::Material,
            ResourceKind::Ice,
            ResourceKind::Carbon,
            ResourceKind::Nitrogen,
        ]
    }

    /// The key under which maps hold this kind.
    #[verifier::when_used_as_spec(spec_code)]
    pub fn code(self) -> (c: u32)
        ensures
            c == self.spec_code(),
    {
        match self {
            ResourceKind::Energy => 0,
            ResourceKind::Material => 1,
            ResourceKind::Ice => 2,
            ResourceKind::Carbon => 3,
            ResourceKind::Nitrogen => 4,
        }
    }

    /// Every kind, by rising code.
    pub fn all() -> (v: Vec<ResourceKind>)
        ensures
            v@ == Self::spec_all(),
    {
        let v = vec![
            ResourceKind::Energy,
            ResourceKind::Material,
            ResourceKind::Ice,
            ResourceKind::Carbon,
            ResourceKind::Nitrogen,
        ];
        assert(v@ =~= Self::spec_all());
        v
    }

    /// The kind that `code` stands for, if it stands for one.
    pub fn from_code(code: u32) -> (k: Option<ResourceKind>)
        ensures
            code < 5 ==> k is Some && k->Some_0.spec_code() == code,
            code >= 5 ==> k is None,
    {
        match code {
            0 => Some(ResourceKind::Energy),
            1 => Some(ResourceKind::Material),
            2 => Some(ResourceKind::Ice),
            3 => Some(ResourceKind::Carbon),
            4 => Some(ResourceKind::Nitrogen),
            _ => None,
        }
    }

    /// The list of kinds names each kind once, at the place that its code
    /// gives; so two kinds with one code are one kind.
    pub proof fn lemma_all_complete(self)
        ensures
            Self::spec_all().len() == 5,
            0 <= self.spec_code() < 5,
            Self::spec_all()[self.spec_code() as int] == self,
    {
    }
}

impl StructureKind {
    /// The key under which maps hold this kind.
    pub open spec fn spec_code(self) -> u32 {
        match self {
            StructureKind::Empty => 0,
            StructureKind::OxygenGenerator => 1,
            StructureKind::FertilizationPlant => 2,
            StructureKind::Heater => 3,
        }
    }

    /// Every kind, by rising code.
    pub open spec fn spec_all() -> Seq<StructureKind> {
        seq![
            StructureKind::Empty,
            StructureKind::OxygenGenerator,
            StructureKind::FertilizationPlant,
            StructureKind::Heater,
        ]
    }

    /// The key under which maps hold this kind.
    #[verifier::when_used_as_spec(spec_code)]
    pub fn code(self) -> (c: u32)
        ensures
            c == self.spec_code(),
    {
        match self {
            StructureKind::Empty => 0,
            StructureKind::OxygenGenerator => 1,
            StructureKind::FertilizationPlant => 2,
            StructureKind::Heater => 3,
        }
    }

    /// Every kind, by rising code.
    pub fn all() -> (v: Vec<StructureKind>)
        ensures
            v@ == Self::spec_all(),
    {
        let v = vec![
            StructureKind::Empty,
            StructureKind::OxygenGenerator,
            StructureKind::FertilizationPlant,
            StructureKind::Heater,
        ];
        assert(v@ =~= Self::spec_all());
        v
    }

    /// The kind that `code` stands for, if it stands for one.
    pub fn from_code(code: u32) -> (k: Option<StructureKind>)
        ensures
            code < 4 ==> k is Some && k->Some_0.spec_code() == code,
            code >= 4 ==> k is None,
    {
        match code {
            0 => Some(StructureKind::Empty),
            1 => Some(StructureKind::OxygenGenerator),
            2 => Some(StructureKind::FertilizationPlant),
            3 => Some(StructureKind::Heater),
            _ => None,
        }
    }

    /// The list of kinds names each kind once, at the place that its code
    /// gives; so two kinds with one code are one kind.
    pub proof fn lemma_all_complete(self)
        ensures
            Self::spec_all().len() == 4,
            0 <= self.spec_code() < 4,
            Self::spec_all()[self.spec_code() as int] == self,
    {
    }
}

impl OrbitalBuildingKind {
    /// The key under which maps hold this kind.
    pub open spec fn spec_code(self) -> u32 {
        match self {
            OrbitalBuildingKind::FusionReactor => 0,
            OrbitalBuildingKind::SolarMirror => 1,
        }
    }

    /// Every kind, by rising code.
    pub open spec fn spec_all() -> Seq<OrbitalBuildingKind> {
        seq![
            OrbitalBuildingKind::FusionReactor,
            OrbitalBuildingKind::SolarMirror,
        ]
    }

    /// The key under which maps hold this kind.
    #[verifier::when_used_as_spec(spec_code)]
    pub fn code(self) -> (c: u32)
        ensures
            c == self.spec_code(),
    {
        match self {
            OrbitalBuildingKind::FusionReactor => 0,
            OrbitalBuildingKind::SolarMirror => 1,
        }
    }

    /// Every kind, by rising code.
    pub fn all() -> (v: Vec<OrbitalBuildingKind>)
        ensures
            v@ == Self::spec_all(),
    {
        let v = vec![
            OrbitalBuildingKind::FusionReactor,
            OrbitalBuildingKind::SolarMirror,
        ];
        assert(v@ =~= Self::spec_all());
        v
    }

    /// The kind that `code` stands for, if it stands for one.
    pub fn from_code(code: u32) -> (k: Option<OrbitalBuildingKind>)
        ensures
            code < 2 ==> k is Some && k->Some_0.spec_code() == code,
            code >= 2 ==> k is None,
    {
        match code {
            0 => Some(OrbitalBuildingKind::FusionReactor),
            1 => Some(OrbitalBuildingKind::SolarMirror),
            _ => None,
        }
    }

    /// The list of kinds names each kind once, at the place that its code
    /// gives; so two kinds with one code are one kind.
    pub proof fn lemma_all_complete(self)
        ensures
            Self::spec_all().len() == 2,
            0 <= self.spec_code() < 2,
            Self::spec_all()[self.spec_code() as int] == self,
    {
    }
}

impl StarSystemBuildingKind {
    /// The key under which maps hold this kind.
    pub open spec fn spec_code(self) -> u32 {
        match self {
            StarSystemBuildingKind::AsteroidMiningStation => 0,
            StarSystemBuildingKind::DysonSwarmUnit => 1,
        }
    }

    /// Every kind, by rising code.
    pub open spec fn spec_all() -> Seq<StarSystemBuildingKind> {
        seq![
            StarSystemBuildingKind::AsteroidMiningStation,
            StarSystemBuildingKind::DysonSwarmUnit,
        ]
    }

    /// The key under which maps hold this kind.
    #[verifier::when_used_as_spec(spec_code)]
    pub fn code(self) -> (c: u32)
        ensures
            c == self.spec_code(),
    {
        match self {
            StarSystemBuildingKind::AsteroidMiningStation => 0,
            StarSystemBuildingKind::DysonSwarmUnit => 1,
        }
    }

    /// Every kind, by rising code.
    pub fn all() -> (v: Vec<StarSystemBuildingKind>)
        ensures
            v@ == Self::spec_all(),
    {
        let v = vec![
            StarSystemBuildingKind::AsteroidMiningStation,
            StarSystemBuildingKind::DysonSwarmUnit,
        ];
        assert(v@ =~= Self::spec_all());
        v
    }

    /// The kind that `code` stands for, if it stands for one.
    pub fn from_code(code: u32) -> (k: Option<StarSystemBuildingKind>)
        ensures
            code < 2 ==> k is Some && k->Some_0.spec_code() == code,
            code >= 2 ==> k is None,
    {
        match code {
            0 => Some(StarSystemBuildingKind::AsteroidMiningStation),
            1 => Some(StarSystemBuildingKind::DysonSwarmUnit),
            _ => None,
        }
    }

    /// The list of kinds names each kind once, at the place that its code
    /// gives; so two kinds with one code are one kind.
    pub proof fn lemma_all_complete(self)
        ensures
            Self::spec_all().len() == 2,
            0 <= self.spec_code() < 2,
            Self::spec_all()[self.spec_code() as int] == self,
    {
    }
}

impl Structure {
    /// The kind of the structure that is anchored here, if one is.
    pub open spec fn spec_kind(self) -> Option<StructureKind> {
        match self {
            Structure::Empty => None,
            Structure::Occupied { by } => None,
            Structure::OxygenGenerator => Some(StructureKind::OxygenGenerator),
            Structure::FertilizationPlant => Some(StructureKind::FertilizationPlant),
            Structure::Heater => Some(StructureKind::Heater),
        }
    }

    /// Whether this is a structure itself, neither nothing nor a part of a
    /// structure anchored elsewhere.
    pub open spec fn spec_is_building(self) -> bool {
        self.spec_kind() is Some
    }

    /// The kind of the structure that is anchored here, if one is.
    #[verifier::when_used_as_spec(spec_kind)]
    pub fn kind(self) -> (k: Option<StructureKind>)
        ensures
            k == self.spec_kind(),
    {
        match self {
            Structure::Empty => None,
            Structure::Occupied { by } => None,
            Structure::OxygenGenerator => Some(StructureKind::OxygenGenerator),
            Structure::FertilizationPlant => Some(StructureKind::FertilizationPlant),
            Structure::Heater => Some(StructureKind::Heater),
        }
    }

    /// Whether this is a structure itself.
    #[verifier::when_used_as_spec(spec_is_building)]
    pub fn is_building(self) -> (b: bool)
        ensures
            b == self.spec_is_building(),
    {
        self.kind().is_some()
    }

    /// Whether the tile is free.
    pub fn is_empty(self) -> (b: bool)
        ensures
            b == (self == Structure::Empty),
    {
        match self {
            Structure::Empty => true,
            _ => false,
        }
    }
}

/// What a map of amounts holds for the key `code`: zero where it holds
/// nothing.
pub open spec fn amount_at(m: Map<u32, u32>, code: u32) -> int {
    if m.contains_key(code) {
        m[code] as int
    } else {
        0
    }
}

/// What a map of amounts holds for the key `code`: zero where it holds
/// nothing.
pub fn amount_of(m: &FnvHashMap<u32, u32>, code: u32) -> (v: u32)
    ensures
        v == amount_at(m@, code),
{
    match map_get(m, code) {
        Some(v) => *v,
        None => 0,
    }
}

/// The resources that a map of amounts holds, by rising code, each with
/// its amount.
pub open spec fn amounts_listed(m: Map<u32, u32>) -> Seq<(ResourceKind, u32)> {
    ResourceKind::spec_all().filter(|k: ResourceKind| m.contains_key(k.spec_code())).map_values(
        |k: ResourceKind| (k, m[k.spec_code()]),
    )
}

/// The resources that a map of amounts holds, by rising code, each with
/// its amount.
pub fn amounts_of(m: &FnvHashMap<u32, u32>) -> (v: Vec<(ResourceKind, u32)>)
    ensures
        v@ == amounts_listed(m@),
{
    let kinds = ResourceKind::all();
    let mut v: Vec<(ResourceKind, u32)> = Vec::new();
    let ghost held = |k: ResourceKind| m@.contains_key(k.spec_code());
    let ghost entry = |k: ResourceKind| (k, m@[k.spec_code()]);
    let mut i: usize = 0;
    while i < kinds.len()
        invariant
            i <= kinds.len(),
            kinds@ == ResourceKind::spec_all(),
            held == |k: ResourceKind| m@.contains_key(k.spec_code()),
            entry == |k: ResourceKind| (k, m@[k.spec_code()]),
            v@ == kinds@.take(i as int).filter(held).map_values(entry),
        decreases kinds.len() - i,
    {
        let kind = kinds[i];
        proof {
            assert(kinds@.take(i + 1).drop_last() =~= kinds@.take(i as int));
            reveal(Seq::filter);
        }
        match map_get(m, kind.code()) {
            Some(amount) => {
                v.push((kind, *amount));
                assert(v@ =~= kinds@.take(i + 1).filter(held).map_values(entry));
            },
            None => {},
        }
        i = i + 1;
    }
    assert(kinds@.take(i as int) =~= kinds@);
    v
}

/// What a building costs to make, what it takes each day and what it gives
/// each day, each as amounts by resource code.
#[derive(Clone, Debug)]
pub struct BuildingAttrs {
    pub cost: FnvHashMap<u32, u32>,
    pub upkeep: FnvHashMap<u32, u32>,
    pub produces: FnvHashMap<u32, u32>,
}

/// What the catalog says of a kind of surface structure.
#[derive(Clone, Debug)]
pub struct StructureAttrs {
    /// The side of the square of tiles that the structure covers.
    pub size: u32,
    pub building: BuildingAttrs,
    /// How much the structure does each day to the tile it is anchored on
    /// or to the air: oxygen released by a generator, biomass grown by a
    /// fertilization plant, millikelvin added by a heater.
    pub effect: u32,
}

/// The static catalogs, by the codes of the kinds.
#[derive(Clone, Debug)]
pub struct Params {
    pub structures: FnvHashMap<u32, StructureAttrs>,
    pub orbital_buildings: FnvHashMap<u32, BuildingAttrs>,
    pub star_system_buildings: FnvHashMap<u32, BuildingAttrs>,
}

/// What is fixed of a planet when it is made.
#[derive(Clone, Copy, Debug, PartialEq, Eq, Structural)]
pub struct PlanetBasics {
    /// The radius in metres.
    pub radius: u32,
}

/// The state that a new planet starts from.
#[derive(Clone, Debug)]
pub struct StartParams {
    pub basics: PlanetBasics,
    /// The stock at the start, by resource code.
    pub resources: FnvHashMap<u32, u64>,
    pub atmo: Atmosphere,
    /// How many facilities of each kind are in orbit at the start, by code.
    pub orbital_buildings: FnvHashMap<u32, u32>,
    /// The same for the star system.
    pub star_system_buildings: FnvHashMap<u32, u32>,
}

impl BuildingAttrs {
    /// A building that costs, takes and gives nothing.
    pub fn new() -> (a: BuildingAttrs)
        ensures
            a.cost@ == Map::<u32, u32>::empty(),
            a.upkeep@ == Map::<u32, u32>::empty(),
            a.produces@ == Map::<u32, u32>::empty(),
    {
        BuildingAttrs {
            cost: FnvHashMap::default(),
            upkeep: FnvHashMap::default(),
            produces: FnvHashMap::default(),
        }
    }
}

impl Params {
    /// The catalog describes every kind that can be built.
    pub open spec fn wf(&self) -> bool {
        &&& forall|k: StructureKind|
            k != StructureKind::Empty ==> #[trigger] self.structures@.contains_key(k.spec_code())
        &&& forall|k: OrbitalBuildingKind| #[trigger]
            self.orbital_buildings@.contains_key(k.spec_code())
        &&& forall|k: StarSystemBuildingKind| #[trigger]
            self.star_system_buildings@.contains_key(k.spec_code())
    }

    /// Catalogs that describe nothing yet.
    pub fn new() -> (p: Params)
        ensures
            p.structures@ == Map::<u32, StructureAttrs>::empty(),
            p.orbital_buildings@ == Map::<u32, BuildingAttrs>::empty(),
            p.star_system_buildings@ == Map::<u32, BuildingAttrs>::empty(),
    {
        Params {
            structures: FnvHashMap::default(),
            orbital_buildings: FnvHashMap::default(),
            star_system_buildings: FnvHashMap::default(),
        }
    }

    /// Checks that the catalog describes every kind that can be built, and
    /// says `UnknownKind` where it misses one.
    pub fn validate(&self) -> (r: Result<(), PlanetError>)
        ensures
            self.wf() ==> r == Ok::<(), PlanetError>(()),
            !self.wf() ==> r == Err::<(), PlanetError>(PlanetError::UnknownKind),
    {
        let structures = StructureKind::all();
        let mut i: usize = 1;
        while i < structures.len()
            invariant
                1 <= i <= structures.len(),
                structures@ == StructureKind::spec_all(),
                forall|j: int|
                    1 <= j < i ==> self.structures@.contains_key(
                        #[trigger] structures@[j].spec_code(),
                    ),
            decreases structures.len() - i,
        {
            if map_get(&self.structures, structures[i].code()).is_none() {
                return Err(PlanetError::UnknownKind);
            }
            i = i + 1;
        }
        let orbital = OrbitalBuildingKind::all();
        let mut i: usize = 0;
        while i < orbital.len()
            invariant
                i <= orbital.len(),
                orbital@ == OrbitalBuildingKind::spec_all(),
                forall|j: int|
                    0 <= j < i ==> self.orbital_buildings@.contains_key(
                        #[trigger] orbital@[j].spec_code(),
                    ),
            decreases orbital.len() - i,
        {
            if map_get(&self.orbital_buildings, orbital[i].code()).is_none() {
                return Err(PlanetError::UnknownKind);
            }
            i = i + 1;
        }
        let star = StarSystemBuildingKind::all();
        let mut i: usize = 0;
        while i < star.len()
            invariant
                i <= star.len(),
                star@ == StarSystemBuildingKind::spec_all(),
                forall|j: int|
                    0 <= j < i ==> self.star_system_buildings@.contains_key(
                        #[trigger] star@[j].spec_code(),
                    ),
            decreases star.len() - i,
        {
            if map_get(&self.star_system_buildings, star[i].code()).is_none() {
                return Err(PlanetError::UnknownKind);
            }
            i = i + 1;
        }
        proof {
            assert forall|k: StructureKind| k != StructureKind::Empty implies #[trigger]
                self.structures@.contains_key(k.spec_code()) by {
                k.lemma_all_complete();
                assert(structures@[k.spec_code() as int] == k);
            }
            assert forall|k: OrbitalBuildingKind| #[trigger]
                self.orbital_buildings@.contains_key(k.spec_code()) by {
                k.lemma_all_complete();
                assert(orbital@[k.spec_code() as int] == k);
            }
            assert forall|k: StarSystemBuildingKind| #[trigger]
                self.star_system_buildings@.contains_key(k.spec_code()) by {
                k.lemma_all_complete();
                assert(star@[k.spec_code() as int] == k);
            }
        }
        Ok(())
    }
}

impl Default for PlanetBasics {
    /// A planet the size of the Earth.
    fn default() -> (b: PlanetBasics)
        ensures
            b == (PlanetBasics { radius: 6_371_000 }),
    {
        PlanetBasics { radius: 6_371_000 }
    }
}

impl Default for StartParams {
    /// A bare start: nothing in stock, no air, no facilities.
    fn default() -> (s: StartParams)
        ensures
            s.basics == (PlanetBasics { radius: 6_371_000 }),
            s.resources@ == Map::<u32, u64>::empty(),
            s.atmo == (Atmosphere { oxygen: 0, nitrogen: 0, carbon_dioxide: 0 }),
            s.orbital_buildings@ == Map::<u32, u32>::empty(),
            s.star_system_buildings@ == Map::<u32, u32>::empty(),
    {
        StartParams {
            basics: PlanetBasics { radius: 6_371_000 },
            resources: FnvHashMap::default(),
            atmo: Atmosphere { oxygen: 0, nitrogen: 0, carbon_dioxide: 0 },
            orbital_buildings: FnvHashMap::default(),
            star_system_buildings: FnvHashMap::default(),
        }
    }
}

} // verus!
