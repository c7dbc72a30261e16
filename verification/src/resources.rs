//! The resource ledger: what is in stock of each resource, and the net
//! change that the current day has brought so far.

use crate::defs::{amount_at, amount_of, BuildingAttrs, ResourceKind, StartParams};
use crate::fnv_map::{map_get, map_insert};
use fnv::FnvHashMap;
use vstd::prelude::*;

verus! {

/// The largest stock the ledger can hold.
pub const STOCK_MAX: u64 = 0xffff_ffff_ffff_ffff;

/// A ledger as a mathematical value: for each resource its stock and the
/// day's change.
pub struct Ledger {
    pub stock: Map<ResourceKind, int>,
    pub diff: Map<ResourceKind, int>,
}

/// A stock after a change that would have brought it to `v`: never below
/// zero, never above what the ledger can hold.
pub open spec fn clamp_stock(v: int) -> int {
    if v < 0 {
        0
    } else if v > STOCK_MAX {
        STOCK_MAX as int
    } else {
        v
    }
}

/// A day's change that would have come to `v`, kept in the range of `i64`.
pub open spec fn clamp_diff(v: int) -> int {
    if v < i64::MIN {
        i64::MIN as int
    } else if v > i64::MAX {
        i64::MAX as int
    } else {
        v
    }
}

impl Ledger {
    /// The ledger after `amount` of `kind` was added (taken away, where
    /// `amount` is negative).
    pub open spec fn add(self, kind: ResourceKind, amount: int) -> Ledger {
        Ledger {
            stock: self.stock.insert(kind, clamp_stock(self.stock[kind] + amount)),
            diff: self.diff.insert(kind, clamp_diff(self.diff[kind] + amount)),
        }
    }

    /// The ledger with the day's change of `kind` overwritten.
    pub open spec fn set_diff(self, kind: ResourceKind, amount: int) -> Ledger {
        Ledger { stock: self.stock, diff: self.diff.insert(kind, amount) }
    }

    /// The ledger at the start of a day: stocks as they are, no change yet.
    pub open spec fn reset_diffs(self) -> Ledger {
        Ledger { stock: self.stock, diff: Map::total(|k: ResourceKind| 0int) }
    }

    /// The ledger after each of `adds` was added in turn.
    pub open spec fn add_all(self, adds: Seq<(ResourceKind, int)>) -> Ledger
        decreases adds.len(),
    {
        if adds.len() == 0 {
            self
        } else {
            self.add_all(adds.drop_last()).add(adds.last().0, adds.last().1)
        }
    }

    /// The ledger after one day of one building: of each resource first
    /// the upkeep is taken, as far as the stock goes, then what the building
    /// produces is added. Both maps give amounts by resource code.
    pub open spec fn run(self, upkeep: Map<u32, u32>, produces: Map<u32, u32>) -> Ledger {
        Ledger {
            stock: Map::total(
                |k: ResourceKind|
                    clamp_stock(
                        clamp_stock(self.stock[k] - amount_at(upkeep, k.spec_code())) + amount_at(
                            produces,
                            k.spec_code(),
                        ),
                    ),
            ),
            diff: Map::total(
                |k: ResourceKind|
                    clamp_diff(
                        clamp_diff(self.diff[k] - amount_at(upkeep, k.spec_code())) + amount_at(
                            produces,
                            k.spec_code(),
                        ),
                    ),
            ),
        }
    }

    /// The ledger after one day of `times` buildings of one kind, one
    /// after the other.
    pub open spec fn run_times(
        self,
        upkeep: Map<u32, u32>,
        produces: Map<u32, u32>,
        times: nat,
    ) -> Ledger
        decreases times,
    {
        if times == 0 {
            self
        } else {
            self.run_times(upkeep, produces, (times - 1) as nat).run(upkeep, produces)
        }
    }

    /// Every resource has a stock of zero or more.
    pub open spec fn non_negative(self) -> bool {
        forall|k: ResourceKind| #[trigger] self.stock[k] >= 0
    }
}

/// What a map of stocks holds for the key `code`: zero where it holds
/// nothing.
pub open spec fn stock_at(m: Map<u32, u64>, code: u32) -> int {
    if m.contains_key(code) {
        m[code] as int
    } else {
        0
    }
}

/// What a map of changes holds for the key `code`: zero where it holds
/// nothing.
pub open spec fn diff_at(m: Map<u32, i64>, code: u32) -> int {
    if m.contains_key(code) {
        m[code] as int
    } else {
        0
    }
}

/// What an `add` did besides changing the numbers.
#[derive(Clone, Copy, Debug, PartialEq, Eq, Structural)]
pub enum AddOutcome {
    /// The stock changed by the full amount.
    Applied,
    /// More was taken than was in stock; the stock is now zero.
    Depleted,
    /// More was added than the ledger can hold; the stock is at its maximum.
    Capped,
}

/// The ledger. A resource that a map does not hold counts as zero.
#[derive(Clone, Debug)]
pub struct Resources {
    pub stock: FnvHashMap<u32, u64>,
    pub diff: FnvHashMap<u32, i64>,
}

impl View for Resources {
    type V = Ledger;

    open spec fn view(&self) -> Ledger {
        Ledger {
            stock: Map::total(|k: ResourceKind| stock_at(self.stock@, k.spec_code())),
            diff: Map::total(|k: ResourceKind| diff_at(self.diff@, k.spec_code())),
        }
    }
}

impl Resources {
    /// A ledger with nothing in stock.
    pub fn empty() -> (r: Resources)
        ensures
            r.stock@ == Map::<u32, u64>::empty(),
            r.diff@ == Map::<u32, i64>::empty(),
            r@ == (Ledger {
                stock: Map::total(|k: ResourceKind| 0int),
                diff: Map::total(|k: ResourceKind| 0int),
            }),
    {
        let r = Resources { stock: FnvHashMap::default(), diff: FnvHashMap::default() };
        assert(r@.stock =~= Map::total(|k: ResourceKind| 0int));
        assert(r@.diff =~= Map::total(|k: ResourceKind| 0int));
        r
    }

    /// The ledger of a new planet: the stock that `start_params` gives,
    /// and no change yet.
    pub fn new(start_params: &StartParams) -> (r: Resources)
        ensures
            r@ == (Ledger {
                stock: Map::total(
                    |k: ResourceKind| stock_at(start_params.resources@, k.spec_code()),
                ),
                diff: Map::total(|k: ResourceKind| 0int),
            }),
    {
        let mut r = Resources::empty();
        let kinds = ResourceKind::all();
        let mut i: usize = 0;
        while i < kinds.len()
            invariant
                i <= kinds.len(),
                kinds@ == ResourceKind::spec_all(),
                r.diff@ == Map::<u32, i64>::empty(),
                forall|k: ResourceKind|
                    #[trigger] r@.stock[k] == (if k.spec_code() < i {
                        stock_at(start_params.resources@, k.spec_code())
                    } else {
                        0
                    }),
            decreases kinds.len() - i,
        {
            let kind = kinds[i];
            let amount: u64 = match map_get(&start_params.resources, kind.code()) {
                Some(v) => *v,
                None => 0,
            };
            let ghost before = r@;
            map_insert(&mut r.stock, kind.code(), amount);
            proof {
                lemma_codes_differ();
                assert forall|k: ResourceKind|
                    #[trigger] r@.stock[k] == (if k.spec_code() < i + 1 {
                        stock_at(start_params.resources@, k.spec_code())
                    } else {
                        0
                    }) by {
                    assert(before.stock[k] == (if k.spec_code() < i {
                        stock_at(start_params.resources@, k.spec_code())
                    } else {
                        0
                    }));
                    k.lemma_all_complete();
                }
            }
            i = i + 1;
        }
        proof {
            assert(r@.stock =~= Map::total(
                |k: ResourceKind| stock_at(start_params.resources@, k.spec_code()),
            )) by {
                assert forall|k: ResourceKind|
                    #[trigger] r@.stock[k] == stock_at(
                        start_params.resources@,
                        k.spec_code(),
                    ) by {
                    k.lemma_all_complete();
                }
            }
            assert(r@.diff =~= Map::total(|k: ResourceKind| 0int));
        }
        r
    }

    /// The stock of `kind`.
    pub fn stock_of(&self, kind: ResourceKind) -> (v: u64)
        ensures
            v == self@.stock[kind],
    {
        match map_get(&self.stock, kind.code()) {
            Some(v) => *v,
            None => 0,
        }
    }

    /// The change that the day has brought to `kind` so far.
    pub fn diff_of(&self, kind: ResourceKind) -> (v: i64)
        ensures
            v == self@.diff[kind],
    {
        match map_get(&self.diff, kind.code()) {
            Some(v) => *v,
            None => 0,
        }
    }

    /// Every resource, by rising code, with its stock and the change that
    /// the day has brought to it so far.
    pub fn entries(&self) -> (v: Vec<(ResourceKind, u64, i64)>)
        ensures
            v@ == Seq::new(
                ResourceKind::spec_all().len(),
                |i: int|
                    (
                        ResourceKind::spec_all()[i],
                        self@.stock[ResourceKind::spec_all()[i]] as u64,
                        self@.diff[ResourceKind::spec_all()[i]] as i64,
                    ),
            ),
    {
        let kinds = ResourceKind::all();
        let mut v: Vec<(ResourceKind, u64, i64)> = Vec::new();
        let mut i: usize = 0;
        while i < kinds.len()
            invariant
                i <= kinds.len(),
                kinds@ == ResourceKind::spec_all(),
                v@.len() == i,
                forall|j: int|
                    0 <= j < i ==> #[trigger] v@[j] == (
                        kinds@[j],
                        self@.stock[kinds@[j]] as u64,
                        self@.diff[kinds@[j]] as i64,
                    ),
            decreases kinds.len() - i,
        {
            let kind = kinds[i];
            v.push((kind, self.stock_of(kind), self.diff_of(kind)));
            i = i + 1;
        }
        assert(v@ =~= Seq::new(
            ResourceKind::spec_all().len(),
            |i: int|
                (
                    ResourceKind::spec_all()[i],
                    self@.stock[ResourceKind::spec_all()[i]] as u64,
                    self@.diff[ResourceKind::spec_all()[i]] as i64,
                ),
        ));
        v
    }

    /// Adds `amount` of `kind` to the stock, or takes it away where
    /// `amount` is negative, and counts it into the day's change. The stock
    /// stops at zero and at `STOCK_MAX`; the result says whether it did.
    pub fn add(&mut self, kind: ResourceKind, amount: i64) -> (outcome: AddOutcome)
        ensures
            final(self)@ == old(self)@.add(kind, amount as int),
            final(self).stock@ == old(self).stock@.insert(
                kind.spec_code(),
                clamp_stock(old(self)@.stock[kind] + amount) as u64,
            ),
            final(self).diff@ == old(self).diff@.insert(
                kind.spec_code(),
                clamp_diff(old(self)@.diff[kind] + amount) as i64,
            ),
            outcome == (if old(self)@.stock[kind] + amount < 0 {
                AddOutcome::Depleted
            } else if old(self)@.stock[kind] + amount > STOCK_MAX {
                AddOutcome::Capped
            } else {
                AddOutcome::Applied
            }),
    {
        let code: u32 = kind.code();
        let stock: u64 = self.stock_of(kind);
        let diff: i64 = self.diff_of(kind);
        let wide: i128 = stock as i128 + amount as i128;
        let (new_stock, outcome): (u64, AddOutcome) = if wide < 0 {
            (0, AddOutcome::Depleted)
        } else if wide > STOCK_MAX as i128 {
            (STOCK_MAX, AddOutcome::Capped)
        } else {
            (wide as u64, AddOutcome::Applied)
        };
        let wide_diff: i128 = diff as i128 + amount as i128;
        let new_diff: i64 = if wide_diff < i64::MIN as i128 {
            i64::MIN
        } else if wide_diff > i64::MAX as i128 {
            i64::MAX
        } else {
            wide_diff as i64
        };
        map_insert(&mut self.stock, code, new_stock);
        map_insert(&mut self.diff, code, new_diff);
        proof {
            lemma_codes_differ();
            assert(self@.stock =~= old(self)@.add(kind, amount as int).stock);
            assert(self@.diff =~= old(self)@.add(kind, amount as int).diff);
        }
        outcome
    }

    /// One day of one building: takes its upkeep of each resource, as far
    /// as the stock goes, and then adds what it produces.
    pub fn run_building(&mut self, attrs: &BuildingAttrs)
        ensures
            final(self)@ == old(self)@.run(attrs.upkeep@, attrs.produces@),
    {
        let kinds = ResourceKind::all();
        let ghost start = self@;
        let ghost goal = start.run(attrs.upkeep@, attrs.produces@);
        let mut i: usize = 0;
        while i < kinds.len()
            invariant
                i <= kinds.len(),
                kinds@ == ResourceKind::spec_all(),
                start == old(self)@,
                goal == start.run(attrs.upkeep@, attrs.produces@),
                forall|k: ResourceKind|
                    #[trigger] self@.stock[k] == (if k.spec_code() < i {
                        goal.stock[k]
                    } else {
                        start.stock[k]
                    }),
                forall|k: ResourceKind|
                    #[trigger] self@.diff[k] == (if k.spec_code() < i {
                        goal.diff[k]
                    } else {
                        start.diff[k]
                    }),
            decreases kinds.len() - i,
        {
            let kind = kinds[i];
            let upkeep: u32 = amount_of(&attrs.upkeep, kind.code());
            let produces: u32 = amount_of(&attrs.produces, kind.code());
            let ghost before = self@;
            self.add(kind, -(upkeep as i64));
            self.add(kind, produces as i64);
            proof {
                lemma_codes_differ();
                kind.lemma_all_complete();
                assert forall|k: ResourceKind|
                    #[trigger] self@.stock[k] == (if k.spec_code() < i + 1 {
                        goal.stock[k]
                    } else {
                        start.stock[k]
                    }) by {
                    assert(before.stock[k] == (if k.spec_code() < i {
                        goal.stock[k]
                    } else {
                        start.stock[k]
                    }));
                    k.lemma_all_complete();
                }
                assert forall|k: ResourceKind|
                    #[trigger] self@.diff[k] == (if k.spec_code() < i + 1 {
                        goal.diff[k]
                    } else {
                        start.diff[k]
                    }) by {
                    assert(before.diff[k] == (if k.spec_code() < i {
                        goal.diff[k]
                    } else {
                        start.diff[k]
                    }));
                    k.lemma_all_complete();
                }
            }
            i = i + 1;
        }
        proof {
            assert forall|k: ResourceKind| #[trigger] self@.stock[k] == goal.stock[k] by {
                k.lemma_all_complete();
            }
            assert forall|k: ResourceKind| #[trigger] self@.diff[k] == goal.diff[k] by {
                k.lemma_all_complete();
            }
            assert(self@.stock =~= goal.stock);
            assert(self@.diff =~= goal.diff);
        }
    }

    /// One day of `times` buildings of one kind, one after the other.
    pub fn run_building_times(&mut self, attrs: &BuildingAttrs, times: u32)
        ensures
            final(self)@ == old(self)@.run_times(attrs.upkeep@, attrs.produces@, times as nat),
    {
        let mut done: u32 = 0;
        while done < times
            invariant
                done <= times,
                self@ == old(self)@.run_times(attrs.upkeep@, attrs.produces@, done as nat),
            decreases times - done,
        {
            self.run_building(attrs);
            done = done + 1;
        }
    }

    /// Overwrites the day's change of `kind`.
    pub fn set_diff(&mut self, kind: ResourceKind, amount: i64)
        ensures
            final(self)@ == old(self)@.set_diff(kind, amount as int),
            final(self).stock@ == old(self).stock@,
            final(self).diff@ == old(self).diff@.insert(kind.spec_code(), amount),
    {
        map_insert(&mut self.diff, kind.code(), amount);
        proof {
            lemma_codes_differ();
            assert(self@.stock =~= old(self)@.stock);
            assert(self@.diff =~= old(self)@.set_diff(kind, amount as int).diff);
        }
    }

    /// Starts a day: forgets the change of the day before.
    pub fn reset_diffs(&mut self)
        ensures
            final(self)@ == old(self)@.reset_diffs(),
            final(self).stock@ == old(self).stock@,
            final(self).diff@ == Map::<u32, i64>::empty(),
    {
        self.diff = FnvHashMap::default();
        proof {
            assert(self@.stock =~= old(self)@.stock);
            assert(self@.diff =~= old(self)@.reset_diffs().diff);
        }
    }
}

/// Whatever is added or taken away, and in whatever order, no stock falls
/// below zero.
pub proof fn lemma_stock_never_negative(start: Ledger, adds: Seq<(ResourceKind, int)>)
    requires
        start.non_negative(),
    ensures
        start.add_all(adds).non_negative(),
    decreases adds.len(),
{
    if adds.len() > 0 {
        lemma_stock_never_negative(start, adds.drop_last());
        let before = start.add_all(adds.drop_last());
        let after = start.add_all(adds);
        assert forall|k: ResourceKind| #[trigger] after.stock[k] >= 0 by {
            assert(before.stock[k] >= 0);
        }
    }
}

/// The ledger that a `Resources` stands for has no stock below zero.
pub proof fn lemma_resources_non_negative(r: Resources)
    ensures
        r@.non_negative(),
{
}

/// What a building with this upkeep and production adds to the stock of
/// `kind` in a day, if the stock covers the upkeep: what it produces less
/// what it takes.
pub open spec fn net_of(upkeep: Map<u32, u32>, produces: Map<u32, u32>, kind: ResourceKind) -> int {
    amount_at(produces, kind.spec_code()) - amount_at(upkeep, kind.spec_code())
}

/// What a building with this upkeep and production moves of `kind` in a
/// day: what it takes and what it produces together.
pub open spec fn gross_of(
    upkeep: Map<u32, u32>,
    produces: Map<u32, u32>,
    kind: ResourceKind,
) -> int {
    amount_at(produces, kind.spec_code()) + amount_at(upkeep, kind.spec_code())
}

/// While the day's change stays in range, one day of one building changes
/// it by exactly what the building produces less what it takes, whether or
/// not the stock covered the upkeep.
pub proof fn lemma_run_diff(
    ledger: Ledger,
    upkeep: Map<u32, u32>,
    produces: Map<u32, u32>,
    kind: ResourceKind,
    bound: int,
)
    requires
        -bound <= ledger.diff[kind] <= bound,
        bound + gross_of(upkeep, produces, kind) <= i64::MAX,
    ensures
        ledger.run(upkeep, produces).diff[kind] == ledger.diff[kind] + net_of(
            upkeep,
            produces,
            kind,
        ),
        -(bound + gross_of(upkeep, produces, kind)) <= ledger.run(upkeep, produces).diff[kind]
            <= bound + gross_of(upkeep, produces, kind),
{
}

/// The same for `times` buildings of one kind.
pub proof fn lemma_run_times_diff(
    ledger: Ledger,
    upkeep: Map<u32, u32>,
    produces: Map<u32, u32>,
    times: nat,
    kind: ResourceKind,
    bound: int,
)
    requires
        -bound <= ledger.diff[kind] <= bound,
        bound + times * gross_of(upkeep, produces, kind) <= i64::MAX,
    ensures
        ledger.run_times(upkeep, produces, times).diff[kind] == ledger.diff[kind] + times * net_of(
            upkeep,
            produces,
            kind,
        ),
        -(bound + times * gross_of(upkeep, produces, kind)) <= ledger.run_times(
            upkeep,
            produces,
            times,
        ).diff[kind] <= bound + times * gross_of(upkeep, produces, kind),
    decreases times,
{
    let gross = gross_of(upkeep, produces, kind);
    let net = net_of(upkeep, produces, kind);
    if times > 0 {
        let fewer = (times - 1) as nat;
        assert(times * gross == fewer * gross + gross && times * net == fewer * net + net
            && fewer * gross >= 0) by (nonlinear_arith)
            requires
                fewer == times - 1,
                gross >= 0,
        ;
        lemma_run_times_diff(ledger, upkeep, produces, fewer, kind, bound);
        lemma_run_diff(
            ledger.run_times(upkeep, produces, fewer),
            upkeep,
            produces,
            kind,
            bound + fewer * gross,
        );
    } else {
        assert(times * gross == 0 && times * net == 0) by (nonlinear_arith)
            requires
                times == 0,
        ;
    }
}

/// Different resources have different codes.
pub proof fn lemma_codes_differ()
    ensures
        forall|a: ResourceKind, b: ResourceKind|
            #[trigger] a.spec_code() == #[trigger] b.spec_code() ==> a == b,
{
}

} // verus!
