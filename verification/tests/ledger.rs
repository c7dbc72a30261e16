use planet_sim::defs::{amount_of, amounts_of, BuildingAttrs, ResourceKind, StartParams};
use planet_sim::resources::{AddOutcome, Resources, STOCK_MAX};

#[test]
fn add_accumulates_stock_and_diff() {
    let mut r = Resources::empty();
    assert_eq!(r.add(ResourceKind::Energy, 10), AddOutcome::Applied);
    assert_eq!(r.add(ResourceKind::Energy, -3), AddOutcome::Applied);
    assert_eq!(r.stock_of(ResourceKind::Energy), 7);
    assert_eq!(r.diff_of(ResourceKind::Energy), 7);
    assert_eq!(r.stock_of(ResourceKind::Material), 0);
    assert_eq!(r.diff_of(ResourceKind::Material), 0);
}

#[test]
fn add_clamps_at_zero_and_reports_depletion() {
    let mut r = Resources::empty();
    r.add(ResourceKind::Ice, 5);
    assert_eq!(r.add(ResourceKind::Ice, -8), AddOutcome::Depleted);
    assert_eq!(r.stock_of(ResourceKind::Ice), 0);
    assert_eq!(r.diff_of(ResourceKind::Ice), -3);
}

#[test]
fn add_caps_at_the_maximum() {
    let mut r = Resources::empty();
    r.stock.insert(ResourceKind::Carbon.code(), STOCK_MAX - 1);
    assert_eq!(r.add(ResourceKind::Carbon, 5), AddOutcome::Capped);
    assert_eq!(r.stock_of(ResourceKind::Carbon), STOCK_MAX);
    assert_eq!(r.diff_of(ResourceKind::Carbon), 5);
}

#[test]
fn diff_saturates_at_the_ends_of_its_range() {
    let mut r = Resources::empty();
    r.set_diff(ResourceKind::Energy, i64::MAX - 1);
    r.add(ResourceKind::Energy, 10);
    assert_eq!(r.diff_of(ResourceKind::Energy), i64::MAX);
    r.set_diff(ResourceKind::Energy, i64::MIN + 1);
    r.add(ResourceKind::Energy, -10);
    assert_eq!(r.diff_of(ResourceKind::Energy), i64::MIN);
}

#[test]
fn stock_is_never_negative_after_any_adds() {
    let mut r = Resources::empty();
    let amounts: [i64; 8] = [4, -9, 3, -1, -1, -5, 0, 2];
    for (i, amount) in amounts.iter().enumerate() {
        let kind = ResourceKind::all()[i % 2];
        r.add(kind, *amount);
        for k in ResourceKind::all() {
            // the stock is unsigned; what it must not do is wrap around
            assert!(r.stock_of(k) <= 7);
        }
    }
    assert_eq!(r.stock_of(ResourceKind::Energy), 6);
    assert_eq!(r.stock_of(ResourceKind::Material), 2);
    assert_eq!(r.diff_of(ResourceKind::Energy), 4 + 3 - 1 + 0);
    assert_eq!(r.diff_of(ResourceKind::Material), -9 - 1 - 5 + 2);
}

#[test]
fn reset_diffs_keeps_stock() {
    let mut r = Resources::empty();
    r.add(ResourceKind::Nitrogen, 4);
    r.set_diff(ResourceKind::Energy, -9);
    assert_eq!(r.diff_of(ResourceKind::Energy), -9);
    r.reset_diffs();
    assert_eq!(r.stock_of(ResourceKind::Nitrogen), 4);
    assert_eq!(r.diff_of(ResourceKind::Nitrogen), 0);
    assert_eq!(r.diff_of(ResourceKind::Energy), 0);
}

#[test]
fn new_ledger_takes_the_starting_stock() {
    let mut start = StartParams::default();
    start.resources.insert(ResourceKind::Energy.code(), 120);
    start.resources.insert(ResourceKind::Ice.code(), 7);
    let r = Resources::new(&start);
    assert_eq!(r.stock_of(ResourceKind::Energy), 120);
    assert_eq!(r.stock_of(ResourceKind::Material), 0);
    assert_eq!(r.stock_of(ResourceKind::Ice), 7);
    for k in ResourceKind::all() {
        assert_eq!(r.diff_of(k), 0);
    }
}

#[test]
fn run_building_takes_upkeep_before_it_adds_production() {
    let mut attrs = BuildingAttrs::new();
    attrs.upkeep.insert(ResourceKind::Energy.code(), 5);
    attrs.produces.insert(ResourceKind::Energy.code(), 3);
    attrs.produces.insert(ResourceKind::Material.code(), 2);
    let mut r = Resources::empty();
    r.add(ResourceKind::Energy, 4);
    r.reset_diffs();
    r.run_building(&attrs);
    // 4 - 5 stops at 0, then 3 are added
    assert_eq!(r.stock_of(ResourceKind::Energy), 3);
    assert_eq!(r.diff_of(ResourceKind::Energy), -2);
    assert_eq!(r.stock_of(ResourceKind::Material), 2);
    assert_eq!(r.diff_of(ResourceKind::Material), 2);
}

#[test]
fn run_building_times_runs_each_building_in_turn() {
    let mut attrs = BuildingAttrs::new();
    attrs.upkeep.insert(ResourceKind::Energy.code(), 5);
    attrs.produces.insert(ResourceKind::Energy.code(), 3);
    let mut r = Resources::empty();
    r.run_building_times(&attrs, 2);
    // 0 -> 0 -> 3 -> 0 -> 3
    assert_eq!(r.stock_of(ResourceKind::Energy), 3);
    assert_eq!(r.diff_of(ResourceKind::Energy), -4);
    r.run_building_times(&attrs, 0);
    assert_eq!(r.stock_of(ResourceKind::Energy), 3);
    assert_eq!(r.diff_of(ResourceKind::Energy), -4);
}

#[test]
fn entries_list_every_resource_in_order() {
    let mut r = Resources::empty();
    r.add(ResourceKind::Carbon, 3);
    r.add(ResourceKind::Energy, -2);
    assert_eq!(
        r.entries(),
        vec![
            (ResourceKind::Energy, 0, -2),
            (ResourceKind::Material, 0, 0),
            (ResourceKind::Ice, 0, 0),
            (ResourceKind::Carbon, 3, 3),
            (ResourceKind::Nitrogen, 0, 0),
        ]
    );
}

#[test]
fn amounts_are_listed_by_resource() {
    let mut attrs = BuildingAttrs::new();
    assert_eq!(amounts_of(&attrs.cost), vec![]);
    attrs.cost.insert(ResourceKind::Nitrogen.code(), 4);
    attrs.cost.insert(ResourceKind::Material.code(), 0);
    attrs.cost.insert(ResourceKind::Energy.code(), 9);
    attrs.cost.insert(17, 1);
    assert_eq!(
        amounts_of(&attrs.cost),
        vec![(ResourceKind::Energy, 9), (ResourceKind::Material, 0), (ResourceKind::Nitrogen, 4)]
    );
    assert_eq!(amount_of(&attrs.cost, ResourceKind::Nitrogen.code()), 4);
    assert_eq!(amount_of(&attrs.cost, ResourceKind::Ice.code()), 0);
}
