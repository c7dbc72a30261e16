//! Footprints against a catalog: whether what stands on the tiles agrees
//! with the sides that the catalog gives the kinds of structure, and that
//! placing and demolishing keep it so.

use crate::coords::Coords;
use crate::defs::{Structure, StructureAttrs};
use crate::grid::{
    canonical, cell_coords, cell_index, lemma_cell_coords_inverse, lemma_cell_coords_of_index,
};
use crate::placement::{
    anchor_of, anchored_at, covers, demolished_on, fits, lemma_anchor_covered, markers_resolve,
    placeable_on, placed_on,
};
use crate::tile::Tile;
use vstd::prelude::*;

verus! {

/// Whether the catalog gives structures like `structure` the side `size`.
pub open spec fn declares(
    catalog: Map<u32, StructureAttrs>,
    structure: Structure,
    size: nat,
) -> bool {
    match structure.spec_kind() {
        Some(kind) => catalog.contains_key(kind.spec_code()) && catalog[kind.spec_code()].size
            == size,
        None => false,
    }
}

/// Whether a structure is anchored on the tile `by` whose footprint, of
/// the side that the catalog gives its kind, covers the tile `p`.
#[verifier::opaque]
pub open spec fn anchor_covers(
    tiles: Seq<Tile>,
    w: nat,
    catalog: Map<u32, StructureAttrs>,
    by: Coords,
    p: Coords,
) -> bool {
    match tiles[cell_index(by, w)].structure.spec_kind() {
        Some(kind) => catalog.contains_key(kind.spec_code()) && covers(
            by,
            catalog[kind.spec_code()].size as nat,
            p,
            w,
        ),
        None => false,
    }
}

/// What it means that the footprint of an anchored structure covers a
/// tile.
pub proof fn lemma_anchor_covers(
    tiles: Seq<Tile>,
    w: nat,
    catalog: Map<u32, StructureAttrs>,
    by: Coords,
    p: Coords,
)
    ensures
        anchor_covers(tiles, w, catalog, by, p) == (match tiles[cell_index(
            by,
            w,
        )].structure.spec_kind() {
            Some(kind) => catalog.contains_key(kind.spec_code()) && covers(
                by,
                catalog[kind.spec_code()].size as nat,
                p,
                w,
            ),
            None => false,
        }),
        anchor_covers(tiles, w, catalog, by, p) ==> anchored_at(tiles, w, by),
{
    reveal(anchor_covers);
    reveal(anchored_at);
}

/// Every tile that is a part of a structure points to a tile of the grid
/// on which a structure is anchored whose footprint, of the side that the
/// catalog gives its kind, covers the tile.
pub open spec fn footprints_cover(
    tiles: Seq<Tile>,
    w: nat,
    h: nat,
    catalog: Map<u32, StructureAttrs>,
) -> bool {
    forall|i: int|
        0 <= i < tiles.len() ==> match (#[trigger] tiles[i]).structure {
            Structure::Occupied { by } => canonical(by, w, h) && anchor_covers(
                tiles,
                w,
                catalog,
                by,
                cell_coords(i, w),
            ),
            _ => true,
        }
}

/// Where every part of a structure lies in the footprint of its anchor, it
/// points to an anchor.
pub proof fn lemma_footprints_resolve(
    tiles: Seq<Tile>,
    w: nat,
    h: nat,
    catalog: Map<u32, StructureAttrs>,
)
    requires
        footprints_cover(tiles, w, h, catalog),
    ensures
        markers_resolve(tiles, w, h),
{
    assert forall|i: int| 0 <= i < tiles.len() implies match (#[trigger] tiles[i]).structure {
        Structure::Occupied { by } => canonical(by, w, h) && anchored_at(tiles, w, by),
        _ => true,
    } by {
        match tiles[i].structure {
            Structure::Occupied { by } => {
                lemma_anchor_covers(tiles, w, catalog, by, cell_coords(i, w));
            },
            _ => {},
        }
    }
}

/// Tiles that hold the same structures as tiles whose parts of structures
/// lie in the footprints of their anchors have that property too.
pub proof fn lemma_same_structures_keep_footprints(
    before: Seq<Tile>,
    after: Seq<Tile>,
    w: nat,
    h: nat,
    catalog: Map<u32, StructureAttrs>,
)
    requires
        before.len() == w * h,
        after.len() == before.len(),
        w <= i32::MAX,
        h <= i32::MAX,
        footprints_cover(before, w, h, catalog),
        forall|i: int|
            0 <= i < before.len() ==> (#[trigger] after[i]).structure == before[i].structure,
    ensures
        footprints_cover(after, w, h, catalog),
{
    assert forall|i: int| 0 <= i < after.len() implies match (#[trigger] after[i]).structure {
        Structure::Occupied { by } => canonical(by, w, h) && anchor_covers(
            after,
            w,
            catalog,
            by,
            cell_coords(i, w),
        ),
        _ => true,
    } by {
        assert(after[i].structure == before[i].structure);
        match before[i].structure {
            Structure::Occupied { by } => {
                lemma_cell_coords_of_index(by, w, h);
                lemma_anchor_covers(before, w, catalog, by, cell_coords(i, w));
                lemma_anchor_covers(after, w, catalog, by, cell_coords(i, w));
                let k = cell_index(by, w);
                assert(after[k].structure == before[k].structure);
            },
            _ => {},
        }
    }
}

/// Placing a structure with the side that the catalog gives its kind
/// keeps every part of a structure in the footprint of its anchor.
pub proof fn lemma_place_keeps_footprints(
    tiles: Seq<Tile>,
    w: nat,
    h: nat,
    c: Coords,
    size: nat,
    structure: Structure,
    catalog: Map<u32, StructureAttrs>,
)
    requires
        tiles.len() == w * h,
        w <= i32::MAX,
        h <= i32::MAX,
        footprints_cover(tiles, w, h, catalog),
        placeable_on(tiles, w, h, c, size),
        declares(catalog, structure, size),
    ensures
        footprints_cover(placed_on(tiles, w, c, size, structure), w, h, catalog),
{
    let anchor = anchor_of(c, w);
    lemma_anchor_covered(c, size, w, h);
    lemma_cell_coords_of_index(anchor, w, h);
    let after = placed_on(tiles, w, c, size, structure);
    assert(after[cell_index(anchor, w)].structure == structure);
    assert forall|i: int| 0 <= i < after.len() implies match (#[trigger] after[i]).structure {
        Structure::Occupied { by } => canonical(by, w, h) && anchor_covers(
            after,
            w,
            catalog,
            by,
            cell_coords(i, w),
        ),
        _ => true,
    } by {
        let p = cell_coords(i, w);
        if p == anchor {
        } else if covers(anchor, size, p, w) {
            lemma_anchor_covers(after, w, catalog, anchor, p);
        } else {
            assert(after[i] == tiles[i]);
            match tiles[i].structure {
                Structure::Occupied { by } => {
                    let j = cell_index(by, w);
                    lemma_cell_coords_of_index(by, w, h);
                    lemma_anchor_covers(tiles, w, catalog, by, p);
                    lemma_anchor_covers(after, w, catalog, by, p);
                    assert(tiles[j].structure.spec_is_building());
                    assert(after[j] == tiles[j]);
                },
                _ => {},
            }
        }
    }
}

/// Demolishing a structure keeps every remaining part of a structure in
/// the footprint of its anchor.
pub proof fn lemma_demolish_keeps_footprints(
    tiles: Seq<Tile>,
    w: nat,
    h: nat,
    anchor: Coords,
    catalog: Map<u32, StructureAttrs>,
)
    requires
        tiles.len() == w * h,
        w <= i32::MAX,
        h <= i32::MAX,
        footprints_cover(tiles, w, h, catalog),
    ensures
        footprints_cover(demolished_on(tiles, w, anchor), w, h, catalog),
{
    let after = demolished_on(tiles, w, anchor);
    assert forall|i: int| 0 <= i < after.len() implies match (#[trigger] after[i]).structure {
        Structure::Occupied { by } => canonical(by, w, h) && anchor_covers(
            after,
            w,
            catalog,
            by,
            cell_coords(i, w),
        ),
        _ => true,
    } by {
        match after[i].structure {
            Structure::Occupied { by } => {
                assert(after[i] == tiles[i]);
                assert(by != anchor);
                let j = cell_index(by, w);
                lemma_cell_coords_of_index(by, w, h);
                lemma_anchor_covers(tiles, w, catalog, by, cell_coords(i, w));
                lemma_anchor_covers(after, w, catalog, by, cell_coords(i, w));
                assert(tiles[j].structure.spec_is_building());
                assert(after[j] == tiles[j]);
            },
            _ => {},
        }
    }
}

/// The side that the catalog gives the structure anchored on `tile`:
/// nothing where none is anchored there, or the catalog lacks its kind.
pub open spec fn declared_side(tile: Tile, catalog: Map<u32, StructureAttrs>) -> Option<nat> {
    match tile.structure.spec_kind() {
        Some(kind) => if catalog.contains_key(kind.spec_code()) {
            Some(catalog[kind.spec_code()].size as nat)
        } else {
            None
        },
        None => None,
    }
}

/// Whether the tile at position `j` is as the structure anchored at
/// position `i` asks: where that structure, with the side that the catalog
/// gives its kind, covers the tile, the tile is a part of it.
pub open spec fn owned_by(
    tiles: Seq<Tile>,
    w: nat,
    h: nat,
    catalog: Map<u32, StructureAttrs>,
    i: int,
    j: int,
) -> bool {
    match declared_side(tiles[i], catalog) {
        Some(side) => fits(cell_coords(i, w), side, w, h) && (j != i && covers(
            cell_coords(i, w),
            side,
            cell_coords(j, w),
            w,
        ) ==> tiles[j].structure == Structure::Occupied { by: cell_coords(i, w) }),
        None => true,
    }
}

/// Every structure whose kind the catalog describes lies on the grid with
/// its whole footprint, and every tile of the footprint but the anchor is
/// a part of it: no footprint is there by halves, and no two overlap.
pub open spec fn footprints_complete(
    tiles: Seq<Tile>,
    w: nat,
    h: nat,
    catalog: Map<u32, StructureAttrs>,
) -> bool {
    forall|i: int, j: int|
        0 <= i < tiles.len() && 0 <= j < tiles.len() ==> #[trigger] owned_by(
            tiles,
            w,
            h,
            catalog,
            i,
            j,
        )
}

/// The footprints are sound: every part of a structure lies in the
/// footprint of its anchor, and every footprint is complete.
pub open spec fn footprints_sound(
    tiles: Seq<Tile>,
    w: nat,
    h: nat,
    catalog: Map<u32, StructureAttrs>,
) -> bool {
    footprints_cover(tiles, w, h, catalog) && footprints_complete(tiles, w, h, catalog)
}

/// Tiles that hold the same structures as tiles with complete footprints
/// have complete footprints too.
pub proof fn lemma_same_structures_keep_complete(
    before: Seq<Tile>,
    after: Seq<Tile>,
    w: nat,
    h: nat,
    catalog: Map<u32, StructureAttrs>,
)
    requires
        after.len() == before.len(),
        footprints_complete(before, w, h, catalog),
        forall|i: int|
            0 <= i < before.len() ==> (#[trigger] after[i]).structure == before[i].structure,
    ensures
        footprints_complete(after, w, h, catalog),
{
    assert forall|i: int, j: int|
        0 <= i < after.len() && 0 <= j < after.len() implies #[trigger] owned_by(
        after,
        w,
        h,
        catalog,
        i,
        j,
    ) by {
        assert(owned_by(before, w, h, catalog, i, j));
        assert(after[i].structure == before[i].structure);
        assert(after[j].structure == before[j].structure);
    }
}

/// Placing a structure with the side that the catalog gives its kind
/// keeps the footprints complete.
pub proof fn lemma_place_keeps_complete(
    tiles: Seq<Tile>,
    w: nat,
    h: nat,
    c: Coords,
    size: nat,
    structure: Structure,
    catalog: Map<u32, StructureAttrs>,
)
    requires
        tiles.len() == w * h,
        w <= i32::MAX,
        h <= i32::MAX,
        footprints_complete(tiles, w, h, catalog),
        placeable_on(tiles, w, h, c, size),
        declares(catalog, structure, size),
    ensures
        footprints_complete(placed_on(tiles, w, c, size, structure), w, h, catalog),
{
    let anchor = anchor_of(c, w);
    lemma_anchor_covered(c, size, w, h);
    lemma_cell_coords_of_index(anchor, w, h);
    let after = placed_on(tiles, w, c, size, structure);
    assert forall|i: int, j: int|
        0 <= i < after.len() && 0 <= j < after.len() implies #[trigger] owned_by(
        after,
        w,
        h,
        catalog,
        i,
        j,
    ) by {
        let (pi, pj) = (cell_coords(i, w), cell_coords(j, w));
        lemma_cell_coords_inverse(i, w, h);
        lemma_cell_coords_inverse(j, w, h);
        if pi == anchor {
            assert(after[i].structure == structure);
        } else if covers(anchor, size, pi, w) {
        } else {
            assert(after[i] == tiles[i]);
            assert(owned_by(tiles, w, h, catalog, i, j));
            match declared_side(tiles[i], catalog) {
                Some(side) => {
                    if j != i && covers(pi, side, pj, w) {
                        assert(tiles[j].structure != Structure::Empty);
                        assert(after[j] == tiles[j]);
                    }
                },
                None => {},
            }
        }
    }
}

/// Demolishing the structure anchored on a tile keeps the footprints of
/// the others complete.
pub proof fn lemma_demolish_keeps_complete(
    tiles: Seq<Tile>,
    w: nat,
    h: nat,
    anchor: Coords,
    catalog: Map<u32, StructureAttrs>,
)
    requires
        tiles.len() == w * h,
        w <= i32::MAX,
        h <= i32::MAX,
        canonical(anchor, w, h),
        !(tiles[cell_index(anchor, w)].structure is Occupied),
        footprints_complete(tiles, w, h, catalog),
    ensures
        footprints_complete(demolished_on(tiles, w, anchor), w, h, catalog),
{
    lemma_cell_coords_of_index(anchor, w, h);
    let after = demolished_on(tiles, w, anchor);
    assert forall|i: int, j: int|
        0 <= i < after.len() && 0 <= j < after.len() implies #[trigger] owned_by(
        after,
        w,
        h,
        catalog,
        i,
        j,
    ) by {
        let (pi, pj) = (cell_coords(i, w), cell_coords(j, w));
        lemma_cell_coords_inverse(i, w, h);
        lemma_cell_coords_inverse(j, w, h);
        assert(owned_by(tiles, w, h, catalog, i, j));
        match declared_side(after[i], catalog) {
            Some(side) => {
                assert(after[i] == tiles[i]);
                if j != i && covers(pi, side, pj, w) {
                    assert(tiles[j].structure == Structure::Occupied { by: pi });
                    assert(pj != anchor);
                    assert(after[j] == tiles[j]);
                }
            },
            None => {},
        }
    }
}

/// Tiles that hold the same structures as tiles with sound footprints have
/// sound footprints too.
pub proof fn lemma_same_structures_keep_sound(
    before: Seq<Tile>,
    after: Seq<Tile>,
    w: nat,
    h: nat,
)
    requires
        before.len() == w * h,
        after.len() == before.len(),
        w <= i32::MAX,
        h <= i32::MAX,
        forall|i: int|
            0 <= i < before.len() ==> (#[trigger] after[i]).structure == before[i].structure,
    ensures
        keeps_footprints(before, after, w, h),
{
    assert forall|catalog: Map<u32, StructureAttrs>|
        footprints_sound(before, w, h, catalog) implies #[trigger] footprints_sound(
        after,
        w,
        h,
        catalog,
    ) by {
        lemma_same_structures_keep_footprints(before, after, w, h, catalog);
        lemma_same_structures_keep_complete(before, after, w, h, catalog);
    }
}

/// Placing a structure on free tiles keeps the footprints sound for every
/// catalog that gives its kind the side it was placed with.
pub proof fn lemma_place_keeps_sound(
    tiles: Seq<Tile>,
    w: nat,
    h: nat,
    c: Coords,
    size: nat,
    structure: Structure,
)
    requires
        tiles.len() == w * h,
        w <= i32::MAX,
        h <= i32::MAX,
        placeable_on(tiles, w, h, c, size),
    ensures
        keeps_declared_footprints(
            tiles,
            placed_on(tiles, w, c, size, structure),
            w,
            h,
            structure,
            size,
        ),
{
    assert forall|catalog: Map<u32, StructureAttrs>|
        declares(catalog, structure, size) && footprints_sound(
            tiles,
            w,
            h,
            catalog,
        ) implies #[trigger] footprints_sound(
        placed_on(tiles, w, c, size, structure),
        w,
        h,
        catalog,
    ) by {
        lemma_place_keeps_footprints(tiles, w, h, c, size, structure, catalog);
        lemma_place_keeps_complete(tiles, w, h, c, size, structure, catalog);
    }
}

/// Demolishing the structure anchored on a tile keeps the footprints
/// sound.
pub proof fn lemma_demolish_keeps_sound(tiles: Seq<Tile>, w: nat, h: nat, anchor: Coords)
    requires
        tiles.len() == w * h,
        w <= i32::MAX,
        h <= i32::MAX,
        canonical(anchor, w, h),
        !(tiles[cell_index(anchor, w)].structure is Occupied),
    ensures
        keeps_footprints(tiles, demolished_on(tiles, w, anchor), w, h),
{
    assert forall|catalog: Map<u32, StructureAttrs>|
        footprints_sound(tiles, w, h, catalog) implies #[trigger] footprints_sound(
        demolished_on(tiles, w, anchor),
        w,
        h,
        catalog,
    ) by {
        lemma_demolish_keeps_footprints(tiles, w, h, anchor, catalog);
        lemma_demolish_keeps_complete(tiles, w, h, anchor, catalog);
    }
}

/// Whether, whatever the catalog, the footprints are sound on the tiles
/// `after` where they are on the tiles `before`.
pub open spec fn keeps_footprints(before: Seq<Tile>, after: Seq<Tile>, w: nat, h: nat) -> bool {
    forall|catalog: Map<u32, StructureAttrs>|
        footprints_sound(before, w, h, catalog) ==> #[trigger] footprints_sound(
            after,
            w,
            h,
            catalog,
        )
}

/// The same for the catalogs that give structures like `structure` the
/// side `size`.
pub open spec fn keeps_declared_footprints(
    before: Seq<Tile>,
    after: Seq<Tile>,
    w: nat,
    h: nat,
    structure: Structure,
    size: nat,
) -> bool {
    forall|catalog: Map<u32, StructureAttrs>|
        declares(catalog, structure, size) && footprints_sound(before, w, h, catalog)
            ==> #[trigger] footprints_sound(after, w, h, catalog)
}

} // verus!
