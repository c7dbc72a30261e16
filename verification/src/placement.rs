//! Where structures stand: the footprint of a structure on the grid, and
//! what placing and demolishing do to the tiles, as functions on the
//! row-by-row sequence of tiles.

use crate::coords::Coords;
use crate::defs::Structure;
use crate::error::PlanetError;
use crate::grid::{
    canonical, cell_coords, cell_index, in_grid, lemma_cell_coords_inverse,
    lemma_cell_coords_of_index, lemma_wrap_range, lemma_wrap_small, wrap,
};
use crate::tile::Tile;
use vstd::prelude::*;

verus! {

/// The canonical coordinates of the tile that `c` names.
pub open spec fn anchor_of(c: Coords, w: nat) -> Coords {
    Coords(wrap(c.0 as int, w as int) as i32, c.1)
}

/// Whether a square of side `size` anchored at `c` lies on the grid: it has
/// at least one tile, it is no wider than the planet is round, and all its
/// rows are rows of the grid.
pub open spec fn fits(c: Coords, size: nat, w: nat, h: nat) -> bool {
    1 <= size <= w && 0 <= c.1 && c.1 + size <= h
}

/// Whether the square of side `size` anchored at the tile `anchor` covers
/// the tile `p`; both are canonical. The square spreads from its anchor to
/// higher rows and, wrapping, to higher columns.
pub open spec fn covers(anchor: Coords, size: nat, p: Coords, w: nat) -> bool {
    &&& anchor.1 <= p.1 < anchor.1 + size
    &&& wrap(p.0 - anchor.0, w as int) < size
}

/// Whether `p` is among the tiles of the square that come first when it is
/// walked row by row from its anchor: in one of its first `rows` rows, or
/// among the first `cols` tiles of the row after them.
pub open spec fn covers_first(
    anchor: Coords,
    size: nat,
    p: Coords,
    w: nat,
    rows: int,
    cols: int,
) -> bool {
    &&& covers(anchor, size, p, w)
    &&& (p.1 - anchor.1 < rows || (p.1 - anchor.1 == rows && wrap(p.0 - anchor.0, w as int)
        < cols))
}

/// What an attempt to place `structure` comes to: it must be a structure
/// itself, and the footprint must be free.
pub open spec fn place_outcome(
    tiles: Seq<Tile>,
    w: nat,
    h: nat,
    c: Coords,
    size: nat,
    structure: Structure,
) -> Result<(), PlanetError> {
    if !structure.spec_is_building() {
        Err(PlanetError::UnknownKind)
    } else if !placeable_on(tiles, w, h, c, size) {
        Err(PlanetError::NotPlaceable)
    } else {
        Ok(())
    }
}

/// Whether a structure of side `size` can be placed with its anchor at
/// `c`: the square lies on the grid and every tile it covers is free.
pub open spec fn placeable_on(tiles: Seq<Tile>, w: nat, h: nat, c: Coords, size: nat) -> bool {
    &&& fits(c, size, w, h)
    &&& forall|i: int|
        0 <= i < tiles.len() && covers(anchor_of(c, w), size, cell_coords(i, w), w) ==> (
        #[trigger] tiles[i]).structure == Structure::Empty
}

/// The tile at `p` after a structure was placed: the anchor holds the
/// structure, every other covered tile points to the anchor, the rest are
/// as they were.
pub open spec fn placed_tile(
    tile: Tile,
    p: Coords,
    anchor: Coords,
    size: nat,
    w: nat,
    structure: Structure,
) -> Tile {
    if p == anchor {
        tile.spec_with_structure(structure)
    } else if covers(anchor, size, p, w) {
        tile.spec_with_structure(Structure::Occupied { by: anchor })
    } else {
        tile
    }
}

/// The tiles after `structure`, of side `size`, was placed with its anchor
/// at `c`.
pub open spec fn placed_on(
    tiles: Seq<Tile>,
    w: nat,
    c: Coords,
    size: nat,
    structure: Structure,
) -> Seq<Tile> {
    Seq::new(
        tiles.len(),
        |i: int| placed_tile(tiles[i], cell_coords(i, w), anchor_of(c, w), size, w, structure),
    )
}

/// The tile at `p` after the structure anchored at `anchor` was
/// demolished: the anchor and every tile that pointed to it are free.
pub open spec fn cleared_tile(tile: Tile, p: Coords, anchor: Coords) -> Tile {
    if p == anchor || tile.structure == (Structure::Occupied { by: anchor }) {
        tile.spec_with_structure(Structure::Empty)
    } else {
        tile
    }
}

/// The tiles after the structure anchored at `anchor` was demolished.
pub open spec fn demolished_on(tiles: Seq<Tile>, w: nat, anchor: Coords) -> Seq<Tile> {
    Seq::new(tiles.len(), |i: int| cleared_tile(tiles[i], cell_coords(i, w), anchor))
}

/// The tiles while a structure is being demolished: the first `done` tiles
/// are as they will be, the others as they were.
pub open spec fn demolished_first(tiles: Seq<Tile>, w: nat, anchor: Coords, done: int) -> Seq<
    Tile,
> {
    Seq::new(
        tiles.len(),
        |i: int|
            if i < done {
                cleared_tile(tiles[i], cell_coords(i, w), anchor)
            } else {
                tiles[i]
            },
    )
}

/// The anchor of whatever stands on the tile that `c` names: the tile
/// itself, unless it is a part of a structure anchored elsewhere.
pub open spec fn anchor_at(tiles: Seq<Tile>, w: nat, c: Coords) -> Coords {
    match tiles[cell_index(c, w)].structure {
        Structure::Occupied { by } => by,
        _ => anchor_of(c, w),
    }
}

/// Whether a structure is anchored on the tile `at`.
#[verifier::opaque]
pub open spec fn anchored_at(tiles: Seq<Tile>, w: nat, at: Coords) -> bool {
    tiles[cell_index(at, w)].structure.spec_is_building()
}

/// Every tile that is a part of a structure points to a tile of the grid
/// on which a structure is anchored.
pub open spec fn markers_resolve(tiles: Seq<Tile>, w: nat, h: nat) -> bool {
    forall|i: int|
        0 <= i < tiles.len() ==> match (#[trigger] tiles[i]).structure {
            Structure::Occupied { by } => canonical(by, w, h) && anchored_at(tiles, w, by),
            _ => true,
        }
}

/// What it means that a structure is anchored on a tile.
pub proof fn lemma_anchored_at(tiles: Seq<Tile>, w: nat, at: Coords)
    ensures
        anchored_at(tiles, w, at) == tiles[cell_index(at, w)].structure.spec_is_building(),
{
    reveal(anchored_at);
}

/// The anchor of a square that lies on the grid is covered by it.
pub proof fn lemma_anchor_covered(c: Coords, size: nat, w: nat, h: nat)
    requires
        fits(c, size, w, h),
        w <= i32::MAX,
        h <= i32::MAX,
    ensures
        canonical(anchor_of(c, w), w, h),
        covers(anchor_of(c, w), size, anchor_of(c, w), w),
{
    lemma_wrap_range(c.0 as int, w as int);
    lemma_wrap_small(0, w as int);
}

/// The canonical coordinates of a tile name the same tile.
pub proof fn lemma_anchor_canonical(c: Coords, w: nat, h: nat)
    requires
        in_grid(c, w, h),
        w <= i32::MAX,
    ensures
        canonical(anchor_of(c, w), w, h),
        cell_index(anchor_of(c, w), w) == cell_index(c, w),
{
    lemma_wrap_range(c.0 as int, w as int);
    lemma_wrap_small(wrap(c.0 as int, w as int), w as int);
    crate::grid::lemma_cell_index_bounds(c, w, h);
    crate::grid::lemma_cell_index_bounds(anchor_of(c, w), w, h);
}

/// Where nothing stands on a tile, demolishing there changes nothing.
pub proof fn lemma_demolish_nothing(tiles: Seq<Tile>, w: nat, h: nat, anchor: Coords)
    requires
        tiles.len() == w * h,
        w <= i32::MAX,
        h <= i32::MAX,
        markers_resolve(tiles, w, h),
        canonical(anchor, w, h),
        tiles[cell_index(anchor, w)].structure == Structure::Empty,
    ensures
        demolished_on(tiles, w, anchor) == tiles,
{
    lemma_cell_coords_of_index(anchor, w, h);
    assert forall|i: int| 0 <= i < tiles.len() implies demolished_on(tiles, w, anchor)[i]
        == tiles[i] by {
        lemma_cell_coords_inverse(i, w, h);
        if cell_coords(i, w) == anchor {
            assert(i == cell_index(anchor, w));
        } else {
            lemma_anchored_at(tiles, w, anchor);
            assert(tiles[i].structure != Structure::Occupied { by: anchor });
        }
    }
    assert(demolished_on(tiles, w, anchor) =~= tiles);
}

/// Where a structure can be placed, placing one succeeds; and once it
/// stands, placing another on the same footprint is refused as not
/// placeable.
pub proof fn lemma_place_once(
    tiles: Seq<Tile>,
    w: nat,
    h: nat,
    c: Coords,
    size: nat,
    first: Structure,
    second: Structure,
)
    requires
        tiles.len() == w * h,
        w <= i32::MAX,
        h <= i32::MAX,
        placeable_on(tiles, w, h, c, size),
        first.spec_is_building(),
        second.spec_is_building(),
    ensures
        place_outcome(tiles, w, h, c, size, first) == Ok::<(), PlanetError>(()),
        !placeable_on(placed_on(tiles, w, c, size, first), w, h, c, size),
        place_outcome(placed_on(tiles, w, c, size, first), w, h, c, size, second) == Err::<
            (),
            PlanetError,
        >(PlanetError::NotPlaceable),
{
    let anchor = anchor_of(c, w);
    lemma_anchor_covered(c, size, w, h);
    lemma_cell_coords_of_index(anchor, w, h);
    let after = placed_on(tiles, w, c, size, first);
    let i = cell_index(anchor, w);
    assert(after[i].structure == first);
}

/// Demolishing what was just placed gives back the tiles as they were.
pub proof fn lemma_demolish_undoes_place(
    tiles: Seq<Tile>,
    w: nat,
    h: nat,
    c: Coords,
    size: nat,
    structure: Structure,
)
    requires
        tiles.len() == w * h,
        w <= i32::MAX,
        h <= i32::MAX,
        markers_resolve(tiles, w, h),
        placeable_on(tiles, w, h, c, size),
    ensures
        demolished_on(placed_on(tiles, w, c, size, structure), w, anchor_of(c, w)) == tiles,
        placeable_on(
            demolished_on(placed_on(tiles, w, c, size, structure), w, anchor_of(c, w)),
            w,
            h,
            c,
            size,
        ),
{
    let anchor = anchor_of(c, w);
    lemma_anchor_covered(c, size, w, h);
    lemma_cell_coords_of_index(anchor, w, h);
    let placed = placed_on(tiles, w, c, size, structure);
    let back = demolished_on(placed, w, anchor);
    assert forall|i: int| 0 <= i < tiles.len() implies back[i] == tiles[i] by {
        let p = cell_coords(i, w);
        lemma_cell_coords_inverse(i, w, h);
        if p == anchor || covers(anchor, size, p, w) {
            assert(tiles[i].structure == Structure::Empty);
        } else {
            assert(tiles[cell_index(anchor, w)].structure == Structure::Empty);
            lemma_anchored_at(tiles, w, anchor);
            assert(tiles[i].structure != Structure::Occupied { by: anchor });
        }
    }
    assert(back =~= tiles);
}

/// Whether `wanted` holds of the positions of the tiles of the square that
/// come first.
pub open spec fn holds_first(
    n: nat,
    w: nat,
    c: Coords,
    size: nat,
    rows: int,
    cols: int,
    wanted: spec_fn(int) -> bool,
) -> bool {
    forall|i: int|
        0 <= i < n && covers_first(anchor_of(c, w), size, cell_coords(i, w), w, rows, cols)
            ==> #[trigger] wanted(i)
}

/// Before the first tile is looked at, nothing is asked.
pub proof fn lemma_holds_first_start(
    n: nat,
    w: nat,
    c: Coords,
    size: nat,
    wanted: spec_fn(int) -> bool,
)
    requires
        w > 0,
    ensures
        holds_first(n, w, c, size, 0, 0, wanted),
{
    assert forall|i: int|
        0 <= i < n && covers_first(
            anchor_of(c, w),
            size,
            cell_coords(i, w),
            w,
            0,
            0,
        ) implies #[trigger] wanted(i) by {
        lemma_wrap_range(cell_coords(i, w).0 - anchor_of(c, w).0, w as int);
    }
}

/// The next tile of the square, the one `dx` columns and `dy` rows on from
/// the anchor, is a tile of the grid that the square covers, and it is the
/// anchor only at the start; where `wanted` holds of it, the walk is one
/// step on.
pub proof fn lemma_holds_first_step(
    n: nat,
    w: nat,
    h: nat,
    c: Coords,
    size: nat,
    dy: int,
    dx: int,
    p: Coords,
    wanted: spec_fn(int) -> bool,
)
    requires
        n == w * h,
        w <= i32::MAX,
        h <= i32::MAX,
        fits(c, size, w, h),
        0 <= dy < size,
        0 <= dx < size,
        p == Coords(wrap(anchor_of(c, w).0 + dx, w as int) as i32, (c.1 + dy) as i32),
    ensures
        canonical(p, w, h),
        0 <= cell_index(p, w) < n,
        cell_coords(cell_index(p, w), w) == p,
        covers(anchor_of(c, w), size, p, w),
        (p == anchor_of(c, w)) == (dx == 0 && dy == 0),
        wanted(cell_index(p, w)) && holds_first(n, w, c, size, dy, dx, wanted) ==> holds_first(
            n,
            w,
            c,
            size,
            dy,
            dx + 1,
            wanted,
        ),
{
    let anchor = anchor_of(c, w);
    let ax = anchor.0 as int;
    lemma_anchor_covered(c, size, w, h);
    crate::grid::lemma_offset_roundtrip(ax, dx, w as int);
    lemma_wrap_small(0, w as int);
    lemma_wrap_small(ax, w as int);
    lemma_cell_coords_of_index(p, w, h);
    let i = cell_index(p, w);
    if wanted(i) && holds_first(n, w, c, size, dy, dx, wanted) {
        assert forall|j: int|
            0 <= j < n && covers_first(
                anchor,
                size,
                cell_coords(j, w),
                w,
                dy,
                dx + 1,
            ) implies #[trigger] wanted(j) by {
            let q = cell_coords(j, w);
            if !covers_first(anchor, size, q, w, dy, dx) {
                lemma_cell_coords_inverse(j, w, h);
                crate::grid::lemma_offset_unique(ax, q.0 as int, w as int);
                assert(q == p);
                assert(j == i);
            }
        }
    }
}

/// A full row of the square is the start of the next row.
pub proof fn lemma_holds_first_row(
    n: nat,
    w: nat,
    c: Coords,
    size: nat,
    rows: int,
    wanted: spec_fn(int) -> bool,
)
    requires
        w > 0,
        holds_first(n, w, c, size, rows, size as int, wanted),
    ensures
        holds_first(n, w, c, size, rows + 1, 0, wanted),
{
    assert forall|i: int|
        0 <= i < n && covers_first(
            anchor_of(c, w),
            size,
            cell_coords(i, w),
            w,
            rows + 1,
            0,
        ) implies #[trigger] wanted(i) by {
        lemma_wrap_range(cell_coords(i, w).0 - anchor_of(c, w).0, w as int);
        assert(covers_first(anchor_of(c, w), size, cell_coords(i, w), w, rows, size as int));
    }
}

/// When every row of the square is walked, `wanted` holds of every tile
/// that the square covers.
pub proof fn lemma_holds_first_end(
    n: nat,
    w: nat,
    c: Coords,
    size: nat,
    wanted: spec_fn(int) -> bool,
)
    requires
        holds_first(n, w, c, size, size as int, 0, wanted),
    ensures
        forall|i: int|
            0 <= i < n && covers(anchor_of(c, w), size, cell_coords(i, w), w) ==> #[trigger] wanted(
                i,
            ),
{
    assert forall|i: int|
        0 <= i < n && covers(anchor_of(c, w), size, cell_coords(i, w), w) implies #[trigger] wanted(
        i,
    ) by {
        assert(covers_first(anchor_of(c, w), size, cell_coords(i, w), w, size as int, 0));
    }
}

/// Whether the tile at position `i` is free.
pub open spec fn is_free(tiles: Seq<Tile>) -> spec_fn(int) -> bool {
    |i: int| tiles[i].structure == Structure::Empty
}

/// Whether the tile at position `j` is the anchor `anchor` itself or a
/// part of the structure anchored there.
pub open spec fn is_part(tiles: Seq<Tile>, w: nat, anchor: Coords) -> spec_fn(int) -> bool {
    |j: int|
        cell_coords(j, w) == anchor || tiles[j].structure == (Structure::Occupied { by: anchor })
}

/// The tiles while a structure is being placed: the tiles of its square
/// that come first are as they will be, the others as they were.
pub open spec fn placed_first(
    tiles: Seq<Tile>,
    w: nat,
    c: Coords,
    size: nat,
    structure: Structure,
    rows: int,
    cols: int,
) -> Seq<Tile> {
    Seq::new(
        tiles.len(),
        |i: int|
            if covers_first(anchor_of(c, w), size, cell_coords(i, w), w, rows, cols) {
                placed_tile(tiles[i], cell_coords(i, w), anchor_of(c, w), size, w, structure)
            } else {
                tiles[i]
            },
    )
}

/// Before the first tile is written, the tiles are as they were.
pub proof fn lemma_placed_first_start(
    tiles: Seq<Tile>,
    w: nat,
    c: Coords,
    size: nat,
    structure: Structure,
)
    requires
        w > 0,
    ensures
        placed_first(tiles, w, c, size, structure, 0, 0) == tiles,
{
    assert forall|i: int| 0 <= i < tiles.len() implies placed_first(
        tiles,
        w,
        c,
        size,
        structure,
        0,
        0,
    )[i] == tiles[i] by {
        lemma_wrap_range(cell_coords(i, w).0 - anchor_of(c, w).0, w as int);
    }
    assert(placed_first(tiles, w, c, size, structure, 0, 0) =~= tiles);
}

/// A full row of the square is the start of the next row.
pub proof fn lemma_placed_first_row(
    tiles: Seq<Tile>,
    w: nat,
    c: Coords,
    size: nat,
    structure: Structure,
    rows: int,
)
    requires
        w > 0,
    ensures
        placed_first(tiles, w, c, size, structure, rows, size as int) == placed_first(
            tiles,
            w,
            c,
            size,
            structure,
            rows + 1,
            0,
        ),
{
    assert forall|i: int| 0 <= i < tiles.len() implies placed_first(
        tiles,
        w,
        c,
        size,
        structure,
        rows,
        size as int,
    )[i] == placed_first(tiles, w, c, size, structure, rows + 1, 0)[i] by {
        lemma_wrap_range(cell_coords(i, w).0 - anchor_of(c, w).0, w as int);
    }
    assert(placed_first(tiles, w, c, size, structure, rows, size as int) =~= placed_first(
        tiles,
        w,
        c,
        size,
        structure,
        rows + 1,
        0,
    ));
}

/// When every row of the square is written, the structure is placed.
pub proof fn lemma_placed_first_end(
    tiles: Seq<Tile>,
    w: nat,
    h: nat,
    c: Coords,
    size: nat,
    structure: Structure,
)
    requires
        fits(c, size, w, h),
        w <= i32::MAX,
        h <= i32::MAX,
    ensures
        placed_first(tiles, w, c, size, structure, size as int, 0) == placed_on(
            tiles,
            w,
            c,
            size,
            structure,
        ),
{
    lemma_anchor_covered(c, size, w, h);
    assert(placed_first(tiles, w, c, size, structure, size as int, 0) =~= placed_on(
        tiles,
        w,
        c,
        size,
        structure,
    ));
}

/// Writing the next tile of the square, the one `dx` columns and `dy` rows
/// on from the anchor, brings the tiles one step on.
pub proof fn lemma_placed_first_step(
    tiles: Seq<Tile>,
    w: nat,
    h: nat,
    c: Coords,
    size: nat,
    structure: Structure,
    dy: int,
    dx: int,
    p: Coords,
)
    requires
        tiles.len() == w * h,
        w <= i32::MAX,
        h <= i32::MAX,
        fits(c, size, w, h),
        0 <= dy < size,
        0 <= dx < size,
        p == Coords(wrap(anchor_of(c, w).0 + dx, w as int) as i32, (c.1 + dy) as i32),
    ensures
        canonical(p, w, h),
        0 <= cell_index(p, w) < tiles.len(),
        placed_first(tiles, w, c, size, structure, dy, dx)[cell_index(p, w)] == tiles[cell_index(
            p,
            w,
        )],
        (p == anchor_of(c, w)) == (dx == 0 && dy == 0),
        placed_first(tiles, w, c, size, structure, dy, dx).update(
            cell_index(p, w),
            tiles[cell_index(p, w)].spec_with_structure(
                if dx == 0 && dy == 0 {
                    structure
                } else {
                    Structure::Occupied { by: anchor_of(c, w) }
                },
            ),
        ) == placed_first(tiles, w, c, size, structure, dy, dx + 1),
{
    let anchor = anchor_of(c, w);
    let ax = anchor.0 as int;
    lemma_anchor_covered(c, size, w, h);
    crate::grid::lemma_offset_roundtrip(ax, dx, w as int);
    lemma_wrap_small(0, w as int);
    lemma_cell_coords_of_index(p, w, h);
    let i = cell_index(p, w);
    lemma_wrap_small(ax, w as int);
    let before = placed_first(tiles, w, c, size, structure, dy, dx);
    let written = before.update(
        i,
        tiles[i].spec_with_structure(
            if dx == 0 && dy == 0 {
                structure
            } else {
                Structure::Occupied { by: anchor }
            },
        ),
    );
    let after = placed_first(tiles, w, c, size, structure, dy, dx + 1);
    assert forall|j: int| 0 <= j < tiles.len() implies written[j] == after[j] by {
        let q = cell_coords(j, w);
        if j != i {
            if covers_first(anchor, size, q, w, dy, dx + 1) && !covers_first(
                anchor,
                size,
                q,
                w,
                dy,
                dx,
            ) {
                lemma_cell_coords_inverse(j, w, h);
                crate::grid::lemma_offset_unique(ax, q.0 as int, w as int);
                assert(q == p);
                assert(false);
            }
        }
    }
    assert(written =~= after);
}

/// Tiles that hold the same structures as tiles whose parts of structures
/// point to anchors have that property too.
pub proof fn lemma_same_structures_keep_markers(
    before: Seq<Tile>,
    after: Seq<Tile>,
    w: nat,
    h: nat,
)
    requires
        before.len() == w * h,
        after.len() == before.len(),
        w <= i32::MAX,
        h <= i32::MAX,
        markers_resolve(before, w, h),
        forall|i: int|
            0 <= i < before.len() ==> (#[trigger] after[i]).structure == before[i].structure,
    ensures
        markers_resolve(after, w, h),
{
    assert forall|i: int| 0 <= i < after.len() implies match (#[trigger] after[i]).structure {
        Structure::Occupied { by } => canonical(by, w, h) && anchored_at(after, w, by),
        _ => true,
    } by {
        assert(after[i].structure == before[i].structure);
        match before[i].structure {
            Structure::Occupied { by } => {
                lemma_cell_coords_of_index(by, w, h);
                lemma_anchored_at(before, w, by);
                lemma_anchored_at(after, w, by);
                let k = cell_index(by, w);
                assert(after[k].structure == before[k].structure);
            },
            _ => {},
        }
    }
}

/// Placing a structure on free tiles keeps every part of a structure
/// pointing to an anchor.
pub proof fn lemma_place_keeps_markers(
    tiles: Seq<Tile>,
    w: nat,
    h: nat,
    c: Coords,
    size: nat,
    structure: Structure,
)
    requires
        tiles.len() == w * h,
        w <= i32::MAX,
        h <= i32::MAX,
        markers_resolve(tiles, w, h),
        placeable_on(tiles, w, h, c, size),
        structure.spec_is_building(),
    ensures
        markers_resolve(placed_on(tiles, w, c, size, structure), w, h),
{
    let anchor = anchor_of(c, w);
    lemma_anchor_covered(c, size, w, h);
    lemma_cell_coords_of_index(anchor, w, h);
    let after = placed_on(tiles, w, c, size, structure);
    assert(after[cell_index(anchor, w)].structure == structure);
    lemma_anchored_at(after, w, anchor);
    assert forall|i: int| 0 <= i < after.len() implies match (#[trigger] after[i]).structure {
        Structure::Occupied { by } => canonical(by, w, h) && anchored_at(after, w, by),
        _ => true,
    } by {
        let p = cell_coords(i, w);
        if p != anchor && !covers(anchor, size, p, w) {
            assert(after[i] == tiles[i]);
            match tiles[i].structure {
                Structure::Occupied { by } => {
                    let j = cell_index(by, w);
                    lemma_cell_coords_of_index(by, w, h);
                    lemma_anchored_at(tiles, w, by);
                    lemma_anchored_at(after, w, by);
                    assert(tiles[j].structure.spec_is_building());
                    assert(after[j].structure.spec_is_building());
                },
                _ => {},
            }
        }
    }
}

/// Demolishing a structure keeps every remaining part of a structure
/// pointing to an anchor.
pub proof fn lemma_demolish_keeps_markers(tiles: Seq<Tile>, w: nat, h: nat, anchor: Coords)
    requires
        tiles.len() == w * h,
        w <= i32::MAX,
        h <= i32::MAX,
        markers_resolve(tiles, w, h),
    ensures
        markers_resolve(demolished_on(tiles, w, anchor), w, h),
{
    let after = demolished_on(tiles, w, anchor);
    assert forall|i: int| 0 <= i < after.len() implies match (#[trigger] after[i]).structure {
        Structure::Occupied { by } => canonical(by, w, h) && anchored_at(after, w, by),
        _ => true,
    } by {
        match after[i].structure {
            Structure::Occupied { by } => {
                assert(after[i] == tiles[i]);
                assert(by != anchor);
                let j = cell_index(by, w);
                lemma_cell_coords_of_index(by, w, h);
                lemma_anchored_at(tiles, w, by);
                lemma_anchored_at(after, w, by);
                assert(tiles[j].structure.spec_is_building());
                assert(after[j] == tiles[j]);
            },
            _ => {},
        }
    }
}

} // verus!
