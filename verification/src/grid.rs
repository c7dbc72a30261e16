//! A rectangular array of cells laid out row by row, addressed by
//! coordinates whose column wraps around and whose row does not.

use crate::coords::Coords;
use crate::error::PlanetError;
use vstd::prelude::*;

verus! {

/// The column that `x` names on a grid of `w` columns.
#[verifier::opaque]
pub open spec fn wrap(x: int, w: int) -> int {
    x % w
}

/// Whether `c` names a cell of a `w` by `h` grid: any column does, once
/// wrapped, and only the rows from 0 up to `h`.
pub open spec fn in_grid(c: Coords, w: nat, h: nat) -> bool {
    w > 0 && 0 <= c.1 < h
}

/// Whether `c` names a cell without wrapping.
pub open spec fn canonical(c: Coords, w: nat, h: nat) -> bool {
    0 <= c.0 < w && 0 <= c.1 < h
}

/// The position of cell `c` in the row-by-row sequence of cells.
#[verifier::opaque]
pub open spec fn cell_index(c: Coords, w: nat) -> int {
    c.1 * w + wrap(c.0 as int, w as int)
}

/// The canonical coordinates of the cell at position `i`.
#[verifier::opaque]
pub open spec fn cell_coords(i: int, w: nat) -> Coords {
    Coords((i % (w as int)) as i32, (i / (w as int)) as i32)
}

/// Every column wraps to a column of the grid.
pub proof fn lemma_wrap_range(x: int, w: int)
    requires
        w > 0,
    ensures
        0 <= wrap(x, w) < w,
{
    reveal(wrap);
    vstd::arithmetic::div_mod::lemma_mod_bound(x, w);
}

/// A column of the grid wraps to itself.
pub proof fn lemma_wrap_small(x: int, w: int)
    requires
        0 <= x < w,
    ensures
        wrap(x, w) == x,
{
    reveal(wrap);
    vstd::arithmetic::div_mod::lemma_small_mod(x as nat, w as nat);
}

/// The middle of the cell that `c` names, as two fractions, each a
/// numerator and a denominator: how far around the planet the middle of
/// its column lies, and how far down the grid the middle of its row.
pub open spec fn cell_middle(c: Coords, w: nat, h: nat) -> ((int, int), (int, int)) {
    ((2 * wrap(c.0 as int, w as int) + 1, 2 * (w as int)), (2 * (c.1 as int) + 1, 2 * (h as int)))
}

/// The middle of a cell lies strictly inside the grid: both fractions are
/// above 0 and below 1.
pub proof fn lemma_middle_inside(c: Coords, w: nat, h: nat)
    requires
        in_grid(c, w, h),
    ensures
        0 < cell_middle(c, w, h).0.0 < cell_middle(c, w, h).0.1,
        0 < cell_middle(c, w, h).1.0 < cell_middle(c, w, h).1.1,
{
    lemma_wrap_range(c.0 as int, w as int);
}

/// The middle of a cell names the cell: the whole part of each fraction
/// times the number of columns, or of rows, is the column, or the row.
pub proof fn lemma_middle_names_cell(c: Coords, w: nat, h: nat)
    requires
        canonical(c, w, h),
    ensures
        (cell_middle(c, w, h).0.0 * w) / cell_middle(c, w, h).0.1 == c.0,
        (cell_middle(c, w, h).1.0 * h) / cell_middle(c, w, h).1.1 == c.1,
{
    lemma_wrap_small(c.0 as int, w as int);
    let (x, y, wi, hi) = (c.0 as int, c.1 as int, w as int, h as int);
    assert((2 * x + 1) * wi == x * (2 * wi) + wi) by (nonlinear_arith);
    vstd::arithmetic::div_mod::lemma_fundamental_div_mod_converse(
        (2 * x + 1) * wi,
        2 * wi,
        x,
        wi,
    );
    assert((2 * y + 1) * hi == y * (2 * hi) + hi) by (nonlinear_arith);
    vstd::arithmetic::div_mod::lemma_fundamental_div_mod_converse(
        (2 * y + 1) * hi,
        2 * hi,
        y,
        hi,
    );
}

/// The four directions in which a cell has neighbours.
#[derive(Clone, Copy, Debug, PartialEq, Eq, Structural, Hash)]
pub enum Direction {
    West,
    East,
    North,
    South,
}

impl Direction {
    /// The direction back.
    pub open spec fn spec_opposite(self) -> Direction {
        match self {
            Direction::West => Direction::East,
            Direction::East => Direction::West,
            Direction::North => Direction::South,
            Direction::South => Direction::North,
        }
    }

    /// The direction back.
    #[verifier::when_used_as_spec(spec_opposite)]
    pub fn opposite(self) -> (d: Direction)
        ensures
            d == self.spec_opposite(),
    {
        match self {
            Direction::West => Direction::East,
            Direction::East => Direction::West,
            Direction::North => Direction::South,
            Direction::South => Direction::North,
        }
    }

    /// The four directions.
    pub fn all() -> (v: Vec<Direction>)
        ensures
            v@ == seq![Direction::West, Direction::East, Direction::North, Direction::South],
    {
        let v = vec![Direction::West, Direction::East, Direction::North, Direction::South];
        assert(v@ =~= seq![
            Direction::West,
            Direction::East,
            Direction::North,
            Direction::South,
        ]);
        v
    }
}

/// The neighbour of the cell with the canonical coordinates `c` in the
/// direction `dir`: to the west and to the east the grid goes around the
/// planet, so there is always one; to the north of row 0 and to the south
/// of the last row there is none.
pub open spec fn neighbour(c: Coords, dir: Direction, w: nat, h: nat) -> Option<Coords> {
    match dir {
        Direction::West => Some(Coords(wrap(c.0 - 1, w as int) as i32, c.1)),
        Direction::East => Some(Coords(wrap(c.0 + 1, w as int) as i32, c.1)),
        Direction::North => if c.1 > 0 {
            Some(Coords(c.0, (c.1 - 1) as i32))
        } else {
            None
        },
        Direction::South => if c.1 + 1 < h {
            Some(Coords(c.0, (c.1 + 1) as i32))
        } else {
            None
        },
    }
}

/// A neighbour is a cell of the grid, and the cell is its neighbour in the
/// direction back: whatever flows from a cell to a neighbour flows between
/// the same two cells the other way round.
pub proof fn lemma_neighbour_symmetric(c: Coords, dir: Direction, w: nat, h: nat)
    requires
        canonical(c, w, h),
        w <= i32::MAX,
        h <= i32::MAX,
    ensures
        neighbour(c, dir, w, h) matches Some(q) ==> canonical(q, w, h) && neighbour(
            q,
            dir.spec_opposite(),
            w,
            h,
        ) == Some(c),
{
    lemma_wrap_step(c.0 as int, w as int);
    match neighbour(c, dir, w, h) {
        Some(q) => {
            lemma_wrap_step(q.0 as int, w as int);
        },
        None => {},
    }
}

/// One column to the west of column 0 is the last column, and one column
/// to the east of the last column is column 0.
pub proof fn lemma_wrap_step(x: int, w: int)
    requires
        0 <= x < w,
    ensures
        wrap(x - 1, w) == (if x > 0 {
            x - 1
        } else {
            w - 1
        }),
        wrap(x + 1, w) == (if x + 1 < w {
            x + 1
        } else {
            0
        }),
{
    reveal(wrap);
    if x > 0 {
        vstd::arithmetic::div_mod::lemma_small_mod((x - 1) as nat, w as nat);
    } else {
        vstd::arithmetic::div_mod::lemma_fundamental_div_mod_converse(-1, w, -1, w - 1);
    }
    if x + 1 < w {
        vstd::arithmetic::div_mod::lemma_small_mod((x + 1) as nat, w as nat);
    } else {
        vstd::arithmetic::div_mod::lemma_fundamental_div_mod_converse(w, w, 1, 0);
    }
}

/// A cell of a grid has a position inside the sequence of cells.
pub proof fn lemma_cell_index_bounds(c: Coords, w: nat, h: nat)
    requires
        in_grid(c, w, h),
    ensures
        0 <= wrap(c.0 as int, w as int) < w,
        0 <= cell_index(c, w) < w * h,
        cell_index(c, w) == c.1 * w + wrap(c.0 as int, w as int),
{
    reveal(cell_index);
    lemma_wrap_range(c.0 as int, w as int);
    let x = wrap(c.0 as int, w as int);
    let y = c.1 as int;
    assert(y * w + x < w * h) by (nonlinear_arith)
        requires
            0 <= x < w,
            0 <= y < h,
    ;
    assert(0 <= y * w) by (nonlinear_arith)
        requires
            0 <= y,
            0 <= w,
    ;
}

/// Positions and canonical coordinates correspond one to one.
pub proof fn lemma_cell_coords_inverse(i: int, w: nat, h: nat)
    requires
        0 <= i < w * h,
        w <= i32::MAX,
        h <= i32::MAX,
    ensures
        canonical(cell_coords(i, w), w, h),
        cell_index(cell_coords(i, w), w) == i,
{
    reveal(wrap);
    reveal(cell_index);
    reveal(cell_coords);
    let wi = w as int;
    assert(wi > 0) by (nonlinear_arith)
        requires
            0 <= i < wi * h,
            wi >= 0,
    ;
    let x = i % wi;
    let y = i / wi;
    assert(i == wi * y + x && 0 <= x < wi) by {
        vstd::arithmetic::div_mod::lemma_fundamental_div_mod(i, wi);
    }
    assert(0 <= y < h) by (nonlinear_arith)
        requires
            i == wi * y + x,
            0 <= x < wi,
            0 <= i < wi * h,
    ;
    assert(x % wi == x) by {
        vstd::arithmetic::div_mod::lemma_small_mod(x as nat, w);
    }
    assert(y * w + x == i) by (nonlinear_arith)
        requires
            i == wi * y + x,
            wi == w,
    ;
}

/// Two canonical coordinates with the same position are the same cell.
pub proof fn lemma_cell_index_injective(a: Coords, b: Coords, w: nat, h: nat)
    requires
        canonical(a, w, h),
        canonical(b, w, h),
        cell_index(a, w) == cell_index(b, w),
    ensures
        a == b,
{
    reveal(wrap);
    reveal(cell_index);
    let wi = w as int;
    vstd::arithmetic::div_mod::lemma_small_mod(a.0 as nat, w);
    vstd::arithmetic::div_mod::lemma_small_mod(b.0 as nat, w);
    let (ax, ay, bx, by) = (a.0 as int, a.1 as int, b.0 as int, b.1 as int);
    assert(ay == by) by (nonlinear_arith)
        requires
            ay * wi + ax == by * wi + bx,
            0 <= ax < wi,
            0 <= bx < wi,
    ;
    assert(ax == bx) by (nonlinear_arith)
        requires
            ay * wi + ax == by * wi + bx,
            ay == by,
    ;
}

/// The canonical coordinates of a cell give back the cell.
pub proof fn lemma_cell_coords_of_index(p: Coords, w: nat, h: nat)
    requires
        canonical(p, w, h),
        w <= i32::MAX,
        h <= i32::MAX,
    ensures
        0 <= cell_index(p, w) < w * h,
        cell_coords(cell_index(p, w), w) == p,
{
    lemma_cell_index_bounds(p, w, h);
    let i = cell_index(p, w);
    lemma_cell_coords_inverse(i, w, h);
    lemma_cell_index_injective(cell_coords(i, w), p, w, h);
}

/// Going `d` columns on from column `ax` and measuring the way back gives
/// `d`, however the planet wraps.
pub proof fn lemma_offset_roundtrip(ax: int, d: int, w: int)
    requires
        0 <= ax < w,
        0 <= d < w,
    ensures
        0 <= wrap(ax + d, w) < w,
        wrap(wrap(ax + d, w) - ax, w) == d,
        wrap(ax + d, w) == (if ax + d < w {
            ax + d
        } else {
            ax + d - w
        }),
{
    reveal(wrap);
    if ax + d < w {
        vstd::arithmetic::div_mod::lemma_small_mod((ax + d) as nat, w as nat);
        vstd::arithmetic::div_mod::lemma_small_mod(d as nat, w as nat);
    } else {
        vstd::arithmetic::div_mod::lemma_fundamental_div_mod_converse(ax + d, w, 1, ax + d - w);
        vstd::arithmetic::div_mod::lemma_fundamental_div_mod_converse(d - w, w, -1, d);
    }
}

/// Each column lies a unique number of columns on from column `ax`.
pub proof fn lemma_offset_unique(ax: int, col: int, w: int)
    requires
        0 <= ax < w,
        0 <= col < w,
    ensures
        0 <= wrap(col - ax, w) < w,
        wrap(ax + wrap(col - ax, w), w) == col,
{
    reveal(wrap);
    if col >= ax {
        vstd::arithmetic::div_mod::lemma_small_mod((col - ax) as nat, w as nat);
        vstd::arithmetic::div_mod::lemma_small_mod(col as nat, w as nat);
    } else {
        vstd::arithmetic::div_mod::lemma_fundamental_div_mod_converse(
            col - ax,
            w,
            -1,
            col - ax + w,
        );
        vstd::arithmetic::div_mod::lemma_fundamental_div_mod_converse(col + w, w, 1, col);
    }
}

/// Whether an array of `w` by `h` cells can be made: whether every
/// canonical coordinate fits the coordinate type and the number of cells
/// fits `usize`.
pub open spec fn spec_grid_fits(w: u32, h: u32) -> bool {
    w <= i32::MAX && h <= i32::MAX && w * h <= usize::MAX
}

/// Whether an array of `w` by `h` cells can be made.
#[verifier::when_used_as_spec(spec_grid_fits)]
pub fn grid_fits(w: u32, h: u32) -> (b: bool)
    ensures
        b == spec_grid_fits(w, h),
{
    if w > 0x7fff_ffff || h > 0x7fff_ffff {
        return false;
    }
    assert(w * h <= 0x7fff_ffff * 0x7fff_ffff) by (nonlinear_arith)
        requires
            w <= 0x7fff_ffff,
            h <= 0x7fff_ffff,
    ;
    (w as u64) * (h as u64) <= usize::MAX as u64
}

/// A `w` by `h` array of cells.
#[derive(Clone, Debug)]
pub struct Array2d<T> {
    w: u32,
    h: u32,
    cells: Vec<T>,
}

impl<T> View for Array2d<T> {
    type V = Seq<T>;

    /// The cells row by row, each row from column 0 upwards.
    closed spec fn view(&self) -> Seq<T> {
        self.cells@
    }
}

impl<T: Copy> Array2d<T> {
    /// The number of columns.
    pub closed spec fn width(&self) -> nat {
        self.w as nat
    }

    /// The number of rows.
    pub closed spec fn height(&self) -> nat {
        self.h as nat
    }

    /// The array holds one cell for each column of each row, and every
    /// canonical coordinate fits the coordinate type.
    pub open spec fn wf(&self) -> bool {
        &&& self@.len() == self.width() * self.height()
        &&& self.width() <= i32::MAX
        &&& self.height() <= i32::MAX
    }

    /// The cell that `c` names.
    pub open spec fn at(&self, c: Coords) -> T {
        self@[cell_index(c, self.width())]
    }

    /// An array in which every cell holds `v`.
    pub fn new(w: u32, h: u32, v: T) -> (a: Self)
        requires
            spec_grid_fits(w, h),
        ensures
            a.wf(),
            a.width() == w,
            a.height() == h,
            a@ == Seq::new((w * h) as nat, |i: int| v),
    {
        let n: usize = (w as usize) * (h as usize);
        let mut cells: Vec<T> = Vec::new();
        let mut i: usize = 0;
        while i < n
            invariant
                i <= n,
                cells@.len() == i,
                forall|j: int| 0 <= j < i ==> cells@[j] == v,
            decreases n - i,
        {
            cells.push(v);
            i = i + 1;
        }
        assert(cells@ =~= Seq::new((w * h) as nat, |i: int| v));
        Array2d { w, h, cells }
    }

    /// Whether the array is whole.
    pub fn check(&self) -> (b: bool)
        ensures
            b == self.wf(),
    {
        if self.w > 0x7fff_ffff || self.h > 0x7fff_ffff {
            return false;
        }
        assert(self.w * self.h <= 0x7fff_ffff * 0x7fff_ffff) by (nonlinear_arith)
            requires
                self.w <= 0x7fff_ffff,
                self.h <= 0x7fff_ffff,
        ;
        (self.w as u64) * (self.h as u64) == self.cells.len() as u64
    }

    /// Whether `c` names a cell without wrapping.
    pub fn is_canonical(&self, c: Coords) -> (b: bool)
        ensures
            b == canonical(c, self.width(), self.height()),
    {
        0 <= c.0 && (c.0 as i64) < (self.w as i64) && 0 <= c.1 && (c.1 as i64) < (self.h as i64)
    }

    /// The numbers of columns and of rows.
    pub fn size(&self) -> (s: (u32, u32))
        ensures
            s.0 == self.width(),
            s.1 == self.height(),
    {
        (self.w, self.h)
    }

    /// The number of cells.
    pub fn len(&self) -> (n: usize)
        requires
            self.wf(),
        ensures
            n == self@.len(),
            n == self.width() * self.height(),
    {
        self.cells.len()
    }

    /// Whether `c` names a cell.
    pub fn in_range(&self, c: Coords) -> (b: bool)
        ensures
            b == in_grid(c, self.width(), self.height()),
    {
        self.w > 0 && 0 <= c.1 && (c.1 as i64) < (self.h as i64)
    }

    /// The canonical coordinates of the cell that `c` names.
    pub fn wrap(&self, c: Coords) -> (r: Result<Coords, PlanetError>)
        requires
            self.wf(),
        ensures
            in_grid(c, self.width(), self.height()) ==> r == Ok::<Coords, PlanetError>(
                Coords(wrap(c.0 as int, self.width() as int) as i32, c.1),
            ),
            !in_grid(c, self.width(), self.height()) ==> r == Err::<Coords, PlanetError>(
                PlanetError::OutOfBounds,
            ),
    {
        if !self.in_range(c) {
            return Err(PlanetError::OutOfBounds);
        }
        let x: u32 = wrap_column(c.0, self.w);
        Ok(Coords(x as i32, c.1))
    }

    /// The position of the cell that `c` names.
    pub fn index_of(&self, c: Coords) -> (r: Result<usize, PlanetError>)
        requires
            self.wf(),
        ensures
            in_grid(c, self.width(), self.height()) ==> r is Ok && r->Ok_0 == cell_index(
                c,
                self.width(),
            ) && r->Ok_0 < self@.len(),
            !in_grid(c, self.width(), self.height()) ==> r == Err::<usize, PlanetError>(
                PlanetError::OutOfBounds,
            ),
    {
        if !self.in_range(c) {
            return Err(PlanetError::OutOfBounds);
        }
        let x: u32 = wrap_column(c.0, self.w);
        proof {
            assert(self.cells@.len() == self.cells.len());
            lemma_cell_index_bounds(c, self.w as nat, self.h as nat);
            assert(0 <= c.1 * self.w <= c.1 * self.w + x) by (nonlinear_arith)
                requires
                    0 <= c.1,
                    0 <= x,
            ;
        }
        Ok((c.1 as usize) * (self.w as usize) + (x as usize))
    }

    /// The canonical coordinates of the cell at position `i`.
    pub fn coords_of(&self, i: usize) -> (c: Coords)
        requires
            self.wf(),
            i < self@.len(),
        ensures
            c == cell_coords(i as int, self.width()),
            canonical(c, self.width(), self.height()),
            cell_index(c, self.width()) == i,
    {
        proof {
            lemma_cell_coords_inverse(i as int, self.w as nat, self.h as nat);
            reveal(cell_coords);
        }
        let w: usize = self.w as usize;
        Coords((i % w) as i32, (i / w) as i32)
    }

    /// The cell that `c` names, or `OutOfBounds` where its row is none of
    /// the grid's.
    pub fn get(&self, c: Coords) -> (r: Result<T, PlanetError>)
        requires
            self.wf(),
        ensures
            in_grid(c, self.width(), self.height()) ==> r == Ok::<T, PlanetError>(self.at(c)),
            !in_grid(c, self.width(), self.height()) ==> r == Err::<T, PlanetError>(
                PlanetError::OutOfBounds,
            ),
    {
        match self.index_of(c) {
            Ok(i) => Ok(self.cells[i]),
            Err(e) => Err(e),
        }
    }

    /// Puts `v` into the cell that `c` names and leaves every other cell as
    /// it was; changes nothing where `c` names no cell.
    pub fn set(&mut self, c: Coords, v: T) -> (r: Result<(), PlanetError>)
        requires
            old(self).wf(),
        ensures
            final(self).wf(),
            final(self).width() == old(self).width(),
            final(self).height() == old(self).height(),
            in_grid(c, old(self).width(), old(self).height()) ==> r is Ok && final(self)@ == old(
                self,
            )@.update(cell_index(c, old(self).width()), v),
            !in_grid(c, old(self).width(), old(self).height()) ==> r == Err::<(), PlanetError>(
                PlanetError::OutOfBounds,
            ) && final(self)@ == old(self)@,
    {
        match self.index_of(c) {
            Ok(i) => {
                self.cells.set(i, v);
                Ok(())
            },
            Err(e) => Err(e),
        }
    }

    /// The position of the cell with the canonical coordinates `c`.
    pub fn canonical_index(&self, c: Coords) -> (i: usize)
        requires
            self.wf(),
            canonical(c, self.width(), self.height()),
        ensures
            i == cell_index(c, self.width()),
            i < self@.len(),
            cell_coords(i as int, self.width()) == c,
    {
        proof {
            assert(self.cells@.len() == self.cells.len());
            lemma_cell_coords_of_index(c, self.w as nat, self.h as nat);
            lemma_cell_index_bounds(c, self.w as nat, self.h as nat);
            lemma_wrap_small(c.0 as int, self.w as int);
            assert(0 <= c.1 * self.w <= c.1 * self.w + c.0) by (nonlinear_arith)
                requires
                    0 <= c.1,
                    0 <= c.0,
                    0 <= self.w,
            ;
        }
        (c.1 as usize) * (self.w as usize) + (c.0 as usize)
    }

    /// The middle of the cell that `c` names, as two fractions, each a
    /// numerator and a denominator: how far around the planet the middle
    /// of its column lies, and how far down the grid the middle of its
    /// row. Fails with `OutOfBounds` where `c` names no cell.
    pub fn middle_of(&self, c: Coords) -> (r: Result<((u64, u64), (u64, u64)), PlanetError>)
        requires
            self.wf(),
        ensures
            in_grid(c, self.width(), self.height()) ==> r is Ok && r->Ok_0.0.0 == cell_middle(
                c,
                self.width(),
                self.height(),
            ).0.0 && r->Ok_0.0.1 == cell_middle(c, self.width(), self.height()).0.1
                && r->Ok_0.1.0 == cell_middle(c, self.width(), self.height()).1.0
                && r->Ok_0.1.1 == cell_middle(c, self.width(), self.height()).1.1,
            !in_grid(c, self.width(), self.height()) ==> r == Err::<
                ((u64, u64), (u64, u64)),
                PlanetError,
            >(PlanetError::OutOfBounds),
    {
        if !self.in_range(c) {
            return Err(PlanetError::OutOfBounds);
        }
        let x: u32 = wrap_column(c.0, self.w);
        Ok(
            (
                (2 * (x as u64) + 1, 2 * (self.w as u64)),
                (2 * (c.1 as u64) + 1, 2 * (self.h as u64)),
            ),
        )
    }

    /// The neighbour in the direction `dir` of the cell that `c` names, in
    /// canonical coordinates; none where `c` names no cell, to the north of
    /// row 0 and to the south of the last row.
    pub fn neighbour_of(&self, c: Coords, dir: Direction) -> (q: Option<Coords>)
        requires
            self.wf(),
        ensures
            q == (if in_grid(c, self.width(), self.height()) {
                neighbour(
                    Coords(wrap(c.0 as int, self.width() as int) as i32, c.1),
                    dir,
                    self.width(),
                    self.height(),
                )
            } else {
                None
            }),
            q matches Some(p) ==> canonical(p, self.width(), self.height()),
    {
        if !self.in_range(c) {
            return None;
        }
        let x: i32 = wrap_column(c.0, self.w) as i32;
        let y: i32 = c.1;
        proof {
            lemma_neighbour_symmetric(Coords(x, y), dir, self.w as nat, self.h as nat);
            lemma_wrap_step(x as int, self.w as int);
        }
        match dir {
            Direction::West => Some(
                Coords(
                    if x > 0 {
                        x - 1
                    } else {
                        (self.w - 1) as i32
                    },
                    y,
                ),
            ),
            Direction::East => Some(
                Coords(
                    if (x as u32) + 1 < self.w {
                        x + 1
                    } else {
                        0
                    },
                    y,
                ),
            ),
            Direction::North => if y > 0 {
                Some(Coords(x, y - 1))
            } else {
                None
            },
            Direction::South => if (y as u32) + 1 < self.h {
                Some(Coords(x, y + 1))
            } else {
                None
            },
        }
    }

    /// The cell at position `i`.
    pub fn cell(&self, i: usize) -> (v: T)
        requires
            self.wf(),
            i < self@.len(),
        ensures
            v == self@[i as int],
    {
        self.cells[i]
    }

    /// Puts `v` into the cell at position `i`.
    pub fn set_cell(&mut self, i: usize, v: T)
        requires
            old(self).wf(),
            i < old(self)@.len(),
        ensures
            final(self).wf(),
            final(self).width() == old(self).width(),
            final(self).height() == old(self).height(),
            final(self)@ == old(self)@.update(i as int, v),
    {
        self.cells.set(i, v);
    }
}

/// The column `d` columns on from column `ax`, around the planet where the
/// grid ends. From a column of the grid, less than once around, the way
/// back is `d` columns.
pub fn shift_column(ax: u32, d: u32, w: u32) -> (x: u32)
    requires
        w > 0,
    ensures
        x == wrap(ax + d, w as int),
        x < w,
        ax < w && d < w ==> wrap(x - ax, w as int) == d,
{
    proof {
        if ax < w && d < w {
            lemma_offset_roundtrip(ax as int, d as int, w as int);
        }
        lemma_wrap_range(ax + d, w as int);
        reveal(wrap);
    }
    ((ax as u64 + d as u64) % (w as u64)) as u32
}

/// The column that `x` names on a grid of `w` columns.
pub fn wrap_column(x: i32, w: u32) -> (r: u32)
    requires
        w > 0,
    ensures
        r == wrap(x as int, w as int),
        r < w,
{
    proof {
        reveal(wrap);
    }
    if x >= 0 {
        (x as u32) % w
    } else {
        let back: u32 = (-(x as i64)) as u32;
        let m: u32 = back % w;
        proof {
            let (xi, wi) = (x as int, w as int);
            let q = back as int / wi;
            assert(back == wi * q + m) by {
                vstd::arithmetic::div_mod::lemma_fundamental_div_mod(back as int, wi);
            }
            if m == 0 {
                assert(xi == (-q) * wi + 0) by (nonlinear_arith)
                    requires
                        xi == -(wi * q + 0),
                ;
                vstd::arithmetic::div_mod::lemma_fundamental_div_mod_converse(xi, wi, -q, 0);
            } else {
                assert(xi == (-q - 1) * wi + (wi - m)) by (nonlinear_arith)
                    requires
                        xi == -(wi * q + m),
                ;
                vstd::arithmetic::div_mod::lemma_fundamental_div_mod_converse(
                    xi,
                    wi,
                    -q - 1,
                    wi - m,
                );
            }
        }
        if m == 0 {
            0
        } else {
            w - m
        }
    }
}

} // verus!
