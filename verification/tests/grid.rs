use planet_sim::grid::{grid_fits, shift_column, wrap_column, Direction};
use planet_sim::{Array2d, Coords, PlanetError};

#[test]
fn a_new_array_holds_the_value_everywhere() {
    let a: Array2d<u8> = Array2d::new(4, 3, 9);
    assert_eq!(a.size(), (4, 3));
    assert_eq!(a.len(), 12);
    for y in 0..3 {
        for x in 0..4 {
            assert_eq!(a.get(Coords(x, y)), Ok(9));
        }
    }
}

#[test]
fn columns_wrap_and_rows_do_not() {
    let mut a: Array2d<i32> = Array2d::new(4, 3, 0);
    assert_eq!(a.set(Coords(1, 2), 7), Ok(()));
    assert_eq!(a.get(Coords(5, 2)), Ok(7));
    assert_eq!(a.get(Coords(-3, 2)), Ok(7));
    assert_eq!(a.get(Coords(-7, 2)), Ok(7));
    assert_eq!(a.get(Coords(1, 3)), Err(PlanetError::OutOfBounds));
    assert_eq!(a.get(Coords(1, -1)), Err(PlanetError::OutOfBounds));
    assert_eq!(a.set(Coords(0, 3), 1), Err(PlanetError::OutOfBounds));
    assert!(a.in_range(Coords(i32::MIN, 0)));
    assert!(a.in_range(Coords(i32::MAX, 2)));
    assert!(!a.in_range(Coords(0, 3)));
    assert_eq!(a.wrap(Coords(-1, 1)), Ok(Coords(3, 1)));
    assert_eq!(a.wrap(Coords(i32::MIN, 1)), Ok(Coords(0, 1)));
    assert_eq!(a.wrap(Coords(i32::MAX, 1)), Ok(Coords(3, 1)));
    assert_eq!(a.wrap(Coords(0, 3)), Err(PlanetError::OutOfBounds));
}

#[test]
fn positions_run_row_by_row() {
    let mut a: Array2d<u32> = Array2d::new(3, 2, 0);
    assert_eq!(a.index_of(Coords(0, 0)), Ok(0));
    assert_eq!(a.index_of(Coords(2, 0)), Ok(2));
    assert_eq!(a.index_of(Coords(0, 1)), Ok(3));
    assert_eq!(a.index_of(Coords(4, 1)), Ok(4));
    assert_eq!(a.index_of(Coords(0, 2)), Err(PlanetError::OutOfBounds));
    assert_eq!(a.canonical_index(Coords(2, 1)), 5);
    for i in 0..a.len() {
        let c = a.coords_of(i);
        assert_eq!(a.index_of(c), Ok(i));
        a.set_cell(i, i as u32 + 1);
    }
    assert_eq!(a.coords_of(4), Coords(1, 1));
    assert_eq!(a.cell(4), 5);
    assert_eq!(a.get(Coords(1, 1)), Ok(5));
}

#[test]
fn an_array_without_columns_has_no_cells() {
    let a: Array2d<u8> = Array2d::new(0, 5, 1);
    assert_eq!(a.len(), 0);
    assert!(!a.in_range(Coords(0, 0)));
    assert_eq!(a.get(Coords(0, 0)), Err(PlanetError::OutOfBounds));
}

#[test]
fn wrap_column_is_the_euclidean_remainder() {
    assert_eq!(wrap_column(0, 10), 0);
    assert_eq!(wrap_column(9, 10), 9);
    assert_eq!(wrap_column(10, 10), 0);
    assert_eq!(wrap_column(-1, 10), 9);
    assert_eq!(wrap_column(-10, 10), 0);
    assert_eq!(wrap_column(-11, 10), 9);
    assert_eq!(wrap_column(i32::MIN, 10), 2);
    assert_eq!(wrap_column(i32::MIN, u32::MAX), 2147483647);
    assert_eq!(wrap_column(7, 1), 0);
}

#[test]
fn shift_column_goes_around_the_planet() {
    assert_eq!(shift_column(3, 0, 10), 3);
    assert_eq!(shift_column(3, 6, 10), 9);
    assert_eq!(shift_column(3, 7, 10), 0);
    assert_eq!(shift_column(9, 9, 10), 8);
    assert_eq!(shift_column(3, 27, 10), 0);
    assert_eq!(shift_column(u32::MAX, u32::MAX, 10), 0);
    assert_eq!(shift_column(u32::MAX, u32::MAX, u32::MAX), 0);
}

#[test]
fn coords_come_from_pairs() {
    assert_eq!(Coords::from((3, -4)), Coords(3, -4));
    assert_eq!(Coords::new(1, 2), Coords(1, 2));
}

#[test]
fn neighbours_wrap_east_and_west_and_end_north_and_south() {
    let a: Array2d<u8> = Array2d::new(4, 3, 0);
    assert_eq!(a.neighbour_of(Coords(0, 0), Direction::West), Some(Coords(3, 0)));
    assert_eq!(a.neighbour_of(Coords(0, 0), Direction::East), Some(Coords(1, 0)));
    assert_eq!(a.neighbour_of(Coords(3, 1), Direction::East), Some(Coords(0, 1)));
    assert_eq!(a.neighbour_of(Coords(3, 1), Direction::West), Some(Coords(2, 1)));
    assert_eq!(a.neighbour_of(Coords(2, 0), Direction::North), None);
    assert_eq!(a.neighbour_of(Coords(2, 0), Direction::South), Some(Coords(2, 1)));
    assert_eq!(a.neighbour_of(Coords(2, 2), Direction::South), None);
    assert_eq!(a.neighbour_of(Coords(2, 2), Direction::North), Some(Coords(2, 1)));
    // any name of a cell will do
    assert_eq!(a.neighbour_of(Coords(-1, 0), Direction::East), Some(Coords(0, 0)));
    assert_eq!(a.neighbour_of(Coords(8, 1), Direction::West), Some(Coords(3, 1)));
    assert_eq!(a.neighbour_of(Coords(6, 1), Direction::South), Some(Coords(2, 2)));
    // and what names no cell has no neighbours
    assert_eq!(a.neighbour_of(Coords(0, 3), Direction::North), None);
    assert_eq!(a.neighbour_of(Coords(0, -1), Direction::South), None);
}

#[test]
fn every_neighbour_has_the_cell_as_its_neighbour_the_other_way() {
    for (w, h) in [(1u32, 1u32), (2, 1), (1, 3), (2, 2), (5, 4)] {
        let a: Array2d<u8> = Array2d::new(w, h, 0);
        for i in 0..a.len() {
            let c = a.coords_of(i);
            for dir in Direction::all() {
                if let Some(q) = a.neighbour_of(c, dir) {
                    assert!(a.is_canonical(q));
                    assert_eq!(a.neighbour_of(q, dir.opposite()), Some(c));
                }
            }
        }
    }
}

#[test]
fn on_a_planet_one_tile_round_a_cell_is_its_own_neighbour() {
    let a: Array2d<u8> = Array2d::new(1, 2, 0);
    assert_eq!(a.neighbour_of(Coords(0, 1), Direction::West), Some(Coords(0, 1)));
    assert_eq!(a.neighbour_of(Coords(0, 1), Direction::East), Some(Coords(0, 1)));
    assert_eq!(a.neighbour_of(Coords(0, 1), Direction::North), Some(Coords(0, 0)));
    assert_eq!(a.neighbour_of(Coords(0, 1), Direction::South), None);
}

#[test]
fn grids_must_fit_the_coordinates() {
    assert!(grid_fits(0, 0));
    assert!(grid_fits(10, 10));
    assert!(grid_fits(i32::MAX as u32, 1));
    assert!(!grid_fits(i32::MAX as u32 + 1, 1));
    assert!(!grid_fits(1, u32::MAX));
    let a: Array2d<u8> = Array2d::new(3, 2, 0);
    assert!(a.check());
    assert!(a.is_canonical(Coords(2, 1)));
    assert!(!a.is_canonical(Coords(3, 1)));
    assert!(!a.is_canonical(Coords(-1, 1)));
    assert!(!a.is_canonical(Coords(0, 2)));
}

#[test]
fn the_middle_of_a_cell_lies_inside_it() {
    let a: Array2d<u8> = Array2d::new(10, 4, 0);
    assert_eq!(a.middle_of(Coords(0, 0)), Ok(((1, 20), (1, 8))));
    assert_eq!(a.middle_of(Coords(9, 3)), Ok(((19, 20), (7, 8))));
    assert_eq!(a.middle_of(Coords(-1, 2)), Ok(((19, 20), (5, 8))));
    assert_eq!(a.middle_of(Coords(13, 1)), Ok(((7, 20), (3, 8))));
    assert_eq!(a.middle_of(Coords(0, 4)), Err(PlanetError::OutOfBounds));
    assert_eq!(a.middle_of(Coords(0, -1)), Err(PlanetError::OutOfBounds));
    for i in 0..a.len() {
        let c = a.coords_of(i);
        let ((across, around), (down, rows)) = a.middle_of(c).unwrap();
        assert!(0 < across && across < around);
        assert!(0 < down && down < rows);
        // the middle names the cell
        assert_eq!(across * 10 / around, c.0 as u64);
        assert_eq!(down * 4 / rows, c.1 as u64);
        // and so do the angles computed from it
        let longitude = across as f64 / around as f64 * 2.0 * std::f64::consts::PI;
        let latitude = (down as f64 / rows as f64 * 2.0 - 1.0).asin();
        assert!((0.0..2.0 * std::f64::consts::PI).contains(&longitude));
        assert!(latitude.abs() <= std::f64::consts::FRAC_PI_2);
        let x = (longitude / (2.0 * std::f64::consts::PI) * 10.0).floor() as i32;
        let y = ((latitude.sin() + 1.0) / 2.0 * 4.0).floor() as i32;
        assert_eq!(Coords(x, y), c);
    }
}
