use alife::{CellType, Coord, Grid};

#[test]
fn new_grid_is_empty() {
    let grid = Grid::new(4, 3);
    assert_eq!(grid.width(), 4);
    assert_eq!(grid.height(), 3);
    assert_eq!(grid.count(CellType::Empty), 12);
    assert_eq!(grid.count(CellType::Organism), 0);
    assert_eq!(grid.count(CellType::Consumable), 0);
    for y in 0..3 {
        for x in 0..4 {
            assert_eq!(grid.get(Coord::new(x, y)), CellType::Empty);
        }
    }
}

#[test]
fn grid_without_cells() {
    let grid = Grid::new(0, 7);
    assert_eq!(grid.count(CellType::Empty), 0);
    assert!(grid.get_cell_coords(CellType::Empty).is_empty());
    assert!(!grid.in_bounds(Coord::new(0, 0)));
}

#[test]
fn set_changes_one_cell() {
    let mut grid = Grid::new(4, 3);
    grid.set(Coord::new(1, 2), CellType::Organism);
    for y in 0..3 {
        for x in 0..4 {
            let expected = if (x, y) == (1, 2) { CellType::Organism } else { CellType::Empty };
            assert_eq!(grid.get(Coord::new(x, y)), expected);
        }
    }
    grid.set(Coord::new(1, 2), CellType::Consumable);
    assert_eq!(grid.get(Coord::new(1, 2)), CellType::Consumable);
    assert_eq!(grid.count(CellType::Organism), 0);
    assert_eq!(grid.count(CellType::Consumable), 1);
    assert_eq!(grid.count(CellType::Empty), 11);
}

#[test]
fn x_and_y_are_not_swapped() {
    let mut grid = Grid::new(5, 2);
    grid.set(Coord::new(4, 0), CellType::Organism);
    grid.set(Coord::new(0, 1), CellType::Consumable);
    assert_eq!(grid.get(Coord::new(4, 0)), CellType::Organism);
    assert_eq!(grid.get(Coord::new(0, 1)), CellType::Consumable);
    assert_eq!(grid.get(Coord::new(3, 0)), CellType::Empty);
    assert_eq!(grid.get(Coord::new(1, 1)), CellType::Empty);
}

#[test]
fn in_bounds_is_strict() {
    let grid = Grid::new(4, 3);
    assert!(grid.in_bounds(Coord::new(0, 0)));
    assert!(grid.in_bounds(Coord::new(3, 2)));
    assert!(!grid.in_bounds(Coord::new(4, 2)));
    assert!(!grid.in_bounds(Coord::new(3, 3)));
    assert!(!grid.in_bounds(Coord::new(usize::MAX, 0)));
}

#[test]
fn cell_coords_come_row_by_row() {
    let mut grid = Grid::new(3, 3);
    grid.set(Coord::new(2, 2), CellType::Consumable);
    grid.set(Coord::new(1, 0), CellType::Consumable);
    grid.set(Coord::new(0, 1), CellType::Consumable);
    grid.set(Coord::new(2, 0), CellType::Consumable);
    grid.set(Coord::new(1, 1), CellType::Organism);
    assert_eq!(
        grid.get_cell_coords(CellType::Consumable),
        vec![Coord::new(1, 0), Coord::new(2, 0), Coord::new(0, 1), Coord::new(2, 2)]
    );
    assert_eq!(grid.get_cell_coords(CellType::Organism), vec![Coord::new(1, 1)]);
    assert_eq!(
        grid.get_cell_coords(CellType::Empty),
        vec![Coord::new(0, 0), Coord::new(2, 1), Coord::new(0, 2), Coord::new(1, 2)]
    );
}

#[test]
fn cell_coords_agree_with_count_and_get() {
    let mut grid = Grid::new(7, 5);
    for k in 0..35usize {
        let kind = match k % 3 {
            0 => CellType::Empty,
            1 => CellType::Organism,
            _ => CellType::Consumable,
        };
        grid.set(Coord::new(k % 7, k / 7), kind);
    }
    for kind in [CellType::Empty, CellType::Organism, CellType::Consumable] {
        let coords = grid.get_cell_coords(kind);
        assert_eq!(coords.len(), grid.count(kind));
        for c in coords.iter() {
            assert_eq!(grid.get(*c), kind);
        }
        for (i, a) in coords.iter().enumerate() {
            for b in coords.iter().skip(i + 1) {
                assert_ne!(a, b);
            }
        }
    }
    assert_eq!(
        grid.count(CellType::Empty) + grid.count(CellType::Organism)
            + grid.count(CellType::Consumable),
        35
    );
}

#[test]
fn cell_coords_are_the_same_for_the_same_grid() {
    let mut a = Grid::new(4, 4);
    let mut b = Grid::new(4, 4);
    a.set(Coord::new(3, 1), CellType::Organism);
    a.set(Coord::new(0, 2), CellType::Organism);
    b.set(Coord::new(0, 2), CellType::Organism);
    b.set(Coord::new(3, 1), CellType::Organism);
    assert_eq!(a.get_cell_coords(CellType::Organism), b.get_cell_coords(CellType::Organism));
}
