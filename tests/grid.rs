use flip_fluid::grid::Grid;

#[test]
fn new_grid_has_size_and_default_values() {
    let grid: Grid<i32> = Grid::new(3, 2);
    assert_eq!(grid.cols(), 3);
    assert_eq!(grid.rows(), 2);
    assert_eq!(grid.iter().count(), 6);
    assert!(grid.iter().all(|v| *v == 0));
}

#[test]
fn get_rejects_indices_outside_the_grid() {
    let grid: Grid<i32> = Grid::new(3, 2);
    assert_eq!(grid.get(0, 0), Some(&0));
    assert_eq!(grid.get(2, 1), Some(&0));
    assert_eq!(grid.get(-1, 0), None);
    assert_eq!(grid.get(0, -1), None);
    assert_eq!(grid.get(3, 0), None);
    assert_eq!(grid.get(0, 2), None);
    assert_eq!(grid.get(i32::MAX, i32::MIN), None);
}

#[test]
fn storage_is_row_by_row() {
    let mut grid: Grid<i32> = Grid::new(3, 2);
    *grid.get_mut(1, 0).unwrap() = 7;
    *grid.get_mut(0, 1).unwrap() = 9;
    let values: Vec<i32> = grid.iter().copied().collect();
    assert_eq!(values, vec![0, 7, 0, 9, 0, 0]);
    assert_eq!(grid.get(1, 0), Some(&7));
    assert_eq!(grid.get(0, 1), Some(&9));
}

#[test]
fn get_mut_outside_the_grid_changes_nothing() {
    let mut grid: Grid<i32> = Grid::new(2, 2);
    assert!(grid.get_mut(2, 0).is_none());
    assert!(grid.get_mut(0, -1).is_none());
    assert!(grid.iter().all(|v| *v == 0));
}

#[test]
fn with_default_value_and_fill_set_every_cell() {
    let grid: Grid<f32> = Grid::new(4, 3).with_default_value(1.5);
    assert!(grid.iter().all(|v| *v == 1.5));
    let mut grid = grid;
    grid.fill(-2.0);
    assert_eq!(grid.iter().count(), 12);
    assert!(grid.iter().all(|v| *v == -2.0));
}

#[test]
fn set_writes_one_cell_and_ignores_outside() {
    let mut grid: Grid<u8> = Grid::new(2, 2);
    grid.set(1, 1, 5);
    grid.set(2, 1, 6);
    grid.set(-1, 0, 6);
    let values: Vec<u8> = grid.iter().copied().collect();
    assert_eq!(values, vec![0, 0, 0, 5]);
}

#[test]
fn iter_mut_updates_in_place() {
    let mut grid: Grid<i32> = Grid::new(2, 3);
    for (k, v) in grid.iter_mut().iter_mut().enumerate() {
        *v = k as i32;
    }
    assert_eq!(grid.get(1, 2), Some(&5));
    assert_eq!(grid.get(0, 1), Some(&2));
}

#[test]
fn copy_from_takes_every_value() {
    let mut source: Grid<i32> = Grid::new(2, 2);
    source.set(0, 1, 4);
    let mut target: Grid<i32> = Grid::new(2, 2).with_default_value(8);
    target.copy_from(&source);
    let values: Vec<i32> = target.iter().copied().collect();
    assert_eq!(values, vec![0, 0, 4, 0]);
}

#[test]
fn empty_grid_has_no_cells() {
    let grid: Grid<i32> = Grid::new(0, 5);
    assert_eq!(grid.iter().count(), 0);
    assert_eq!(grid.get(0, 0), None);
}
