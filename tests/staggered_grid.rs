use flip_fluid::staggered_grid::{CellType, FaceShares, StaggeredGrid};

fn fill_faces(grid: &mut StaggeredGrid<f32>, horizontal: f32, vertical: f32) {
    let cols = grid.cols() as i32;
    let rows = grid.rows() as i32;
    for i in 0..=cols {
        for j in 0..=rows {
            if let Some(u) = grid.horizontal_velocity_mut(i, j) {
                *u = horizontal;
            }
            if let Some(v) = grid.vertical_velocity_mut(i, j) {
                *v = vertical;
            }
        }
    }
}

fn on_wall(grid: &StaggeredGrid<f32>, a: i32, b: i32, c: i32, d: i32) -> bool {
    let first = grid.cell_type(a, b).copied().unwrap_or(CellType::Empty);
    let second = grid.cell_type(c, d).copied().unwrap_or(CellType::Empty);
    (first == CellType::Solid || second == CellType::Solid) && first != second
}

#[test]
fn new_grid_has_staggered_sizes() {
    let grid: StaggeredGrid<f32> = StaggeredGrid::new(4, 3);
    assert_eq!(grid.cols(), 4);
    assert_eq!(grid.rows(), 3);
    assert_eq!(grid.cell_types().cols(), 4);
    assert_eq!(grid.cell_types().rows(), 3);
    assert_eq!(grid.horizontal_velocities().cols(), 5);
    assert_eq!(grid.horizontal_velocities().rows(), 3);
    assert_eq!(grid.vertical_velocities().cols(), 4);
    assert_eq!(grid.vertical_velocities().rows(), 4);
    assert_eq!(grid.densities().cols(), 5);
    assert_eq!(grid.densities().rows(), 4);
    assert!(grid.cell_types().iter().all(|c| *c == CellType::Empty));
}

#[test]
fn border_cells_become_solid() {
    let grid: StaggeredGrid<f32> = StaggeredGrid::new(4, 3).with_solid_border_cells();
    for i in 0..4 {
        for j in 0..3 {
            let expected = if i == 0 || i == 3 || j == 0 || j == 2 {
                CellType::Solid
            } else {
                CellType::Empty
            };
            assert_eq!(grid.cell_type(i, j), Some(&expected));
        }
    }
    assert_eq!(grid.cell_type(4, 0), None);
}

#[test]
fn reset_snapshots_and_clears() {
    let mut grid: StaggeredGrid<f32> = StaggeredGrid::new(3, 3).with_solid_border_cells();
    grid.mark_occupied_cell_as_fluid(1, 1);
    fill_faces(&mut grid, 1.0, 2.0);
    *grid.sum_horizontal_weight_mut(0, 0).unwrap() = 3.0;
    grid.reset(0.0);
    assert!(grid.horizontal_velocities().iter().all(|v| *v == 0.0));
    assert!(grid.vertical_velocities().iter().all(|v| *v == 0.0));
    assert!(grid.sum_horizontal_weights().iter().all(|v| *v == 0.0));
    assert!(grid.prev_horizontal_velocities().iter().all(|v| *v == 1.0));
    assert!(grid.prev_vertical_velocities().iter().all(|v| *v == 2.0));
    assert_eq!(grid.cell_type(1, 1), Some(&CellType::Empty));
    assert_eq!(grid.cell_type(0, 1), Some(&CellType::Solid));
}

#[test]
fn occupied_cells_turn_fluid_but_solid_stays() {
    let mut grid: StaggeredGrid<f32> = StaggeredGrid::new(3, 3).with_solid_border_cells();
    grid.mark_occupied_cell_as_fluid(1, 1);
    grid.mark_occupied_cell_as_fluid(0, 0);
    grid.mark_occupied_cell_as_fluid(5, 5);
    assert_eq!(grid.cell_type(1, 1), Some(&CellType::Fluid));
    assert_eq!(grid.cell_type(0, 0), Some(&CellType::Solid));
}

#[test]
fn setting_boundary_velocities() {
    // *****
    // *   *
    // * * *
    // *   *
    // *****
    let mut grid: StaggeredGrid<f32> = StaggeredGrid::new(5, 5).with_solid_border_cells();
    grid.set_cell_to_solid(2, 2);
    grid.reset(0.0);
    fill_faces(&mut grid, 1.0, 2.0);
    *grid.horizontal_velocity_mut(2, 1).unwrap() = 3.0;
    *grid.vertical_velocity_mut(2, 1).unwrap() = 4.0;

    grid.set_boundary_velocities(0.0);

    // the face below the wall under cell (2, 1) takes the tangential velocity
    // from the face above it; the wall itself carries no normal flow
    assert_eq!(grid.horizontal_velocity(2, 0), Some(&3.0));
    assert_eq!(grid.vertical_velocity(2, 0), Some(&0.0));
    assert_eq!(grid.vertical_velocity(2, 1), Some(&0.0));
}

#[test]
fn wall_faces_carry_no_normal_velocity() {
    let mut grid: StaggeredGrid<f32> = StaggeredGrid::new(6, 5).with_solid_border_cells();
    grid.set_cell_to_solid(3, 2);
    grid.set_cell_to_solid(2, 3);
    grid.reset(0.0);
    fill_faces(&mut grid, 1.5, -2.5);
    grid.set_boundary_velocities(0.0);
    for i in 0..=6 {
        for j in 0..=5 {
            if let Some(u) = grid.horizontal_velocity(i, j) {
                if on_wall(&grid, i, j, i - 1, j) {
                    assert_eq!(*u, 0.0);
                }
            }
            if let Some(v) = grid.vertical_velocity(i, j) {
                if on_wall(&grid, i, j, i, j - 1) {
                    assert_eq!(*v, 0.0);
                }
            }
        }
    }
    // an interior face between two open cells keeps its value
    assert_eq!(grid.horizontal_velocity(2, 1), Some(&1.5));
}

#[test]
fn boundary_rule_without_walls_changes_nothing() {
    let mut grid: StaggeredGrid<f32> = StaggeredGrid::new(3, 2);
    grid.reset(0.0);
    fill_faces(&mut grid, 1.0, 2.0);
    grid.set_boundary_velocities(0.0);
    assert!(grid.horizontal_velocities().iter().all(|v| *v == 1.0));
    assert!(grid.vertical_velocities().iter().all(|v| *v == 2.0));
}

#[test]
fn open_neighbour_count() {
    let mut grid: StaggeredGrid<f32> = StaggeredGrid::new(4, 4).with_solid_border_cells();
    assert_eq!(grid.non_solid_neighbours_count(1, 1), 2);
    assert_eq!(grid.non_solid_neighbours_count(0, 0), 0);
    grid.set_cell_to_solid(2, 1);
    assert_eq!(grid.non_solid_neighbours_count(1, 1), 1);
    assert_eq!(grid.contribute_to_solid_cell_count(1, 2), 1);
    assert_eq!(grid.contribute_to_solid_cell_count(2, 1), 0);
    assert_eq!(grid.contribute_to_solid_cell_count(-1, 1), 0);
    let open: StaggeredGrid<f32> = StaggeredGrid::new(3, 3);
    assert_eq!(open.non_solid_neighbours_count(1, 1), 4);
    assert_eq!(open.non_solid_neighbours_count(0, 0), 2);
}

#[test]
fn particle_cells_of_the_scenario_become_fluid() {
    // a 10 x 10 grid with spacing 10 and four particles in distinct cells
    let spacing = 10.0f32;
    let particles = [(15.0f32, 55.0f32), (35.0, 55.0), (55.0, 75.0), (75.0, 25.0)];
    let mut grid: StaggeredGrid<f32> = StaggeredGrid::new(10, 10).with_solid_border_cells();
    grid.reset(0.0);
    for (x, y) in particles {
        let i = (x / spacing).floor() as i32;
        let j = (y / spacing).floor() as i32;
        grid.mark_occupied_cell_as_fluid(i, j);
    }
    assert_eq!(grid.cell_type(1, 5), Some(&CellType::Fluid));
    assert_eq!(grid.cell_type(3, 5), Some(&CellType::Fluid));
    assert_eq!(grid.cell_type(5, 7), Some(&CellType::Fluid));
    assert_eq!(grid.cell_type(7, 2), Some(&CellType::Fluid));
    let fluid = grid.cell_types().iter().filter(|c| **c == CellType::Fluid).count();
    assert_eq!(fluid, 4);
}

#[test]
fn density_field_can_be_cleared() {
    let mut grid: StaggeredGrid<f32> = StaggeredGrid::new(2, 2);
    *grid.density_mut(2, 2).unwrap() = 4.0;
    assert_eq!(grid.densities().get(2, 2), Some(&4.0));
    assert!(grid.density_mut(3, 0).is_none());
    grid.fill_densities(0.0);
    assert!(grid.densities().iter().all(|d| *d == 0.0));
}

#[test]
fn face_shares_of_fluid_cells() {
    let mut grid: StaggeredGrid<f32> = StaggeredGrid::new(4, 4).with_solid_border_cells();
    grid.mark_occupied_cell_as_fluid(1, 1);
    grid.mark_occupied_cell_as_fluid(2, 2);
    assert_eq!(
        grid.face_shares(1, 1),
        Some(FaceShares { left: 0, right: 1, down: 0, up: 1, total: 2 })
    );
    // an empty cell takes no part
    assert_eq!(grid.face_shares(2, 1), None);
    // a solid cell takes no part
    assert_eq!(grid.face_shares(0, 0), None);
    // a fluid cell walled in on all sides takes no part
    let mut walled: StaggeredGrid<f32> = StaggeredGrid::new(3, 3).with_solid_border_cells();
    walled.mark_occupied_cell_as_fluid(1, 1);
    assert_eq!(walled.face_shares(1, 1), None);
}

/// Gives every face its own value: horizontal `100 i + j`, vertical `-(100 i + j)`.
fn number_faces(grid: &mut StaggeredGrid<f32>) {
    let cols = grid.cols() as i32;
    let rows = grid.rows() as i32;
    for i in 0..=cols {
        for j in 0..=rows {
            let value = (100 * i + j) as f32;
            if let Some(u) = grid.horizontal_velocity_mut(i, j) {
                *u = value;
            }
            if let Some(v) = grid.vertical_velocity_mut(i, j) {
                *v = -value;
            }
        }
    }
}

#[test]
fn tangential_velocity_is_copied_from_the_fluid_side() {
    let mut grid: StaggeredGrid<f32> = StaggeredGrid::new(3, 3);
    grid.set_cell_to_solid(1, 1);
    grid.set_cell_to_solid(1, 0);
    grid.set_cell_to_solid(2, 1);
    number_faces(&mut grid);
    grid.set_boundary_velocities(0.0);
    // wall between empty (0, 1) and solid (1, 1): the solid side takes the value
    assert_eq!(grid.vertical_velocity(1, 1), Some(&-1.0));
    assert_eq!(grid.vertical_velocity(0, 1), Some(&-1.0));
}

#[test]
fn tangential_copy_at_the_right_and_top_walls() {
    let mut grid: StaggeredGrid<f32> = StaggeredGrid::new(4, 4).with_solid_border_cells();
    number_faces(&mut grid);
    grid.set_boundary_velocities(0.0);
    // right wall: solid (3, 2) takes the vertical velocity of open (2, 2)
    assert_eq!(grid.vertical_velocity(3, 2), Some(&-202.0));
    assert_eq!(grid.vertical_velocity(2, 2), Some(&-202.0));
    // top wall: solid (2, 3) takes the horizontal velocity of open (2, 2)
    assert_eq!(grid.horizontal_velocity(2, 3), Some(&202.0));
    assert_eq!(grid.horizontal_velocity(2, 2), Some(&202.0));
    // left wall: solid (0, 2) takes the vertical velocity of open (1, 2)
    assert_eq!(grid.vertical_velocity(0, 2), Some(&-102.0));
    assert_eq!(grid.vertical_velocity(1, 2), Some(&-102.0));
}
