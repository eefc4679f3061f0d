use vstd::prelude::*;

use crate::grid::Grid;

verus! {

/// Classification of a grid cell.
#[derive(Clone, Copy, Debug, PartialEq, Eq, Structural, Default)]
pub enum CellType {
    #[default]
    Empty,
    Fluid,
    Solid,
}

/// For a fluid cell under relaxation: which of its four faces may take a share
/// of the divergence correction (1 when the neighbour across that face lies
/// inside the grid and is not solid, else 0), and how many do.
#[derive(Clone, Copy, Debug, PartialEq, Eq, Structural)]
pub struct FaceShares {
    pub left: u32,
    pub right: u32,
    pub down: u32,
    pub up: u32,
    pub total: u32,
}

/// Two cells meet at a wall when exactly one of them is solid.
pub open spec fn on_solid_boundary(first: CellType, second: CellType) -> bool {
    (first == CellType::Solid || second == CellType::Solid) && first != second
}

/// The type of cell `(i, j)` of `cells`; cells outside the grid count as empty.
pub open spec fn type_at(cells: Grid<CellType>, i: int, j: int) -> CellType {
    if cells.in_bounds(i, j) {
        cells.cell(i, j)
    } else {
        CellType::Empty
    }
}

/// Face `(a, b)` of `field` belongs to cell `(a, b)`. When that cell is solid,
/// the face takes the value of the same face of the non-solid neighbour at
/// `(a - di, b - dj)`, or failing that at `(a + di, b + dj)`: the tangential
/// velocity is copied from the fluid side of a wall into the solid side, and
/// a face of a non-solid cell keeps its value.
pub open spec fn copied_tangential<T>(
    field: Grid<T>,
    cells: Grid<CellType>,
    di: int,
    dj: int,
    a: int,
    b: int,
) -> T {
    let solid = type_at(cells, a, b) == CellType::Solid;
    if solid && type_at(cells, a - di, b - dj) != CellType::Solid && field.in_bounds(a - di, b - dj) {
        field.cell(a - di, b - dj)
    } else if solid && type_at(cells, a + di, b + dj) != CellType::Solid && field.in_bounds(
        a + di,
        b + dj,
    ) {
        field.cell(a + di, b + dj)
    } else {
        field.cell(a, b)
    }
}

/// The type of cell `(i, j)`, with cells outside the grid taken as empty.
fn type_or_empty(cells: &Grid<CellType>, i: i32, j: i32) -> (r: CellType)
    requires
        cells.wf(),
    ensures
        r == type_at(*cells, i as int, j as int),
{
    match cells.get(i, j) {
        Some(c) => *c,
        None => CellType::Empty,
    }
}

/// Applies `copied_tangential` to every face of `field`. Only faces of solid
/// cells are written and only faces of non-solid cells are read, so every
/// value read is the one the field held on entry.
fn copy_tangential<T: Copy + Default>(field: &mut Grid<T>, cells: &Grid<CellType>, di: i32, dj: i32)
    requires
        old(field).wf(),
        cells.wf(),
        old(field).spec_cols() <= i32::MAX,
        old(field).spec_rows() <= i32::MAX,
        0 <= di <= 1,
        0 <= dj <= 1,
    ensures
        final(field).wf(),
        final(field).spec_cols() == old(field).spec_cols(),
        final(field).spec_rows() == old(field).spec_rows(),
        forall|a: int, b: int|
            #![trigger final(field).cell(a, b)]
            final(field).in_bounds(a, b) ==> final(field).cell(a, b) == copied_tangential(
                *old(field),
                *cells,
                di as int,
                dj as int,
                a,
                b,
            ),
{
    let ghost f0 = *field;
    let cols = field.cols() as i32;
    let rows = field.rows() as i32;
    let mut i: i32 = 0;
    while i < cols
        invariant
            0 <= i <= cols,
            cols == f0.spec_cols(),
            rows == f0.spec_rows(),
            cols <= i32::MAX,
            rows <= i32::MAX,
            0 <= di <= 1,
            0 <= dj <= 1,
            cells.wf(),
            f0.wf(),
            field.wf(),
            field.spec_cols() == f0.spec_cols(),
            field.spec_rows() == f0.spec_rows(),
            forall|a: int, b: int|
                #![trigger field.cell(a, b)]
                field.in_bounds(a, b) ==> field.cell(a, b) == if a < i {
                    copied_tangential(f0, *cells, di as int, dj as int, a, b)
                } else {
                    f0.cell(a, b)
                },
        decreases cols - i,
    {
        let mut j: i32 = 0;
        while j < rows
            invariant
                0 <= i < cols,
                0 <= j <= rows,
                cols == f0.spec_cols(),
                rows == f0.spec_rows(),
                cols <= i32::MAX,
                rows <= i32::MAX,
                0 <= di <= 1,
                0 <= dj <= 1,
                cells.wf(),
                f0.wf(),
                field.wf(),
                field.spec_cols() == f0.spec_cols(),
                field.spec_rows() == f0.spec_rows(),
                forall|a: int, b: int|
                    #![trigger field.cell(a, b)]
                    field.in_bounds(a, b) ==> field.cell(a, b) == if a < i || (a == i && b < j) {
                        copied_tangential(f0, *cells, di as int, dj as int, a, b)
                    } else {
                        f0.cell(a, b)
                    },
            decreases rows - j,
        {
            if type_or_empty(cells, i, j) == CellType::Solid {
                let mut done = false;
                if type_or_empty(cells, i - di, j - dj) != CellType::Solid {
                    if let Some(x) = field.get(i - di, j - dj) {
                        let value = *x;
                        proof {
                            // a face of a non-solid cell still holds its value on entry
                            assert(field.cell(i - di, j - dj) == f0.cell(i - di, j - dj));
                        }
                        field.set(i, j, value);
                        done = true;
                    }
                }
                if !done {
                    if type_or_empty(cells, i + di, j + dj) != CellType::Solid {
                        if let Some(x) = field.get(i + di, j + dj) {
                            let value = *x;
                            proof {
                                assert(field.cell(i + di, j + dj) == f0.cell(i + di, j + dj));
                            }
                            field.set(i, j, value);
                        }
                    }
                }
            }
            j = j + 1;
        }
        i = i + 1;
    }
}

/// Sets to `zero` every face of `field` that separates its cell `(a, b)` from
/// the cell at `(a - di, b - dj)` where exactly one of the two is solid.
fn zero_walls<T: Copy + Default>(field: &mut Grid<T>, cells: &Grid<CellType>, di: i32, dj: i32, zero: T)
    requires
        old(field).wf(),
        cells.wf(),
        old(field).spec_cols() <= i32::MAX,
        old(field).spec_rows() <= i32::MAX,
        0 <= di <= 1,
        0 <= dj <= 1,
    ensures
        final(field).wf(),
        final(field).spec_cols() == old(field).spec_cols(),
        final(field).spec_rows() == old(field).spec_rows(),
        forall|a: int, b: int|
            #![trigger final(field).cell(a, b)]
            final(field).in_bounds(a, b) ==> final(field).cell(a, b) == if on_solid_boundary(
                type_at(*cells, a, b),
                type_at(*cells, a - di, b - dj),
            ) {
                zero
            } else {
                old(field).cell(a, b)
            },
{
    let ghost f0 = *field;
    let cols = field.cols() as i32;
    let rows = field.rows() as i32;
    let mut i: i32 = 0;
    while i < cols
        invariant
            0 <= i <= cols,
            cols == f0.spec_cols(),
            rows == f0.spec_rows(),
            cols <= i32::MAX,
            rows <= i32::MAX,
            0 <= di <= 1,
            0 <= dj <= 1,
            cells.wf(),
            f0.wf(),
            field.wf(),
            field.spec_cols() == f0.spec_cols(),
            field.spec_rows() == f0.spec_rows(),
            forall|a: int, b: int|
                #![trigger field.cell(a, b)]
                field.in_bounds(a, b) ==> field.cell(a, b) == if a < i && on_solid_boundary(
                    type_at(*cells, a, b),
                    type_at(*cells, a - di, b - dj),
                ) {
                    zero
                } else {
                    f0.cell(a, b)
                },
        decreases cols - i,
    {
        let mut j: i32 = 0;
        while j < rows
            invariant
                0 <= i < cols,
                0 <= j <= rows,
                cols == f0.spec_cols(),
                rows == f0.spec_rows(),
                cols <= i32::MAX,
                rows <= i32::MAX,
                0 <= di <= 1,
                0 <= dj <= 1,
                cells.wf(),
                f0.wf(),
                field.wf(),
                field.spec_cols() == f0.spec_cols(),
                field.spec_rows() == f0.spec_rows(),
                forall|a: int, b: int|
                    #![trigger field.cell(a, b)]
                    field.in_bounds(a, b) ==> field.cell(a, b) == if (a < i || (a == i && b < j))
                        && on_solid_boundary(type_at(*cells, a, b), type_at(*cells, a - di, b - dj)) {
                        zero
                    } else {
                        f0.cell(a, b)
                    },
            decreases rows - j,
        {
            let here = type_or_empty(cells, i, j);
            let there = type_or_empty(cells, i - di, j - dj);
            if (here == CellType::Solid || there == CellType::Solid) && here != there {
                field.set(i, j, zero);
            }
            j = j + 1;
        }
        i = i + 1;
    }
}

/// The cells of a `cols` by `rows` domain and the fields that live on their
/// faces: horizontal velocities on vertical faces (`(cols + 1) x rows`),
/// vertical velocities on horizontal faces (`cols x (rows + 1)`), their
/// snapshots from before the last reset, the weight sums of the particle
/// splat, and the density samples on cell corners (`(cols + 1) x (rows + 1)`).
///
/// Face `(i, j)` of the horizontal field is the left face of cell `(i, j)`;
/// face `(i, j)` of the vertical field is its bottom face.
#[derive(Clone, Debug)]
pub struct StaggeredGrid<T> {
    cols: usize,
    rows: usize,
    cell_types: Grid<CellType>,
    horizontal_velocities: Grid<T>,
    vertical_velocities: Grid<T>,
    prev_horizontal_velocities: Grid<T>,
    prev_vertical_velocities: Grid<T>,
    sum_horizontal_weights: Grid<T>,
    sum_vertical_weights: Grid<T>,
    densities: Grid<T>,
}

impl<T> StaggeredGrid<T> {
    pub closed spec fn spec_cols(&self) -> nat {
        self.cols as nat
    }

    pub closed spec fn spec_rows(&self) -> nat {
        self.rows as nat
    }

    pub closed spec fn spec_cell_types(&self) -> Grid<CellType> {
        self.cell_types
    }

    pub closed spec fn spec_horizontal_velocities(&self) -> Grid<T> {
        self.horizontal_velocities
    }

    pub closed spec fn spec_vertical_velocities(&self) -> Grid<T> {
        self.vertical_velocities
    }

    pub closed spec fn spec_prev_horizontal_velocities(&self) -> Grid<T> {
        self.prev_horizontal_velocities
    }

    pub closed spec fn spec_prev_vertical_velocities(&self) -> Grid<T> {
        self.prev_vertical_velocities
    }

    pub closed spec fn spec_sum_horizontal_weights(&self) -> Grid<T> {
        self.sum_horizontal_weights
    }

    pub closed spec fn spec_sum_vertical_weights(&self) -> Grid<T> {
        self.sum_vertical_weights
    }

    pub closed spec fn spec_densities(&self) -> Grid<T> {
        self.densities
    }

    /// `g` is well formed and has the given size.
    pub open spec fn sized<U>(g: Grid<U>, cols: nat, rows: nat) -> bool {
        g.wf() && g.spec_cols() == cols && g.spec_rows() == rows
    }

    /// Every value of `g` is the same.
    pub open spec fn uniform<U>(g: Grid<U>) -> bool {
        forall|k: int, l: int| 0 <= k < g@.len() && 0 <= l < g@.len() ==> #[trigger] g@[k] == #[trigger] g@[l]
    }

    /// Every field has the size that its place in the staggered layout asks
    /// for, and every face coordinate fits an `i32`.
    pub open spec fn wf(&self) -> bool {
        let c = self.spec_cols();
        let r = self.spec_rows();
        &&& c < i32::MAX
        &&& r < i32::MAX
        &&& Self::sized(self.spec_cell_types(), c, r)
        &&& Self::sized(self.spec_horizontal_velocities(), c + 1, r)
        &&& Self::sized(self.spec_prev_horizontal_velocities(), c + 1, r)
        &&& Self::sized(self.spec_sum_horizontal_weights(), c + 1, r)
        &&& Self::sized(self.spec_vertical_velocities(), c, r + 1)
        &&& Self::sized(self.spec_prev_vertical_velocities(), c, r + 1)
        &&& Self::sized(self.spec_sum_vertical_weights(), c, r + 1)
        &&& Self::sized(self.spec_densities(), c + 1, r + 1)
    }

    /// The type of cell `(i, j)`; cells outside the grid count as empty.
    pub open spec fn cell_type_at(&self, i: int, j: int) -> CellType {
        type_at(self.spec_cell_types(), i, j)
    }

    /// The left face of cell `(i, j)` separates a solid cell from a non-solid one.
    pub open spec fn horizontal_face_on_wall(&self, i: int, j: int) -> bool {
        on_solid_boundary(self.cell_type_at(i, j), self.cell_type_at(i - 1, j))
    }

    /// The bottom face of cell `(i, j)` separates a solid cell from a non-solid one.
    pub open spec fn vertical_face_on_wall(&self, i: int, j: int) -> bool {
        on_solid_boundary(self.cell_type_at(i, j), self.cell_type_at(i, j - 1))
    }

    /// Cell `(i, j)` lies inside the grid and is not solid.
    pub open spec fn is_open_cell(&self, i: int, j: int) -> bool {
        self.spec_cell_types().in_bounds(i, j) && self.spec_cell_types().cell(i, j) != CellType::Solid
    }

    /// Number of the four neighbours of cell `(i, j)` that lie inside the grid
    /// and are not solid.
    pub open spec fn open_neighbours(&self, i: int, j: int) -> int {
        (if self.is_open_cell(i + 1, j) { 1int } else { 0int }) + (if self.is_open_cell(i - 1, j) {
            1int
        } else {
            0int
        }) + (if self.is_open_cell(i, j + 1) { 1int } else { 0int }) + (if self.is_open_cell(
            i,
            j - 1,
        ) {
            1int
        } else {
            0int
        })
    }

    /// Horizontal velocity at face `(a, b)` after the boundary rule: `zero`
    /// on a wall; on the left face of a solid cell, the tangential value of
    /// the non-solid cell below (else above) it; unchanged elsewhere.
    pub open spec fn horizontal_after_boundary(&self, zero: T, a: int, b: int) -> T {
        if self.horizontal_face_on_wall(a, b) {
            zero
        } else {
            copied_tangential(self.spec_horizontal_velocities(), self.spec_cell_types(), 0, 1, a, b)
        }
    }

    /// Vertical velocity at face `(a, b)` after the boundary rule: `zero` on
    /// a wall; on the bottom face of a solid cell, the tangential value of the
    /// non-solid cell left (else right) of it; unchanged elsewhere.
    pub open spec fn vertical_after_boundary(&self, zero: T, a: int, b: int) -> T {
        if self.vertical_face_on_wall(a, b) {
            zero
        } else {
            copied_tangential(self.spec_vertical_velocities(), self.spec_cell_types(), 1, 0, a, b)
        }
    }
}

impl<T: Copy + Default> StaggeredGrid<T> {
    /// Applies the boundary rule: first each face of a solid cell takes the
    /// tangential velocity of the same face of a non-solid neighbour across a
    /// wall (the faces of non-solid cells are never overwritten by this copy),
    /// then each face that separates a solid cell from a non-solid one gets
    /// `zero`, which takes precedence.
    pub fn set_boundary_velocities(&mut self, zero: T)
        requires
            old(self).wf(),
        ensures
            final(self).wf(),
            final(self).spec_cols() == old(self).spec_cols(),
            final(self).spec_rows() == old(self).spec_rows(),
            final(self).spec_cell_types() == old(self).spec_cell_types(),
            forall|a: int, b: int|
                #![trigger final(self).spec_horizontal_velocities().cell(a, b)]
                final(self).spec_horizontal_velocities().in_bounds(a, b)
                    ==> final(self).spec_horizontal_velocities().cell(a, b)
                    == old(self).horizontal_after_boundary(zero, a, b),
            forall|a: int, b: int|
                #![trigger final(self).spec_vertical_velocities().cell(a, b)]
                final(self).spec_vertical_velocities().in_bounds(a, b)
                    ==> final(self).spec_vertical_velocities().cell(a, b)
                    == old(self).vertical_after_boundary(zero, a, b),
            final(self).spec_prev_horizontal_velocities() == old(self).spec_prev_horizontal_velocities(),
            final(self).spec_prev_vertical_velocities() == old(self).spec_prev_vertical_velocities(),
            final(self).spec_sum_horizontal_weights() == old(self).spec_sum_horizontal_weights(),
            final(self).spec_sum_vertical_weights() == old(self).spec_sum_vertical_weights(),
            final(self).spec_densities() == old(self).spec_densities(),
            forall|a: int, b: int|
                #![trigger final(self).spec_horizontal_velocities().cell(a, b)]
                final(self).spec_horizontal_velocities().in_bounds(a, b) && final(self).horizontal_face_on_wall(a, b)
                    ==> final(self).spec_horizontal_velocities().cell(a, b) == zero,
            forall|a: int, b: int|
                #![trigger final(self).spec_vertical_velocities().cell(a, b)]
                final(self).spec_vertical_velocities().in_bounds(a, b) && final(self).vertical_face_on_wall(a, b)
                    ==> final(self).spec_vertical_velocities().cell(a, b) == zero,
            forall|a: int, b: int|
                #![trigger final(self).spec_horizontal_velocities().cell(a, b)]
                final(self).spec_horizontal_velocities().in_bounds(a, b) && old(self).cell_type_at(a, b)
                    != CellType::Solid && !old(self).horizontal_face_on_wall(a, b)
                    ==> final(self).spec_horizontal_velocities().cell(a, b)
                    == old(self).spec_horizontal_velocities().cell(a, b),
            forall|a: int, b: int|
                #![trigger final(self).spec_vertical_velocities().cell(a, b)]
                final(self).spec_vertical_velocities().in_bounds(a, b) && old(self).cell_type_at(a, b)
                    != CellType::Solid && !old(self).vertical_face_on_wall(a, b)
                    ==> final(self).spec_vertical_velocities().cell(a, b)
                    == old(self).spec_vertical_velocities().cell(a, b),
    {
        copy_tangential(&mut self.horizontal_velocities, &self.cell_types, 0, 1);
        copy_tangential(&mut self.vertical_velocities, &self.cell_types, 1, 0);
        zero_walls(&mut self.horizontal_velocities, &self.cell_types, 1, 0, zero);
        zero_walls(&mut self.vertical_velocities, &self.cell_types, 0, 1, zero);
    }

    /// A grid of `cols` by `rows` empty cells; every sample of each face field
    /// holds the same value, `T::default()`.
    pub fn new(cols: usize, rows: usize) -> (grid: Self)
        requires
            cols < i32::MAX,
            rows < i32::MAX,
            (cols + 1) * (rows + 1) <= usize::MAX,
        ensures
            grid.wf(),
            grid.spec_cols() == cols,
            grid.spec_rows() == rows,
            forall|a: int, b: int|
                grid.spec_cell_types().in_bounds(a, b) ==> #[trigger] grid.spec_cell_types().cell(a, b)
                    == CellType::Empty,
            Self::uniform(grid.spec_horizontal_velocities()),
            Self::uniform(grid.spec_vertical_velocities()),
            Self::uniform(grid.spec_prev_horizontal_velocities()),
            Self::uniform(grid.spec_prev_vertical_velocities()),
            Self::uniform(grid.spec_sum_horizontal_weights()),
            Self::uniform(grid.spec_sum_vertical_weights()),
            Self::uniform(grid.spec_densities()),
    {
        assert(cols * rows <= (cols + 1) * (rows + 1)) by (nonlinear_arith);
        assert((cols + 1) * rows <= (cols + 1) * (rows + 1)) by (nonlinear_arith);
        assert(cols * (rows + 1) <= (cols + 1) * (rows + 1)) by (nonlinear_arith);
        let cell_types = Grid::new(cols, rows).with_default_value(CellType::Empty);
        assert forall|a: int, b: int| cell_types.in_bounds(a, b) implies #[trigger] cell_types.cell(a, b)
            == CellType::Empty by {
            cell_types.lemma_index_of(a, b);
        }
        StaggeredGrid {
            cols,
            rows,
            cell_types,
            horizontal_velocities: Grid::new(cols + 1, rows),
            vertical_velocities: Grid::new(cols, rows + 1),
            prev_horizontal_velocities: Grid::new(cols + 1, rows),
            prev_vertical_velocities: Grid::new(cols, rows + 1),
            sum_horizontal_weights: Grid::new(cols + 1, rows),
            sum_vertical_weights: Grid::new(cols, rows + 1),
            densities: Grid::new(cols + 1, rows + 1),
        }
    }

    /// Cell `(i, j)` lies on the outermost ring of cells.
    pub open spec fn is_border_cell(&self, i: int, j: int) -> bool {
        i == 0 || i == self.spec_cols() - 1 || j == 0 || j == self.spec_rows() - 1
    }

    /// This grid with its outermost ring of cells made solid.
    pub fn with_solid_border_cells(self) -> (grid: Self)
        requires
            self.wf(),
        ensures
            grid.wf(),
            grid.spec_cols() == self.spec_cols(),
            grid.spec_rows() == self.spec_rows(),
            forall|a: int, b: int|
                #![trigger grid.spec_cell_types().cell(a, b)]
                grid.spec_cell_types().in_bounds(a, b) ==> grid.spec_cell_types().cell(a, b) == if self.is_border_cell(
                    a,
                    b,
                ) {
                    CellType::Solid
                } else {
                    self.spec_cell_types().cell(a, b)
                },
            grid.spec_horizontal_velocities() == self.spec_horizontal_velocities(),
            grid.spec_vertical_velocities() == self.spec_vertical_velocities(),
            grid.spec_prev_horizontal_velocities() == self.spec_prev_horizontal_velocities(),
            grid.spec_prev_vertical_velocities() == self.spec_prev_vertical_velocities(),
            grid.spec_sum_horizontal_weights() == self.spec_sum_horizontal_weights(),
            grid.spec_sum_vertical_weights() == self.spec_sum_vertical_weights(),
            grid.spec_densities() == self.spec_densities(),
    {
        let mut grid = self;
        grid.set_border_cells_to_solid();
        grid
    }

    /// Makes the outermost ring of cells solid.
    pub fn set_border_cells_to_solid(&mut self)
        requires
            old(self).wf(),
        ensures
            final(self).wf(),
            final(self).spec_cols() == old(self).spec_cols(),
            final(self).spec_rows() == old(self).spec_rows(),
            forall|a: int, b: int|
                #![trigger final(self).spec_cell_types().cell(a, b)]
                final(self).spec_cell_types().in_bounds(a, b) ==> final(self).spec_cell_types().cell(a, b)
                    == if old(self).is_border_cell(a, b) {
                    CellType::Solid
                } else {
                    old(self).spec_cell_types().cell(a, b)
                },
            final(self).spec_horizontal_velocities() == old(self).spec_horizontal_velocities(),
            final(self).spec_vertical_velocities() == old(self).spec_vertical_velocities(),
            final(self).spec_prev_horizontal_velocities() == old(self).spec_prev_horizontal_velocities(),
            final(self).spec_prev_vertical_velocities() == old(self).spec_prev_vertical_velocities(),
            final(self).spec_sum_horizontal_weights() == old(self).spec_sum_horizontal_weights(),
            final(self).spec_sum_vertical_weights() == old(self).spec_sum_vertical_weights(),
            final(self).spec_densities() == old(self).spec_densities(),
    {
        let ghost s0 = *self;
        let cols = self.cols;
        let rows = self.rows;
        let mut i: usize = 0;
        while i < cols
            invariant
                0 <= i <= cols,
                cols == s0.spec_cols(),
                rows == s0.spec_rows(),
                s0.wf(),
                self.wf(),
                self.spec_cols() == s0.spec_cols(),
                self.spec_rows() == s0.spec_rows(),
                self.spec_horizontal_velocities() == s0.spec_horizontal_velocities(),
                self.spec_vertical_velocities() == s0.spec_vertical_velocities(),
                self.spec_prev_horizontal_velocities() == s0.spec_prev_horizontal_velocities(),
                self.spec_prev_vertical_velocities() == s0.spec_prev_vertical_velocities(),
                self.spec_sum_horizontal_weights() == s0.spec_sum_horizontal_weights(),
                self.spec_sum_vertical_weights() == s0.spec_sum_vertical_weights(),
                self.spec_densities() == s0.spec_densities(),
                forall|a: int, b: int|
                    #![trigger self.spec_cell_types().cell(a, b)]
                    self.spec_cell_types().in_bounds(a, b) ==> self.spec_cell_types().cell(a, b) == if a < i
                        && s0.is_border_cell(a, b) {
                        CellType::Solid
                    } else {
                        s0.spec_cell_types().cell(a, b)
                    },
            decreases cols - i,
        {
            let mut j: usize = 0;
            while j < rows
                invariant
                    0 <= i < cols,
                    0 <= j <= rows,
                    cols == s0.spec_cols(),
                    rows == s0.spec_rows(),
                    s0.wf(),
                    self.wf(),
                    self.spec_cols() == s0.spec_cols(),
                    self.spec_rows() == s0.spec_rows(),
                    self.spec_horizontal_velocities() == s0.spec_horizontal_velocities(),
                    self.spec_vertical_velocities() == s0.spec_vertical_velocities(),
                    self.spec_prev_horizontal_velocities() == s0.spec_prev_horizontal_velocities(),
                    self.spec_prev_vertical_velocities() == s0.spec_prev_vertical_velocities(),
                    self.spec_sum_horizontal_weights() == s0.spec_sum_horizontal_weights(),
                    self.spec_sum_vertical_weights() == s0.spec_sum_vertical_weights(),
                    self.spec_densities() == s0.spec_densities(),
                    forall|a: int, b: int|
                        #![trigger self.spec_cell_types().cell(a, b)]
                        self.spec_cell_types().in_bounds(a, b) ==> self.spec_cell_types().cell(a, b) == if (a < i
                            || (a == i && b < j)) && s0.is_border_cell(a, b) {
                            CellType::Solid
                        } else {
                            s0.spec_cell_types().cell(a, b)
                        },
                decreases rows - j,
            {
                if i == 0 || i == cols - 1 || j == 0 || j == rows - 1 {
                    self.set_cell_to_solid(i as i32, j as i32);
                }
                j = j + 1;
            }
            i = i + 1;
        }
    }

    /// Makes cell `(i, j)` solid; a no-op when `(i, j)` lies outside the grid.
    pub fn set_cell_to_solid(&mut self, i: i32, j: i32)
        requires
            old(self).wf(),
        ensures
            final(self).wf(),
            final(self).spec_cols() == old(self).spec_cols(),
            final(self).spec_rows() == old(self).spec_rows(),
            forall|a: int, b: int|
                #![trigger final(self).spec_cell_types().cell(a, b)]
                final(self).spec_cell_types().in_bounds(a, b) ==> final(self).spec_cell_types().cell(a, b)
                    == if a == i && b == j {
                    CellType::Solid
                } else {
                    old(self).spec_cell_types().cell(a, b)
                },
            final(self).spec_horizontal_velocities() == old(self).spec_horizontal_velocities(),
            final(self).spec_vertical_velocities() == old(self).spec_vertical_velocities(),
            final(self).spec_prev_horizontal_velocities() == old(self).spec_prev_horizontal_velocities(),
            final(self).spec_prev_vertical_velocities() == old(self).spec_prev_vertical_velocities(),
            final(self).spec_sum_horizontal_weights() == old(self).spec_sum_horizontal_weights(),
            final(self).spec_sum_vertical_weights() == old(self).spec_sum_vertical_weights(),
            final(self).spec_densities() == old(self).spec_densities(),
    {
        self.cell_types.set(i, j, CellType::Solid);
    }

    /// Starts a transfer from particles to the grid: snapshots both velocity
    /// fields into their previous copies, sets velocities and weight sums to
    /// `zero`, and turns every non-solid cell empty (solid cells stay solid).
    pub fn reset(&mut self, zero: T)
        requires
            old(self).wf(),
        ensures
            final(self).wf(),
            final(self).spec_cols() == old(self).spec_cols(),
            final(self).spec_rows() == old(self).spec_rows(),
            final(self).spec_prev_horizontal_velocities()@ == old(self).spec_horizontal_velocities()@,
            final(self).spec_prev_vertical_velocities()@ == old(self).spec_vertical_velocities()@,
            final(self).spec_horizontal_velocities()@ == Seq::new(
                old(self).spec_horizontal_velocities()@.len(),
                |k: int| zero,
            ),
            final(self).spec_vertical_velocities()@ == Seq::new(
                old(self).spec_vertical_velocities()@.len(),
                |k: int| zero,
            ),
            final(self).spec_sum_horizontal_weights()@ == Seq::new(
                old(self).spec_sum_horizontal_weights()@.len(),
                |k: int| zero,
            ),
            final(self).spec_sum_vertical_weights()@ == Seq::new(
                old(self).spec_sum_vertical_weights()@.len(),
                |k: int| zero,
            ),
            forall|a: int, b: int|
                #![trigger final(self).spec_cell_types().cell(a, b)]
                final(self).spec_cell_types().in_bounds(a, b) ==> final(self).spec_cell_types().cell(a, b)
                    == if old(self).spec_cell_types().cell(a, b) == CellType::Solid {
                    CellType::Solid
                } else {
                    CellType::Empty
                },
            final(self).spec_densities() == old(self).spec_densities(),
    {
        self.prev_horizontal_velocities.copy_from(&self.horizontal_velocities);
        self.prev_vertical_velocities.copy_from(&self.vertical_velocities);
        self.horizontal_velocities.fill(zero);
        self.vertical_velocities.fill(zero);
        self.sum_horizontal_weights.fill(zero);
        self.sum_vertical_weights.fill(zero);

        let ghost s0 = self.cell_types;
        let ghost mid = *self;
        let cols = self.cols;
        let rows = self.rows;
        let mut i: usize = 0;
        while i < cols
            invariant
                0 <= i <= cols,
                cols == s0.spec_cols(),
                rows == s0.spec_rows(),
                cols < i32::MAX,
                rows < i32::MAX,
                s0.wf(),
                self.cell_types.wf(),
                self.cell_types.spec_cols() == cols,
                    self.cols == mid.cols,
                    self.rows == mid.rows,
                    s0 == mid.cell_types,
                    self.horizontal_velocities == mid.horizontal_velocities,
                    self.vertical_velocities == mid.vertical_velocities,
                    self.prev_horizontal_velocities == mid.prev_horizontal_velocities,
                    self.prev_vertical_velocities == mid.prev_vertical_velocities,
                    self.sum_horizontal_weights == mid.sum_horizontal_weights,
                    self.sum_vertical_weights == mid.sum_vertical_weights,
                    self.densities == mid.densities,
                    mid.wf(),
                self.cell_types.spec_rows() == rows,
                forall|a: int, b: int|
                    #![trigger self.cell_types.cell(a, b)]
                    self.cell_types.in_bounds(a, b) ==> self.cell_types.cell(a, b) == if a < i
                        && s0.cell(a, b) != CellType::Solid {
                        CellType::Empty
                    } else {
                        s0.cell(a, b)
                    },
            decreases cols - i,
        {
            let mut j: usize = 0;
            while j < rows
                invariant
                    0 <= i < cols,
                    0 <= j <= rows,
                    cols == s0.spec_cols(),
                    rows == s0.spec_rows(),
                    cols < i32::MAX,
                    rows < i32::MAX,
                    s0.wf(),
                    self.cell_types.wf(),
                    self.cell_types.spec_cols() == cols,
                    self.cols == mid.cols,
                    self.rows == mid.rows,
                    s0 == mid.cell_types,
                    self.horizontal_velocities == mid.horizontal_velocities,
                    self.vertical_velocities == mid.vertical_velocities,
                    self.prev_horizontal_velocities == mid.prev_horizontal_velocities,
                    self.prev_vertical_velocities == mid.prev_vertical_velocities,
                    self.sum_horizontal_weights == mid.sum_horizontal_weights,
                    self.sum_vertical_weights == mid.sum_vertical_weights,
                    self.densities == mid.densities,
                    mid.wf(),
                    self.cell_types.spec_rows() == rows,
                    forall|a: int, b: int|
                        #![trigger self.cell_types.cell(a, b)]
                        self.cell_types.in_bounds(a, b) ==> self.cell_types.cell(a, b) == if (a < i || (a
                            == i && b < j)) && s0.cell(a, b) != CellType::Solid {
                            CellType::Empty
                        } else {
                            s0.cell(a, b)
                        },
                decreases rows - j,
            {
                let solid = match self.cell_types.get(i as i32, j as i32) {
                    Some(c) => *c == CellType::Solid,
                    None => true,
                };
                if !solid {
                    self.cell_types.set(i as i32, j as i32, CellType::Empty);
                }
                j = j + 1;
            }
            i = i + 1;
        }
    }

    /// Marks cell `(i, j)`, which holds a particle, as fluid if it is empty;
    /// solid cells and cells outside the grid are left as they are.
    pub fn mark_occupied_cell_as_fluid(&mut self, i: i32, j: i32)
        requires
            old(self).wf(),
        ensures
            final(self).wf(),
            final(self).spec_cols() == old(self).spec_cols(),
            final(self).spec_rows() == old(self).spec_rows(),
            forall|a: int, b: int|
                #![trigger final(self).spec_cell_types().cell(a, b)]
                final(self).spec_cell_types().in_bounds(a, b) ==> final(self).spec_cell_types().cell(a, b)
                    == if a == i && b == j && old(self).spec_cell_types().cell(a, b) == CellType::Empty {
                    CellType::Fluid
                } else {
                    old(self).spec_cell_types().cell(a, b)
                },
            final(self).spec_horizontal_velocities() == old(self).spec_horizontal_velocities(),
            final(self).spec_vertical_velocities() == old(self).spec_vertical_velocities(),
            final(self).spec_prev_horizontal_velocities() == old(self).spec_prev_horizontal_velocities(),
            final(self).spec_prev_vertical_velocities() == old(self).spec_prev_vertical_velocities(),
            final(self).spec_sum_horizontal_weights() == old(self).spec_sum_horizontal_weights(),
            final(self).spec_sum_vertical_weights() == old(self).spec_sum_vertical_weights(),
            final(self).spec_densities() == old(self).spec_densities(),
    {
        let empty = match self.cell_types.get(i, j) {
            Some(c) => *c == CellType::Empty,
            None => false,
        };
        if empty {
            self.cell_types.set(i, j, CellType::Fluid);
        }
    }

    /// 1 when cell `(i, j)` lies inside the grid and is not solid, else 0:
    /// its share in the count of faces through which a cell can exchange flow.
    pub fn contribute_to_solid_cell_count(&self, i: i32, j: i32) -> (r: u32)
        requires
            self.wf(),
        ensures
            r == if self.is_open_cell(i as int, j as int) { 1int } else { 0int },
    {
        match self.cell_types.get(i, j) {
            None => 0,
            Some(c) => match *c {
                CellType::Solid => 0,
                _ => 1,
            },
        }
    }

    /// Number of the four neighbours of cell `(i, j)` that lie inside the grid
    /// and are not solid; a fluid cell with none is walled in and left alone
    /// by the solver.
    pub fn non_solid_neighbours_count(&self, i: i32, j: i32) -> (r: u32)
        requires
            self.wf(),
            i32::MIN < i < i32::MAX,
            i32::MIN < j < i32::MAX,
        ensures
            r == self.open_neighbours(i as int, j as int),
    {
        self.contribute_to_solid_cell_count(i + 1, j) + self.contribute_to_solid_cell_count(i - 1, j)
            + self.contribute_to_solid_cell_count(i, j + 1) + self.contribute_to_solid_cell_count(
            i,
            j - 1,
        )
    }

    /// Number of cell columns.
    pub fn cols(&self) -> (r: usize)
        ensures
            r == self.spec_cols(),
    {
        self.cols
    }

    /// Number of cell rows.
    pub fn rows(&self) -> (r: usize)
        ensures
            r == self.spec_rows(),
    {
        self.rows
    }

    /// The cell classification.
    pub fn cell_types(&self) -> (r: &Grid<CellType>)
        ensures
            *r == self.spec_cell_types(),
    {
        &self.cell_types
    }

    /// Horizontal velocities, on the vertical faces.
    pub fn horizontal_velocities(&self) -> (r: &Grid<T>)
        ensures
            *r == self.spec_horizontal_velocities(),
    {
        &self.horizontal_velocities
    }

    /// Vertical velocities, on the horizontal faces.
    pub fn vertical_velocities(&self) -> (r: &Grid<T>)
        ensures
            *r == self.spec_vertical_velocities(),
    {
        &self.vertical_velocities
    }

    /// Horizontal velocities as they were before the last reset.
    pub fn prev_horizontal_velocities(&self) -> (r: &Grid<T>)
        ensures
            *r == self.spec_prev_horizontal_velocities(),
    {
        &self.prev_horizontal_velocities
    }

    /// Vertical velocities as they were before the last reset.
    pub fn prev_vertical_velocities(&self) -> (r: &Grid<T>)
        ensures
            *r == self.spec_prev_vertical_velocities(),
    {
        &self.prev_vertical_velocities
    }

    /// Splat weight sums of the horizontal velocities.
    pub fn sum_horizontal_weights(&self) -> (r: &Grid<T>)
        ensures
            *r == self.spec_sum_horizontal_weights(),
    {
        &self.sum_horizontal_weights
    }

    /// Splat weight sums of the vertical velocities.
    pub fn sum_vertical_weights(&self) -> (r: &Grid<T>)
        ensures
            *r == self.spec_sum_vertical_weights(),
    {
        &self.sum_vertical_weights
    }

    /// Particle density samples on the cell corners.
    pub fn densities(&self) -> (r: &Grid<T>)
        ensures
            *r == self.spec_densities(),
    {
        &self.densities
    }

    /// The type of cell `(i, j)`, or `None` outside the grid.
    pub fn cell_type(&self, i: i32, j: i32) -> (r: Option<&CellType>)
        requires
            self.wf(),
        ensures
            r matches Some(v) ==> self.spec_cell_types().in_bounds(i as int, j as int) && *v
                == self.spec_cell_types().cell(i as int, j as int),
            r is None ==> !self.spec_cell_types().in_bounds(i as int, j as int),
    {
        self.cell_types.get(i, j)
    }

    /// The horizontal velocity on the left face of cell `(i, j)`, or
    /// `None` outside the field.
    pub fn horizontal_velocity(&self, i: i32, j: i32) -> (r: Option<&T>)
        requires
            self.wf(),
        ensures
            r matches Some(v) ==> self.spec_horizontal_velocities().in_bounds(i as int, j as int) && *v
                == self.spec_horizontal_velocities().cell(i as int, j as int),
            r is None ==> !self.spec_horizontal_velocities().in_bounds(i as int, j as int),
    {
        self.horizontal_velocities.get(i, j)
    }

    /// The vertical velocity on the bottom face of cell `(i, j)`, or
    /// `None` outside the field.
    pub fn vertical_velocity(&self, i: i32, j: i32) -> (r: Option<&T>)
        requires
            self.wf(),
        ensures
            r matches Some(v) ==> self.spec_vertical_velocities().in_bounds(i as int, j as int) && *v
                == self.spec_vertical_velocities().cell(i as int, j as int),
            r is None ==> !self.spec_vertical_velocities().in_bounds(i as int, j as int),
    {
        self.vertical_velocities.get(i, j)
    }

    /// A mutable reference to the horizontal velocity on the left face of cell `(i, j)`,
    /// or `None` outside the field.
    pub fn horizontal_velocity_mut(&mut self, i: i32, j: i32) -> (r: Option<&mut T>)
        requires
            old(self).wf(),
        ensures
            final(self).wf(),
            final(self).spec_cols() == old(self).spec_cols(),
            final(self).spec_rows() == old(self).spec_rows(),
            final(self).spec_cell_types() == old(self).spec_cell_types(),
            final(self).spec_vertical_velocities() == old(self).spec_vertical_velocities(),
            final(self).spec_prev_horizontal_velocities() == old(self).spec_prev_horizontal_velocities(),
            final(self).spec_prev_vertical_velocities() == old(self).spec_prev_vertical_velocities(),
            final(self).spec_sum_horizontal_weights() == old(self).spec_sum_horizontal_weights(),
            final(self).spec_sum_vertical_weights() == old(self).spec_sum_vertical_weights(),
            final(self).spec_densities() == old(self).spec_densities(),
            final(self).spec_horizontal_velocities().spec_cols() == old(self).spec_horizontal_velocities().spec_cols(),
            final(self).spec_horizontal_velocities().spec_rows() == old(self).spec_horizontal_velocities().spec_rows(),
            r matches Some(v) ==> {
                let g = old(self).spec_horizontal_velocities();
                &&& g.in_bounds(i as int, j as int)
                &&& *v == g.cell(i as int, j as int)
                &&& final(self).spec_horizontal_velocities()@ == g@.update(g.index_of(i as int, j as int), *final(v))
            },
            r is None ==> !old(self).spec_horizontal_velocities().in_bounds(i as int, j as int)
                && final(self).spec_horizontal_velocities()@ == old(self).spec_horizontal_velocities()@,
    {
        self.horizontal_velocities.get_mut(i, j)
    }

    /// A mutable reference to the vertical velocity on the bottom face of cell `(i, j)`,
    /// or `None` outside the field.
    pub fn vertical_velocity_mut(&mut self, i: i32, j: i32) -> (r: Option<&mut T>)
        requires
            old(self).wf(),
        ensures
            final(self).wf(),
            final(self).spec_cols() == old(self).spec_cols(),
            final(self).spec_rows() == old(self).spec_rows(),
            final(self).spec_cell_types() == old(self).spec_cell_types(),
            final(self).spec_horizontal_velocities() == old(self).spec_horizontal_velocities(),
            final(self).spec_prev_horizontal_velocities() == old(self).spec_prev_horizontal_velocities(),
            final(self).spec_prev_vertical_velocities() == old(self).spec_prev_vertical_velocities(),
            final(self).spec_sum_horizontal_weights() == old(self).spec_sum_horizontal_weights(),
            final(self).spec_sum_vertical_weights() == old(self).spec_sum_vertical_weights(),
            final(self).spec_densities() == old(self).spec_densities(),
            final(self).spec_vertical_velocities().spec_cols() == old(self).spec_vertical_velocities().spec_cols(),
            final(self).spec_vertical_velocities().spec_rows() == old(self).spec_vertical_velocities().spec_rows(),
            r matches Some(v) ==> {
                let g = old(self).spec_vertical_velocities();
                &&& g.in_bounds(i as int, j as int)
                &&& *v == g.cell(i as int, j as int)
                &&& final(self).spec_vertical_velocities()@ == g@.update(g.index_of(i as int, j as int), *final(v))
            },
            r is None ==> !old(self).spec_vertical_velocities().in_bounds(i as int, j as int)
                && final(self).spec_vertical_velocities()@ == old(self).spec_vertical_velocities()@,
    {
        self.vertical_velocities.get_mut(i, j)
    }

    /// A mutable reference to the weight sum of horizontal face `(i, j)`,
    /// or `None` outside the field.
    pub fn sum_horizontal_weight_mut(&mut self, i: i32, j: i32) -> (r: Option<&mut T>)
        requires
            old(self).wf(),
        ensures
            final(self).wf(),
            final(self).spec_cols() == old(self).spec_cols(),
            final(self).spec_rows() == old(self).spec_rows(),
            final(self).spec_cell_types() == old(self).spec_cell_types(),
            final(self).spec_horizontal_velocities() == old(self).spec_horizontal_velocities(),
            final(self).spec_vertical_velocities() == old(self).spec_vertical_velocities(),
            final(self).spec_prev_horizontal_velocities() == old(self).spec_prev_horizontal_velocities(),
            final(self).spec_prev_vertical_velocities() == old(self).spec_prev_vertical_velocities(),
            final(self).spec_sum_vertical_weights() == old(self).spec_sum_vertical_weights(),
            final(self).spec_densities() == old(self).spec_densities(),
            final(self).spec_sum_horizontal_weights().spec_cols() == old(self).spec_sum_horizontal_weights().spec_cols(),
            final(self).spec_sum_horizontal_weights().spec_rows() == old(self).spec_sum_horizontal_weights().spec_rows(),
            r matches Some(v) ==> {
                let g = old(self).spec_sum_horizontal_weights();
                &&& g.in_bounds(i as int, j as int)
                &&& *v == g.cell(i as int, j as int)
                &&& final(self).spec_sum_horizontal_weights()@ == g@.update(g.index_of(i as int, j as int), *final(v))
            },
            r is None ==> !old(self).spec_sum_horizontal_weights().in_bounds(i as int, j as int)
                && final(self).spec_sum_horizontal_weights()@ == old(self).spec_sum_horizontal_weights()@,
    {
        self.sum_horizontal_weights.get_mut(i, j)
    }

    /// A mutable reference to the weight sum of vertical face `(i, j)`,
    /// or `None` outside the field.
    pub fn sum_vertical_weight_mut(&mut self, i: i32, j: i32) -> (r: Option<&mut T>)
        requires
            old(self).wf(),
        ensures
            final(self).wf(),
            final(self).spec_cols() == old(self).spec_cols(),
            final(self).spec_rows() == old(self).spec_rows(),
            final(self).spec_cell_types() == old(self).spec_cell_types(),
            final(self).spec_horizontal_velocities() == old(self).spec_horizontal_velocities(),
            final(self).spec_vertical_velocities() == old(self).spec_vertical_velocities(),
            final(self).spec_prev_horizontal_velocities() == old(self).spec_prev_horizontal_velocities(),
            final(self).spec_prev_vertical_velocities() == old(self).spec_prev_vertical_velocities(),
            final(self).spec_sum_horizontal_weights() == old(self).spec_sum_horizontal_weights(),
            final(self).spec_densities() == old(self).spec_densities(),
            final(self).spec_sum_vertical_weights().spec_cols() == old(self).spec_sum_vertical_weights().spec_cols(),
            final(self).spec_sum_vertical_weights().spec_rows() == old(self).spec_sum_vertical_weights().spec_rows(),
            r matches Some(v) ==> {
                let g = old(self).spec_sum_vertical_weights();
                &&& g.in_bounds(i as int, j as int)
                &&& *v == g.cell(i as int, j as int)
                &&& final(self).spec_sum_vertical_weights()@ == g@.update(g.index_of(i as int, j as int), *final(v))
            },
            r is None ==> !old(self).spec_sum_vertical_weights().in_bounds(i as int, j as int)
                && final(self).spec_sum_vertical_weights()@ == old(self).spec_sum_vertical_weights()@,
    {
        self.sum_vertical_weights.get_mut(i, j)
    }

    /// A mutable reference to the density sample at corner `(i, j)`,
    /// or `None` outside the field.
    pub fn density_mut(&mut self, i: i32, j: i32) -> (r: Option<&mut T>)
        requires
            old(self).wf(),
        ensures
            final(self).wf(),
            final(self).spec_cols() == old(self).spec_cols(),
            final(self).spec_rows() == old(self).spec_rows(),
            final(self).spec_cell_types() == old(self).spec_cell_types(),
            final(self).spec_horizontal_velocities() == old(self).spec_horizontal_velocities(),
            final(self).spec_vertical_velocities() == old(self).spec_vertical_velocities(),
            final(self).spec_prev_horizontal_velocities() == old(self).spec_prev_horizontal_velocities(),
            final(self).spec_prev_vertical_velocities() == old(self).spec_prev_vertical_velocities(),
            final(self).spec_sum_horizontal_weights() == old(self).spec_sum_horizontal_weights(),
            final(self).spec_sum_vertical_weights() == old(self).spec_sum_vertical_weights(),
            final(self).spec_densities().spec_cols() == old(self).spec_densities().spec_cols(),
            final(self).spec_densities().spec_rows() == old(self).spec_densities().spec_rows(),
            r matches Some(v) ==> {
                let g = old(self).spec_densities();
                &&& g.in_bounds(i as int, j as int)
                &&& *v == g.cell(i as int, j as int)
                &&& final(self).spec_densities()@ == g@.update(g.index_of(i as int, j as int), *final(v))
            },
            r is None ==> !old(self).spec_densities().in_bounds(i as int, j as int)
                && final(self).spec_densities()@ == old(self).spec_densities()@,
    {
        self.densities.get_mut(i, j)
    }

    /// Sets every density sample to `value`.
    pub fn fill_densities(&mut self, value: T)
        requires
            old(self).wf(),
        ensures
            final(self).wf(),
            final(self).spec_cols() == old(self).spec_cols(),
            final(self).spec_rows() == old(self).spec_rows(),
            final(self).spec_densities()@ == Seq::new(old(self).spec_densities()@.len(), |k: int| value),
            final(self).spec_cell_types() == old(self).spec_cell_types(),
            final(self).spec_horizontal_velocities() == old(self).spec_horizontal_velocities(),
            final(self).spec_vertical_velocities() == old(self).spec_vertical_velocities(),
            final(self).spec_prev_horizontal_velocities() == old(self).spec_prev_horizontal_velocities(),
            final(self).spec_prev_vertical_velocities() == old(self).spec_prev_vertical_velocities(),
            final(self).spec_sum_horizontal_weights() == old(self).spec_sum_horizontal_weights(),
            final(self).spec_sum_vertical_weights() == old(self).spec_sum_vertical_weights(),
    {
        self.densities.fill(value);
    }

    /// Face shares of cell `(i, j)` for the relaxation solver, or `None` when
    /// the cell takes no part in it: it lies outside the grid, is not fluid,
    /// or has no non-solid neighbour to exchange flow with.
    pub fn face_shares(&self, i: i32, j: i32) -> (r: Option<FaceShares>)
        requires
            self.wf(),
        ensures
            r is Some <==> self.spec_cell_types().in_bounds(i as int, j as int)
                && self.spec_cell_types().cell(i as int, j as int) == CellType::Fluid
                && self.open_neighbours(i as int, j as int) > 0,
            r matches Some(s) ==> {
                &&& s.left == if self.is_open_cell(i - 1, j as int) { 1int } else { 0int }
                &&& s.right == if self.is_open_cell(i + 1, j as int) { 1int } else { 0int }
                &&& s.down == if self.is_open_cell(i as int, j - 1) { 1int } else { 0int }
                &&& s.up == if self.is_open_cell(i as int, j + 1) { 1int } else { 0int }
                &&& s.total == s.left + s.right + s.down + s.up
                &&& s.total == self.open_neighbours(i as int, j as int)
            },
    {
        let fluid = match self.cell_types.get(i, j) {
            Some(c) => *c == CellType::Fluid,
            None => false,
        };
        if !fluid {
            return None;
        }
        proof {
            self.cell_types.lemma_index_of(i as int, j as int);
        }
        let left = self.contribute_to_solid_cell_count(i - 1, j);
        let right = self.contribute_to_solid_cell_count(i + 1, j);
        let down = self.contribute_to_solid_cell_count(i, j - 1);
        let up = self.contribute_to_solid_cell_count(i, j + 1);
        let total = left + right + down + up;
        if total == 0 {
            None
        } else {
            Some(FaceShares { left, right, down, up, total })
        }
    }
}

} // verus!
