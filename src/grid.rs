use vstd::prelude::*;

verus! {

/// A rectangular field of `cols * rows` values, stored row by row
/// (`index = row * cols + col`) and addressed by signed coordinates.
#[derive(Clone, Debug)]
pub struct Grid<T> {
    cols: usize,
    rows: usize,
    data: Vec<T>,
}

impl<T> View for Grid<T> {
    type V = Seq<T>;

    closed spec fn view(&self) -> Seq<T> {
        self.data@
    }
}

impl<T> Grid<T> {
    /// Number of columns.
    pub closed spec fn spec_cols(&self) -> nat {
        self.cols as nat
    }

    /// Number of rows.
    pub closed spec fn spec_rows(&self) -> nat {
        self.rows as nat
    }

    /// The storage holds exactly one value per cell.
    pub open spec fn wf(&self) -> bool {
        self@.len() == self.spec_cols() * self.spec_rows()
    }

    /// `(i, j)` names a cell of the grid.
    pub open spec fn in_bounds(&self, i: int, j: int) -> bool {
        0 <= i < self.spec_cols() && 0 <= j < self.spec_rows()
    }

    /// Position of cell `(i, j)` in the storage.
    pub open spec fn index_of(&self, i: int, j: int) -> int {
        j * self.spec_cols() + i
    }

    /// The value at cell `(i, j)`.
    pub open spec fn cell(&self, i: int, j: int) -> T {
        self@[self.index_of(i, j)]
    }

    /// Every in-bounds cell has a position inside the storage, and distinct
    /// cells have distinct positions.
    pub proof fn lemma_index_of(&self, i: int, j: int)
        requires
            self.in_bounds(i, j),
        ensures
            0 <= self.index_of(i, j) < self.spec_cols() * self.spec_rows(),
            self.index_of(i, j) % (self.spec_cols() as int) == i,
            self.index_of(i, j) / (self.spec_cols() as int) == j,
    {
        let c = self.spec_cols() as int;
        let r = self.spec_rows() as int;
        assert(0 <= j * c + i < c * r) by (nonlinear_arith)
            requires
                0 <= i < c,
                0 <= j < r,
        ;
        vstd::arithmetic::div_mod::lemma_fundamental_div_mod_converse(j * c + i, c, j, i);
    }

    /// Writing one storage position changes exactly the one cell stored there.
    pub proof fn lemma_update(&self, other: &Grid<T>, i: int, j: int, value: T)
        requires
            self.wf(),
            self.in_bounds(i, j),
            other.spec_cols() == self.spec_cols(),
            other.spec_rows() == self.spec_rows(),
            other@ == self@.update(self.index_of(i, j), value),
        ensures
            other.wf(),
            forall|a: int, b: int|
                #![trigger other.cell(a, b)]
                other.in_bounds(a, b) ==> other.cell(a, b) == if a == i && b == j {
                    value
                } else {
                    self.cell(a, b)
                },
    {
        self.lemma_index_of(i, j);
        assert forall|a: int, b: int| #![trigger other.cell(a, b)] other.in_bounds(a, b) implies other.cell(a, b)
            == if a == i && b == j {
            value
        } else {
            self.cell(a, b)
        } by {
            self.lemma_index_of(a, b);
        }
    }
}

impl<T: Copy + Default> Grid<T> {
    /// A `cols` by `rows` grid whose cells all hold `T::default()`.
    pub fn new(cols: usize, rows: usize) -> (grid: Self)
        requires
            cols * rows <= usize::MAX,
        ensures
            grid.wf(),
            grid.spec_cols() == cols,
            grid.spec_rows() == rows,
            forall|k: int, l: int|
                0 <= k < grid@.len() && 0 <= l < grid@.len() ==> #[trigger] grid@[k] == #[trigger] grid@[l],
    {
        let value = T::default();
        let n: usize = cols * rows;
        let mut data: Vec<T> = Vec::new();
        while data.len() < n
            invariant
                data.len() <= n,
                forall|k: int| 0 <= k < data.len() ==> data@[k] == value,
            decreases n - data.len(),
        {
            data.push(value);
        }
        Grid { cols, rows, data }
    }

    /// This grid with every cell set to `value`.
    pub fn with_default_value(self, value: T) -> (grid: Self)
        requires
            self.wf(),
        ensures
            grid.wf(),
            grid.spec_cols() == self.spec_cols(),
            grid.spec_rows() == self.spec_rows(),
            grid@ == Seq::new(self@.len(), |k: int| value),
    {
        let mut grid = self;
        grid.fill(value);
        grid
    }

    /// Sets every cell to `value`.
    pub fn fill(&mut self, value: T)
        requires
            old(self).wf(),
        ensures
            final(self).wf(),
            final(self).spec_cols() == old(self).spec_cols(),
            final(self).spec_rows() == old(self).spec_rows(),
            final(self)@ == Seq::new(old(self)@.len(), |k: int| value),
    {
        let n = self.data.len();
        let mut k: usize = 0;
        while k < n
            invariant
                k <= n,
                n == self.data.len(),
                self.cols == old(self).cols,
                self.rows == old(self).rows,
                self.data.len() == old(self).data.len(),
                forall|m: int| 0 <= m < k ==> self.data@[m] == value,
            decreases n - k,
        {
            self.data.set(k, value);
            k = k + 1;
        }
        assert(self@ =~= Seq::new(old(self)@.len(), |k: int| value));
    }

    /// Number of columns.
    pub fn cols(&self) -> (r: usize)
        ensures
            r == self.spec_cols(),
    {
        self.cols
    }

    /// Number of rows.
    pub fn rows(&self) -> (r: usize)
        ensures
            r == self.spec_rows(),
    {
        self.rows
    }

    /// The value at `(i, j)`, or `None` when `(i, j)` lies outside the grid.
    pub fn get(&self, i: i32, j: i32) -> (r: Option<&T>)
        requires
            self.wf(),
        ensures
            r matches Some(v) ==> self.in_bounds(i as int, j as int) && *v == self.cell(i as int, j as int),
            r is None ==> !self.in_bounds(i as int, j as int),
    {
        match self.validate_indices(i, j) {
            None => None,
            Some((c, r)) => {
                proof {
                    self.lemma_index_of(i as int, j as int);
                    assert(r as int * self.cols as int + c as int == self.index_of(i as int, j as int));
                    assert(self.data.len() == self.cols as int * self.rows as int);
                }
                Some(&self.data[r * self.cols + c])
            },
        }
    }

    /// A mutable reference to the value at `(i, j)`, or `None` when `(i, j)`
    /// lies outside the grid.
    pub fn get_mut(&mut self, i: i32, j: i32) -> (r: Option<&mut T>)
        requires
            old(self).wf(),
        ensures
            final(self).wf(),
            final(self).spec_cols() == old(self).spec_cols(),
            final(self).spec_rows() == old(self).spec_rows(),
            r matches Some(v) ==> {
                &&& old(self).in_bounds(i as int, j as int)
                &&& *v == old(self).cell(i as int, j as int)
                &&& final(self)@ == old(self)@.update(old(self).index_of(i as int, j as int), *final(v))
            },
            r is None ==> !old(self).in_bounds(i as int, j as int) && final(self)@ == old(self)@,
    {
        match self.validate_indices(i, j) {
            None => None,
            Some((c, r)) => {
                proof {
                    self.lemma_index_of(i as int, j as int);
                    assert(r as int * self.cols as int + c as int == self.index_of(i as int, j as int));
                    assert(self.data.len() == self.cols as int * self.rows as int);
                }
                let k = r * self.cols + c;
                Some(&mut self.data[k])
            },
        }
    }

    /// Sets the value at `(i, j)`; a no-op when `(i, j)` lies outside the grid.
    pub fn set(&mut self, i: i32, j: i32, value: T)
        requires
            old(self).wf(),
        ensures
            final(self).wf(),
            final(self).spec_cols() == old(self).spec_cols(),
            final(self).spec_rows() == old(self).spec_rows(),
            forall|a: int, b: int|
                #![trigger final(self).cell(a, b)]
                final(self).in_bounds(a, b) ==> final(self).cell(a, b) == if a == i && b == j {
                    value
                } else {
                    old(self).cell(a, b)
                },
    {
        let ghost before = *self;
        match self.get_mut(i, j) {
            Some(v) => {
                *v = value;
            },
            None => {},
        }
        proof {
            if before.in_bounds(i as int, j as int) {
                before.lemma_update(self, i as int, j as int, value);
            }
        }
    }

    /// Overwrites every cell with the value of the same cell of `source`.
    pub fn copy_from(&mut self, source: &Grid<T>)
        requires
            old(self).wf(),
            source.wf(),
            source.spec_cols() == old(self).spec_cols(),
            source.spec_rows() == old(self).spec_rows(),
        ensures
            final(self).wf(),
            final(self).spec_cols() == old(self).spec_cols(),
            final(self).spec_rows() == old(self).spec_rows(),
            final(self)@ == source@,
    {
        let n = self.data.len();
        let mut k: usize = 0;
        while k < n
            invariant
                k <= n,
                n == self.data.len(),
                n == source.data.len(),
                self.cols == old(self).cols,
                self.rows == old(self).rows,
                forall|m: int| 0 <= m < k ==> self.data@[m] == source.data@[m],
            decreases n - k,
        {
            self.data.set(k, source.data[k]);
            k = k + 1;
        }
        assert(self@ =~= source@);
    }

    /// The cells in storage order.
    pub fn iter(&self) -> (r: std::slice::Iter<'_, T>)
        ensures
            vstd::std_specs::slice::into_iter_elts(r) == self@,
    {
        let r = self.data.as_slice().iter();
        proof {
            broadcast use vstd::std_specs::slice::axiom_spec_slice_iter;
            assert(self@.as_ref().unref() =~= self@);
        }
        r
    }

    /// The cells in storage order, for in-place updates; the number of cells
    /// cannot change through the returned slice.
    pub fn iter_mut(&mut self) -> (r: &mut [T])
        requires
            old(self).wf(),
        ensures
            r@ == old(self)@,
            final(self)@ == final(r)@,
            final(self).spec_cols() == old(self).spec_cols(),
            final(self).spec_rows() == old(self).spec_rows(),
    {
        self.data.as_mut_slice()
    }

    /// `(i, j)` as unsigned coordinates when it names a cell.
    fn validate_indices(&self, i: i32, j: i32) -> (r: Option<(usize, usize)>)
        ensures
            r matches Some(p) ==> self.in_bounds(i as int, j as int) && p.0 == i && p.1 == j,
            r is None ==> !self.in_bounds(i as int, j as int),
    {
        if i < 0 || j < 0 || i as usize >= self.cols || j as usize >= self.rows {
            return None;
        }
        Some((i as usize, j as usize))
    }
}

} // verus!
