use vstd::prelude::*;

verus! {

/// Multiplier of the column in the bucket hash.
pub const COLUMN_PRIME: u64 = 92837111;

/// Multiplier of the row in the bucket hash.
pub const ROW_PRIME: u64 = 689287499;

/// Bucket of `cell` in a table of `table_size` buckets:
/// `(col * COLUMN_PRIME) xor (row * ROW_PRIME) mod table_size`, with the
/// coordinates taken as 32-bit unsigned words.
pub open spec fn hash_cell(cell: (i32, i32), table_size: nat) -> nat {
    let a = ((cell.0 as u32) as u64 * COLUMN_PRIME) as u64;
    let b = ((cell.1 as u32) as u64 * ROW_PRIME) as u64;
    ((a ^ b) as nat) % table_size
}

/// Every cell falls into one of the `table_size` buckets.
pub proof fn lemma_hash_cell_bound(cell: (i32, i32), table_size: nat)
    requires
        table_size > 0,
    ensures
        hash_cell(cell, table_size) < table_size,
{
    let a = ((cell.0 as u32) as u64 * COLUMN_PRIME) as u64;
    let b = ((cell.1 as u32) as u64 * ROW_PRIME) as u64;
    vstd::arithmetic::div_mod::lemma_mod_bound((a ^ b) as int, table_size as int);
}

/// `cell` lies in the rectangle of cells `[col_low, col_high] x [row_low, row_high]`.
pub open spec fn in_window(
    cell: (i32, i32),
    col_low: i32,
    row_low: i32,
    col_high: i32,
    row_high: i32,
) -> bool {
    col_low <= cell.0 <= col_high && row_low <= cell.1 <= row_high
}

/// Number of the first `p` cells that fall into `bucket`.
spec fn bucket_count(cells: Seq<(i32, i32)>, table_size: nat, bucket: nat, p: nat) -> nat
    decreases p,
{
    if p == 0 {
        0
    } else {
        bucket_count(cells, table_size, bucket, (p - 1) as nat) + if hash_cell(
            cells[p - 1],
            table_size,
        ) == bucket {
            1nat
        } else {
            0nat
        }
    }
}

/// Number of all cells that fall into a bucket below `bucket`: where the
/// entries of `bucket` start once the table is filled.
spec fn bucket_start(cells: Seq<(i32, i32)>, table_size: nat, bucket: nat) -> nat
    decreases bucket,
{
    if bucket == 0 {
        0
    } else {
        bucket_start(cells, table_size, (bucket - 1) as nat) + bucket_count(
            cells,
            table_size,
            (bucket - 1) as nat,
            cells.len(),
        )
    }
}

proof fn lemma_bucket_count_le(cells: Seq<(i32, i32)>, table_size: nat, bucket: nat, p: nat, q: nat)
    requires
        p <= q,
    ensures
        bucket_count(cells, table_size, bucket, p) <= bucket_count(cells, table_size, bucket, q),
        bucket_count(cells, table_size, bucket, q) <= q,
    decreases q,
{
    if q > 0 {
        if p < q {
            lemma_bucket_count_le(cells, table_size, bucket, p, (q - 1) as nat);
        } else {
            lemma_bucket_count_le(cells, table_size, bucket, (q - 1) as nat, (q - 1) as nat);
        }
    }
}

proof fn lemma_bucket_count_beyond(cells: Seq<(i32, i32)>, table_size: nat, bucket: nat, p: nat)
    requires
        table_size > 0,
        bucket >= table_size,
    ensures
        bucket_count(cells, table_size, bucket, p) == 0,
    decreases p,
{
    if p > 0 {
        lemma_bucket_count_beyond(cells, table_size, bucket, (p - 1) as nat);
    }
}

proof fn lemma_bucket_start_le(cells: Seq<(i32, i32)>, table_size: nat, a: nat, b: nat)
    requires
        a <= b,
    ensures
        bucket_start(cells, table_size, a) <= bucket_start(cells, table_size, b),
    decreases b,
{
    if a < b {
        lemma_bucket_start_le(cells, table_size, a, (b - 1) as nat);
    }
}

/// Counting the first `p` cells bucket by bucket, below bucket `k`.
spec fn partial_start(cells: Seq<(i32, i32)>, table_size: nat, k: nat, p: nat) -> nat
    decreases k,
{
    if k == 0 {
        0
    } else {
        partial_start(cells, table_size, (k - 1) as nat, p) + bucket_count(
            cells,
            table_size,
            (k - 1) as nat,
            p,
        )
    }
}

proof fn lemma_partial_start_step(cells: Seq<(i32, i32)>, table_size: nat, k: nat, p: nat)
    requires
        p < cells.len(),
    ensures
        partial_start(cells, table_size, k, p + 1) == partial_start(cells, table_size, k, p) + if hash_cell(
            cells[p as int],
            table_size,
        ) < k {
            1nat
        } else {
            0nat
        },
    decreases k,
{
    if k > 0 {
        lemma_partial_start_step(cells, table_size, (k - 1) as nat, p);
    }
}

proof fn lemma_partial_start_zero(cells: Seq<(i32, i32)>, table_size: nat, k: nat)
    ensures
        partial_start(cells, table_size, k, 0) == 0,
    decreases k,
{
    if k > 0 {
        lemma_partial_start_zero(cells, table_size, (k - 1) as nat);
    }
}

proof fn lemma_partial_start_total(cells: Seq<(i32, i32)>, table_size: nat, p: nat)
    requires
        table_size > 0,
        p <= cells.len(),
    ensures
        partial_start(cells, table_size, table_size, p) == p,
    decreases p,
{
    if p > 0 {
        let q = (p - 1) as nat;
        lemma_partial_start_total(cells, table_size, q);
        lemma_partial_start_step(cells, table_size, table_size, q);
        lemma_hash_cell_bound(cells[q as int], table_size);
    } else {
        lemma_partial_start_zero(cells, table_size, table_size);
    }
}

proof fn lemma_bucket_start_is_partial(cells: Seq<(i32, i32)>, table_size: nat, k: nat)
    ensures
        bucket_start(cells, table_size, k) == partial_start(cells, table_size, k, cells.len()),
    decreases k,
{
    if k > 0 {
        lemma_bucket_start_is_partial(cells, table_size, (k - 1) as nat);
    }
}

/// All cells fall into one of the `table_size` buckets.
proof fn lemma_bucket_start_total(cells: Seq<(i32, i32)>, table_size: nat)
    requires
        table_size > 0,
    ensures
        bucket_start(cells, table_size, table_size) == cells.len(),
        bucket_start(cells, table_size, table_size + 1) == cells.len(),
{
    lemma_bucket_start_is_partial(cells, table_size, table_size);
    lemma_partial_start_total(cells, table_size, cells.len());
    lemma_bucket_count_beyond(cells, table_size, table_size, cells.len());
}

/// A uniform-bucket spatial hash over integer cell coordinates. The points of
/// the last `populate` are sorted by bucket: the entries of bucket `b` are the
/// indices held in `entries[starts[b]..starts[b + 1]]`.
pub struct SpatialHash {
    table_size: usize,
    starts: Vec<usize>,
    entries: Vec<usize>,
    cells: Ghost<Seq<(i32, i32)>>,
    positions: Ghost<Seq<int>>,
}

impl SpatialHash {
    /// Number of buckets.
    pub closed spec fn spec_table_size(&self) -> nat {
        self.table_size as nat
    }

    /// The cells of the points of the last `populate`, by point index.
    pub closed spec fn spec_cells(&self) -> Seq<(i32, i32)> {
        self.cells@
    }

    /// Bucket of point `p`.
    pub open spec fn bucket_of(&self, p: int) -> nat {
        hash_cell(self.spec_cells()[p], self.spec_table_size())
    }

    /// Point `p` shares a bucket with some cell of the window: it is one of
    /// the candidates that a query of the window returns.
    pub open spec fn is_candidate(
        &self,
        p: int,
        col_low: i32,
        row_low: i32,
        col_high: i32,
        row_high: i32,
    ) -> bool {
        &&& 0 <= p < self.spec_cells().len()
        &&& exists|c: (i32, i32)|
            #![trigger hash_cell(c, self.spec_table_size())]
            in_window(c, col_low, row_low, col_high, row_high) && hash_cell(c, self.spec_table_size())
                == self.bucket_of(p)
    }

    /// The table lists every point exactly once, under its own bucket.
    pub closed spec fn wf(&self) -> bool {
        let ts = self.table_size as nat;
        let n = self.cells@.len();
        &&& 0 < ts < usize::MAX
        &&& self.starts@.len() == ts + 1
        &&& self.entries@.len() == n
        &&& self.positions@.len() == n
        &&& forall|b: int| 0 <= b < ts ==> #[trigger] self.starts@[b] <= self.starts@[b + 1] <= n
        &&& forall|b: int| 0 <= b <= ts ==> #[trigger] self.starts@[b] <= n
        &&& forall|b: int, k: int|
            #![trigger self.starts@[b], self.entries@[k]]
            0 <= b < ts && self.starts@[b] <= k < self.starts@[b + 1] ==> {
                &&& self.entries@[k] < n
                &&& hash_cell(self.cells@[self.entries@[k] as int], ts) == b
                &&& self.positions@[self.entries@[k] as int] == k
            }
        &&& forall|p: int|
            #![trigger self.positions@[p]]
            0 <= p < n ==> {
                let b = hash_cell(self.cells@[p], ts) as int;
                &&& self.starts@[b] <= self.positions@[p] < self.starts@[b + 1]
                &&& self.entries@[self.positions@[p]] == p
            }
    }

    /// An empty hash sized for about `max_num_objects` points: the table has
    /// twice as many buckets, to keep them sparsely filled.
    pub fn new(max_num_objects: usize) -> (hash: Self)
        requires
            0 < max_num_objects,
            2 * max_num_objects < usize::MAX,
        ensures
            hash.wf(),
            hash.spec_table_size() == 2 * max_num_objects,
            hash.spec_cells() == Seq::<(i32, i32)>::empty(),
    {
        let table_size = 2 * max_num_objects;
        let starts = zeros(table_size + 1);
        SpatialHash {
            table_size,
            starts,
            entries: Vec::new(),
            cells: Ghost(Seq::empty()),
            positions: Ghost(Seq::empty()),
        }
    }

    /// Bucket of cell `(i, j)`: `(i * COLUMN_PRIME) xor (j * ROW_PRIME) mod table_size`.
    pub fn hash_coordinates(&self, i: i32, j: i32) -> (r: usize)
        requires
            self.wf(),
        ensures
            r == hash_cell((i, j), self.spec_table_size()),
            r < self.spec_table_size(),
    {
        proof {
            lemma_hash_cell_bound((i, j), self.table_size as nat);
        }
        let a: u64 = (i as u32) as u64 * COLUMN_PRIME;
        let b: u64 = (j as u32) as u64 * ROW_PRIME;
        ((a ^ b) % (self.table_size as u64)) as usize
    }

    /// Sorts the points, given by their cells, into the buckets: a count of
    /// the points per bucket, turned into running sums, then a second pass
    /// that places each point index just below the running sum of its bucket.
    pub fn populate(&mut self, cells: &Vec<(i32, i32)>)
        requires
            old(self).wf(),
        ensures
            final(self).wf(),
            final(self).spec_table_size() == old(self).spec_table_size(),
            final(self).spec_cells() == cells@,
    {
        let ghost cs = cells@;
        let ghost ts = self.table_size as nat;
        let n = cells.len();
        let table_size = self.table_size;
        let mut starts = self.count_points(cells);
        proof {
            lemma_bucket_start_total(cs, ts);
        }
        let mut start: usize = 0;
        let mut b: usize = 0;
        while b <= table_size
            invariant
                n == cells@.len(),
                cs == cells@,
                ts == table_size,
                table_size > 0,
                table_size < usize::MAX,
                b <= table_size + 1,
                starts@.len() == table_size + 1,
                start == bucket_start(cs, ts, b as nat),
                bucket_start(cs, ts, ts + 1) == n,
                forall|c: int|
                    0 <= c < b ==> #[trigger] starts@[c] == bucket_start(cs, ts, (c + 1) as nat),
                forall|c: int|
                    b <= c <= table_size ==> #[trigger] starts@[c] == bucket_count(cs, ts, c as nat, n as nat),
            decreases table_size + 1 - b,
        {
            proof {
                lemma_bucket_start_le(cs, ts, (b + 1) as nat, ts + 1);
            }
            start = start + starts[b];
            starts.set(b, start);
            b = b + 1;
        }
        let (entries, positions) = self.place_points(cells, &mut starts);

        proof {
            assert forall|c: int| 0 <= c < table_size implies #[trigger] starts@[c] <= starts@[c + 1] <= n by {
                lemma_bucket_start_le(cs, ts, c as nat, (c + 1) as nat);
                lemma_bucket_start_le(cs, ts, (c + 1) as nat, ts);
            }
            assert forall|c: int| 0 <= c <= table_size implies #[trigger] starts@[c] <= n by {
                lemma_bucket_start_le(cs, ts, c as nat, ts);
            }
            assert forall|q: int|
                #![trigger positions@[q]]
                0 <= q < n implies {
                    let c = hash_cell(cs[q], ts) as int;
                    &&& starts@[c] <= positions@[q] < starts@[c + 1]
                    &&& entries@[positions@[q]] == q
                } by {
                lemma_hash_cell_bound(cs[q], ts);
            }
        }
        self.starts = starts;
        self.entries = entries;
        self.cells = Ghost(cs);
        self.positions = positions;
    }

    /// Number of points per bucket, with one more slot, left at zero, after
    /// the last bucket.
    fn count_points(&self, cells: &Vec<(i32, i32)>) -> (starts: Vec<usize>)
        requires
            self.wf(),
        ensures
            starts@.len() == self.spec_table_size() + 1,
            forall|b: int|
                0 <= b <= self.spec_table_size() ==> #[trigger] starts@[b] == bucket_count(
                    cells@,
                    self.spec_table_size(),
                    b as nat,
                    cells@.len(),
                ),
    {
        let ghost cs = cells@;
        let ghost ts = self.table_size as nat;
        let n = cells.len();
        let table_size = self.table_size;
        let mut starts = zeros(table_size + 1);
        let mut p: usize = 0;
        while p < n
            invariant
                n == cells@.len(),
                cs == cells@,
                ts == table_size,
                self.wf(),
                self.table_size == table_size,
                p <= n,
                starts@.len() == table_size + 1,
                forall|b: int|
                    0 <= b <= table_size ==> #[trigger] starts@[b] == bucket_count(cs, ts, b as nat, p as nat),
            decreases n - p,
        {
            let b = self.hash_coordinates(cells[p].0, cells[p].1);
            proof {
                lemma_bucket_count_le(cs, ts, b as nat, p as nat, p as nat);
            }
            starts.set(b, starts[b] + 1);
            p = p + 1;
        }
        starts
    }

    /// Given the running sums of the bucket counts, writes each point index
    /// into the slot just below the running sum of its bucket and lowers that
    /// sum; once done, `starts[b]` is where bucket `b` begins. Also returns,
    /// for each point, the slot it went to.
    fn place_points(&self, cells: &Vec<(i32, i32)>, starts: &mut Vec<usize>) -> (r: (
        Vec<usize>,
        Ghost<Seq<int>>,
    ))
        requires
            self.wf(),
            old(starts)@.len() == self.spec_table_size() + 1,
            forall|c: int|
                0 <= c <= self.spec_table_size() ==> #[trigger] old(starts)@[c] == bucket_start(
                    cells@,
                    self.spec_table_size(),
                    (c + 1) as nat,
                ),
        ensures
            final(starts)@.len() == self.spec_table_size() + 1,
            forall|c: int|
                0 <= c <= self.spec_table_size() ==> #[trigger] final(starts)@[c] == bucket_start(
                    cells@,
                    self.spec_table_size(),
                    c as nat,
                ),
            r.0@.len() == cells@.len(),
            r.1@.len() == cells@.len(),
            forall|q: int|
                #![trigger r.1@[q]]
                0 <= q < cells@.len() ==> {
                    let c = hash_cell(cells@[q], self.spec_table_size()) as int;
                    &&& bucket_start(cells@, self.spec_table_size(), c as nat) <= r.1@[q]
                        < bucket_start(cells@, self.spec_table_size(), (c + 1) as nat)
                    &&& r.0@[r.1@[q]] == q
                },
            forall|c: int, k: int|
                #![trigger final(starts)@[c], r.0@[k]]
                0 <= c < self.spec_table_size() && final(starts)@[c] <= k < final(starts)@[c + 1] ==> {
                    &&& r.0@[k] < cells@.len()
                    &&& hash_cell(cells@[r.0@[k] as int], self.spec_table_size()) == c
                    &&& r.1@[r.0@[k] as int] == k
                },
    {
        let ghost cs = cells@;
        let ghost ts = self.table_size as nat;
        let n = cells.len();
        let table_size = self.table_size;
        proof {
            lemma_bucket_start_total(cs, ts);
            lemma_bucket_count_beyond(cs, ts, ts, n as nat);
        }
        let mut entries = zeros(n);
        let ghost mut positions: Seq<int> = Seq::empty();
        let mut p: usize = 0;
        while p < n
            invariant
                n == cells@.len(),
                cs == cells@,
                ts == table_size,
                self.wf(),
                self.table_size == table_size,
                p <= n,
                starts@.len() == table_size + 1,
                entries@.len() == n,
                positions.len() == p,
                bucket_start(cs, ts, ts) == n,
                bucket_start(cs, ts, ts + 1) == n,
                starts@[table_size as int] == n,
                forall|c: int|
                    0 <= c < table_size ==> #[trigger] starts@[c] == bucket_start(cs, ts, (c + 1) as nat)
                        - bucket_count(cs, ts, c as nat, p as nat),
                forall|q: int|
                    #![trigger positions[q]]
                    0 <= q < p ==> {
                        let c = hash_cell(cs[q], ts) as int;
                        &&& starts@[c] <= positions[q] < bucket_start(cs, ts, (c + 1) as nat)
                        &&& entries@[positions[q]] == q
                    },
                forall|c: int, k: int|
                    #![trigger starts@[c], entries@[k]]
                    0 <= c < table_size && starts@[c] <= k < bucket_start(cs, ts, (c + 1) as nat) ==> {
                        &&& entries@[k] < p
                        &&& hash_cell(cs[entries@[k] as int], ts) == c
                        &&& positions[entries@[k] as int] == k
                    },
            decreases n - p,
        {
            let b = self.hash_coordinates(cells[p].0, cells[p].1);
            let ghost old_starts = starts@;
            let ghost old_entries = entries@;
            let ghost old_positions = positions;
            proof {
                lemma_bucket_count_le(cs, ts, b as nat, (p + 1) as nat, n as nat);
                lemma_bucket_start_le(cs, ts, (b + 1) as nat, ts);
            }
            let k = starts[b] - 1;
            starts.set(b, k);
            entries.set(k, p);
            proof {
                positions = positions.push(k as int);
                // slot `k` lies in bucket `b`'s range, which no other bucket's
                // filled range meets
                assert forall|c: int|
                    0 <= c < table_size && c != b implies bucket_start(cs, ts, c as nat) <= #[trigger] old_starts[c]
                        && (bucket_start(cs, ts, (c + 1) as nat) <= k || bucket_start(cs, ts, c as nat) > k) by {
                    lemma_bucket_count_le(cs, ts, c as nat, p as nat, n as nat);
                    if c < b {
                        lemma_bucket_start_le(cs, ts, (c + 1) as nat, b as nat);
                    } else {
                        lemma_bucket_start_le(cs, ts, (b + 1) as nat, c as nat);
                    }
                }
                assert forall|c: int, m: int|
                    #![trigger starts@[c], entries@[m]]
                    0 <= c < table_size && starts@[c] <= m < bucket_start(cs, ts, (c + 1) as nat) implies {
                        &&& entries@[m] < p + 1
                        &&& hash_cell(cs[entries@[m] as int], ts) == c
                        &&& positions[entries@[m] as int] == m
                    } by {
                    lemma_bucket_start_le(cs, ts, (c + 1) as nat, ts);
                    if m != k {
                        assert(old_starts[c] <= m);
                        assert(old_entries[m] == entries@[m]);
                    }
                }
                assert forall|q: int|
                    #![trigger positions[q]]
                    0 <= q < p + 1 implies {
                        let c = hash_cell(cs[q], ts) as int;
                        &&& starts@[c] <= positions[q] < bucket_start(cs, ts, (c + 1) as nat)
                        &&& entries@[positions[q]] == q
                    } by {
                    lemma_hash_cell_bound(cs[q], ts);
                    let c = hash_cell(cs[q], ts) as int;
                    if q < p {
                        assert(old_positions[q] == positions[q]);
                        assert(old_starts[c] <= old_positions[q]);
                        lemma_bucket_start_le(cs, ts, (c + 1) as nat, ts);
                        assert(positions[q] != k);
                        assert(old_entries[positions[q]] == entries@[positions[q]]);
                    }
                }
            }
            p = p + 1;
        }
        proof {
            assert forall|c: int| 0 <= c <= table_size implies #[trigger] starts@[c] == bucket_start(
                cs,
                ts,
                c as nat,
            ) by {}
        }
        (entries, Ghost(positions))
    }

    /// Indices of the points that share a bucket with some cell of the window
    /// `[col_low, col_high] x [row_low, row_high]`, each listed once. Every
    /// point whose cell lies in the window is among them; points of other
    /// cells that collide in the hash may be too, and the caller checks
    /// distances itself.
    pub fn query(&self, col_low: i32, row_low: i32, col_high: i32, row_high: i32) -> (r: Vec<usize>)
        requires
            self.wf(),
        ensures
            forall|x: usize|
                #![trigger r@.contains(x)]
                r@.contains(x) <==> self.is_candidate(x as int, col_low, row_low, col_high, row_high),
            r@.no_duplicates(),
    {
        let ghost ts = self.table_size as nat;
        let ghost n = self.cells@.len();
        let mut result: Vec<usize> = Vec::new();
        let ghost mut witness: Map<nat, (i32, i32)> = Map::empty();
        let mut i: i64 = col_low as i64;
        while i <= col_high as i64
            invariant
                self.wf(),
                ts == self.table_size,
                n == self.cells@.len(),
                col_low <= i,
                col_low <= col_high ==> i <= col_high + 1,
                forall|x: usize|
                    #![trigger result@.contains(x)]
                    result@.contains(x) <==> (x < n && witness.dom().contains(self.bucket_of(x as int))),
                forall|bkt: nat|
                    #![trigger witness.dom().contains(bkt)]
                    witness.dom().contains(bkt) ==> {
                        &&& in_window(witness[bkt], col_low, row_low, col_high, row_high)
                        &&& witness[bkt].0 < i
                        &&& hash_cell(witness[bkt], ts) == bkt
                    },
                forall|c: (i32, i32)|
                    #![trigger hash_cell(c, ts)]
                    in_window(c, col_low, row_low, col_high, row_high) && c.0 < i ==> witness.dom().contains(
                        hash_cell(c, ts),
                    ),
                result@.no_duplicates(),
            decreases col_high as i64 + 1 - i,
        {
            let mut j: i64 = row_low as i64;
            while j <= row_high as i64
                invariant
                    self.wf(),
                    ts == self.table_size,
                    n == self.cells@.len(),
                    col_low <= i <= col_high,
                    row_low <= j,
                    row_low <= row_high ==> j <= row_high + 1,
                    forall|x: usize|
                        #![trigger result@.contains(x)]
                        result@.contains(x) <==> (x < n && witness.dom().contains(self.bucket_of(x as int))),
                    forall|bkt: nat|
                        #![trigger witness.dom().contains(bkt)]
                        witness.dom().contains(bkt) ==> {
                            &&& in_window(witness[bkt], col_low, row_low, col_high, row_high)
                            &&& (witness[bkt].0 < i || (witness[bkt].0 == i && witness[bkt].1 < j))
                            &&& hash_cell(witness[bkt], ts) == bkt
                        },
                    forall|c: (i32, i32)|
                        #![trigger hash_cell(c, ts)]
                        in_window(c, col_low, row_low, col_high, row_high) && (c.0 < i || (c.0 == i && c.1
                            < j)) ==> witness.dom().contains(hash_cell(c, ts)),
                    result@.no_duplicates(),
                decreases row_high as i64 + 1 - j,
            {
                let bucket = self.hash_coordinates(i as i32, j as i32);
                self.append_bucket(&mut result, bucket);
                proof {
                    witness = witness.insert(bucket as nat, (i as i32, j as i32));
                }
                j = j + 1;
            }
            i = i + 1;
        }
        proof {
            assert forall|x: usize|
                #![trigger result@.contains(x)]
                result@.contains(x) <==> self.is_candidate(x as int, col_low, row_low, col_high, row_high) by {
                if result@.contains(x) {
                    let c = witness[self.bucket_of(x as int)];
                    assert(hash_cell(c, ts) == self.bucket_of(x as int));
                }
            }
        }
        result
    }

    /// Appends to `result` the points of `bucket` that it does not hold yet.
    fn append_bucket(&self, result: &mut Vec<usize>, bucket: usize)
        requires
            self.wf(),
            bucket < self.spec_table_size(),
            old(result)@.no_duplicates(),
        ensures
            forall|x: usize|
                #![trigger final(result)@.contains(x)]
                final(result)@.contains(x) <==> (old(result)@.contains(x) || (x < self.spec_cells().len()
                    && self.bucket_of(x as int) == bucket)),
            final(result)@.no_duplicates(),
    {
        let ghost n = self.cells@.len();
        let ghost ts = self.table_size as nat;
        let start = self.starts[bucket];
        let end = self.starts[bucket + 1];
        let mut k: usize = start;
        while k < end
            invariant
                self.wf(),
                ts == self.table_size,
                n == self.cells@.len(),
                bucket < ts,
                start == self.starts@[bucket as int],
                end == self.starts@[bucket + 1],
                start <= k <= end,
                forall|x: usize|
                    #![trigger result@.contains(x)]
                    result@.contains(x) <==> (old(result)@.contains(x) || (x < n && self.bucket_of(x as int)
                        == bucket && self.positions@[x as int] < k)),
                result@.no_duplicates(),
            decreases end - k,
        {
            let entry = self.entries[k];
            proof {
                assert(self.starts@[bucket as int] <= k < self.starts@[bucket + 1]);
                assert(self.entries@[k as int] == entry);
                assert(entry < n && self.bucket_of(entry as int) == bucket && self.positions@[entry as int] == k);
            }
            let ghost prev = result@;
            if !contains(result, entry) {
                result.push(entry);
            }
            proof {
                assert forall|x: usize|
                    #![trigger result@.contains(x)]
                    result@.contains(x) <==> (old(result)@.contains(x) || (x < n && self.bucket_of(x as int)
                        == bucket && self.positions@[x as int] < k + 1)) by {
                    if x < n && self.bucket_of(x as int) == bucket && self.positions@[x as int] == k {
                        assert(self.entries@[self.positions@[x as int]] == x);
                    }
                    if prev.contains(x) {
                        let m = choose|m: int| 0 <= m < prev.len() && prev[m] == x;
                        assert(result@[m] == x);
                    }
                    if result@.contains(x) && x != entry {
                        let m = choose|m: int| 0 <= m < result@.len() && result@[m] == x;
                        assert(prev[m] == x);
                    }
                    if x == entry {
                        assert(result@.contains(entry)) by {
                            if prev.contains(entry) {
                                let m = choose|m: int| 0 <= m < prev.len() && prev[m] == entry;
                                assert(result@[m] == entry);
                            } else {
                                assert(result@[result@.len() - 1] == entry);
                            }
                        }
                    }
                }
            }
            k = k + 1;
        }
        proof {
            assert forall|x: usize|
                #![trigger result@.contains(x)]
                result@.contains(x) <==> (old(result)@.contains(x) || (x < n && self.bucket_of(x as int)
                    == bucket)) by {
                if x < n && self.bucket_of(x as int) == bucket {
                    assert(self.positions@[x as int] < end);
                }
            }
        }
    }
}

/// No false negatives: every point whose cell lies in a window is a
/// candidate of that window, so `query` on the window returns it.
pub proof fn lemma_query_has_no_false_negatives(
    hash: &SpatialHash,
    p: int,
    col_low: i32,
    row_low: i32,
    col_high: i32,
    row_high: i32,
)
    requires
        0 <= p < hash.spec_cells().len(),
        in_window(hash.spec_cells()[p], col_low, row_low, col_high, row_high),
    ensures
        hash.is_candidate(p, col_low, row_low, col_high, row_high),
{
    let c = hash.spec_cells()[p];
    assert(hash_cell(c, hash.spec_table_size()) == hash.bucket_of(p));
}

/// `v` holds `x`.
fn contains(v: &Vec<usize>, x: usize) -> (r: bool)
    ensures
        r == v@.contains(x),
{
    let mut k: usize = 0;
    while k < v.len()
        invariant
            k <= v.len(),
            forall|m: int| 0 <= m < k ==> v@[m] != x,
        decreases v.len() - k,
    {
        if v[k] == x {
            return true;
        }
        k = k + 1;
    }
    false
}

/// A vector of `n` zeros.
fn zeros(n: usize) -> (v: Vec<usize>)
    ensures
        v@ == Seq::new(n as nat, |k: int| 0usize),
{
    let mut v: Vec<usize> = Vec::new();
    while v.len() < n
        invariant
            v.len() <= n,
            forall|k: int| 0 <= k < v.len() ==> v@[k] == 0,
        decreases n - v.len(),
    {
        v.push(0);
    }
    assert(v@ =~= Seq::new(n as nat, |k: int| 0usize));
    v
}

} // verus!
