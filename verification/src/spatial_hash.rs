//! Broad-phase collision buckets: bodies are filed under the grid cell they
//! are in, and the candidates for a collision are the bodies filed in the
//! cell itself and its 26 neighbours. Cell coordinates are wrapped into a
//! range of a million, so far-apart cells may share a bucket. Turning a
//! position into a cell (a float division) is up to the caller.

use vstd::prelude::*;
use std::collections::HashMap;

verus! {

broadcast use vstd::std_specs::hash::group_hash_axioms;

/// Cell coordinates are wrapped into `0..WRAP`.
pub const WRAP: i32 = 1000000;

/// A cell coordinate wrapped into `0..WRAP` (the remainder that is never
/// negative).
pub open spec fn wrapped(x: int) -> int {
    x % (WRAP as int)
}

/// The bucket key of the cell `(x, y, z)`: its three wrapped coordinates as
/// the digits of a number in base `WRAP`.
pub open spec fn cell_key(x: int, y: int, z: int) -> int {
    (wrapped(x) * WRAP + wrapped(y)) * WRAP + wrapped(z)
}

/// Wraps one cell coordinate into `0..WRAP`.
fn hash_coord(x: i32) -> (r: i32)
    ensures
        r == wrapped(x as int),
        0 <= r < WRAP,
{
    if x >= 0 {
        x % WRAP
    } else {
        let m = x % WRAP;
        assert(m == -((-(x as int)) % (WRAP as int)));
        (m + WRAP) % WRAP
    }
}

/// The bucket key of a cell.
fn key_of(cell: (i32, i32, i32)) -> (r: u64)
    ensures
        r == cell_key(cell.0 as int, cell.1 as int, cell.2 as int),
{
    let x = hash_coord(cell.0) as u64;
    let y = hash_coord(cell.1) as u64;
    let z = hash_coord(cell.2) as u64;
    assert(x * 1000000 + y < 1000000000000) by (nonlinear_arith)
        requires
            x < 1000000,
            y < 1000000,
    ;
    assert((x * 1000000 + y) * 1000000 + z < 1000000000000000000) by (nonlinear_arith)
        requires
            x * 1000000 + y < 1000000000000,
            z < 1000000,
    ;
    (x * 1000000 + y) * 1000000 + z
}

/// The `k`-th cell (`0 <= k < 27`) of the 3×3×3 block around `cell`, in the
/// order x-offset, then y-offset, then z-offset, each from -1 to 1.
pub open spec fn neighbour(cell: (i32, i32, i32), k: int) -> (int, int, int) {
    (cell.0 + k / 9 - 1, cell.1 + (k / 3) % 3 - 1, cell.2 + k % 3 - 1)
}

/// The bodies filed under bucket `key` of `cells`, oldest first.
pub open spec fn bucket(cells: Map<u64, Vec<usize>>, key: int) -> Seq<usize> {
    if 0 <= key <= u64::MAX && cells.contains_key(key as u64) {
        cells[key as u64]@
    } else {
        Seq::empty()
    }
}

/// The buckets of the first `n` cells of the block around `cell`, one after
/// the other.
pub open spec fn candidates(cells: Map<u64, Vec<usize>>, cell: (i32, i32, i32), n: nat) -> Seq<usize>
    decreases n,
{
    if n == 0 {
        Seq::empty()
    } else {
        let c = neighbour(cell, n - 1);
        candidates(cells, cell, (n - 1) as nat) + bucket(cells, cell_key(c.0, c.1, c.2))
    }
}

/// Bodies filed by grid cell.
pub struct SpatialHash {
    hash_map: HashMap<u64, Vec<usize>>,
}

impl SpatialHash {
    /// The buckets: bodies by bucket key.
    pub closed spec fn cells(&self) -> Map<u64, Vec<usize>> {
        self.hash_map@
    }

    /// No body filed anywhere.
    pub fn new() -> (r: Self)
        ensures
            r.cells() == Map::<u64, Vec<usize>>::empty(),
    {
        SpatialHash { hash_map: HashMap::new() }
    }

    /// Forgets every body.
    pub fn clear(&mut self)
        ensures
            final(self).cells() == Map::<u64, Vec<usize>>::empty(),
    {
        self.hash_map.clear();
    }

    /// Files `body_index` under `cell`, after the bodies already there.
    pub fn insert(&mut self, body_index: usize, cell: (i32, i32, i32))
        ensures
            ({
                let key = cell_key(cell.0 as int, cell.1 as int, cell.2 as int);
                &&& final(self).cells().dom() == old(self).cells().dom().insert(key as u64)
                &&& bucket(final(self).cells(), key) == bucket(old(self).cells(), key).push(body_index)
                &&& forall|k: u64| k != key ==> #[trigger] final(self).cells().get(k) == old(self).cells().get(k)
            }),
    {
        let key = key_of(cell);
        self.hash_map.entry(key).or_insert(Vec::new()).push(body_index);
    }

    /// The bodies that may touch something in `cell`: the buckets of the
    /// 3×3×3 block of cells around it, in block order, each oldest first.
    pub fn get_potential_collisions(&self, cell: (i32, i32, i32)) -> (r: Vec<usize>)
        requires
            i32::MIN < cell.0 < i32::MAX,
            i32::MIN < cell.1 < i32::MAX,
            i32::MIN < cell.2 < i32::MAX,
        ensures
            r@ == candidates(self.cells(), cell, 27),
    {
        let mut found: Vec<usize> = Vec::new();
        let mut k: i32 = 0;
        while k < 27
            invariant
                0 <= k <= 27,
                i32::MIN < cell.0 < i32::MAX,
                i32::MIN < cell.1 < i32::MAX,
                i32::MIN < cell.2 < i32::MAX,
                found@ == candidates(self.cells(), cell, k as nat),
            decreases 27 - k,
        {
            let dx = k / 9 - 1;
            let dy = (k / 3) % 3 - 1;
            let dz = k % 3 - 1;
            let neighbour_cell = (cell.0 + dx, cell.1 + dy, cell.2 + dz);
            let key = key_of(neighbour_cell);
            let ghost before = found@;
            if let Some(bodies) = self.hash_map.get(&key) {
                found.extend_from_slice(bodies.as_slice());
                proof {
                    assert(found@ =~= before + bodies@);
                }
            }
            proof {
                assert(neighbour(cell, k as int) == (neighbour_cell.0 as int, neighbour_cell.1 as int, neighbour_cell.2 as int));
            }
            k = k + 1;
        }
        found
    }
}

/// A body in the bucket of one of the first `n` cells of the block around
/// `query` is among their candidates.
proof fn lemma_candidates_contain(
    cells: Map<u64, Vec<usize>>,
    query: (i32, i32, i32),
    n: nat,
    k: int,
    body: usize,
)
    requires
        0 <= k < n,
        ({
            let c = neighbour(query, k);
            bucket(cells, cell_key(c.0, c.1, c.2)).contains(body)
        }),
    ensures
        candidates(cells, query, n).contains(body),
    decreases n,
{
    let c = neighbour(query, (n - 1) as int);
    let prefix = candidates(cells, query, (n - 1) as nat);
    let last = bucket(cells, cell_key(c.0, c.1, c.2));
    if k == n - 1 {
        let i = choose|i: int| 0 <= i < last.len() && last[i] == body;
        assert((prefix + last)[prefix.len() + i] == body);
    } else {
        lemma_candidates_contain(cells, query, (n - 1) as nat, k, body);
        let i = choose|i: int| 0 <= i < prefix.len() && prefix[i] == body;
        assert((prefix + last)[i] == body);
    }
}

/// The position of offset `(a, b, c)` (each 0 to 2, standing for -1 to 1)
/// in block order.
proof fn lemma_block_position(a: int, b: int, c: int)
    requires
        0 <= a < 3,
        0 <= b < 3,
        0 <= c < 3,
    ensures
        (a * 9 + b * 3 + c) / 9 == a,
        ((a * 9 + b * 3 + c) / 3) % 3 == b,
        (a * 9 + b * 3 + c) % 3 == c,
        0 <= a * 9 + b * 3 + c < 27,
{
    assert((a * 9 + b * 3 + c) / 9 == a) by (nonlinear_arith)
        requires
            0 <= a < 3,
            0 <= b < 3,
            0 <= c < 3,
    ;
    assert((a * 9 + b * 3 + c) / 3 == a * 3 + b) by (nonlinear_arith)
        requires
            0 <= a < 3,
            0 <= b < 3,
            0 <= c < 3,
    ;
    assert((a * 3 + b) % 3 == b) by (nonlinear_arith)
        requires
            0 <= a < 3,
            0 <= b < 3,
    ;
    assert((a * 9 + b * 3 + c) % 3 == c) by (nonlinear_arith)
        requires
            0 <= a < 3,
            0 <= b < 3,
            0 <= c < 3,
    ;
}

/// A body filed under a cell is a collision candidate of that cell and of
/// each of its 26 neighbours.
pub proof fn law_filed_body_is_found_nearby(
    cells: Map<u64, Vec<usize>>,
    body: usize,
    cell: (i32, i32, i32),
    query: (i32, i32, i32),
)
    requires
        bucket(cells, cell_key(cell.0 as int, cell.1 as int, cell.2 as int)).contains(body),
        -1 <= cell.0 - query.0 <= 1,
        -1 <= cell.1 - query.1 <= 1,
        -1 <= cell.2 - query.2 <= 1,
    ensures
        candidates(cells, query, 27).contains(body),
{
    let a = cell.0 - query.0 + 1;
    let b = cell.1 - query.1 + 1;
    let c = cell.2 - query.2 + 1;
    lemma_block_position(a, b, c);
    let k = a * 9 + b * 3 + c;
    assert(neighbour(query, k) == (cell.0 as int, cell.1 as int, cell.2 as int));
    lemma_candidates_contain(cells, query, 27, k, body);
}

} // verus!
