//! Entity bookkeeping of the entity-component system: entity handles with
//! generations, archetypes (sets of component kinds), per-kind component
//! storage, and the entity table. Component kinds are named by integer keys;
//! mapping Rust types to keys is left to the caller.

use vstd::prelude::*;
use std::collections::hash_map::DefaultHasher;
use vstd::std_specs::hash::DefaultHasherAdditionalSpecFns;
use std::collections::HashMap;
use vstd::std_specs::iter::IteratorSpec;
use std::hash::Hasher;

verus! {

broadcast use vstd::std_specs::hash::group_hash_axioms;

/// An entity handle: an index into the entity table and the generation of
/// the entity that used it.
#[derive(Debug, Clone, Copy, PartialEq, Eq, Hash, Structural)]
pub struct Entity {
    pub id: u32,
    pub generation: u32,
}

impl Entity {
    /// The null handle, which names no entity.
    pub fn null() -> (r: Entity)
        ensures
            r.id == u32::MAX,
            r.generation == u32::MAX,
    {
        Entity { id: u32::MAX, generation: u32::MAX }
    }

    /// A first-generation handle for `id`.
    pub fn new(id: u32) -> (r: Self)
        ensures
            r.id == id,
            r.generation == 0,
    {
        Entity { id, generation: 0 }
    }

    /// The position of the entity in the entity table.
    pub fn index(&self) -> (r: usize)
        ensures
            r == self.id,
    {
        self.id as usize
    }

    /// Whether this is the null handle (its id is `u32::MAX`).
    pub fn is_null(&self) -> (r: bool)
        ensures
            r == (self.id == u32::MAX),
    {
        self.id == u32::MAX
    }
}

/// Hands out the next entity id from `counter`: the counter's value
/// truncated to 32 bits; the counter then moves on by one, wrapping.
pub fn generate_entity_id(counter: &mut u64) -> (r: u32)
    ensures
        r == *old(counter) as u32,
        *final(counter) == old(counter).wrapping_add(1),
{
    let id = *counter as u32;
    *counter = counter.wrapping_add(1);
    id
}

/// The id of an archetype (a hash of its sorted component keys).
#[derive(Debug, Clone, Copy, PartialEq, Eq, Hash, Structural)]
pub struct ArchetypeId(pub u64);

/// Ascending order.
pub open spec fn keys_sorted(s: Seq<u64>) -> bool {
    forall|i: int, j: int| 0 <= i <= j < s.len() ==> s[i] <= s[j]
}

/// The kinds of `kinds` in ascending order, each once.
pub open spec fn sorted_kinds(kinds: Set<u64>) -> Seq<u64> {
    choose|s: Seq<u64>| keys_sorted(s) && s.no_duplicates() && s.to_set() == kinds
}

/// The archetype id of an entity that holds the component kinds `kinds`:
/// 0 for none, otherwise the hash of the kinds in ascending order. Entities
/// with the same kinds share it.
pub open spec fn kinds_archetype(kinds: Set<u64>) -> u64 {
    if kinds.len() == 0 {
        0
    } else {
        archetype_hash(sorted_kinds(kinds))
    }
}

/// Two ascending sequences without repeats that hold the same keys are the
/// same sequence.
proof fn lemma_sorted_unique(a: Seq<u64>, b: Seq<u64>)
    requires
        keys_sorted(a),
        keys_sorted(b),
        a.no_duplicates(),
        b.no_duplicates(),
        a.to_set() == b.to_set(),
    ensures
        a == b,
    decreases a.len(),
{
    a.unique_seq_to_set();
    b.unique_seq_to_set();
    if a.len() > 0 {
        assert(b.to_set().contains(a[0]));
        let j = choose|j: int| 0 <= j < b.len() && b[j] == a[0];
        assert(a.to_set().contains(b[0]));
        let i = choose|i: int| 0 <= i < a.len() && a[i] == b[0];
        assert(a[0] <= a[i]);
        assert(b[0] <= b[j]);
        assert(a[0] == b[0]);
        let a1 = a.drop_first();
        let b1 = b.drop_first();
        assert forall|x: u64| a1.to_set().contains(x) <==> b1.to_set().contains(x) by {
            if a1.to_set().contains(x) {
                let k = choose|k: int| 0 <= k < a1.len() && a1[k] == x;
                assert(a[k + 1] == x);
                assert(a.to_set().contains(x));
                let m = choose|m: int| 0 <= m < b.len() && b[m] == x;
                assert(m != 0);
                assert(b1[m - 1] == x);
            }
            if b1.to_set().contains(x) {
                let k = choose|k: int| 0 <= k < b1.len() && b1[k] == x;
                assert(b[k + 1] == x);
                assert(b.to_set().contains(x));
                let m = choose|m: int| 0 <= m < a.len() && a[m] == x;
                assert(m != 0);
                assert(a1[m - 1] == x);
            }
        }
        assert(a1.to_set() =~= b1.to_set());
        lemma_sorted_unique(a1, b1);
        assert(a.len() == b.len());
        assert forall|k: int| 0 <= k < a.len() implies a[k] == b[k] by {
            if k > 0 {
                assert(a[k] == a1[k - 1]);
                assert(b[k] == b1[k - 1]);
            }
        }
        assert(a =~= b);
    }
}

/// The sorted copy of keys without repeats is their ascending sequence, so
/// its hash is the archetype id of those kinds.
proof fn lemma_sorted_copy_archetype(keys: Seq<u64>, sorted: Seq<u64>)
    requires
        keys.no_duplicates(),
        keys.len() > 0,
        keys_sorted(sorted),
        sorted.to_multiset() == keys.to_multiset(),
    ensures
        archetype_hash(sorted) == kinds_archetype(keys.to_set()),
{
    broadcast use vstd::seq_lib::group_to_multiset_ensures;
    keys.lemma_multiset_has_no_duplicates();
    sorted.lemma_multiset_has_no_duplicates_conv();
    assert forall|x: u64| sorted.to_set().contains(x) <==> keys.to_set().contains(x) by {
        assert(sorted.contains(x) <==> sorted.to_multiset().count(x) > 0);
        assert(keys.contains(x) <==> keys.to_multiset().count(x) > 0);
    }
    assert(sorted.to_set() =~= keys.to_set());
    keys.unique_seq_to_set();
    let c = sorted_kinds(keys.to_set());
    lemma_sorted_unique(c, sorted);
}

/// `keys` in ascending order.
fn sort_keys(keys: Vec<u64>) -> (r: Vec<u64>)
    ensures
        keys_sorted(r@),
        r@.to_multiset() == keys@.to_multiset(),
{
    let mut sorted: Vec<u64> = Vec::new();
    let n = keys.len();
    proof {
        assert(keys@.take(0) =~= Seq::<u64>::empty());
    }
    for i in 0..n
        invariant
            n == keys@.len(),
            keys_sorted(sorted@),
            sorted@.to_multiset() == keys@.take(i as int).to_multiset(),
    {
        let k = keys[i];
        let len = sorted.len();
        let mut p: usize = 0;
        while p < len && sorted[p] <= k
            invariant
                len == sorted@.len(),
                0 <= p <= len,
                forall|q: int| 0 <= q < p ==> sorted@[q] <= k,
            decreases len - p,
        {
            p = p + 1;
        }
        let ghost before = sorted@;
        sorted.insert(p, k);
        proof {
            vstd::seq_lib::to_multiset_insert(before, p as int, k);
            assert(keys@.take(i + 1) =~= keys@.take(i as int).push(k));
            vstd::seq_lib::to_multiset_build(keys@.take(i as int), k);
            assert forall|a: int, b: int| 0 <= a <= b < sorted@.len() implies sorted@[a] <= sorted@[b] by {
                if p < len {
                    assert(before[p as int] > k);
                }
                if a < p && b > p {
                    assert(before[a] <= before[b - 1]);
                }
            }
        }
    }
    proof {
        assert(keys@.take(n as int) =~= keys@);
    }
    sorted
}

/// The eight bytes of `value`, least significant first.
pub open spec fn key_bytes(value: u64) -> Seq<u8> {
    Seq::new(8, |i: int| (value >> ((8 * i) as u64)) as u8)
}

/// What a default hasher has been fed after hashing `keys` one after the
/// other: one write of eight bytes per key.
pub open spec fn key_writes(keys: Seq<u64>) -> Seq<Seq<u8>> {
    keys.map_values(|k: u64| key_bytes(k))
}

/// The id of the archetype with the (sorted) component kinds `keys`: the
/// default hasher's digest of their bytes.
pub open spec fn archetype_hash(keys: Seq<u64>) -> u64 {
    DefaultHasher::spec_finish(key_writes(keys))
}

/// Feeds the eight bytes of `value`, least significant first, to `hasher`.
fn write_key(hasher: &mut DefaultHasher, value: u64)
    ensures
        final(hasher)@ == old(hasher)@.push(key_bytes(value)),
{
    let mut bytes: Vec<u8> = Vec::new();
    let mut i: u64 = 0;
    while i < 8
        invariant
            i <= 8,
            bytes@.len() == i,
            forall|j: int| 0 <= j < i ==> bytes@[j] == (value >> ((8 * j) as u64)) as u8,
        decreases 8 - i,
    {
        bytes.push((value >> (8 * i)) as u8);
        i = i + 1;
    }
    proof {
        assert(bytes@ =~= key_bytes(value));
    }
    hasher.write(bytes.as_slice());
}

/// A set of component kinds; the entities with exactly these kinds are
/// grouped under it.
#[derive(Debug)]
pub struct Archetype {
    pub id: ArchetypeId,
    pub component_types: Vec<u64>,
    pub entity_indices: Vec<u32>,
}

impl Archetype {
    /// An archetype for the given component kinds: they are kept in ascending
    /// order, the id is the default hasher's digest of their bytes
    /// (`archetype_hash`), and no entity is listed yet.
    pub fn new(component_types: Vec<u64>) -> (r: Self)
        ensures
            keys_sorted(r.component_types@),
            r.component_types@.to_multiset() == component_types@.to_multiset(),
            r.entity_indices@ == Seq::<u32>::empty(),
            r.id == ArchetypeId(archetype_hash(r.component_types@)),
    {
        let sorted_types = sort_keys(component_types);
        let hash = Self::compute_hash(&sorted_types);
        Archetype { id: ArchetypeId(hash), component_types: sorted_types, entity_indices: Vec::new() }
    }

    /// Hashes the keys, one after the other, with a fresh default hasher.
    fn compute_hash(types: &Vec<u64>) -> (r: u64)
        ensures
            r == archetype_hash(types@),
    {
        let mut hasher = DefaultHasher::new();
        let n = types.len();
        for i in 0..n
            invariant
                n == types@.len(),
                hasher@ == key_writes(types@.take(i as int)),
        {
            write_key(&mut hasher, types[i]);
            proof {
                assert(key_writes(types@.take(i + 1)) =~= key_writes(types@.take(i as int)).push(
                    key_bytes(types@[i as int]),
                ));
            }
        }
        proof {
            assert(types@.take(n as int) =~= types@);
        }
        hasher.finish()
    }

    /// Whether the archetype includes component kind `type_id`.
    pub fn has_component(&self, type_id: u64) -> (r: bool)
        ensures
            r == self.component_types@.contains(type_id),
    {
        let n = self.component_types.len();
        for i in 0..n
            invariant
                n == self.component_types@.len(),
                forall|k: int| 0 <= k < i ==> self.component_types@[k] != type_id,
        {
            if self.component_types[i] == type_id {
                return true;
            }
        }
        false
    }
}

/// Marker for component types.
pub trait Component: Clone + Send + Sync + Sized + 'static {}

impl<T: Clone + Send + Sync + 'static> Component for T {}

/// Whether an entry differs from `entity_index`.
pub open spec fn other_than(entity_index: usize) -> spec_fn(usize) -> bool {
    |i: usize| i != entity_index
}

/// `order` without `entity_index`.
pub open spec fn drop_index(order: Seq<usize>, entity_index: usize) -> Seq<usize> {
    order.filter(other_than(entity_index))
}

/// Dropping an index that no entry holds keeps the sequence as it is.
proof fn lemma_drop_absent_index(order: Seq<usize>, entity_index: usize)
    requires
        forall|i: int| 0 <= i < order.len() ==> order[i] != entity_index,
    ensures
        drop_index(order, entity_index) == order,
    decreases order.len(),
{
    reveal_with_fuel(Seq::<_>::filter, 1);
    if order.len() > 0 {
        lemma_drop_absent_index(order.drop_last(), entity_index);
        assert(order.drop_last().push(order.last()) =~= order);
    }
}

/// Removing a component keeps the others in the order they got theirs: the
/// new order is the old one with the removed index taken out of its place,
/// and it is unchanged when the index was not listed.
pub proof fn law_remove_keeps_order(order: Seq<usize>, entity_index: usize)
    requires
        order.no_duplicates(),
    ensures
        !order.contains(entity_index) ==> drop_index(order, entity_index) == order,
        forall|p: int|
            0 <= p < order.len() && order[p] == entity_index ==> drop_index(order, entity_index)
                == order.take(p) + order.skip(p + 1),
{
    if !order.contains(entity_index) {
        assert forall|i: int| 0 <= i < order.len() implies order[i] != entity_index by {
            if order[i] == entity_index {
                assert(order.contains(entity_index));
            }
        }
        lemma_drop_absent_index(order, entity_index);
    }
    assert forall|p: int|
        0 <= p < order.len() && order[p] == entity_index implies drop_index(order, entity_index)
            == order.take(p) + order.skip(p + 1) by {
        let pred = other_than(entity_index);
        let a = order.take(p);
        let mid = seq![order[p]];
        let b = order.skip(p + 1);
        assert(order =~= a + (mid + b));
        Seq::filter_distributes_over_add(a, mid + b, pred);
        Seq::filter_distributes_over_add(mid, b, pred);
        assert forall|i: int| 0 <= i < a.len() implies a[i] != entity_index by {
            assert(a[i] == order[i]);
        }
        assert forall|i: int| 0 <= i < b.len() implies b[i] != entity_index by {
            assert(b[i] == order[p + 1 + i]);
        }
        lemma_drop_absent_index(a, entity_index);
        lemma_drop_absent_index(b, entity_index);
        reveal_with_fuel(Seq::<_>::filter, 2);
        assert(mid.drop_last() =~= Seq::<usize>::empty());
        assert(mid.filter(pred) =~= Seq::<usize>::empty());
        assert(drop_index(order, entity_index) == order.filter(pred));
        assert(drop_index(a, entity_index) == a.filter(pred));
        assert(drop_index(b, entity_index) == b.filter(pred));
        assert(drop_index(order, entity_index) =~= a + b);
    }
}

/// Type-independent operations of a component storage.
pub trait ComponentStorage {
    /// Removes the component of the entity at `entity_index`, if any.
    fn remove(&mut self, entity_index: usize);

    /// Whether the entity at `entity_index` has a component here.
    fn has(&self, entity_index: usize) -> bool;

    /// Number of stored components.
    fn len(&self) -> usize;
}

/// The components of one kind, indexed by entity index, plus the indices of
/// the entities that have one, in the order they got it.
pub struct ConcreteComponentStorage<T: Component> {
    data: Vec<Option<T>>,
    dense_indices: Vec<usize>,
}

impl<T: Component> ConcreteComponentStorage<T> {
    /// The component slot of every entity index up to the highest used.
    pub closed spec fn slots(&self) -> Seq<Option<T>> {
        self.data@
    }

    /// The indices of the entities holding a component, oldest first.
    pub closed spec fn order(&self) -> Seq<usize> {
        self.dense_indices@
    }

    /// `order` lists exactly the occupied slots, each once.
    pub open spec fn wf(&self) -> bool {
        &&& forall|k: int|
            0 <= k < self.order().len() ==> {
                &&& #[trigger] self.order()[k] < self.slots().len()
                &&& self.slots()[self.order()[k] as int] is Some
            }
        &&& forall|k: int, l: int|
            0 <= k < l < self.order().len() ==> #[trigger] self.order()[k]
                != #[trigger] self.order()[l]
        &&& forall|i: usize|
            i < self.slots().len() && #[trigger] self.slots()[i as int] is Some ==> self.order().contains(i)
    }

    /// The component of the entity at `entity_index`, if it has one.
    pub open spec fn component(&self, entity_index: usize) -> Option<T> {
        if entity_index < self.slots().len() {
            self.slots()[entity_index as int]
        } else {
            None
        }
    }

    /// An empty storage.
    pub fn new() -> (r: Self)
        ensures
            r.wf(),
            r.slots() == Seq::<Option<T>>::empty(),
            r.order() == Seq::<usize>::empty(),
    {
        ConcreteComponentStorage { data: Vec::new(), dense_indices: Vec::new() }
    }

    /// Stores `component` for the entity at `entity_index`, replacing the one
    /// it had; the slot vector grows with empty slots up to that index. A
    /// first component of the entity is listed last in `order`.
    pub fn add(&mut self, entity_index: usize, component: T)
        requires
            old(self).wf(),
            entity_index < usize::MAX,
        ensures
            final(self).wf(),
            final(self).slots().len() == if entity_index < old(self).slots().len() {
                old(self).slots().len() as int
            } else {
                entity_index + 1
            },
            final(self).component(entity_index) == Some(component),
            forall|i: usize|
                i != entity_index ==> #[trigger] final(self).component(i) == old(self).component(i),
            final(self).order() == if old(self).component(entity_index) is Some {
                old(self).order()
            } else {
                old(self).order().push(entity_index)
            },
    {
        let ghost old_data = self.data@;
        while self.data.len() <= entity_index
            invariant
                self.wf(),
                self.dense_indices@ == old(self).dense_indices@,
                old_data == old(self).data@,
                self.data@.len() <= (if entity_index < old_data.len() { old_data.len() as int } else { entity_index + 1 }),
                self.data@.len() >= old_data.len(),
                forall|i: int| 0 <= i < old_data.len() ==> self.data@[i] == old_data[i],
                forall|i: int| old_data.len() <= i < self.data@.len() ==> self.data@[i] is None,
            decreases entity_index + 1 - self.data@.len(),
        {
            self.data.push(None);
        }
        let was_empty = self.data[entity_index].is_none();
        let ghost before = self.dense_indices@;
        if was_empty {
            proof {
                assert(!before.contains(entity_index));
            }
            self.dense_indices.push(entity_index);
        }
        self.data.set(entity_index, Some(component));
        proof {
            if was_empty {
                assert forall|k: int, l: int|
                    0 <= k < l < self.dense_indices@.len() implies #[trigger] self.dense_indices@[k]
                        != #[trigger] self.dense_indices@[l] by {
                    if l == before.len() {
                        assert(before.contains(before[k]));
                    }
                }
            }
            assert forall|i: usize|
                i < self.data@.len() && #[trigger] self.data@[i as int] is Some implies self.dense_indices@.contains(i) by {
                if i == entity_index {
                    if was_empty {
                        assert(self.dense_indices@[before.len() as int] == i);
                    } else {
                        assert(before.contains(i));
                        let k = choose|k: int| 0 <= k < before.len() && before[k] == i;
                        assert(self.dense_indices@[k] == i);
                    }
                } else {
                    assert(before.contains(i));
                    let k = choose|k: int| 0 <= k < before.len() && before[k] == i;
                    assert(self.dense_indices@[k] == i);
                }
            }
        }
    }

    /// The component of the entity at `entity_index`.
    pub fn get(&self, entity_index: usize) -> (r: Option<&T>)
        ensures
            r is Some <==> self.component(entity_index) is Some,
            r is Some ==> Some(*r.unwrap()) == self.component(entity_index),
    {
        if entity_index < self.data.len() {
            self.data[entity_index].as_ref()
        } else {
            None
        }
    }

    /// The component of the entity at `entity_index`, for changing it in
    /// place.
    pub fn get_mut(&mut self, entity_index: usize) -> (r: Option<&mut T>)
        requires
            old(self).wf(),
        ensures
            r is Some <==> old(self).component(entity_index) is Some,
            r is Some ==> {
                &&& Some(*r.unwrap()) == old(self).component(entity_index)
                &&& final(self).slots() == old(self).slots().update(entity_index as int, Some(*final(r.unwrap())))
                &&& final(self).order() == old(self).order()
                &&& final(self).wf()
            },
            r is None ==> *final(self) == *old(self),
    {
        if entity_index < self.data.len() && self.data[entity_index].is_some() {
            self.data[entity_index].as_mut()
        } else {
            None
        }
    }

    /// The stored components with their entity indices, in `order`.
    pub fn iter(&self) -> (r: Vec<(usize, &T)>)
        requires
            self.wf(),
        ensures
            r@.len() == self.order().len(),
            forall|k: int|
                0 <= k < r@.len() ==> {
                    &&& (#[trigger] r@[k]).0 == self.order()[k]
                    &&& Some(*r@[k].1) == self.component(self.order()[k])
                },
    {
        let mut r: Vec<(usize, &T)> = Vec::new();
        let n = self.dense_indices.len();
        for k in 0..n
            invariant
                n == self.dense_indices@.len(),
                self.wf(),
                r@.len() == k,
                forall|j: int|
                    0 <= j < k ==> {
                        &&& (#[trigger] r@[j]).0 == self.dense_indices@[j]
                        &&& Some(*r@[j].1) == self.component(self.dense_indices@[j])
                    },
        {
            let idx = self.dense_indices[k];
            if let Some(c) = self.data[idx].as_ref() {
                r.push((idx, c));
            }
        }
        r
    }
}


/// `order` without `entity_index`; if `order` has no duplicates, neither has
/// the result.
fn without_index(order: &Vec<usize>, entity_index: usize) -> (kept: Vec<usize>)
    ensures
        kept@ == drop_index(order@, entity_index),
        forall|j: int| 0 <= j < kept@.len() ==> #[trigger] kept@[j] != entity_index,
        forall|j: int| 0 <= j < kept@.len() ==> order@.contains(#[trigger] kept@[j]),
        forall|p: int| 0 <= p < order@.len() && order@[p] != entity_index ==> kept@.contains(#[trigger] order@[p]),
        (forall|a: int, b: int| 0 <= a < b < order@.len() ==> #[trigger] order@[a] != #[trigger] order@[b])
            ==> forall|a: int, b: int| 0 <= a < b < kept@.len() ==> #[trigger] kept@[a] != #[trigger] kept@[b],
{
    let ghost unique = forall|a: int, b: int|
        0 <= a < b < order@.len() ==> #[trigger] order@[a] != #[trigger] order@[b];
    let mut kept: Vec<usize> = Vec::new();
    let ghost mut src: Seq<int> = Seq::empty();
    let n = order.len();
    proof {
        reveal_with_fuel(Seq::<_>::filter, 1);
        assert(order@.take(0) =~= Seq::<usize>::empty());
    }
    for k in 0..n
        invariant
            n == order@.len(),
            kept@ == drop_index(order@.take(k as int), entity_index),
            unique == (forall|a: int, b: int|
                0 <= a < b < order@.len() ==> #[trigger] order@[a] != #[trigger] order@[b]),
            src.len() == kept@.len(),
            forall|j: int| 0 <= j < kept@.len() ==> #[trigger] kept@[j] != entity_index,
            forall|j: int| 0 <= j < src.len() ==> 0 <= #[trigger] src[j] < k && order@[src[j]] == kept@[j],
            forall|a: int, b: int| 0 <= a < b < src.len() ==> #[trigger] src[a] < #[trigger] src[b],
            forall|p: int| 0 <= p < k && order@[p] != entity_index ==> kept@.contains(#[trigger] order@[p]),
    {
        proof {
            reveal_with_fuel(Seq::<_>::filter, 1);
            assert(order@.take(k + 1).drop_last() =~= order@.take(k as int));
        }
        let idx = order[k];
        let ghost before = kept@;
        if idx != entity_index {
            kept.push(idx);
            proof {
                src = src.push(k as int);
                assert forall|p: int| 0 <= p < k + 1 && order@[p] != entity_index implies kept@.contains(
                    #[trigger] order@[p],
                ) by {
                    if p < k {
                        assert(before.contains(order@[p]));
                        let j = choose|j: int| 0 <= j < before.len() && before[j] == order@[p];
                        assert(kept@[j] == order@[p]);
                    } else {
                        assert(kept@[before.len() as int] == order@[p]);
                    }
                }
            }
        }
    }
    proof {
        assert(order@.take(n as int) =~= order@);
        assert forall|j: int| 0 <= j < kept@.len() implies order@.contains(#[trigger] kept@[j]) by {
            assert(order@[src[j]] == kept@[j]);
        }
        if unique {
            assert forall|a: int, b: int| 0 <= a < b < kept@.len() implies #[trigger] kept@[a] != #[trigger] kept@[b] by {
                assert(src[a] < src[b]);
                assert(order@[src[a]] != order@[src[b]]);
            }
        }
    }
    kept
}

impl<T: Component> ComponentStorage for ConcreteComponentStorage<T> {
    /// Removes the component of the entity at `entity_index`, if any, and
    /// drops the index from `order`.
    fn remove(&mut self, entity_index: usize)
        ensures
            old(self).wf() ==> final(self).wf(),
            entity_index < old(self).slots().len() ==> {
                &&& final(self).slots() == old(self).slots().update(entity_index as int, None)
                &&& final(self).order() == drop_index(old(self).order(), entity_index)
            },
            entity_index >= old(self).slots().len() ==> *final(self) == *old(self),
    {
        if entity_index < self.data.len() {
            self.data.set(entity_index, None);
            let ghost old_order = self.dense_indices@;
            let kept = without_index(&self.dense_indices, entity_index);
            self.dense_indices = kept;
            proof {
                if old(self).wf() {
                    assert forall|j: int| 0 <= j < self.dense_indices@.len() implies {
                        &&& #[trigger] self.dense_indices@[j] < self.data@.len()
                        &&& self.data@[self.dense_indices@[j] as int] is Some
                    } by {
                        assert(old_order.contains(self.dense_indices@[j]));
                        let p = choose|p: int| 0 <= p < old_order.len() && old_order[p] == self.dense_indices@[j];
                        assert(old(self).data@[old_order[p] as int] is Some);
                    }
                    assert forall|i: usize|
                        i < self.data@.len() && #[trigger] self.data@[i as int] is Some implies self.dense_indices@.contains(i) by {
                        assert(old(self).data@[i as int] is Some);
                        assert(old_order.contains(i));
                        let p = choose|p: int| 0 <= p < old_order.len() && old_order[p] == i;
                        assert(old_order[p] != entity_index);
                    }
                }
            }
        }
    }

    /// Whether the entity at `entity_index` has a component here.
    fn has(&self, entity_index: usize) -> (r: bool)
        ensures
            r == (self.component(entity_index) is Some),
    {
        if entity_index < self.data.len() {
            self.data[entity_index].is_some()
        } else {
            false
        }
    }

    /// Number of stored components.
    fn len(&self) -> (r: usize)
        ensures
            r == self.order().len(),
    {
        self.dense_indices.len()
    }
}

/// What the entity table knows of one entity slot.
pub struct RecordModel {
    pub entity: Entity,
    pub archetype_id: u64,
    pub archetype_index: usize,
    pub components: Map<u64, usize>,
    pub is_alive: bool,
}

/// The state of the entity table: one record per entity index, the handles
/// freed for reuse (the last one is reused first), and the id counter.
pub struct EcsModel {
    pub records: Seq<RecordModel>,
    pub free: Seq<Entity>,
    pub counter: u64,
}

/// Number of live records.
pub open spec fn alive_count(records: Seq<RecordModel>) -> nat
    decreases records.len(),
{
    if records.len() == 0 {
        0
    } else {
        alive_count(records.drop_last()) + (if records.last().is_alive { 1nat } else { 0nat })
    }
}

/// The record of a newly created entity.
pub open spec fn fresh_record(entity: Entity) -> RecordModel {
    RecordModel {
        entity,
        archetype_id: 0,
        archetype_index: 0,
        components: Map::empty(),
        is_alive: true,
    }
}

/// `records` with `rec` placed at `index`; when the table is too short it is
/// filled up to `index` with copies of `rec` (as `Vec::resize` does).
pub open spec fn place_record(records: Seq<RecordModel>, index: int, rec: RecordModel) -> Seq<RecordModel> {
    if index < records.len() {
        records.update(index, rec)
    } else {
        records + Seq::new((index + 1 - records.len()) as nat, |i: int| rec)
    }
}

impl EcsModel {
    /// Whether `entity` names a live entity (generations are not compared).
    pub open spec fn is_alive(self, entity: Entity) -> bool {
        &&& entity.id != u32::MAX
        &&& entity.id < self.records.len()
        &&& self.records[entity.id as int].is_alive
    }

    /// `new` is `self` after `create_entity` returned `r`: a freed handle is
    /// reused with the next generation, its record revived; otherwise the
    /// counter hands out a new id whose record is placed in the table.
    pub open spec fn create_step(self, new: Self, r: Entity) -> bool {
        if self.free.len() > 0 {
            let e = self.free.last();
            &&& r == Entity { id: e.id, generation: e.generation.wrapping_add(1) }
            &&& new.free == self.free.drop_last()
            &&& new.counter == self.counter
            &&& new.records == if e.id < self.records.len() {
                self.records.update(
                    e.id as int,
                    RecordModel {
                        entity: r,
                        archetype_index: 0,
                        is_alive: true,
                        ..self.records[e.id as int]
                    },
                )
            } else {
                self.records
            }
        } else {
            &&& r == Entity { id: self.counter as u32, generation: 0 }
            &&& new.free == self.free
            &&& new.counter == self.counter.wrapping_add(1)
            &&& new.records == place_record(self.records, r.id as int, fresh_record(r))
        }
    }

    /// `new` is `self` after `destroy_entity(entity)`: a non-null handle has
    /// the record at its index emptied and marked dead, and goes onto the
    /// free list; the null handle changes nothing.
    pub open spec fn destroy_step(self, new: Self, entity: Entity) -> bool {
        if entity.id == u32::MAX {
            new == self
        } else {
            &&& new.free == self.free.push(entity)
            &&& new.counter == self.counter
            &&& new.records == if entity.id < self.records.len() {
                self.records.update(
                    entity.id as int,
                    RecordModel {
                        components: Map::empty(),
                        is_alive: false,
                        archetype_index: usize::MAX,
                        ..self.records[entity.id as int]
                    },
                )
            } else {
                self.records
            }
        }
    }
}

/// Counting live records after one record changes.
pub proof fn lemma_alive_count_update(s: Seq<RecordModel>, i: int, v: RecordModel)
    requires
        0 <= i < s.len(),
    ensures
        alive_count(s.update(i, v)) + (if s[i].is_alive { 1int } else { 0int })
            == alive_count(s) + (if v.is_alive { 1int } else { 0int }),
    decreases s.len(),
{
    let t = s.update(i, v);
    if i == s.len() - 1 {
        assert(t.drop_last() =~= s.drop_last());
    } else {
        lemma_alive_count_update(s.drop_last(), i, v);
        assert(t.drop_last() =~= s.drop_last().update(i, v));
    }
}

/// A destroyed entity is no longer alive, and the number of live entities
/// drops by one if it was.
pub proof fn law_destroyed_entity_is_dead(m: EcsModel, d: EcsModel, e: Entity)
    requires
        m.destroy_step(d, e),
        e.id != u32::MAX,
    ensures
        !d.is_alive(e),
        m.is_alive(e) ==> alive_count(d.records) + 1 == alive_count(m.records),
{
    if e.id < m.records.len() {
        lemma_alive_count_update(
            m.records,
            e.id as int,
            RecordModel {
                components: Map::empty(),
                is_alive: false,
                archetype_index: usize::MAX,
                ..m.records[e.id as int]
            },
        );
    }
}

/// Destroying an entity and creating one reuses its id under a different
/// generation, so the old and the new handle differ; the new entity is alive
/// when the id had a record.
pub proof fn law_create_after_destroy_reuses_id(m: EcsModel, d: EcsModel, c: EcsModel, e: Entity, r: Entity)
    requires
        m.destroy_step(d, e),
        d.create_step(c, r),
        e.id != u32::MAX,
    ensures
        r.id == e.id,
        r.generation != e.generation,
        r != e,
        e.id < m.records.len() ==> c.is_alive(r),
{
    assert(d.free.last() == e);
    let g = e.generation;
    assert(g.wrapping_add(1) != g) by (bit_vector);
}

/// A newly created entity is alive, unless the counter has reached the id of
/// the null handle; a fresh one starts at generation 0.
pub proof fn law_created_entity_is_alive(m: EcsModel, c: EcsModel, r: Entity)
    requires
        m.create_step(c, r),
    ensures
        m.free.len() == 0 ==> r.generation == 0,
        m.free.len() == 0 && r.id != u32::MAX ==> c.is_alive(r) && c.records[r.id as int] == fresh_record(r),
        m.free.len() > 0 && m.free.last().id != u32::MAX && m.free.last().id < m.records.len() ==> c.is_alive(r),
{
}

/// The record of one entity slot.
#[derive(Debug)]
pub struct EntityRecord {
    pub entity: Entity,
    pub archetype_id: ArchetypeId,
    pub archetype_index: usize,
    /// The component kinds the entity holds, each with the entity's index.
    pub components: HashMap<u64, usize>,
    pub is_alive: bool,
}

impl View for EntityRecord {
    type V = RecordModel;

    open spec fn view(&self) -> RecordModel {
        RecordModel {
            entity: self.entity,
            archetype_id: self.archetype_id.0,
            archetype_index: self.archetype_index,
            components: self.components@,
            is_alive: self.is_alive,
        }
    }
}

impl EntityRecord {
    /// The record of a newly created entity.
    fn fresh(entity: Entity) -> (r: Self)
        ensures
            r@ == fresh_record(entity),
    {
        let r = EntityRecord {
            entity,
            archetype_id: ArchetypeId(0),
            archetype_index: 0,
            components: HashMap::new(),
            is_alive: true,
        };
        proof {
            assert(r@.components =~= Map::<u64, usize>::empty());
        }
        r
    }
}

/// The keys of `components`, each once, in the map's order.
fn keys_of(components: &HashMap<u64, usize>) -> (r: Vec<u64>)
    ensures
        r@.no_duplicates(),
        r@.to_set() == components@.dom(),
{
    let mut r: Vec<u64> = Vec::new();
    let ghost seq = vstd::std_specs::hash::spec_keys_iter(components).remaining();
    for k in it: components.keys()
        invariant
            it.seq() == seq,
            seq.no_duplicates(),
            seq.unref().to_set() == components@.dom(),
            r@ == seq.take(it.index() as int).unref(),
    {
        proof {
            assert(seq.take(it.index() + 1).unref() =~= seq.take(it.index() as int).unref().push(*seq[it.index() as int]));
        }
        r.push(*k);
    }
    proof {
        assert(seq.take(seq.len() as int) =~= seq);
        assert forall|a: int, b: int| 0 <= a < r@.len() && 0 <= b < r@.len() && a != b implies r@[a] != r@[b] by {
            assert(r@[a] == *seq[a] && r@[b] == *seq[b]);
        }
    }
    r
}

/// The entity table of the entity-component system: records of all entity
/// slots, the freed handles, the archetypes seen so far, and the id counter.
pub struct EcsManager {
    entities: Vec<EntityRecord>,
    free_entities: Vec<Entity>,
    archetypes: HashMap<u64, Archetype>,
    id_counter: u64,
}

impl View for EcsManager {
    type V = EcsModel;

    closed spec fn view(&self) -> EcsModel {
        EcsModel {
            records: self.entities@.map_values(|r: EntityRecord| r@),
            free: self.free_entities@,
            counter: self.id_counter,
        }
    }
}

impl EcsManager {
    /// The ids of the archetypes seen so far.
    pub closed spec fn archetype_ids(&self) -> Set<u64> {
        self.archetypes@.dom()
    }

    /// An empty table whose first entity gets id 0.
    pub fn new() -> (r: Self)
        ensures
            r@.records == Seq::<RecordModel>::empty(),
            r@.free == Seq::<Entity>::empty(),
            r@.counter == 0,
            r.archetype_ids() == Set::<u64>::empty(),
    {
        let r = EcsManager {
            entities: Vec::new(),
            free_entities: Vec::new(),
            archetypes: HashMap::new(),
            id_counter: 0,
        };
        proof {
            assert(r@.records =~= Seq::<RecordModel>::empty());
            assert(r.archetype_ids() =~= Set::<u64>::empty());
        }
        r
    }

    /// Creates an entity: the most recently freed handle is reused with the
    /// next generation; otherwise a new id is taken from the counter.
    pub fn create_entity(&mut self) -> (r: Entity)
        ensures
            old(self)@.create_step(final(self)@, r),
            final(self).archetype_ids() == old(self).archetype_ids(),
    {
        if let Some(entity) = self.free_entities.pop() {
            let reused = Entity { id: entity.id, generation: entity.generation.wrapping_add(1) };
            let index = entity.index();
            if index < self.entities.len() {
                let ghost before = self.entities@;
                self.entities[index].is_alive = true;
                self.entities[index].entity = reused;
                self.entities[index].archetype_index = 0;
                proof {
                    assert(self.entities@.map_values(|r: EntityRecord| r@) =~= before.map_values(|r: EntityRecord| r@).update(
                        index as int,
                        RecordModel { entity: reused, archetype_index: 0, is_alive: true, ..before[index as int]@ },
                    ));
                }
            }
            return reused;
        }
        let mut counter = self.id_counter;
        let id = generate_entity_id(&mut counter);
        self.id_counter = counter;
        let entity = Entity::new(id);
        let record = EntityRecord::fresh(entity);
        let index = entity.index();
        let ghost before = self.entities@.map_values(|r: EntityRecord| r@);
        let ghost arch = self.archetypes@;
        let ghost free = self.free_entities@;
        if index >= self.entities.len() {
            while self.entities.len() < index
                invariant
                    self.archetypes@ == arch,
                    self.free_entities@ == free,
                    self.id_counter == counter,
                    index >= before.len(),
                    self.entities@.len() <= index,
                    self.entities@.len() >= before.len(),
                    record@ == fresh_record(entity),
                    forall|i: int| 0 <= i < before.len() ==> self.entities@[i]@ == before[i],
                    forall|i: int| before.len() <= i < self.entities@.len() ==> self.entities@[i]@ == record@,
                decreases index - self.entities@.len(),
            {
                self.entities.push(EntityRecord::fresh(entity));
            }
            self.entities.push(record);
        } else {
            self.entities.set(index, record);
        }
        proof {
            assert(self.entities@.map_values(|r: EntityRecord| r@) =~= place_record(before, index as int, fresh_record(entity)));
        }
        entity
    }

    /// Destroys an entity: its record is emptied and marked dead, and the
    /// handle goes onto the free list. The null handle is ignored.
    pub fn destroy_entity(&mut self, entity: Entity)
        ensures
            old(self)@.destroy_step(final(self)@, entity),
            final(self).archetype_ids() == old(self).archetype_ids(),
    {
        if entity.is_null() {
            return;
        }
        let index = entity.index();
        if index < self.entities.len() {
            let ghost before = self.entities@;
            self.entities[index].components = HashMap::new();
            self.entities[index].is_alive = false;
            self.entities[index].archetype_index = usize::MAX;
            proof {
                assert(self.entities@.map_values(|r: EntityRecord| r@) =~= before.map_values(|r: EntityRecord| r@).update(
                    index as int,
                    RecordModel {
                        components: Map::empty(),
                        is_alive: false,
                        archetype_index: usize::MAX,
                        ..before[index as int]@
                    },
                ));
            }
        }
        self.free_entities.push(entity);
    }

    /// Whether `entity` names a live entity. Only the index is looked at: a
    /// stale handle to a reused slot counts as alive.
    pub fn is_alive(&self, entity: Entity) -> (r: bool)
        ensures
            r == self@.is_alive(entity),
    {
        if entity.is_null() || entity.index() >= self.entities.len() {
            return false;
        }
        self.entities[entity.index()].is_alive
    }

    /// The handle of the live entity at table index `index`, if any; the
    /// handle carries the generation recorded for it.
    pub fn entity_at(&self, index: usize) -> (r: Option<Entity>)
        ensures
            r == (if index < self@.records.len() && self@.records[index as int].is_alive {
                Some(self@.records[index as int].entity)
            } else {
                None
            }),
    {
        if index < self.entities.len() && self.entities[index].is_alive {
            Some(self.entities[index].entity)
        } else {
            None
        }
    }

    /// Number of live entities.
    pub fn entity_count(&self) -> (r: usize)
        ensures
            r == alive_count(self@.records),
    {
        let ghost recs = self@.records;
        let n = self.entities.len();
        let mut count: usize = 0;
        for i in 0..n
            invariant
                n == self.entities@.len(),
                recs == self.entities@.map_values(|r: EntityRecord| r@),
                count == alive_count(recs.take(i as int)),
                count <= i,
        {
            proof {
                assert(recs.take(i + 1).drop_last() =~= recs.take(i as int));
            }
            if self.entities[i].is_alive {
                count = count + 1;
            }
        }
        proof {
            assert(recs.take(n as int) =~= recs);
        }
        count
    }

    /// Recomputes the archetype of the record at `index` from its component
    /// kinds: none gives archetype 0; otherwise the archetype of those kinds,
    /// registered if its id is new.
    fn update_archetype_for_entity(&mut self, index: usize)
        requires
            index < old(self).entities@.len(),
        ensures
            final(self)@.free == old(self)@.free,
            final(self)@.counter == old(self)@.counter,
            final(self)@.records == old(self)@.records.update(
                index as int,
                RecordModel {
                    archetype_id: final(self)@.records[index as int].archetype_id,
                    ..old(self)@.records[index as int]
                },
            ),
            old(self)@.records[index as int].components.dom().len() == 0 ==> {
                &&& final(self)@.records[index as int].archetype_id == 0
                &&& final(self).archetype_ids() == old(self).archetype_ids()
            },
            old(self)@.records[index as int].components.dom().len() > 0 ==> final(self).archetype_ids() == old(self).archetype_ids().insert(final(self)@.records[index as int].archetype_id),
            final(self)@.records[index as int].archetype_id == kinds_archetype(
                old(self)@.records[index as int].components.dom(),
            ),
    {
        let keys = keys_of(&self.entities[index].components);
        proof {
            keys@.unique_seq_to_set();
        }
        let archetype_id = if keys.len() == 0 {
            ArchetypeId(0)
        } else {
            let ghost key_seq = keys@;
            let archetype = Archetype::new(keys);
            let id = archetype.id;
            proof {
                lemma_sorted_copy_archetype(key_seq, archetype.component_types@);
            }
            self.archetypes.entry(id.0).or_insert(archetype);
            proof {
                assert(self.archetype_ids() =~= old(self).archetype_ids().insert(id.0));
            }
            id
        };
        let ghost before = self.entities@;
        self.entities[index].archetype_id = archetype_id;
        proof {
            assert(self.entities@.map_values(|r: EntityRecord| r@) =~= before.map_values(|r: EntityRecord| r@).update(
                index as int,
                RecordModel { archetype_id: archetype_id.0, ..before[index as int]@ },
            ));
        }
    }

    /// Records that `entity` holds a component of kind `key` (the
    /// bookkeeping half of adding a component) and recomputes its archetype.
    /// Nothing happens, and `false` is returned, for the null handle or an
    /// index beyond the table. Liveness is not checked.
    pub fn attach_component(&mut self, entity: Entity, key: u64) -> (r: bool)
        ensures
            r == (entity.id != u32::MAX && entity.id < old(self)@.records.len()),
            !r ==> final(self)@ == old(self)@ && final(self).archetype_ids() == old(self).archetype_ids(),
            r ==> {
                let i = entity.id as int;
                let comps = old(self)@.records[i].components.insert(key, i as usize);
                let aid = final(self)@.records[i].archetype_id;
                &&& final(self)@.free == old(self)@.free
                &&& final(self)@.counter == old(self)@.counter
                &&& final(self)@.records == old(self)@.records.update(
                    i,
                    RecordModel { components: comps, archetype_id: aid, ..old(self)@.records[i] },
                )
                &&& final(self).archetype_ids() == old(self).archetype_ids().insert(aid)
                &&& aid == kinds_archetype(comps.dom())
            },
    {
        if entity.is_null() || entity.index() >= self.entities.len() {
            return false;
        }
        let index = entity.index();
        let ghost before = self.entities@;
        self.entities[index].components.insert(key, index);
        proof {
            assert(self.entities@.map_values(|r: EntityRecord| r@) =~= before.map_values(|r: EntityRecord| r@).update(
                index as int,
                RecordModel { components: before[index as int].components@.insert(key, index), ..before[index as int]@ },
            ));
        }
        self.update_archetype_for_entity(index);
        true
    }

    /// Records that `entity` no longer holds a component of kind `key` (the
    /// bookkeeping half of removing a component) and recomputes its
    /// archetype. Nothing happens, and `false` is returned, for the null
    /// handle or an index beyond the table.
    pub fn detach_component(&mut self, entity: Entity, key: u64) -> (r: bool)
        ensures
            r == (entity.id != u32::MAX && entity.id < old(self)@.records.len()),
            !r ==> final(self)@ == old(self)@ && final(self).archetype_ids() == old(self).archetype_ids(),
            r ==> {
                let i = entity.id as int;
                let comps = old(self)@.records[i].components.remove(key);
                let aid = final(self)@.records[i].archetype_id;
                &&& final(self)@.free == old(self)@.free
                &&& final(self)@.counter == old(self)@.counter
                &&& final(self)@.records == old(self)@.records.update(
                    i,
                    RecordModel { components: comps, archetype_id: aid, ..old(self)@.records[i] },
                )
                &&& comps.dom().len() == 0 ==> aid == 0 && final(self).archetype_ids() == old(self).archetype_ids()
                &&& comps.dom().len() > 0 ==> final(self).archetype_ids() == old(self).archetype_ids().insert(aid)
                &&& aid == kinds_archetype(comps.dom())
            },
    {
        if entity.is_null() || entity.index() >= self.entities.len() {
            return false;
        }
        let index = entity.index();
        let ghost before = self.entities@;
        self.entities[index].components.remove(&key);
        proof {
            assert(self.entities@.map_values(|r: EntityRecord| r@) =~= before.map_values(|r: EntityRecord| r@).update(
                index as int,
                RecordModel { components: before[index as int].components@.remove(key), ..before[index as int]@ },
            ));
        }
        self.update_archetype_for_entity(index);
        true
    }

    /// The component kinds that `entity` holds (empty for the null handle or
    /// an index beyond the table).
    pub fn component_keys(&self, entity: Entity) -> (r: Vec<u64>)
        ensures
            r@.no_duplicates(),
            r@.to_set() == if entity.id != u32::MAX && entity.id < self@.records.len() {
                self@.records[entity.id as int].components.dom()
            } else {
                Set::<u64>::empty()
            },
    {
        if entity.is_null() || entity.index() >= self.entities.len() {
            let r: Vec<u64> = Vec::new();
            proof {
                assert(r@.to_set() =~= Set::<u64>::empty());
            }
            return r;
        }
        keys_of(&self.entities[entity.index()].components)
    }

    /// Forgets all entities, freed handles and archetypes; the id counter
    /// keeps counting.
    pub fn clear(&mut self)
        ensures
            final(self)@.records == Seq::<RecordModel>::empty(),
            final(self)@.free == Seq::<Entity>::empty(),
            final(self)@.counter == old(self)@.counter,
            final(self).archetype_ids() == Set::<u64>::empty(),
    {
        self.entities.clear();
        self.free_entities.clear();
        self.archetypes.clear();
        proof {
            assert(self@.records =~= Seq::<RecordModel>::empty());
            assert(self.archetype_ids() =~= Set::<u64>::empty());
        }
    }
}

/// Entities with the same component kinds share an archetype: after
/// `attach_component` or `detach_component` a record's archetype id is
/// `kinds_archetype` of its kinds, so two such records with equal kinds have
/// equal archetype ids.
pub proof fn law_same_kinds_same_archetype(a: RecordModel, b: RecordModel)
    requires
        a.archetype_id == kinds_archetype(a.components.dom()),
        b.archetype_id == kinds_archetype(b.components.dom()),
        a.components.dom() == b.components.dom(),
    ensures
        a.archetype_id == b.archetype_id,
{
}

} // verus!
