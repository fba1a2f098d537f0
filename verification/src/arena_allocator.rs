//! A generational arena: a slot vector with a free list, where reusing a slot
//! bumps its generation so that stale handles can be told apart.

use vstd::prelude::*;

verus! {

/// Number of occupied slots in `s`.
pub open spec fn count_some<T>(s: Seq<Option<T>>) -> nat
    decreases s.len(),
{
    if s.len() == 0 {
        0
    } else {
        count_some(s.drop_last()) + (if s.last() is Some { 1nat } else { 0nat })
    }
}

/// Counting occupied slots after one slot changes.
pub proof fn lemma_count_some_update<T>(s: Seq<Option<T>>, i: int, v: Option<T>)
    requires
        0 <= i < s.len(),
    ensures
        count_some(s.update(i, v)) + (if s[i] is Some { 1int } else { 0int })
            == count_some(s) + (if v is Some { 1int } else { 0int }),
    decreases s.len(),
{
    let t = s.update(i, v);
    if i == s.len() - 1 {
        assert(t.drop_last() =~= s.drop_last());
    } else {
        lemma_count_some_update(s.drop_last(), i, v);
        assert(t.drop_last() =~= s.drop_last().update(i, v));
    }
}

/// Replacing the content of an occupied slot keeps the count.
pub proof fn lemma_count_some_refill<T>(s: Seq<Option<T>>, i: int)
    requires
        0 <= i < s.len(),
        s[i] is Some,
    ensures
        forall|v: T| #[trigger] count_some(s.update(i, Some(v))) == count_some(s),
{
    assert forall|v: T| #[trigger] count_some(s.update(i, Some(v))) == count_some(s) by {
        lemma_count_some_update(s, i, Some(v));
    }
}

/// Counting occupied slots after a push.
pub proof fn lemma_count_some_push<T>(s: Seq<Option<T>>, v: Option<T>)
    ensures
        count_some(s.push(v)) == count_some(s) + (if v is Some { 1nat } else { 0nat }),
{
    assert(s.push(v).drop_last() =~= s);
}

/// At most every slot is occupied; fewer if one is empty.
pub proof fn lemma_count_some_bound<T>(s: Seq<Option<T>>)
    ensures
        count_some(s) <= s.len(),
        (exists|i: int| 0 <= i < s.len() && s[i] is None) ==> count_some(s) < s.len(),
        (exists|i: int| 0 <= i < s.len() && s[i] is Some) ==> count_some(s) > 0,
    decreases s.len(),
{
    if s.len() > 0 {
        lemma_count_some_bound(s.drop_last());
        if exists|i: int| 0 <= i < s.len() && s[i] is None {
            let i = choose|i: int| 0 <= i < s.len() && s[i] is None;
            if i < s.len() - 1 {
                assert(s.drop_last()[i] is None);
            }
        }
        if exists|i: int| 0 <= i < s.len() && s[i] is Some {
            let i = choose|i: int| 0 <= i < s.len() && s[i] is Some;
            if i < s.len() - 1 {
                assert(s.drop_last()[i] is Some);
            }
        }
    }
}

/// `Vec::capacity`: the number of elements the vector can hold without
/// reallocating. The contract claims only what std documents for every vector,
/// that the capacity is at least the length; the exact value is left to the
/// allocator and not stated.
#[verifier::external_body]
fn vec_capacity<T>(v: &Vec<T>) -> (r: usize)
    ensures
        r >= v@.len(),
{
    v.capacity()
}

/// The abstract state of an arena: its slots, one generation per slot, and
/// the free list, whose last entry is the next slot to be reused.
pub struct ArenaModel<T> {
    pub slots: Seq<Option<T>>,
    pub gens: Seq<u64>,
    pub free: Seq<usize>,
}

impl<T> ArenaModel<T> {
    /// The empty arena.
    pub open spec fn empty() -> Self {
        ArenaModel { slots: Seq::empty(), gens: Seq::empty(), free: Seq::empty() }
    }

    /// One generation per slot; the free list holds exactly the empty slots,
    /// each once.
    pub open spec fn wf(self) -> bool {
        &&& self.slots.len() <= usize::MAX
        &&& self.gens.len() == self.slots.len()
        &&& forall|k: int|
            0 <= k < self.free.len() ==> {
                &&& #[trigger] self.free[k] < self.slots.len()
                &&& self.slots[self.free[k] as int] is None
            }
        &&& forall|k: int, l: int|
            0 <= k < l < self.free.len() ==> #[trigger] self.free[k] != #[trigger] self.free[l]
        &&& forall|i: usize|
            i < self.slots.len() && #[trigger] self.slots[i as int] is None ==> self.free.contains(i)
    }

    /// Number of allocated items.
    pub open spec fn count(self) -> nat {
        count_some(self.slots)
    }

    /// Whether `index` holds an item.
    pub open spec fn is_allocated(self, index: usize) -> bool {
        index < self.slots.len() && self.slots[index as int] is Some
    }

    /// Whether the handle `(index, generation)` names a live item.
    pub open spec fn handle_live(self, index: usize, generation: u64) -> bool {
        &&& self.is_allocated(index)
        &&& self.gens[index as int] == generation
    }

    /// The item a handle names, if it is live.
    pub open spec fn lookup(self, index: usize, generation: u64) -> Option<T> {
        if self.handle_live(index, generation) {
            self.slots[index as int]
        } else {
            None
        }
    }

    /// Whether one more allocation fits: a free slot exists, or the slot
    /// vector can still grow within the address space.
    pub open spec fn can_allocate(self) -> bool {
        self.free.len() > 0 || self.slots.len() < usize::MAX
    }

    /// The index that the next allocation takes.
    pub open spec fn next_index(self) -> usize {
        if self.free.len() > 0 {
            self.free.last()
        } else {
            self.slots.len() as usize
        }
    }

    /// The arena after allocating `item`: the most recently freed slot is
    /// reused with its generation bumped (wrapping), else a slot of generation
    /// 0 is appended.
    pub open spec fn allocate(self, item: T) -> Self {
        if self.free.len() > 0 {
            let i = self.free.last() as int;
            ArenaModel {
                slots: self.slots.update(i, Some(item)),
                gens: self.gens.update(i, self.gens[i].wrapping_add(1)),
                free: self.free.drop_last(),
            }
        } else {
            ArenaModel {
                slots: self.slots.push(Some(item)),
                gens: self.gens.push(0),
                free: self.free,
            }
        }
    }

    /// The arena after clearing it: every slot is empty and free, the
    /// generations stay as they were (so no handle issued before reaches an
    /// item placed afterwards), and the free list runs from the last slot
    /// down to slot 0, so that slot 0 is reused first.
    pub open spec fn clear(self) -> Self {
        ArenaModel {
            slots: Seq::new(self.slots.len(), |i: int| None),
            gens: self.gens,
            free: Seq::new(self.slots.len(), |k: int| (self.slots.len() - 1 - k) as usize),
        }
    }

    /// Whether the handle `(index, generation)` is kept from reaching an item:
    /// while its slot is free the slot keeps generation `generation`, and once
    /// the slot has been reused it has the next generation.
    pub open spec fn guards_stale(self, index: usize, generation: u64) -> bool {
        &&& self.wf()
        &&& index < self.slots.len()
        &&& self.free.contains(index) ==> self.gens[index as int] == generation
        &&& !self.free.contains(index) ==> self.gens[index as int] == generation.wrapping_add(1)
    }

    /// The arena after deallocating `index`; unchanged when the slot is out of
    /// range or already free.
    pub open spec fn deallocate(self, index: usize) -> Self {
        if self.is_allocated(index) {
            ArenaModel {
                slots: self.slots.update(index as int, None),
                gens: self.gens,
                free: self.free.push(index),
            }
        } else {
            self
        }
    }
}

/// A sequence of empty slots counts nothing.
proof fn lemma_count_some_none<T>(s: Seq<Option<T>>)
    requires
        forall|i: int| 0 <= i < s.len() ==> s[i] is None,
    ensures
        count_some(s) == 0,
    decreases s.len(),
{
    if s.len() > 0 {
        lemma_count_some_none(s.drop_last());
    }
}

/// Clearing keeps the arena well formed and leaves no item.
pub proof fn law_clear_empties<T>(m: ArenaModel<T>)
    requires
        m.wf(),
    ensures
        m.clear().wf(),
        m.clear().count() == 0,
        forall|i: usize| !#[trigger] m.clear().is_allocated(i),
        m.clear().gens == m.gens,
{
    let c = m.clear();
    let n = m.slots.len();
    lemma_count_some_none(c.slots);
    assert forall|k: int, l: int| 0 <= k < l < c.free.len() implies #[trigger] c.free[k] != #[trigger] c.free[l] by {}
    assert forall|i: usize| i < c.slots.len() && #[trigger] c.slots[i as int] is None implies c.free.contains(i) by {
        assert(c.free[n - 1 - i] == i);
    }
}

/// Use-after-free protection across `clear`: a handle that was live before
/// the arena was cleared is guarded afterwards.
pub proof fn law_clear_guards_live_handles<T>(m: ArenaModel<T>, index: usize, generation: u64)
    requires
        m.wf(),
        m.handle_live(index, generation),
    ensures
        m.clear().guards_stale(index, generation),
{
    law_clear_empties(m);
    let c = m.clear();
    assert(c.free[m.slots.len() - 1 - index] == index);
}

/// A guarded handle finds nothing.
pub proof fn law_guarded_handle_finds_nothing<T>(m: ArenaModel<T>, index: usize, generation: u64)
    requires
        m.guards_stale(index, generation),
    ensures
        m.lookup(index, generation) is None,
{
    if !m.free.contains(index) {
        assert(generation.wrapping_add(1) != generation) by (bit_vector);
    } else {
        let k = choose|k: int| 0 <= k < m.free.len() && m.free[k] == index;
        assert(m.slots[m.free[k] as int] is None);
    }
}

/// Allocating keeps a guarded handle guarded: the slot is reused at most once
/// before it is freed again, and its reuse gives it the next generation. So
/// after `clear`, any number of allocations leaves a handle from before the
/// clear finding nothing.
pub proof fn law_allocate_keeps_guard<T>(m: ArenaModel<T>, index: usize, generation: u64, item: T)
    requires
        m.guards_stale(index, generation),
        m.can_allocate(),
    ensures
        m.allocate(item).guards_stale(index, generation),
{
    law_allocate_keeps_wf(m, item);
    let n = m.allocate(item);
    if m.free.len() > 0 {
        let last = m.free.len() - 1;
        let j = m.free[last];
        if j == index {
            assert(!n.free.contains(index)) by {
                if n.free.contains(index) {
                    let k = choose|k: int| 0 <= k < n.free.len() && n.free[k] == index;
                    assert(m.free[k] == m.free[last]);
                }
            }
        } else {
            if m.free.contains(index) {
                let k = choose|k: int| 0 <= k < m.free.len() && m.free[k] == index;
                assert(k != last);
                assert(n.free[k] == index);
            } else {
                assert(!n.free.contains(index)) by {
                    if n.free.contains(index) {
                        let k = choose|k: int| 0 <= k < n.free.len() && n.free[k] == index;
                        assert(m.free[k] == index);
                    }
                }
            }
        }
    }
}

/// Allocating keeps the arena well formed.
pub proof fn law_allocate_keeps_wf<T>(m: ArenaModel<T>, item: T)
    requires
        m.wf(),
        m.can_allocate(),
    ensures
        m.allocate(item).wf(),
{
    let n = m.allocate(item);
    if m.free.len() > 0 {
        let index = m.free.last();
        assert(m.slots[index as int] is None);
        assert forall|i: usize| i < n.slots.len() && #[trigger] n.slots[i as int] is None implies n.free.contains(i) by {
            assert(i != index);
            assert(m.free.contains(i));
            let k = choose|k: int| 0 <= k < m.free.len() && m.free[k] == i;
            assert(k != m.free.len() - 1);
            assert(n.free[k] == i);
        }
    } else {
        assert forall|i: usize| i < n.slots.len() && #[trigger] n.slots[i as int] is None implies n.free.contains(i) by {
            assert(i < m.slots.len());
            assert(m.slots[i as int] is None);
        }
    }
}

/// Deallocating keeps the arena well formed.
pub proof fn law_deallocate_keeps_wf<T>(m: ArenaModel<T>, index: usize)
    requires
        m.wf(),
    ensures
        m.deallocate(index).wf(),
{
    if m.is_allocated(index) {
        let n = m.deallocate(index);
        assert(!m.free.contains(index));
        assert forall|k: int, l: int| 0 <= k < l < n.free.len() implies #[trigger] n.free[k] != #[trigger] n.free[l] by {
            if l == m.free.len() {
                assert(m.free[k] == n.free[k]);
                assert(m.free.contains(m.free[k]));
            }
        }
        assert forall|i: usize| i < n.slots.len() && #[trigger] n.slots[i as int] is None implies n.free.contains(i) by {
            if i == index {
                assert(n.free[m.free.len() as int] == index);
            } else {
                assert(m.slots[i as int] is None);
                let k = choose|k: int| 0 <= k < m.free.len() && m.free[k] == i;
                assert(n.free[k] == i);
            }
        }
    }
}

/// Allocating adds one to the count; deallocating a live slot takes one off,
/// and deallocating anything else leaves the count alone.
pub proof fn law_count_tracks_allocations<T>(m: ArenaModel<T>, item: T, index: usize)
    requires
        m.wf(),
        m.can_allocate(),
    ensures
        m.allocate(item).count() == m.count() + 1,
        m.is_allocated(index) ==> m.deallocate(index).count() + 1 == m.count(),
        !m.is_allocated(index) ==> m.deallocate(index).count() == m.count(),
{
    if m.free.len() > 0 {
        let i = m.free.last();
        assert(m.slots[i as int] is None);
        lemma_count_some_update(m.slots, i as int, Some(item));
    } else {
        lemma_count_some_push(m.slots, Some(item));
    }
    if m.is_allocated(index) {
        lemma_count_some_update(m.slots, index as int, None);
    }
}

/// A freshly allocated item is found again through its index and the
/// generation that the slot now has; the slot is a fresh one (generation 0)
/// or the most recently freed one.
pub proof fn law_allocate_then_get<T>(m: ArenaModel<T>, item: T)
    requires
        m.wf(),
        m.can_allocate(),
    ensures
        ({
            let n = m.allocate(item);
            let i = m.next_index();
            &&& n.wf()
            &&& n.is_allocated(i)
            &&& n.lookup(i, n.gens[i as int]) == Some(item)
            &&& !m.is_allocated(i)
        }),
{
    law_allocate_keeps_wf(m, item);
    if m.free.len() > 0 {
        assert(m.slots[m.free.last() as int] is None);
    }
}

/// Use-after-free protection: once a live handle's slot is freed, the handle
/// no longer finds anything, and the next allocation, which reuses exactly that
/// slot, gives it a different generation, so the old handle still finds
/// nothing.
pub proof fn law_stale_handle_rejected<T>(m: ArenaModel<T>, index: usize, generation: u64, item: T)
    requires
        m.wf(),
        m.handle_live(index, generation),
    ensures
        m.deallocate(index).lookup(index, generation) is None,
        m.deallocate(index).next_index() == index,
        m.deallocate(index).allocate(item).lookup(index, generation) is None,
        m.deallocate(index).allocate(item).lookup(
            index,
            m.deallocate(index).allocate(item).gens[index as int],
        ) == Some(item),
{
    let d = m.deallocate(index);
    let a = d.allocate(item);
    assert(d.free.last() == index);
    assert(a.gens[index as int] == generation.wrapping_add(1));
    assert(generation.wrapping_add(1) != generation) by (bit_vector);
}

/// Allocating and deallocating touch one slot only: every handle to another
/// slot finds the same item before and after.
pub proof fn law_other_handles_unaffected<T>(
    m: ArenaModel<T>,
    item: T,
    index: usize,
    other: usize,
    generation: u64,
)
    requires
        m.wf(),
    ensures
        other != m.next_index() ==> m.allocate(item).lookup(other, generation) == m.lookup(
            other,
            generation,
        ),
        other != index ==> m.deallocate(index).lookup(other, generation) == m.lookup(
            other,
            generation,
        ),
{
}

/// The checked lookup is the unchecked one gated by the generation: a handle
/// finds the slot's content exactly when the slot's generation is the
/// handle's.
pub proof fn law_checked_lookup_is_gated_unchecked<T>(m: ArenaModel<T>, index: usize, generation: u64)
    requires
        m.wf(),
    ensures
        m.lookup(index, generation) == (if index < m.gens.len() && m.gens[index as int] == generation {
            if index < m.slots.len() {
                m.slots[index as int]
            } else {
                None
            }
        } else {
            None
        }),
        m.is_allocated(index) ==> m.lookup(index, m.gens[index as int]) == m.slots[index as int],
{
}

/// How generations evolve: a slot's generation exists exactly while the slot
/// exists; a new slot starts at 0; reusing a slot bumps its generation by one
/// (wrapping); deallocating and clearing change no generation.
pub proof fn law_generation_steps<T>(m: ArenaModel<T>, item: T, index: usize)
    requires
        m.wf(),
        m.can_allocate(),
    ensures
        m.allocate(item).gens.len() == m.allocate(item).slots.len(),
        m.free.len() == 0 ==> m.allocate(item).gens == m.gens.push(0),
        m.free.len() > 0 ==> m.allocate(item).gens == m.gens.update(
            m.next_index() as int,
            m.gens[m.next_index() as int].wrapping_add(1),
        ),
        m.deallocate(index).gens == m.gens,
        m.clear().gens == m.gens,
        m.clear().slots.len() == m.slots.len(),
{
}

/// A simple arena allocator for efficient memory management with generation
/// tracking to prevent use-after-free bugs.
pub struct ArenaAllocator<T> {
    items: Vec<Option<T>>,
    free_indices: Vec<usize>,
    generations: Vec<u64>,
    count: usize,
}

impl<T> View for ArenaAllocator<T> {
    type V = ArenaModel<T>;

    closed spec fn view(&self) -> ArenaModel<T> {
        ArenaModel { slots: self.items@, gens: self.generations@, free: self.free_indices@ }
    }
}

impl<T> ArenaAllocator<T> {
    /// The number of items the arena keeps track of.
    pub closed spec fn cached_count(&self) -> nat {
        self.count as nat
    }

    /// Internal consistency: the model is well formed and the kept count is
    /// the number of allocated items.
    pub open spec fn wf(&self) -> bool {
        &&& self@.wf()
        &&& self.cached_count() == self@.count()
    }

    /// Creates a new, empty arena.
    pub fn new() -> (r: Self)
        ensures
            r.wf(),
            r@ == ArenaModel::<T>::empty(),
    {
        ArenaAllocator {
            items: Vec::new(),
            free_indices: Vec::new(),
            generations: Vec::new(),
            count: 0,
        }
    }

    /// Creates a new, empty arena with room reserved for `capacity` items.
    pub fn with_capacity(capacity: usize) -> (r: Self)
        ensures
            r.wf(),
            r@ == ArenaModel::<T>::empty(),
    {
        ArenaAllocator {
            items: Vec::with_capacity(capacity),
            free_indices: Vec::with_capacity(capacity),
            generations: Vec::with_capacity(capacity),
            count: 0,
        }
    }

    /// Allocates a new item in the arena and returns its index. The most
    /// recently freed slot is reused first, with its generation bumped so that
    /// handles to its previous occupant no longer match; otherwise a new slot
    /// of generation 0 is appended.
    pub fn allocate(&mut self, item: T) -> (index: usize)
        requires
            old(self).wf(),
        ensures
            final(self).wf(),
            index == old(self)@.next_index(),
            final(self)@ == old(self)@.allocate(item),
    {
        let ghost old_items = self.items@;
        let ghost old_free = self.free_indices@;
        if let Some(index) = self.free_indices.pop() {
            proof {
                let k = old_free.len() - 1;
                assert(old_free[k] == index);
                lemma_count_some_update(old_items, index as int, Some(item));
                lemma_count_some_bound(old_items);
                assert(old_items[index as int] is None);
            }
            let g = self.generations[index].wrapping_add(1);
            self.generations.set(index, g);
            self.items.set(index, Some(item));
            self.count += 1;
            proof {
                assert forall|i: usize|
                    i < self.items@.len() && #[trigger] self.items@[i as int] is None
                    implies self.free_indices@.contains(i) by {
                    assert(i != index);
                    assert(old_free.contains(i));
                    let k = choose|k: int| 0 <= k < old_free.len() && old_free[k] == i;
                    assert(k != old_free.len() - 1);
                    assert(self.free_indices@[k] == i);
                }
                assert(self@ =~= old(self)@.allocate(item));
            }
            index
        } else {
            let index = self.items.len();
            proof {
                lemma_count_some_push(old_items, Some(item));
                lemma_count_some_bound(old_items);
            }
            self.items.push(Some(item));
            self.generations.push(0);
            // the slot count after the push is a usize, so the counter cannot overflow
            let slot_count = self.items.len();
            assert(self.count < slot_count);
            self.count += 1;
            proof {
                assert forall|i: usize|
                    i < self.items@.len() && #[trigger] self.items@[i as int] is None
                    implies self.free_indices@.contains(i) by {
                    assert(i < old_items.len());
                    assert(old_items[i as int] is None);
                }
                assert(self@ =~= old(self)@.allocate(item));
            }
            index
        }
    }

    /// Deallocates the item at `index`. Nothing happens when the index is out
    /// of range or the slot is already free.
    pub fn deallocate(&mut self, index: usize)
        requires
            old(self).wf(),
        ensures
            final(self).wf(),
            final(self)@ == old(self)@.deallocate(index),
    {
        if index < self.items.len() {
            if self.items[index].is_some() {
                let ghost old_items = self.items@;
                let ghost old_free = self.free_indices@;
                proof {
                    lemma_count_some_update(old_items, index as int, None);
                    lemma_count_some_bound(old_items);
                    assert(!old_free.contains(index));
                }
                self.items.set(index, None);
                self.free_indices.push(index);
                self.count -= 1;
                proof {
                    assert forall|k: int, l: int|
                        0 <= k < l < self.free_indices@.len() implies #[trigger] self.free_indices@[k]
                            != #[trigger] self.free_indices@[l] by {
                        if l == old_free.len() {
                            assert(old_free[k] == self.free_indices@[k]);
                        }
                    }
                    assert forall|i: usize|
                        i < self.items@.len() && #[trigger] self.items@[i as int] is None
                        implies self.free_indices@.contains(i) by {
                        if i == index {
                            assert(self.free_indices@[old_free.len() as int] == index);
                        } else {
                            assert(old_items[i as int] is None);
                            let k = choose|k: int| 0 <= k < old_free.len() && old_free[k] == i;
                            assert(self.free_indices@[k] == i);
                        }
                    }
                    assert(self@ =~= old(self)@.deallocate(index));
                }
            }
        }
    }

    /// Gets a reference to an item by index with generation check.
    pub fn get(&self, index: usize, generation: u64) -> (r: Option<&T>)
        requires
            self.wf(),
        ensures
            r is Some <==> self@.handle_live(index, generation),
            r is Some ==> Some(*r.unwrap()) == self@.lookup(index, generation),
    {
        if index < self.items.len() && self.generations[index] == generation {
            self.items[index].as_ref()
        } else {
            None
        }
    }

    /// Gets a mutable reference to an item by index with generation check.
    pub fn get_mut(&mut self, index: usize, generation: u64) -> (r: Option<&mut T>)
        requires
            old(self).wf(),
        ensures
            r is Some <==> old(self)@.handle_live(index, generation),
            r is Some ==> {
                &&& Some(*r.unwrap()) == old(self)@.lookup(index, generation)
                &&& final(self)@ == (ArenaModel {
                    slots: old(self)@.slots.update(index as int, Some(*final(r.unwrap()))),
                    ..old(self)@
                })
                &&& final(self).wf()
            },
            r is None ==> *final(self) == *old(self),
    {
        if index < self.items.len() && self.generations[index] == generation
            && self.items[index].is_some() {
            proof {
                lemma_count_some_refill(self.items@, index as int);
            }
            self.items[index].as_mut()
        } else {
            None
        }
    }

    /// Gets a reference without generation check (legacy access).
    pub fn get_unchecked(&self, index: usize) -> (r: Option<&T>)
        requires
            self.wf(),
        ensures
            r is Some <==> self@.is_allocated(index),
            r is Some ==> Some(*r.unwrap()) == self@.slots[index as int],
    {
        if index < self.items.len() {
            self.items[index].as_ref()
        } else {
            None
        }
    }

    /// Gets a mutable reference without generation check (legacy access).
    pub fn get_mut_unchecked(&mut self, index: usize) -> (r: Option<&mut T>)
        requires
            old(self).wf(),
        ensures
            r is Some <==> old(self)@.is_allocated(index),
            r is Some ==> {
                &&& Some(*r.unwrap()) == old(self)@.slots[index as int]
                &&& final(self)@ == (ArenaModel {
                    slots: old(self)@.slots.update(index as int, Some(*final(r.unwrap()))),
                    ..old(self)@
                })
                &&& final(self).wf()
            },
            r is None ==> *final(self) == *old(self),
    {
        if index < self.items.len() && self.items[index].is_some() {
            proof {
                lemma_count_some_refill(self.items@, index as int);
            }
            self.items[index].as_mut()
        } else {
            None
        }
    }

    /// Checks if an index is valid and allocated.
    pub fn is_allocated(&self, index: usize) -> (r: bool)
        ensures
            r == self@.is_allocated(index),
    {
        if index < self.items.len() {
            self.items[index].is_some()
        } else {
            false
        }
    }

    /// Returns the number of allocated items.
    pub fn count(&self) -> (r: usize)
        requires
            self.wf(),
        ensures
            r == self@.count(),
    {
        self.count
    }

    /// Returns the generation for a given index.
    pub fn get_generation(&self, index: usize) -> (r: Option<u64>)
        requires
            self.wf(),
        ensures
            r == (if index < self@.gens.len() {
                Some(self@.gens[index as int])
            } else {
                None::<u64>
            }),
    {
        if index < self.generations.len() {
            Some(self.generations[index])
        } else {
            None
        }
    }

    /// Clears the arena: every item is dropped and every slot becomes free.
    /// The generations are kept, so a handle issued before the clear never
    /// reaches an item placed afterwards; slot 0 is reused first.
    pub fn clear(&mut self)
        requires
            old(self).wf(),
        ensures
            final(self).wf(),
            final(self)@ == old(self)@.clear(),
    {
        let ghost m = self@;
        let n = self.items.len();
        let mut i: usize = 0;
        while i < n
            invariant
                i <= n,
                n == self.items@.len(),
                self.generations@ == m.gens,
                self.free_indices@ == m.free,
                forall|k: int| 0 <= k < i ==> self.items@[k] is None,
            decreases n - i,
        {
            self.items.set(i, None);
            i = i + 1;
        }
        self.free_indices.clear();
        let mut k: usize = n;
        while k > 0
            invariant
                k <= n,
                n == self.items@.len(),
                self.generations@ == m.gens,
                forall|j: int| 0 <= j < n ==> self.items@[j] is None,
                self.free_indices@ == Seq::new((n - k) as nat, |q: int| (n - 1 - q) as usize),
            decreases k,
        {
            k = k - 1;
            self.free_indices.push(k);
            proof {
                assert(self.free_indices@ =~= Seq::new((n - k) as nat, |q: int| (n - 1 - q) as usize));
            }
        }
        self.count = 0;
        proof {
            assert(self.items@ =~= Seq::new(n as nat, |j: int| None::<T>));
            assert(self@ =~= m.clear());
            law_clear_empties(m);
        }
    }

    /// Returns the capacity of the slot vector, a hint for pre-allocation; it
    /// is never below the number of slots.
    pub fn capacity(&self) -> (r: usize)
        ensures
            r >= self@.slots.len(),
    {
        vec_capacity(&self.items)
    }
}

impl<T> Default for ArenaAllocator<T> {
    fn default() -> (r: Self)
        ensures
            r.wf(),
            r@ == ArenaModel::<T>::empty(),
    {
        Self::new()
    }
}

} // verus!
