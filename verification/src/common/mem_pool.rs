//! A fixed-capacity object pool addressed by integer handles.
use vstd::prelude::*;

use crate::common::types::PoolIdx;

verus! {

/// Handle value that never names a slot of a pool.
pub const POOL_IDX_NULL: PoolIdx = 0xffff_ffffu32;

struct ObjectBlock<T> {
    object: T,
    is_free: bool,
}

/// A pool of `T` objects preallocated at construction; slots are handed out
/// and taken back by index, so no heap allocation happens after `new`.
pub struct MemPool<T> {
    store: Vec<ObjectBlock<T>>,
    next_free_index: usize,
    in_use: usize,
}

/// The abstract state of a pool: the object in each slot, whether each slot
/// is free, the slot the next allocation hands out, and the usage counter.
#[verifier::ext_equal]
pub struct PoolView<T> {
    pub objects: Seq<T>,
    pub free: Seq<bool>,
    pub next_free: int,
    pub in_use: int,
}

/// Number of slots that are in use.
pub open spec fn count_used(free: Seq<bool>) -> nat
    decreases free.len(),
{
    if free.len() == 0 {
        0
    } else {
        count_used(free.drop_last()) + (if free.last() { 0nat } else { 1nat })
    }
}

/// The slot reached by walking forward from `start` (cyclically), checking
/// `start + k`, `start + k + 1`, ... : the first free one met, or `start`
/// itself when none is free.
pub open spec fn first_free_after(free: Seq<bool>, start: int, k: nat) -> int
    decreases free.len() - k,
{
    if k >= free.len() || free.len() == 0 {
        start
    } else if free[(start + k) % (free.len() as int)] {
        (start + k) % (free.len() as int)
    } else {
        first_free_after(free, start, k + 1)
    }
}

/// `i` is the lowest free slot.
pub open spec fn lowest_free(free: Seq<bool>, i: int) -> bool {
    &&& 0 <= i < free.len()
    &&& free[i]
    &&& forall|j: int| 0 <= j < i ==> !#[trigger] free[j]
}

/// With every slot below `start + k` in use and a free slot `j` at or above
/// it, the scan from `start` lands on the lowest free slot, without
/// wrapping around.
proof fn lemma_scan_finds_lowest(free: Seq<bool>, start: int, k: nat, j: int)
    requires
        0 <= start,
        1 <= k,
        start + k <= j < free.len(),
        free[j],
        forall|m: int| 0 <= m < start + k ==> !#[trigger] free[m],
    ensures
        start < first_free_after(free, start, k),
        lowest_free(free, first_free_after(free, start, k)),
    decreases free.len() - k,
{
    vstd::arithmetic::div_mod::lemma_small_mod((start + k) as nat, free.len() as nat);
    if !free[start + k] {
        lemma_scan_finds_lowest(free, start, k + 1, j);
    }
}

/// After an allocation the next one points at the lowest free slot again,
/// which lies above the slot just handed out.
proof fn lemma_after_allocate_lowest<T>(v: PoolView<T>, obj: T)
    requires
        v.wf(),
        v.can_allocate(),
    ensures
        v.next_free < v.after_allocate(obj).next_free,
        lowest_free(v.after_allocate(obj).free, v.after_allocate(obj).next_free),
{
    let free2 = v.free.update(v.next_free, false);
    let j = choose|j: int| 0 <= j < v.free.len() && j != v.next_free && #[trigger] v.free[j];
    assert(free2[j]);
    assert(j > v.next_free);
    lemma_scan_finds_lowest(free2, v.next_free, 1, j);
}

impl<T> PoolView<T> {
    pub open spec fn len(self) -> int {
        self.objects.len() as int
    }

    /// Structural soundness of a pool: the next allocation points at the
    /// lowest free slot.
    pub open spec fn wf(self) -> bool {
        &&& self.objects.len() == self.free.len()
        &&& self.objects.len() <= 0xffff_ffffnat
        &&& self.in_use == count_used(self.free)
        &&& if self.objects.len() == 0 {
            self.next_free == 0
        } else {
            lowest_free(self.free, self.next_free)
        }
    }

    /// `idx` names a slot of the pool.
    pub open spec fn valid(self, idx: int) -> bool {
        0 <= idx < self.objects.len()
    }

    /// `allocate` completes: after taking the next free slot, another free
    /// slot is left for the following allocation to point at.
    pub open spec fn can_allocate(self) -> bool {
        &&& self.objects.len() > 0
        &&& exists|j: int| 0 <= j < self.free.len() && j != self.next_free && #[trigger] self.free[j]
    }

    /// Pool after `allocate`, with `obj` standing for the fresh default value.
    pub open spec fn after_allocate(self, obj: T) -> PoolView<T> {
        let free2 = self.free.update(self.next_free, false);
        PoolView {
            objects: self.objects.update(self.next_free, obj),
            free: free2,
            next_free: first_free_after(free2, self.next_free, 1),
            in_use: self.in_use + 1,
        }
    }

    /// `deallocate(idx)` completes: `idx` is a slot in use.
    pub open spec fn can_deallocate(self, idx: int) -> bool {
        self.valid(idx) && idx < self.free.len() && !self.free[idx]
    }

    /// Pool after `deallocate(idx)`.
    pub open spec fn after_deallocate(self, idx: int) -> PoolView<T> {
        PoolView {
            objects: self.objects,
            free: self.free.update(idx, true),
            next_free: if idx < self.next_free { idx } else { self.next_free },
            in_use: self.in_use - 1,
        }
    }

    /// Pool after the object in slot `idx` is replaced by `obj`.
    pub open spec fn with_object(self, idx: int, obj: T) -> PoolView<T> {
        PoolView { objects: self.objects.update(idx, obj), ..self }
    }
}

impl<T> View for MemPool<T> {
    type V = PoolView<T>;

    closed spec fn view(&self) -> PoolView<T> {
        PoolView {
            objects: Seq::new(self.store@.len(), |i: int| self.store@[i].object),
            free: Seq::new(self.store@.len(), |i: int| self.store@[i].is_free),
            next_free: self.next_free_index as int,
            in_use: self.in_use as int,
        }
    }
}

/// Counting in-use slots after one slot changes state.
pub proof fn lemma_count_used_update(free: Seq<bool>, i: int, b: bool)
    requires
        0 <= i < free.len(),
    ensures
        count_used(free.update(i, b)) == count_used(free) - (if free[i] { 0int } else { 1int }) + (
        if b { 0int } else { 1int }),
    decreases free.len(),
{
    let u = free.update(i, b);
    if i == free.len() - 1 {
        assert(u.drop_last() =~= free.drop_last());
    } else {
        lemma_count_used_update(free.drop_last(), i, b);
        assert(u.drop_last() =~= free.drop_last().update(i, b));
    }
}

/// All slots free means none in use.
pub proof fn lemma_count_used_all_free(free: Seq<bool>)
    requires
        forall|i: int| 0 <= i < free.len() ==> #[trigger] free[i],
    ensures
        count_used(free) == 0,
    decreases free.len(),
{
    if free.len() > 0 {
        lemma_count_used_all_free(free.drop_last());
    }
}

/// All slots in use means the counter equals the number of slots.
pub proof fn lemma_count_used_all_used(free: Seq<bool>)
    requires
        forall|i: int| 0 <= i < free.len() ==> !#[trigger] free[i],
    ensures
        count_used(free) == free.len(),
    decreases free.len(),
{
    if free.len() > 0 {
        lemma_count_used_all_used(free.drop_last());
    }
}

/// The counter never exceeds the number of slots.
pub proof fn lemma_count_used_bound(free: Seq<bool>)
    ensures
        count_used(free) <= free.len(),
    decreases free.len(),
{
    if free.len() > 0 {
        lemma_count_used_bound(free.drop_last());
    }
}

/// A slot in use makes the counter positive.
pub proof fn lemma_count_used_positive(free: Seq<bool>, i: int)
    requires
        0 <= i < free.len(),
        !free[i],
    ensures
        count_used(free) > 0,
{
    lemma_count_used_update(free, i, true);
}

/// A sound, non-empty pool can hand out another slot exactly when fewer
/// than all but one of its slots are in use.
pub proof fn lemma_can_allocate_count<T>(v: PoolView<T>)
    requires
        v.wf(),
        v.len() > 0,
    ensures
        v.can_allocate() <==> v.in_use + 1 < v.len(),
{
    let f1 = v.free.update(v.next_free, false);
    lemma_count_used_update(v.free, v.next_free, false);
    if v.can_allocate() {
        let j = choose|j: int| 0 <= j < v.free.len() && j != v.next_free && #[trigger] v.free[j];
        lemma_count_used_update(f1, j, false);
        lemma_count_used_bound(f1.update(j, false));
    } else {
        assert forall|i: int| 0 <= i < f1.len() implies !#[trigger] f1[i] by {
            if i != v.next_free {
                assert(!(0 <= i < v.free.len() && i != v.next_free && v.free[i]));
            }
        }
        lemma_count_used_all_used(f1);
    }
}

/// The usage count of a sound pool lies between 0 and its capacity.
pub proof fn lemma_usage_bounded<T>(v: PoolView<T>)
    requires
        v.wf(),
    ensures
        0 <= v.in_use <= v.len(),
{
    lemma_count_used_bound(v.free);
}

/// An allocation hands out a slot that was free and is in use afterwards,
/// and giving that slot straight back restores which slots are free and the
/// usage count, leaving the pool sound.
pub proof fn lemma_allocate_then_deallocate<T>(v: PoolView<T>, obj: T)
    requires
        v.wf(),
        v.can_allocate(),
    ensures
        v.free[v.next_free],
        !v.after_allocate(obj).free[v.next_free],
        v.after_allocate(obj).objects[v.next_free] == obj,
        v.after_allocate(obj).can_deallocate(v.next_free),
        v.after_allocate(obj).after_deallocate(v.next_free).free == v.free,
        v.after_allocate(obj).after_deallocate(v.next_free).in_use == v.in_use,
        v.after_allocate(obj).after_deallocate(v.next_free).wf(),
{
    let a = v.after_allocate(obj);
    let free2 = v.free.update(v.next_free, false);
    let j = choose|j: int| 0 <= j < v.free.len() && j != v.next_free && #[trigger] v.free[j];
    assert(free2[j]);
    lemma_first_free_after(free2, v.next_free, 1, j);
    lemma_count_used_update(v.free, v.next_free, false);
    lemma_count_used_update(free2, v.next_free, true);
    assert(free2.update(v.next_free, true) =~= v.free);
}

/// Allocation always takes the lowest free slot: in a sound pool the next
/// allocation points at it, and after an allocation or a deallocation it
/// points at the lowest free slot of the pool that results.
pub proof fn lemma_allocation_takes_lowest_free<T>(v: PoolView<T>, obj: T, idx: int)
    requires
        v.wf(),
        v.len() > 0,
    ensures
        lowest_free(v.free, v.next_free),
        v.can_allocate() ==> lowest_free(
            v.after_allocate(obj).free,
            v.after_allocate(obj).next_free,
        ),
        v.can_deallocate(idx) ==> lowest_free(
            v.after_deallocate(idx).free,
            v.after_deallocate(idx).next_free,
        ),
{
    if v.can_allocate() {
        lemma_after_allocate_lowest(v, obj);
    }
    if v.can_deallocate(idx) {
        let d = v.after_deallocate(idx);
        assert forall|j: int| 0 <= j < d.next_free implies !#[trigger] d.free[j] by {
            assert(j != idx);
        }
    }
}

/// The cyclic scan lands on a free slot when one exists among the slots it
/// has still to look at.
proof fn lemma_first_free_after(free: Seq<bool>, start: int, k: nat, j: int)
    requires
        0 <= start < free.len(),
        1 <= k,
        k <= free.len(),
        0 <= j < free.len(),
        free[j],
        j != start,
        forall|m: int| 1 <= m < k ==> !#[trigger] free[(start + m) % (free.len() as int)],
    ensures
        0 <= first_free_after(free, start, k) < free.len(),
        free[first_free_after(free, start, k)],
    decreases free.len() - k,
{
    let n = free.len() as int;
    if k >= n {
        // every offset 1..n-1 was checked, and j is one of them
        let m = lemma_offset_of(start, j, n);
        assert(false);
    } else {
        if !free[(start + k) % n] {
            lemma_first_free_after(free, start, k + 1, j);
        }
    }
}

impl<T: Default> MemPool<T> {
    /// The pool is structurally sound.
    pub open spec fn wf(&self) -> bool {
        self@.wf()
    }

    /// A pool of `capacity` default objects, all free.
    pub fn new(capacity: usize) -> (pool: Self)
        requires
            capacity <= 0xffff_ffff,
        ensures
            pool.wf(),
            pool@.len() == capacity,
            forall|i: int| 0 <= i < capacity ==> #[trigger] pool@.free[i],
            forall|i: int|
                0 <= i < capacity ==> call_ensures(T::default, (), #[trigger] pool@.objects[i]),
            pool@.next_free == 0,
            pool@.in_use == 0,
    {
        let mut store: Vec<ObjectBlock<T>> = Vec::with_capacity(capacity);
        let mut n: usize = 0;
        while n < capacity
            invariant
                n <= capacity,
                store@.len() == n,
                forall|i: int| 0 <= i < n ==> #[trigger] store@[i].is_free,
                forall|i: int| 0 <= i < n ==> call_ensures(T::default, (), #[trigger] store@[i].object),
            decreases capacity - n,
        {
            store.push(ObjectBlock { object: T::default(), is_free: true });
            n = n + 1;
        }
        let pool = Self { store, next_free_index: 0, in_use: 0 };
        proof {
            lemma_count_used_all_free(pool@.free);
        }
        pool
    }

    /// Takes the next free slot, resets its object to the default value and
    /// returns its handle (constant time while free slots are dense).
    pub fn allocate(&mut self) -> (idx: PoolIdx)
        requires
            old(self).wf(),
            old(self)@.can_allocate(),
        ensures
            final(self).wf(),
            idx as int == old(self)@.next_free,
            lowest_free(old(self)@.free, idx as int),
            call_ensures(T::default, (), final(self)@.objects[idx as int]),
            final(self)@ == old(self)@.after_allocate(final(self)@.objects[idx as int]),
    {
        let ghost v0 = self@;
        let nf = self.next_free_index;
        self.store[nf].is_free = false;
        self.store[nf].object = T::default();
        let idx = nf as PoolIdx;
        proof {
            let v1 = self@;
            assert(v1.free =~= v0.free.update(nf as int, false));
            assert(v1.objects =~= v0.objects.update(nf as int, v1.objects[nf as int]));
        }
        proof {
            let j = choose|j: int| 0 <= j < v0.free.len() && j != v0.next_free && #[trigger] v0.free[j];
            assert(self@.free[j]);
        }
        self.update_next_free_index();
        proof {
            lemma_count_used_update(v0.free, nf as int, false);
            lemma_count_used_bound(v0.free.update(nf as int, false));
        }
        self.in_use = self.in_use + 1;
        proof {
            assert(self@.free =~= v0.free.update(nf as int, false));
            lemma_after_allocate_lowest(v0, self@.objects[nf as int]);
        }
        idx
    }

    /// Gives the slot `idx` back to the pool.
    pub fn deallocate(&mut self, idx: PoolIdx)
        requires
            old(self).wf(),
            old(self)@.can_deallocate(idx as int),
        ensures
            final(self).wf(),
            final(self)@ == old(self)@.after_deallocate(idx as int),
    {
        let ghost v0 = self@;
        let i = idx as usize;
        proof {
            lemma_count_used_positive(v0.free, i as int);
        }
        self.store[i].is_free = true;
        self.in_use = self.in_use - 1;
        if i < self.next_free_index {
            self.next_free_index = i;
        }
        proof {
            lemma_count_used_update(v0.free, i as int, true);
            assert(self@.free =~= v0.free.update(i as int, true));
            assert(self@.objects =~= v0.objects);
        }
    }

    /// The object in slot `idx`.
    pub fn get(&self, idx: PoolIdx) -> (r: &T)
        requires
            self@.valid(idx as int),
        ensures
            *r == self@.objects[idx as int],
    {
        &self.store[idx as usize].object
    }

    /// Number of slots of the pool.
    pub fn capacity(&self) -> (r: usize)
        ensures
            r == self@.len(),
    {
        self.store.len()
    }

    /// Whether slot `idx` is free.
    pub fn is_free(&self, idx: PoolIdx) -> (r: bool)
        requires
            self@.valid(idx as int),
        ensures
            r == self@.free[idx as int],
    {
        self.store[idx as usize].is_free
    }

    /// The slot the next `allocate` hands out.
    pub fn next_free(&self) -> (r: usize)
        ensures
            r == self@.next_free,
    {
        self.next_free_index
    }

    /// Whether `allocate` can hand out a slot now.
    pub fn can_allocate(&self) -> (r: bool)
        requires
            self.wf(),
        ensures
            r == self@.can_allocate(),
    {
        proof {
            if self@.len() > 0 {
                lemma_can_allocate_count(self@);
            }
        }
        self.store.len() > 0 && self.in_use < self.store.len() - 1
    }

    /// Number of slots in use.
    pub fn pool_usage_count(&self) -> (r: usize)
        ensures
            r == self@.in_use,
    {
        self.in_use
    }

    /// Mutable access to the object in slot `idx`.
    pub fn get_mut(&mut self, idx: PoolIdx) -> (r: &mut T)
        requires
            old(self)@.valid(idx as int),
        ensures
            *r == old(self)@.objects[idx as int],
            final(self)@ =~= old(self)@.with_object(idx as int, *final(r)),
    {
        &mut self.store[idx as usize].object
    }

    fn update_next_free_index(&mut self)
        requires
            old(self)@.objects.len() > 0,
            0 <= old(self)@.next_free < old(self)@.objects.len(),
            !old(self)@.free[old(self)@.next_free],
            exists|j: int|
                0 <= j < old(self)@.free.len() && j != old(self)@.next_free
                    && #[trigger] old(self)@.free[j],
        ensures
            final(self)@ == (PoolView {
                next_free: first_free_after(old(self)@.free, old(self)@.next_free, 1),
                ..old(self)@
            }),
            final(self)@.free[final(self)@.next_free],
            0 <= final(self)@.next_free < final(self)@.objects.len(),
    {
        let ghost v0 = self@;
        let ghost n = v0.free.len() as int;
        let initial = self.next_free_index;
        let len = self.store.len();
        let ghost mut k: nat = 1;
        let ghost j = choose|j: int| 0 <= j < v0.free.len() && j != initial && #[trigger] v0.free[j];
        let ghost mj = lemma_offset_of(initial as int, j, n);
        proof {
            vstd::arithmetic::div_mod::lemma_small_mod(initial as nat, n as nat);
        }
        loop
            invariant_except_break
                1 <= k <= mj,
                self.next_free_index as int == (initial + k - 1) % n,
                forall|m: int| 1 <= m < k ==> !#[trigger] v0.free[(initial + m) % n],
            invariant
                len == self.store@.len(),
                len == n,
                0 <= initial < n,
                1 <= mj < n,
                (initial + mj) % n == j,
                j != initial,
                v0.free[j],
                self.store@ == old(self).store@,
                self.in_use == old(self).in_use,
                v0 == old(self)@,
            ensures
                self.next_free_index as int == first_free_after(v0.free, initial as int, 1),
            decreases n - k,
        {
            proof {
                lemma_first_free_after(v0.free, initial as int, k, j);
                lemma_mod_succ(initial as int + k - 1, n);
                lemma_first_free_after_prefix(v0.free, initial as int, k);
            }
            self.next_free_index = (self.next_free_index + 1) % len;
            if self.store[self.next_free_index].is_free {
                break;
            }
            proof {
                lemma_mod_shift(initial as int, k as int, n);
                k = k + 1;
            }
            assert(self.next_free_index != initial);
        }
        proof {
            lemma_first_free_after(v0.free, initial as int, 1, j);
            assert(self@ =~= (PoolView { next_free: first_free_after(v0.free, initial as int, 1), ..v0 }));
        }
    }
}

/// Skipping slots already known to be in use does not change the scan.
proof fn lemma_first_free_after_prefix(free: Seq<bool>, start: int, k: nat)
    requires
        1 <= k,
        k < free.len(),
        forall|m: int| 1 <= m < k ==> !#[trigger] free[(start + m) % (free.len() as int)],
    ensures
        first_free_after(free, start, 1) == first_free_after(free, start, k),
    decreases k,
{
    if k > 1 {
        lemma_first_free_after_prefix(free, start, (k - 1) as nat);
        assert(!free[(start + (k - 1)) % (free.len() as int)]);
    }
}

/// Every other slot is reached from `start` by some forward offset.
proof fn lemma_offset_of(start: int, j: int, n: int) -> (m: int)
    requires
        0 <= start < n,
        0 <= j < n,
        j != start,
    ensures
        1 <= m < n,
        (start + m) % n == j,
{
    if j > start {
        vstd::arithmetic::div_mod::lemma_small_mod(j as nat, n as nat);
        j - start
    } else {
        vstd::arithmetic::div_mod::lemma_mod_add_multiples_vanish(j, n);
        vstd::arithmetic::div_mod::lemma_small_mod(j as nat, n as nat);
        j - start + n
    }
}

/// A forward step of less than a full turn, as a residue.
proof fn lemma_mod_shift(start: int, k: int, n: int)
    requires
        0 <= start < n,
        0 <= k < n,
    ensures
        (start + k) % n == if start + k < n { start + k } else { start + k - n },
{
    if start + k < n {
        vstd::arithmetic::div_mod::lemma_small_mod((start + k) as nat, n as nat);
    } else {
        vstd::arithmetic::div_mod::lemma_mod_add_multiples_vanish(start + k - n, n);
        vstd::arithmetic::div_mod::lemma_small_mod((start + k - n) as nat, n as nat);
    }
}

/// Stepping a residue forward by one.
proof fn lemma_mod_succ(a: int, n: int)
    requires
        n > 0,
        a >= 0,
    ensures
        (a % n + 1) % n == (a + 1) % n,
{
    vstd::arithmetic::div_mod::lemma_add_mod_noop(a, 1, n);
    if n > 1 {
        vstd::arithmetic::div_mod::lemma_small_mod(1nat, n as nat);
    }
}

} // verus!
