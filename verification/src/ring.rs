//! Fixed-capacity circular FIFO queue.
//!
//! The backing block holds `capacity` slots; exactly `count` of them,
//! starting at `head` and proceeding forward modulo the capacity, hold
//! live elements. Pushing into a full queue is rejected with
//! [`CapacityExceeded`] — it never overwrites a live element.
//!
//! Cross-thread handoff is enforced by exclusive access rather than by
//! shared indices: push, pop and resize all take the queue by `&mut`, so
//! no operation can ever observe another's half-finished index update or
//! a half-migrated block.

use vstd::pervasive::VecAdditionalExecFns;
use vstd::prelude::*;

verus! {

/// Signalled by [`RingBuf::push`] when the queue is full: the new element
/// is handed back untouched and the queue keeps all its live elements.
#[derive(Debug, Clone, Copy, PartialEq, Eq, Structural)]
pub struct CapacityExceeded;

/// A fixed-capacity FIFO queue over a circular index space.
///
/// Viewed as the sequence of live elements in pop order (oldest first).
pub struct RingBuf<T> {
    storage: Vec<Option<T>>,
    head: usize,
    tail: usize,
    count: usize,
}

impl<T> RingBuf<T> {
    /// Physical slot of the `k`-th live element (counting from the head).
    /// Since `head < capacity` and `k <= capacity`, a single conditional
    /// subtraction realises the reduction modulo the capacity.
    closed spec fn slot_of(&self, k: int) -> int {
        if self.head + k < self.storage@.len() {
            self.head + k
        } else {
            self.head + k - self.storage@.len()
        }
    }

    /// Whether physical slot `i` lies in the live range: among the `count`
    /// slots starting at `head`, wrapping modulo the capacity.
    closed spec fn live(&self, i: int) -> bool {
        if self.head + self.count <= self.storage@.len() {
            self.head <= i < self.head + self.count
        } else {
            self.head <= i || i < self.head + self.count - self.storage@.len()
        }
    }

    /// Well-formedness: the indices stay inside the block, `tail` is the
    /// slot the next push writes, and exactly the live slots hold values.
    pub closed spec fn wf(&self) -> bool {
        &&& self.count <= self.storage@.len()
        &&& self.head < self.storage@.len() || (self.storage@.len() == 0 && self.head == 0)
        &&& self.tail == self.slot_of(self.count as int)
        &&& forall|i: int|
            0 <= i < self.storage@.len() ==> (self.storage@[i] is Some <==> self.live(i))
    }

    /// Number of slots in the backing block.
    pub closed spec fn capacity(&self) -> nat {
        self.storage@.len()
    }

    /// Creates a queue with `capacity` slots, all empty.
    ///
    /// A capacity of zero is degenerate: such a queue is permanently both
    /// empty and full, so every push is rejected and every pop yields
    /// `None`.
    pub fn new(capacity: usize) -> (q: Self)
        ensures
            q.wf(),
            q@ == Seq::<T>::empty(),
            q.capacity() == capacity,
    {
        let mut storage: Vec<Option<T>> = Vec::new();
        let mut i: usize = 0;
        while i < capacity
            invariant
                i <= capacity,
                storage@.len() == i,
                forall|j: int| 0 <= j < i ==> storage@[j] is None,
            decreases capacity - i,
        {
            storage.push(None);
            i = i + 1;
        }
        let q = RingBuf { storage, head: 0, tail: 0, count: 0 };
        proof {
            assert(q@ =~= Seq::<T>::empty());
        }
        q
    }

    /// Number of live elements.
    pub fn len(&self) -> (n: usize)
        requires
            self.wf(),
        ensures
            n == self@.len(),
    {
        self.count
    }

    /// Number of slots in the backing block, as stored.
    pub fn capacity_slots(&self) -> (n: usize)
        requires
            self.wf(),
        ensures
            n == self.capacity(),
    {
        self.storage.len()
    }

    /// Appends `item` at the tail, unless the queue is full.
    ///
    /// On a full queue (including the degenerate zero-capacity queue) the
    /// push is rejected: no live slot is overwritten and the contents are
    /// unchanged.
    pub fn push(&mut self, item: T) -> (r: Result<(), CapacityExceeded>)
        requires
            old(self).wf(),
        ensures
            final(self).wf(),
            final(self).capacity() == old(self).capacity(),
            old(self)@.len() < old(self).capacity() ==> r is Ok && final(self)@ == old(self)@.push(item),
            old(self)@.len() == old(self).capacity() ==> r is Err && final(self)@ == old(self)@,
    {
        if self.count == self.storage.len() {
            return Err(CapacityExceeded);
        }
        let cap = self.storage.len();
        let t = self.tail;
        self.storage.set(t, Some(item));
        self.tail = if t + 1 == cap {
            0
        } else {
            t + 1
        };
        self.count = self.count + 1;
        proof {
            assert forall|i: int|
                0 <= i < self.storage@.len() implies (self.storage@[i] is Some <==> self.live(
                i,
            )) by {
                assert(old(self).storage@[i] is Some <==> old(self).live(i));
            }
            assert(self@ =~= old(self)@.push(item));
        }
        Ok(())
    }

    /// Removes and returns the oldest element, or `None` when the queue is
    /// empty; popping from an empty queue leaves it unchanged.
    pub fn pop(&mut self) -> (r: Option<T>)
        requires
            old(self).wf(),
        ensures
            final(self).wf(),
            final(self).capacity() == old(self).capacity(),
            old(self)@.len() == 0 ==> r is None && final(self)@ == old(self)@,
            old(self)@.len() > 0 ==> r == Some(old(self)@.first()) && final(self)@ == old(self)@.drop_first(),
    {
        if self.count == 0 {
            return None;
        }
        let cap = self.storage.len();
        let h = self.head;
        let mut taken: Option<T> = None;
        self.storage.set_and_swap(h, &mut taken);
        self.head = if h + 1 == cap {
            0
        } else {
            h + 1
        };
        self.count = self.count - 1;
        proof {
            assert(old(self).live(h as int));
            assert forall|i: int|
                0 <= i < self.storage@.len() implies (self.storage@[i] is Some <==> self.live(
                i,
            )) by {
                assert(old(self).storage@[i] is Some <==> old(self).live(i));
            }
            assert(self@ =~= old(self)@.drop_first());
        }
        Some(taken.unwrap())
    }

    /// Reallocates to `new_capacity` slots, copying the live elements into
    /// the low end of the new block in logical order (oldest first). A
    /// structural, stop-the-world change: it needs exclusive access, which
    /// the `&mut` receiver enforces.
    pub fn resize(&mut self, new_capacity: usize)
        requires
            old(self).wf(),
            old(self)@.len() <= new_capacity,
        ensures
            final(self).wf(),
            final(self)@ == old(self)@,
            final(self).capacity() == new_capacity,
    {
        let count = self.count;
        let mut new_storage: Vec<Option<T>> = Vec::new();
        let mut i: usize = 0;
        while i < new_capacity
            invariant
                i <= new_capacity,
                new_storage@.len() == i,
                forall|j: int| 0 <= j < i ==> new_storage@[j] is None,
            decreases new_capacity - i,
        {
            new_storage.push(None);
            i = i + 1;
        }
        let cap = self.storage.len();
        let mut k: usize = 0;
        while k < count
            invariant
                old(self).wf(),
                old(self)@.len() == count,
                count <= new_capacity,
                k <= count,
                self.head == old(self).head,
                self.count == count,
                cap == old(self).storage@.len(),
                self.storage@.len() == cap,
                forall|j: int|
                    k <= j < count ==> #[trigger] self.storage@[old(self).slot_of(j)] == old(
                        self,
                    ).storage@[old(self).slot_of(j)],
                new_storage@.len() == new_capacity,
                forall|j: int| 0 <= j < k ==> new_storage@[j] == Some(old(self)@[j]),
                forall|j: int| k <= j < new_capacity ==> new_storage@[j] is None,
            decreases count - k,
        {
            let idx = if k < cap - self.head {
                self.head + k
            } else {
                k - (cap - self.head)
            };
            proof {
                assert(old(self).live(idx as int));
            }
            let mut taken: Option<T> = None;
            self.storage.set_and_swap(idx, &mut taken);
            new_storage.set(k, taken);
            proof {
                assert forall|j: int|
                    k + 1 <= j < count implies #[trigger] self.storage@[old(self).slot_of(j)]
                    == old(self).storage@[old(self).slot_of(j)] by {
                    assert(old(self).slot_of(j) != idx);
                }
            }
            k = k + 1;
        }
        let ghost moved: Seq<Option<T>> = new_storage@;
        self.storage = new_storage;
        self.head = 0;
        self.tail = if count == new_capacity {
            0
        } else {
            count
        };
        proof {
            assert forall|j: int| 0 <= j < count implies self@[j] == old(self)@[j] by {
                assert(moved[j] == Some(old(self)@[j]));
            }
            assert(self@ =~= old(self)@);
        }
    }
}

/// Queue contents after pushing the elements of `s`, in order, into an
/// initially empty queue, every push succeeding. Each step restates the
/// `ensures` of [`RingBuf::push`] on a non-full queue (the contents gain
/// the item at the back), starting from the empty contents that
/// [`RingBuf::new`] guarantees.
pub open spec fn contents_after_pushes<T>(s: Seq<T>) -> Seq<T>
    decreases s.len(),
{
    if s.len() == 0 {
        Seq::empty()
    } else {
        contents_after_pushes(s.drop_last()).push(s.last())
    }
}

/// FIFO order: pushing the elements of `s` into an empty queue (at most
/// capacity many, so every push succeeds) leaves contents exactly `s`, and
/// the `k`-th subsequent pop — which by the `ensures` of [`RingBuf::pop`]
/// returns the first of the contents and drops it — yields `s[k]`: the
/// pops return the elements in push order.
pub proof fn lemma_fifo_order<T>(s: Seq<T>, k: int)
    requires
        0 <= k < s.len(),
    ensures
        contents_after_pushes(s) == s,
        contents_after_pushes(s).skip(k).first() == s[k],
        contents_after_pushes(s).skip(k).drop_first() == contents_after_pushes(s).skip(k + 1),
{
    lemma_pushes_rebuild(s);
    assert(s.skip(k).first() == s[k]);
    assert(s.skip(k).drop_first() =~= s.skip(k + 1));
}

/// Folding the push step of [`contents_after_pushes`] over `s` rebuilds `s`.
proof fn lemma_pushes_rebuild<T>(s: Seq<T>)
    ensures
        contents_after_pushes(s) == s,
    decreases s.len(),
{
    if s.len() == 0 {
        assert(contents_after_pushes(s) =~= s);
    } else {
        lemma_pushes_rebuild(s.drop_last());
        assert(contents_after_pushes(s) =~= s);
    }
}

impl<T> View for RingBuf<T> {
    type V = Seq<T>;

    /// The live elements in pop order: the element popped `k`-th from now
    /// sits at physical slot `slot_of(k)`.
    closed spec fn view(&self) -> Seq<T> {
        Seq::new(self.count as nat, |k: int| self.storage@[self.slot_of(k)].unwrap())
    }
}

} // verus!
