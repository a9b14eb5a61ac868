//! Growable double-ended queue.
//!
//! The live elements occupy the contiguous range `[head, tail)` of the
//! backing block — no wraparound. A push at an exhausted end doubles the
//! block and re-centers the live range so both ends regain headroom.

use vstd::pervasive::VecAdditionalExecFns;
use vstd::prelude::*;

verus! {

/// A growable deque: amortized constant-time insertion at both ends.
///
/// Viewed as the sequence of live elements in front-to-back order.
pub struct Deque<T> {
    storage: Vec<Option<T>>,
    head: usize,
    tail: usize,
    len: usize,
}

impl<T> Deque<T> {
    /// Well-formedness: `[head, tail)` lies inside the block, `len` is its
    /// width, and exactly the slots of that range hold values.
    pub closed spec fn wf(&self) -> bool {
        &&& self.head <= self.tail <= self.storage@.len()
        &&& self.len == self.tail - self.head
        &&& forall|i: int|
            0 <= i < self.storage@.len() ==> (self.storage@[i] is Some <==> self.head <= i
                < self.tail)
    }

    /// Number of slots in the backing block.
    pub closed spec fn capacity(&self) -> nat {
        self.storage@.len()
    }

    /// Free slots before the front element: how many front pushes fit
    /// before the next growth.
    pub closed spec fn front_room(&self) -> nat {
        self.head as nat
    }

    /// Free slots after the back element: how many back pushes fit before
    /// the next growth.
    pub closed spec fn back_room(&self) -> nat {
        (self.storage@.len() - self.tail) as nat
    }

    /// Creates an empty deque with the default capacity of four slots,
    /// centered so both push directions have initial headroom.
    pub fn new() -> (d: Self)
        ensures
            d.wf(),
            d@ == Seq::<T>::empty(),
            d.capacity() == 4,
            d.front_room() == 2,
            d.back_room() == 2,
    {
        Self::with_capacity(4)
    }

    /// Creates an empty deque with `capacity` slots, centered so both push
    /// directions share the initial headroom.
    pub fn with_capacity(capacity: usize) -> (d: Self)
        ensures
            d.wf(),
            d@ == Seq::<T>::empty(),
            d.capacity() == capacity,
            d.front_room() == capacity as nat / 2,
            d.back_room() == capacity as nat - capacity as nat / 2,
    {
        let mut storage: Vec<Option<T>> = Vec::new();
        let mut i: usize = 0;
        while i < capacity
            invariant
                i <= capacity,
                storage@.len() == i,
                forall|j: int| 0 <= j < i ==> storage@[j] is None,
            decreases capacity - i,
        {
            storage.push(None);
            i = i + 1;
        }
        let mid = capacity / 2;
        let d = Deque { storage, head: mid, tail: mid, len: 0 };
        proof {
            assert(d@ =~= Seq::<T>::empty());
        }
        d
    }

    /// Creates an empty deque with `capacity` slots in the global
    /// allocator, centered like [`Deque::with_capacity`].
    pub fn new_in(capacity: usize) -> (d: Self)
        ensures
            d.wf(),
            d@ == Seq::<T>::empty(),
            d.capacity() == capacity,
            d.front_room() == capacity as nat / 2,
            d.back_room() == capacity as nat - capacity as nat / 2,
    {
        Self::with_capacity(capacity)
    }

    /// Number of live elements.
    pub fn len(&self) -> (n: usize)
        requires
            self.wf(),
        ensures
            n == self@.len(),
    {
        self.len
    }

    /// Number of slots in the backing block, as stored.
    pub fn capacity_slots(&self) -> (n: usize)
        requires
            self.wf(),
        ensures
            n == self.capacity(),
    {
        self.storage.len()
    }

    /// Front headroom that re-centering a live range of `len` elements in
    /// a block of `capacity` slots leaves before the front element.
    pub open spec fn centered_front_room(capacity: int, len: int) -> int {
        (capacity - len) / 2
    }

    /// Back headroom left by the same re-centering: the free slots that do
    /// not go to the front.
    pub open spec fn centered_back_room(capacity: int, len: int) -> int {
        capacity - len - (capacity - len) / 2
    }

    /// Reallocates to `new_capacity` slots and re-centers the live range
    /// around the new midpoint, preserving the elements and their order,
    /// so both push directions regain headroom proportional to the new
    /// capacity.
    pub fn resize(&mut self, new_capacity: usize)
        requires
            old(self).wf(),
            old(self)@.len() <= new_capacity,
        ensures
            final(self).wf(),
            final(self)@ == old(self)@,
            final(self).capacity() == new_capacity,
            final(self).front_room() == Self::centered_front_room(
                new_capacity as int,
                old(self)@.len() as int,
            ),
            final(self).back_room() == Self::centered_back_room(
                new_capacity as int,
                old(self)@.len() as int,
            ),
    {
        let len = self.len;
        let new_head = (new_capacity - len) / 2;
        let mut new_storage: Vec<Option<T>> = Vec::new();
        let mut i: usize = 0;
        while i < new_capacity
            invariant
                i <= new_capacity,
                new_storage@.len() == i,
                forall|j: int| 0 <= j < i ==> new_storage@[j] is None,
            decreases new_capacity - i,
        {
            new_storage.push(None);
            i = i + 1;
        }
        let mut k: usize = 0;
        while k < len
            invariant
                old(self).wf(),
                old(self)@.len() == len,
                k <= len,
                new_head + len <= new_capacity,
                self.head == old(self).head,
                self.len == len,
                self.storage@.len() == old(self).storage@.len(),
                forall|j: int|
                    k <= j < len ==> #[trigger] self.storage@[self.head + j]
                        == old(self).storage@[self.head + j],
                new_storage@.len() == new_capacity,
                forall|j: int| 0 <= j < k ==> new_storage@[new_head + j] == Some(old(self)@[j]),
                forall|j: int|
                    0 <= j < new_capacity && !(new_head <= j < new_head + k)
                        ==> new_storage@[j] is None,
            decreases len - k,
        {
            let mut taken: Option<T> = None;
            self.storage.set_and_swap(self.head + k, &mut taken);
            new_storage.set(new_head + k, taken);
            k = k + 1;
        }
        proof {
            assert forall|i: int|
                0 <= i < new_capacity implies (new_storage@[i] is Some <==> new_head <= i
                < new_head + len) by {
                if new_head <= i < new_head + len {
                    assert(new_storage@[new_head + (i - new_head)] == Some(
                        old(self)@[i - new_head],
                    ));
                }
            }
        }
        let ghost moved: Seq<Option<T>> = new_storage@;
        self.storage = new_storage;
        self.head = new_head;
        self.tail = new_head + len;
        proof {
            assert forall|j: int| 0 <= j < len implies self@[j] == old(self)@[j] by {
                assert(moved[new_head + j] == Some(old(self)@[j]));
            }
            assert(self@ =~= old(self)@);
        }
    }

    /// The capacity after a growth triggered by a push into a block of
    /// `cap` slots: the block doubles, with a floor of four slots so small
    /// blocks gain room at both ends at once, and a ceiling at the machine
    /// limit.
    pub open spec fn grown_capacity(cap: nat) -> nat {
        if cap < 2 {
            4
        } else if cap <= usize::MAX as nat / 2 {
            2 * cap
        } else {
            usize::MAX as nat
        }
    }

    /// Inserts `item` at the front; grows the block first when the front
    /// has no headroom.
    pub fn push_front(&mut self, item: T)
        requires
            old(self).wf(),
            old(self)@.len() <= usize::MAX - 2,
        ensures
            final(self).wf(),
            final(self)@ == seq![item] + old(self)@,
            old(self).front_room() > 0 ==> final(self).capacity() == old(self).capacity()
                && final(self).front_room() == old(self).front_room() - 1 && final(self).back_room() == old(self).back_room(),
            old(self).front_room() == 0 ==> final(self).capacity() == Self::grown_capacity(
                old(self).capacity(),
            ) && final(self).front_room() == Self::centered_front_room(
                Self::grown_capacity(old(self).capacity()) as int,
                old(self)@.len() as int,
            ) - 1 && final(self).back_room() == Self::centered_back_room(
                Self::grown_capacity(old(self).capacity()) as int,
                old(self)@.len() as int,
            ),
    {
        if self.head == 0 {
            let size = self.storage.len();
            let new_size = if size < 2 {
                4
            } else if size <= usize::MAX / 2 {
                2 * size
            } else {
                usize::MAX
            };
            self.resize(new_size);
        }
        let h = self.head - 1;
        self.storage.set(h, Some(item));
        self.head = h;
        self.len = self.len + 1;
        proof {
            assert(self@ =~= seq![item] + old(self)@);
        }
    }

    /// Inserts `item` at the back; grows the block first when the back has
    /// no headroom.
    pub fn push_back(&mut self, item: T)
        requires
            old(self).wf(),
            old(self)@.len() <= usize::MAX - 2,
        ensures
            final(self).wf(),
            final(self)@ == old(self)@.push(item),
            old(self).back_room() > 0 ==> final(self).capacity() == old(self).capacity()
                && final(self).back_room() == old(self).back_room() - 1 && final(self).front_room() == old(self).front_room(),
            old(self).back_room() == 0 ==> final(self).capacity() == Self::grown_capacity(
                old(self).capacity(),
            ) && final(self).back_room() == Self::centered_back_room(
                Self::grown_capacity(old(self).capacity()) as int,
                old(self)@.len() as int,
            ) - 1 && final(self).front_room() == Self::centered_front_room(
                Self::grown_capacity(old(self).capacity()) as int,
                old(self)@.len() as int,
            ),
    {
        if self.tail == self.storage.len() {
            let size = self.storage.len();
            let new_size = if size < 2 {
                4
            } else if size <= usize::MAX / 2 {
                2 * size
            } else {
                usize::MAX
            };
            self.resize(new_size);
        }
        let t = self.tail;
        self.storage.set(t, Some(item));
        self.tail = t + 1;
        self.len = self.len + 1;
        proof {
            assert(self@ =~= old(self)@.push(item));
        }
    }

    /// Removes and returns the front-most element, or `None` when the
    /// deque is empty; popping from an empty deque leaves it unchanged.
    pub fn pop_front(&mut self) -> (r: Option<T>)
        requires
            old(self).wf(),
        ensures
            final(self).wf(),
            final(self).capacity() == old(self).capacity(),
            old(self)@.len() == 0 ==> r is None && *final(self) == *old(self),
            old(self)@.len() > 0 ==> r == Some(old(self)@.first()) && final(self)@ == old(self)@.drop_first()
                && final(self).front_room() == old(self).front_room() + 1 && final(self).back_room() == old(self).back_room(),
    {
        if self.len == 0 {
            return None;
        }
        let h = self.head;
        let mut taken: Option<T> = None;
        self.storage.set_and_swap(h, &mut taken);
        self.head = h + 1;
        self.len = self.len - 1;
        proof {
            assert(self@ =~= old(self)@.drop_first());
        }
        Some(taken.unwrap())
    }

    /// Removes and returns the back-most element, or `None` when the deque
    /// is empty; popping from an empty deque leaves it unchanged.
    pub fn pop_back(&mut self) -> (r: Option<T>)
        requires
            old(self).wf(),
        ensures
            final(self).wf(),
            final(self).capacity() == old(self).capacity(),
            old(self)@.len() == 0 ==> r is None && *final(self) == *old(self),
            old(self)@.len() > 0 ==> r == Some(old(self)@.last()) && final(self)@ == old(self)@.drop_last()
                && final(self).back_room() == old(self).back_room() + 1 && final(self).front_room() == old(self).front_room(),
    {
        if self.len == 0 {
            return None;
        }
        let t = self.tail - 1;
        let mut taken: Option<T> = None;
        self.storage.set_and_swap(t, &mut taken);
        self.tail = t;
        self.len = self.len - 1;
        proof {
            assert(self@ =~= old(self)@.drop_last());
        }
        Some(taken.unwrap())
    }

    /// Borrows the `i`-th live element in front-to-back order, or `None`
    /// when `i` is out of range: the read-only view of the deque.
    pub fn get(&self, i: usize) -> (r: Option<&T>)
        requires
            self.wf(),
        ensures
            i < self@.len() ==> (r matches Some(x) && *x == self@[i as int]),
            i >= self@.len() ==> r is None,
    {
        if i < self.len {
            let slot: &Option<T> = &self.storage[self.head + i];
            match slot {
                Some(x) => Some(x),
                None => None,
            }
        } else {
            None
        }
    }
}

/// Deque contents after applying the pushes of `ops`, in order, to an
/// initially empty deque. An operation `(true, x)` is a front push and
/// restates the `ensures` of [`Deque::push_front`] (the contents gain `x`
/// at the front); `(false, x)` is a back push and restates the `ensures`
/// of [`Deque::push_back`] (the contents gain `x` at the back).
pub open spec fn contents_after_ops<T>(ops: Seq<(bool, T)>) -> Seq<T>
    decreases ops.len(),
{
    if ops.len() == 0 {
        Seq::empty()
    } else if ops.last().0 {
        seq![ops.last().1] + contents_after_ops(ops.drop_last())
    } else {
        contents_after_ops(ops.drop_last()).push(ops.last().1)
    }
}

/// The elements of `ops` pushed at the front, in push order.
pub open spec fn front_pushes<T>(ops: Seq<(bool, T)>) -> Seq<T>
    decreases ops.len(),
{
    if ops.len() == 0 {
        Seq::empty()
    } else if ops.last().0 {
        front_pushes(ops.drop_last()).push(ops.last().1)
    } else {
        front_pushes(ops.drop_last())
    }
}

/// The elements of `ops` pushed at the back, in push order.
pub open spec fn back_pushes<T>(ops: Seq<(bool, T)>) -> Seq<T>
    decreases ops.len(),
{
    if ops.len() == 0 {
        Seq::empty()
    } else if ops.last().0 {
        back_pushes(ops.drop_last())
    } else {
        back_pushes(ops.drop_last()).push(ops.last().1)
    }
}

/// Deque order: for any interleaving of front and back pushes into an
/// empty deque, the logical contents are the front-pushed elements in
/// reverse push order followed by the back-pushed elements in push order.
/// Together with the `ensures` of [`Deque::pop_front`] and
/// [`Deque::pop_back`] — which return the first and the last of the
/// contents — the pops at each end always yield the current front-most and
/// back-most element of that logical sequence.
pub proof fn lemma_deque_order<T>(ops: Seq<(bool, T)>)
    ensures
        contents_after_ops(ops) == front_pushes(ops).reverse() + back_pushes(ops),
    decreases ops.len(),
{
    if ops.len() == 0 {
        assert(contents_after_ops(ops) =~= front_pushes(ops).reverse() + back_pushes(ops));
    } else {
        lemma_deque_order(ops.drop_last());
        if ops.last().0 {
            assert(front_pushes(ops).reverse() =~= seq![ops.last().1] + front_pushes(
                ops.drop_last(),
            ).reverse());
            assert(contents_after_ops(ops) =~= front_pushes(ops).reverse() + back_pushes(ops));
        } else {
            assert(contents_after_ops(ops) =~= front_pushes(ops).reverse() + back_pushes(ops));
        }
    }
}

/// Drain law: growth never changes the contents (the `ensures` of
/// [`Deque::resize`], which every growing push goes through), so after the
/// pushes of `ops` — however many growth boundaries they cross — the deque
/// holds [`contents_after_ops`]`(ops)`; and by the `ensures` of
/// [`Deque::pop_front`], the `k`-th pop of a full front drain returns the
/// `k`-th element of those contents: every pushed element comes out
/// exactly once, in logical front-to-back order.
pub proof fn lemma_drain_front<T>(ops: Seq<(bool, T)>, k: int)
    requires
        0 <= k < contents_after_ops(ops).len(),
    ensures
        contents_after_ops(ops).skip(k).first() == contents_after_ops(ops)[k],
        contents_after_ops(ops).skip(k).drop_first() == contents_after_ops(ops).skip(k + 1),
{
    let c = contents_after_ops(ops);
    assert(c.skip(k).first() == c[k]);
    assert(c.skip(k).drop_first() =~= c.skip(k + 1));
}

impl<T> View for Deque<T> {
    type V = Seq<T>;

    /// The live elements in front-to-back order.
    closed spec fn view(&self) -> Seq<T> {
        Seq::new(self.len as nat, |k: int| self.storage@[self.head + k].unwrap())
    }
}

} // verus!
