//! The double-ended sibling of `ReusingVec`: a live window with two movable
//! markers, supporting removal from the front as well as the back.

use vstd::prelude::*;

verus! {

use crate::ReusableElement;
use crate::ReusingVec;
use crate::elements_obey_eq;
use vstd::std_specs::cmp::PartialEqSpec;
use vstd::std_specs::convert::FromSpec;

/// A structure similar to [`ReusingVec`](crate::ReusingVec), but with
/// support for a [`pop_front`](Self::pop_front) operation.
///
/// The live window is the contiguous range of the backing storage between
/// two markers. Slots on either side of the window are retired: fully
/// constructed, never dropped by container operations. Whenever the window
/// becomes empty both markers collapse to zero, so the window cannot drift
/// forward without bound and the trailing storage stays reusable.
#[derive(Clone)]
pub struct ReusingQueue<T> {
    logical_start: usize,
    logical_end: usize,
    contents: Vec<T>,
}

impl<T> View for ReusingQueue<T> {
    type V = Seq<T>;

    /// The live window of the storage. The bounds are clamped so that the
    /// view is a well-defined subrange for every syntactically possible
    /// value; for well-formed values the clamp never takes effect.
    closed spec fn view(&self) -> Seq<T> {
        let n = self.contents@.len() as int;
        let e = if self.logical_end as int <= n {
            self.logical_end as int
        } else {
            n
        };
        let s = if self.logical_start as int <= e {
            self.logical_start as int
        } else {
            e
        };
        self.contents@.subrange(s, e)
    }
}

impl<T> ReusingQueue<T> {
    /// The physical storage: retired slots, then the live window, then more
    /// retired slots.
    pub closed spec fn storage(&self) -> Seq<T> {
        self.contents@
    }

    /// The physical index of the first live element.
    pub closed spec fn window_start(&self) -> int {
        self.logical_start as int
    }

    /// The physical index one past the last live element.
    pub closed spec fn window_end(&self) -> int {
        self.logical_end as int
    }

    /// The markers delimit a window of the storage, and collapse to zero
    /// whenever the window is empty. Every constructor establishes this and
    /// every operation preserves it.
    pub closed spec fn wf(&self) -> bool {
        &&& self.logical_start <= self.logical_end
        &&& self.logical_end <= self.contents@.len()
        &&& self.logical_start == self.logical_end ==> self.logical_start == 0
    }

    /// The live window is the subrange of the storage between the markers.
    pub proof fn lemma_view_is_storage_window(&self)
        requires
            self.wf(),
        ensures
            self@ == self.storage().subrange(self.window_start(), self.window_end()),
            self@.len() == self.window_end() - self.window_start(),
            self.window_end() <= self.storage().len(),
    {
    }

    /// Create a new empty queue; does not allocate until the first element
    /// is added.
    pub fn new() -> (r: Self)
        ensures
            r.wf(),
            r@ == Seq::<T>::empty(),
            r.storage() == Seq::<T>::empty(),
            r.window_start() == 0,
            r.window_end() == 0,
    {
        Self { logical_start: 0, logical_end: 0, contents: Vec::new() }
    }

    /// Create a new empty queue with at least the given capacity
    /// preallocated. No elements are constructed.
    pub fn with_capacity(capacity: usize) -> (r: Self)
        ensures
            r.wf(),
            r@ == Seq::<T>::empty(),
            r.storage() == Seq::<T>::empty(),
            r.window_start() == 0,
            r.window_end() == 0,
    {
        Self { logical_start: 0, logical_end: 0, contents: Vec::with_capacity(capacity) }
    }

    /// Logically remove all values and collapse both markers to zero. The
    /// storage, and so every element in it, is untouched: nothing is
    /// dropped, and every slot is retired.
    pub fn clear(&mut self)
        ensures
            final(self).wf(),
            final(self)@ == Seq::<T>::empty(),
            final(self).storage() == old(self).storage(),
            final(self).window_start() == 0,
            final(self).window_end() == 0,
    {
        self.logical_start = 0;
        self.logical_end = 0;
        proof {
            assert(self@ =~= Seq::<T>::empty());
        }
    }

    /// Keep the first `len` elements of the window and logically remove the
    /// rest, shrinking from the back only. Truncating to zero is identical
    /// to [`Self::clear`] and collapses both markers; a `len` of at least
    /// the window's length has no effect. The storage is untouched.
    pub fn truncate(&mut self, len: usize)
        requires
            old(self).wf(),
        ensures
            final(self).wf(),
            final(self).storage() == old(self).storage(),
            len == 0 ==> final(self)@ == Seq::<T>::empty() && final(self).window_start() == 0
                && final(self).window_end() == 0,
            0 < len < old(self)@.len() ==> {
                &&& final(self)@ == old(self)@.take(len as int)
                &&& final(self).window_start() == old(self).window_start()
                &&& final(self).window_end() == old(self).window_start() + len
            },
            len >= old(self)@.len() ==> *final(self) == *old(self),
    {
        if len == 0 {
            self.logical_start = 0;
            self.logical_end = 0;
            proof {
                assert(self@ =~= Seq::<T>::empty());
            }
        } else {
            if len < self.logical_end - self.logical_start {
                self.logical_end = self.logical_start + len;
                proof {
                    assert(self@ =~= old(self)@.take(len as int));
                }
            }
        }
    }

    /// The number of live elements.
    pub fn len(&self) -> (r: usize)
        requires
            self.wf(),
        ensures
            r == self@.len(),
    {
        self.logical_end - self.logical_start
    }

    /// Whether the queue has no live elements.
    pub fn is_empty(&self) -> (r: bool)
        requires
            self.wf(),
        ensures
            r == (self@.len() == 0),
    {
        self.len() == 0
    }

    /// Append at the back of the window, reinitializing the retired slot at
    /// the window's end in place with `reset_f` when one exists, and
    /// constructing a fresh element with `new_f` only when the window ends
    /// at the end of the storage. Neither drops nor reallocates an existing
    /// element. Retired slots in front of the window are not touched; they
    /// become reusable once the window collapses.
    pub fn push_with<NewF, ResetF>(&mut self, new_f: NewF, reset_f: ResetF)
        where
            NewF: FnOnce() -> T,
            ResetF: FnOnce(&mut T),
        requires
            old(self).wf(),
            old(self).window_end() < usize::MAX,
            old(self).window_end() == old(self).storage().len() ==> call_requires(new_f, ()),
            old(self).window_end() < old(self).storage().len() ==> forall|m: &mut T|
                mut_ref_current(m) == old(self).storage()[old(self).window_end()]
                    ==> call_requires(reset_f, (m,)),
        ensures
            final(self).wf(),
            final(self)@ == old(self)@.push(final(self)@.last()),
            final(self)@.len() == old(self)@.len() + 1,
            final(self).window_start() == old(self).window_start(),
            final(self).window_end() == old(self).window_end() + 1,
            old(self).window_end() == old(self).storage().len() ==> {
                &&& call_ensures(new_f, (), final(self)@.last())
                &&& final(self).storage() == old(self).storage().push(final(self)@.last())
            },
            old(self).window_end() < old(self).storage().len() ==> {
                &&& final(self).storage() == old(self).storage().update(
                    old(self).window_end(),
                    final(self)@.last(),
                )
                &&& exists|m: &mut T|
                    {
                        &&& #[trigger] call_ensures(reset_f, (m,), ())
                        &&& mut_ref_current(m) == old(self).storage()[old(self).window_end()]
                        &&& mut_ref_future(m) == final(self)@.last()
                    }
            },
    {
        if self.logical_end < self.contents.len() {
            let slot = &mut self.contents[self.logical_end];
            reset_f(slot);
        } else {
            self.contents.push(new_f());
        }
        self.logical_end += 1;
        proof {
            assert(self@ =~= old(self)@.push(self@.last()));
            assert(old(self).window_end() < old(self).storage().len() ==> self.storage()
                =~= old(self).storage().update(old(self).window_end(), self@.last()));
        }
    }

    /// Remove the last element of the window. Returns a mutable view of the
    /// now-retired element, still holding whatever value it had, or `None`
    /// if the window was already empty. If the removal empties the window,
    /// both markers collapse to zero.
    pub fn pop(&mut self) -> (r: Option<&mut T>)
        requires
            old(self).wf(),
        ensures
            final(self).wf(),
            old(self)@.len() == 0 ==> r is None && *final(self) == *old(self),
            old(self)@.len() > 0 ==> {
                &&& r matches Some(p)
                &&& mut_ref_current(p) == old(self)@.last()
                &&& final(self)@ =~= old(self)@.drop_last()
                &&& final(self).storage() =~= old(self).storage().update(
                    old(self).window_end() - 1,
                    mut_ref_future(p),
                )
                &&& final(self).window_start() == if old(self)@.len() == 1 {
                    0int
                } else {
                    old(self).window_start()
                }
                &&& final(self).window_end() == if old(self)@.len() == 1 {
                    0int
                } else {
                    old(self).window_end() - 1
                }
            },
    {
        if self.logical_end > self.logical_start {
            self.logical_end -= 1;
            let old_idx = self.logical_end;
            if self.logical_end == self.logical_start {
                self.logical_start = 0;
                self.logical_end = 0;
            }
            Some(&mut self.contents[old_idx])
        } else {
            None
        }
    }

    /// Remove the first element of the window. Returns a mutable view of
    /// the now-retired element, still holding whatever value it had, or
    /// `None` if the window was already empty. If the removal empties the
    /// window, both markers collapse to zero.
    pub fn pop_front(&mut self) -> (r: Option<&mut T>)
        requires
            old(self).wf(),
        ensures
            final(self).wf(),
            old(self)@.len() == 0 ==> r is None && *final(self) == *old(self),
            old(self)@.len() > 0 ==> {
                &&& r matches Some(p)
                &&& mut_ref_current(p) == old(self)@.first()
                &&& final(self)@ =~= old(self)@.drop_first()
                &&& final(self).storage() =~= old(self).storage().update(
                    old(self).window_start(),
                    mut_ref_future(p),
                )
                &&& final(self).window_start() == if old(self)@.len() == 1 {
                    0int
                } else {
                    old(self).window_start() + 1
                }
                &&& final(self).window_end() == if old(self)@.len() == 1 {
                    0int
                } else {
                    old(self).window_end()
                }
            },
    {
        if self.logical_end > self.logical_start {
            let old_idx = self.logical_start;
            self.logical_start += 1;
            if self.logical_end == self.logical_start {
                self.logical_start = 0;
                self.logical_end = 0;
            }
            Some(&mut self.contents[old_idx])
        } else {
            None
        }
    }

    /// The live window's length, computed defensively so that no
    /// well-formedness hypothesis is needed; callers inside the crate use
    /// it where a trait signature leaves no room for a precondition.
    pub(crate) fn live_len(&self) -> (r: usize)
        ensures
            r == self@.len(),
    {
        let e = if self.logical_end <= self.contents.len() {
            self.logical_end
        } else {
            self.contents.len()
        };
        let s = if self.logical_start <= e {
            self.logical_start
        } else {
            e
        };
        e - s
    }

    /// Read access into the live window. Indexing at or past the window's
    /// length is a caller contract violation, as for ordinary array
    /// indexing; retired slots can never be reached.
    pub fn get(&self, i: usize) -> (r: &T)
        requires
            i < self@.len(),
        ensures
            *r == self@[i as int],
    {
        &self.contents[self.logical_start + i]
    }

    /// Write access into the live window. Indexing at or past the window's
    /// length is a caller contract violation; retired slots can never be
    /// reached.
    pub fn get_mut(&mut self, i: usize) -> (r: &mut T)
        requires
            old(self).wf(),
            i < old(self)@.len(),
        ensures
            final(self).wf(),
            *r == old(self)@[i as int],
            final(self)@ =~= old(self)@.update(i as int, *final(r)),
            final(self).storage() =~= old(self).storage().update(
                old(self).window_start() + i,
                *final(r),
            ),
            final(self).window_start() == old(self).window_start(),
            final(self).window_end() == old(self).window_end(),
    {
        &mut self.contents[self.logical_start + i]
    }

    /// Treat an externally-supplied vector as a queue whose elements are
    /// all live.
    pub fn from_vec(vec: Vec<T>) -> (r: Self)
        ensures
            r.wf(),
            r@ == vec@,
            r.storage() == vec@,
            r.window_start() == 0,
            r.window_end() == vec@.len(),
    {
        let logical_end = vec.len();
        let r = Self { logical_start: 0, logical_end, contents: vec };
        proof {
            assert(r@ =~= r.contents@);
        }
        r
    }

    /// Bulk ingestion for interop: each value is converted into the element
    /// type and appended, all elements becoming live. This path builds the
    /// queue afresh and does not use retired slots.
    pub fn from_values<U>(values: Vec<U>) -> (r: Self)
        where
            T: From<U>,
        ensures
            r.wf(),
            r@.len() == values@.len(),
            r.storage() == r@,
            r.window_start() == 0,
            r.window_end() == r@.len(),
            T::obeys_from_spec() ==> forall|i: int|
                0 <= i < values@.len() ==> #[trigger] r@[i] == T::from_spec(values@[i]),
    {
        let ghost all = values@;
        let mut rest = values;
        let mut contents: Vec<T> = Vec::new();
        while rest.len() > 0
            invariant
                contents@.len() + rest@.len() == all.len(),
                rest@ =~= all.subrange(contents@.len() as int, all.len() as int),
                T::obeys_from_spec() ==> forall|j: int|
                    0 <= j < contents@.len() ==> #[trigger] contents@[j] == T::from_spec(all[j]),
            decreases rest@.len(),
        {
            let converted = T::from(rest.remove(0));
            contents.push(converted);
            proof {
                assert(rest@ =~= all.subrange(contents@.len() as int, all.len() as int));
            }
        }
        let logical_end = contents.len();
        let r = Self { logical_start: 0, logical_end, contents };
        proof {
            assert(r@ =~= r.contents@);
        }
        r
    }

    /// Materialize exactly the live window as a plain vector, physically
    /// discarding the retired regions on both sides, and hand ownership
    /// out.
    pub fn into_vec(self) -> (r: Vec<T>)
        requires
            self.wf(),
        ensures
            r@ == self@,
    {
        let ReusingQueue { logical_start, logical_end, mut contents } = self;
        contents.truncate(logical_end);
        let mut i: usize = 0;
        while i < logical_start
            invariant
                i <= logical_start,
                logical_start <= logical_end,
                logical_end <= self.storage().len(),
                contents@ =~= self.storage().subrange(i as int, logical_end as int),
            decreases logical_start - i,
        {
            contents.remove(0);
            proof {
                assert(contents@ =~= self.storage().subrange(i + 1, logical_end as int));
            }
            i += 1;
        }
        proof {
            assert(contents@ =~= self@);
        }
        contents
    }
}

impl<T> Default for ReusingQueue<T> {
    /// The default queue is empty, with no allocation.
    fn default() -> (r: Self)
        ensures
            r.wf(),
            r@ == Seq::<T>::empty(),
            r.storage() == Seq::<T>::empty(),
            r.window_start() == 0,
            r.window_end() == 0,
    {
        Self::new()
    }
}

impl<T: PartialEq> PartialEq for ReusingQueue<T> {
    /// Equality compares only the live windows, element-wise and in order;
    /// retired-region content on either side of a window is ignored.
    fn eq(&self, other: &Self) -> (r: bool) {
        let n1 = self.live_len();
        let n2 = other.live_len();
        if n1 != n2 {
            return false;
        }
        let mut i: usize = 0;
        while i < n1
            invariant
                i <= n1,
                n1 == self@.len(),
                n1 == other@.len(),
                elements_obey_eq::<T>() ==> forall|j: int|
                    0 <= j < i ==> self@[j] == other@[j],
            decreases n1 - i,
        {
            if !(self.get(i).eq(other.get(i))) {
                proof {
                    if elements_obey_eq::<T>() {
                        assert(self@ != other@);
                    }
                }
                return false;
            }
            i += 1;
        }
        proof {
            if elements_obey_eq::<T>() {
                assert(self@ =~= other@);
            }
        }
        true
    }
}

impl<T: PartialEq + Eq> Eq for ReusingQueue<T> {}

impl<T: PartialEq> vstd::std_specs::cmp::PartialEqSpecImpl for ReusingQueue<T> {
    open spec fn obeys_eq_spec() -> bool {
        elements_obey_eq::<T>()
    }

    open spec fn eq_spec(&self, other: &Self) -> bool {
        self@ == other@
    }
}

impl<T: PartialEq> PartialEq<Vec<T>> for ReusingQueue<T> {
    /// Equality against a plain vector compares the live window with the
    /// whole vector.
    fn eq(&self, other: &Vec<T>) -> (r: bool) {
        let n1 = self.live_len();
        if n1 != other.len() {
            return false;
        }
        let mut i: usize = 0;
        while i < n1
            invariant
                i <= n1,
                n1 == self@.len(),
                n1 == other@.len(),
                elements_obey_eq::<T>() ==> forall|j: int|
                    0 <= j < i ==> self@[j] == other@[j],
            decreases n1 - i,
        {
            if !(self.get(i).eq(&other[i])) {
                proof {
                    if elements_obey_eq::<T>() {
                        assert(self@ != other@);
                    }
                }
                return false;
            }
            i += 1;
        }
        proof {
            if elements_obey_eq::<T>() {
                assert(self@ =~= other@);
            }
        }
        true
    }
}

impl<T: PartialEq> vstd::std_specs::cmp::PartialEqSpecImpl<Vec<T>> for ReusingQueue<T> {
    open spec fn obeys_eq_spec() -> bool {
        elements_obey_eq::<T>()
    }

    open spec fn eq_spec(&self, other: &Vec<T>) -> bool {
        self@ == other@
    }
}

impl<T: PartialEq> PartialEq<ReusingVec<T>> for ReusingQueue<T> {
    /// Equality between the two container kinds compares their live
    /// windows only.
    fn eq(&self, other: &ReusingVec<T>) -> (r: bool) {
        let n1 = self.live_len();
        if n1 != other.live_len() {
            return false;
        }
        let mut i: usize = 0;
        while i < n1
            invariant
                i <= n1,
                n1 == self@.len(),
                n1 == other@.len(),
                elements_obey_eq::<T>() ==> forall|j: int|
                    0 <= j < i ==> self@[j] == other@[j],
            decreases n1 - i,
        {
            if !(self.get(i).eq(other.get(i))) {
                proof {
                    if elements_obey_eq::<T>() {
                        assert(self@ != other@);
                    }
                }
                return false;
            }
            i += 1;
        }
        proof {
            if elements_obey_eq::<T>() {
                assert(self@ =~= other@);
            }
        }
        true
    }
}

impl<T: PartialEq> vstd::std_specs::cmp::PartialEqSpecImpl<ReusingVec<T>> for ReusingQueue<T> {
    open spec fn obeys_eq_spec() -> bool {
        elements_obey_eq::<T>()
    }

    open spec fn eq_spec(&self, other: &ReusingVec<T>) -> bool {
        self@ == other@
    }
}

/// One mutation of a double-ended live window: a push at the back, a pop
/// from the back, or a pop from the front.
pub enum QueueOp<T> {
    Push(T),
    PopBack,
    PopFront,
}

/// The live window after one operation: a push appends its value; either
/// pop removes from its end of the window, or does nothing when the window
/// is already empty.
pub open spec fn queue_step<T>(window: Seq<T>, op: QueueOp<T>) -> Seq<T> {
    match op {
        QueueOp::Push(v) => window.push(v),
        QueueOp::PopBack => if window.len() > 0 {
            window.drop_last()
        } else {
            window
        },
        QueueOp::PopFront => if window.len() > 0 {
            window.drop_first()
        } else {
            window
        },
    }
}

/// The live window after a whole sequence of operations, applied in order.
pub open spec fn queue_run<T>(window: Seq<T>, ops: Seq<QueueOp<T>>) -> Seq<T>
    decreases ops.len(),
{
    if ops.len() == 0 {
        window
    } else {
        queue_run(queue_step(window, ops.first()), ops.drop_first())
    }
}

/// The number of pushes in a sequence of operations.
pub open spec fn queue_pushes<T>(ops: Seq<QueueOp<T>>) -> nat
    decreases ops.len(),
{
    if ops.len() == 0 {
        0
    } else {
        (if ops.first() is Push {
            1nat
        } else {
            0nat
        }) + queue_pushes(ops.drop_first())
    }
}

/// The number of pops, from either end, that find a nonempty window when
/// the operations are applied in order, starting from `window`.
pub open spec fn queue_successful_pops<T>(window: Seq<T>, ops: Seq<QueueOp<T>>) -> nat
    decreases ops.len(),
{
    if ops.len() == 0 {
        0
    } else {
        (if !(ops.first() is Push) && window.len() > 0 {
            1nat
        } else {
            0nat
        }) + queue_successful_pops(queue_step(window, ops.first()), ops.drop_first())
    }
}

/// After any sequence of push and pop operations the window's length is the
/// starting length, plus the number of pushes, minus the number of
/// successful pops; a pop of an empty window changes nothing, so the length
/// can never go below zero. [`ReusingQueue::push_with`],
/// [`ReusingQueue::push_mut`], [`ReusingQueue::pop`] and
/// [`ReusingQueue::pop_front`] each ensure that the live window takes
/// exactly one [`queue_step`].
pub proof fn lemma_queue_len<T>(window: Seq<T>, ops: Seq<QueueOp<T>>)
    ensures
        queue_run(window, ops).len() + queue_successful_pops(window, ops) == window.len()
            + queue_pushes(ops),
    decreases ops.len(),
{
    if ops.len() > 0 {
        lemma_queue_len(queue_step(window, ops.first()), ops.drop_first());
    }
}

/// The values pushed by a sequence of operations, in order.
pub open spec fn queue_pushed_values<T>(ops: Seq<QueueOp<T>>) -> Seq<T>
    decreases ops.len(),
{
    if ops.len() == 0 {
        Seq::empty()
    } else {
        match ops.first() {
            QueueOp::Push(v) => seq![v] + queue_pushed_values(ops.drop_first()),
            QueueOp::PopBack => queue_pushed_values(ops.drop_first()),
            QueueOp::PopFront => queue_pushed_values(ops.drop_first()),
        }
    }
}

/// When no pops intervene, the live window after the operations is the
/// starting window with the pushed values appended, in push order —
/// whatever retired slots sit on either side, since the window alone
/// determines the outcome.
pub proof fn lemma_queue_pushes_in_order<T>(window: Seq<T>, ops: Seq<QueueOp<T>>)
    requires
        forall|i: int| 0 <= i < ops.len() ==> ops[i] is Push,
    ensures
        queue_run(window, ops) == window + queue_pushed_values(ops),
    decreases ops.len(),
{
    if ops.len() == 0 {
        assert(queue_run(window, ops) =~= window + queue_pushed_values(ops));
    } else {
        assert(ops[0] is Push);
        assert forall|i: int| 0 <= i < ops.drop_first().len() implies ops.drop_first()[i]
            is Push by {
            assert(ops.drop_first()[i] == ops[i + 1]);
        }
        lemma_queue_pushes_in_order(queue_step(window, ops.first()), ops.drop_first());
        assert(queue_run(window, ops) =~= window + queue_pushed_values(ops));
    }
}

/// The collapse invariant: whenever the live window is empty, both markers
/// equal zero, so the next push fills the storage from physical index zero
/// (see the storage clauses of [`ReusingQueue::push_with`] and
/// [`ReusingQueue::push_mut`]).
pub proof fn lemma_empty_window_collapsed<T>(q: &ReusingQueue<T>)
    requires
        q.wf(),
        q@.len() == 0,
    ensures
        q.window_start() == 0,
        q.window_end() == 0,
{
}

/// Round trip: converting a queue to a plain vector and back
/// ([`ReusingQueue::into_vec`], then [`ReusingQueue::from_vec`]) reproduces
/// the same live window, in the same order; only the retired regions and
/// the physical capacity are not preserved.
pub proof fn lemma_queue_round_trip<T>(
    source: ReusingQueue<T>,
    carrier: Vec<T>,
    rebuilt: ReusingQueue<T>,
)
    requires
        source.wf(),
        carrier@ == source@,
        rebuilt@ == carrier@,
    ensures
        rebuilt@ == source@,
{
}

/// Queue equality is reflexive.
pub proof fn lemma_queue_eq_reflexive<T: PartialEq>(q: &ReusingQueue<T>)
    ensures
        q.eq_spec(q),
{
}

/// Queue equality is symmetric.
pub proof fn lemma_queue_eq_symmetric<T: PartialEq>(a: &ReusingQueue<T>, b: &ReusingQueue<T>)
    ensures
        a.eq_spec(b) <==> b.eq_spec(a),
{
}

/// Queue equality ignores retired-region content: any two queues with
/// identical live windows are equal, whatever push/pop history produced
/// them and whatever the retired slots on either side of their windows
/// hold.
pub proof fn lemma_queue_eq_ignores_retired<T: PartialEq>(a: &ReusingQueue<T>, b: &ReusingQueue<T>)
    requires
        a@ == b@,
    ensures
        a.eq_spec(b),
{
}

impl<T: ReusableElement> ReusingQueue<T> {
    /// Append an empty element at the back of the window and return a
    /// mutable view of it for the caller to populate. The retired slot at
    /// the window's end is reinitialized in place with
    /// [`ReusableElement::reset`]; only when the window ends at the end of
    /// the storage is a fresh element made with [`ReusableElement::new`].
    pub fn push_mut(&mut self) -> (r: &mut T)
        requires
            old(self).wf(),
            old(self).window_end() < usize::MAX,
        ensures
            final(self).wf(),
            (*r).is_fresh(),
            final(self)@ =~= old(self)@.push(*final(r)),
            final(self).window_start() == old(self).window_start(),
            final(self).window_end() == old(self).window_end() + 1,
            old(self).window_end() < old(self).storage().len() ==> final(self).storage()
                =~= old(self).storage().update(old(self).window_end(), *final(r)),
            old(self).window_end() == old(self).storage().len() ==> final(self).storage()
                =~= old(self).storage().push(*final(r)),
    {
        if self.logical_end < self.contents.len() {
            let slot = &mut self.contents[self.logical_end];
            slot.reset();
            self.logical_end += 1;
            slot
        } else {
            self.contents.push(T::new());
            let slot = &mut self.contents[self.logical_end];
            self.logical_end += 1;
            slot
        }
    }
}

} // verus!
