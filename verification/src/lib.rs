//! Growable sequence containers that support logical clearing, truncation and
//! re-population of elements without dropping or deallocating the underlying
//! storage, so that expensive-to-construct element values (buffers, maps,
//! strings) can be recycled across iterations of a hot loop.
//!
//! [`ReusingVec`] is the stack-like container (push and pop at the back only);
//! [`ReusingQueue`] additionally supports removal from the front. Element
//! types opt into in-place recycling through the [`ReusableElement`] trait.

use vstd::prelude::*;

mod queue;

pub use queue::ReusingQueue;

verus! {

use std::collections::BTreeMap;
use std::collections::BTreeSet;
use std::collections::HashMap;
use std::collections::HashSet;
use std::collections::VecDeque;
use std::string::String;
use vstd::std_specs::cmp::PartialEqSpec;
use vstd::std_specs::convert::FromSpec;

/// The element-level condition under which the containers' executable
/// equality decides view equality: the element type's `==` must itself
/// decide value equality.
pub open spec fn elements_obey_eq<T: PartialEq>() -> bool {
    &&& T::obeys_eq_spec()
    &&& forall|x: &T, y: &T| #[trigger] x.eq_spec(y) <==> x == y
}

/// A wrapper around `Vec` that keeps a logical length separate from the
/// physical one. Elements past the logical length are "retired": still fully
/// constructed, never dropped by container operations, and available for
/// in-place reuse by a later push.
///
/// The abstract value of a `ReusingVec` (its view `@`) is the sequence of
/// live elements: the first `logical_len` slots of the backing storage. The
/// full physical storage, retired slots included, is exposed to
/// specifications through [`ReusingVec::storage`].
#[derive(Clone)]
pub struct ReusingVec<T> {
    logical_len: usize,
    contents: Vec<T>,
}

impl<T> View for ReusingVec<T> {
    type V = Seq<T>;

    /// The live window: the first `logical_len` elements of the storage.
    /// The length is clamped so that the view is a prefix of the storage
    /// for every syntactically possible value; for well-formed values the
    /// clamp never takes effect.
    closed spec fn view(&self) -> Seq<T> {
        let n = if self.logical_len as int <= self.contents@.len() {
            self.logical_len as int
        } else {
            self.contents@.len() as int
        };
        self.contents@.take(n)
    }
}

impl<T> ReusingVec<T> {
    /// The physical storage: live elements followed by retired ones.
    pub closed spec fn storage(&self) -> Seq<T> {
        self.contents@
    }

    /// The logical length never exceeds the physical one. Every constructor
    /// establishes this and every operation preserves it.
    pub closed spec fn wf(&self) -> bool {
        self.logical_len <= self.contents@.len()
    }

    /// The live window is the prefix of the storage of the view's length.
    pub proof fn lemma_view_is_storage_prefix(&self)
        requires
            self.wf(),
        ensures
            self@ == self.storage().take(self@.len() as int),
            self@.len() <= self.storage().len(),
    {
    }

    /// Create a new empty vector; does not allocate until the first element
    /// is added.
    pub fn new() -> (r: Self)
        ensures
            r.wf(),
            r@ == Seq::<T>::empty(),
            r.storage() == Seq::<T>::empty(),
    {
        Self { logical_len: 0, contents: Vec::new() }
    }

    /// Create a new empty vector with at least the given capacity
    /// preallocated. No elements are constructed.
    pub fn with_capacity(capacity: usize) -> (r: Self)
        ensures
            r.wf(),
            r@ == Seq::<T>::empty(),
            r.storage() == Seq::<T>::empty(),
    {
        Self { logical_len: 0, contents: Vec::with_capacity(capacity) }
    }

    /// Logically remove all values. The storage, and so every element in it,
    /// is untouched: nothing is dropped, and every slot is retired.
    pub fn clear(&mut self)
        ensures
            final(self).wf(),
            final(self)@ == Seq::<T>::empty(),
            final(self).storage() == old(self).storage(),
    {
        self.logical_len = 0;
        proof {
            assert(self@ =~= Seq::<T>::empty());
        }
    }

    /// Keep the first `len` elements and logically remove the rest. A `len`
    /// of at least the current logical length has no effect. The storage is
    /// untouched either way.
    pub fn truncate(&mut self, len: usize)
        requires
            old(self).wf(),
        ensures
            final(self).wf(),
            final(self).storage() == old(self).storage(),
            len < old(self)@.len() ==> final(self)@ == old(self)@.take(len as int),
            len >= old(self)@.len() ==> *final(self) == *old(self),
    {
        if len < self.logical_len {
            self.logical_len = len;
            proof {
                assert(self@ =~= old(self)@.take(len as int));
            }
        }
    }

    /// The number of live elements.
    pub fn len(&self) -> (r: usize)
        requires
            self.wf(),
        ensures
            r == self@.len(),
    {
        self.logical_len
    }

    /// Whether the vector has no live elements.
    pub fn is_empty(&self) -> (r: bool)
        requires
            self.wf(),
        ensures
            r == (self@.len() == 0),
    {
        self.logical_len == 0
    }

    /// Append `val` at the back. If a retired slot exists it is overwritten
    /// (dropping its old occupant as an ordinary assignment side effect);
    /// otherwise the storage grows by one. [`Self::push_with`] and
    /// [`Self::push_mut`] are the paths that never drop a retired value.
    pub fn push_val(&mut self, val: T)
        requires
            old(self).wf(),
            old(self)@.len() < usize::MAX,
        ensures
            final(self).wf(),
            final(self)@ == old(self)@.push(val),
            old(self)@.len() < old(self).storage().len() ==> final(self).storage()
                == old(self).storage().update(old(self)@.len() as int, val),
            old(self)@.len() == old(self).storage().len() ==> final(self).storage()
                == old(self).storage().push(val),
    {
        if self.logical_len < self.contents.len() {
            self.contents[self.logical_len] = val;
        } else {
            self.contents.push(val);
        }
        self.logical_len += 1;
        proof {
            assert(self@ =~= old(self)@.push(val));
            assert(old(self)@.len() < old(self).storage().len() ==> self.storage()
                =~= old(self).storage().update(old(self)@.len() as int, val));
        }
    }

    /// Append at the back, reinitializing a retired slot in place with
    /// `reset_f` when one exists, and constructing a fresh element with
    /// `new_f` only when the storage is full. Neither drops nor reallocates
    /// an existing element.
    pub fn push_with<NewF, ResetF>(&mut self, new_f: NewF, reset_f: ResetF)
        where
            NewF: FnOnce() -> T,
            ResetF: FnOnce(&mut T),
        requires
            old(self).wf(),
            old(self)@.len() < usize::MAX,
            old(self)@.len() == old(self).storage().len() ==> call_requires(new_f, ()),
            old(self)@.len() < old(self).storage().len() ==> forall|m: &mut T|
                mut_ref_current(m) == old(self).storage()[old(self)@.len() as int]
                    ==> call_requires(reset_f, (m,)),
        ensures
            final(self).wf(),
            final(self)@ == old(self)@.push(final(self)@.last()),
            final(self)@.len() == old(self)@.len() + 1,
            old(self)@.len() == old(self).storage().len() ==> {
                &&& call_ensures(new_f, (), final(self)@.last())
                &&& final(self).storage() == old(self).storage().push(final(self)@.last())
            },
            old(self)@.len() < old(self).storage().len() ==> {
                &&& final(self).storage() == old(self).storage().update(
                    old(self)@.len() as int,
                    final(self)@.last(),
                )
                &&& exists|m: &mut T|
                    {
                        &&& #[trigger] call_ensures(reset_f, (m,), ())
                        &&& mut_ref_current(m) == old(self).storage()[old(self)@.len() as int]
                        &&& mut_ref_future(m) == final(self)@.last()
                    }
            },
    {
        if self.logical_len < self.contents.len() {
            let slot = &mut self.contents[self.logical_len];
            reset_f(slot);
        } else {
            self.contents.push(new_f());
        }
        self.logical_len += 1;
        proof {
            assert(self@ =~= old(self)@.push(self@.last()));
            assert(old(self)@.len() < old(self).storage().len() ==> self.storage()
                =~= old(self).storage().update(old(self)@.len() as int, self@.last()));
        }
    }

    /// Remove the last live element. Returns a mutable view of the
    /// now-retired element, still holding whatever value it had, or `None`
    /// if the vector was already empty. The element is not cleared: it
    /// becomes available for reuse by the next push.
    pub fn pop(&mut self) -> (r: Option<&mut T>)
        requires
            old(self).wf(),
        ensures
            final(self).wf(),
            old(self)@.len() == 0 ==> r is None && *final(self) == *old(self),
            old(self)@.len() > 0 ==> {
                &&& r matches Some(p)
                &&& mut_ref_current(p) == old(self)@.last()
                &&& final(self)@ =~= old(self)@.drop_last()
                &&& final(self).storage() =~= old(self).storage().update(
                    old(self)@.len() - 1,
                    mut_ref_future(p),
                )
            },
    {
        if self.logical_len > 0 {
            self.logical_len -= 1;
            Some(&mut self.contents[self.logical_len])
        } else {
            None
        }
    }

    /// The live window's length, computed defensively so that no
    /// well-formedness hypothesis is needed; callers inside the crate use
    /// it where a trait signature leaves no room for a precondition.
    pub(crate) fn live_len(&self) -> (r: usize)
        ensures
            r == self@.len(),
    {
        if self.logical_len <= self.contents.len() {
            self.logical_len
        } else {
            self.contents.len()
        }
    }

    /// Read access into the live window. Indexing at or past the logical
    /// length is a caller contract violation, as for ordinary array
    /// indexing; retired slots can never be reached.
    pub fn get(&self, i: usize) -> (r: &T)
        requires
            i < self@.len(),
        ensures
            *r == self@[i as int],
    {
        &self.contents[i]
    }

    /// Write access into the live window. Indexing at or past the logical
    /// length is a caller contract violation; retired slots can never be
    /// reached.
    pub fn get_mut(&mut self, i: usize) -> (r: &mut T)
        requires
            old(self).wf(),
            i < old(self)@.len(),
        ensures
            final(self).wf(),
            *r == old(self)@[i as int],
            final(self)@ =~= old(self)@.update(i as int, *final(r)),
            final(self).storage() =~= old(self).storage().update(i as int, *final(r)),
    {
        &mut self.contents[i]
    }

    /// Treat an externally-supplied vector as a container whose elements
    /// are all live.
    pub fn from_vec(vec: Vec<T>) -> (r: Self)
        ensures
            r.wf(),
            r@ == vec@,
            r.storage() == vec@,
    {
        let logical_len = vec.len();
        let r = Self { logical_len, contents: vec };
        proof {
            assert(r@ =~= r.contents@);
        }
        r
    }

    /// Bulk ingestion for interop: each value is converted into the element
    /// type and appended, all elements becoming live. This path builds the
    /// container afresh and does not use retired slots.
    pub fn from_values<U>(values: Vec<U>) -> (r: Self)
        where
            T: From<U>,
        ensures
            r.wf(),
            r@.len() == values@.len(),
            r.storage() == r@,
            T::obeys_from_spec() ==> forall|i: int|
                0 <= i < values@.len() ==> #[trigger] r@[i] == T::from_spec(values@[i]),
    {
        let ghost all = values@;
        let mut rest = values;
        let mut contents: Vec<T> = Vec::new();
        while rest.len() > 0
            invariant
                contents@.len() + rest@.len() == all.len(),
                rest@ =~= all.subrange(contents@.len() as int, all.len() as int),
                T::obeys_from_spec() ==> forall|j: int|
                    0 <= j < contents@.len() ==> #[trigger] contents@[j] == T::from_spec(all[j]),
            decreases rest@.len(),
        {
            let converted = T::from(rest.remove(0));
            contents.push(converted);
            proof {
                assert(rest@ =~= all.subrange(contents@.len() as int, all.len() as int));
            }
        }
        let logical_len = contents.len();
        let r = Self { logical_len, contents };
        proof {
            assert(r@ =~= r.contents@);
        }
        r
    }

    /// Materialize exactly the live window as a plain vector, physically
    /// discarding the retired region, and hand ownership out.
    pub fn into_vec(self) -> (r: Vec<T>)
        requires
            self.wf(),
        ensures
            r@ == self@,
    {
        let ReusingVec { logical_len, mut contents } = self;
        contents.truncate(logical_len);
        proof {
            assert(contents@ =~= self@);
        }
        contents
    }
}

impl<T> Default for ReusingVec<T> {
    /// The default vector is empty, with no allocation.
    fn default() -> (r: Self)
        ensures
            r.wf(),
            r@ == Seq::<T>::empty(),
            r.storage() == Seq::<T>::empty(),
    {
        Self::new()
    }
}

impl<T: PartialEq> PartialEq for ReusingVec<T> {
    /// Equality compares only the live windows, element-wise and in order;
    /// retired-region content is ignored.
    fn eq(&self, other: &Self) -> (r: bool) {
        let n1 = if self.logical_len <= self.contents.len() {
            self.logical_len
        } else {
            self.contents.len()
        };
        let n2 = if other.logical_len <= other.contents.len() {
            other.logical_len
        } else {
            other.contents.len()
        };
        if n1 != n2 {
            proof {
                assert(self@.len() == n1 as int);
                assert(other@.len() == n2 as int);
            }
            return false;
        }
        let mut i: usize = 0;
        while i < n1
            invariant
                i <= n1,
                n1 == self@.len(),
                n1 == other@.len(),
                n1 <= self.contents@.len(),
                n1 <= other.contents@.len(),
                elements_obey_eq::<T>() ==> forall|j: int|
                    0 <= j < i ==> self@[j] == other@[j],
            decreases n1 - i,
        {
            if !(self.contents[i].eq(&other.contents[i])) {
                proof {
                    if elements_obey_eq::<T>() {
                        assert(self@[i as int] == self.contents@[i as int]);
                        assert(other@[i as int] == other.contents@[i as int]);
                        assert(self@ != other@);
                    }
                }
                return false;
            }
            i += 1;
        }
        proof {
            if elements_obey_eq::<T>() {
                assert(self@ =~= other@);
            }
        }
        true
    }
}

impl<T: PartialEq + Eq> Eq for ReusingVec<T> {}

impl<T: PartialEq> vstd::std_specs::cmp::PartialEqSpecImpl for ReusingVec<T> {
    /// The container's equality is faithful to the views exactly when the
    /// element type's equality decides value equality.
    open spec fn obeys_eq_spec() -> bool {
        elements_obey_eq::<T>()
    }

    open spec fn eq_spec(&self, other: &Self) -> bool {
        self@ == other@
    }
}

impl<T: PartialEq> PartialEq<Vec<T>> for ReusingVec<T> {
    /// Equality against a plain vector compares the live window with the
    /// whole vector.
    fn eq(&self, other: &Vec<T>) -> (r: bool) {
        let n1 = if self.logical_len <= self.contents.len() {
            self.logical_len
        } else {
            self.contents.len()
        };
        if n1 != other.len() {
            proof {
                assert(self@.len() == n1 as int);
            }
            return false;
        }
        let mut i: usize = 0;
        while i < n1
            invariant
                i <= n1,
                n1 == self@.len(),
                n1 == other@.len(),
                n1 <= self.contents@.len(),
                elements_obey_eq::<T>() ==> forall|j: int|
                    0 <= j < i ==> self@[j] == other@[j],
            decreases n1 - i,
        {
            if !(self.contents[i].eq(&other[i])) {
                proof {
                    if elements_obey_eq::<T>() {
                        assert(self@[i as int] == self.contents@[i as int]);
                        assert(self@ != other@);
                    }
                }
                return false;
            }
            i += 1;
        }
        proof {
            if elements_obey_eq::<T>() {
                assert(self@ =~= other@);
            }
        }
        true
    }
}

impl<T: PartialEq> vstd::std_specs::cmp::PartialEqSpecImpl<Vec<T>> for ReusingVec<T> {
    open spec fn obeys_eq_spec() -> bool {
        elements_obey_eq::<T>()
    }

    open spec fn eq_spec(&self, other: &Vec<T>) -> bool {
        self@ == other@
    }
}

impl<T: ReusableElement> ReusingVec<T> {
    /// Append an empty element at the back and return a mutable view of it
    /// for the caller to populate. A retired slot is reinitialized in place
    /// with [`ReusableElement::reset`]; only when the storage is full is a
    /// fresh element made with [`ReusableElement::new`].
    pub fn push_mut(&mut self) -> (r: &mut T)
        requires
            old(self).wf(),
            old(self)@.len() < usize::MAX,
        ensures
            final(self).wf(),
            (*r).is_fresh(),
            final(self)@ =~= old(self)@.push(*final(r)),
            old(self)@.len() < old(self).storage().len() ==> final(self).storage()
                =~= old(self).storage().update(old(self)@.len() as int, *final(r)),
            old(self)@.len() == old(self).storage().len() ==> final(self).storage()
                =~= old(self).storage().push(*final(r)),
    {
        if self.logical_len < self.contents.len() {
            let slot = &mut self.contents[self.logical_len];
            slot.reset();
            self.logical_len += 1;
            slot
        } else {
            self.contents.push(T::new());
            let slot = &mut self.contents[self.logical_len];
            self.logical_len += 1;
            slot
        }
    }
}

/// One mutation of a stack-like live window: a push at the back, or a pop
/// from the back.
pub enum StackOp<T> {
    Push(T),
    Pop,
}

/// The live window after one operation: a push appends its value; a pop
/// removes the last element, or does nothing when the window is already
/// empty.
pub open spec fn stack_step<T>(window: Seq<T>, op: StackOp<T>) -> Seq<T> {
    match op {
        StackOp::Push(v) => window.push(v),
        StackOp::Pop => if window.len() > 0 {
            window.drop_last()
        } else {
            window
        },
    }
}

/// The live window after a whole sequence of operations, applied in order.
pub open spec fn stack_run<T>(window: Seq<T>, ops: Seq<StackOp<T>>) -> Seq<T>
    decreases ops.len(),
{
    if ops.len() == 0 {
        window
    } else {
        stack_run(stack_step(window, ops.first()), ops.drop_first())
    }
}

/// The number of pushes in a sequence of operations.
pub open spec fn stack_pushes<T>(ops: Seq<StackOp<T>>) -> nat
    decreases ops.len(),
{
    if ops.len() == 0 {
        0
    } else {
        (if ops.first() is Push {
            1nat
        } else {
            0nat
        }) + stack_pushes(ops.drop_first())
    }
}

/// The number of pops that find a nonempty window when the operations are
/// applied in order, starting from `window`.
pub open spec fn stack_successful_pops<T>(window: Seq<T>, ops: Seq<StackOp<T>>) -> nat
    decreases ops.len(),
{
    if ops.len() == 0 {
        0
    } else {
        (if ops.first() is Pop && window.len() > 0 {
            1nat
        } else {
            0nat
        }) + stack_successful_pops(stack_step(window, ops.first()), ops.drop_first())
    }
}

/// After any sequence of push and pop operations the window's length is the
/// starting length, plus the number of pushes, minus the number of
/// successful pops; a pop of an empty window changes nothing, so the length
/// can never go below zero. [`ReusingVec::push_val`],
/// [`ReusingVec::push_with`], [`ReusingVec::push_mut`] and
/// [`ReusingVec::pop`] each ensure that the live window takes exactly one
/// [`stack_step`].
pub proof fn lemma_stack_len<T>(window: Seq<T>, ops: Seq<StackOp<T>>)
    ensures
        stack_run(window, ops).len() + stack_successful_pops(window, ops) == window.len()
            + stack_pushes(ops),
    decreases ops.len(),
{
    if ops.len() > 0 {
        lemma_stack_len(stack_step(window, ops.first()), ops.drop_first());
    }
}

/// The values pushed by a sequence of operations, in order.
pub open spec fn stack_pushed_values<T>(ops: Seq<StackOp<T>>) -> Seq<T>
    decreases ops.len(),
{
    if ops.len() == 0 {
        Seq::empty()
    } else {
        match ops.first() {
            StackOp::Push(v) => seq![v] + stack_pushed_values(ops.drop_first()),
            StackOp::Pop => stack_pushed_values(ops.drop_first()),
        }
    }
}

/// When no pops intervene, the live window after the operations is the
/// starting window with the pushed values appended, in push order —
/// whatever retired slots sit underneath, since the window alone
/// determines the outcome.
pub proof fn lemma_stack_pushes_in_order<T>(window: Seq<T>, ops: Seq<StackOp<T>>)
    requires
        forall|i: int| 0 <= i < ops.len() ==> ops[i] is Push,
    ensures
        stack_run(window, ops) == window + stack_pushed_values(ops),
    decreases ops.len(),
{
    if ops.len() == 0 {
        assert(stack_run(window, ops) =~= window + stack_pushed_values(ops));
    } else {
        assert(ops[0] is Push);
        assert forall|i: int| 0 <= i < ops.drop_first().len() implies ops.drop_first()[i]
            is Push by {
            assert(ops.drop_first()[i] == ops[i + 1]);
        }
        lemma_stack_pushes_in_order(stack_step(window, ops.first()), ops.drop_first());
        assert(stack_run(window, ops) =~= window + stack_pushed_values(ops));
    }
}

/// Round trip: converting a container to a plain vector and back
/// ([`ReusingVec::into_vec`], then [`ReusingVec::from_vec`]) reproduces the
/// same live window, in the same order; only the retired region and the
/// physical capacity are not preserved.
pub proof fn lemma_round_trip<T>(source: ReusingVec<T>, carrier: Vec<T>, rebuilt: ReusingVec<T>)
    requires
        source.wf(),
        carrier@ == source@,
        rebuilt@ == carrier@,
    ensures
        rebuilt@ == source@,
{
}

/// Clearing leaves the storage, and so every retired element, in place:
/// whenever the storage is nonempty, the next push finds a retired slot,
/// and [`ReusingVec::push_with`] and [`ReusingVec::push_mut`] then take the
/// reuse path (a reset in place, no fresh construction) by their contracts.
pub proof fn lemma_clear_leaves_slots_reusable<T>(before: ReusingVec<T>, after: ReusingVec<T>)
    requires
        after@.len() == 0,
        after.storage() == before.storage(),
        before.storage().len() > 0,
    ensures
        after@.len() < after.storage().len(),
{
}

/// Container equality is reflexive.
pub proof fn lemma_eq_reflexive<T: PartialEq>(v: &ReusingVec<T>)
    ensures
        v.eq_spec(v),
{
}

/// Container equality is symmetric.
pub proof fn lemma_eq_symmetric<T: PartialEq>(a: &ReusingVec<T>, b: &ReusingVec<T>)
    ensures
        a.eq_spec(b) <==> b.eq_spec(a),
{
}

/// Container equality ignores retired-region content: any two containers
/// with identical live windows are equal, whatever push/pop history
/// produced them and whatever their retired slots hold.
pub proof fn lemma_eq_ignores_retired<T: PartialEq>(a: &ReusingVec<T>, b: &ReusingVec<T>)
    requires
        a@ == b@,
    ensures
        a.eq_spec(b),
{
}

/// A unified interface for element types that can be recycled in place:
/// `reset` restores an existing value to the state that `new` constructs
/// from nothing. The two must be observably equivalent, which each
/// implementation pins down with the `is_fresh` predicate.
pub trait ReusableElement: Sized {
    /// The "freshly constructed" states: `reset` must reach one, and `new`
    /// must produce one. Implementations that give no characterisation
    /// inherit the default, which claims nothing: it holds of every state.
    open spec fn is_fresh(&self) -> bool {
        true
    }

    /// Restore the value to a freshly-constructed-equivalent state, without
    /// dropping it or allocating a replacement.
    fn reset(&mut self)
        ensures
            final(self).is_fresh(),
    ;

    /// Construct the fresh state from nothing.
    fn new() -> (r: Self)
        ensures
            r.is_fresh(),
    ;
}

impl<T> ReusableElement for Option<T> {
    open spec fn is_fresh(&self) -> bool {
        self is None
    }

    fn reset(&mut self) {
        *self = None;
    }

    fn new() -> Self {
        None
    }
}

impl<T> ReusableElement for Vec<T> {
    open spec fn is_fresh(&self) -> bool {
        self@ == Seq::<T>::empty()
    }

    fn reset(&mut self) {
        self.clear();
    }

    fn new() -> Self {
        Self::new()
    }
}

/// Relies on `String::clear`: it truncates the string to length zero,
/// keeping the allocation.
#[verifier::external_body]
fn string_clear(s: &mut String)
    ensures
        final(s)@ == Seq::<char>::empty(),
{
    s.clear()
}

impl ReusableElement for String {
    open spec fn is_fresh(&self) -> bool {
        self@ == Seq::<char>::empty()
    }

    fn reset(&mut self) {
        string_clear(self);
    }

    fn new() -> Self {
        Self::new()
    }
}

impl<T> ReusableElement for VecDeque<T> {
    open spec fn is_fresh(&self) -> bool {
        self@ == Seq::<T>::empty()
    }

    fn reset(&mut self) {
        self.clear();
    }

    fn new() -> Self {
        Self::new()
    }
}

impl<K, V> ReusableElement for BTreeMap<K, V> {
    open spec fn is_fresh(&self) -> bool {
        self@ == Map::<K, V>::empty()
    }

    fn reset(&mut self) {
        self.clear();
    }

    fn new() -> Self {
        Self::new()
    }
}

impl<K> ReusableElement for BTreeSet<K> {
    open spec fn is_fresh(&self) -> bool {
        self@ == Set::<K>::empty()
    }

    fn reset(&mut self) {
        self.clear();
    }

    fn new() -> Self {
        Self::new()
    }
}

impl<K, V> ReusableElement for HashMap<K, V> {
    open spec fn is_fresh(&self) -> bool {
        self@ == Map::<K, V>::empty()
    }

    fn reset(&mut self) {
        self.clear();
    }

    fn new() -> Self {
        Self::new()
    }
}

impl<K> ReusableElement for HashSet<K> {
    open spec fn is_fresh(&self) -> bool {
        self@ == Set::<K>::empty()
    }

    fn reset(&mut self) {
        self.clear();
    }

    fn new() -> Self {
        Self::new()
    }
}

} // verus!
