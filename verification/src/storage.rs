//! A growable sequence container with two storage representations.
//!
//! A [`LocalStorageVec`] begins life with its elements stored in a
//! fixed-capacity inline buffer of `N` slots. The first mutation that
//! would exceed that capacity promotes the container to a heap-backed
//! `Vec`; the promotion is a one-way transition and preserves the order
//! of the elements. All operations are specified against the logical
//! sequence of live elements, available as the view `self@`.

use vstd::prelude::*;

verus! {

use core::ops::Range;
use core::ops::RangeFrom;
use core::ops::RangeTo;

/// Declares `core::ops::RangeTo` to Verus, which has no vstd
/// specification for it; the struct's one public field `end` stays
/// visible to specifications.
#[verifier::external_type_specification]
#[verifier::reject_recursive_types(Idx)]
pub struct ExRangeTo<Idx>(RangeTo<Idx>);

/// Declares `core::ops::RangeFrom` to Verus, which has no vstd
/// specification for it; the struct's one public field `start` stays
/// visible to specifications.
#[verifier::external_type_specification]
#[verifier::reject_recursive_types(Idx)]
pub struct ExRangeFrom<Idx>(RangeFrom<Idx>);

/// A growable sequence that stores up to `N` elements inline and is
/// promoted to heap storage when the inline capacity is exceeded.
///
/// The `Stack` variant keeps the live elements in `buf[0..len]`; the
/// slots at `buf[len..N]` hold unobserved filler values. The `Heap`
/// variant delegates storage to a `Vec`.
#[derive(Debug)]
pub enum LocalStorageVec<T, const N: usize> {
    Stack { buf: [T; N], len: usize },
    Heap(Vec<T>),
}

/// The ways a position-taking operation can fail. Every failure leaves
/// the container completely unchanged.
#[derive(Debug, Clone, Copy, PartialEq, Eq)]
pub enum IndexError {
    /// A read access named a position at or beyond the logical length.
    OutOfBounds,
    /// `insert` was given a position greater than the logical length.
    InvalidInsertion,
    /// `remove` was given a position at or beyond the logical length.
    InvalidRemoval,
}

impl<T, const N: usize> View for LocalStorageVec<T, N> {
    type V = Seq<T>;

    open spec fn view(&self) -> Seq<T> {
        match self {
            LocalStorageVec::Stack { buf, len } => buf@.subrange(0, *len as int),
            LocalStorageVec::Heap(v) => v@,
        }
    }
}

impl<T, const N: usize> LocalStorageVec<T, N> {
    /// Well-formedness: an inline container never claims more live
    /// elements than its buffer has slots.
    pub open spec fn wf(&self) -> bool {
        match self {
            LocalStorageVec::Stack { buf: _, len } => *len <= N,
            LocalStorageVec::Heap(_) => true,
        }
    }

    /// The container currently uses the inline representation.
    pub open spec fn is_inline(&self) -> bool {
        self is Stack
    }

    /// The container has been promoted to heap storage.
    pub open spec fn is_promoted(&self) -> bool {
        self is Heap
    }

    /// A well-formed inline container never holds more than `N`
    /// elements; any state with more live elements is necessarily
    /// promoted.
    pub proof fn lemma_inline_capacity(&self)
        requires
            self.wf(),
        ensures
            self.is_inline() ==> self@.len() <= N,
            self@.len() > N ==> self.is_promoted(),
    {
    }
}

impl<T, const N: usize> LocalStorageVec<T, N> where T: Default + Copy {
    /// Creates an empty container in the inline representation.
    ///
    /// The unused inline slots are pre-filled with the element type's
    /// default value; those filler values are never observable through
    /// the public contract.
    pub fn new() -> (r: Self)
        ensures
            r.wf(),
            r@ == Seq::<T>::empty(),
            r.is_inline(),
    {
        let r = LocalStorageVec::Stack { buf: [T::default(); N], len: 0 };
        proof {
            assert(r@ =~= Seq::<T>::empty());
        }
        r
    }

    /// Returns the number of live elements, independently of the
    /// representation.
    pub fn len(&self) -> (r: usize)
        requires
            self.wf(),
        ensures
            r == self@.len(),
    {
        match self {
            LocalStorageVec::Stack { len, .. } => *len,
            LocalStorageVec::Heap(v) => v.len(),
        }
    }

    /// Copies the live prefix `buf[0..len]` of an inline buffer into a
    /// fresh heap-backed `Vec`, in order. This is the element relocation
    /// step of a promotion.
    fn spill_to_heap(buf: &[T; N], len: usize) -> (v: Vec<T>)
        requires
            len <= N,
        ensures
            v@ == buf@.subrange(0, len as int),
    {
        let mut v: Vec<T> = Vec::new();
        let mut i: usize = 0;
        while i < len
            invariant
                i <= len <= N,
                v@ == buf@.subrange(0, i as int),
            decreases len - i,
        {
            v.push(buf[i]);
            proof {
                assert(v@ =~= buf@.subrange(0, i + 1 as int));
            }
            i = i + 1;
        }
        v
    }

    /// Appends `el` at the logical end. Never fails: when the inline
    /// buffer is already full, the container is first promoted to heap
    /// storage, keeping the existing elements in order.
    pub fn push(&mut self, el: T)
        requires
            old(self).wf(),
        ensures
            final(self).wf(),
            final(self)@ == old(self)@.push(el),
            old(self).is_promoted() ==> final(self).is_promoted(),
            old(self).is_inline() && old(self)@.len() < N ==> final(self).is_inline(),
            old(self).is_inline() && old(self)@.len() == N ==> final(self).is_promoted(),
    {
        match self {
            LocalStorageVec::Stack { buf, len } => {
                if *len >= N {
                    proof {
                        assert(old(self)@ == buf@.subrange(0, N as int));
                    }
                    let mut v = Self::spill_to_heap(buf, N);
                    v.push(el);
                    *self = LocalStorageVec::Heap(v);
                } else {
                    buf[*len] = el;
                    *len = *len + 1;
                    proof {
                        assert(buf@.subrange(0, *len as int) =~= old(self)@.push(el));
                    }
                }
            }
            LocalStorageVec::Heap(v) => {
                v.push(el);
            }
        }
    }

    /// Removes and returns the last logical element, or `None` when the
    /// container is empty. Never demotes a promoted container.
    pub fn pop(&mut self) -> (r: Option<T>)
        requires
            old(self).wf(),
        ensures
            final(self).wf(),
            old(self).is_inline() == final(self).is_inline(),
            old(self)@.len() == 0 ==> r is None && final(self)@ == old(self)@,
            old(self)@.len() > 0 ==> r == Some(old(self)@.last()) && final(self)@ == old(self)@.drop_last(),
    {
        match self {
            LocalStorageVec::Stack { buf, len } => {
                if *len == 0 {
                    None
                } else {
                    *len = *len - 1;
                    let r = Some(buf[*len]);
                    proof {
                        assert(buf@.subrange(0, *len as int) =~= old(self)@.drop_last());
                    }
                    r
                }
            }
            LocalStorageVec::Heap(v) => {
                let r = v.pop();
                r
            }
        }
    }

    /// Inserts `el` at logical position `index`, shifting every element
    /// at a position `>= index` one place toward higher indices. A full
    /// inline container is promoted first. A position greater than the
    /// logical length is rejected without touching the container.
    pub fn insert(&mut self, index: usize, el: T) -> (r: Result<(), IndexError>)
        requires
            old(self).wf(),
        ensures
            final(self).wf(),
            index <= old(self)@.len() ==> {
                &&& r is Ok
                &&& final(self)@ == old(self)@.insert(index as int, el)
                &&& (old(self).is_promoted() ==> final(self).is_promoted())
                &&& (old(self).is_inline() && old(self)@.len() < N ==> final(self).is_inline())
                &&& (old(self).is_inline() && old(self)@.len() == N ==> final(self).is_promoted())
            },
            index > old(self)@.len() ==> r == Err::<(), IndexError>(IndexError::InvalidInsertion)
                && *final(self) == *old(self),
    {
        match self {
            LocalStorageVec::Stack { buf, len } => {
                if index > *len {
                    return Err(IndexError::InvalidInsertion);
                }
                if *len >= N {
                    proof {
                        assert(old(self)@ == buf@.subrange(0, N as int));
                    }
                    let mut v = Self::spill_to_heap(buf, N);
                    v.insert(index, el);
                    *self = LocalStorageVec::Heap(v);
                } else {
                    let ghost buf0 = buf@;
                    let ghost len0 = *len as int;
                    let mut i: usize = *len;
                    while i > index
                        invariant
                            index <= i <= len0 < N,
                            buf@.len() == N,
                            forall|j: int| 0 <= j <= i ==> buf@[j] == buf0[j],
                            forall|j: int| i < j <= len0 ==> buf@[j] == buf0[j - 1],
                        decreases i - index,
                    {
                        buf[i] = buf[i - 1];
                        i = i - 1;
                    }
                    buf[index] = el;
                    *len = *len + 1;
                    proof {
                        assert(buf@.subrange(0, *len as int) =~= old(self)@.insert(
                            index as int,
                            el,
                        ));
                    }
                }
            }
            LocalStorageVec::Heap(v) => {
                if index > v.len() {
                    return Err(IndexError::InvalidInsertion);
                }
                v.insert(index, el);
            }
        }
        Ok(())
    }

    /// Removes and returns the element at logical position `index`,
    /// shifting the suffix one place toward lower indices. A position at
    /// or beyond the logical length is rejected without touching the
    /// container. Removal never changes the representation.
    pub fn remove(&mut self, index: usize) -> (r: Result<T, IndexError>)
        requires
            old(self).wf(),
        ensures
            final(self).wf(),
            old(self).is_inline() == final(self).is_inline(),
            index < old(self)@.len() ==> r == Ok::<T, IndexError>(old(self)@[index as int])
                && final(self)@ == old(self)@.remove(index as int),
            index >= old(self)@.len() ==> r == Err::<T, IndexError>(IndexError::InvalidRemoval)
                && *final(self) == *old(self),
    {
        match self {
            LocalStorageVec::Stack { buf, len } => {
                if index >= *len {
                    return Err(IndexError::InvalidRemoval);
                }
                let el = buf[index];
                let ghost buf0 = buf@;
                let ghost len0 = *len as int;
                let mut i: usize = index;
                while i + 1 < *len
                    invariant
                        index <= i < len0 <= N,
                        *len == len0,
                        buf@.len() == N,
                        forall|j: int| 0 <= j < index ==> buf@[j] == buf0[j],
                        forall|j: int| index <= j < i ==> buf@[j] == buf0[j + 1],
                        forall|j: int| i <= j < len0 ==> buf@[j] == buf0[j],
                    decreases len0 - i,
                {
                    buf[i] = buf[i + 1];
                    i = i + 1;
                }
                *len = *len - 1;
                proof {
                    assert(buf@.subrange(0, *len as int) =~= old(self)@.remove(index as int));
                }
                Ok(el)
            }
            LocalStorageVec::Heap(v) => {
                if index >= v.len() {
                    return Err(IndexError::InvalidRemoval);
                }
                let el = v.remove(index);
                Ok(el)
            }
        }
    }

    /// Resets the logical length to zero without changing the
    /// representation: an inline container only forgets its live prefix,
    /// a promoted container empties its heap buffer but stays promoted.
    pub fn clear(&mut self)
        requires
            old(self).wf(),
        ensures
            final(self).wf(),
            final(self)@ == Seq::<T>::empty(),
            old(self).is_inline() == final(self).is_inline(),
    {
        match self {
            LocalStorageVec::Stack { buf: _, len } => {
                *len = 0;
                proof {
                    assert(final(self)@ =~= Seq::<T>::empty());
                }
            }
            LocalStorageVec::Heap(v) => {
                v.clear();
            }
        }
    }
}

impl<T, const N: usize> LocalStorageVec<T, N> {
    /// Returns a reference to the element at logical position `index`,
    /// or reports an out-of-bounds failure. Never clamps the position or
    /// returns a sentinel value.
    pub fn get(&self, index: usize) -> (r: Result<&T, IndexError>)
        requires
            self.wf(),
        ensures
            index < self@.len() ==> (r matches Ok(p) && *p == self@[index as int]),
            index >= self@.len() ==> r == Err::<&T, IndexError>(IndexError::OutOfBounds),
    {
        match self {
            LocalStorageVec::Stack { buf, len } => {
                if index < *len {
                    Ok(&buf[index])
                } else {
                    Err(IndexError::OutOfBounds)
                }
            }
            LocalStorageVec::Heap(v) => {
                if index < v.len() {
                    Ok(&v[index])
                } else {
                    Err(IndexError::OutOfBounds)
                }
            }
        }
    }

    /// A contiguous read-only view of exactly the live elements,
    /// independent of the representation.
    pub fn as_ref(&self) -> (r: &[T])
        requires
            self.wf(),
        ensures
            r@ == self@,
    {
        match self {
            LocalStorageVec::Stack { buf, len } => {
                let s = buf.as_slice();
                &s[0..*len]
            }
            LocalStorageVec::Heap(v) => v.as_slice(),
        }
    }

    /// A contiguous read-write view of exactly the live elements. The
    /// caller may overwrite elements in place but cannot change the
    /// logical length or the representation through the view.
    pub fn as_mut(&mut self) -> (r: &mut [T])
        requires
            old(self).wf(),
        ensures
            r@ == old(self)@,
            final(r)@.len() == old(self)@.len() ==> final(self)@ == final(r)@,
            final(self).wf(),
            old(self).is_inline() == final(self).is_inline(),
    {
        match self {
            LocalStorageVec::Stack { buf, len } => {
                let s: &mut [T] = buf;
                let pair = s.split_at_mut(*len);
                pair.0
            }
            LocalStorageVec::Heap(v) => v.as_mut_slice(),
        }
    }
}

/// Conversion from a heap-allocated sequence: the container is always
/// promoted, whatever the sequence's length.
impl<T, const N: usize> From<Vec<T>> for LocalStorageVec<T, N> {
    fn from(v: Vec<T>) -> (r: Self) {
        LocalStorageVec::Heap(v)
    }
}

impl<T, const N: usize> vstd::std_specs::convert::FromSpecImpl<Vec<T>> for LocalStorageVec<T, N> {
    open spec fn obeys_from_spec() -> bool {
        true
    }

    open spec fn from_spec(v: Vec<T>) -> Self {
        LocalStorageVec::Heap(v)
    }
}

/// Conversion from a fixed-size array of `M` elements: inline when the
/// array fits within the inline capacity `N`, promoted otherwise. The
/// elements are kept in their original order either way.
impl<T, const M: usize, const N: usize> From<[T; M]> for LocalStorageVec<T, N> where T: Default + Copy {
    fn from(a: [T; M]) -> (r: Self)
        ensures
            r.wf(),
            r@ == a@,
            M <= N ==> r.is_inline() && r@.len() == M,
            M > N ==> r.is_promoted(),
    {
        if M <= N {
            let mut buf: [T; N] = [T::default(); N];
            let mut i: usize = 0;
            while i < M
                invariant
                    i <= M <= N,
                    forall|j: int| 0 <= j < i ==> buf@[j] == a@[j],
                decreases M - i,
            {
                buf[i] = a[i];
                i = i + 1;
            }
            let r = LocalStorageVec::Stack { buf, len: M };
            proof {
                assert(r@ =~= a@);
            }
            r
        } else {
            let mut v: Vec<T> = Vec::new();
            let mut i: usize = 0;
            while i < M
                invariant
                    i <= M,
                    v@ == a@.subrange(0, i as int),
                decreases M - i,
            {
                v.push(a[i]);
                proof {
                    assert(v@ =~= a@.subrange(0, i + 1 as int));
                }
                i = i + 1;
            }
            proof {
                assert(v@ =~= a@);
            }
            LocalStorageVec::Heap(v)
        }
    }
}

impl<T, const M: usize, const N: usize> vstd::std_specs::convert::FromSpecImpl<[T; M]> for LocalStorageVec<T, N> where T: Default + Copy {
    open spec fn obeys_from_spec() -> bool {
        false
    }

    open spec fn from_spec(a: [T; M]) -> Self {
        vstd::pervasive::arbitrary()
    }
}

/// An owning iterator over a [`LocalStorageVec`]: it consumes the
/// container and yields the live elements in logical order, one per
/// call of [`LocalStorageVecIter::next`].
pub struct LocalStorageVecIter<T, const N: usize> where T: Default + Copy {
    vec: LocalStorageVec<T, N>,
    counter: usize,
}

impl<T, const N: usize> LocalStorageVecIter<T, N> where T: Default + Copy {
    /// The full element sequence the iterator walks over.
    pub closed spec fn elements(&self) -> Seq<T> {
        self.vec@
    }

    /// How many elements have already been yielded.
    pub closed spec fn position(&self) -> int {
        self.counter as int
    }

    pub closed spec fn wf(&self) -> bool {
        self.vec.wf()
    }

    /// The elements the iterator has yet to yield, in order.
    pub open spec fn remaining(&self) -> Seq<T> {
        if self.position() <= self.elements().len() {
            self.elements().skip(self.position())
        } else {
            Seq::empty()
        }
    }

    /// Yields the next element in logical order, or `None` once the
    /// iterator is exhausted; an exhausted iterator keeps reporting
    /// completion and never changes again.
    pub fn next(&mut self) -> (r: Option<T>)
        requires
            old(self).wf(),
        ensures
            final(self).wf(),
            final(self).elements() == old(self).elements(),
            old(self).remaining().len() > 0 ==> (r == Some(old(self).remaining()[0])
                && final(self).remaining() == old(self).remaining().skip(1)),
            old(self).remaining().len() == 0 ==> (r is None && *final(self) == *old(self)),
    {
        if self.counter >= self.vec.len() {
            return None;
        }
        let el = match &self.vec {
            LocalStorageVec::Stack { buf, .. } => buf[self.counter],
            LocalStorageVec::Heap(v) => v[self.counter],
        };
        self.counter = self.counter + 1;
        proof {
            assert(final(self).remaining() =~= old(self).remaining().skip(1));
        }
        Some(el)
    }
}

/// A borrowing iterator over a [`LocalStorageVec`]: it leaves the
/// container usable and yields copies of the live elements in logical
/// order.
pub struct LocalStorageVecBorrowedIter<'a, T, const N: usize> where T: Default + Copy {
    vec: &'a LocalStorageVec<T, N>,
    counter: usize,
}

impl<'a, T, const N: usize> LocalStorageVecBorrowedIter<'a, T, N> where T: Default + Copy {
    /// The full element sequence the iterator walks over.
    pub closed spec fn elements(&self) -> Seq<T> {
        self.vec@
    }

    /// How many elements have already been yielded.
    pub closed spec fn position(&self) -> int {
        self.counter as int
    }

    pub closed spec fn wf(&self) -> bool {
        self.vec.wf()
    }

    /// The elements the iterator has yet to yield, in order.
    pub open spec fn remaining(&self) -> Seq<T> {
        if self.position() <= self.elements().len() {
            self.elements().skip(self.position())
        } else {
            Seq::empty()
        }
    }

    /// Yields the next element in logical order, or `None` once the
    /// iterator is exhausted; an exhausted iterator keeps reporting
    /// completion and never changes again.
    pub fn next(&mut self) -> (r: Option<T>)
        requires
            old(self).wf(),
        ensures
            final(self).wf(),
            final(self).elements() == old(self).elements(),
            old(self).remaining().len() > 0 ==> (r == Some(old(self).remaining()[0])
                && final(self).remaining() == old(self).remaining().skip(1)),
            old(self).remaining().len() == 0 ==> (r is None && *final(self) == *old(self)),
    {
        if self.counter >= self.vec.len() {
            return None;
        }
        let el = match self.vec {
            LocalStorageVec::Stack { buf, .. } => buf[self.counter],
            LocalStorageVec::Heap(v) => v[self.counter],
        };
        self.counter = self.counter + 1;
        proof {
            assert(final(self).remaining() =~= old(self).remaining().skip(1));
        }
        Some(el)
    }
}

impl<T, const N: usize> LocalStorageVec<T, N> where T: Default + Copy {
    /// Turns the container into an owning iterator over its live
    /// elements, consuming it.
    pub fn into_iter(self) -> (it: LocalStorageVecIter<T, N>)
        requires
            self.wf(),
        ensures
            it.wf(),
            it.elements() == self@,
            it.remaining() == self@,
    {
        LocalStorageVecIter { vec: self, counter: 0 }
    }

    /// Returns a borrowing iterator over the live elements; the
    /// container stays usable once iteration ends.
    pub fn iter(&self) -> (it: LocalStorageVecBorrowedIter<'_, T, N>)
        requires
            self.wf(),
        ensures
            it.wf(),
            it.elements() == self@,
            it.remaining() == self@,
    {
        LocalStorageVecBorrowedIter { vec: self, counter: 0 }
    }
}

impl<T, const N: usize> vstd::std_specs::core::IndexSpecImpl<usize> for LocalStorageVec<T, N> {
    open spec fn index_req(&self, index: &usize) -> bool {
        self.wf() && *index < self@.len()
    }
}

/// Read access to the element at a single logical position; a position
/// at or beyond the logical length is out of contract.
impl<T, const N: usize> core::ops::Index<usize> for LocalStorageVec<T, N> {
    type Output = T;

    fn index(&self, index: usize) -> (r: &T)
        ensures
            *r == self@[index as int],
    {
        match self {
            LocalStorageVec::Stack { buf, .. } => &buf[index],
            LocalStorageVec::Heap(v) => &v[index],
        }
    }
}

impl<T, const N: usize> vstd::std_specs::core::IndexSpecImpl<Range<usize>> for LocalStorageVec<T, N> {
    open spec fn index_req(&self, index: &Range<usize>) -> bool {
        self.wf() && index.start <= index.end && index.end <= self@.len()
    }
}

/// Read access to a contiguous logical sub-range; an end bound beyond
/// the logical length is out of contract.
impl<T, const N: usize> core::ops::Index<Range<usize>> for LocalStorageVec<T, N> {
    type Output = [T];

    fn index(&self, index: Range<usize>) -> (r: &[T])
        ensures
            r@ == self@.subrange(index.start as int, index.end as int),
    {
        let s = self.as_ref();
        &s[index.start..index.end]
    }
}

impl<T, const N: usize> vstd::std_specs::core::IndexSpecImpl<RangeTo<usize>> for LocalStorageVec<T, N> {
    open spec fn index_req(&self, index: &RangeTo<usize>) -> bool {
        self.wf() && index.end <= self@.len()
    }
}

/// Read access to the logical prefix below an end bound; an end bound
/// beyond the logical length is out of contract.
impl<T, const N: usize> core::ops::Index<RangeTo<usize>> for LocalStorageVec<T, N> {
    type Output = [T];

    fn index(&self, index: RangeTo<usize>) -> (r: &[T])
        ensures
            r@ == self@.subrange(0, index.end as int),
    {
        let s = self.as_ref();
        &s[0..index.end]
    }
}

impl<T, const N: usize> vstd::std_specs::core::IndexSpecImpl<RangeFrom<usize>> for LocalStorageVec<T, N> {
    open spec fn index_req(&self, index: &RangeFrom<usize>) -> bool {
        self.wf() && index.start <= self@.len()
    }
}

/// Read access to the logical suffix from a start bound on; a start
/// bound beyond the logical length is out of contract.
impl<T, const N: usize> core::ops::Index<RangeFrom<usize>> for LocalStorageVec<T, N> {
    type Output = [T];

    fn index(&self, index: RangeFrom<usize>) -> (r: &[T])
        ensures
            r@ == self@.subrange(index.start as int, self@.len() as int),
    {
        let s = self.as_ref();
        &s[index.start..s.len()]
    }
}

} // verus!

