//! A fixed-capacity circular byte queue.
//!
//! A [`RingBuffer`] owns a heap-allocated buffer whose size is chosen
//! once, at construction. Writes append at the end of the queue and
//! reads consume from the front, wrapping around the end of the buffer;
//! one slot is kept free to tell a full queue from an empty one, so a
//! buffer of size `n` holds at most `n - 1` queued bytes at a time.

use vstd::arithmetic::div_mod::lemma_mod_self_0;
use vstd::arithmetic::div_mod::lemma_small_mod;
use vstd::prelude::*;

verus! {

/// A circular first-in-first-out byte queue over a fixed-size
/// heap-allocated buffer.
///
/// `start` is the position of the oldest queued byte and `end` the
/// position the next write goes to; the queue is empty when the two
/// coincide. The view `self@` is the queued bytes in arrival order.
#[derive(Debug)]
pub struct RingBuffer {
    data: Vec<u8>,
    start: usize,
    end: usize,
}

impl View for RingBuffer {
    type V = Seq<u8>;

    closed spec fn view(&self) -> Seq<u8> {
        if self.end >= self.start {
            self.data@.subrange(self.start as int, self.end as int)
        } else {
            self.data@.subrange(self.start as int, self.data@.len() as int) + self.data@.subrange(
                0,
                self.end as int,
            )
        }
    }
}

/// Allocates an owned, zero-filled byte buffer of the requested size on
/// the heap.
pub fn make_box(req_size: usize) -> (r: Vec<u8>)
    ensures
        r@.len() == req_size,
        forall|i: int| 0 <= i < req_size ==> r@[i] == 0u8,
{
    let mut v: Vec<u8> = Vec::new();
    let mut i: usize = 0;
    while i < req_size
        invariant
            i <= req_size,
            v@.len() == i,
            forall|j: int| 0 <= j < i ==> v@[j] == 0u8,
        decreases req_size - i,
    {
        v.push(0u8);
        i = i + 1;
    }
    v
}

impl RingBuffer {
    /// Well-formedness: both cursors point into the buffer; a queue
    /// with no buffer at all keeps both cursors at zero.
    pub closed spec fn wf(&self) -> bool {
        if self.data@.len() == 0 {
            self.start == 0 && self.end == 0
        } else {
            self.start < self.data@.len() && self.end < self.data@.len()
        }
    }

    /// The size the buffer was created with. The queue never holds more
    /// than `capacity() - 1` bytes at a time.
    pub closed spec fn capacity(&self) -> nat {
        self.data@.len()
    }

    /// A well-formed queue always holds fewer bytes than its capacity;
    /// with no capacity it holds nothing.
    pub proof fn lemma_len_bound(&self)
        requires
            self.wf(),
        ensures
            self.capacity() == 0 ==> self@.len() == 0,
            self.capacity() > 0 ==> self@.len() < self.capacity(),
    {
    }

    /// Creates a ring buffer over a fresh zero-filled buffer of the
    /// given size.
    pub fn new(size: usize) -> (r: RingBuffer)
        ensures
            r.wf(),
            r@ == Seq::<u8>::empty(),
            r.capacity() == size,
    {
        let r = RingBuffer { data: make_box(size), start: 0, end: 0 };
        proof {
            assert(r@ =~= Seq::<u8>::empty());
        }
        r
    }

    /// Removes and returns the oldest queued byte, or `None` when the
    /// queue is empty.
    pub fn read(&mut self) -> (r: Option<u8>)
        requires
            old(self).wf(),
        ensures
            final(self).wf(),
            final(self).capacity() == old(self).capacity(),
            old(self)@.len() == 0 ==> r is None && final(self)@ == old(self)@,
            old(self)@.len() > 0 ==> r == Some(old(self)@[0]) && final(self)@ == old(self)@.skip(
                1,
            ),
    {
        if self.data.len() == 0 {
            return None;
        }
        if self.start == self.end {
            None
        } else {
            let pos = self.start;
            let cap = self.data.len();
            self.start = (self.start + 1) % cap;
            proof {
                if old(self).start + 1 == cap {
                    lemma_mod_self_0(cap as int);
                    assert(final(self).start == 0);
                } else {
                    lemma_small_mod((old(self).start + 1) as nat, cap as nat);
                }
                assert(final(self)@ =~= old(self)@.skip(1));
            }
            Some(self.data[pos])
        }
    }

    /// Appends `value` at the end of the queue and returns `true`, or
    /// returns `false` and leaves the queue unchanged when there is no
    /// room: when the buffer size is zero, or when the queue already
    /// holds `capacity() - 1` bytes.
    pub fn write(&mut self, value: u8) -> (r: bool)
        requires
            old(self).wf(),
        ensures
            final(self).wf(),
            final(self).capacity() == old(self).capacity(),
            old(self).capacity() == 0 ==> r == false && final(self)@ == old(self)@,
            old(self).capacity() > 0 && old(self)@.len() == old(self).capacity() - 1 ==> r == false
                && final(self)@ == old(self)@,
            old(self).capacity() > 0 && old(self)@.len() < old(self).capacity() - 1 ==> r == true
                && final(self)@ == old(self)@.push(value),
    {
        if self.data.len() == 0 {
            return false;
        }
        let cap = self.data.len();
        self.data[self.end] = value;
        proof {
            assert(self@ =~= old(self)@);
        }
        let pos = (self.end + 1) % cap;
        proof {
            if old(self).end + 1 == cap {
                lemma_mod_self_0(cap as int);
            } else {
                lemma_small_mod((old(self).end + 1) as nat, cap as nat);
            }
        }
        if pos == self.start {
            false
        } else {
            self.end = pos;
            proof {
                assert(final(self)@ =~= old(self)@.push(value));
            }
            true
        }
    }

    /// The room check this queue offers: it goes by the queued length
    /// alone, and answers `true` precisely when that length differs
    /// from one — except on a buffer of size one, which never has
    /// room. Note that this is not the same test as [`RingBuffer::write`]
    /// applies; a caller who needs to know whether a write will succeed
    /// should compare the length against the capacity instead.
    pub fn has_room(&self) -> (r: bool)
        requires
            self.wf(),
            self.capacity() > 0,
        ensures
            self.capacity() == 1 ==> r == false,
            self.capacity() > 1 ==> r == (self@.len() != 1),
    {
        let cap = self.data.len();
        proof {
            if self.start + 1 == cap {
                lemma_mod_self_0(cap as int);
            } else {
                lemma_small_mod((self.start + 1) as nat, cap as nat);
            }
        }
        (self.start + 1) % cap != self.end
    }

    /// Returns the oldest queued byte without removing it, or `None`
    /// when the queue is empty.
    pub fn peek(&self) -> (r: Option<u8>)
        requires
            self.wf(),
        ensures
            self@.len() == 0 ==> r is None,
            self@.len() > 0 ==> r == Some(self@[0]),
    {
        if self.start == self.end {
            None
        } else {
            Some(self.data[self.start])
        }
    }

    /// Steps the queue as an iteration would: reads and returns the
    /// oldest byte, or reports exhaustion with `None`.
    pub fn next(&mut self) -> (r: Option<u8>)
        requires
            old(self).wf(),
        ensures
            final(self).wf(),
            final(self).capacity() == old(self).capacity(),
            old(self)@.len() == 0 ==> r is None && final(self)@ == old(self)@,
            old(self)@.len() > 0 ==> r == Some(old(self)@[0]) && final(self)@ == old(self)@.skip(
                1,
            ),
    {
        self.read()
    }
}

} // verus!
