//! A fixed-capacity, reusable staging area for one output line.

use vstd::prelude::*;

verus! {

/// Capacity of a buffer made by `LineBuffer::new`.
pub const DEFAULT_CAPACITY: usize = 1024;

/// A byte arena with a logical length. Its storage is allocated once; `reset`
/// only moves the length back to zero.
pub struct LineBuffer {
    data: Vec<u8>,
    pos: usize,
}

impl View for LineBuffer {
    type V = Seq<u8>;

    /// The bytes staged so far.
    closed spec fn view(&self) -> Seq<u8> {
        self.data@.subrange(0, self.pos as int)
    }
}

impl LineBuffer {
    /// The number of bytes the buffer can hold.
    pub closed spec fn capacity(&self) -> nat {
        self.data@.len()
    }

    /// The logical length never passes the storage.
    pub closed spec fn wf(&self) -> bool {
        self.pos <= self.data@.len() <= usize::MAX
    }

    /// An empty buffer of the default capacity.
    pub fn new() -> (r: Self)
        ensures
            r.wf(),
            r@ == Seq::<u8>::empty(),
            r.capacity() == DEFAULT_CAPACITY,
    {
        Self::with_capacity(DEFAULT_CAPACITY)
    }

    /// An empty buffer that can hold `capacity` bytes.
    pub fn with_capacity(capacity: usize) -> (r: Self)
        ensures
            r.wf(),
            r@ == Seq::<u8>::empty(),
            r.capacity() == capacity,
    {
        let mut data: Vec<u8> = Vec::with_capacity(capacity);
        let mut i: usize = 0;
        while i < capacity
            invariant
                i <= capacity,
                data@.len() == i,
            decreases capacity - i,
        {
            data.push(0u8);
            i += 1;
        }
        let r = LineBuffer { data, pos: 0 };
        assert(r@ =~= Seq::<u8>::empty());
        r
    }

    /// Marks the buffer empty without clearing its storage.
    pub fn reset(&mut self)
        requires
            old(self).wf(),
        ensures
            final(self).wf(),
            final(self)@ == Seq::<u8>::empty(),
            final(self).capacity() == old(self).capacity(),
    {
        self.pos = 0;
        assert(self@ =~= Seq::<u8>::empty());
    }

    /// Appends one byte.
    pub fn push(&mut self, b: u8)
        requires
            old(self).wf(),
            old(self)@.len() < old(self).capacity(),
        ensures
            final(self).wf(),
            final(self)@ == old(self)@.push(b),
            final(self).capacity() == old(self).capacity(),
    {
        self.data.set(self.pos, b);
        self.pos = self.pos + 1;
        assert(self@ =~= old(self)@.push(b));
    }

    /// Appends a byte sequence.
    pub fn extend(&mut self, slice: &[u8])
        requires
            old(self).wf(),
            old(self)@.len() + slice@.len() <= old(self).capacity(),
        ensures
            final(self).wf(),
            final(self)@ == old(self)@ + slice@,
            final(self).capacity() == old(self).capacity(),
    {
        let n = slice.len();
        let mut i: usize = 0;
        while i < n
            invariant
                self.wf(),
                i <= n,
                n == slice@.len(),
                self.capacity() == old(self).capacity(),
                old(self)@.len() + n <= self.capacity(),
                self@ == old(self)@ + slice@.subrange(0, i as int),
            decreases n - i,
        {
            self.push(slice[i]);
            assert(slice@.subrange(0, i + 1) =~= slice@.subrange(0, i as int).push(slice@[i as int]));
            i += 1;
        }
        assert(slice@.subrange(0, n as int) =~= slice@);
    }

    /// The bytes staged so far.
    pub fn as_slice(&self) -> (r: &[u8])
        requires
            self.wf(),
        ensures
            r@ == self@,
    {
        vstd::slice::slice_subrange(self.data.as_slice(), 0, self.pos)
    }

    /// The number of bytes staged so far.
    pub fn len(&self) -> (r: usize)
        requires
            self.wf(),
        ensures
            r == self@.len(),
            self@.len() <= self.capacity(),
    {
        self.pos
    }
}

impl Default for LineBuffer {
    fn default() -> (r: Self)
        ensures
            r.wf(),
            r@ == Seq::<u8>::empty(),
            r.capacity() == DEFAULT_CAPACITY,
    {
        Self::new()
    }
}

} // verus!
