//! Immutable, sliceable sequences of values over a shared allocation.
use vstd::prelude::*;
use std::sync::Arc;
use crate::shared::{share, unshare};

verus! {

/// An immutable sequence of values. Slicing moves a window over the shared
/// allocation and copies nothing.
pub struct Buffer<T> {
    data: Arc<Vec<T>>,
    offset: usize,
    length: usize,
}

impl<T> View for Buffer<T> {
    type V = Seq<T>;

    closed spec fn view(&self) -> Seq<T> {
        self.data@.subrange(self.offset as int, self.offset + self.length)
    }
}

impl<T> Buffer<T> {
    /// The invariant of the type: the window lies within the allocation.
    pub closed spec fn wf(&self) -> bool {
        self.offset + self.length <= self.data@.len() <= usize::MAX
    }

    /// The whole allocation, shared by all slices of one buffer.
    pub closed spec fn backing(&self) -> Seq<T> {
        self.data@
    }

    /// The position at which the window starts in [`Self::backing`].
    pub closed spec fn start(&self) -> nat {
        self.offset as nat
    }

    /// The window is what [`Self::backing`] holds from [`Self::start`] on.
    pub proof fn lemma_view(&self)
        requires
            self.wf(),
        ensures
            self.start() + self@.len() <= self.backing().len() <= usize::MAX,
            self@ == self.backing().subrange(self.start() as int, (self.start() + self@.len()) as int),
    {
    }

    /// A buffer that holds the values of `data`, which it takes over.
    pub fn from_vec(data: Vec<T>) -> (b: Buffer<T>)
        ensures
            b.wf(),
            b@ == data@,
            b.backing() == data@,
            b.start() == 0,
    {
        let length = data.len();
        let b = Buffer { data: Arc::new(data), offset: 0, length };
        proof {
            assert(b@ =~= data@);
        }
        b
    }

    /// The number of values.
    #[inline]
    pub fn len(&self) -> (n: usize)
        requires
            self.wf(),
        ensures
            n == self@.len(),
    {
        self.length
    }

    /// Whether the buffer holds no value.
    #[inline]
    pub fn is_empty(&self) -> (e: bool)
        requires
            self.wf(),
        ensures
            e == (self@.len() == 0),
    {
        self.length == 0
    }

    /// The value at position `i`.
    #[inline]
    pub fn get(&self, i: usize) -> (value: &T)
        requires
            self.wf(),
            i < self@.len(),
        ensures
            *value == self@[i as int],
    {
        &self.data[self.offset + i]
    }

    /// The values as a slice.
    #[inline]
    pub fn as_slice(&self) -> (values: &[T])
        requires
            self.wf(),
        ensures
            values@ == self@,
    {
        vstd::slice::slice_subrange(
            self.data.as_slice(),
            self.offset,
            self.offset + self.length,
        )
    }

    /// Narrows the window to the `length` values from `offset` on.
    /// The caller ensures that `offset + length <= self.len()`.
    #[inline]
    pub fn slice(&mut self, offset: usize, length: usize)
        requires
            old(self).wf(),
            offset + length <= old(self)@.len(),
        ensures
            final(self).wf(),
            final(self)@ == old(self)@.subrange(offset as int, offset + length),
            final(self).backing() == old(self).backing(),
            final(self).start() == old(self).start() + offset,
    {
        self.slice_unchecked(offset, length)
    }

    /// Narrows the window to the `length` values from `offset` on.
    /// The caller ensures that `offset + length <= self.len()`.
    #[inline]
    pub fn slice_unchecked(&mut self, offset: usize, length: usize)
        requires
            old(self).wf(),
            offset + length <= old(self)@.len(),
        ensures
            final(self).wf(),
            final(self)@ == old(self)@.subrange(offset as int, offset + length),
            final(self).backing() == old(self).backing(),
            final(self).start() == old(self).start() + offset,
    {
        self.offset = self.offset + offset;
        self.length = length;
        proof {
            assert(self@ =~= old(self)@.subrange(offset as int, offset + length));
        }
    }

    /// This buffer narrowed to the `length` values from `offset` on.
    /// The caller ensures that `offset + length <= self.len()`.
    #[inline]
    #[must_use]
    pub fn sliced(self, offset: usize, length: usize) -> (r: Buffer<T>)
        requires
            self.wf(),
            offset + length <= self@.len(),
        ensures
            r.wf(),
            r@ == self@.subrange(offset as int, offset + length),
            r.backing() == self.backing(),
            r.start() == self.start() + offset,
    {
        let mut r = self;
        r.slice_unchecked(offset, length);
        r
    }
}

impl<T: Copy> Buffer<T> {
    /// The values as a vector. The allocation is handed over where this
    /// buffer is its only holder and holds it whole; else the values are copied.
    pub fn into_vec(self) -> (values: Vec<T>)
        requires
            self.wf(),
        ensures
            values@ == self@,
    {
        if self.offset == 0 && self.length == self.data.len() {
            let values = unshare(self.data);
            proof {
                assert(values@ =~= self@);
            }
            values
        } else {
            let mut values: Vec<T> = Vec::new();
            let mut i: usize = 0;
            while i < self.length
                invariant
                    self.wf(),
                    i <= self.length,
                    values@ == self@.subrange(0, i as int),
                decreases self.length - i,
            {
                values.push(*self.get(i));
                i = i + 1;
                proof {
                    assert(values@ =~= self@.subrange(0, i as int));
                }
            }
            proof {
                assert(self@.subrange(0, self.length as int) =~= self@);
            }
            values
        }
    }
}

impl<T> Clone for Buffer<T> {
    /// A buffer over the same allocation.
    fn clone(&self) -> (r: Buffer<T>)
        ensures
            r == *self,
    {
        Buffer { data: share(&self.data), offset: self.offset, length: self.length }
    }
}

} // verus!
