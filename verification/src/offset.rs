//! Offsets: non-decreasing boundaries that cut a child buffer into segments.
use vstd::prelude::*;
use crate::buffer::Buffer;
use crate::error::Error;

verus! {

/// The integer types that can hold an offset: `i32` and `i64`.
pub trait Offset: Copy + Sized {
    /// Whether the type is the 64-bit one.
    spec fn large() -> bool;

    /// The largest value of the type.
    spec fn max() -> int;

    /// The mathematical value of an offset.
    spec fn to_int(self) -> int;

    /// Whether the type is the 64-bit one.
    fn is_large() -> (b: bool)
        ensures
            b == Self::large(),
    ;

    /// The offset zero.
    fn zero() -> (z: Self)
        ensures
            z.to_int() == 0,
    ;

    /// The offset widened to 64 bits.
    fn to_i64(&self) -> (v: i64)
        ensures
            v == self.to_int(),
    ;

    /// The offset as an index. The caller ensures that it is one.
    fn to_usize(&self) -> (u: usize)
        requires
            0 <= self.to_int() <= usize::MAX,
        ensures
            u == self.to_int(),
    ;

    /// The offset of this value, if the type can hold it.
    fn from_usize(value: usize) -> (r: Option<Self>)
        ensures
            r is Some <==> value <= Self::max(),
            r matches Some(o) ==> o.to_int() == value,
    ;
}

impl Offset for i32 {
    open spec fn large() -> bool {
        false
    }

    open spec fn max() -> int {
        i32::MAX as int
    }

    open spec fn to_int(self) -> int {
        self as int
    }

    #[inline]
    fn is_large() -> (b: bool) {
        false
    }

    #[inline]
    fn zero() -> (z: i32) {
        0
    }

    #[inline]
    fn to_i64(&self) -> (v: i64) {
        *self as i64
    }

    #[inline]
    fn to_usize(&self) -> (u: usize) {
        *self as usize
    }

    #[inline]
    fn from_usize(value: usize) -> (r: Option<i32>) {
        if value <= 0x7fff_ffff {
            Some(value as i32)
        } else {
            None
        }
    }
}

impl Offset for i64 {
    open spec fn large() -> bool {
        true
    }

    open spec fn max() -> int {
        i64::MAX as int
    }

    open spec fn to_int(self) -> int {
        self as int
    }

    #[inline]
    fn is_large() -> (b: bool) {
        true
    }

    #[inline]
    fn zero() -> (z: i64) {
        0
    }

    #[inline]
    fn to_i64(&self) -> (v: i64) {
        *self
    }

    #[inline]
    fn to_usize(&self) -> (u: usize) {
        *self as usize
    }

    #[inline]
    fn from_usize(value: usize) -> (r: Option<i64>) {
        if value as u64 <= 0x7fff_ffff_ffff_ffff {
            Some(value as i64)
        } else {
            None
        }
    }
}

/// The mathematical values of a sequence of offsets.
pub open spec fn ints<O: Offset>(values: Seq<O>) -> Seq<int> {
    Seq::new(values.len(), |i: int| values[i].to_int())
}

/// Whether `s` is a sequence of offsets: not empty, without a negative
/// element, and non-decreasing.
pub open spec fn is_offsets(s: Seq<int>) -> bool {
    &&& s.len() >= 1
    &&& forall|i: int| 0 <= i < s.len() ==> s[i] >= 0
    &&& forall|i: int, j: int| 0 <= i <= j < s.len() ==> s[i] <= s[j]
}

/// A part of offsets is offsets, and ends no later than the whole.
pub proof fn lemma_offsets_subrange(s: Seq<int>, from: int, to: int)
    requires
        is_offsets(s),
        0 <= from < to <= s.len(),
    ensures
        is_offsets(s.subrange(from, to)),
        s.subrange(from, to).last() <= s.last(),
{
    let t = s.subrange(from, to);
    assert forall|i: int, j: int| 0 <= i <= j < t.len() implies t[i] <= t[j] by {
        assert(s[from + i] <= s[from + j]);
    }
    assert forall|i: int| 0 <= i < t.len() implies t[i] >= 0 by {
        assert(s[from + i] >= 0);
    }
    assert(s[to - 1] <= s[s.len() - 1]);
}

/// A sequence that starts without a negative element and never steps down is
/// non-decreasing and without a negative element.
proof fn lemma_steps_to_offsets(s: Seq<int>, n: int)
    requires
        1 <= n <= s.len(),
        s[0] >= 0,
        forall|i: int| 0 < i < n ==> s[i - 1] <= #[trigger] s[i],
    ensures
        is_offsets(s.subrange(0, n)),
    decreases n,
{
    if n > 1 {
        lemma_steps_to_offsets(s, n - 1);
        let t = s.subrange(0, n);
        let u = s.subrange(0, n - 1);
        assert forall|i: int, j: int| 0 <= i <= j < t.len() implies t[i] <= t[j] by {
            if j == n - 1 && i < j {
                assert(u[i] <= u[n - 2]);
                assert(s[n - 2] <= s[n - 1]);
            } else if j < n - 1 {
                assert(u[i] <= u[j]);
            }
        }
        assert forall|i: int| 0 <= i < t.len() implies t[i] >= 0 by {
            assert(t[0] <= t[i]);
        }
    }
}

/// Offsets that their owner may still extend: a non-empty, non-decreasing
/// sequence of non-negative integers.
pub struct Offsets<O: Offset> {
    values: Vec<O>,
}

impl<O: Offset> View for Offsets<O> {
    type V = Seq<int>;

    closed spec fn view(&self) -> Seq<int> {
        ints(self.values@)
    }
}

impl<O: Offset> Offsets<O> {
    /// The invariant of the type.
    pub closed spec fn wf(&self) -> bool {
        is_offsets(self@)
    }

    /// Returns [`Offsets`] of these values.
    /// # Errors
    /// This function errors iff the sequence is empty, holds a negative value or decreases.
    pub fn try_new(values: Vec<O>) -> (r: Result<Offsets<O>, Error>)
        ensures
            r is Ok <==> is_offsets(ints(values@)),
            r matches Ok(o) ==> o.wf() && o@ == ints(values@),
            r matches Err(e) ==> e is OutOfSpec,
    {
        let ghost s = ints(values@);
        if values.len() == 0 {
            return Err(Error::oos("offsets must have at least one element"));
        }
        if values[0].to_i64() < 0 {
            assert(s[0] < 0);
            return Err(Error::oos("offsets must be larger than 0"));
        }
        let mut i: usize = 1;
        while i < values.len()
            invariant
                1 <= i <= values@.len(),
                s == ints(values@),
                s[0] >= 0,
                forall|k: int| 0 < k < i ==> s[k - 1] <= #[trigger] s[k],
            decreases values@.len() - i,
        {
            if values[i - 1].to_i64() > values[i].to_i64() {
                assert(s[i - 1] > s[i as int]);
                return Err(Error::oos("offsets must be monotonically increasing"));
            }
            i = i + 1;
        }
        proof {
            lemma_steps_to_offsets(s, s.len() as int);
            assert(s.subrange(0, s.len() as int) =~= s);
        }
        Ok(Offsets { values })
    }

    /// Returns [`Offsets`] with the single boundary zero: no segment.
    pub fn new() -> (o: Offsets<O>)
        ensures
            o.wf(),
            o@ == seq![0int],
    {
        let mut values: Vec<O> = Vec::new();
        values.push(O::zero());
        let o = Offsets { values };
        proof {
            assert(o@ =~= seq![0int]);
        }
        o
    }

    /// Returns [`Offsets`] of `length` empty segments: `length + 1` zeroes.
    /// The caller ensures that `length + 1` fits in `usize`.
    pub fn new_zeroed(length: usize) -> (o: Offsets<O>)
        requires
            length < usize::MAX,
        ensures
            o.wf(),
            o@ == Seq::new((length + 1) as nat, |i: int| 0int),
    {
        let mut values: Vec<O> = Vec::new();
        let mut i: usize = 0;
        while i < length + 1
            invariant
                length < usize::MAX,
                i <= length + 1,
                values@.len() == i,
                forall|k: int| 0 <= k < i ==> (#[trigger] values@[k]).to_int() == 0,
            decreases length + 1 - i,
        {
            values.push(O::zero());
            i = i + 1;
        }
        let o = Offsets { values };
        proof {
            assert(o@ =~= Seq::new((length + 1) as nat, |i: int| 0int));
        }
        o
    }

    /// The number of segments: one less than the number of boundaries.
    #[inline]
    pub fn len_proxy(&self) -> (n: usize)
        requires
            self.wf(),
        ensures
            n == self@.len() - 1,
    {
        self.values.len() - 1
    }

    /// The last boundary.
    #[inline]
    pub fn last(&self) -> (o: O)
        requires
            self.wf(),
        ensures
            o.to_int() == self@.last(),
    {
        self.values[self.values.len() - 1]
    }
}

/// Offsets that are final: immutable, shared, and sliceable without a copy.
pub struct OffsetsBuffer<O: Offset> {
    buffer: Buffer<O>,
}

impl<O: Offset> View for OffsetsBuffer<O> {
    type V = Seq<int>;

    closed spec fn view(&self) -> Seq<int> {
        ints(self.buffer@)
    }
}

impl<O: Offset> OffsetsBuffer<O> {
    /// The invariant of the type.
    pub closed spec fn wf(&self) -> bool {
        &&& self.buffer.wf()
        &&& is_offsets(self@)
    }

    /// The offsets as a buffer of their integer type.
    pub closed spec fn buffer_view(&self) -> Seq<O> {
        self.buffer@
    }

    /// What the invariant says of the view.
    pub proof fn lemma_offsets(&self)
        requires
            self.wf(),
        ensures
            is_offsets(self@),
    {
    }

    /// The number of boundaries is one that the machine can hold.
    pub proof fn lemma_len(&self)
        requires
            self.wf(),
        ensures
            self@.len() <= usize::MAX,
    {
        self.buffer.lemma_view();
    }

    /// Returns [`OffsetsBuffer`] with the single boundary zero: no segment.
    pub fn new() -> (o: OffsetsBuffer<O>)
        ensures
            o.wf(),
            o@ == seq![0int],
    {
        OffsetsBuffer::from_offsets(Offsets::new())
    }

    /// Makes these offsets final. No value is copied.
    pub fn from_offsets(offsets: Offsets<O>) -> (o: OffsetsBuffer<O>)
        requires
            offsets.wf(),
        ensures
            o.wf(),
            o@ == offsets@,
    {
        OffsetsBuffer { buffer: Buffer::from_vec(offsets.values) }
    }

    /// The number of segments: one less than the number of boundaries.
    #[inline]
    pub fn len_proxy(&self) -> (n: usize)
        requires
            self.wf(),
        ensures
            n == self@.len() - 1,
    {
        self.buffer.len() - 1
    }

    /// The number of boundaries.
    #[inline]
    pub fn len(&self) -> (n: usize)
        requires
            self.wf(),
        ensures
            n == self@.len(),
    {
        self.buffer.len()
    }

    /// The buffer of the boundaries.
    #[inline]
    pub fn buffer(&self) -> (b: &Buffer<O>)
        requires
            self.wf(),
        ensures
            b.wf(),
            b@ == self.buffer_view(),
            ints(b@) == self@,
    {
        &self.buffer
    }

    /// The boundaries as a buffer of their integer type.
    #[inline]
    pub fn into_buffer(self) -> (b: Buffer<O>)
        requires
            self.wf(),
        ensures
            b.wf(),
            b@ == self.buffer_view(),
            ints(b@) == self@,
    {
        self.buffer
    }

    /// The first boundary.
    #[inline]
    pub fn first(&self) -> (o: O)
        requires
            self.wf(),
        ensures
            o.to_int() == self@[0],
    {
        *self.buffer.get(0)
    }

    /// The last boundary.
    #[inline]
    pub fn last(&self) -> (o: O)
        requires
            self.wf(),
        ensures
            o.to_int() == self@.last(),
    {
        *self.buffer.get(self.buffer.len() - 1)
    }

    /// The boundaries of segment `index`.
    /// The caller ensures that `index < self.len_proxy()` and that the
    /// boundaries are indices on this machine.
    #[inline]
    pub fn start_end(&self, index: usize) -> (r: (usize, usize))
        requires
            self.wf(),
            index < self@.len() - 1,
            self@.last() <= usize::MAX,
        ensures
            r.0 == self@[index as int],
            r.1 == self@[index + 1],
            r.0 <= r.1,
    {
        self.start_end_unchecked(index)
    }

    /// The boundaries of segment `index`.
    /// The caller ensures that `index < self.len_proxy()` and that the
    /// boundaries are indices on this machine.
    #[inline]
    pub fn start_end_unchecked(&self, index: usize) -> (r: (usize, usize))
        requires
            self.wf(),
            index < self@.len() - 1,
            self@.last() <= usize::MAX,
        ensures
            r.0 == self@[index as int],
            r.1 == self@[index + 1],
            r.0 <= r.1,
    {
        proof {
            self.buffer.lemma_view();
        }
        let start = self.buffer.get(index);
        let end = self.buffer.get(index + 1);
        proof {
            let s = self@;
            assert(s[index as int] <= s[index + 1]);
            assert(s[index + 1] <= s[s.len() - 1]);
            assert(s[index as int] >= 0);
        }
        (start.to_usize(), end.to_usize())
    }

    /// Keeps the `length` segments from segment `offset` on, that is the
    /// boundaries `offset` to `offset + length`. No value is copied.
    /// The caller ensures that `offset + length <= self.len_proxy()`.
    #[inline]
    pub fn slice(&mut self, offset: usize, length: usize)
        requires
            old(self).wf(),
            offset + length <= old(self)@.len() - 1,
        ensures
            final(self).wf(),
            final(self)@ == old(self)@.subrange(offset as int, offset + length + 1),
    {
        self.slice_unchecked(offset, length)
    }

    /// Keeps the `length` segments from segment `offset` on, that is the
    /// boundaries `offset` to `offset + length`. No value is copied.
    /// The caller ensures that `offset + length <= self.len_proxy()`.
    #[inline]
    pub fn slice_unchecked(&mut self, offset: usize, length: usize)
        requires
            old(self).wf(),
            offset + length <= old(self)@.len() - 1,
        ensures
            final(self).wf(),
            final(self)@ == old(self)@.subrange(offset as int, offset + length + 1),
    {
        let ghost before = self@;
        proof {
            self.buffer.lemma_view();
        }
        self.buffer.slice_unchecked(offset, length + 1);
        proof {
            let after = self@;
            assert(after =~= before.subrange(offset as int, offset + length + 1));
            assert forall|i: int, j: int| 0 <= i <= j < after.len() implies after[i] <= after[j] by {
                assert(before[offset + i] <= before[offset + j]);
            }
            assert forall|i: int| 0 <= i < after.len() implies after[i] >= 0 by {
                assert(before[offset + i] >= 0);
            }
        }
    }
}

impl<O: Offset> Clone for OffsetsBuffer<O> {
    /// Offsets over the same allocation.
    fn clone(&self) -> (r: OffsetsBuffer<O>)
        ensures
            r == *self,
    {
        OffsetsBuffer { buffer: self.buffer.clone() }
    }
}

/// Checks that offsets stay within a child of `length` values.
/// # Errors
/// This function errors iff the last offset exceeds `length`.
pub fn try_check_offsets_bounds<O: Offset>(offsets: &OffsetsBuffer<O>, length: usize) -> (r: Result<
    (),
    Error,
>)
    requires
        offsets.wf(),
    ensures
        r is Ok <==> offsets@.last() <= length,
        r matches Err(e) ==> e is OutOfSpec,
{
    let last = offsets.last().to_i64();
    proof {
        assert(offsets@[offsets@.len() - 1] >= 0);
    }
    if last as u64 > length as u64 {
        Err(Error::oos("offsets must not exceed the values length"))
    } else {
        Ok(())
    }
}

} // verus!
