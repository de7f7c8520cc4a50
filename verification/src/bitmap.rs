//! Bit-packed sequences of booleans: the immutable, sliceable [`Bitmap`]
//! and its growable form [`MutableBitmap`].
use vstd::prelude::*;
use std::sync::Arc;
use crate::error::Error;
use crate::shared::{share, unshare};

verus! {

/// Whether bit `k` of `byte` is set, the least significant bit being bit 0.
pub open spec fn is_set(byte: u8, k: u8) -> bool {
    (byte >> k) & 1u8 == 1u8
}

/// Bit `i` of a byte sequence read as a bit sequence, least significant bit first.
pub open spec fn bit_at(bytes: Seq<u8>, i: int) -> bool {
    is_set(bytes[i / 8], (i % 8) as u8)
}

/// The `len` bits of `bytes` that start at bit `offset`.
pub open spec fn bits_of(bytes: Seq<u8>, offset: int, len: nat) -> Seq<bool> {
    Seq::new(len, |i: int| bit_at(bytes, offset + i))
}

/// The number of `false` entries of `bits`.
pub open spec fn count_unset(bits: Seq<bool>) -> nat
    decreases bits.len(),
{
    if bits.len() == 0 {
        0
    } else {
        count_unset(bits.drop_last()) + if bits.last() {
            0nat
        } else {
            1nat
        }
    }
}

/// The number of bytes that hold `bits` bits.
pub open spec fn bytes_for(bits: nat) -> nat {
    ((bits + 7) / 8) as nat
}

/// Counting one bit more adds one exactly when that bit is unset.
pub proof fn lemma_count_unset_step(bits: Seq<bool>, n: int)
    requires
        0 <= n < bits.len(),
    ensures
        count_unset(bits.subrange(0, n + 1)) == count_unset(bits.subrange(0, n)) + if bits[n] {
            0nat
        } else {
            1nat
        },
{
    assert(bits.subrange(0, n + 1).drop_last() =~= bits.subrange(0, n));
}

/// A sequence without a set bit has as many unset bits as bits.
pub proof fn lemma_count_unset_all(bits: Seq<bool>)
    requires
        forall|i: int| 0 <= i < bits.len() ==> !bits[i],
    ensures
        count_unset(bits) == bits.len(),
    decreases bits.len(),
{
    if bits.len() > 0 {
        lemma_count_unset_all(bits.drop_last());
    }
}

/// Reads bit `i` of `bytes`.
fn get_bit(bytes: &Vec<u8>, i: usize) -> (b: bool)
    requires
        i < bytes@.len() * 8,
    ensures
        b == bit_at(bytes@, i as int),
{
    let byte = bytes[i / 8];
    let k: u8 = (i % 8) as u8;
    (byte >> k) & 1u8 == 1u8
}

/// Counts the unset bits among the `length` bits of `bytes` that start at `offset`.
fn count_zeros(bytes: &Vec<u8>, offset: usize, length: usize) -> (n: usize)
    requires
        offset + length <= bytes@.len() * 8,
        offset + length <= usize::MAX,
    ensures
        n == count_unset(bits_of(bytes@, offset as int, length as nat)),
{
    let ghost bits = bits_of(bytes@, offset as int, length as nat);
    let mut n: usize = 0;
    let mut i: usize = 0;
    while i < length
        invariant
            i <= length,
            offset + length <= bytes@.len() * 8,
            offset + length <= usize::MAX,
            bits == bits_of(bytes@, offset as int, length as nat),
            n == count_unset(bits.subrange(0, i as int)),
            n <= i,
        decreases length - i,
    {
        proof {
            lemma_count_unset_step(bits, i as int);
        }
        if !get_bit(bytes, offset + i) {
            n = n + 1;
        }
        i = i + 1;
    }
    proof {
        assert(bits.subrange(0, length as int) =~= bits);
    }
    n
}

/// An immutable bit-packed sequence of booleans. Slicing moves a window over
/// the shared bytes; the number of unset bits in the window is kept at hand.
pub struct Bitmap {
    bytes: Arc<Vec<u8>>,
    // both are measured in bits
    offset: usize,
    length: usize,
    unset_bits: usize,
}

impl View for Bitmap {
    type V = Seq<bool>;

    closed spec fn view(&self) -> Seq<bool> {
        bits_of(self.bytes@, self.offset as int, self.length as nat)
    }
}

impl Bitmap {
    /// The invariant of the type: the window lies within the bytes and the
    /// count of unset bits is that of the window.
    pub closed spec fn wf(&self) -> bool {
        &&& self.offset + self.length <= self.bytes@.len() * 8
        &&& self.offset + self.length <= usize::MAX
        &&& self.unset_bits == count_unset(self@)
    }

    /// The bytes behind the window, shared by all slices of one bitmap.
    pub closed spec fn backing(&self) -> Seq<u8> {
        self.bytes@
    }

    /// The bit at which the window starts in [`Self::backing`].
    pub closed spec fn start(&self) -> nat {
        self.offset as nat
    }

    /// The window is what [`Self::backing`] holds from [`Self::start`] on,
    /// and its length is one that the machine can hold.
    pub proof fn lemma_view(&self)
        ensures
            self@ == bits_of(self.backing(), self.start() as int, self@.len()),
            self@.len() <= usize::MAX,
    {
    }

    /// Initializes a new [`Bitmap`] from bytes, of which the first `length` bits are taken.
    /// # Errors
    /// This function errors iff `length > bytes.len() * 8`
    pub fn try_new(bytes: Vec<u8>, length: usize) -> (r: Result<Bitmap, Error>)
        ensures
            r is Ok <==> length <= bytes@.len() * 8,
            r matches Ok(b) ==> b.wf() && b@ == bits_of(bytes@, 0, length as nat)
                && b.backing() == bytes@ && b.start() == 0,
            r matches Err(e) ==> e is OutOfSpec,
    {
        if length / 8 > bytes.len() || (length / 8 == bytes.len() && length % 8 != 0) {
            return Err(Error::oos("the length of the bitmap must not exceed the number of bits"));
        }
        let unset_bits = count_zeros(&bytes, 0, length);
        Ok(Bitmap { bytes: Arc::new(bytes), offset: 0, length, unset_bits })
    }

    /// Initializes a new [`Bitmap`] of `length` bits, all unset.
    pub fn new_zeroed(length: usize) -> (b: Bitmap)
        ensures
            b.wf(),
            b@ == Seq::new(length as nat, |i: int| false),
    {
        let n = length / 8 + if length % 8 != 0 { 1usize } else { 0usize };
        let mut bytes: Vec<u8> = Vec::new();
        let mut i: usize = 0;
        while i < n
            invariant
                i <= n,
                bytes@.len() == i,
                forall|j: int| 0 <= j < i ==> bytes@[j] == 0u8,
            decreases n - i,
        {
            bytes.push(0u8);
            i = i + 1;
        }
        let b = Bitmap { bytes: Arc::new(bytes), offset: 0, length, unset_bits: length };
        proof {
            assert(forall|k: u8| k < 8 ==> !is_set(0u8, k)) by {
                assert(forall|k: u8| k < 8 ==> (0u8 >> k) & 1u8 != 1u8) by (bit_vector);
            }
            assert(b@ =~= Seq::new(length as nat, |i: int| false));
            lemma_count_unset_all(b@);
        }
        b
    }

    /// The parts of the bitmap: the bytes, and the first bit and the number
    /// of bits of the window. The bytes are handed over where this bitmap is
    /// their only holder; else they are copied.
    pub fn into_inner(self) -> (parts: (Vec<u8>, usize, usize))
        requires
            self.wf(),
        ensures
            parts.1 + parts.2 <= parts.0@.len() * 8,
            parts.1 + parts.2 <= usize::MAX,
            bits_of(parts.0@, parts.1 as int, parts.2 as nat) == self@,
    {
        (unshare(self.bytes), self.offset, self.length)
    }

    /// The number of bits.
    #[inline]
    pub fn len(&self) -> (n: usize)
        ensures
            n == self@.len(),
    {
        self.length
    }

    /// Whether the bitmap holds no bit.
    #[inline]
    pub fn is_empty(&self) -> (e: bool)
        ensures
            e == (self@.len() == 0),
    {
        self.length == 0
    }

    /// The number of unset bits, known without counting.
    #[inline]
    pub fn unset_bits(&self) -> (n: usize)
        requires
            self.wf(),
        ensures
            n == count_unset(self@),
    {
        self.unset_bits
    }

    /// The bit at position `i`.
    #[inline]
    pub fn get(&self, i: usize) -> (b: bool)
        requires
            self.wf(),
            i < self@.len(),
        ensures
            b == self@[i as int],
    {
        get_bit(&self.bytes, self.offset + i)
    }

    /// All bits, in order.
    pub fn iter(&self) -> (bits: Vec<bool>)
        requires
            self.wf(),
        ensures
            bits@ == self@,
    {
        let mut bits: Vec<bool> = Vec::new();
        let mut i: usize = 0;
        while i < self.length
            invariant
                self.wf(),
                i <= self.length,
                bits@ == self@.subrange(0, i as int),
            decreases self.length - i,
        {
            bits.push(self.get(i));
            i = i + 1;
            proof {
                assert(bits@ =~= self@.subrange(0, i as int));
            }
        }
        proof {
            assert(self@.subrange(0, self.length as int) =~= self@);
        }
        bits
    }

    /// Narrows the window to the `length` bits from `offset` on. No byte is copied.
    /// The caller ensures that `offset + length <= self.len()`.
    #[inline]
    pub fn slice(&mut self, offset: usize, length: usize)
        requires
            old(self).wf(),
            offset + length <= old(self)@.len(),
        ensures
            final(self).wf(),
            final(self)@ == old(self)@.subrange(offset as int, offset + length),
            final(self).backing() == old(self).backing(),
            final(self).start() == old(self).start() + offset,
    {
        self.slice_unchecked(offset, length)
    }

    /// Narrows the window to the `length` bits from `offset` on. No byte is copied.
    /// The caller ensures that `offset + length <= self.len()`.
    pub fn slice_unchecked(&mut self, offset: usize, length: usize)
        requires
            old(self).wf(),
            offset + length <= old(self)@.len(),
        ensures
            final(self).wf(),
            final(self)@ == old(self)@.subrange(offset as int, offset + length),
            final(self).backing() == old(self).backing(),
            final(self).start() == old(self).start() + offset,
    {
        let start = self.offset + offset;
        let unset_bits = count_zeros(&self.bytes, start, length);
        self.offset = start;
        self.length = length;
        self.unset_bits = unset_bits;
        proof {
            assert(self@ =~= old(self)@.subrange(offset as int, offset + length));
        }
    }

    /// This bitmap narrowed to the `length` bits from `offset` on.
    /// The caller ensures that `offset + length <= self.len()`.
    #[inline]
    #[must_use]
    pub fn sliced(self, offset: usize, length: usize) -> (r: Bitmap)
        requires
            self.wf(),
            offset + length <= self@.len(),
        ensures
            r.wf(),
            r@ == self@.subrange(offset as int, offset + length),
            r.backing() == self.backing(),
            r.start() == self.start() + offset,
    {
        let mut r = self;
        r.slice_unchecked(offset, length);
        r
    }
}

impl Clone for Bitmap {
    /// A bitmap over the same bytes.
    fn clone(&self) -> (r: Bitmap)
        ensures
            r == *self,
    {
        Bitmap {
            bytes: share(&self.bytes),
            offset: self.offset,
            length: self.length,
            unset_bits: self.unset_bits,
        }
    }
}

/// Setting or clearing bit `k` of a byte decides that bit and leaves the others.
proof fn lemma_write_bit(byte: u8, k: u8, j: u8)
    requires
        k < 8,
        j < 8,
    ensures
        is_set(byte | (1u8 << k), j) == (j == k || is_set(byte, j)),
        is_set(byte & !(1u8 << k), j) == (j != k && is_set(byte, j)),
{
    assert(((byte | (1u8 << k)) >> j) & 1u8 == 1u8 <==> (j == k || (byte >> j) & 1u8 == 1u8))
        by (bit_vector)
        requires
            k < 8,
            j < 8,
    ;
    assert(((byte & !(1u8 << k)) >> j) & 1u8 == 1u8 <==> (j != k && (byte >> j) & 1u8 == 1u8))
        by (bit_vector)
        requires
            k < 8,
            j < 8,
    ;
}

/// A growable bit-packed sequence of booleans, to be frozen into a [`Bitmap`].
pub struct MutableBitmap {
    buffer: Vec<u8>,
    // measured in bits
    length: usize,
}

impl View for MutableBitmap {
    type V = Seq<bool>;

    closed spec fn view(&self) -> Seq<bool> {
        bits_of(self.buffer@, 0, self.length as nat)
    }
}

impl MutableBitmap {
    /// The invariant of the type: there are exactly as many bytes as the bits need.
    pub closed spec fn wf(&self) -> bool {
        self.buffer@.len() == bytes_for(self.length as nat)
    }

    /// Initializes an empty [`MutableBitmap`].
    #[inline]
    pub fn new() -> (m: MutableBitmap)
        ensures
            m.wf(),
            m@ == Seq::<bool>::empty(),
    {
        let m = MutableBitmap { buffer: Vec::new(), length: 0 };
        proof {
            assert(m@ =~= Seq::<bool>::empty());
        }
        m
    }

    /// The number of bits.
    #[inline]
    pub fn len(&self) -> (n: usize)
        ensures
            n == self@.len(),
    {
        self.length
    }

    /// Whether the bitmap holds no bit.
    #[inline]
    pub fn is_empty(&self) -> (e: bool)
        ensures
            e == (self@.len() == 0),
    {
        self.length == 0
    }

    /// The bit at position `i`.
    #[inline]
    pub fn get(&self, i: usize) -> (b: bool)
        requires
            self.wf(),
            i < self@.len(),
        ensures
            b == self@[i as int],
    {
        get_bit(&self.buffer, i)
    }

    /// Appends one bit. The length must stay within `usize`.
    pub fn push(&mut self, value: bool)
        requires
            old(self).wf(),
            old(self)@.len() < usize::MAX,
        ensures
            final(self).wf(),
            final(self)@ == old(self)@.push(value),
    {
        if self.length % 8 == 0 {
            self.buffer.push(0u8);
        }
        let ghost before = self.buffer@;
        let last = self.buffer.len() - 1;
        let k: u8 = (self.length % 8) as u8;
        let byte = self.buffer[last];
        let written = if value {
            byte | (1u8 << k)
        } else {
            byte & !(1u8 << k)
        };
        self.buffer.set(last, written);
        self.length = self.length + 1;
        proof {
            assert forall|i: int| 0 <= i < self.length implies #[trigger] self@[i] == old(
                self,
            )@.push(value)[i] by {
                lemma_write_bit(byte, k, (i % 8) as u8);
                if i / 8 != last {
                    assert(self.buffer@[i / 8] == old(self).buffer@[i / 8]);
                }
            }
            assert(self@ =~= old(self)@.push(value));
        }
    }

    /// All bits, in order.
    pub fn iter(&self) -> (bits: Vec<bool>)
        requires
            self.wf(),
        ensures
            bits@ == self@,
    {
        let mut bits: Vec<bool> = Vec::new();
        let mut i: usize = 0;
        while i < self.length
            invariant
                self.wf(),
                i <= self.length,
                bits@ == self@.subrange(0, i as int),
            decreases self.length - i,
        {
            bits.push(self.get(i));
            i = i + 1;
            proof {
                assert(bits@ =~= self@.subrange(0, i as int));
            }
        }
        proof {
            assert(self@.subrange(0, self.length as int) =~= self@);
        }
        bits
    }

    /// Ends the growth: an immutable bitmap of the same bits. No byte is copied.
    pub fn freeze(self) -> (b: Bitmap)
        requires
            self.wf(),
        ensures
            b.wf(),
            b@ == self@,
    {
        let length = self.length;
        let unset_bits = count_zeros(&self.buffer, 0, length);
        Bitmap { bytes: Arc::new(self.buffer), offset: 0, length, unset_bits }
    }
}

impl Bitmap {
    /// A bitmap of the given bits.
    pub fn from_bools(values: &[bool]) -> (b: Bitmap)
        ensures
            b.wf(),
            b@ == values@,
    {
        let mut m = MutableBitmap::new();
        let mut i: usize = 0;
        while i < values.len()
            invariant
                i <= values@.len(),
                m.wf(),
                m@ == values@.subrange(0, i as int),
            decreases values@.len() - i,
        {
            m.push(values[i]);
            i = i + 1;
            proof {
                assert(m@ =~= values@.subrange(0, i as int));
            }
        }
        proof {
            assert(values@.subrange(0, values@.len() as int) =~= values@);
        }
        m.freeze()
    }
}

} // verus!
