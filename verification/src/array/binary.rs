//! Arrays of byte strings of variable length.
use vstd::prelude::*;
use crate::bitmap::Bitmap;
use crate::buffer::Buffer;
use crate::datatypes::{DataType, DataTypeView, PhysicalType};
use crate::error::Error;
use crate::offset::{try_check_offsets_bounds, Offset, OffsetsBuffer};
use super::{bits, validity_matches};

verus! {

/// The mathematical value of a [`BinaryArray`].
pub struct BinaryView {
    pub data_type: DataTypeView,
    pub offsets: Seq<int>,
    pub values: Seq<u8>,
    pub validity: Option<Seq<bool>>,
}

impl BinaryView {
    /// What holds of the view of every well-formed array: the offsets are
    /// offsets and stay within the bytes, and the validity, if any, has one
    /// bit for each slot.
    pub open spec fn valid(self) -> bool {
        &&& crate::offset::is_offsets(self.offsets)
        &&& self.offsets.last() <= self.values.len()
        &&& self.validity matches Some(v) ==> v.len() == self.len()
    }

    /// The number of slots.
    pub open spec fn len(self) -> nat {
        (self.offsets.len() - 1) as nat
    }

    /// The bytes of slot `i`, whether the slot is null or not.
    pub open spec fn value(self, i: int) -> Seq<u8> {
        self.values.subrange(self.offsets[i], self.offsets[i + 1])
    }

    /// The view of the `length` slots from `offset` on.
    pub open spec fn sliced(self, offset: int, length: int) -> BinaryView {
        BinaryView {
            data_type: self.data_type,
            offsets: self.offsets.subrange(offset, offset + length + 1),
            values: self.values,
            validity: match self.validity {
                Some(v) => Some(v.subrange(offset, offset + length)),
                None => None,
            },
        }
    }
}

/// The physical type of binary arrays with offsets of this width.
pub open spec fn binary_physical_type(large: bool) -> PhysicalType {
    if large {
        PhysicalType::LargeBinary
    } else {
        PhysicalType::Binary
    }
}

/// An array of byte strings, each of which may be null: offsets cut one
/// buffer of bytes into the strings. A null slot still has its, possibly
/// empty, segment.
pub struct BinaryArray<O: Offset> {
    data_type: DataType,
    offsets: OffsetsBuffer<O>,
    values: Buffer<u8>,
    validity: Option<Bitmap>,
}

impl<O: Offset> BinaryArray<O> {
    /// The mathematical value of the array.
    pub closed spec fn view(&self) -> BinaryView {
        BinaryView {
            data_type: self.data_type@,
            offsets: self.offsets@,
            values: self.values@,
            validity: bits(self.validity),
        }
    }

    /// The logical type of the array.
    pub closed spec fn spec_data_type(&self) -> DataType {
        self.data_type
    }

    /// The validity, if any.
    pub closed spec fn spec_validity(&self) -> Option<Bitmap> {
        self.validity
    }

    /// The invariant of the type: the offsets stay within the bytes, the
    /// validity, if any, has one bit for each slot, and the logical type is
    /// one of binary arrays with offsets of this width.
    pub closed spec fn wf(&self) -> bool {
        &&& self.offsets.wf()
        &&& self.values.wf()
        &&& self.offsets@.last() <= self.values@.len()
        &&& validity_matches(self.validity, (self.offsets@.len() - 1) as nat)
        &&& self.data_type.physical_type() == binary_physical_type(O::large())
    }

    /// What the invariant says of the view.
    pub proof fn lemma_wf(&self)
        requires
            self.wf(),
        ensures
            self@.data_type == self.spec_data_type()@,
            self.spec_data_type().physical_type() == binary_physical_type(O::large()),
            self@.valid(),
            self@.values.len() <= usize::MAX,
            self@.offsets.len() <= usize::MAX,
    {
        self.values.lemma_view();
        self.offsets.lemma_len();
        self.offsets.lemma_offsets();
    }

    /// Returns a [`BinaryArray`] created from its internal representation.
    /// # Errors
    /// This function returns an error iff:
    /// * The last offset is greater than the values' length.
    /// * the validity's length is not equal to `offsets.len_proxy()`.
    /// * The `data_type`'s [`PhysicalType`] is not equal to either `Binary` or `LargeBinary`,
    ///   whichever has offsets of this width.
    pub fn try_new(
        data_type: DataType,
        offsets: OffsetsBuffer<O>,
        values: Buffer<u8>,
        validity: Option<Bitmap>,
    ) -> (r: Result<Self, Error>)
        requires
            offsets.wf(),
            values.wf(),
            validity matches Some(b) ==> b.wf(),
        ensures
            r is Ok <==> {
                &&& offsets@.last() <= values@.len()
                &&& validity matches Some(b) ==> b@.len() == offsets@.len() - 1
                &&& data_type.physical_type() == binary_physical_type(O::large())
            },
            r matches Ok(a) ==> a.wf() && a.spec_data_type() == data_type && a@ == (BinaryView {
                data_type: data_type@,
                offsets: offsets@,
                values: values@,
                validity: bits(validity),
            }),
            r matches Err(e) ==> e is OutOfSpec,
    {
        if try_check_offsets_bounds(&offsets, values.len()).is_err() {
            return Err(Error::oos("offsets must not exceed the values length"));
        }
        if let Some(b) = &validity {
            if b.len() != offsets.len_proxy() {
                return Err(
                    Error::oos("validity mask length must match the number of values"),
                );
            }
        }
        let expected = if O::is_large() {
            PhysicalType::LargeBinary
        } else {
            PhysicalType::Binary
        };
        if data_type.to_physical_type() != expected {
            return Err(
                Error::oos(
                    "BinaryArray can only be initialized with DataType::Binary or DataType::LargeBinary",
                ),
            );
        }
        Ok(Self { data_type, offsets, values, validity })
    }

    /// Creates a new [`BinaryArray`].
    /// The caller ensures what [`Self::try_new`] checks.
    pub fn new(
        data_type: DataType,
        offsets: OffsetsBuffer<O>,
        values: Buffer<u8>,
        validity: Option<Bitmap>,
    ) -> (a: Self)
        requires
            offsets.wf(),
            values.wf(),
            offsets@.last() <= values@.len(),
            validity matches Some(b) ==> b.wf() && b@.len() == offsets@.len() - 1,
            data_type.physical_type() == binary_physical_type(O::large()),
        ensures
            a.wf(),
            a.spec_data_type() == data_type,
            a@ == (BinaryView {
                data_type: data_type@,
                offsets: offsets@,
                values: values@,
                validity: bits(validity),
            }),
    {
        Self { data_type, offsets, values, validity }
    }

    /// Creates an empty [`BinaryArray`], i.e. whose `.len` is zero.
    /// The caller ensures that the logical type is one of binary arrays with
    /// offsets of this width.
    pub fn new_empty(data_type: DataType) -> (a: Self)
        requires
            data_type.physical_type() == binary_physical_type(O::large()),
        ensures
            a.wf(),
            a.spec_data_type() == data_type,
            a@ == (BinaryView {
                data_type: data_type@,
                offsets: seq![0int],
                values: Seq::<u8>::empty(),
                validity: None,
            }),
    {
        Self {
            data_type,
            offsets: OffsetsBuffer::new(),
            values: Buffer::from_vec(Vec::new()),
            validity: None,
        }
    }

    /// The default [`DataType`]: `LargeBinary` for 64-bit offsets, else `Binary`.
    pub fn default_data_type() -> (r: DataType)
        ensures
            r == if O::large() {
                DataType::LargeBinary
            } else {
                DataType::Binary
            },
    {
        if O::is_large() {
            DataType::LargeBinary
        } else {
            DataType::Binary
        }
    }

    /// Returns the length of this array
    #[inline]
    pub fn len(&self) -> (n: usize)
        requires
            self.wf(),
        ensures
            n == self@.len(),
    {
        self.offsets.len_proxy()
    }

    /// Returns the element at index `i`, whether the slot is null or not.
    /// The caller ensures that `i < self.len()`.
    #[inline]
    pub fn value(&self, i: usize) -> (r: &[u8])
        requires
            self.wf(),
            i < self@.len(),
        ensures
            r@ == self@.value(i as int),
    {
        self.value_unchecked(i)
    }

    /// Returns the element at index `i`, whether the slot is null or not.
    /// The caller ensures that `i < self.len()`.
    #[inline]
    pub fn value_unchecked(&self, i: usize) -> (r: &[u8])
        requires
            self.wf(),
            i < self@.len(),
        ensures
            r@ == self@.value(i as int),
    {
        proof {
            self.values.lemma_view();
            let s = self.offsets@;
            self.offsets.lemma_offsets();
            assert(s[i + 1] <= s[s.len() - 1]);
        }
        let (start, end) = self.offsets.start_end_unchecked(i);
        vstd::slice::slice_subrange(self.values.as_slice(), start, end)
    }

    /// The optional validity.
    #[inline]
    pub fn validity(&self) -> (r: Option<&Bitmap>)
        requires
            self.wf(),
        ensures
            r matches Some(b) ==> b.wf() && b@.len() == self@.len(),
            bits(self.spec_validity()) == self@.validity,
            r == match self.spec_validity() {
                Some(b) => Some(&b),
                None => None,
            },
    {
        self.validity.as_ref()
    }

    /// Returns the offsets of this [`BinaryArray`].
    #[inline]
    pub fn offsets(&self) -> (r: &OffsetsBuffer<O>)
        requires
            self.wf(),
        ensures
            r.wf(),
            r@ == self@.offsets,
    {
        &self.offsets
    }

    /// Returns all values in this [`BinaryArray`].
    #[inline]
    pub fn values(&self) -> (r: &Buffer<u8>)
        requires
            self.wf(),
        ensures
            r.wf(),
            r@ == self@.values,
    {
        &self.values
    }

    /// The array's logical type
    #[inline]
    pub fn data_type(&self) -> (r: &DataType)
        ensures
            *r == self.spec_data_type(),
            r@ == self@.data_type,
    {
        &self.data_type
    }

    /// Slices this [`BinaryArray`]. No byte is copied.
    /// The caller ensures that `offset + length <= self.len()`.
    pub fn slice(&mut self, offset: usize, length: usize)
        requires
            old(self).wf(),
            offset + length <= old(self)@.len(),
        ensures
            final(self).wf(),
            final(self).spec_data_type() == old(self).spec_data_type(),
            final(self)@ == old(self)@.sliced(offset as int, length as int),
    {
        self.slice_unchecked(offset, length)
    }

    /// Slices this [`BinaryArray`]. No byte is copied.
    /// The caller ensures that `offset + length <= self.len()`.
    pub fn slice_unchecked(&mut self, offset: usize, length: usize)
        requires
            old(self).wf(),
            offset + length <= old(self)@.len(),
        ensures
            final(self).wf(),
            final(self).spec_data_type() == old(self).spec_data_type(),
            final(self)@ == old(self)@.sliced(offset as int, length as int),
    {
        proof {
            let s = self.offsets@;
            self.offsets.lemma_offsets();
            assert(s[offset + length] <= s[s.len() - 1]);
        }
        if let Some(b) = &mut self.validity {
            b.slice_unchecked(offset, length);
        }
        self.offsets.slice_unchecked(offset, length);
    }

    /// This array sliced by an offset and length. No byte is copied.
    /// The caller ensures that `offset + length <= self.len()`.
    #[inline]
    #[must_use]
    pub fn sliced(self, offset: usize, length: usize) -> (r: Self)
        requires
            self.wf(),
            offset + length <= self@.len(),
        ensures
            r.wf(),
            r.spec_data_type() == self.spec_data_type(),
            r@ == self@.sliced(offset as int, length as int),
    {
        let mut r = self;
        r.slice_unchecked(offset, length);
        r
    }

    /// This array with its validity replaced.
    /// The caller ensures that the validity, if any, has `self.len()` bits.
    #[inline]
    #[must_use]
    pub fn with_validity(self, validity: Option<Bitmap>) -> (r: Self)
        requires
            self.wf(),
            validity matches Some(b) ==> b.wf() && b@.len() == self@.len(),
        ensures
            r.wf(),
            r.spec_data_type() == self.spec_data_type(),
            r@ == (BinaryView { validity: bits(validity), ..self@ }),
    {
        Self { data_type: self.data_type, offsets: self.offsets, values: self.values, validity }
    }
}

impl<O: Offset> Clone for BinaryArray<O> {
    /// An array over the same allocations.
    fn clone(&self) -> (r: Self)
        ensures
            r == *self,
    {
        Self {
            data_type: self.data_type.clone(),
            offsets: self.offsets.clone(),
            values: self.values.clone(),
            validity: match &self.validity {
                Some(b) => Some(b.clone()),
                None => None,
            },
        }
    }
}

} // verus!
