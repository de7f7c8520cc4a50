//! Arrays of booleans, bit-packed.
use vstd::prelude::*;
use crate::bitmap::Bitmap;
use crate::datatypes::{DataType, DataTypeView, PhysicalType};
use crate::error::Error;
use super::{bits, validity_matches};

pub mod iterator;
pub mod mutable;

pub use mutable::MutableBooleanArray;

verus! {

/// The mathematical value of a [`BooleanArray`].
pub struct BooleanView {
    pub data_type: DataTypeView,
    pub values: Seq<bool>,
    pub validity: Option<Seq<bool>>,
}

impl BooleanView {
    /// What holds of the view of every well-formed array: the validity, if
    /// any, has one bit for each value.
    pub open spec fn valid(self) -> bool {
        self.validity matches Some(v) ==> v.len() == self.values.len()
    }

    /// The view of the `length` slots from `offset` on.
    pub open spec fn sliced(self, offset: int, length: int) -> BooleanView {
        BooleanView {
            data_type: self.data_type,
            values: self.values.subrange(offset, offset + length),
            validity: match self.validity {
                Some(v) => Some(v.subrange(offset, offset + length)),
                None => None,
            },
        }
    }
}

/// An array of booleans, each of which may be null. One bit holds a value.
/// A null slot still holds a value, which means nothing.
pub struct BooleanArray {
    pub(super) data_type: DataType,
    pub(super) values: Bitmap,
    pub(super) validity: Option<Bitmap>,
}

impl BooleanArray {
    /// The mathematical value of the array.
    pub closed spec fn view(&self) -> BooleanView {
        BooleanView { data_type: self.data_type@, values: self.values@, validity: bits(self.validity) }
    }

    /// The logical type of the array.
    pub closed spec fn spec_data_type(&self) -> DataType {
        self.data_type
    }

    /// The invariant of the type: the validity, if any, has one bit for each
    /// value, and the logical type is one that is stored as bits.
    pub closed spec fn wf(&self) -> bool {
        &&& self.values.wf()
        &&& validity_matches(self.validity, self.values@.len())
        &&& self.data_type.physical_type() == PhysicalType::Boolean
    }

    /// What the invariant says of the view.
    pub proof fn lemma_wf(&self)
        requires
            self.wf(),
        ensures
            self@.data_type == self.spec_data_type()@,
            self.spec_data_type().physical_type() == PhysicalType::Boolean,
            self@.values.len() <= usize::MAX,
            self@.valid(),
    {
        self.values.lemma_view();
    }

    /// The canonical method to create a [`BooleanArray`] out of low-end APIs.
    /// # Errors
    /// This function errors iff:
    /// * The validity is not `None` and its length is different from `values`'s length
    /// * The `data_type`'s [`PhysicalType`] is not equal to [`PhysicalType::Boolean`].
    pub fn try_new(data_type: DataType, values: Bitmap, validity: Option<Bitmap>) -> (r: Result<
        Self,
        Error,
    >)
        requires
            values.wf(),
            validity matches Some(b) ==> b.wf(),
        ensures
            r is Ok <==> {
                &&& validity matches Some(b) ==> b@.len() == values@.len()
                &&& data_type.physical_type() == PhysicalType::Boolean
            },
            r matches Ok(a) ==> a.wf() && a.spec_data_type() == data_type && a@ == (BooleanView {
                data_type: data_type@,
                values: values@,
                validity: bits(validity),
            }),
            r matches Err(e) ==> e is OutOfSpec,
    {
        if let Some(b) = &validity {
            if b.len() != values.len() {
                return Err(
                    Error::oos("validity mask length must match the number of values"),
                );
            }
        }
        if data_type.to_physical_type() != PhysicalType::Boolean {
            return Err(
                Error::oos(
                    "BooleanArray can only be initialized with a DataType whose physical type is Boolean",
                ),
            );
        }
        Ok(Self { data_type, values, validity })
    }

    /// Creates a [`BooleanArray`] out of its internal components.
    /// The caller ensures what [`Self::try_new`] checks.
    pub fn new(data_type: DataType, values: Bitmap, validity: Option<Bitmap>) -> (a: Self)
        requires
            values.wf(),
            validity matches Some(b) ==> b.wf() && b@.len() == values@.len(),
            data_type.physical_type() == PhysicalType::Boolean,
        ensures
            a.wf(),
            a.spec_data_type() == data_type,
            a@ == (BooleanView { data_type: data_type@, values: values@, validity: bits(validity) }),
    {
        Self { data_type, values, validity }
    }

    /// Creates a (non-null) [`BooleanArray`] of these values.
    pub fn from_slice(values: &[bool]) -> (a: Self)
        ensures
            a.wf(),
            a.spec_data_type() == DataType::Boolean,
            a@ == (BooleanView { data_type: DataTypeView::Boolean, values: values@, validity: None }),
    {
        Self { data_type: DataType::Boolean, values: Bitmap::from_bools(values), validity: None }
    }

    /// Returns a new empty (zero-length) [`BooleanArray`].
    /// The caller ensures that values of this logical type are stored as bits.
    pub fn new_empty(data_type: DataType) -> (a: Self)
        requires
            data_type.physical_type() == PhysicalType::Boolean,
        ensures
            a.wf(),
            a.spec_data_type() == data_type,
            a@ == (BooleanView {
                data_type: data_type@,
                values: Seq::<bool>::empty(),
                validity: None,
            }),
    {
        let values = Bitmap::new_zeroed(0);
        proof {
            assert(values@ =~= Seq::<bool>::empty());
        }
        Self { data_type, values, validity: None }
    }

    /// The length of the array
    #[inline]
    pub fn len(&self) -> (n: usize)
        requires
            self.wf(),
        ensures
            n == self@.values.len(),
    {
        self.values.len()
    }

    /// The values [`Bitmap`].
    /// Values on null slots are undetermined (they can be anything).
    #[inline]
    pub fn values(&self) -> (r: &Bitmap)
        requires
            self.wf(),
        ensures
            r.wf(),
            r@ == self@.values,
    {
        &self.values
    }

    /// The validity, if any.
    pub closed spec fn spec_validity(&self) -> Option<Bitmap> {
        self.validity
    }

    /// The optional validity.
    #[inline]
    pub fn validity(&self) -> (r: Option<&Bitmap>)
        requires
            self.wf(),
        ensures
            r matches Some(b) ==> b.wf() && b@.len() == self@.values.len(),
            bits(self.spec_validity()) == self@.validity,
            r == match self.spec_validity() {
                Some(b) => Some(&b),
                None => None,
            },
    {
        self.validity.as_ref()
    }

    /// The array's logical type
    #[inline]
    pub fn data_type(&self) -> (r: &DataType)
        ensures
            *r == self.spec_data_type(),
            r@ == self@.data_type,
    {
        &self.data_type
    }

    /// The value at slot `i`, whether the slot is null or not.
    /// The caller ensures that `i < self.len()`.
    #[inline]
    pub fn value(&self, i: usize) -> (v: bool)
        requires
            self.wf(),
            i < self@.values.len(),
        ensures
            v == self@.values[i as int],
    {
        self.values.get(i)
    }

    /// Slices this [`BooleanArray`]. No bit is copied.
    /// The caller ensures that `offset + length <= self.len()`.
    #[inline]
    pub fn slice(&mut self, offset: usize, length: usize)
        requires
            old(self).wf(),
            offset + length <= old(self)@.values.len(),
        ensures
            final(self).wf(),
            final(self).spec_data_type() == old(self).spec_data_type(),
            final(self)@ == old(self)@.sliced(offset as int, length as int),
    {
        self.slice_unchecked(offset, length)
    }

    /// Slices this [`BooleanArray`]. No bit is copied.
    /// The caller ensures that `offset + length <= self.len()`.
    #[inline]
    pub fn slice_unchecked(&mut self, offset: usize, length: usize)
        requires
            old(self).wf(),
            offset + length <= old(self)@.values.len(),
        ensures
            final(self).wf(),
            final(self).spec_data_type() == old(self).spec_data_type(),
            final(self)@ == old(self)@.sliced(offset as int, length as int),
    {
        if let Some(b) = &mut self.validity {
            b.slice_unchecked(offset, length);
        }
        self.values.slice_unchecked(offset, length);
    }

    /// This array sliced by an offset and length. No bit is copied.
    /// The caller ensures that `offset + length <= self.len()`.
    #[inline]
    #[must_use]
    pub fn sliced(self, offset: usize, length: usize) -> (r: Self)
        requires
            self.wf(),
            offset + length <= self@.values.len(),
        ensures
            r.wf(),
            r.spec_data_type() == self.spec_data_type(),
            r@ == self@.sliced(offset as int, length as int),
    {
        let mut r = self;
        r.slice_unchecked(offset, length);
        r
    }

    /// This array with its validity replaced.
    /// The caller ensures that the validity, if any, has `self.len()` bits.
    #[inline]
    #[must_use]
    pub fn with_validity(self, validity: Option<Bitmap>) -> (r: Self)
        requires
            self.wf(),
            validity matches Some(b) ==> b.wf() && b@.len() == self@.values.len(),
        ensures
            r.wf(),
            r.spec_data_type() == self.spec_data_type(),
            r@ == (BooleanView { validity: bits(validity), ..self@ }),
    {
        Self { data_type: self.data_type, values: self.values, validity }
    }
}

impl Clone for BooleanArray {
    /// An array over the same allocations.
    fn clone(&self) -> (r: Self)
        ensures
            r == *self,
    {
        Self {
            data_type: self.data_type.clone(),
            values: self.values.clone(),
            validity: match &self.validity {
                Some(b) => Some(b.clone()),
                None => None,
            },
        }
    }
}

} // verus!
