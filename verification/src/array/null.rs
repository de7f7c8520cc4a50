//! The array whose every slot is null.
use vstd::prelude::*;
use crate::datatypes::{DataType, DataTypeView, PhysicalType};
use crate::error::Error;

verus! {

/// The mathematical value of a [`NullArray`].
pub struct NullView {
    pub data_type: DataTypeView,
    pub len: nat,
}

impl NullView {
    /// What holds of the view of every well-formed array: nothing.
    pub open spec fn valid(self) -> bool {
        true
    }

    /// The view of the `length` slots from `offset` on.
    pub open spec fn sliced(self, offset: int, length: int) -> NullView {
        NullView { data_type: self.data_type, len: length as nat }
    }
}

/// The concrete representation of [`DataType::Null`]: a length and nothing else.
pub struct NullArray {
    data_type: DataType,
    length: usize,
}

impl NullArray {
    /// The mathematical value of the array.
    pub closed spec fn view(&self) -> NullView {
        NullView { data_type: self.data_type@, len: self.length as nat }
    }

    /// The logical type of the array.
    pub closed spec fn spec_data_type(&self) -> DataType {
        self.data_type
    }

    /// The invariant of the type: the logical type is stored as nothing.
    pub closed spec fn wf(&self) -> bool {
        self.data_type.physical_type() == PhysicalType::Null
    }

    /// What the invariant says of the view.
    pub proof fn lemma_wf(&self)
        requires
            self.wf(),
        ensures
            self@.data_type == self.spec_data_type()@,
            self.spec_data_type().physical_type() == PhysicalType::Null,
            self@.len <= usize::MAX,
    {
    }

    /// Returns a new [`NullArray`].
    /// # Errors
    /// This function errors iff the `data_type`'s [`PhysicalType`] is not [`PhysicalType::Null`].
    pub fn try_new(data_type: DataType, length: usize) -> (r: Result<Self, Error>)
        ensures
            r is Ok <==> data_type.physical_type() == PhysicalType::Null,
            r matches Ok(a) ==> a.wf() && a.spec_data_type() == data_type && a@ == (NullView {
                data_type: data_type@,
                len: length as nat,
            }),
            r matches Err(e) ==> e is OutOfSpec,
    {
        if data_type.to_physical_type() != PhysicalType::Null {
            return Err(
                Error::oos("NullArray can only be initialized with a DataType whose physical type is Null"),
            );
        }
        Ok(Self { data_type, length })
    }

    /// Returns a new [`NullArray`].
    /// The caller ensures what [`Self::try_new`] checks.
    pub fn new(data_type: DataType, length: usize) -> (a: Self)
        requires
            data_type.physical_type() == PhysicalType::Null,
        ensures
            a.wf(),
            a.spec_data_type() == data_type,
            a@ == (NullView { data_type: data_type@, len: length as nat }),
    {
        Self { data_type, length }
    }

    /// The length of the array
    #[inline]
    pub fn len(&self) -> (n: usize)
        ensures
            n == self@.len,
    {
        self.length
    }

    /// The array's logical type
    #[inline]
    pub fn data_type(&self) -> (r: &DataType)
        ensures
            *r == self.spec_data_type(),
            r@ == self@.data_type,
    {
        &self.data_type
    }

    /// Slices the [`NullArray`].
    /// The caller ensures that `offset + length <= self.len()`.
    pub fn slice(&mut self, offset: usize, length: usize)
        requires
            old(self).wf(),
            offset + length <= old(self)@.len,
        ensures
            final(self).wf(),
            final(self).spec_data_type() == old(self).spec_data_type(),
            final(self)@ == old(self)@.sliced(offset as int, length as int),
    {
        self.slice_unchecked(offset, length)
    }

    /// Slices the [`NullArray`].
    /// The caller ensures that `offset + length <= self.len()`.
    pub fn slice_unchecked(&mut self, offset: usize, length: usize)
        requires
            old(self).wf(),
            offset + length <= old(self)@.len,
        ensures
            final(self).wf(),
            final(self).spec_data_type() == old(self).spec_data_type(),
            final(self)@ == old(self)@.sliced(offset as int, length as int),
    {
        self.length = length;
    }

    /// This array sliced by an offset and length.
    /// The caller ensures that `offset + length <= self.len()`.
    #[inline]
    #[must_use]
    pub fn sliced(self, offset: usize, length: usize) -> (r: Self)
        requires
            self.wf(),
            offset + length <= self@.len,
        ensures
            r.wf(),
            r.spec_data_type() == self.spec_data_type(),
            r@ == self@.sliced(offset as int, length as int),
    {
        let mut r = self;
        r.slice_unchecked(offset, length);
        r
    }
}

impl Clone for NullArray {
    fn clone(&self) -> (r: Self)
        ensures
            r == *self,
    {
        Self { data_type: self.data_type.clone(), length: self.length }
    }
}

} // verus!
