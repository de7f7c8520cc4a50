//! Arrays of lists that all have the same number of items.
use vstd::prelude::*;
use std::sync::Arc;
use crate::bitmap::Bitmap;
use crate::datatypes::{DataType, DataTypeView, Field};
use crate::error::Error;
use crate::shared::share;
use super::{bits, lemma_logical_type, new_empty_array, validity_matches, Array, ArrayView};

verus! {

/// The mathematical value of a [`FixedSizeListArray`].
pub struct FixedSizeListView {
    pub data_type: DataTypeView,
    /// The number of items of each list.
    pub size: nat,
    /// The whole child.
    pub values: Box<ArrayView>,
    /// The list of the child at which the slots start.
    pub start: nat,
    /// The number of slots.
    pub length: nat,
    pub validity: Option<Seq<bool>>,
}

impl FixedSizeListView {
    /// What holds of the view of every well-formed array: the slots lie
    /// within the child, the validity, if any, has one bit for each slot,
    /// and the same holds of the child.
    pub open spec fn valid(self) -> bool
        decreases self,
    {
        &&& (self.start + self.length) * self.size <= self.values.len()
        &&& self.validity matches Some(v) ==> v.len() == self.length
        &&& self.values.valid()
    }

    /// The number of slots.
    pub open spec fn len(self) -> nat {
        self.length
    }

    /// The list at slot `i`, whether the slot is null or not: `size` slots
    /// of the child.
    pub open spec fn value(self, i: int) -> ArrayView {
        self.values.sliced((self.start + i) * self.size, self.size as int)
    }

    /// The view of the `length` slots from `offset` on. The child is kept whole.
    pub open spec fn sliced(self, offset: int, length: int) -> FixedSizeListView {
        FixedSizeListView {
            data_type: self.data_type,
            size: self.size,
            values: self.values,
            start: (self.start + offset) as nat,
            length: length as nat,
            validity: match self.validity {
                Some(v) => Some(v.subrange(offset, offset + length)),
                None => None,
            },
        }
    }

    /// Slicing keeps what holds of the view of every well-formed array.
    pub proof fn lemma_sliced(self, offset: int, length: int)
        requires
            self.valid(),
            0 <= offset,
            0 <= length,
            offset + length <= self.len(),
        ensures
            self.sliced(offset, length).valid(),
            self.sliced(offset, length).len() == length,
    {
        assert((self.start + offset + length) * self.size <= (self.start + self.length)
            * self.size) by (nonlinear_arith)
            requires
                offset + length <= self.length,
                self.size >= 0,
                self.start >= 0,
        ;
    }

    /// The slicing law: slot `i` of a slice that starts at slot `offset` is
    /// slot `i + offset` of the whole.
    pub proof fn lemma_sliced_value(self, offset: int, length: int, i: int)
        requires
            self.valid(),
            0 <= offset,
            0 <= length,
            offset + length <= self.len(),
            0 <= i < length,
        ensures
            self.sliced(offset, length).value(i) == self.value(i + offset),
    {
        assert(self.start + offset + i == self.start + (i + offset));
    }

    /// The list at a slot has `size` slots and the type of the child.
    pub proof fn lemma_value_len(self, i: int)
        requires
            self.valid(),
            0 <= i < self.len(),
        ensures
            self.value(i).len() == self.size,
            self.value(i).data_type() == self.values.data_type(),
            self.value(i).valid(),
    {
        self.lemma_slot(i);
        self.values.lemma_sliced((self.start + i) * self.size, self.size as int);
    }

    /// The items of slot `i` lie within the child.
    pub proof fn lemma_slot(self, i: int)
        requires
            self.valid(),
            0 <= i < self.len(),
        ensures
            0 <= (self.start + i) * self.size,
            (self.start + i) * self.size + self.size <= self.values.len(),
    {
        assert((self.start + i) * self.size + self.size <= (self.start + self.length) * self.size
            && 0 <= (self.start + i) * self.size) by (nonlinear_arith)
            requires
                0 <= i < self.length,
                self.size >= 0,
                self.start >= 0,
        ;
    }
}

/// The field of the lists' items and the number of items of each list that
/// a logical type declares, if the type is, under its extension names, a
/// list type of a fixed size.
pub open spec fn fixed_size_child(data_type: DataType) -> Option<(Field, usize)> {
    match data_type.logical_type() {
        DataType::FixedSizeList(field, size) => Some((*field, size)),
        _ => None,
    }
}

/// Whether a list array of a fixed size is made of these parts: the logical
/// type is a list type of a fixed size that is not zero, the child is of the
/// type of the items, the length of the child is a multiple of the size, and
/// the validity, if any, has one bit for each list.
pub open spec fn fixed_size_list_accepts(
    data_type: DataType,
    values: ArrayView,
    validity: Option<Seq<bool>>,
) -> bool {
    match fixed_size_child(data_type) {
        Some((child, size)) => {
            &&& size > 0
            &&& child.data_type@ == values.data_type()
            &&& values.len() % (size as nat) == 0
            &&& validity matches Some(v) ==> v.len() == values.len() / (size as nat)
        },
        None => false,
    }
}

/// The field of the lists' items that a list type of a fixed size declares.
pub open spec fn fixed_size_field(data_type: DataType) -> Field {
    match fixed_size_child(data_type) {
        Some((field, _)) => field,
        None => arbitrary(),
    }
}

/// The number of items of each list that a list type of a fixed size declares.
pub open spec fn fixed_size_of(data_type: DataType) -> nat {
    match fixed_size_child(data_type) {
        Some((_, size)) => size as nat,
        None => 0,
    }
}

/// The items of a list type are of a type less deeply nested than the list type.
pub proof fn lemma_fixed_size_child_depth(data_type: DataType)
    requires
        fixed_size_child(data_type) is Some,
    ensures
        fixed_size_field(data_type).data_type.depth() < data_type.depth(),
{
    lemma_logical_type(&data_type);
}

/// An array of lists of one size, each of which may be null. The lists are
/// slices of one child array: list `i` holds the `size` slots of the child
/// from slot `i * size` on. Slicing moves a window over the lists and keeps
/// the child whole. A null slot still has its segment of the child.
pub struct FixedSizeListArray {
    size: usize,
    data_type: DataType,
    values: Arc<Array>,
    // both are measured in lists
    offset: usize,
    length: usize,
    validity: Option<Bitmap>,
}

impl FixedSizeListArray {
    /// The mathematical value of the array.
    pub closed spec fn view(&self) -> FixedSizeListView
        decreases self,
    {
        FixedSizeListView {
            data_type: self.data_type@,
            size: self.size as nat,
            values: Box::new((*self.values).view()),
            start: self.offset as nat,
            length: self.length as nat,
            validity: bits(self.validity),
        }
    }

    /// The logical type of the array.
    pub closed spec fn spec_data_type(&self) -> DataType {
        self.data_type
    }

    /// The validity, if any.
    pub closed spec fn spec_validity(&self) -> Option<Bitmap> {
        self.validity
    }

    /// The child array.
    pub closed spec fn spec_values(&self) -> Array {
        *self.values
    }

    /// The invariant of the type: the slots lie within the child, the
    /// validity, if any, has one bit for each slot, the logical type is a
    /// list type of this size, and the child is of the type that the
    /// logical type declares for the items.
    pub closed spec fn wf(&self) -> bool
        decreases self,
    {
        &&& (*self.values).wf()
        &&& self.offset + self.length <= usize::MAX
        &&& (self.offset + self.length) * self.size <= (*self.values).view().len()
        &&& validity_matches(self.validity, self.length as nat)
        &&& fixed_size_child(self.data_type) matches Some((child, size)) && size == self.size
            && child.data_type@ == (*self.values).view().data_type()
    }

    /// What the invariant says of the view.
    pub proof fn lemma_wf(&self)
        requires
            self.wf(),
        ensures
            self@.data_type == self.spec_data_type()@,
            self@.values == self.spec_values()@,
            self.spec_values().wf(),
            bits(self.spec_validity()) == self@.validity,
            fixed_size_child(self.spec_data_type()) matches Some((child, size)) && size
                == self@.size && child.data_type@ == self@.values.data_type(),
            self@.valid(),
            self@.len() <= usize::MAX,
        decreases self,
    {
        (*self.values).lemma_wf();
    }

    /// Returns the inner [`Field`] and the size of the lists.
    /// # Errors
    /// Errors iff the logical type is not, under its extension names, a
    /// list type of a fixed size, or the size is zero.
    pub fn try_child_and_size(data_type: &DataType) -> (r: Result<(&Field, usize), Error>)
        ensures
            r is Ok <==> fixed_size_child(*data_type) is Some && fixed_size_of(*data_type) > 0,
            r matches Ok(pair) ==> Some((*pair.0, pair.1)) == fixed_size_child(*data_type),
            r matches Err(e) ==> e is OutOfSpec,
    {
        match data_type.to_logical_type() {
            DataType::FixedSizeList(child, size) => {
                if *size == 0 {
                    return Err(Error::oos("FixedSizeListArray expects a positive size"));
                }
                Ok((child, *size))
            },
            _ => Err(Error::oos("FixedSizeListArray expects DataType::FixedSizeList")),
        }
    }

    /// Creates a new [`FixedSizeListArray`].
    ///
    /// # Errors
    /// This function returns an error iff:
    /// * The `data_type` is not, under its extension names, a list type of a
    ///   fixed size, or the size is zero.
    /// * The `data_type`'s inner field's data type is not equal to `values.data_type`.
    /// * The length of `values` is not a multiple of the size.
    /// * the validity's length is not equal to `values.len() / size`.
    pub fn try_new(data_type: DataType, values: Box<Array>, validity: Option<Bitmap>) -> (r: Result<
        Self,
        Error,
    >)
        requires
            values.wf(),
            validity matches Some(b) ==> b.wf(),
        ensures
            r is Ok <==> fixed_size_list_accepts(data_type, values@, bits(validity)),
            r matches Ok(a) ==> a.wf() && a.spec_data_type() == data_type && a.spec_values()
                == *values && a@ == (FixedSizeListView {
                data_type: data_type@,
                size: fixed_size_of(data_type),
                values: Box::new(values@),
                start: 0,
                length: values@.len() / fixed_size_of(data_type),
                validity: bits(validity),
            }),
            r matches Err(e) ==> e is OutOfSpec,
    {
        let (child_matches, size) = match Self::try_child_and_size(&data_type) {
            Ok((child, size)) => (child.data_type().same_as(values.data_type()), size),
            Err(e) => {
                return Err(e);
            },
        };
        if !child_matches {
            return Err(Error::oos("FixedSizeListArray's child's DataType must match"));
        }
        if values.len() % size != 0 {
            return Err(
                Error::oos("the values of a FixedSizeListArray must be a multiple of its size"),
            );
        }
        let length = values.len() / size;
        if let Some(b) = &validity {
            if b.len() != length {
                return Err(
                    Error::oos("validity mask length must match the number of values"),
                );
            }
        }
        proof {
            values.lemma_wf();
            assert(length * size <= values@.len()) by (nonlinear_arith)
                requires
                    length == values@.len() / (size as nat),
                    size > 0,
            ;
        }
        Ok(Self { size, data_type, values: Arc::new(*values), offset: 0, length, validity })
    }

    /// Returns a new empty [`FixedSizeListArray`].
    /// The caller ensures that the logical type is a list type of a fixed size.
    pub fn new_empty(data_type: DataType) -> (a: Self)
        requires
            fixed_size_child(data_type) is Some,
        ensures
            a.wf(),
            a.spec_data_type() == data_type,
            a@.len() == 0,
            a@.values.len() == 0,
            a@.validity is None,
        decreases data_type.depth(), 0nat,
    {
        proof {
            lemma_fixed_size_child_depth(data_type);
        }
        let (child_type, size) = match data_type.to_logical_type() {
            DataType::FixedSizeList(child, size) => (child.data_type().clone(), *size),
            _ => {
                proof {
                    assert(false);
                }
                vstd::pervasive::unreached()
            },
        };
        let values = new_empty_array(child_type);
        proof {
            values.lemma_wf();
            assert((0 + 0) * size == 0) by (nonlinear_arith);
        }
        Self { size, data_type, values: Arc::new(*values), offset: 0, length: 0, validity: None }
    }

    /// Returns the length of this array
    #[inline]
    pub fn len(&self) -> (n: usize)
        ensures
            n == self@.len(),
    {
        self.length
    }

    /// The number of items of each list.
    #[inline]
    pub fn size(&self) -> (n: usize)
        ensures
            n == self@.size,
    {
        self.size
    }

    /// The list of the child at which the slots of this array start.
    #[inline]
    pub fn offset(&self) -> (n: usize)
        ensures
            n == self@.start,
    {
        self.offset
    }

    /// The whole child: slot `i` of this array holds its `size` slots from
    /// slot `(offset + i) * size` on.
    #[inline]
    pub fn values(&self) -> (r: &Array)
        requires
            self.wf(),
        ensures
            r.wf(),
            *r == self.spec_values(),
            r@ == *self@.values,
    {
        &self.values
    }

    /// The optional validity.
    #[inline]
    pub fn validity(&self) -> (r: Option<&Bitmap>)
        requires
            self.wf(),
        ensures
            r matches Some(b) ==> b.wf() && b@.len() == self@.len(),
            bits(self.spec_validity()) == self@.validity,
            r == match self.spec_validity() {
                Some(b) => Some(&b),
                None => None,
            },
    {
        self.validity.as_ref()
    }

    /// The array's logical type
    #[inline]
    pub fn data_type(&self) -> (r: &DataType)
        ensures
            *r == self.spec_data_type(),
            r@ == self@.data_type,
    {
        &self.data_type
    }

    /// Returns the element at index `i`: a slice of `size` slots of the
    /// child. No value is copied.
    /// The caller ensures that `i < self.len()`.
    #[inline]
    pub fn value(&self, i: usize) -> (r: Box<Array>)
        requires
            self.wf(),
            i < self@.len(),
        ensures
            r.wf(),
            r@ == self@.value(i as int),
            r@.len() == self@.size,
            r@.data_type() == self@.values.data_type(),
    {
        proof {
            self.lemma_wf();
            (*self.values).lemma_wf();
            self@.lemma_slot(i as int);
            self@.lemma_value_len(i as int);
        }
        let start = (self.offset + i) * self.size;
        self.values.sliced_unchecked(start, self.size)
    }

    /// Slices this [`FixedSizeListArray`] to the `length` slots from
    /// `offset` on. The child is kept whole.
    /// The caller ensures that `offset + length <= self.len()`.
    pub fn slice(&mut self, offset: usize, length: usize)
        requires
            old(self).wf(),
            offset + length <= old(self)@.len(),
        ensures
            final(self).wf(),
            final(self).spec_data_type() == old(self).spec_data_type(),
            final(self).spec_values() == old(self).spec_values(),
            final(self)@ == old(self)@.sliced(offset as int, length as int),
    {
        self.slice_unchecked(offset, length)
    }

    /// Slices this [`FixedSizeListArray`] to the `length` slots from
    /// `offset` on. The child is kept whole.
    /// The caller ensures that `offset + length <= self.len()`.
    pub fn slice_unchecked(&mut self, offset: usize, length: usize)
        requires
            old(self).wf(),
            offset + length <= old(self)@.len(),
        ensures
            final(self).wf(),
            final(self).spec_data_type() == old(self).spec_data_type(),
            final(self).spec_values() == old(self).spec_values(),
            final(self)@ == old(self)@.sliced(offset as int, length as int),
    {
        proof {
            self.lemma_wf();
            self@.lemma_sliced(offset as int, length as int);
        }
        if let Some(bitmap) = &mut self.validity {
            bitmap.slice_unchecked(offset, length);
        }
        self.offset = self.offset + offset;
        self.length = length;
    }

    /// This array sliced to the `length` slots from `offset` on.
    /// The caller ensures that `offset + length <= self.len()`.
    #[inline]
    #[must_use]
    pub fn sliced(self, offset: usize, length: usize) -> (r: Self)
        requires
            self.wf(),
            offset + length <= self@.len(),
        ensures
            r.wf(),
            r.spec_data_type() == self.spec_data_type(),
            r.spec_values() == self.spec_values(),
            r@ == self@.sliced(offset as int, length as int),
    {
        let mut r = self;
        r.slice_unchecked(offset, length);
        r
    }

    /// This array with its validity replaced.
    /// The caller ensures that the validity, if any, has `self.len()` bits.
    #[inline]
    #[must_use]
    pub fn with_validity(self, validity: Option<Bitmap>) -> (r: Self)
        requires
            self.wf(),
            validity matches Some(b) ==> b.wf() && b@.len() == self@.len(),
        ensures
            r.wf(),
            r.spec_data_type() == self.spec_data_type(),
            r.spec_values() == self.spec_values(),
            r@ == (FixedSizeListView { validity: bits(validity), ..self@ }),
    {
        Self {
            size: self.size,
            data_type: self.data_type,
            values: self.values,
            offset: self.offset,
            length: self.length,
            validity,
        }
    }
}

impl Clone for FixedSizeListArray {
    /// An array over the same allocations and the same child.
    fn clone(&self) -> (r: Self)
        ensures
            r == *self,
    {
        Self {
            size: self.size,
            data_type: self.data_type.clone(),
            values: share(&self.values),
            offset: self.offset,
            length: self.length,
            validity: match &self.validity {
                Some(b) => Some(b.clone()),
                None => None,
            },
        }
    }
}

} // verus!
