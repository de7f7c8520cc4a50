//! Arrays of lists: offsets cut a child array into the lists.
use vstd::prelude::*;
use std::sync::Arc;
use crate::bitmap::Bitmap;
use crate::datatypes::{DataType, DataTypeView, Field};
use crate::error::Error;
use crate::offset::{is_offsets, try_check_offsets_bounds, Offset, Offsets, OffsetsBuffer};
use crate::shared::share;
use super::{bits, lemma_logical_type, new_empty_array, validity_matches, Array, ArrayView};

verus! {

/// The mathematical value of a [`ListArray`].
pub struct ListView {
    pub data_type: DataTypeView,
    pub offsets: Seq<int>,
    pub values: Box<ArrayView>,
    pub validity: Option<Seq<bool>>,
}

impl ListView {
    /// What holds of the view of every well-formed array: the offsets are
    /// offsets and stay within the child, the validity, if any, has one bit
    /// for each slot, and the same holds of the child.
    pub open spec fn valid(self) -> bool
        decreases self,
    {
        &&& is_offsets(self.offsets)
        &&& self.offsets.last() <= self.values.len()
        &&& self.validity matches Some(v) ==> v.len() == self.len()
        &&& self.values.valid()
    }

    /// The number of slots.
    pub open spec fn len(self) -> nat {
        (self.offsets.len() - 1) as nat
    }

    /// The list at slot `i`, whether the slot is null or not: the slots of
    /// the child from offset `i` up to offset `i + 1`.
    pub open spec fn value(self, i: int) -> ArrayView {
        self.values.sliced(self.offsets[i], self.offsets[i + 1] - self.offsets[i])
    }

    /// The view of the `length` slots from `offset` on: the offsets
    /// `offset` to `offset + length`, the validity bits of the slots, if
    /// there is a validity, and the whole child.
    pub open spec fn sliced(self, offset: int, length: int) -> ListView {
        ListView {
            data_type: self.data_type,
            offsets: self.offsets.subrange(offset, offset + length + 1),
            values: self.values,
            validity: match self.validity {
                Some(v) => Some(v.subrange(offset, offset + length)),
                None => None,
            },
        }
    }
}

/// The list at a slot has as many slots as the two offsets of the slot are
/// apart, and the type of the child.
pub proof fn lemma_value_len(list: ListView, i: int)
    requires
        list.valid(),
        0 <= i < list.len(),
    ensures
        list.value(i).len() == list.offsets[i + 1] - list.offsets[i],
        list.value(i).data_type() == list.values.data_type(),
        list.value(i).valid(),
{
    let s = list.offsets;
    assert(s[i] <= s[i + 1]);
    assert(s[i + 1] <= s[s.len() - 1]);
    assert(s[i] >= 0);
    list.values.lemma_sliced(s[i], s[i + 1] - s[i]);
}

/// Slicing keeps what holds of the view of every well-formed array.
pub proof fn lemma_sliced_valid(list: ListView, offset: int, length: int)
    requires
        list.valid(),
        0 <= offset,
        0 <= length,
        offset + length <= list.len(),
    ensures
        list.sliced(offset, length).valid(),
        list.sliced(offset, length).len() == length,
{
    crate::offset::lemma_offsets_subrange(list.offsets, offset, offset + length + 1);
}

/// The slicing law: slot `i` of a slice that starts at slot `offset` is
/// slot `i + offset` of the whole.
pub proof fn lemma_sliced_value(list: ListView, offset: int, length: int, i: int)
    requires
        list.valid(),
        0 <= offset,
        0 <= length,
        offset + length <= list.len(),
        0 <= i < length,
    ensures
        list.sliced(offset, length).value(i) == list.value(i + offset),
{
}

/// The field of the lists' items that a logical type declares, if the type
/// is, under its extension names, the list type with offsets of this width:
/// `LargeList` for 64-bit offsets, else `List`.
pub open spec fn list_child(data_type: DataType, large: bool) -> Option<Field> {
    match data_type.logical_type() {
        DataType::List(field) => if large {
            None
        } else {
            Some(*field)
        },
        DataType::LargeList(field) => if large {
            Some(*field)
        } else {
            None
        },
        _ => None,
    }
}

/// The items of a list type are of a type less deeply nested than the list type.
pub proof fn lemma_list_child_depth(data_type: DataType, large: bool)
    requires
        list_child(data_type, large) is Some,
    ensures
        list_child(data_type, large)->0.data_type.depth() < data_type.depth(),
{
    lemma_logical_type(&data_type);
}

/// An array of lists, each of which may be null. The lists are slices of
/// one child array, cut by the offsets. A null slot still has its, possibly
/// empty, segment of the child.
pub struct ListArray<O: Offset> {
    data_type: DataType,
    offsets: OffsetsBuffer<O>,
    values: Arc<Array>,
    validity: Option<Bitmap>,
}

impl<O: Offset> ListArray<O> {
    /// The mathematical value of the array.
    pub closed spec fn view(&self) -> ListView
        decreases self,
    {
        ListView {
            data_type: self.data_type@,
            offsets: self.offsets@,
            values: Box::new((*self.values).view()),
            validity: bits(self.validity),
        }
    }

    /// The logical type of the array.
    pub closed spec fn spec_data_type(&self) -> DataType {
        self.data_type
    }

    /// The validity, if any.
    pub closed spec fn spec_validity(&self) -> Option<Bitmap> {
        self.validity
    }

    /// The child array.
    pub closed spec fn spec_values(&self) -> Array {
        *self.values
    }

    /// The invariant of the type: the offsets stay within the child, the
    /// validity, if any, has one bit for each slot, the logical type is the
    /// list type with offsets of this width, and the child is of the type
    /// that the logical type declares for the items.
    pub closed spec fn wf(&self) -> bool
        decreases self,
    {
        &&& self.offsets.wf()
        &&& (*self.values).wf()
        &&& self.offsets@.last() <= (*self.values).view().len()
        &&& validity_matches(self.validity, (self.offsets@.len() - 1) as nat)
        &&& list_child(self.data_type, O::large()) matches Some(child) && child.data_type@ == (
        *self.values).view().data_type()
    }

    /// What the invariant says of the view.
    pub proof fn lemma_wf(&self)
        requires
            self.wf(),
        ensures
            self@.data_type == self.spec_data_type()@,
            self@.values == self.spec_values()@,
            self.spec_values().wf(),
            bits(self.spec_validity()) == self@.validity,
            list_child(self.spec_data_type(), O::large()) matches Some(child) && child.data_type@
                == self@.values.data_type(),
            self@.valid(),
            self@.len() <= usize::MAX,
        decreases self,
    {
        self.offsets.lemma_len();
        self.offsets.lemma_offsets();
        (*self.values).lemma_wf();
    }

    /// Creates a new [`ListArray`].
    ///
    /// # Errors
    /// This function returns an error iff:
    /// * The last offset is greater than the values' length.
    /// * the validity's length is not equal to `offsets.len_proxy()`.
    /// * The `data_type` is, under its extension names, neither `List`, when
    ///   the offsets are 32-bit, nor `LargeList`, when they are 64-bit.
    /// * The `data_type`'s inner field's data type is not equal to `values.data_type`.
    /// # Implementation
    /// This function is `O(1)`
    pub fn try_new(
        data_type: DataType,
        offsets: OffsetsBuffer<O>,
        values: Box<Array>,
        validity: Option<Bitmap>,
    ) -> (r: Result<Self, Error>)
        requires
            offsets.wf(),
            values.wf(),
            validity matches Some(b) ==> b.wf(),
        ensures
            r is Ok <==> {
                &&& offsets@.last() <= values@.len()
                &&& validity matches Some(b) ==> b@.len() == offsets@.len() - 1
                &&& list_child(data_type, O::large()) matches Some(child) && child.data_type@
                    == values@.data_type()
            },
            r matches Ok(a) ==> a.wf() && a.spec_data_type() == data_type && a.spec_values()
                == *values && a.spec_validity() == validity && a@ == (ListView {
                data_type: data_type@,
                offsets: offsets@,
                values: Box::new(values@),
                validity: bits(validity),
            }),
            r matches Err(e) ==> e is OutOfSpec,
    {
        if try_check_offsets_bounds(&offsets, values.len()).is_err() {
            return Err(Error::oos("offsets must not exceed the values length"));
        }
        if let Some(b) = &validity {
            if b.len() != offsets.len_proxy() {
                return Err(
                    Error::oos("validity mask length must match the number of values"),
                );
            }
        }
        let child_matches = match Self::try_get_child(&data_type) {
            Ok(child) => child.data_type().same_as(values.data_type()),
            Err(e) => {
                return Err(e);
            },
        };
        if !child_matches {
            return Err(Error::oos("ListArray's child's DataType must match"));
        }
        Ok(Self { data_type, offsets, values: Arc::new(*values), validity })
    }

    /// Creates a new [`ListArray`].
    /// The caller ensures what [`Self::try_new`] checks:
    /// * The last offset is not greater than the values' length.
    /// * the validity's length is equal to `offsets.len_proxy()`.
    /// * The `data_type` is, under its extension names, `List`, when the
    ///   offsets are 32-bit, or `LargeList`, when they are 64-bit.
    /// * The `data_type`'s inner field's data type is equal to `values.data_type`.
    /// # Implementation
    /// This function is `O(1)`
    pub fn new(
        data_type: DataType,
        offsets: OffsetsBuffer<O>,
        values: Box<Array>,
        validity: Option<Bitmap>,
    ) -> (a: Self)
        requires
            offsets.wf(),
            values.wf(),
            offsets@.last() <= values@.len(),
            validity matches Some(b) ==> b.wf() && b@.len() == offsets@.len() - 1,
            list_child(data_type, O::large()) matches Some(child) && child.data_type@
                == values@.data_type(),
        ensures
            a.wf(),
            a.spec_data_type() == data_type,
            a.spec_values() == *values,
            a.spec_validity() == validity,
            a@ == (ListView {
                data_type: data_type@,
                offsets: offsets@,
                values: Box::new(values@),
                validity: bits(validity),
            }),
    {
        Self { data_type, offsets, values: Arc::new(*values), validity }
    }

    /// Returns a new empty [`ListArray`].
    /// The caller ensures that the logical type is the list type with
    /// offsets of this width.
    pub fn new_empty(data_type: DataType) -> (a: Self)
        requires
            list_child(data_type, O::large()) is Some,
        ensures
            a.wf(),
            a.spec_data_type() == data_type,
            a@.offsets == seq![0int],
            a@.values.len() == 0,
            a@.validity is None,
        decreases data_type.depth(), 0nat,
    {
        proof {
            lemma_list_child_depth(data_type, O::large());
        }
        let values = new_empty_array(Self::get_child_type(&data_type).clone());
        proof {
            values.lemma_wf();
        }
        Self::new(data_type, OffsetsBuffer::new(), values, None)
    }

    /// Returns a new null [`ListArray`]: `length` slots, all of them null
    /// and empty.
    /// The caller ensures that the logical type is the list type with
    /// offsets of this width, and that `length + 1` fits in `usize`.
    #[inline]
    pub fn new_null(data_type: DataType, length: usize) -> (a: Self)
        requires
            list_child(data_type, O::large()) is Some,
            length < usize::MAX,
        ensures
            a.wf(),
            a.spec_data_type() == data_type,
            a@.offsets == Seq::new((length + 1) as nat, |i: int| 0int),
            a@.values.len() == 0,
            a@.validity == Some(Seq::new(length as nat, |i: int| false)),
    {
        let child = Self::get_child_type(&data_type).clone();
        let values = new_empty_array(child);
        proof {
            values.lemma_wf();
        }
        Self::new(
            data_type,
            OffsetsBuffer::from_offsets(Offsets::new_zeroed(length)),
            values,
            Some(Bitmap::new_zeroed(length)),
        )
    }
}

impl<O: Offset> ListArray<O> {
    /// Slices this [`ListArray`] to the `length` slots from `offset` on.
    /// The child is kept whole, and so is the validity of the slots that
    /// stay, even where none of them is null.
    /// The caller ensures that `offset + length <= self.len()`.
    pub fn slice(&mut self, offset: usize, length: usize)
        requires
            old(self).wf(),
            offset + length <= old(self)@.len(),
        ensures
            final(self).wf(),
            final(self).spec_data_type() == old(self).spec_data_type(),
            final(self).spec_values() == old(self).spec_values(),
            final(self)@ == old(self)@.sliced(offset as int, length as int),
    {
        self.slice_unchecked(offset, length)
    }

    /// Slices this [`ListArray`] to the `length` slots from `offset` on.
    /// The child is kept whole, and so is the validity of the slots that
    /// stay, even where none of them is null.
    /// The caller ensures that `offset + length <= self.len()`.
    pub fn slice_unchecked(&mut self, offset: usize, length: usize)
        requires
            old(self).wf(),
            offset + length <= old(self)@.len(),
        ensures
            final(self).wf(),
            final(self).spec_data_type() == old(self).spec_data_type(),
            final(self).spec_values() == old(self).spec_values(),
            final(self)@ == old(self)@.sliced(offset as int, length as int),
    {
        proof {
            let s = self.offsets@;
            self.offsets.lemma_offsets();
            assert(s[offset + length] <= s[s.len() - 1]);
        }
        if let Some(bitmap) = &mut self.validity {
            bitmap.slice_unchecked(offset, length);
        }
        self.offsets.slice_unchecked(offset, length);
    }

    /// This array sliced to the `length` slots from `offset` on.
    /// The caller ensures that `offset + length <= self.len()`.
    #[inline]
    #[must_use]
    pub fn sliced(self, offset: usize, length: usize) -> (r: Self)
        requires
            self.wf(),
            offset + length <= self@.len(),
        ensures
            r.wf(),
            r.spec_data_type() == self.spec_data_type(),
            r.spec_values() == self.spec_values(),
            r@ == self@.sliced(offset as int, length as int),
    {
        let mut r = self;
        r.slice_unchecked(offset, length);
        r
    }

    /// This array sliced to the `length` slots from `offset` on.
    /// The caller ensures that `offset + length <= self.len()`.
    #[inline]
    #[must_use]
    pub fn sliced_unchecked(self, offset: usize, length: usize) -> (r: Self)
        requires
            self.wf(),
            offset + length <= self@.len(),
        ensures
            r.wf(),
            r.spec_data_type() == self.spec_data_type(),
            r.spec_values() == self.spec_values(),
            r@ == self@.sliced(offset as int, length as int),
    {
        let mut r = self;
        r.slice_unchecked(offset, length);
        r
    }

    /// This array with its validity replaced.
    /// The caller ensures that the validity, if any, has `self.len()` bits.
    #[inline]
    #[must_use]
    pub fn with_validity(self, validity: Option<Bitmap>) -> (r: Self)
        requires
            self.wf(),
            validity matches Some(b) ==> b.wf() && b@.len() == self@.len(),
        ensures
            r.wf(),
            r.spec_data_type() == self.spec_data_type(),
            r.spec_values() == self.spec_values(),
            r@ == (ListView { validity: bits(validity), ..self@ }),
    {
        Self { data_type: self.data_type, offsets: self.offsets, values: self.values, validity }
    }

    /// Replaces the validity of this array.
    /// The caller ensures that the validity, if any, has `self.len()` bits.
    #[inline]
    pub fn set_validity(&mut self, validity: Option<Bitmap>)
        requires
            old(self).wf(),
            validity matches Some(b) ==> b.wf() && b@.len() == old(self)@.len(),
        ensures
            final(self).wf(),
            final(self).spec_data_type() == old(self).spec_data_type(),
            final(self).spec_values() == old(self).spec_values(),
            final(self)@ == (ListView { validity: bits(validity), ..old(self)@ }),
    {
        self.validity = validity;
    }
}

// Accessors
impl<O: Offset> ListArray<O> {
    /// Returns the length of this array
    #[inline]
    pub fn len(&self) -> (n: usize)
        requires
            self.wf(),
        ensures
            n == self@.len(),
            n == self@.offsets.len() - 1,
    {
        self.offsets.len_proxy()
    }

    /// Returns the element at index `i`: a slice of the child, which has as
    /// many slots as the two offsets of slot `i` are apart. No value is copied.
    /// The caller ensures that `i < self.len()`.
    #[inline]
    pub fn value(&self, i: usize) -> (r: Box<Array>)
        requires
            self.wf(),
            i < self@.len(),
        ensures
            r.wf(),
            r@ == self@.value(i as int),
            r@.len() == self@.offsets[i + 1] - self@.offsets[i as int],
            r@.data_type() == self@.values.data_type(),
    {
        self.value_unchecked(i)
    }

    /// Returns the element at index `i`: a slice of the child, which has as
    /// many slots as the two offsets of slot `i` are apart. No value is copied.
    /// The caller ensures that `i < self.len()`.
    #[inline]
    pub fn value_unchecked(&self, i: usize) -> (r: Box<Array>)
        requires
            self.wf(),
            i < self@.len(),
        ensures
            r.wf(),
            r@ == self@.value(i as int),
            r@.len() == self@.offsets[i + 1] - self@.offsets[i as int],
            r@.data_type() == self@.values.data_type(),
    {
        proof {
            let s = self.offsets@;
            self.offsets.lemma_offsets();
            (*self.values).lemma_wf();
            assert(s[i + 1] <= s[s.len() - 1]);
        }
        let (start, end) = self.offsets.start_end_unchecked(i);
        let length = end - start;
        proof {
            (*self.values).view().lemma_sliced(start as int, length as int);
        }
        self.values.sliced_unchecked(start, length)
    }

    /// The optional validity.
    #[inline]
    pub fn validity(&self) -> (r: Option<&Bitmap>)
        requires
            self.wf(),
        ensures
            r matches Some(b) ==> b.wf() && b@.len() == self@.len(),
            bits(self.spec_validity()) == self@.validity,
            r == match self.spec_validity() {
                Some(b) => Some(&b),
                None => None,
            },
    {
        self.validity.as_ref()
    }

    /// The offsets.
    #[inline]
    pub fn offsets(&self) -> (r: &OffsetsBuffer<O>)
        requires
            self.wf(),
        ensures
            r.wf(),
            r@ == self@.offsets,
    {
        &self.offsets
    }

    /// The values.
    #[inline]
    pub fn values(&self) -> (r: &Array)
        requires
            self.wf(),
        ensures
            r.wf(),
            *r == self.spec_values(),
            r@ == *self@.values,
    {
        &self.values
    }

    /// The array's logical type
    #[inline]
    pub fn data_type(&self) -> (r: &DataType)
        ensures
            *r == self.spec_data_type(),
            r@ == self@.data_type,
    {
        &self.data_type
    }
}

impl<O: Offset> ListArray<O> {
    /// Returns a default [`DataType`]: inner field is named "item" and is nullable
    pub fn default_datatype(data_type: DataType) -> (r: DataType)
        ensures
            list_child(r, O::large()) matches Some(child) && child.name@ == "item"@
                && child.data_type == data_type && child.is_nullable,
            if O::large() {
                r is LargeList
            } else {
                r is List
            },
    {
        let field = Arc::new(Field::new("item", data_type, true));
        if O::is_large() {
            DataType::LargeList(field)
        } else {
            DataType::List(field)
        }
    }

    /// Returns the inner [`Field`]
    /// The caller ensures that the logical type is the list type with
    /// offsets of this width.
    pub fn get_child_field(data_type: &DataType) -> (r: &Field)
        requires
            list_child(*data_type, O::large()) is Some,
        ensures
            Some(*r) == list_child(*data_type, O::large()),
    {
        match Self::try_get_child(data_type) {
            Ok(field) => field,
            Err(_) => {
                proof {
                    assert(false);
                }
                vstd::pervasive::unreached()
            },
        }
    }

    /// Returns the inner [`Field`]
    /// # Errors
    /// Errors iff the logical type is not, under its extension names, the
    /// list type with offsets of this width.
    pub fn try_get_child(data_type: &DataType) -> (r: Result<&Field, Error>)
        ensures
            r is Ok <==> list_child(*data_type, O::large()) is Some,
            r matches Ok(field) ==> Some(*field) == list_child(*data_type, O::large()),
            r matches Err(e) ==> e is OutOfSpec,
    {
        if O::is_large() {
            match data_type.to_logical_type() {
                DataType::LargeList(child) => Ok(child),
                _ => Err(Error::oos("ListArray<i64> expects DataType::LargeList")),
            }
        } else {
            match data_type.to_logical_type() {
                DataType::List(child) => Ok(child),
                _ => Err(Error::oos("ListArray<i32> expects DataType::List")),
            }
        }
    }

    /// Returns the inner [`DataType`]
    /// The caller ensures that the logical type is the list type with
    /// offsets of this width.
    pub fn get_child_type(data_type: &DataType) -> (r: &DataType)
        requires
            list_child(*data_type, O::large()) is Some,
        ensures
            *r == list_child(*data_type, O::large())->0.data_type,
    {
        Self::get_child_field(data_type).data_type()
    }
}

impl<O: Offset> Clone for ListArray<O> {
    /// An array over the same allocations and the same child.
    fn clone(&self) -> (r: Self)
        ensures
            r == *self,
    {
        Self {
            data_type: self.data_type.clone(),
            offsets: self.offsets.clone(),
            values: share(&self.values),
            validity: match &self.validity {
                Some(b) => Some(b.clone()),
                None => None,
            },
        }
    }
}

} // verus!
