//! The validity adapter between [`Bitmap`] and the `NullBuffer` of the
//! `arrow-buffer` crate, and the parts that a list array exchanges with the
//! list arrays of the `arrow-array` crate.
use vstd::prelude::*;
use std::sync::Arc;
use crate::array::list::{lemma_sliced_valid, lemma_sliced_value, lemma_value_len, list_child};
use crate::array::{bits, Array, ArrayView, ListArray, ListView};
use crate::bitmap::{bits_of, Bitmap};
use crate::datatypes::{DataType, DataTypeView, Field, FieldView};
use crate::error::Error;
use crate::offset::{Offset, OffsetsBuffer};

verus! {

/// `arrow_buffer::NullBuffer`: the validity of an array of the `arrow-array` crate.
#[verifier::external_type_specification]
#[verifier::external_body]
pub struct ExNullBuffer(arrow_buffer::NullBuffer);

/// The bits that a `NullBuffer` holds: bit `i` is set where slot `i` is valid.
pub uninterp spec fn null_buffer_bits(nulls: arrow_buffer::NullBuffer) -> Seq<bool>;

/// Calls `NullBuffer::new` on `BooleanBuffer::new` on `Buffer::from_vec`: the
/// `length` bits of the bytes from bit `offset` on, least significant bit
/// first. The bytes are not copied. `BooleanBuffer::new` panics unless the
/// bits lie within the bytes.
#[verifier::external_body]
fn null_buffer_new(bytes: Vec<u8>, offset: usize, length: usize) -> (nulls: arrow_buffer::NullBuffer)
    requires
        offset + length <= bytes@.len() * 8,
    ensures
        null_buffer_bits(nulls) == bits_of(bytes@, offset as int, length as nat),
{
    let buffer = arrow_buffer::Buffer::from_vec(bytes);
    arrow_buffer::NullBuffer::new(arrow_buffer::BooleanBuffer::new(buffer, offset, length))
}

/// Calls `NullBuffer::iter` and collects: the bits in order, one for each slot.
#[verifier::external_body]
fn null_buffer_values(nulls: &arrow_buffer::NullBuffer) -> (values: Vec<bool>)
    ensures
        values@ == null_buffer_bits(*nulls),
{
    nulls.iter().collect()
}

impl Bitmap {
    /// The bitmap of the bits of a `NullBuffer`. The bits are copied.
    pub fn from_arrow(nulls: &arrow_buffer::NullBuffer) -> (b: Bitmap)
        ensures
            b.wf(),
            b@ == null_buffer_bits(*nulls),
    {
        let values = null_buffer_values(nulls);
        Bitmap::from_bools(values.as_slice())
    }

    /// The `NullBuffer` of the bits of this bitmap. The bytes are handed
    /// over where this bitmap is their only holder.
    pub fn into_arrow(self) -> (nulls: arrow_buffer::NullBuffer)
        requires
            self.wf(),
        ensures
            null_buffer_bits(nulls) == self@,
    {
        let (bytes, offset, length) = self.into_inner();
        null_buffer_new(bytes, offset, length)
    }
}

/// The parts of a list array, as a list array of the `arrow-array` crate is
/// made of them and taken apart into them: the field of the items, the
/// offsets, the child and the validity.
pub struct ListParts<O: Offset> {
    /// The field of the items.
    pub field: Field,
    /// The offsets.
    pub offsets: OffsetsBuffer<O>,
    /// The child array.
    pub values: Box<Array>,
    /// The validity, if any.
    pub nulls: Option<Bitmap>,
}

/// The mathematical value of [`ListParts`].
pub struct ListPartsView {
    pub field: FieldView,
    pub offsets: Seq<int>,
    pub values: ArrayView,
    pub nulls: Option<Seq<bool>>,
}

impl ListPartsView {
    /// What the `arrow-array` crate asks of the parts of a list array: the
    /// last offset lies within the child, the validity, if any, has one bit
    /// for each slot, the child holds no null unless the field is nullable,
    /// and the child is of the type of the field.
    pub open spec fn accepted(self) -> bool {
        &&& self.offsets.last() <= self.values.len()
        &&& self.nulls matches Some(v) ==> v.len() == self.offsets.len() - 1
        &&& self.field.is_nullable || self.values.null_count() == 0
        &&& self.field.data_type == self.values.data_type()
    }
}

/// The logical type of list arrays with offsets of this width and this field.
pub open spec fn list_data_type(large: bool, field: FieldView) -> DataTypeView {
    if large {
        DataTypeView::LargeList(Box::new(field))
    } else {
        DataTypeView::List(Box::new(field))
    }
}

/// The parts that a list array is exchanged as: the items' field `child` of
/// its logical type, its offsets, its child and its validity.
pub open spec fn list_parts(list: ListView, child: FieldView) -> ListPartsView {
    ListPartsView { field: child, offsets: list.offsets, values: *list.values, nulls: list.validity }
}

/// The list array that parts are taken for. Its logical type is the list
/// type with offsets of this width and the field of the parts.
pub open spec fn list_of_parts(parts: ListPartsView, large: bool) -> ListView {
    ListView {
        data_type: list_data_type(large, parts.field),
        offsets: parts.offsets,
        values: Box::new(parts.values),
        validity: parts.nulls,
    }
}

/// The round trip: a list array whose logical type is the list type itself,
/// with items' field `child`, is the list array of its own parts, logical
/// type, offsets, validity and child alike; and so is every slice of it.
/// (An extension name around the list type is not part of the parts.)
pub proof fn lemma_parts_round_trip(list: ListView, child: FieldView, large: bool)
    requires
        list.data_type == list_data_type(large, child),
    ensures
        list_of_parts(list_parts(list, child), large) == list,
        forall|offset: int, length: int|
            list_of_parts(list_parts(#[trigger] list.sliced(offset, length), child), large)
                == list.sliced(offset, length),
{
}

/// What the parts of a list array hold: as many slots as the array, for
/// each slot two offsets that are as far apart as the list at the slot is
/// long, the validity of the array, and the items' field.
pub proof fn lemma_list_parts(list: ListView, child: FieldView, i: int)
    requires
        list.valid(),
        0 <= i < list.len(),
    ensures
        list_parts(list, child).offsets.len() - 1 == list.len(),
        list_parts(list, child).offsets[i + 1] - list_parts(list, child).offsets[i] == list.value(
            i,
        ).len(),
        list_parts(list, child).nulls == list.validity,
        list_parts(list, child).values == *list.values,
        list_parts(list, child).field == child,
{
    lemma_value_len(list, i);
}

/// The round trip of a slice: the list array of the parts of a slice has
/// the slots of the slice, and slot `i` of it has the list and the validity
/// bit of slot `i + offset` of the whole, whatever the logical type.
pub proof fn lemma_sliced_parts_round_trip(
    list: ListView,
    child: FieldView,
    large: bool,
    offset: int,
    length: int,
    i: int,
)
    requires
        list.valid(),
        0 <= offset,
        0 <= length,
        offset + length <= list.len(),
        0 <= i < length,
    ensures
        ({
            let back = list_of_parts(list_parts(list.sliced(offset, length), child), large);
            &&& back.len() == length
            &&& back.value(i) == list.value(i + offset)
            &&& back.values == list.values
            &&& match list.validity {
                Some(v) => back.validity matches Some(w) && w.len() == length && w[i] == v[i
                    + offset],
                None => back.validity is None,
            }
        }),
{
    lemma_sliced_valid(list, offset, length);
    lemma_sliced_value(list, offset, length, i);
}

impl<O: Offset> ListParts<O> {
    /// The mathematical value of the parts.
    pub open spec fn view(&self) -> ListPartsView {
        ListPartsView {
            field: self.field@,
            offsets: self.offsets@,
            values: self.values@,
            nulls: bits(self.nulls),
        }
    }

    /// The invariant of the parts: that of each of them.
    pub open spec fn wf(&self) -> bool {
        &&& self.offsets.wf()
        &&& self.values.wf()
        &&& self.nulls matches Some(b) ==> b.wf()
    }

    /// Whether the `arrow-array` crate makes a list array of these parts.
    pub fn is_accepted(&self) -> (r: bool)
        requires
            self.wf(),
        ensures
            r == self@.accepted(),
    {
        proof {
            self.offsets.lemma_offsets();
        }
        let last = self.offsets.last().to_i64();
        if last as u64 > self.values.len() as u64 {
            return false;
        }
        if let Some(b) = &self.nulls {
            if b.len() != self.offsets.len_proxy() {
                return false;
            }
        }
        if !self.field.is_nullable && self.values.null_count() != 0 {
            return false;
        }
        self.field.data_type.same_as(self.values.data_type())
    }
}

impl<O: Offset> ListArray<O> {
    /// The parts of this array, for a list array of the `arrow-array` crate
    /// to be made of: the items' field of its logical type, under its own
    /// name, its offsets, its child and its validity. No value is copied.
    pub fn into_arrow_parts(self) -> (parts: ListParts<O>)
        requires
            self.wf(),
        ensures
            parts.wf(),
            parts.values.wf(),
            list_child(self.spec_data_type(), O::large()) matches Some(child) && parts@
                == list_parts(self@, child@),
            !(self.spec_data_type() is Extension) ==> list_of_parts(parts@, O::large()) == self@,
            parts@.offsets.last() <= parts@.values.len(),
            parts@.nulls matches Some(v) ==> v.len() == parts@.offsets.len() - 1,
            parts@.field.data_type == parts@.values.data_type(),
    {
        proof {
            self.lemma_wf();
        }
        let child = Self::get_child_field(self.data_type());
        let field = child.clone();
        let offsets = self.offsets().clone();
        let values = Box::new(self.values().clone());
        let nulls = match self.validity() {
            Some(b) => Some(b.clone()),
            None => None,
        };
        ListParts { field, offsets, values, nulls }
    }

    /// The list array of parts that a list array of the `arrow-array` crate
    /// was taken apart into. Its logical type is the list type with offsets
    /// of this width and the field of the parts. No value is copied.
    /// # Errors
    /// Errors iff the last offset does not lie within the child, the
    /// validity's length is not the number of slots, or the child is not of
    /// the type of the field.
    pub fn try_from_arrow_parts(parts: ListParts<O>) -> (r: Result<Self, Error>)
        requires
            parts.wf(),
        ensures
            r is Ok <==> {
                &&& parts@.offsets.last() <= parts@.values.len()
                &&& parts@.nulls matches Some(v) ==> v.len() == parts@.offsets.len() - 1
                &&& parts@.field.data_type == parts@.values.data_type()
            },
            r matches Ok(a) ==> a.wf() && a@ == list_of_parts(parts@, O::large()),
            r matches Err(e) ==> e is OutOfSpec,
    {
        let field = Arc::new(parts.field);
        let data_type = if O::is_large() {
            DataType::LargeList(field)
        } else {
            DataType::List(field)
        };
        Self::try_new(data_type, parts.offsets, parts.values, parts.nulls)
    }

    /// The list array of parts that a list array of the `arrow-array` crate
    /// was taken apart into. Its logical type is the list type with offsets
    /// of this width and the field of the parts. No value is copied.
    /// The caller ensures what [`Self::try_from_arrow_parts`] checks.
    pub fn from_arrow_parts(parts: ListParts<O>) -> (a: Self)
        requires
            parts.wf(),
            parts@.offsets.last() <= parts@.values.len(),
            parts@.nulls matches Some(v) ==> v.len() == parts@.offsets.len() - 1,
            parts@.field.data_type == parts@.values.data_type(),
        ensures
            a.wf(),
            a@ == list_of_parts(parts@, O::large()),
    {
        let field = Arc::new(parts.field);
        let data_type = if O::is_large() {
            DataType::LargeList(field)
        } else {
            DataType::List(field)
        };
        Self::new(data_type, parts.offsets, parts.values, parts.nulls)
    }
}

} // verus!
