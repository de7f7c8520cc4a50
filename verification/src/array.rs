//! Arrays: typed columns of values with an optional validity.
//!
//! [`Array`] is the closed set of the array types of this crate. Every one
//! of them has a length, a logical type and an optional validity, and is
//! sliced without copying a value.
use vstd::prelude::*;
use crate::bitmap::Bitmap;
use crate::datatypes::{DataType, DataTypeView, IntegerType, PhysicalType};
use crate::types::PrimitiveType;
use crate::types::native::{days_ms, i256, months_days_ns};

pub mod binary;
pub mod boolean;
pub mod dictionary;
pub mod fixed_size_list;
pub mod list;
pub mod null;
pub mod primitive;
pub mod struct_;
pub mod utf8;

pub use binary::{BinaryArray, BinaryView};
pub use boolean::{BooleanArray, BooleanView, MutableBooleanArray};
pub use dictionary::{DictionaryArray, DictionaryKey, DictionaryView};
pub use fixed_size_list::{FixedSizeListArray, FixedSizeListView};
pub use list::{ListArray, ListView};
pub use null::{NullArray, NullView};
pub use primitive::{PrimitiveArray, PrimitiveView};
pub use struct_::{StructArray, StructView};
pub use utf8::{Utf8Array, Utf8View};

verus! {

/// The bits of an optional validity.
pub open spec fn bits(validity: Option<Bitmap>) -> Option<Seq<bool>> {
    match validity {
        Some(b) => Some(b@),
        None => None,
    }
}

/// Whether an optional validity is well formed and has `len` bits.
pub open spec fn validity_matches(validity: Option<Bitmap>, len: nat) -> bool {
    validity matches Some(b) ==> b.wf() && b@.len() == len
}

/// The slots of an array: `None` where the validity bit is unset, else the value.
pub open spec fn zip_validity<T>(values: Seq<T>, validity: Option<Seq<bool>>) -> Seq<Option<T>> {
    Seq::new(
        values.len(),
        |i: int|
            match validity {
                Some(v) => if v[i] {
                    Some(values[i])
                } else {
                    None
                },
                None => Some(values[i]),
            },
    )
}

/// An array of one of the types of this crate.
pub enum Array {
    Null(NullArray),
    Boolean(BooleanArray),
    Int16(PrimitiveArray<i16>),
    Int32(PrimitiveArray<i32>),
    Int64(PrimitiveArray<i64>),
    Int128(PrimitiveArray<i128>),
    Int256(PrimitiveArray<i256>),
    DaysMs(PrimitiveArray<days_ms>),
    MonthsDaysNs(PrimitiveArray<months_days_ns>),
    Binary(BinaryArray<i32>),
    LargeBinary(BinaryArray<i64>),
    Utf8(Utf8Array<i32>),
    LargeUtf8(Utf8Array<i64>),
    List(ListArray<i32>),
    LargeList(ListArray<i64>),
    FixedSizeList(FixedSizeListArray),
    Struct(StructArray),
    DictionaryI16(DictionaryArray<i16>),
    DictionaryI32(DictionaryArray<i32>),
    DictionaryI64(DictionaryArray<i64>),
}

/// The mathematical value of an [`Array`].
pub enum ArrayView {
    Null(NullView),
    Boolean(BooleanView),
    Int16(PrimitiveView<i16>),
    Int32(PrimitiveView<i32>),
    Int64(PrimitiveView<i64>),
    Int128(PrimitiveView<i128>),
    Int256(PrimitiveView<i256>),
    DaysMs(PrimitiveView<days_ms>),
    MonthsDaysNs(PrimitiveView<months_days_ns>),
    Binary(BinaryView),
    LargeBinary(BinaryView),
    Utf8(Utf8View),
    LargeUtf8(Utf8View),
    List(ListView),
    LargeList(ListView),
    FixedSizeList(FixedSizeListView),
    Struct(StructView),
    DictionaryI16(DictionaryView),
    DictionaryI32(DictionaryView),
    DictionaryI64(DictionaryView),
}

impl ArrayView {
    /// The number of slots.
    pub open spec fn len(self) -> nat {
        match self {
            ArrayView::Null(a) => a.len,
            ArrayView::Boolean(a) => a.values.len(),
            ArrayView::Int16(a) => a.values.len(),
            ArrayView::Int32(a) => a.values.len(),
            ArrayView::Int64(a) => a.values.len(),
            ArrayView::Int128(a) => a.values.len(),
            ArrayView::Int256(a) => a.values.len(),
            ArrayView::DaysMs(a) => a.values.len(),
            ArrayView::MonthsDaysNs(a) => a.values.len(),
            ArrayView::Binary(a) => a.len(),
            ArrayView::LargeBinary(a) => a.len(),
            ArrayView::Utf8(a) => a.len(),
            ArrayView::LargeUtf8(a) => a.len(),
            ArrayView::List(a) => a.len(),
            ArrayView::LargeList(a) => a.len(),
            ArrayView::FixedSizeList(a) => a.len(),
            ArrayView::Struct(a) => a.len(),
            ArrayView::DictionaryI16(a) => a.len(),
            ArrayView::DictionaryI32(a) => a.len(),
            ArrayView::DictionaryI64(a) => a.len(),
        }
    }

    /// The logical type.
    pub open spec fn data_type(self) -> DataTypeView {
        match self {
            ArrayView::Null(a) => a.data_type,
            ArrayView::Boolean(a) => a.data_type,
            ArrayView::Int16(a) => a.data_type,
            ArrayView::Int32(a) => a.data_type,
            ArrayView::Int64(a) => a.data_type,
            ArrayView::Int128(a) => a.data_type,
            ArrayView::Int256(a) => a.data_type,
            ArrayView::DaysMs(a) => a.data_type,
            ArrayView::MonthsDaysNs(a) => a.data_type,
            ArrayView::Binary(a) => a.data_type,
            ArrayView::LargeBinary(a) => a.data_type,
            ArrayView::Utf8(a) => a.data_type,
            ArrayView::LargeUtf8(a) => a.data_type,
            ArrayView::List(a) => a.data_type,
            ArrayView::LargeList(a) => a.data_type,
            ArrayView::FixedSizeList(a) => a.data_type,
            ArrayView::Struct(a) => a.data_type,
            ArrayView::DictionaryI16(a) => a.data_type,
            ArrayView::DictionaryI32(a) => a.data_type,
            ArrayView::DictionaryI64(a) => a.data_type,
        }
    }

    /// The validity: `None` when no slot is null, else one bit for each
    /// slot, unset where the slot is null.
    pub open spec fn validity(self) -> Option<Seq<bool>> {
        match self {
            ArrayView::Null(a) => None,
            ArrayView::Boolean(a) => a.validity,
            ArrayView::Int16(a) => a.validity,
            ArrayView::Int32(a) => a.validity,
            ArrayView::Int64(a) => a.validity,
            ArrayView::Int128(a) => a.validity,
            ArrayView::Int256(a) => a.validity,
            ArrayView::DaysMs(a) => a.validity,
            ArrayView::MonthsDaysNs(a) => a.validity,
            ArrayView::Binary(a) => a.validity,
            ArrayView::LargeBinary(a) => a.validity,
            ArrayView::Utf8(a) => a.validity,
            ArrayView::LargeUtf8(a) => a.validity,
            ArrayView::List(a) => a.validity,
            ArrayView::LargeList(a) => a.validity,
            ArrayView::FixedSizeList(a) => a.validity,
            ArrayView::Struct(a) => a.validity,
            ArrayView::DictionaryI16(a) => a.validity,
            ArrayView::DictionaryI32(a) => a.validity,
            ArrayView::DictionaryI64(a) => a.validity,
        }
    }

    /// The number of null slots: every slot of a null array, else the unset
    /// bits of the validity.
    pub open spec fn null_count(self) -> nat {
        match self {
            ArrayView::Null(a) => a.len,
            _ => match self.validity() {
                Some(v) => crate::bitmap::count_unset(v),
                None => 0,
            },
        }
    }

    /// What holds of the view of every well-formed array.
    pub open spec fn valid(self) -> bool
        decreases self,
    {
        match self {
            ArrayView::Null(a) => a.valid(),
            ArrayView::Boolean(a) => a.valid(),
            ArrayView::Int16(a) => a.valid(),
            ArrayView::Int32(a) => a.valid(),
            ArrayView::Int64(a) => a.valid(),
            ArrayView::Int128(a) => a.valid(),
            ArrayView::Int256(a) => a.valid(),
            ArrayView::DaysMs(a) => a.valid(),
            ArrayView::MonthsDaysNs(a) => a.valid(),
            ArrayView::Binary(a) => a.valid(),
            ArrayView::LargeBinary(a) => a.valid(),
            ArrayView::Utf8(a) => a.valid(),
            ArrayView::LargeUtf8(a) => a.valid(),
            ArrayView::List(a) => a.valid(),
            ArrayView::LargeList(a) => a.valid(),
            ArrayView::FixedSizeList(a) => a.valid(),
            ArrayView::Struct(a) => a.valid(),
            ArrayView::DictionaryI16(a) => a.valid(),
            ArrayView::DictionaryI32(a) => a.valid(),
            ArrayView::DictionaryI64(a) => a.valid(),
        }
    }

    /// The view with the validity replaced. A null array has no validity to replace.
    pub open spec fn with_validity(self, validity: Option<Seq<bool>>) -> ArrayView {
        match self {
            ArrayView::Null(a) => ArrayView::Null(a),
            ArrayView::Boolean(a) => ArrayView::Boolean(BooleanView { validity, ..a }),
            ArrayView::Int16(a) => ArrayView::Int16(PrimitiveView { validity, ..a }),
            ArrayView::Int32(a) => ArrayView::Int32(PrimitiveView { validity, ..a }),
            ArrayView::Int64(a) => ArrayView::Int64(PrimitiveView { validity, ..a }),
            ArrayView::Int128(a) => ArrayView::Int128(PrimitiveView { validity, ..a }),
            ArrayView::Int256(a) => ArrayView::Int256(PrimitiveView { validity, ..a }),
            ArrayView::DaysMs(a) => ArrayView::DaysMs(PrimitiveView { validity, ..a }),
            ArrayView::MonthsDaysNs(a) => ArrayView::MonthsDaysNs(PrimitiveView { validity, ..a }),
            ArrayView::Binary(a) => ArrayView::Binary(BinaryView { validity, ..a }),
            ArrayView::LargeBinary(a) => ArrayView::LargeBinary(BinaryView { validity, ..a }),
            ArrayView::Utf8(a) => ArrayView::Utf8(Utf8View { validity, ..a }),
            ArrayView::LargeUtf8(a) => ArrayView::LargeUtf8(Utf8View { validity, ..a }),
            ArrayView::List(a) => ArrayView::List(ListView { validity, ..a }),
            ArrayView::LargeList(a) => ArrayView::LargeList(ListView { validity, ..a }),
            ArrayView::FixedSizeList(a) => ArrayView::FixedSizeList(
                FixedSizeListView { validity, ..a },
            ),
            ArrayView::Struct(a) => ArrayView::Struct(StructView { validity, ..a }),
            ArrayView::DictionaryI16(a) => ArrayView::DictionaryI16(
                DictionaryView { validity, ..a },
            ),
            ArrayView::DictionaryI32(a) => ArrayView::DictionaryI32(
                DictionaryView { validity, ..a },
            ),
            ArrayView::DictionaryI64(a) => ArrayView::DictionaryI64(
                DictionaryView { validity, ..a },
            ),
        }
    }

    /// The view of the `length` slots from `offset` on.
    pub open spec fn sliced(self, offset: int, length: int) -> ArrayView {
        match self {
            ArrayView::Null(a) => ArrayView::Null(a.sliced(offset, length)),
            ArrayView::Boolean(a) => ArrayView::Boolean(a.sliced(offset, length)),
            ArrayView::Int16(a) => ArrayView::Int16(a.sliced(offset, length)),
            ArrayView::Int32(a) => ArrayView::Int32(a.sliced(offset, length)),
            ArrayView::Int64(a) => ArrayView::Int64(a.sliced(offset, length)),
            ArrayView::Int128(a) => ArrayView::Int128(a.sliced(offset, length)),
            ArrayView::Int256(a) => ArrayView::Int256(a.sliced(offset, length)),
            ArrayView::DaysMs(a) => ArrayView::DaysMs(a.sliced(offset, length)),
            ArrayView::MonthsDaysNs(a) => ArrayView::MonthsDaysNs(a.sliced(offset, length)),
            ArrayView::Binary(a) => ArrayView::Binary(a.sliced(offset, length)),
            ArrayView::LargeBinary(a) => ArrayView::LargeBinary(a.sliced(offset, length)),
            ArrayView::Utf8(a) => ArrayView::Utf8(a.sliced(offset, length)),
            ArrayView::LargeUtf8(a) => ArrayView::LargeUtf8(a.sliced(offset, length)),
            ArrayView::List(a) => ArrayView::List(a.sliced(offset, length)),
            ArrayView::LargeList(a) => ArrayView::LargeList(a.sliced(offset, length)),
            ArrayView::FixedSizeList(a) => ArrayView::FixedSizeList(a.sliced(offset, length)),
            ArrayView::Struct(a) => ArrayView::Struct(a.sliced(offset, length)),
            ArrayView::DictionaryI16(a) => ArrayView::DictionaryI16(a.sliced(offset, length)),
            ArrayView::DictionaryI32(a) => ArrayView::DictionaryI32(a.sliced(offset, length)),
            ArrayView::DictionaryI64(a) => ArrayView::DictionaryI64(a.sliced(offset, length)),
        }
    }

    /// A slice of `length` slots has `length` slots and the type of the whole.
    pub proof fn lemma_sliced(self, offset: int, length: int)
        requires
            self.valid(),
            0 <= offset,
            0 <= length,
            offset + length <= self.len(),
        ensures
            self.sliced(offset, length).len() == length,
            self.sliced(offset, length).data_type() == self.data_type(),
            self.sliced(offset, length).valid(),
    {
        match self {
            ArrayView::Binary(a) => {
                crate::offset::lemma_offsets_subrange(a.offsets, offset, offset + length + 1);
            },
            ArrayView::LargeBinary(a) => {
                crate::offset::lemma_offsets_subrange(a.offsets, offset, offset + length + 1);
            },
            ArrayView::Utf8(a) => {
                a.lemma_sliced(offset, length);
            },
            ArrayView::LargeUtf8(a) => {
                a.lemma_sliced(offset, length);
            },
            ArrayView::List(a) => {
                crate::offset::lemma_offsets_subrange(a.offsets, offset, offset + length + 1);
            },
            ArrayView::LargeList(a) => {
                crate::offset::lemma_offsets_subrange(a.offsets, offset, offset + length + 1);
            },
            ArrayView::FixedSizeList(a) => {
                a.lemma_sliced(offset, length);
            },
            ArrayView::Struct(a) => {
                a.lemma_sliced(offset, length);
            },
            ArrayView::DictionaryI16(a) => {
                a.lemma_sliced(offset, length);
            },
            ArrayView::DictionaryI32(a) => {
                a.lemma_sliced(offset, length);
            },
            ArrayView::DictionaryI64(a) => {
                a.lemma_sliced(offset, length);
            },
            _ => {},
        }
    }
}

impl Array {
    /// The mathematical value of the array.
    pub open spec fn view(&self) -> ArrayView
        decreases self,
    {
        match self {
            Array::Null(a) => ArrayView::Null(a.view()),
            Array::Boolean(a) => ArrayView::Boolean(a.view()),
            Array::Int16(a) => ArrayView::Int16(a.view()),
            Array::Int32(a) => ArrayView::Int32(a.view()),
            Array::Int64(a) => ArrayView::Int64(a.view()),
            Array::Int128(a) => ArrayView::Int128(a.view()),
            Array::Int256(a) => ArrayView::Int256(a.view()),
            Array::DaysMs(a) => ArrayView::DaysMs(a.view()),
            Array::MonthsDaysNs(a) => ArrayView::MonthsDaysNs(a.view()),
            Array::Binary(a) => ArrayView::Binary(a.view()),
            Array::LargeBinary(a) => ArrayView::LargeBinary(a.view()),
            Array::Utf8(a) => ArrayView::Utf8(a.view()),
            Array::LargeUtf8(a) => ArrayView::LargeUtf8(a.view()),
            Array::List(a) => ArrayView::List(a.view()),
            Array::LargeList(a) => ArrayView::LargeList(a.view()),
            Array::FixedSizeList(a) => ArrayView::FixedSizeList(a.view()),
            Array::Struct(a) => ArrayView::Struct(a.view()),
            Array::DictionaryI16(a) => ArrayView::DictionaryI16(a.view()),
            Array::DictionaryI32(a) => ArrayView::DictionaryI32(a.view()),
            Array::DictionaryI64(a) => ArrayView::DictionaryI64(a.view()),
        }
    }

    /// The invariant of the array's type.
    pub open spec fn wf(&self) -> bool
        decreases self,
    {
        match self {
            Array::Null(a) => a.wf(),
            Array::Boolean(a) => a.wf(),
            Array::Int16(a) => a.wf(),
            Array::Int32(a) => a.wf(),
            Array::Int64(a) => a.wf(),
            Array::Int128(a) => a.wf(),
            Array::Int256(a) => a.wf(),
            Array::DaysMs(a) => a.wf(),
            Array::MonthsDaysNs(a) => a.wf(),
            Array::Binary(a) => a.wf(),
            Array::LargeBinary(a) => a.wf(),
            Array::Utf8(a) => a.wf(),
            Array::LargeUtf8(a) => a.wf(),
            Array::List(a) => a.wf(),
            Array::LargeList(a) => a.wf(),
            Array::FixedSizeList(a) => a.wf(),
            Array::Struct(a) => a.wf(),
            Array::DictionaryI16(a) => a.wf(),
            Array::DictionaryI32(a) => a.wf(),
            Array::DictionaryI64(a) => a.wf(),
        }
    }

    /// The logical type of the array.
    pub open spec fn spec_data_type(&self) -> DataType {
        match self {
            Array::Null(a) => a.spec_data_type(),
            Array::Boolean(a) => a.spec_data_type(),
            Array::Int16(a) => a.spec_data_type(),
            Array::Int32(a) => a.spec_data_type(),
            Array::Int64(a) => a.spec_data_type(),
            Array::Int128(a) => a.spec_data_type(),
            Array::Int256(a) => a.spec_data_type(),
            Array::DaysMs(a) => a.spec_data_type(),
            Array::MonthsDaysNs(a) => a.spec_data_type(),
            Array::Binary(a) => a.spec_data_type(),
            Array::LargeBinary(a) => a.spec_data_type(),
            Array::Utf8(a) => a.spec_data_type(),
            Array::LargeUtf8(a) => a.spec_data_type(),
            Array::List(a) => a.spec_data_type(),
            Array::LargeList(a) => a.spec_data_type(),
            Array::FixedSizeList(a) => a.spec_data_type(),
            Array::Struct(a) => a.spec_data_type(),
            Array::DictionaryI16(a) => a.spec_data_type(),
            Array::DictionaryI32(a) => a.spec_data_type(),
            Array::DictionaryI64(a) => a.spec_data_type(),
        }
    }

    /// What the invariant says of the view.
    pub proof fn lemma_wf(&self)
        requires
            self.wf(),
        ensures
            self@.data_type() == self.spec_data_type()@,
            self@.len() <= usize::MAX,
            self@.valid(),
        decreases self,
    {
        match self {
            Array::Null(a) => a.lemma_wf(),
            Array::Boolean(a) => a.lemma_wf(),
            Array::Int16(a) => a.lemma_wf(),
            Array::Int32(a) => a.lemma_wf(),
            Array::Int64(a) => a.lemma_wf(),
            Array::Int128(a) => a.lemma_wf(),
            Array::Int256(a) => a.lemma_wf(),
            Array::DaysMs(a) => a.lemma_wf(),
            Array::MonthsDaysNs(a) => a.lemma_wf(),
            Array::Binary(a) => a.lemma_wf(),
            Array::LargeBinary(a) => a.lemma_wf(),
            Array::Utf8(a) => a.lemma_wf(),
            Array::LargeUtf8(a) => a.lemma_wf(),
            Array::List(a) => a.lemma_wf(),
            Array::LargeList(a) => a.lemma_wf(),
            Array::FixedSizeList(a) => a.lemma_wf(),
            Array::Struct(a) => a.lemma_wf(),
            Array::DictionaryI16(a) => a.lemma_wf(),
            Array::DictionaryI32(a) => a.lemma_wf(),
            Array::DictionaryI64(a) => a.lemma_wf(),
        }
    }

    /// The length of the [`Array`]: its number of slots.
    pub fn len(&self) -> (n: usize)
        requires
            self.wf(),
        ensures
            n == self@.len(),
    {
        match self {
            Array::Null(a) => a.len(),
            Array::Boolean(a) => a.len(),
            Array::Int16(a) => a.len(),
            Array::Int32(a) => a.len(),
            Array::Int64(a) => a.len(),
            Array::Int128(a) => a.len(),
            Array::Int256(a) => a.len(),
            Array::DaysMs(a) => a.len(),
            Array::MonthsDaysNs(a) => a.len(),
            Array::Binary(a) => a.len(),
            Array::LargeBinary(a) => a.len(),
            Array::Utf8(a) => a.len(),
            Array::LargeUtf8(a) => a.len(),
            Array::List(a) => a.len(),
            Array::LargeList(a) => a.len(),
            Array::FixedSizeList(a) => a.len(),
            Array::Struct(a) => a.len(),
            Array::DictionaryI16(a) => a.len(),
            Array::DictionaryI32(a) => a.len(),
            Array::DictionaryI64(a) => a.len(),
        }
    }

    /// Whether the array has no slot.
    pub fn is_empty(&self) -> (e: bool)
        requires
            self.wf(),
        ensures
            e == (self@.len() == 0),
    {
        self.len() == 0
    }

    /// The [`DataType`] of the [`Array`].
    pub fn data_type(&self) -> (r: &DataType)
        ensures
            *r == self.spec_data_type(),
            r@ == self@.data_type(),
    {
        match self {
            Array::Null(a) => a.data_type(),
            Array::Boolean(a) => a.data_type(),
            Array::Int16(a) => a.data_type(),
            Array::Int32(a) => a.data_type(),
            Array::Int64(a) => a.data_type(),
            Array::Int128(a) => a.data_type(),
            Array::Int256(a) => a.data_type(),
            Array::DaysMs(a) => a.data_type(),
            Array::MonthsDaysNs(a) => a.data_type(),
            Array::Binary(a) => a.data_type(),
            Array::LargeBinary(a) => a.data_type(),
            Array::Utf8(a) => a.data_type(),
            Array::LargeUtf8(a) => a.data_type(),
            Array::List(a) => a.data_type(),
            Array::LargeList(a) => a.data_type(),
            Array::FixedSizeList(a) => a.data_type(),
            Array::Struct(a) => a.data_type(),
            Array::DictionaryI16(a) => a.data_type(),
            Array::DictionaryI32(a) => a.data_type(),
            Array::DictionaryI64(a) => a.data_type(),
        }
    }

    /// The validity of the [`Array`]: every array has an optional [`Bitmap`]
    /// that, when present, marks the null slots (with unset bits).
    pub fn validity(&self) -> (r: Option<&Bitmap>)
        requires
            self.wf(),
        ensures
            r matches Some(b) ==> b.wf() && Some(b@) == self@.validity(),
            r is None <==> self@.validity() is None,
    {
        match self {
            Array::Null(a) => None,
            Array::Boolean(a) => a.validity(),
            Array::Int16(a) => a.validity(),
            Array::Int32(a) => a.validity(),
            Array::Int64(a) => a.validity(),
            Array::Int128(a) => a.validity(),
            Array::Int256(a) => a.validity(),
            Array::DaysMs(a) => a.validity(),
            Array::MonthsDaysNs(a) => a.validity(),
            Array::Binary(a) => a.validity(),
            Array::LargeBinary(a) => a.validity(),
            Array::Utf8(a) => a.validity(),
            Array::LargeUtf8(a) => a.validity(),
            Array::List(a) => a.validity(),
            Array::LargeList(a) => a.validity(),
            Array::FixedSizeList(a) => a.validity(),
            Array::Struct(a) => a.validity(),
            Array::DictionaryI16(a) => a.validity(),
            Array::DictionaryI32(a) => a.validity(),
            Array::DictionaryI64(a) => a.validity(),
        }
    }

    /// The number of null slots.
    pub fn null_count(&self) -> (n: usize)
        requires
            self.wf(),
        ensures
            n == self@.null_count(),
    {
        match self {
            Array::Null(a) => a.len(),
            _ => match self.validity() {
                Some(b) => b.unset_bits(),
                None => 0,
            },
        }
    }

    /// Slices this [`Array`] to the `length` slots from `offset` on. No value is copied.
    /// The caller ensures that `offset + length <= self.len()`.
    pub fn slice(&mut self, offset: usize, length: usize)
        requires
            old(self).wf(),
            offset + length <= old(self)@.len(),
        ensures
            final(self).wf(),
            final(self).spec_data_type() == old(self).spec_data_type(),
            final(self)@ == old(self)@.sliced(offset as int, length as int),
    {
        self.slice_unchecked(offset, length)
    }

    /// Slices this [`Array`] to the `length` slots from `offset` on. No value is copied.
    /// The caller ensures that `offset + length <= self.len()`.
    pub fn slice_unchecked(&mut self, offset: usize, length: usize)
        requires
            old(self).wf(),
            offset + length <= old(self)@.len(),
        ensures
            final(self).wf(),
            final(self).spec_data_type() == old(self).spec_data_type(),
            final(self)@ == old(self)@.sliced(offset as int, length as int),
    {
        match self {
            Array::Null(a) => a.slice_unchecked(offset, length),
            Array::Boolean(a) => a.slice_unchecked(offset, length),
            Array::Int16(a) => a.slice_unchecked(offset, length),
            Array::Int32(a) => a.slice_unchecked(offset, length),
            Array::Int64(a) => a.slice_unchecked(offset, length),
            Array::Int128(a) => a.slice_unchecked(offset, length),
            Array::Int256(a) => a.slice_unchecked(offset, length),
            Array::DaysMs(a) => a.slice_unchecked(offset, length),
            Array::MonthsDaysNs(a) => a.slice_unchecked(offset, length),
            Array::Binary(a) => a.slice_unchecked(offset, length),
            Array::LargeBinary(a) => a.slice_unchecked(offset, length),
            Array::Utf8(a) => a.slice_unchecked(offset, length),
            Array::LargeUtf8(a) => a.slice_unchecked(offset, length),
            Array::List(a) => a.slice_unchecked(offset, length),
            Array::LargeList(a) => a.slice_unchecked(offset, length),
            Array::FixedSizeList(a) => a.slice_unchecked(offset, length),
            Array::Struct(a) => a.slice_unchecked(offset, length),
            Array::DictionaryI16(a) => a.slice_unchecked(offset, length),
            Array::DictionaryI32(a) => a.slice_unchecked(offset, length),
            Array::DictionaryI64(a) => a.slice_unchecked(offset, length),
        }
    }

    /// A new array over the same allocations, sliced to the `length` slots
    /// from `offset` on. No value is copied.
    /// The caller ensures that `offset + length <= self.len()`.
    #[must_use]
    pub fn sliced(&self, offset: usize, length: usize) -> (r: Box<Array>)
        requires
            self.wf(),
            offset + length <= self@.len(),
        ensures
            r.wf(),
            r.spec_data_type() == self.spec_data_type(),
            r@ == self@.sliced(offset as int, length as int),
    {
        self.sliced_unchecked(offset, length)
    }

    /// A new array over the same allocations, sliced to the `length` slots
    /// from `offset` on. No value is copied.
    /// The caller ensures that `offset + length <= self.len()`.
    #[must_use]
    pub fn sliced_unchecked(&self, offset: usize, length: usize) -> (r: Box<Array>)
        requires
            self.wf(),
            offset + length <= self@.len(),
        ensures
            r.wf(),
            r.spec_data_type() == self.spec_data_type(),
            r@ == self@.sliced(offset as int, length as int),
    {
        let mut r = self.clone();
        r.slice_unchecked(offset, length);
        Box::new(r)
    }

    /// A new array over the same allocations, with the validity replaced.
    /// The caller ensures that the array is not a null array, and that the
    /// validity, if any, has `self.len()` bits.
    #[must_use]
    pub fn with_validity(&self, validity: Option<Bitmap>) -> (r: Box<Array>)
        requires
            self.wf(),
            !(self is Null),
            validity matches Some(b) ==> b.wf() && b@.len() == self@.len(),
        ensures
            r.wf(),
            r.spec_data_type() == self.spec_data_type(),
            r@ == self@.with_validity(bits(validity)),
    {
        let array = match self {
            Array::Null(a) => Array::Null(a.clone()),
            Array::Boolean(a) => Array::Boolean(a.clone().with_validity(validity)),
            Array::Int16(a) => Array::Int16(a.clone().with_validity(validity)),
            Array::Int32(a) => Array::Int32(a.clone().with_validity(validity)),
            Array::Int64(a) => Array::Int64(a.clone().with_validity(validity)),
            Array::Int128(a) => Array::Int128(a.clone().with_validity(validity)),
            Array::Int256(a) => Array::Int256(a.clone().with_validity(validity)),
            Array::DaysMs(a) => Array::DaysMs(a.clone().with_validity(validity)),
            Array::MonthsDaysNs(a) => Array::MonthsDaysNs(a.clone().with_validity(validity)),
            Array::Binary(a) => Array::Binary(a.clone().with_validity(validity)),
            Array::LargeBinary(a) => Array::LargeBinary(a.clone().with_validity(validity)),
            Array::Utf8(a) => Array::Utf8(a.clone().with_validity(validity)),
            Array::LargeUtf8(a) => Array::LargeUtf8(a.clone().with_validity(validity)),
            Array::List(a) => Array::List(a.clone().with_validity(validity)),
            Array::LargeList(a) => Array::LargeList(a.clone().with_validity(validity)),
            Array::FixedSizeList(a) => Array::FixedSizeList(a.clone().with_validity(validity)),
            Array::Struct(a) => Array::Struct(a.clone().with_validity(validity)),
            Array::DictionaryI16(a) => Array::DictionaryI16(a.clone().with_validity(validity)),
            Array::DictionaryI32(a) => Array::DictionaryI32(a.clone().with_validity(validity)),
            Array::DictionaryI64(a) => Array::DictionaryI64(a.clone().with_validity(validity)),
        };
        Box::new(array)
    }

    /// Moves the array to the heap.
    pub fn boxed(self) -> (r: Box<Array>)
        ensures
            *r == self,
    {
        Box::new(self)
    }
}

impl Clone for Array {
    /// An array over the same allocations.
    fn clone(&self) -> (r: Array)
        ensures
            r == *self,
    {
        match self {
            Array::Null(a) => Array::Null(a.clone()),
            Array::Boolean(a) => Array::Boolean(a.clone()),
            Array::Int16(a) => Array::Int16(a.clone()),
            Array::Int32(a) => Array::Int32(a.clone()),
            Array::Int64(a) => Array::Int64(a.clone()),
            Array::Int128(a) => Array::Int128(a.clone()),
            Array::Int256(a) => Array::Int256(a.clone()),
            Array::DaysMs(a) => Array::DaysMs(a.clone()),
            Array::MonthsDaysNs(a) => Array::MonthsDaysNs(a.clone()),
            Array::Binary(a) => Array::Binary(a.clone()),
            Array::LargeBinary(a) => Array::LargeBinary(a.clone()),
            Array::Utf8(a) => Array::Utf8(a.clone()),
            Array::LargeUtf8(a) => Array::LargeUtf8(a.clone()),
            Array::List(a) => Array::List(a.clone()),
            Array::LargeList(a) => Array::LargeList(a.clone()),
            Array::FixedSizeList(a) => Array::FixedSizeList(a.clone()),
            Array::Struct(a) => Array::Struct(a.clone()),
            Array::DictionaryI16(a) => Array::DictionaryI16(a.clone()),
            Array::DictionaryI32(a) => Array::DictionaryI32(a.clone()),
            Array::DictionaryI64(a) => Array::DictionaryI64(a.clone()),
        }
    }
}

impl NullArray {
    /// Moves the array to the heap, as one of the arrays of this crate.
    pub fn boxed(self) -> (r: Box<Array>)
        ensures
            *r == Array::Null(self),
    {
        Box::new(Array::Null(self))
    }
}

impl BooleanArray {
    /// Moves the array to the heap, as one of the arrays of this crate.
    pub fn boxed(self) -> (r: Box<Array>)
        ensures
            *r == Array::Boolean(self),
    {
        Box::new(Array::Boolean(self))
    }
}

impl PrimitiveArray<i16> {
    /// Moves the array to the heap, as one of the arrays of this crate.
    pub fn boxed(self) -> (r: Box<Array>)
        ensures
            *r == Array::Int16(self),
    {
        Box::new(Array::Int16(self))
    }
}

impl PrimitiveArray<i32> {
    /// Moves the array to the heap, as one of the arrays of this crate.
    pub fn boxed(self) -> (r: Box<Array>)
        ensures
            *r == Array::Int32(self),
    {
        Box::new(Array::Int32(self))
    }
}

impl PrimitiveArray<i64> {
    /// Moves the array to the heap, as one of the arrays of this crate.
    pub fn boxed(self) -> (r: Box<Array>)
        ensures
            *r == Array::Int64(self),
    {
        Box::new(Array::Int64(self))
    }
}

impl PrimitiveArray<i128> {
    /// Moves the array to the heap, as one of the arrays of this crate.
    pub fn boxed(self) -> (r: Box<Array>)
        ensures
            *r == Array::Int128(self),
    {
        Box::new(Array::Int128(self))
    }
}

impl PrimitiveArray<i256> {
    /// Moves the array to the heap, as one of the arrays of this crate.
    pub fn boxed(self) -> (r: Box<Array>)
        ensures
            *r == Array::Int256(self),
    {
        Box::new(Array::Int256(self))
    }
}

impl PrimitiveArray<days_ms> {
    /// Moves the array to the heap, as one of the arrays of this crate.
    pub fn boxed(self) -> (r: Box<Array>)
        ensures
            *r == Array::DaysMs(self),
    {
        Box::new(Array::DaysMs(self))
    }
}

impl PrimitiveArray<months_days_ns> {
    /// Moves the array to the heap, as one of the arrays of this crate.
    pub fn boxed(self) -> (r: Box<Array>)
        ensures
            *r == Array::MonthsDaysNs(self),
    {
        Box::new(Array::MonthsDaysNs(self))
    }
}

impl BinaryArray<i32> {
    /// Moves the array to the heap, as one of the arrays of this crate.
    pub fn boxed(self) -> (r: Box<Array>)
        ensures
            *r == Array::Binary(self),
    {
        Box::new(Array::Binary(self))
    }
}

impl BinaryArray<i64> {
    /// Moves the array to the heap, as one of the arrays of this crate.
    pub fn boxed(self) -> (r: Box<Array>)
        ensures
            *r == Array::LargeBinary(self),
    {
        Box::new(Array::LargeBinary(self))
    }
}

impl Utf8Array<i32> {
    /// Moves the array to the heap, as one of the arrays of this crate.
    pub fn boxed(self) -> (r: Box<Array>)
        ensures
            *r == Array::Utf8(self),
    {
        Box::new(Array::Utf8(self))
    }
}

impl Utf8Array<i64> {
    /// Moves the array to the heap, as one of the arrays of this crate.
    pub fn boxed(self) -> (r: Box<Array>)
        ensures
            *r == Array::LargeUtf8(self),
    {
        Box::new(Array::LargeUtf8(self))
    }
}

impl ListArray<i32> {
    /// Moves the array to the heap, as one of the arrays of this crate.
    pub fn boxed(self) -> (r: Box<Array>)
        ensures
            *r == Array::List(self),
    {
        Box::new(Array::List(self))
    }
}

impl ListArray<i64> {
    /// Moves the array to the heap, as one of the arrays of this crate.
    pub fn boxed(self) -> (r: Box<Array>)
        ensures
            *r == Array::LargeList(self),
    {
        Box::new(Array::LargeList(self))
    }
}

impl FixedSizeListArray {
    /// Moves the array to the heap, as one of the arrays of this crate.
    pub fn boxed(self) -> (r: Box<Array>)
        ensures
            *r == Array::FixedSizeList(self),
    {
        Box::new(Array::FixedSizeList(self))
    }
}

impl StructArray {
    /// Moves the array to the heap, as one of the arrays of this crate.
    pub fn boxed(self) -> (r: Box<Array>)
        ensures
            *r == Array::Struct(self),
    {
        Box::new(Array::Struct(self))
    }
}

impl DictionaryArray<i16> {
    /// Moves the array to the heap, as one of the arrays of this crate.
    pub fn boxed(self) -> (r: Box<Array>)
        ensures
            *r == Array::DictionaryI16(self),
    {
        Box::new(Array::DictionaryI16(self))
    }
}

impl DictionaryArray<i32> {
    /// Moves the array to the heap, as one of the arrays of this crate.
    pub fn boxed(self) -> (r: Box<Array>)
        ensures
            *r == Array::DictionaryI32(self),
    {
        Box::new(Array::DictionaryI32(self))
    }
}

impl DictionaryArray<i64> {
    /// Moves the array to the heap, as one of the arrays of this crate.
    pub fn boxed(self) -> (r: Box<Array>)
        ensures
            *r == Array::DictionaryI64(self),
    {
        Box::new(Array::DictionaryI64(self))
    }
}

/// A logical type stored as `List` is a `List` once its extension names are taken off.
pub proof fn lemma_logical_type(data_type: &DataType)
    ensures
        data_type.logical_type().physical_type() == data_type.physical_type(),
        !(data_type.logical_type() is Extension),
        data_type.logical_type().depth() <= data_type.depth(),
    decreases data_type,
{
    if data_type is Extension {
        lemma_logical_type(&*data_type->Extension_1);
    }
}

/// Creates a new [`Array`] of [`DataType`] `data_type` and length zero.
pub fn new_empty_array(data_type: DataType) -> (r: Box<Array>)
    ensures
        r.wf(),
        r.spec_data_type() == data_type,
        r@.len() == 0,
        r@.validity() is None,
    decreases data_type.depth(), 1nat,
{
    proof {
        lemma_logical_type(&data_type);
    }
    let array = match data_type.to_physical_type() {
        PhysicalType::Null => Array::Null(NullArray::new(data_type, 0)),
        PhysicalType::Boolean => Array::Boolean(BooleanArray::new_empty(data_type)),
        PhysicalType::Primitive(PrimitiveType::Int16) => Array::Int16(
            PrimitiveArray::<i16>::new_empty(data_type),
        ),
        PhysicalType::Primitive(PrimitiveType::Int32) => Array::Int32(
            PrimitiveArray::<i32>::new_empty(data_type),
        ),
        PhysicalType::Primitive(PrimitiveType::Int64) => Array::Int64(
            PrimitiveArray::<i64>::new_empty(data_type),
        ),
        PhysicalType::Primitive(PrimitiveType::Int128) => Array::Int128(
            PrimitiveArray::<i128>::new_empty(data_type),
        ),
        PhysicalType::Primitive(PrimitiveType::Int256) => Array::Int256(
            PrimitiveArray::<i256>::new_empty(data_type),
        ),
        PhysicalType::Primitive(PrimitiveType::DaysMs) => Array::DaysMs(
            PrimitiveArray::<days_ms>::new_empty(data_type),
        ),
        PhysicalType::Primitive(PrimitiveType::MonthDayNano) => Array::MonthsDaysNs(
            PrimitiveArray::<months_days_ns>::new_empty(data_type),
        ),
        PhysicalType::Binary => Array::Binary(BinaryArray::<i32>::new_empty(data_type)),
        PhysicalType::LargeBinary => Array::LargeBinary(BinaryArray::<i64>::new_empty(data_type)),
        PhysicalType::Utf8 => Array::Utf8(Utf8Array::<i32>::new_empty(data_type)),
        PhysicalType::LargeUtf8 => Array::LargeUtf8(Utf8Array::<i64>::new_empty(data_type)),
        PhysicalType::List => Array::List(ListArray::<i32>::new_empty(data_type)),
        PhysicalType::LargeList => Array::LargeList(ListArray::<i64>::new_empty(data_type)),
        PhysicalType::FixedSizeList => Array::FixedSizeList(
            FixedSizeListArray::new_empty(data_type),
        ),
        PhysicalType::Struct => Array::Struct(StructArray::new_empty(data_type)),
        PhysicalType::Dictionary(IntegerType::Int16) => Array::DictionaryI16(
            DictionaryArray::<i16>::new_empty(data_type),
        ),
        PhysicalType::Dictionary(IntegerType::Int32) => Array::DictionaryI32(
            DictionaryArray::<i32>::new_empty(data_type),
        ),
        PhysicalType::Dictionary(IntegerType::Int64) => Array::DictionaryI64(
            DictionaryArray::<i64>::new_empty(data_type),
        ),
    };
    Box::new(array)
}

} // verus!
