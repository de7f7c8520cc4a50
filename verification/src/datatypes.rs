//! Logical data types, fields and schemas.
use vstd::prelude::*;
use std::sync::Arc;
use crate::shared::share;
use crate::types::PrimitiveType;

pub mod field;
pub mod schema;

pub use field::{Field, FieldView};
pub use schema::{Metadata, Schema};

verus! {

/// The logical type of an array: what its values mean.
#[derive(Debug)]
pub enum DataType {
    /// Null type
    Null,
    /// `true` and `false`.
    Boolean,
    /// An [`i16`]
    Int16,
    /// An [`i32`]
    Int32,
    /// An [`i64`]
    Int64,
    /// Opaque binary data of variable length whose offsets are represented as [`i32`].
    Binary,
    /// Opaque binary data of variable length whose offsets are represented as [`i64`].
    LargeBinary,
    /// A variable-length UTF-8 encoded string whose offsets are represented as [`i32`].
    Utf8,
    /// A variable-length UTF-8 encoded string whose offsets are represented as [`i64`].
    LargeUtf8,
    /// A list of some logical data type whose offsets are represented as [`i32`].
    List(Arc<Field>),
    /// A list of some logical data type whose offsets are represented as [`i64`].
    LargeList(Arc<Field>),
    /// A list of some logical data type with a fixed number of items in each list.
    FixedSizeList(Arc<Field>, usize),
    /// A nested type that contains a number of named sub-fields.
    Struct(Arc<Vec<Field>>),
    /// A dictionary encoded array: keys of an integer type that index values
    /// of another type. The flag says whether the values are sorted.
    Dictionary(IntegerType, Arc<DataType>, bool),
    /// A "calendar" interval, in the given unit.
    Interval(IntervalUnit),
    /// Decimal value with precision and scale, stored as [`i128`].
    Decimal(usize, usize),
    /// Decimal value with precision and scale, stored as 256 bits.
    Decimal256(usize, usize),
    /// A named type that is stored as another one.
    Extension(String, Arc<DataType>),
}

/// The integer types that the keys of a dictionary can have.
#[derive(Debug, Clone, Copy, PartialEq, Eq, Structural, Hash)]
pub enum IntegerType {
    /// A signed 16-bit integer.
    Int16,
    /// A signed 32-bit integer.
    Int32,
    /// A signed 64-bit integer.
    Int64,
}

/// Interval units defined in Arrow
#[derive(Debug, Clone, Copy, PartialEq, Eq, Structural, Hash)]
pub enum IntervalUnit {
    /// The number of elapsed whole months.
    YearMonth,
    /// The number of elapsed days and milliseconds,
    /// stored as 2 contiguous `i32`
    DayTime,
    /// The number of elapsed months (i32), days (i32) and nanoseconds (i64).
    MonthDayNano,
}

/// The mathematical value of a [`DataType`].
pub enum DataTypeView {
    Null,
    Boolean,
    Int16,
    Int32,
    Int64,
    Binary,
    LargeBinary,
    Utf8,
    LargeUtf8,
    List(Box<FieldView>),
    LargeList(Box<FieldView>),
    FixedSizeList(Box<FieldView>, usize),
    Struct(Seq<FieldView>),
    Dictionary(IntegerType, Box<DataTypeView>, bool),
    Interval(IntervalUnit),
    Decimal(usize, usize),
    Decimal256(usize, usize),
    Extension(Seq<char>, Box<DataTypeView>),
}

/// The physical type of an array: how its values are laid out in memory.
#[derive(Debug, Clone, Copy, PartialEq, Eq, Structural, Hash)]
pub enum PhysicalType {
    /// A Null with no allocation.
    Null,
    /// A boolean represented as a single bit.
    Boolean,
    /// An array where each slot has a known compile-time size.
    Primitive(PrimitiveType),
    /// Opaque binary data of variable length.
    Binary,
    /// Opaque binary data of variable length, with 64-bit offsets.
    LargeBinary,
    /// Text in UTF-8 of variable length.
    Utf8,
    /// Text in UTF-8 of variable length, with 64-bit offsets.
    LargeUtf8,
    /// A list of some data type.
    List,
    /// A list of some data type, with 64-bit offsets.
    LargeList,
    /// A list of some data type, each of as many items.
    FixedSizeList,
    /// Arrays of the same length, one for each of a number of named fields.
    Struct,
    /// Keys of an integer type that index the values of another array.
    Dictionary(IntegerType),
}

/// The depth of the most deeply nested among the types of the first `n`
/// fields of a struct type; zero for another type.
pub open spec fn fields_depth(data_type: DataType, n: nat) -> nat
    decreases data_type, n,
{
    match data_type {
        DataType::Struct(fields) => if 0 < n <= fields@.len() {
            let rest = fields_depth(data_type, (n - 1) as nat);
            let last = fields@[n - 1].data_type.depth();
            if last > rest {
                last
            } else {
                rest
            }
        } else {
            0
        },
        _ => 0,
    }
}

/// The type of a field of a struct type is less deeply nested than the struct type.
pub proof fn lemma_fields_depth(data_type: DataType, n: nat, i: int)
    requires
        data_type matches DataType::Struct(fields) && 0 <= i < n <= fields@.len(),
    ensures
        data_type->Struct_0@[i].data_type.depth() <= fields_depth(data_type, n),
    decreases n,
{
    if i < n - 1 {
        lemma_fields_depth(data_type, (n - 1) as nat, i);
    }
}

impl DataType {
    /// The mathematical value of the type.
    pub open spec fn view(&self) -> DataTypeView
        decreases self,
    {
        match self {
            DataType::Null => DataTypeView::Null,
            DataType::Boolean => DataTypeView::Boolean,
            DataType::Int16 => DataTypeView::Int16,
            DataType::Int32 => DataTypeView::Int32,
            DataType::Int64 => DataTypeView::Int64,
            DataType::Binary => DataTypeView::Binary,
            DataType::LargeBinary => DataTypeView::LargeBinary,
            DataType::Utf8 => DataTypeView::Utf8,
            DataType::LargeUtf8 => DataTypeView::LargeUtf8,
            DataType::List(field) => DataTypeView::List(Box::new(field.view())),
            DataType::LargeList(field) => DataTypeView::LargeList(Box::new(field.view())),
            DataType::FixedSizeList(field, size) => DataTypeView::FixedSizeList(
                Box::new(field.view()),
                *size,
            ),
            DataType::Dictionary(keys, values, sorted) => DataTypeView::Dictionary(
                *keys,
                Box::new(values.view()),
                *sorted,
            ),
            DataType::Struct(fields) => DataTypeView::Struct(
                Seq::new(
                    fields@.len(),
                    |i: int|
                        if 0 <= i < fields@.len() {
                            fields@[i].view()
                        } else {
                            arbitrary()
                        },
                ),
            ),
            DataType::Interval(unit) => DataTypeView::Interval(*unit),
            DataType::Decimal(precision, scale) => DataTypeView::Decimal(*precision, *scale),
            DataType::Decimal256(precision, scale) => DataTypeView::Decimal256(*precision, *scale),
            DataType::Extension(name, inner) => DataTypeView::Extension(
                name@,
                Box::new(inner.view()),
            ),
        }
    }

    /// How deep the type is nested.
    pub open spec fn depth(&self) -> nat
        decreases self,
            match self {
                DataType::Struct(fields) => fields@.len() + 1,
                _ => 0,
            },
    {
        match self {
            DataType::List(field) => 1 + field.data_type.depth(),
            DataType::LargeList(field) => 1 + field.data_type.depth(),
            DataType::FixedSizeList(field, _) => 1 + field.data_type.depth(),
            DataType::Struct(fields) => 1 + fields_depth(*self, fields@.len()),
            DataType::Dictionary(_, values, _) => 1 + values.depth(),
            DataType::Extension(_, inner) => 1 + inner.depth(),
            _ => 0,
        }
    }

    /// The type with its extension names taken off.
    pub open spec fn logical_type(&self) -> DataType
        decreases self,
    {
        match self {
            DataType::Extension(_, inner) => inner.logical_type(),
            _ => *self,
        }
    }

    /// The physical type of a logical type.
    pub open spec fn physical_type(&self) -> PhysicalType
        decreases self,
    {
        match self {
            DataType::Null => PhysicalType::Null,
            DataType::Boolean => PhysicalType::Boolean,
            DataType::Int16 => PhysicalType::Primitive(PrimitiveType::Int16),
            DataType::Int32 => PhysicalType::Primitive(PrimitiveType::Int32),
            DataType::Int64 => PhysicalType::Primitive(PrimitiveType::Int64),
            DataType::Binary => PhysicalType::Binary,
            DataType::LargeBinary => PhysicalType::LargeBinary,
            DataType::Utf8 => PhysicalType::Utf8,
            DataType::LargeUtf8 => PhysicalType::LargeUtf8,
            DataType::List(_) => PhysicalType::List,
            DataType::LargeList(_) => PhysicalType::LargeList,
            DataType::FixedSizeList(_, _) => PhysicalType::FixedSizeList,
            DataType::Struct(_) => PhysicalType::Struct,
            DataType::Dictionary(keys, _, _) => PhysicalType::Dictionary(*keys),
            DataType::Interval(IntervalUnit::YearMonth) => PhysicalType::Primitive(
                PrimitiveType::Int32,
            ),
            DataType::Interval(IntervalUnit::DayTime) => PhysicalType::Primitive(
                PrimitiveType::DaysMs,
            ),
            DataType::Interval(IntervalUnit::MonthDayNano) => PhysicalType::Primitive(
                PrimitiveType::MonthDayNano,
            ),
            DataType::Decimal(_, _) => PhysicalType::Primitive(PrimitiveType::Int128),
            DataType::Decimal256(_, _) => PhysicalType::Primitive(PrimitiveType::Int256),
            DataType::Extension(_, inner) => inner.physical_type(),
        }
    }

    /// Returns `&self` for all but [`DataType::Extension`]. For [`DataType::Extension`],
    /// (recursively) returns the inner [`DataType`].
    pub fn to_logical_type(&self) -> (r: &DataType)
        ensures
            *r == self.logical_type(),
            !(r is Extension),
        decreases self,
    {
        match self {
            DataType::Extension(_, inner) => inner.to_logical_type(),
            _ => self,
        }
    }

    /// The [`PhysicalType`] of this [`DataType`].
    pub fn to_physical_type(&self) -> (r: PhysicalType)
        ensures
            r == self.physical_type(),
        decreases self,
    {
        match self {
            DataType::Null => PhysicalType::Null,
            DataType::Boolean => PhysicalType::Boolean,
            DataType::Int16 => PhysicalType::Primitive(PrimitiveType::Int16),
            DataType::Int32 => PhysicalType::Primitive(PrimitiveType::Int32),
            DataType::Int64 => PhysicalType::Primitive(PrimitiveType::Int64),
            DataType::Binary => PhysicalType::Binary,
            DataType::LargeBinary => PhysicalType::LargeBinary,
            DataType::Utf8 => PhysicalType::Utf8,
            DataType::LargeUtf8 => PhysicalType::LargeUtf8,
            DataType::List(_) => PhysicalType::List,
            DataType::LargeList(_) => PhysicalType::LargeList,
            DataType::FixedSizeList(_, _) => PhysicalType::FixedSizeList,
            DataType::Struct(_) => PhysicalType::Struct,
            DataType::Dictionary(keys, _, _) => PhysicalType::Dictionary(*keys),
            DataType::Interval(IntervalUnit::YearMonth) => PhysicalType::Primitive(
                PrimitiveType::Int32,
            ),
            DataType::Interval(IntervalUnit::DayTime) => PhysicalType::Primitive(
                PrimitiveType::DaysMs,
            ),
            DataType::Interval(IntervalUnit::MonthDayNano) => PhysicalType::Primitive(
                PrimitiveType::MonthDayNano,
            ),
            DataType::Decimal(_, _) => PhysicalType::Primitive(PrimitiveType::Int128),
            DataType::Decimal256(_, _) => PhysicalType::Primitive(PrimitiveType::Int256),
            DataType::Extension(_, inner) => inner.to_physical_type(),
        }
    }

    /// Whether two types have the same mathematical value.
    pub fn same_as(&self, other: &DataType) -> (r: bool)
        ensures
            r == (self@ == other@),
        decreases self,
    {
        match (self, other) {
            (DataType::Null, DataType::Null) => true,
            (DataType::Boolean, DataType::Boolean) => true,
            (DataType::Int16, DataType::Int16) => true,
            (DataType::Int32, DataType::Int32) => true,
            (DataType::Int64, DataType::Int64) => true,
            (DataType::Binary, DataType::Binary) => true,
            (DataType::LargeBinary, DataType::LargeBinary) => true,
            (DataType::Utf8, DataType::Utf8) => true,
            (DataType::LargeUtf8, DataType::LargeUtf8) => true,
            (DataType::List(a), DataType::List(b)) => a.same_as(b),
            (DataType::LargeList(a), DataType::LargeList(b)) => a.same_as(b),
            (DataType::FixedSizeList(a, n), DataType::FixedSizeList(b, m)) => {
                *n == *m && a.same_as(b)
            },
            (DataType::Dictionary(k, a, s), DataType::Dictionary(l, b, t)) => {
                *k == *l && *s == *t && a.same_as(b)
            },
            (DataType::Struct(a), DataType::Struct(b)) => {
                if a.len() != b.len() {
                    assert(self@->Struct_0.len() != other@->Struct_0.len());
                    return false;
                }
                let mut i: usize = 0;
                while i < a.len()
                    invariant
                        i <= a@.len(),
                        a@.len() == b@.len(),
                        *self == DataType::Struct(*a),
                        *other == DataType::Struct(*b),
                        forall|j: int| 0 <= j < i ==> a@[j]@ == b@[j]@,
                    decreases a@.len() - i,
                {
                    if !a[i].same_as(&b[i]) {
                        assert(self@->Struct_0[i as int] != other@->Struct_0[i as int]);
                        return false;
                    }
                    i = i + 1;
                }
                assert(self@->Struct_0 =~= other@->Struct_0);
                true
            },
            (DataType::Interval(a), DataType::Interval(b)) => *a == *b,
            (DataType::Decimal(p, s), DataType::Decimal(q, t)) => *p == *q && *s == *t,
            (DataType::Decimal256(p, s), DataType::Decimal256(q, t)) => *p == *q && *s == *t,
            (DataType::Extension(name, a), DataType::Extension(other_name, b)) => {
                *name == *other_name && a.same_as(b)
            },
            _ => false,
        }
    }
}

impl From<PrimitiveType> for DataType {
    /// The logical type that holds values of a primitive type when no other is asked for.
    fn from(primitive: PrimitiveType) -> (r: DataType) {
        match primitive {
            PrimitiveType::Int16 => DataType::Int16,
            PrimitiveType::Int32 => DataType::Int32,
            PrimitiveType::Int64 => DataType::Int64,
            PrimitiveType::Int128 => DataType::Decimal(32, 32),
            PrimitiveType::Int256 => DataType::Decimal256(32, 32),
            PrimitiveType::DaysMs => DataType::Interval(IntervalUnit::DayTime),
            PrimitiveType::MonthDayNano => DataType::Interval(IntervalUnit::MonthDayNano),
        }
    }
}

impl vstd::std_specs::convert::FromSpecImpl<PrimitiveType> for DataType {
    open spec fn obeys_from_spec() -> bool {
        true
    }

    open spec fn from_spec(primitive: PrimitiveType) -> DataType {
        primitive_data_type(primitive)
    }
}

/// The logical type that holds values of a primitive type when no other is asked for.
pub open spec fn primitive_data_type(primitive: PrimitiveType) -> DataType {
    match primitive {
        PrimitiveType::Int16 => DataType::Int16,
        PrimitiveType::Int32 => DataType::Int32,
        PrimitiveType::Int64 => DataType::Int64,
        PrimitiveType::Int128 => DataType::Decimal(32, 32),
        PrimitiveType::Int256 => DataType::Decimal256(32, 32),
        PrimitiveType::DaysMs => DataType::Interval(IntervalUnit::DayTime),
        PrimitiveType::MonthDayNano => DataType::Interval(IntervalUnit::MonthDayNano),
    }
}

impl Clone for DataType {
    /// The same type. A nested field is shared, not copied.
    fn clone(&self) -> (r: DataType)
        ensures
            r == *self,
    {
        match self {
            DataType::Null => DataType::Null,
            DataType::Boolean => DataType::Boolean,
            DataType::Int16 => DataType::Int16,
            DataType::Int32 => DataType::Int32,
            DataType::Int64 => DataType::Int64,
            DataType::Binary => DataType::Binary,
            DataType::LargeBinary => DataType::LargeBinary,
            DataType::Utf8 => DataType::Utf8,
            DataType::LargeUtf8 => DataType::LargeUtf8,
            DataType::List(field) => DataType::List(share(field)),
            DataType::LargeList(field) => DataType::LargeList(share(field)),
            DataType::FixedSizeList(field, size) => DataType::FixedSizeList(share(field), *size),
            DataType::Struct(fields) => DataType::Struct(share(fields)),
            DataType::Dictionary(keys, values, sorted) => DataType::Dictionary(
                *keys,
                share(values),
                *sorted,
            ),
            DataType::Interval(unit) => DataType::Interval(*unit),
            DataType::Decimal(precision, scale) => DataType::Decimal(*precision, *scale),
            DataType::Decimal256(precision, scale) => DataType::Decimal256(*precision, *scale),
            DataType::Extension(name, inner) => DataType::Extension(name.clone(), share(inner)),
        }
    }
}

} // verus!
