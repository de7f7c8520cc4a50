//! Arrays of structs: one child array for each of a number of named fields.
use vstd::prelude::*;
use std::sync::Arc;
use crate::bitmap::Bitmap;
use crate::datatypes::{lemma_fields_depth, DataType, DataTypeView, Field};
use crate::error::Error;
use crate::shared::share;
use super::{bits, lemma_logical_type, new_empty_array, validity_matches, Array, ArrayView};

verus! {

/// The mathematical value of a [`StructArray`].
pub struct StructView {
    pub data_type: DataTypeView,
    /// The whole children, one for each field.
    pub values: Seq<ArrayView>,
    /// The slot of the children at which the slots start.
    pub start: nat,
    /// The number of slots.
    pub length: nat,
    pub validity: Option<Seq<bool>>,
}

impl StructView {
    /// What holds of the view of every well-formed array: the slots lie
    /// within each child, the validity, if any, has one bit for each slot,
    /// and the same holds of each child.
    pub open spec fn valid(self) -> bool
        decreases self,
    {
        &&& self.validity matches Some(v) ==> v.len() == self.length
        &&& forall|i: int|
            0 <= i < self.values.len() ==> self.start + self.length <= (
            #[trigger] self.values[i]).len()
        &&& forall|i: int| 0 <= i < self.values.len() ==> (#[trigger] self.values[i]).valid()
    }

    /// The number of slots.
    pub open spec fn len(self) -> nat {
        self.length
    }

    /// The slots of the child of field `i`.
    pub open spec fn child(self, i: int) -> ArrayView {
        self.values[i].sliced(self.start as int, self.length as int)
    }

    /// The view of the `length` slots from `offset` on. The children are kept whole.
    pub open spec fn sliced(self, offset: int, length: int) -> StructView {
        StructView {
            data_type: self.data_type,
            values: self.values,
            start: (self.start + offset) as nat,
            length: length as nat,
            validity: match self.validity {
                Some(v) => Some(v.subrange(offset, offset + length)),
                None => None,
            },
        }
    }

    /// Slicing keeps what holds of the view of every well-formed array.
    pub proof fn lemma_sliced(self, offset: int, length: int)
        requires
            self.valid(),
            0 <= offset,
            0 <= length,
            offset + length <= self.len(),
        ensures
            self.sliced(offset, length).valid(),
            self.sliced(offset, length).len() == length,
    {
        let sliced = self.sliced(offset, length);
        assert forall|i: int| 0 <= i < sliced.values.len() implies sliced.start + sliced.length <= (
        #[trigger] sliced.values[i]).len() && sliced.values[i].valid() by {
            assert(self.start + self.length <= self.values[i].len());
            assert(self.values[i].valid());
        }
    }
}

/// The fields that a logical type declares, if the type is, under its
/// extension names, a struct type.
pub open spec fn struct_fields(data_type: DataType) -> Option<Seq<Field>> {
    match data_type.logical_type() {
        DataType::Struct(fields) => Some(fields@),
        _ => None,
    }
}

/// Whether a struct array is made of these parts: the logical type is a
/// struct type with at least one field, there is one child for each field,
/// of the type of the field, the children have the same length, and the
/// validity, if any, has one bit for each slot of a child.
pub open spec fn struct_accepts(
    data_type: DataType,
    values: Seq<Array>,
    validity: Option<Seq<bool>>,
) -> bool {
    match struct_fields(data_type) {
        Some(fields) => {
            &&& fields.len() > 0
            &&& fields.len() == values.len()
            &&& forall|i: int|
                0 <= i < values.len() ==> (#[trigger] fields[i]).data_type@ == values[i]@.data_type()
            &&& forall|i: int|
                0 <= i < values.len() ==> (#[trigger] values[i])@.len() == values[0]@.len()
            &&& validity matches Some(v) ==> v.len() == values[0]@.len()
        },
        None => false,
    }
}

/// The type of a field of a struct type is less deeply nested than the struct type.
pub proof fn lemma_struct_field_depth(data_type: DataType, i: int)
    requires
        struct_fields(data_type) matches Some(fields) && 0 <= i < fields.len(),
    ensures
        struct_fields(data_type)->0[i].data_type.depth() < data_type.depth(),
{
    lemma_logical_type(&data_type);
    let logical = data_type.logical_type();
    lemma_fields_depth(logical, logical->Struct_0@.len(), i);
}

/// An array of structs, each of which may be null: one child array for each
/// field of the struct type, of the type of the field. Slicing moves a window
/// over the slots and keeps the children whole. A null slot still has its
/// slot in each child.
pub struct StructArray {
    data_type: DataType,
    values: Arc<Vec<Array>>,
    // both are measured in slots
    offset: usize,
    length: usize,
    validity: Option<Bitmap>,
}

impl StructArray {
    /// The mathematical value of the array.
    pub closed spec fn view(&self) -> StructView
        decreases self,
    {
        StructView {
            data_type: self.data_type@,
            values: Seq::new(
                self.values@.len(),
                |i: int|
                    if 0 <= i < self.values@.len() {
                        self.values@[i].view()
                    } else {
                        arbitrary()
                    },
            ),
            start: self.offset as nat,
            length: self.length as nat,
            validity: bits(self.validity),
        }
    }

    /// The logical type of the array.
    pub closed spec fn spec_data_type(&self) -> DataType {
        self.data_type
    }

    /// The validity, if any.
    pub closed spec fn spec_validity(&self) -> Option<Bitmap> {
        self.validity
    }

    /// The children.
    pub closed spec fn spec_values(&self) -> Seq<Array> {
        self.values@
    }

    /// The invariant of the type: the logical type is a struct type, there
    /// is one child for each of its fields, of the type of the field, the
    /// slots lie within each child, and the validity, if any, has one bit
    /// for each slot.
    pub closed spec fn wf(&self) -> bool
        decreases self,
    {
        &&& self.offset + self.length <= usize::MAX
        &&& validity_matches(self.validity, self.length as nat)
        &&& struct_fields(self.data_type) matches Some(fields) && fields.len()
            == self.values@.len() && forall|i: int|
            0 <= i < self.values@.len() ==> {
                &&& (#[trigger] self.values@[i]).wf()
                &&& self.offset + self.length <= self.values@[i].view().len()
                &&& fields[i].data_type@ == self.values@[i].view().data_type()
            }
    }

    /// What the invariant says of the view.
    pub proof fn lemma_wf(&self)
        requires
            self.wf(),
        ensures
            self@.data_type == self.spec_data_type()@,
            self@.values.len() == self.spec_values().len(),
            forall|i: int|
                0 <= i < self.spec_values().len() ==> (#[trigger] self.spec_values()[i]).wf()
                    && self@.values[i] == self.spec_values()[i]@,
            bits(self.spec_validity()) == self@.validity,
            struct_fields(self.spec_data_type()) matches Some(fields) && fields.len()
                == self@.values.len() && forall|i: int|
                0 <= i < fields.len() ==> (#[trigger] fields[i]).data_type@
                    == self@.values[i].data_type(),
            self@.valid(),
            self@.len() <= usize::MAX,
        decreases self,
    {
        let view = self@;
        assert forall|i: int| 0 <= i < view.values.len() implies view.start + view.length <= (
        #[trigger] view.values[i]).len() && view.values[i].valid() by {
            assert(self.values@[i].wf());
            self.values@[i].lemma_wf();
        }
        let fields = struct_fields(self.data_type)->0;
        assert forall|i: int| 0 <= i < fields.len() implies (#[trigger] fields[i]).data_type@
            == view.values[i].data_type() by {
            assert(self.values@[i].wf());
        }
    }

    /// Returns the fields of a struct type.
    /// # Errors
    /// Errors iff the logical type is not, under its extension names, a struct type.
    pub fn try_get_fields(data_type: &DataType) -> (r: Result<&Vec<Field>, Error>)
        ensures
            r is Ok <==> struct_fields(*data_type) is Some,
            r matches Ok(fields) ==> Some(fields@) == struct_fields(*data_type),
            r matches Err(e) ==> e is OutOfSpec,
    {
        match data_type.to_logical_type() {
            DataType::Struct(fields) => Ok(fields),
            _ => Err(
                Error::oos("Struct array must be created with a DataType whose physical type is Struct"),
            ),
        }
    }

    /// Returns a new [`StructArray`].
    /// # Errors
    /// This function errors iff:
    /// * `data_type` is not, under its extension names, a struct type.
    /// * the struct type has no field.
    /// * the number of children in `values` is not the number of fields.
    /// * the type of a field is not the type of its child.
    /// * the children do not all have the same length.
    /// * the validity's length is not the length of the children.
    pub fn try_new(data_type: DataType, values: Vec<Array>, validity: Option<Bitmap>) -> (r: Result<
        Self,
        Error,
    >)
        requires
            forall|i: int| 0 <= i < values@.len() ==> (#[trigger] values@[i]).wf(),
            validity matches Some(b) ==> b.wf(),
        ensures
            r is Ok <==> struct_accepts(data_type, values@, bits(validity)),
            r matches Ok(a) ==> a.wf() && a.spec_data_type() == data_type && a.spec_values()
                == values@ && a@.start == 0 && a@.length == values@[0]@.len() && a@.validity
                == bits(validity),
            r matches Err(e) ==> e is OutOfSpec,
    {
        let count = match Self::try_get_fields(&data_type) {
            Ok(fields) => {
                if fields.len() == 0 {
                    return Err(Error::oos("A StructArray must contain at least one field"));
                }
                if fields.len() != values.len() {
                    return Err(
                        Error::oos(
                            "A StructArray must have a number of fields in its DataType equal to the number of child values",
                        ),
                    );
                }
                let mut i: usize = 0;
                while i < fields.len()
                    invariant
                        i <= fields@.len(),
                        fields@.len() == values@.len(),
                        Some(fields@) == struct_fields(data_type),
                        forall|j: int| 0 <= j < values@.len() ==> (#[trigger] values@[j]).wf(),
                        forall|j: int|
                            0 <= j < i ==> (#[trigger] fields@[j]).data_type@
                                == values@[j]@.data_type(),
                    decreases fields@.len() - i,
                {
                    if !fields[i].data_type().same_as(values[i].data_type()) {
                        assert(fields@[i as int].data_type@ != values@[i as int]@.data_type());
                        return Err(
                            Error::oos(
                                "The children DataTypes of a StructArray must equal the children data types",
                            ),
                        );
                    }
                    i = i + 1;
                }
                fields.len()
            },
            Err(e) => {
                return Err(e);
            },
        };
        let length = values[0].len();
        let mut i: usize = 1;
        while i < count
            invariant
                1 <= i <= count,
                count == values@.len(),
                length == values@[0]@.len(),
                forall|j: int| 0 <= j < values@.len() ==> (#[trigger] values@[j]).wf(),
                forall|j: int| 0 <= j < i ==> (#[trigger] values@[j])@.len() == length,
            decreases count - i,
        {
            if values[i].len() != length {
                assert(values@[i as int]@.len() != values@[0]@.len());
                return Err(
                    Error::oos("The children must have an equal number of values"),
                );
            }
            i = i + 1;
        }
        if let Some(b) = &validity {
            if b.len() != length {
                return Err(
                    Error::oos(
                        "The validity length of a StructArray must match its number of elements",
                    ),
                );
            }
        }
        Ok(Self { data_type, values: Arc::new(values), offset: 0, length, validity })
    }

    /// Returns a new empty [`StructArray`]: an empty child for each field.
    /// The caller ensures that the logical type is a struct type.
    pub fn new_empty(data_type: DataType) -> (a: Self)
        requires
            struct_fields(data_type) is Some,
        ensures
            a.wf(),
            a.spec_data_type() == data_type,
            a@.len() == 0,
            a@.validity is None,
        decreases data_type.depth(), 0nat,
    {
        let mut values: Vec<Array> = Vec::new();
        match data_type.to_logical_type() {
            DataType::Struct(fields) => {
                let mut i: usize = 0;
                while i < fields.len()
                    invariant
                        i <= fields@.len(),
                        Some(fields@) == struct_fields(data_type),
                        values@.len() == i,
                        forall|j: int|
                            0 <= j < i ==> (#[trigger] values@[j]).wf() && fields@[j].data_type@
                                == values@[j]@.data_type(),
                    decreases fields@.len() - i,
                {
                    proof {
                        lemma_struct_field_depth(data_type, i as int);
                    }
                    let child = new_empty_array(fields[i].data_type().clone());
                    proof {
                        child.lemma_wf();
                    }
                    values.push(*child);
                    i = i + 1;
                }
            },
            _ => {
                proof {
                    assert(false);
                }
            },
        }
        Self { data_type, values: Arc::new(values), offset: 0, length: 0, validity: None }
    }

    /// Returns the length of this array
    #[inline]
    pub fn len(&self) -> (n: usize)
        ensures
            n == self@.len(),
    {
        self.length
    }

    /// The slot of the children at which the slots of this array start.
    #[inline]
    pub fn offset(&self) -> (n: usize)
        ensures
            n == self@.start,
    {
        self.offset
    }

    /// The whole children: slot `i` of this array is slot `offset + i` of each.
    #[inline]
    pub fn values(&self) -> (r: &Vec<Array>)
        requires
            self.wf(),
        ensures
            r@ == self.spec_values(),
            r@.len() == self@.values.len(),
            forall|i: int| 0 <= i < r@.len() ==> (#[trigger] r@[i]).wf() && r@[i]@ == self@.values[i],
    {
        proof {
            self.lemma_wf();
        }
        &self.values
    }

    /// The slots of the child of field `i`, as an array of their own. No value is copied.
    /// The caller ensures that `i` is less than the number of fields.
    pub fn child(&self, i: usize) -> (r: Box<Array>)
        requires
            self.wf(),
            i < self@.values.len(),
        ensures
            r.wf(),
            r@ == self@.child(i as int),
            r@.len() == self@.len(),
    {
        proof {
            self.lemma_wf();
            self@.values[i as int].lemma_sliced(self.offset as int, self.length as int);
        }
        self.values[i].sliced_unchecked(self.offset, self.length)
    }

    /// The optional validity.
    #[inline]
    pub fn validity(&self) -> (r: Option<&Bitmap>)
        requires
            self.wf(),
        ensures
            r matches Some(b) ==> b.wf() && b@.len() == self@.len(),
            bits(self.spec_validity()) == self@.validity,
            r == match self.spec_validity() {
                Some(b) => Some(&b),
                None => None,
            },
    {
        self.validity.as_ref()
    }

    /// The array's logical type
    #[inline]
    pub fn data_type(&self) -> (r: &DataType)
        ensures
            *r == self.spec_data_type(),
            r@ == self@.data_type,
    {
        &self.data_type
    }

    /// The fields of the struct type of this array.
    pub fn fields(&self) -> (r: &Vec<Field>)
        requires
            self.wf(),
        ensures
            Some(r@) == struct_fields(self.spec_data_type()),
    {
        match Self::try_get_fields(&self.data_type) {
            Ok(fields) => fields,
            Err(_) => {
                proof {
                    assert(false);
                }
                vstd::pervasive::unreached()
            },
        }
    }

    /// Slices this [`StructArray`] to the `length` slots from `offset` on.
    /// The children are kept whole.
    /// The caller ensures that `offset + length <= self.len()`.
    pub fn slice(&mut self, offset: usize, length: usize)
        requires
            old(self).wf(),
            offset + length <= old(self)@.len(),
        ensures
            final(self).wf(),
            final(self).spec_data_type() == old(self).spec_data_type(),
            final(self).spec_values() == old(self).spec_values(),
            final(self)@ == old(self)@.sliced(offset as int, length as int),
    {
        self.slice_unchecked(offset, length)
    }

    /// Slices this [`StructArray`] to the `length` slots from `offset` on.
    /// The children are kept whole.
    /// The caller ensures that `offset + length <= self.len()`.
    pub fn slice_unchecked(&mut self, offset: usize, length: usize)
        requires
            old(self).wf(),
            offset + length <= old(self)@.len(),
        ensures
            final(self).wf(),
            final(self).spec_data_type() == old(self).spec_data_type(),
            final(self).spec_values() == old(self).spec_values(),
            final(self)@ == old(self)@.sliced(offset as int, length as int),
    {
        if let Some(bitmap) = &mut self.validity {
            bitmap.slice_unchecked(offset, length);
        }
        self.offset = self.offset + offset;
        self.length = length;
        proof {
            assert(self@.values =~= old(self)@.values);
        }
    }

    /// This array sliced to the `length` slots from `offset` on.
    /// The caller ensures that `offset + length <= self.len()`.
    #[inline]
    #[must_use]
    pub fn sliced(self, offset: usize, length: usize) -> (r: Self)
        requires
            self.wf(),
            offset + length <= self@.len(),
        ensures
            r.wf(),
            r.spec_data_type() == self.spec_data_type(),
            r.spec_values() == self.spec_values(),
            r@ == self@.sliced(offset as int, length as int),
    {
        let mut r = self;
        r.slice_unchecked(offset, length);
        r
    }

    /// This array with its validity replaced.
    /// The caller ensures that the validity, if any, has `self.len()` bits.
    #[inline]
    #[must_use]
    pub fn with_validity(self, validity: Option<Bitmap>) -> (r: Self)
        requires
            self.wf(),
            validity matches Some(b) ==> b.wf() && b@.len() == self@.len(),
        ensures
            r.wf(),
            r.spec_data_type() == self.spec_data_type(),
            r.spec_values() == self.spec_values(),
            r@ == (StructView { validity: bits(validity), ..self@ }),
    {
        let r = Self {
            data_type: self.data_type,
            values: self.values,
            offset: self.offset,
            length: self.length,
            validity,
        };
        proof {
            assert(r@.values =~= self@.values);
        }
        r
    }
}

impl Clone for StructArray {
    /// An array over the same allocations and the same children.
    fn clone(&self) -> (r: Self)
        ensures
            r == *self,
    {
        Self {
            data_type: self.data_type.clone(),
            values: share(&self.values),
            offset: self.offset,
            length: self.length,
            validity: match &self.validity {
                Some(b) => Some(b.clone()),
                None => None,
            },
        }
    }
}

} // verus!
