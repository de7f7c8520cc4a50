//! A named, typed column of a schema.
use vstd::prelude::*;
use super::{DataType, DataTypeView};

verus! {

/// Represents the metadata of a "column": its name, its logical type and
/// whether it may hold nulls.
#[derive(Debug)]
pub struct Field {
    /// Its name
    pub name: String,
    /// Its logical [`DataType`]
    pub data_type: DataType,
    /// Its nullability
    pub is_nullable: bool,
}

/// The mathematical value of a [`Field`].
pub struct FieldView {
    pub name: Seq<char>,
    pub data_type: DataTypeView,
    pub is_nullable: bool,
}

impl Field {
    /// The mathematical value of the field.
    pub open spec fn view(&self) -> FieldView
        decreases self,
    {
        FieldView {
            name: self.name@,
            data_type: self.data_type.view(),
            is_nullable: self.is_nullable,
        }
    }

    /// Creates a new [`Field`].
    pub fn new(name: &str, data_type: DataType, is_nullable: bool) -> (f: Field)
        ensures
            f.name@ == name@,
            f.data_type == data_type,
            f.is_nullable == is_nullable,
    {
        Field { name: name.to_owned(), data_type, is_nullable }
    }

    /// Returns the [`Field`]'s [`DataType`].
    #[inline]
    pub fn data_type(&self) -> (r: &DataType)
        ensures
            *r == self.data_type,
    {
        &self.data_type
    }

    /// Whether two fields have the same mathematical value.
    pub fn same_as(&self, other: &Field) -> (r: bool)
        ensures
            r == (self@ == other@),
        decreases self,
    {
        self.name == other.name && self.is_nullable == other.is_nullable && self.data_type.same_as(
            &other.data_type,
        )
    }
}

impl Clone for Field {
    fn clone(&self) -> (r: Field)
        ensures
            r == *self,
    {
        Field {
            name: self.name.clone(),
            data_type: self.data_type.clone(),
            is_nullable: self.is_nullable,
        }
    }
}

} // verus!
