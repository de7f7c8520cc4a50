//! The growable form of boolean arrays.
use vstd::prelude::*;
use crate::bitmap::MutableBitmap;
use crate::datatypes::{DataType, DataTypeView};
use super::{BooleanArray, BooleanView};

verus! {

/// The bits of an optional growable validity.
pub open spec fn mutable_bits(validity: Option<MutableBitmap>) -> Option<Seq<bool>> {
    match validity {
        Some(b) => Some(b@),
        None => None,
    }
}

/// A [`BooleanArray`] that still grows: slots are appended, and none changes.
/// It is frozen into a [`BooleanArray`] when it is complete.
pub struct MutableBooleanArray {
    pub(super) data_type: DataType,
    pub(super) values: MutableBitmap,
    pub(super) validity: Option<MutableBitmap>,
}

impl MutableBooleanArray {
    /// The mathematical value of the array.
    pub closed spec fn view(&self) -> BooleanView {
        BooleanView {
            data_type: self.data_type@,
            values: self.values@,
            validity: mutable_bits(self.validity),
        }
    }

    /// The invariant of the type: the validity, if any, has one bit for each value.
    pub closed spec fn wf(&self) -> bool {
        &&& self.values.wf()
        &&& self.validity matches Some(b) ==> b.wf() && b@.len() == self.values@.len()
        &&& self.data_type == DataType::Boolean
    }

    /// Creates a new empty [`MutableBooleanArray`].
    pub fn new() -> (a: Self)
        ensures
            a.wf(),
            a@ == (BooleanView {
                data_type: DataTypeView::Boolean,
                values: Seq::<bool>::empty(),
                validity: None,
            }),
    {
        Self { data_type: DataType::Boolean, values: MutableBitmap::new(), validity: None }
    }

    /// The length of the array
    #[inline]
    pub fn len(&self) -> (n: usize)
        ensures
            n == self@.values.len(),
    {
        self.values.len()
    }

    /// The values, whether their slot is null or not.
    #[inline]
    pub fn values(&self) -> (r: &MutableBitmap)
        requires
            self.wf(),
        ensures
            r.wf(),
            r@ == self@.values,
    {
        &self.values
    }

    /// The optional validity.
    #[inline]
    pub fn validity(&self) -> (r: Option<&MutableBitmap>)
        requires
            self.wf(),
        ensures
            r matches Some(b) ==> b.wf() && Some(b@) == self@.validity && b@.len()
                == self@.values.len(),
            r is None <==> self@.validity is None,
    {
        self.validity.as_ref()
    }

    /// A validity that marks every slot held so far as valid.
    fn all_valid(length: usize) -> (m: MutableBitmap)
        ensures
            m.wf(),
            m@ == Seq::new(length as nat, |i: int| true),
    {
        let mut m = MutableBitmap::new();
        let mut i: usize = 0;
        while i < length
            invariant
                i <= length,
                m.wf(),
                m@ == Seq::new(i as nat, |i: int| true),
            decreases length - i,
        {
            m.push(true);
            i = i + 1;
            proof {
                assert(m@ =~= Seq::new(i as nat, |i: int| true));
            }
        }
        m
    }

    /// Appends one slot: a value, or a null. A null is stored as `false`.
    /// The length must stay within `usize`.
    pub fn push(&mut self, value: Option<bool>)
        requires
            old(self).wf(),
            old(self)@.values.len() < usize::MAX,
        ensures
            final(self).wf(),
            final(self)@.data_type == old(self)@.data_type,
            final(self)@.values == old(self)@.values.push(
                match value {
                    Some(v) => v,
                    None => false,
                },
            ),
            final(self)@.validity == match old(self)@.validity {
                Some(v) => Some(v.push(value is Some)),
                None => if value is Some {
                    None
                } else {
                    Some(Seq::new(old(self)@.values.len(), |i: int| true).push(false))
                },
            },
    {
        match value {
            Some(v) => {
                self.values.push(v);
                if let Some(validity) = &mut self.validity {
                    validity.push(true);
                }
            },
            None => {
                let before = self.values.len();
                self.values.push(false);
                match &mut self.validity {
                    Some(validity) => {
                        validity.push(false);
                    },
                    None => {
                        let mut validity = Self::all_valid(before);
                        validity.push(false);
                        self.validity = Some(validity);
                    },
                }
            },
        }
    }

    /// Ends the growth: an immutable array of the same slots. No bit is copied.
    pub fn freeze(self) -> (a: BooleanArray)
        requires
            self.wf(),
        ensures
            a.wf(),
            a@ == self@,
    {
        let validity = match self.validity {
            Some(b) => Some(b.freeze()),
            None => None,
        };
        BooleanArray::new(self.data_type, self.values.freeze(), validity)
    }
}

} // verus!
