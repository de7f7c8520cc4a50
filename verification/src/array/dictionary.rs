//! Dictionary-encoded arrays: keys that index the values of another array.
use vstd::prelude::*;
use std::sync::Arc;
use crate::bitmap::Bitmap;
use crate::datatypes::{DataType, DataTypeView, IntegerType};
use crate::error::Error;
use crate::shared::share;
use crate::types::native::NativeType;
use super::{bits, lemma_logical_type, new_empty_array, Array, ArrayView, PrimitiveArray};

verus! {

/// The native types that can be the keys of a dictionary: `i16`, `i32` and `i64`.
pub trait DictionaryKey: NativeType {
    /// The corresponding variant of [`IntegerType`].
    spec fn key_type() -> IntegerType;

    /// The mathematical value of a key.
    spec fn index(self) -> int;

    /// The corresponding variant of [`IntegerType`].
    fn integer_type() -> (t: IntegerType)
        ensures
            t == Self::key_type(),
    ;

    /// The key widened to 64 bits.
    fn to_i64(&self) -> (v: i64)
        ensures
            v == self.index(),
    ;
}

impl DictionaryKey for i16 {
    open spec fn key_type() -> IntegerType {
        IntegerType::Int16
    }

    open spec fn index(self) -> int {
        self as int
    }

    #[inline]
    fn integer_type() -> (t: IntegerType) {
        IntegerType::Int16
    }

    #[inline]
    fn to_i64(&self) -> (v: i64) {
        *self as i64
    }
}

impl DictionaryKey for i32 {
    open spec fn key_type() -> IntegerType {
        IntegerType::Int32
    }

    open spec fn index(self) -> int {
        self as int
    }

    #[inline]
    fn integer_type() -> (t: IntegerType) {
        IntegerType::Int32
    }

    #[inline]
    fn to_i64(&self) -> (v: i64) {
        *self as i64
    }
}

impl DictionaryKey for i64 {
    open spec fn key_type() -> IntegerType {
        IntegerType::Int64
    }

    open spec fn index(self) -> int {
        self as int
    }

    #[inline]
    fn integer_type() -> (t: IntegerType) {
        IntegerType::Int64
    }

    #[inline]
    fn to_i64(&self) -> (v: i64) {
        *self
    }
}

/// The mathematical value of a [`DictionaryArray`].
pub struct DictionaryView {
    pub data_type: DataTypeView,
    /// The key of each slot.
    pub keys: Seq<int>,
    /// The values that the keys index.
    pub values: Box<ArrayView>,
    pub validity: Option<Seq<bool>>,
}

impl DictionaryView {
    /// What holds of the view of every well-formed array: each key, that of
    /// a null slot too, indexes a value, the validity, if any, has one bit
    /// for each slot, and the same holds of the values.
    pub open spec fn valid(self) -> bool
        decreases self,
    {
        &&& forall|i: int| 0 <= i < self.keys.len() ==> 0 <= #[trigger] self.keys[i] < self.values.len()
        &&& self.validity matches Some(v) ==> v.len() == self.keys.len()
        &&& self.values.valid()
    }

    /// The number of slots.
    pub open spec fn len(self) -> nat {
        self.keys.len()
    }

    /// The value of slot `i`, whether the slot is null or not: the one slot
    /// of the values that the key indexes.
    pub open spec fn value(self, i: int) -> ArrayView {
        self.values.sliced(self.keys[i], 1)
    }

    /// The view of the `length` slots from `offset` on. The values are kept whole.
    pub open spec fn sliced(self, offset: int, length: int) -> DictionaryView {
        DictionaryView {
            data_type: self.data_type,
            keys: self.keys.subrange(offset, offset + length),
            values: self.values,
            validity: match self.validity {
                Some(v) => Some(v.subrange(offset, offset + length)),
                None => None,
            },
        }
    }

    /// Slicing keeps what holds of the view of every well-formed array.
    pub proof fn lemma_sliced(self, offset: int, length: int)
        requires
            self.valid(),
            0 <= offset,
            0 <= length,
            offset + length <= self.len(),
        ensures
            self.sliced(offset, length).valid(),
            self.sliced(offset, length).len() == length,
    {
        let sliced = self.sliced(offset, length);
        assert forall|i: int| 0 <= i < sliced.keys.len() implies 0 <= #[trigger] sliced.keys[i]
            < sliced.values.len() by {
            assert(0 <= self.keys[offset + i] < self.values.len());
        }
    }
}

/// The mathematical values of a sequence of keys.
pub open spec fn indexes<K: DictionaryKey>(keys: Seq<K>) -> Seq<int> {
    Seq::new(keys.len(), |i: int| keys[i].index())
}

/// The type of the values that a logical type declares, if the type is,
/// under its extension names, a dictionary type with keys of this type.
pub open spec fn dictionary_values(data_type: DataType, keys: IntegerType) -> Option<DataType> {
    match data_type.logical_type() {
        DataType::Dictionary(declared, values, _) => if declared == keys {
            Some(*values)
        } else {
            None
        },
        _ => None,
    }
}

/// The values of a dictionary type are of a type less deeply nested than the
/// dictionary type.
pub proof fn lemma_dictionary_values_depth(data_type: DataType, keys: IntegerType)
    requires
        dictionary_values(data_type, keys) is Some,
    ensures
        dictionary_values(data_type, keys)->0.depth() < data_type.depth(),
{
    lemma_logical_type(&data_type);
}

/// A dictionary-encoded array: each slot holds a key, which indexes a slot
/// of the values. A slot is null where the validity of the keys says so; a
/// null slot still holds a key that indexes a value.
pub struct DictionaryArray<K: DictionaryKey> {
    data_type: DataType,
    keys: PrimitiveArray<K>,
    values: Arc<Array>,
}

impl<K: DictionaryKey> DictionaryArray<K> {
    /// The mathematical value of the array.
    pub closed spec fn view(&self) -> DictionaryView
        decreases self,
    {
        DictionaryView {
            data_type: self.data_type@,
            keys: indexes(self.keys@.values),
            values: Box::new((*self.values).view()),
            validity: self.keys@.validity,
        }
    }

    /// The logical type of the array.
    pub closed spec fn spec_data_type(&self) -> DataType {
        self.data_type
    }

    /// The keys.
    pub closed spec fn spec_keys(&self) -> PrimitiveArray<K> {
        self.keys
    }

    /// The values.
    pub closed spec fn spec_values(&self) -> Array {
        *self.values
    }

    /// The invariant of the type: each key, that of a null slot too, indexes
    /// a value, the logical type is a dictionary type with keys of this
    /// type, and the values are of the type that the logical type declares
    /// for them.
    pub closed spec fn wf(&self) -> bool
        decreases self,
    {
        &&& self.keys.wf()
        &&& (*self.values).wf()
        &&& dictionary_values(self.data_type, K::key_type()) matches Some(declared) && declared@
            == (*self.values).view().data_type()
        &&& forall|i: int|
            0 <= i < self.keys@.values.len() ==> 0 <= (#[trigger] self.keys@.values[i]).index() < (
            *self.values).view().len()
    }

    /// What the invariant says of the view.
    pub proof fn lemma_wf(&self)
        requires
            self.wf(),
        ensures
            self@.data_type == self.spec_data_type()@,
            self@.keys == indexes(self.spec_keys()@.values),
            self@.validity == self.spec_keys()@.validity,
            self.spec_keys().wf(),
            self@.values == self.spec_values()@,
            self.spec_values().wf(),
            dictionary_values(self.spec_data_type(), K::key_type()) matches Some(declared)
                && declared@ == self@.values.data_type(),
            self@.valid(),
            self@.len() <= usize::MAX,
        decreases self,
    {
        self.keys.lemma_wf();
        (*self.values).lemma_wf();
        let view = self@;
        assert forall|i: int| 0 <= i < view.keys.len() implies 0 <= #[trigger] view.keys[i]
            < view.values.len() by {
            assert(0 <= self.keys@.values[i].index() < (*self.values).view().len());
        }
    }

    /// Returns the type of the values of a dictionary type.
    /// # Errors
    /// Errors iff the logical type is not, under its extension names, a
    /// dictionary type with keys of this type.
    pub fn try_get_child(data_type: &DataType) -> (r: Result<&DataType, Error>)
        ensures
            r is Ok <==> dictionary_values(*data_type, K::key_type()) is Some,
            r matches Ok(values) ==> Some(*values) == dictionary_values(*data_type, K::key_type()),
            r matches Err(e) ==> e is OutOfSpec,
    {
        match data_type.to_logical_type() {
            DataType::Dictionary(keys, values, _) => {
                if *keys != K::integer_type() {
                    return Err(Error::oos("Dictionaries must be initialized with the type of their keys"));
                }
                Ok(values)
            },
            _ => Err(Error::oos("Dictionaries must be initialized with DataType::Dictionary")),
        }
    }

    /// Returns a new [`DictionaryArray`].
    /// # Errors
    /// This function errors iff:
    /// * the `data_type` is not, under its extension names, a dictionary
    ///   type with keys of this type.
    /// * the `data_type`'s type of the values is not the type of `values`.
    /// * a key, be it that of a null slot, is negative or not less than the
    ///   length of `values`.
    pub fn try_new(data_type: DataType, keys: PrimitiveArray<K>, values: Box<Array>) -> (r: Result<
        Self,
        Error,
    >)
        requires
            keys.wf(),
            values.wf(),
        ensures
            r is Ok <==> {
                &&& dictionary_values(data_type, K::key_type()) matches Some(declared) && declared@
                    == values@.data_type()
                &&& forall|i: int|
                    0 <= i < keys@.values.len() ==> 0 <= (#[trigger] keys@.values[i]).index()
                        < values@.len()
            },
            r matches Ok(a) ==> a.wf() && a.spec_data_type() == data_type && a.spec_keys() == keys
                && a.spec_values() == *values && a@ == (DictionaryView {
                data_type: data_type@,
                keys: indexes(keys@.values),
                values: Box::new(values@),
                validity: keys@.validity,
            }),
            r matches Err(e) ==> e is OutOfSpec,
    {
        let child_matches = match Self::try_get_child(&data_type) {
            Ok(declared) => declared.same_as(values.data_type()),
            Err(e) => {
                return Err(e);
            },
        };
        if !child_matches {
            return Err(
                Error::oos("Dictionary's values must have the type that the DataType declares"),
            );
        }
        let bound = values.len();
        let n = keys.len();
        let mut i: usize = 0;
        while i < n
            invariant
                keys.wf(),
                n == keys@.values.len(),
                bound == values@.len(),
                i <= n,
                forall|j: int| 0 <= j < i ==> 0 <= (#[trigger] keys@.values[j]).index() < bound,
            decreases n - i,
        {
            let key = keys.value(i).to_i64();
            if key < 0 || key as u64 >= bound as u64 {
                assert(!(0 <= keys@.values[i as int].index() < values@.len()));
                return Err(Error::oos("One of the dictionary keys is out of bounds"));
            }
            i = i + 1;
        }
        Ok(Self { data_type, keys, values: Arc::new(*values) })
    }

    /// Returns a new empty [`DictionaryArray`].
    /// The caller ensures that the logical type is a dictionary type with
    /// keys of this type.
    pub fn new_empty(data_type: DataType) -> (a: Self)
        requires
            dictionary_values(data_type, K::key_type()) is Some,
        ensures
            a.wf(),
            a.spec_data_type() == data_type,
            a@.len() == 0,
            a@.values.len() == 0,
            a@.validity is None,
        decreases data_type.depth(), 0nat,
    {
        proof {
            lemma_dictionary_values_depth(data_type, K::key_type());
        }
        let declared = match Self::try_get_child(&data_type) {
            Ok(declared) => declared.clone(),
            Err(_) => {
                proof {
                    assert(false);
                }
                vstd::pervasive::unreached()
            },
        };
        let values = new_empty_array(declared);
        proof {
            values.lemma_wf();
        }
        let keys = PrimitiveArray::<K>::new_empty(DataType::from(K::primitive()));
        proof {
            assert(indexes(keys@.values) =~= Seq::<int>::empty());
        }
        Self { data_type, keys, values: Arc::new(*values) }
    }

    /// Returns the length of this array
    #[inline]
    pub fn len(&self) -> (n: usize)
        requires
            self.wf(),
        ensures
            n == self@.len(),
    {
        self.keys.len()
    }

    /// The keys, with the validity of the array.
    #[inline]
    pub fn keys(&self) -> (r: &PrimitiveArray<K>)
        requires
            self.wf(),
        ensures
            r.wf(),
            *r == self.spec_keys(),
            indexes(r@.values) == self@.keys,
            r@.validity == self@.validity,
    {
        &self.keys
    }

    /// The values that the keys index.
    #[inline]
    pub fn values(&self) -> (r: &Array)
        requires
            self.wf(),
        ensures
            r.wf(),
            *r == self.spec_values(),
            r@ == *self@.values,
    {
        &self.values
    }

    /// The optional validity: that of the keys.
    #[inline]
    pub fn validity(&self) -> (r: Option<&Bitmap>)
        requires
            self.wf(),
        ensures
            r matches Some(b) ==> b.wf() && b@.len() == self@.len(),
            bits(self.spec_keys().spec_validity()) == self@.validity,
            r == match self.spec_keys().spec_validity() {
                Some(b) => Some(&b),
                None => None,
            },
    {
        self.keys.validity()
    }

    /// The array's logical type
    #[inline]
    pub fn data_type(&self) -> (r: &DataType)
        ensures
            *r == self.spec_data_type(),
            r@ == self@.data_type,
    {
        &self.data_type
    }

    /// The key of slot `i` as an index into the values, whether the slot is null or not.
    /// The caller ensures that `i < self.len()`.
    #[inline]
    pub fn key_value(&self, i: usize) -> (r: usize)
        requires
            self.wf(),
            i < self@.len(),
        ensures
            r == self@.keys[i as int],
            r < self@.values.len(),
    {
        proof {
            self.lemma_wf();
            (*self.values).lemma_wf();
            assert(0 <= self@.keys[i as int] < self@.values.len());
        }
        self.keys.value(i).to_i64() as usize
    }

    /// Returns the value of slot `i`, whether the slot is null or not: the
    /// one slot of the values that the key indexes. No value is copied.
    /// The caller ensures that `i < self.len()`.
    pub fn value(&self, i: usize) -> (r: Box<Array>)
        requires
            self.wf(),
            i < self@.len(),
        ensures
            r.wf(),
            r@ == self@.value(i as int),
            r@.len() == 1,
    {
        let key = self.key_value(i);
        proof {
            self.lemma_wf();
            (*self.values).view().lemma_sliced(key as int, 1);
        }
        self.values.sliced_unchecked(key, 1)
    }

    /// Slices this [`DictionaryArray`] to the `length` slots from `offset`
    /// on. The values are kept whole.
    /// The caller ensures that `offset + length <= self.len()`.
    pub fn slice(&mut self, offset: usize, length: usize)
        requires
            old(self).wf(),
            offset + length <= old(self)@.len(),
        ensures
            final(self).wf(),
            final(self).spec_data_type() == old(self).spec_data_type(),
            final(self).spec_values() == old(self).spec_values(),
            final(self)@ == old(self)@.sliced(offset as int, length as int),
    {
        self.slice_unchecked(offset, length)
    }

    /// Slices this [`DictionaryArray`] to the `length` slots from `offset`
    /// on. The values are kept whole.
    /// The caller ensures that `offset + length <= self.len()`.
    pub fn slice_unchecked(&mut self, offset: usize, length: usize)
        requires
            old(self).wf(),
            offset + length <= old(self)@.len(),
        ensures
            final(self).wf(),
            final(self).spec_data_type() == old(self).spec_data_type(),
            final(self).spec_values() == old(self).spec_values(),
            final(self)@ == old(self)@.sliced(offset as int, length as int),
    {
        let ghost before = self.keys@.values;
        self.keys.slice_unchecked(offset, length);
        proof {
            assert(self.keys@.values == before.subrange(offset as int, offset + length));
            assert(indexes(self.keys@.values) =~= indexes(before).subrange(
                offset as int,
                offset + length,
            ));
            assert forall|i: int| 0 <= i < self.keys@.values.len() implies 0 <= (
            #[trigger] self.keys@.values[i]).index() < (*self.values).view().len() by {
                assert(self.keys@.values[i] == before[offset + i]);
            }
        }
    }

    /// This array sliced to the `length` slots from `offset` on.
    /// The caller ensures that `offset + length <= self.len()`.
    #[inline]
    #[must_use]
    pub fn sliced(self, offset: usize, length: usize) -> (r: Self)
        requires
            self.wf(),
            offset + length <= self@.len(),
        ensures
            r.wf(),
            r.spec_data_type() == self.spec_data_type(),
            r.spec_values() == self.spec_values(),
            r@ == self@.sliced(offset as int, length as int),
    {
        let mut r = self;
        r.slice_unchecked(offset, length);
        r
    }

    /// This array with its validity replaced.
    /// The caller ensures that the validity, if any, has `self.len()` bits.
    #[inline]
    #[must_use]
    pub fn with_validity(self, validity: Option<Bitmap>) -> (r: Self)
        requires
            self.wf(),
            validity matches Some(b) ==> b.wf() && b@.len() == self@.len(),
        ensures
            r.wf(),
            r.spec_data_type() == self.spec_data_type(),
            r.spec_values() == self.spec_values(),
            r@ == (DictionaryView { validity: bits(validity), ..self@ }),
    {
        Self {
            data_type: self.data_type,
            keys: self.keys.with_validity(validity),
            values: self.values,
        }
    }
}

impl<K: DictionaryKey> Clone for DictionaryArray<K> {
    /// An array over the same allocations and the same values.
    fn clone(&self) -> (r: Self)
        ensures
            r == *self,
    {
        Self {
            data_type: self.data_type.clone(),
            keys: self.keys.clone(),
            values: share(&self.values),
        }
    }
}

} // verus!
