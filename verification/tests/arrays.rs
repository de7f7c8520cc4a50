use re_arrow2::array::{
    new_empty_array, Array, BinaryArray, BooleanArray, DictionaryArray, FixedSizeListArray,
    MutableBooleanArray, NullArray, PrimitiveArray, StructArray, Utf8Array,
};
use re_arrow2::bitmap::Bitmap;
use re_arrow2::buffer::Buffer;
use re_arrow2::datatypes::{DataType, Field, IntegerType, IntervalUnit};
use re_arrow2::error::Error;
use re_arrow2::offset::{Offsets, OffsetsBuffer};
use re_arrow2::types::native::days_ms;
use std::sync::Arc;

fn offsets(values: Vec<i32>) -> OffsetsBuffer<i32> {
    OffsetsBuffer::from_offsets(Offsets::try_new(values).unwrap())
}

#[test]
fn boolean_array_iter_pairs_values_with_validity() {
    let values = Bitmap::from_bools(&[true, false, true, true]);
    let validity = Bitmap::from_bools(&[true, true, false, true]);
    let array = BooleanArray::try_new(DataType::Boolean, values, Some(validity)).unwrap();
    assert_eq!(array.len(), 4);
    assert_eq!(
        array.iter(),
        vec![Some(true), Some(false), None, Some(true)]
    );
    assert_eq!(array.values_iter(), vec![true, false, true, true]);
    assert!(array.value(2));

    let plain = BooleanArray::from_slice(&[false, true]);
    assert_eq!(plain.iter(), vec![Some(false), Some(true)]);
    assert_eq!(plain.values_iter(), vec![false, true]);
    assert!(plain.validity().is_none());
}

#[test]
fn boolean_array_try_new_checks_validity_and_type() {
    let values = Bitmap::from_bools(&[true, false]);
    let short = Bitmap::from_bools(&[true]);
    assert!(matches!(
        BooleanArray::try_new(DataType::Boolean, values.clone(), Some(short)),
        Err(Error::OutOfSpec(_))
    ));
    assert!(matches!(
        BooleanArray::try_new(DataType::Int32, values.clone(), None),
        Err(Error::OutOfSpec(_))
    ));
    let extension = DataType::Extension("flag".to_string(), Arc::new(DataType::Boolean));
    let array = BooleanArray::try_new(extension.clone(), values, None).unwrap();
    assert!(array.data_type().same_as(&extension));
}

#[test]
fn boolean_array_slices_values_and_validity_together() {
    let values = Bitmap::from_bools(&[true, false, true, true, false]);
    let validity = Bitmap::from_bools(&[false, true, true, false, true]);
    let array = BooleanArray::new(DataType::Boolean, values, Some(validity));
    let sliced = array.sliced(1, 3);
    assert_eq!(sliced.iter(), vec![Some(false), Some(true), None]);
    let renewed = sliced.with_validity(None);
    assert_eq!(renewed.iter(), vec![Some(false), Some(true), Some(true)]);
}

#[test]
fn mutable_boolean_array_grows_a_validity_on_the_first_null() {
    let mut array = MutableBooleanArray::new();
    array.push(Some(true));
    array.push(Some(false));
    assert!(array.validity().is_none());
    assert_eq!(array.iter(), vec![Some(true), Some(false)]);
    array.push(None);
    array.push(Some(true));
    assert_eq!(array.len(), 4);
    assert_eq!(
        array.iter(),
        vec![Some(true), Some(false), None, Some(true)]
    );
    assert_eq!(array.values_iter(), vec![true, false, false, true]);
    assert_eq!(
        array.validity().unwrap().iter(),
        vec![true, true, false, true]
    );
    let frozen = array.freeze();
    assert_eq!(
        frozen.iter(),
        vec![Some(true), Some(false), None, Some(true)]
    );
    assert_eq!(frozen.validity().unwrap().unset_bits(), 1);
}

#[test]
fn primitive_array_from_vec_and_slicing() {
    let array = PrimitiveArray::<i16>::from_vec(vec![1, 2, 3, 4, 5]);
    assert!(array.data_type().same_as(&DataType::Int16));
    assert_eq!(array.len(), 5);
    assert_eq!(array.value(3), 4);
    assert!(array.validity().is_none());
    let validity = Bitmap::from_bools(&[true, false, true, true, false]);
    let array = array.with_validity(Some(validity));
    let sliced = array.clone().sliced(1, 3);
    assert_eq!(sliced.values().as_slice(), &[2, 3, 4]);
    assert_eq!(sliced.validity().unwrap().iter(), vec![false, true, true]);
    // the array that was cloned is unchanged
    assert_eq!(array.len(), 5);

    let interval = PrimitiveArray::<days_ms>::from_vec(vec![days_ms(1, 2)]);
    assert!(interval
        .data_type()
        .same_as(&DataType::Interval(IntervalUnit::DayTime)));
    assert_eq!(interval.value(0), days_ms(1, 2));
}

#[test]
fn primitive_array_try_new_checks_validity_and_type() {
    let values = Buffer::from_vec(vec![1i32, 2, 3]);
    assert!(PrimitiveArray::try_new(DataType::Int32, values.clone(), None).is_ok());
    assert!(PrimitiveArray::try_new(
        DataType::Interval(IntervalUnit::YearMonth),
        values.clone(),
        None
    )
    .is_ok());
    assert!(matches!(
        PrimitiveArray::try_new(DataType::Int64, values.clone(), None),
        Err(Error::OutOfSpec(_))
    ));
    assert!(matches!(
        PrimitiveArray::try_new(
            DataType::Int32,
            values,
            Some(Bitmap::from_bools(&[true, true]))
        ),
        Err(Error::OutOfSpec(_))
    ));
}

#[test]
fn binary_array_values_are_cut_by_the_offsets() {
    let array = BinaryArray::<i32>::try_new(
        DataType::Binary,
        offsets(vec![0, 2, 2, 5]),
        Buffer::from_vec(b"abcde".to_vec()),
        Some(Bitmap::from_bools(&[true, false, true])),
    )
    .unwrap();
    assert_eq!(array.len(), 3);
    assert_eq!(array.value(0), b"ab");
    assert_eq!(array.value(1), b"");
    assert_eq!(array.value(2), b"cde");
    let sliced = array.sliced(1, 2);
    assert_eq!(sliced.len(), 2);
    assert_eq!(sliced.value(0), b"");
    assert_eq!(sliced.value_unchecked(1), b"cde");
    assert_eq!(sliced.validity().unwrap().iter(), vec![false, true]);
    assert_eq!(sliced.values().as_slice(), b"abcde");
}

#[test]
fn binary_array_try_new_checks_bounds_validity_and_type() {
    let values = Buffer::from_vec(b"abcde".to_vec());
    assert!(matches!(
        BinaryArray::<i32>::try_new(DataType::Binary, offsets(vec![0, 6]), values.clone(), None),
        Err(Error::OutOfSpec(_))
    ));
    assert!(
        BinaryArray::<i32>::try_new(DataType::Binary, offsets(vec![0, 3]), values.clone(), None)
            .is_ok()
    );
    assert!(matches!(
        BinaryArray::<i32>::try_new(
            DataType::Binary,
            offsets(vec![0, 5]),
            values.clone(),
            Some(Bitmap::from_bools(&[true, true]))
        ),
        Err(Error::OutOfSpec(_))
    ));
    assert!(matches!(
        BinaryArray::<i32>::try_new(DataType::LargeBinary, offsets(vec![0, 5]), values.clone(), None),
        Err(Error::OutOfSpec(_))
    ));
    let large = OffsetsBuffer::from_offsets(Offsets::<i64>::try_new(vec![0, 5]).unwrap());
    assert!(BinaryArray::<i64>::try_new(DataType::LargeBinary, large, values, None).is_ok());
    assert!(BinaryArray::<i32>::default_data_type().same_as(&DataType::Binary));
    assert!(BinaryArray::<i64>::default_data_type().same_as(&DataType::LargeBinary));
}

#[test]
fn null_array_has_only_nulls() {
    let array = NullArray::try_new(DataType::Null, 4).unwrap();
    assert_eq!(array.len(), 4);
    let boxed = array.boxed();
    assert_eq!(boxed.null_count(), 4);
    assert!(boxed.validity().is_none());
    let sliced = boxed.sliced(1, 2);
    assert_eq!(sliced.len(), 2);
    assert_eq!(sliced.null_count(), 2);
    assert!(matches!(
        NullArray::try_new(DataType::Int16, 4),
        Err(Error::OutOfSpec(_))
    ));
}

#[test]
fn array_dispatches_over_the_variants() {
    let mut array = Array::Int32(
        PrimitiveArray::<i32>::from_vec(vec![5, 6, 7, 8])
            .with_validity(Some(Bitmap::from_bools(&[true, false, false, true]))),
    );
    assert_eq!(array.len(), 4);
    assert!(!array.is_empty());
    assert_eq!(array.null_count(), 2);
    assert!(array.data_type().same_as(&DataType::Int32));
    let sliced = array.sliced(2, 2);
    assert_eq!(sliced.len(), 2);
    assert_eq!(sliced.null_count(), 1);
    match sliced.as_ref() {
        Array::Int32(inner) => assert_eq!(inner.values().as_slice(), &[7, 8]),
        _ => panic!("the slice of an array of i32 is an array of i32"),
    }
    array.slice(0, 1);
    assert_eq!(array.len(), 1);
    assert_eq!(array.null_count(), 0);
    assert_eq!(array.validity().unwrap().iter(), vec![true]);
}

#[test]
fn new_empty_array_follows_the_data_type() {
    let inner = DataType::List(Arc::new(Field::new("item", DataType::Binary, true)));
    let outer = DataType::LargeList(Arc::new(Field::new("item", inner.clone(), false)));
    let extension = DataType::Extension("nested".to_string(), Arc::new(outer.clone()));
    let array = new_empty_array(extension.clone());
    assert_eq!(array.len(), 0);
    assert!(array.validity().is_none());
    assert!(array.data_type().same_as(&extension));
    match array.as_ref() {
        Array::LargeList(list) => {
            assert_eq!(list.len(), 0);
            assert!(list.values().data_type().same_as(&inner));
            match list.values() {
                Array::List(child) => {
                    assert!(matches!(child.values(), Array::Binary(_)));
                }
                _ => panic!("the child of the outer list is a list"),
            }
        }
        _ => panic!("an extension of a large list is stored as a large list"),
    }
    assert!(matches!(
        new_empty_array(DataType::Decimal256(3, 1)).as_ref(),
        Array::Int256(_)
    ));
    assert!(matches!(
        new_empty_array(DataType::Interval(IntervalUnit::MonthDayNano)).as_ref(),
        Array::MonthsDaysNs(_)
    ));
    assert!(matches!(
        new_empty_array(DataType::Null).as_ref(),
        Array::Null(_)
    ));
}

#[test]
fn utf8_array_values_are_text() {
    let text = "añb€".as_bytes().to_vec();
    // the slots are "a", "ñ", "", "b€"
    let array = Utf8Array::<i32>::try_new(
        DataType::Utf8,
        offsets(vec![0, 1, 3, 3, 7]),
        Buffer::from_vec(text.clone()),
        Some(Bitmap::from_bools(&[true, true, false, true])),
    )
    .unwrap();
    assert_eq!(array.len(), 4);
    assert_eq!(array.value(0), "a");
    assert_eq!(array.value(1), "ñ");
    assert_eq!(array.value(2), "");
    assert_eq!(array.value_unchecked(3), "b€");
    let sliced = array.sliced(1, 2);
    assert_eq!(sliced.value(0), "ñ");
    assert_eq!(sliced.value(1), "");
    assert_eq!(sliced.validity().unwrap().iter(), vec![true, false]);
    let boxed = sliced.boxed();
    assert_eq!(boxed.len(), 2);
    assert_eq!(boxed.null_count(), 1);
    assert!(boxed.data_type().same_as(&DataType::Utf8));
}

#[test]
fn utf8_array_try_new_rejects_slots_that_are_not_text() {
    let text = "añb".as_bytes().to_vec();
    // an offset in the middle of a character
    assert!(matches!(
        Utf8Array::<i32>::try_new(
            DataType::Utf8,
            offsets(vec![0, 2, 4]),
            Buffer::from_vec(text.clone()),
            None
        ),
        Err(Error::OutOfSpec(_))
    ));
    // bytes that are no UTF-8 at all
    assert!(matches!(
        Utf8Array::<i32>::try_new(
            DataType::Utf8,
            offsets(vec![0, 2]),
            Buffer::from_vec(vec![0xff, 0xfe]),
            None
        ),
        Err(Error::OutOfSpec(_))
    ));
    // bytes outside every slot are not looked at
    assert!(Utf8Array::<i32>::try_new(
        DataType::Utf8,
        offsets(vec![0, 1]),
        Buffer::from_vec(vec![b'a', 0xff]),
        None
    )
    .is_ok());
    assert!(matches!(
        Utf8Array::<i32>::try_new(
            DataType::Utf8,
            offsets(vec![0, 5]),
            Buffer::from_vec(text.clone()),
            None
        ),
        Err(Error::OutOfSpec(_))
    ));
    assert!(matches!(
        Utf8Array::<i32>::try_new(
            DataType::Utf8,
            offsets(vec![0, 4]),
            Buffer::from_vec(text.clone()),
            Some(Bitmap::from_bools(&[true, true]))
        ),
        Err(Error::OutOfSpec(_))
    ));
    assert!(matches!(
        Utf8Array::<i32>::try_new(
            DataType::Binary,
            offsets(vec![0, 4]),
            Buffer::from_vec(text),
            None
        ),
        Err(Error::OutOfSpec(_))
    ));
    assert!(Utf8Array::<i64>::default_data_type().same_as(&DataType::LargeUtf8));
    assert!(matches!(
        new_empty_array(DataType::LargeUtf8).as_ref(),
        Array::LargeUtf8(_)
    ));
}

fn i16_values(array: &Array) -> Vec<i16> {
    match array {
        Array::Int16(inner) => inner.values().as_slice().to_vec(),
        _ => panic!("the array is an array of i16"),
    }
}

fn fixed(size: usize, nullable: bool) -> DataType {
    DataType::FixedSizeList(Arc::new(Field::new("item", DataType::Int16, nullable)), size)
}

#[test]
fn fixed_size_list_values_are_cut_in_equal_parts() {
    let values = PrimitiveArray::<i16>::from_vec(vec![1, 2, 3, 4, 5, 6, 7, 8]).boxed();
    let array = FixedSizeListArray::try_new(
        fixed(2, true),
        values,
        Some(Bitmap::from_bools(&[true, false, true, true])),
    )
    .unwrap();
    assert_eq!(array.len(), 4);
    assert_eq!(array.size(), 2);
    assert_eq!(array.offset(), 0);
    assert_eq!(i16_values(&array.value(0)), vec![1, 2]);
    assert_eq!(i16_values(&array.value(3)), vec![7, 8]);
    let sliced = array.clone().sliced(1, 2);
    assert_eq!(sliced.len(), 2);
    assert_eq!(sliced.offset(), 1);
    assert_eq!(sliced.values().len(), 8);
    assert_eq!(i16_values(&sliced.value(0)), vec![3, 4]);
    assert_eq!(i16_values(&sliced.value(1)), vec![5, 6]);
    assert_eq!(sliced.validity().unwrap().iter(), vec![false, true]);
    let again = sliced.sliced(1, 1);
    assert_eq!(i16_values(&again.value(0)), i16_values(&array.value(2)));
    let boxed = array.with_validity(None).boxed();
    assert_eq!(boxed.len(), 4);
    assert_eq!(boxed.null_count(), 0);
}

#[test]
fn fixed_size_list_try_new_checks_type_size_and_lengths() {
    let values = || PrimitiveArray::<i16>::from_vec(vec![1, 2, 3, 4, 5, 6]).boxed();
    assert!(FixedSizeListArray::try_new(fixed(3, true), values(), None).is_ok());
    assert!(matches!(
        FixedSizeListArray::try_new(fixed(4, true), values(), None),
        Err(Error::OutOfSpec(_))
    ));
    assert!(matches!(
        FixedSizeListArray::try_new(fixed(0, true), values(), None),
        Err(Error::OutOfSpec(_))
    ));
    assert!(matches!(
        FixedSizeListArray::try_new(
            fixed(3, true),
            values(),
            Some(Bitmap::from_bools(&[true, true, true]))
        ),
        Err(Error::OutOfSpec(_))
    ));
    assert!(matches!(
        FixedSizeListArray::try_new(DataType::Int16, values(), None),
        Err(Error::OutOfSpec(_))
    ));
    let other = DataType::FixedSizeList(Arc::new(Field::new("item", DataType::Int32, true)), 3);
    assert!(matches!(
        FixedSizeListArray::try_new(other, values(), None),
        Err(Error::OutOfSpec(_))
    ));
    match new_empty_array(fixed(0, false)).as_ref() {
        Array::FixedSizeList(empty) => {
            assert_eq!(empty.len(), 0);
            assert_eq!(empty.size(), 0);
        }
        _ => panic!("a list type of a fixed size is stored as such a list"),
    }
}

fn struct_type() -> DataType {
    DataType::Struct(Arc::new(vec![
        Field::new("a", DataType::Int16, false),
        Field::new("b", DataType::Boolean, true),
    ]))
}

#[test]
fn struct_array_holds_one_child_for_each_field() {
    let a = Array::Int16(PrimitiveArray::<i16>::from_vec(vec![1, 2, 3, 4]));
    let b = Array::Boolean(BooleanArray::from_slice(&[true, false, false, true]));
    let array = StructArray::try_new(
        struct_type(),
        vec![a, b],
        Some(Bitmap::from_bools(&[true, true, false, true])),
    )
    .unwrap();
    assert_eq!(array.len(), 4);
    assert_eq!(array.values().len(), 2);
    assert_eq!(array.fields().len(), 2);
    assert_eq!(array.fields()[1].name, "b");
    let sliced = array.clone().sliced(1, 2);
    assert_eq!(sliced.len(), 2);
    assert_eq!(sliced.offset(), 1);
    assert_eq!(sliced.values()[0].len(), 4);
    assert_eq!(i16_values(&sliced.child(0)), vec![2, 3]);
    match sliced.child(1).as_ref() {
        Array::Boolean(child) => assert_eq!(child.values_iter(), vec![false, false]),
        _ => panic!("the second child is an array of booleans"),
    }
    assert_eq!(sliced.validity().unwrap().iter(), vec![true, false]);
    let boxed = array.boxed();
    assert_eq!(boxed.null_count(), 1);
    assert!(boxed.data_type().same_as(&struct_type()));
}

#[test]
fn struct_array_try_new_checks_fields_and_lengths() {
    let a = || Array::Int16(PrimitiveArray::<i16>::from_vec(vec![1, 2, 3]));
    let b = |n: usize| Array::Boolean(BooleanArray::from_slice(&vec![true; n]));
    assert!(StructArray::try_new(struct_type(), vec![a(), b(3)], None).is_ok());
    assert!(matches!(
        StructArray::try_new(struct_type(), vec![a(), b(2)], None),
        Err(Error::OutOfSpec(_))
    ));
    assert!(matches!(
        StructArray::try_new(struct_type(), vec![a()], None),
        Err(Error::OutOfSpec(_))
    ));
    assert!(matches!(
        StructArray::try_new(struct_type(), vec![b(3), a()], None),
        Err(Error::OutOfSpec(_))
    ));
    assert!(matches!(
        StructArray::try_new(
            struct_type(),
            vec![a(), b(3)],
            Some(Bitmap::from_bools(&[true]))
        ),
        Err(Error::OutOfSpec(_))
    ));
    assert!(matches!(
        StructArray::try_new(DataType::Struct(Arc::new(vec![])), vec![], None),
        Err(Error::OutOfSpec(_))
    ));
    assert!(matches!(
        StructArray::try_new(DataType::Int16, vec![a()], None),
        Err(Error::OutOfSpec(_))
    ));
    match new_empty_array(struct_type()).as_ref() {
        Array::Struct(empty) => {
            assert_eq!(empty.len(), 0);
            assert_eq!(empty.values().len(), 2);
            assert!(matches!(empty.values()[1], Array::Boolean(_)));
        }
        _ => panic!("a struct type is stored as a struct"),
    }
    let same = DataType::Struct(Arc::new(vec![
        Field::new("a", DataType::Int16, false),
        Field::new("b", DataType::Boolean, true),
    ]));
    assert!(struct_type().same_as(&same));
    let other = DataType::Struct(Arc::new(vec![Field::new("a", DataType::Int16, false)]));
    assert!(!struct_type().same_as(&other));
}

fn dictionary(keys: IntegerType) -> DataType {
    DataType::Dictionary(keys, Arc::new(DataType::Int16), false)
}

#[test]
fn dictionary_array_keys_index_the_values() {
    let values = PrimitiveArray::<i16>::from_vec(vec![10, 20, 30]).boxed();
    let keys = PrimitiveArray::<i32>::from_vec(vec![2, 0, 0, 1])
        .with_validity(Some(Bitmap::from_bools(&[true, true, false, true])));
    let array = DictionaryArray::try_new(dictionary(IntegerType::Int32), keys, values).unwrap();
    assert_eq!(array.len(), 4);
    assert_eq!(array.key_value(0), 2);
    assert_eq!(i16_values(&array.value(0)), vec![30]);
    assert_eq!(i16_values(&array.value(3)), vec![20]);
    assert_eq!(array.validity().unwrap().iter(), vec![true, true, false, true]);
    let sliced = array.clone().sliced(2, 2);
    assert_eq!(sliced.len(), 2);
    assert_eq!(sliced.values().len(), 3);
    assert_eq!(i16_values(&sliced.value(1)), vec![20]);
    assert_eq!(sliced.keys().values().as_slice(), &[0, 1]);
    let boxed = array.boxed();
    assert!(matches!(boxed.as_ref(), Array::DictionaryI32(_)));
    assert_eq!(boxed.null_count(), 1);
}

#[test]
fn dictionary_array_try_new_checks_type_and_keys() {
    let values = || PrimitiveArray::<i16>::from_vec(vec![10, 20, 30]).boxed();
    let keys = |keys: Vec<i64>| PrimitiveArray::<i64>::from_vec(keys);
    assert!(
        DictionaryArray::try_new(dictionary(IntegerType::Int64), keys(vec![0, 2]), values())
            .is_ok()
    );
    assert!(matches!(
        DictionaryArray::try_new(dictionary(IntegerType::Int64), keys(vec![0, 3]), values()),
        Err(Error::OutOfSpec(_))
    ));
    assert!(matches!(
        DictionaryArray::try_new(dictionary(IntegerType::Int64), keys(vec![-1]), values()),
        Err(Error::OutOfSpec(_))
    ));
    assert!(matches!(
        DictionaryArray::try_new(dictionary(IntegerType::Int32), keys(vec![0]), values()),
        Err(Error::OutOfSpec(_))
    ));
    assert!(matches!(
        DictionaryArray::try_new(DataType::Int64, keys(vec![0]), values()),
        Err(Error::OutOfSpec(_))
    ));
    let other = DataType::Dictionary(IntegerType::Int64, Arc::new(DataType::Int32), false);
    assert!(matches!(
        DictionaryArray::try_new(other, keys(vec![0]), values()),
        Err(Error::OutOfSpec(_))
    ));
    // a key of a null slot is checked like the others
    let null_key = keys(vec![7]).with_validity(Some(Bitmap::from_bools(&[false])));
    assert!(matches!(
        DictionaryArray::try_new(dictionary(IntegerType::Int64), null_key, values()),
        Err(Error::OutOfSpec(_))
    ));
    assert!(matches!(
        new_empty_array(dictionary(IntegerType::Int16)).as_ref(),
        Array::DictionaryI16(_)
    ));
}
