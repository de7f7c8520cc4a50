use arrow_array::Array as _;
use re_arrow2::array::{Array, ListArray, PrimitiveArray};
use re_arrow2::arrow::ListParts;
use re_arrow2::bitmap::Bitmap;
use re_arrow2::datatypes::{DataType, Field};
use re_arrow2::error::Error;
use re_arrow2::offset::{Offsets, OffsetsBuffer};
use std::sync::Arc;

fn offsets(values: Vec<i32>) -> OffsetsBuffer<i32> {
    OffsetsBuffer::<i32>::from_offsets(Offsets::try_new(values).unwrap())
}

fn child() -> Box<Array> {
    PrimitiveArray::<i16>::from_vec(vec![1, 2, 1001, 1002, 1003, 3001, 3002, 4001]).boxed()
}

fn list_type(inner_nullability: bool) -> DataType {
    DataType::List(Arc::new(Field::new(
        "item",
        DataType::Int16,
        inner_nullability,
    )))
}

fn i16_values(array: &Array) -> Vec<i16> {
    match array {
        Array::Int16(inner) => inner.values().as_slice().to_vec(),
        _ => panic!("the child is an array of i16"),
    }
}

fn lists(array: &ListArray<i32>) -> Vec<Option<Vec<i16>>> {
    (0..array.len())
        .map(|i| match array.validity() {
            Some(validity) if !validity.get(i) => None,
            _ => Some(i16_values(&array.value(i))),
        })
        .collect()
}

/// The list array of the `arrow-array` crate that is made of the parts.
fn to_arrow(array: ListArray<i32>) -> arrow_array::ListArray {
    let parts = array.into_arrow_parts();
    assert!(parts.is_accepted());
    let field = Arc::new(arrow_schema::Field::new(
        parts.field.name.clone(),
        arrow_schema::DataType::Int16,
        parts.field.is_nullable,
    ));
    let offsets = arrow_buffer::OffsetBuffer::new(arrow_buffer::ScalarBuffer::from(
        parts.offsets.into_buffer().into_vec(),
    ));
    let values: arrow_array::ArrayRef =
        Arc::new(arrow_array::Int16Array::from(i16_values(&parts.values)));
    let nulls = parts.nulls.map(|validity| validity.into_arrow());
    arrow_array::ListArray::new(field, offsets, values, nulls)
}

/// The list array of the parts that the list array of the `arrow-array` crate is taken apart into.
fn from_arrow(array: arrow_array::ListArray) -> ListArray<i32> {
    let (field, offsets, values, nulls) = array.into_parts();
    assert_eq!(field.data_type(), &arrow_schema::DataType::Int16);
    let values = values
        .as_any()
        .downcast_ref::<arrow_array::Int16Array>()
        .unwrap()
        .values()
        .to_vec();
    let parts = ListParts {
        field: Field::new(field.name(), DataType::Int16, field.is_nullable()),
        offsets: OffsetsBuffer::from_offsets(Offsets::try_new(offsets.to_vec()).unwrap()),
        values: PrimitiveArray::<i16>::from_vec(values).boxed(),
        nulls: nulls.as_ref().map(Bitmap::from_arrow),
    };
    ListArray::from_arrow_parts(parts)
}

#[test]
fn test_arrow_list_array_conversion_non_null() {
    for inner_nullability in [false, true] {
        /*
            We build this:

            [0_001, 0_002],
            [1_001, 1_002, 1_003],
            [],
            [3_001, 3_002],
            [4_001],
        */

        let offsets = offsets(vec![0, 2, 5, 5, 7, 8]);
        let values = PrimitiveArray::<i16>::from_vec(vec![
            0_001_i16, 0_002, //
            1_001, 1_002, 1_003, //
            //
            3_001, 3_002, //
            4_001,
        ]);

        let bitmap = None;
        let list_array = ListArray::new(
            DataType::List(Arc::new(Field::new(
                "item",
                DataType::Int16,
                inner_nullability,
            ))),
            offsets,
            values.boxed(),
            bitmap,
        );

        // Skip first and last elements:
        let list_array = list_array.sliced(1, 3);
        assert!(list_array.validity().is_none());

        assert_eq!(list_array.len(), 3);
        assert_eq!(list_array.value(0).len(), 3);
        assert_eq!(list_array.value(1).len(), 0);
        assert_eq!(list_array.value(2).len(), 2);

        let list_array_1 = to_arrow(list_array.clone());
        assert!(list_array_1.nulls().is_none());
        assert_eq!(list_array_1.value_length(0), 3);
        assert_eq!(list_array_1.value_length(1), 0);
        assert_eq!(list_array_1.value_length(2), 2);

        let roundtripped = from_arrow(list_array_1);
        assert!(roundtripped.validity().is_none());

        assert!(list_array.data_type().same_as(roundtripped.data_type()));
        assert_eq!(lists(&list_array), lists(&roundtripped));
        assert_eq!(
            lists(&roundtripped),
            vec![
                Some(vec![1_001, 1_002, 1_003]),
                Some(vec![]),
                Some(vec![3_001, 3_002])
            ]
        );
        assert_eq!(
            list_array.offsets().buffer().as_slice(),
            roundtripped.offsets().buffer().as_slice()
        );
    }
}

#[test]
fn test_arrow_list_array_conversion_nullable() {
    for inner_nullability in [false, true] {
        /*
        We build this:

        [0_001, 0_002],
        [1_001, 1_002, 1_003],
        [],
        [3_001, 3_002],
        null,
        [4_001],
         */
        let offsets = offsets(vec![0, 2, 5, 5, 7, 7, 8]);
        let values = PrimitiveArray::<i16>::from_vec(vec![
            0_001_i16, 0_002, //
            1_001, 1_002, 1_003, //
            // []
            3_001, 3_002, //
            // null
            4_001,
        ]);
        let bitmap = Some(Bitmap::from_bools(&[true, true, true, true, false, true]));

        let list_array = ListArray::new(
            DataType::List(Arc::new(Field::new(
                "item",
                DataType::Int16,
                inner_nullability,
            ))),
            offsets,
            values.boxed(),
            bitmap,
        );

        // Skip first and last elements:
        let list_array = list_array.sliced(1, 4);

        assert_eq!(list_array.len(), 4);
        assert_eq!(list_array.value(0).len(), 3);
        assert_eq!(list_array.value(1).len(), 0);
        assert_eq!(list_array.value(2).len(), 2);
        assert_eq!(list_array.value(3).len(), 0); // null

        let list_array_1 = to_arrow(list_array.clone());
        assert!(list_array_1.nulls().is_some());
        assert_eq!(list_array_1.value_length(0), 3);
        assert_eq!(list_array_1.value_length(1), 0);
        assert_eq!(list_array_1.value_length(2), 2);
        assert_eq!(list_array_1.value_length(3), 0); // null
        assert!(list_array_1.is_null(3));
        assert!(list_array_1.is_valid(2));

        let roundtripped = from_arrow(list_array_1);

        assert!(list_array.data_type().same_as(roundtripped.data_type()));
        assert_eq!(lists(&list_array), lists(&roundtripped));
        assert!(roundtripped.validity().is_some());
        assert_eq!(
            roundtripped.validity().unwrap().iter(),
            vec![true, true, true, false]
        );
        assert_eq!(
            lists(&roundtripped),
            vec![
                Some(vec![1_001, 1_002, 1_003]),
                Some(vec![]),
                Some(vec![3_001, 3_002]),
                None
            ]
        );
    }
}

#[test]
fn list_value_has_the_length_between_its_offsets() {
    let boundaries = vec![0, 2, 5, 5, 7, 8];
    let array = ListArray::new(list_type(true), offsets(boundaries.clone()), child(), None);
    assert_eq!(array.len(), 5);
    for i in 0..array.len() {
        let expected = (boundaries[i + 1] - boundaries[i]) as usize;
        assert_eq!(array.value(i).len(), expected);
        assert_eq!(array.value_unchecked(i).len(), expected);
        assert!(array.value(i).data_type().same_as(&DataType::Int16));
    }
    assert_eq!(i16_values(&array.value(1)), vec![1001, 1002, 1003]);
    assert_eq!(i16_values(&array.value(4)), vec![4001]);
    assert_eq!(array.values().len(), 8);
}

#[test]
fn list_slice_shifts_the_slots() {
    let array = ListArray::new(
        list_type(true),
        offsets(vec![0, 2, 5, 5, 7, 7, 8]),
        child(),
        Some(Bitmap::from_bools(&[true, true, true, true, false, true])),
    );
    for offset in 0..=array.len() {
        for length in 0..=(array.len() - offset) {
            let mut sliced = array.clone();
            sliced.slice(offset, length);
            assert_eq!(sliced.len(), length);
            assert_eq!(sliced.values().len(), 8);
            for i in 0..length {
                assert_eq!(
                    i16_values(&sliced.value(i)),
                    i16_values(&array.value(i + offset))
                );
                assert_eq!(
                    sliced.validity().unwrap().get(i),
                    array.validity().unwrap().get(i + offset)
                );
            }
        }
    }
}

#[test]
fn list_slice_keeps_a_validity_without_nulls() {
    let array = ListArray::new(
        list_type(true),
        offsets(vec![0, 2, 5, 5, 7, 7, 8]),
        child(),
        Some(Bitmap::from_bools(&[true, true, true, true, false, true])),
    );
    let sliced = array.sliced_unchecked(0, 3);
    let validity = sliced.validity().unwrap();
    assert_eq!(validity.unset_bits(), 0);
    assert_eq!(validity.iter(), vec![true, true, true]);
}

#[test]
fn list_try_new_fails_when_the_last_offset_exceeds_the_child() {
    let r = ListArray::try_new(list_type(true), offsets(vec![0, 2, 9]), child(), None);
    assert!(matches!(r, Err(Error::OutOfSpec(_))));
    // offsets that end before the end of the child are accepted
    let r = ListArray::try_new(list_type(true), offsets(vec![0, 2, 7]), child(), None);
    assert_eq!(r.unwrap().len(), 2);
}

#[test]
fn list_try_new_fails_when_the_validity_has_another_length() {
    let r = ListArray::try_new(
        list_type(true),
        offsets(vec![0, 2, 8]),
        child(),
        Some(Bitmap::from_bools(&[true, true, true])),
    );
    assert!(matches!(r, Err(Error::OutOfSpec(_))));
    let r = ListArray::try_new(
        list_type(true),
        offsets(vec![0, 2, 8]),
        child(),
        Some(Bitmap::from_bools(&[true, false])),
    );
    assert!(r.is_ok());
}

#[test]
fn list_try_new_fails_when_the_child_type_differs() {
    let declared = DataType::List(Arc::new(Field::new("item", DataType::Int32, true)));
    let r = ListArray::try_new(declared, offsets(vec![0, 2, 8]), child(), None);
    assert!(matches!(r, Err(Error::OutOfSpec(_))));
}

#[test]
fn list_try_new_fails_when_the_type_is_not_the_list_of_the_width() {
    let large = DataType::LargeList(Arc::new(Field::new("item", DataType::Int16, true)));
    let r = ListArray::<i32>::try_new(large.clone(), offsets(vec![0, 2, 8]), child(), None);
    assert!(matches!(r, Err(Error::OutOfSpec(_))));
    let r = ListArray::<i32>::try_new(DataType::Int16, offsets(vec![0, 2, 8]), child(), None);
    assert!(matches!(r, Err(Error::OutOfSpec(_))));
    let wide = OffsetsBuffer::from_offsets(Offsets::<i64>::try_new(vec![0, 2, 8]).unwrap());
    let r = ListArray::<i64>::try_new(list_type(true), wide.clone(), child(), None);
    assert!(matches!(r, Err(Error::OutOfSpec(_))));
    let r = ListArray::<i64>::try_new(large, wide, child(), None);
    assert_eq!(r.unwrap().len(), 2);
    let extension = DataType::Extension("lists".to_string(), Arc::new(list_type(false)));
    let r = ListArray::<i32>::try_new(extension.clone(), offsets(vec![0, 2, 8]), child(), None);
    assert!(r.unwrap().data_type().same_as(&extension));
}

#[test]
fn list_child_lookup_follows_the_width() {
    let small = list_type(false);
    let field = ListArray::<i32>::try_get_child(&small).unwrap();
    assert_eq!(field.name, "item");
    assert!(!field.is_nullable);
    assert!(ListArray::<i32>::get_child_type(&small).same_as(&DataType::Int16));
    assert!(ListArray::<i32>::get_child_field(&small).same_as(field));
    assert!(matches!(
        ListArray::<i64>::try_get_child(&small),
        Err(Error::OutOfSpec(_))
    ));
    assert!(matches!(
        ListArray::<i32>::try_get_child(&DataType::Binary),
        Err(Error::OutOfSpec(_))
    ));
}

#[test]
fn list_default_datatype_names_the_field_item() {
    let small = ListArray::<i32>::default_datatype(DataType::Int64);
    assert!(small.same_as(&DataType::List(Arc::new(Field::new(
        "item",
        DataType::Int64,
        true
    )))));
    let large = ListArray::<i64>::default_datatype(DataType::Boolean);
    assert!(large.same_as(&DataType::LargeList(Arc::new(Field::new(
        "item",
        DataType::Boolean,
        true
    )))));
}

#[test]
fn list_new_empty_and_new_null() {
    let empty = ListArray::<i32>::new_empty(list_type(true));
    assert_eq!(empty.len(), 0);
    assert!(empty.validity().is_none());
    assert_eq!(empty.values().len(), 0);
    assert_eq!(empty.offsets().buffer().as_slice(), &[0]);

    let nulls = ListArray::<i32>::new_null(list_type(true), 3);
    assert_eq!(nulls.len(), 3);
    assert_eq!(nulls.offsets().buffer().as_slice(), &[0, 0, 0, 0]);
    assert_eq!(nulls.validity().unwrap().iter(), vec![false, false, false]);
    assert_eq!(nulls.values().len(), 0);
    assert!(nulls.values().data_type().same_as(&DataType::Int16));
    for i in 0..3 {
        assert_eq!(nulls.value(i).len(), 0);
    }
    assert_eq!(nulls.boxed().null_count(), 3);
}

#[test]
fn list_validity_can_be_replaced() {
    let array = ListArray::new(list_type(true), offsets(vec![0, 2, 8]), child(), None);
    let mut array = array.with_validity(Some(Bitmap::from_bools(&[false, true])));
    assert_eq!(array.validity().unwrap().iter(), vec![false, true]);
    array.set_validity(None);
    assert!(array.validity().is_none());
}

#[test]
fn list_parts_keep_the_field_and_round_trip() {
    let declared = DataType::List(Arc::new(Field::new("element", DataType::Int16, false)));
    let array = ListArray::new(
        declared.clone(),
        offsets(vec![0, 2, 5, 8]),
        child(),
        Some(Bitmap::from_bools(&[true, false, true])),
    );
    let sliced = array.clone().sliced(1, 2);
    let parts = sliced.clone().into_arrow_parts();
    assert_eq!(parts.field.name, "element");
    assert!(!parts.field.is_nullable);
    assert!(parts.field.data_type.same_as(&DataType::Int16));
    assert_eq!(parts.offsets.buffer().as_slice(), &[2, 5, 8]);
    assert_eq!(parts.values.len(), 8);
    assert_eq!(parts.nulls.as_ref().unwrap().iter(), vec![false, true]);
    assert!(parts.is_accepted());
    let back = ListArray::try_from_arrow_parts(parts).unwrap();
    // the logical type comes back, the name of the field with it
    assert!(back.data_type().same_as(&declared));
    assert_eq!(back.len(), 2);
    assert_eq!(
        back.offsets().buffer().as_slice(),
        sliced.offsets().buffer().as_slice()
    );
    assert_eq!(back.validity().unwrap().iter(), vec![false, true]);
    assert_eq!(lists(&back), vec![None, Some(vec![3001, 3002, 4001])]);
    for i in 0..2 {
        assert_eq!(
            i16_values(&back.value(i)),
            i16_values(&array.value(i + 1))
        );
    }
}

#[test]
fn list_parts_round_trip_through_arrow_keeps_the_name_of_the_field() {
    let declared = DataType::List(Arc::new(Field::new("element", DataType::Int16, true)));
    let array = ListArray::new(declared.clone(), offsets(vec![0, 2, 5, 8]), child(), None);
    let arrow = to_arrow(array.clone());
    assert_eq!(arrow.len(), 3);
    match arrow.data_type() {
        arrow_schema::DataType::List(field) => assert_eq!(field.name(), "element"),
        _ => panic!("a list array has a list type"),
    }
    let back = from_arrow(arrow);
    assert!(back.data_type().same_as(&declared));
    assert_eq!(lists(&back), lists(&array));
}

#[test]
fn list_parts_leave_an_extension_name_behind() {
    let inner = list_type(true);
    let declared = DataType::Extension("lists".to_string(), Arc::new(inner.clone()));
    let array = ListArray::new(declared.clone(), offsets(vec![0, 2, 8]), child(), None);
    let back = ListArray::try_from_arrow_parts(array.clone().into_arrow_parts()).unwrap();
    assert!(back.data_type().same_as(&inner));
    assert!(!back.data_type().same_as(&declared));
    assert_eq!(lists(&back), lists(&array));
}

#[test]
fn list_parts_are_checked_before_a_list_is_made() {
    let parts = |field: Field, boundaries: Vec<i32>, values: Box<Array>, nulls: Option<Bitmap>| {
        ListParts {
            field,
            offsets: offsets(boundaries),
            values,
            nulls,
        }
    };
    let field = |nullable: bool| Field::new("item", DataType::Int16, nullable);
    let with_nulls = || {
        PrimitiveArray::<i16>::from_vec(vec![1, 2])
            .with_validity(Some(Bitmap::from_bools(&[true, false])))
            .boxed()
    };
    assert!(parts(field(true), vec![0, 8], child(), None).is_accepted());
    // a child with nulls needs a nullable field
    assert!(parts(field(true), vec![0, 2], with_nulls(), None).is_accepted());
    let refused = parts(field(false), vec![0, 2], with_nulls(), None);
    assert!(!refused.is_accepted());
    // this crate takes them all the same
    assert!(ListArray::try_from_arrow_parts(refused).is_ok());

    let beyond = parts(field(true), vec![0, 9], child(), None);
    assert!(!beyond.is_accepted());
    assert!(matches!(
        ListArray::try_from_arrow_parts(beyond),
        Err(Error::OutOfSpec(_))
    ));
    let short = parts(
        field(true),
        vec![0, 8],
        child(),
        Some(Bitmap::from_bools(&[true, true])),
    );
    assert!(!short.is_accepted());
    assert!(matches!(
        ListArray::try_from_arrow_parts(short),
        Err(Error::OutOfSpec(_))
    ));
    let other = parts(
        Field::new("item", DataType::Int32, true),
        vec![0, 8],
        child(),
        None,
    );
    assert!(!other.is_accepted());
    assert!(matches!(
        ListArray::try_from_arrow_parts(other),
        Err(Error::OutOfSpec(_))
    ));
}
