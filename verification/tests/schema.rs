use re_arrow2::datatypes::{DataType, Field, IntervalUnit, Metadata, PhysicalType, Schema};
use re_arrow2::types::PrimitiveType;
use std::sync::Arc;

fn fields() -> Vec<Field> {
    vec![
        Field::new("a", DataType::Int16, false),
        Field::new("b", DataType::Binary, true),
        Field::new("c", DataType::Boolean, true),
        Field::new("d", DataType::Int64, false),
    ]
}

fn names(schema: &Schema) -> Vec<String> {
    schema.fields.iter().map(|f| f.name.clone()).collect()
}

#[test]
fn schema_from_fields_has_no_metadata() {
    let schema = Schema::from(fields());
    assert_eq!(names(&schema), vec!["a", "b", "c", "d"]);
    assert!(schema.metadata.is_empty());
    let empty = Schema::default();
    assert!(empty.fields.is_empty());
    assert!(empty.metadata.is_empty());
}

#[test]
fn schema_with_metadata_replaces_the_metadata_only() {
    let mut metadata = Metadata::new();
    metadata.insert("k".to_string(), "v".to_string());
    let schema = Schema::from(fields()).with_metadata(metadata.clone());
    assert_eq!(schema.metadata, metadata);
    assert_eq!(names(&schema), vec!["a", "b", "c", "d"]);
    let mut other = Metadata::new();
    other.insert("x".to_string(), "y".to_string());
    let schema = schema.with_metadata(other.clone());
    assert_eq!(schema.metadata, other);
}

#[test]
fn schema_filter_keeps_the_chosen_fields_in_order() {
    let mut metadata = Metadata::new();
    metadata.insert("k".to_string(), "v".to_string());
    let schema = Schema::from(fields()).with_metadata(metadata.clone());
    let by_index = schema.filter(|index, _| index % 2 == 1);
    assert_eq!(names(&by_index), vec!["b", "d"]);
    assert_eq!(by_index.metadata, metadata);

    let by_field = Schema::from(fields()).filter(|_, field| field.is_nullable);
    assert_eq!(names(&by_field), vec!["b", "c"]);

    let none = Schema::from(fields()).filter(|_, _| false);
    assert!(none.fields.is_empty());
    let all = Schema::from(fields()).filter(|_, _| true);
    assert_eq!(names(&all), vec!["a", "b", "c", "d"]);
}

#[test]
fn schema_filter_asks_once_for_each_field_in_order() {
    let seen = std::cell::RefCell::new(Vec::new());
    let schema = Schema::from(fields()).filter(|index, field| {
        seen.borrow_mut().push((index, field.name.clone()));
        true
    });
    assert_eq!(schema.fields.len(), 4);
    assert_eq!(
        seen.into_inner(),
        vec![
            (0, "a".to_string()),
            (1, "b".to_string()),
            (2, "c".to_string()),
            (3, "d".to_string())
        ]
    );
}

#[test]
fn data_type_logical_and_physical_types() {
    let list = DataType::List(Arc::new(Field::new("item", DataType::Int16, true)));
    let extension = DataType::Extension("outer".to_string(), Arc::new(
        DataType::Extension("inner".to_string(), Arc::new(list.clone())),
    ));
    assert!(extension.to_logical_type().same_as(&list));
    assert_eq!(extension.to_physical_type(), PhysicalType::List);
    assert_eq!(
        DataType::Interval(IntervalUnit::DayTime).to_physical_type(),
        PhysicalType::Primitive(PrimitiveType::DaysMs)
    );
    assert_eq!(
        DataType::Interval(IntervalUnit::YearMonth).to_physical_type(),
        PhysicalType::Primitive(PrimitiveType::Int32)
    );
    assert_eq!(
        DataType::Decimal(10, 2).to_physical_type(),
        PhysicalType::Primitive(PrimitiveType::Int128)
    );
    assert_eq!(
        DataType::Decimal256(10, 2).to_physical_type(),
        PhysicalType::Primitive(PrimitiveType::Int256)
    );
    assert_eq!(DataType::LargeBinary.to_physical_type(), PhysicalType::LargeBinary);
}

#[test]
fn data_type_same_as_compares_names_types_and_nullability() {
    let list = |name: &str, inner: DataType, nullable: bool| {
        DataType::List(Arc::new(Field::new(name, inner, nullable)))
    };
    assert!(list("item", DataType::Int16, true).same_as(&list("item", DataType::Int16, true)));
    assert!(!list("item", DataType::Int16, true).same_as(&list("items", DataType::Int16, true)));
    assert!(!list("item", DataType::Int16, true).same_as(&list("item", DataType::Int32, true)));
    assert!(!list("item", DataType::Int16, true).same_as(&list("item", DataType::Int16, false)));
    assert!(!list("item", DataType::Int16, true).same_as(&DataType::LargeList(Arc::new(
        Field::new("item", DataType::Int16, true)
    ))));
    assert!(DataType::Decimal(3, 1).same_as(&DataType::Decimal(3, 1)));
    assert!(!DataType::Decimal(3, 1).same_as(&DataType::Decimal(3, 2)));
    assert!(!DataType::Decimal(3, 1).same_as(&DataType::Decimal256(3, 1)));
    assert!(!DataType::Null.same_as(&DataType::Boolean));
    let extension = DataType::Extension("e".to_string(), Arc::new(DataType::Int32));
    assert!(extension.same_as(&extension.clone()));
    assert!(!extension.same_as(&DataType::Int32));
    assert!(DataType::from(PrimitiveType::Int128).same_as(&DataType::Decimal(32, 32)));
    assert!(DataType::from(PrimitiveType::DaysMs)
        .same_as(&DataType::Interval(IntervalUnit::DayTime)));
}
