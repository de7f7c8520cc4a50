use re_arrow2::types::native::{days_ms, i256, months_days_ns, NativeType};
use re_arrow2::types::PrimitiveType;

#[test]
fn integers_to_bytes_in_both_orders() {
    assert_eq!(NativeType::to_le_bytes(&0x1234i16), [0x34, 0x12]);
    assert_eq!(NativeType::to_be_bytes(&0x1234i16), [0x12, 0x34]);
    assert_eq!(NativeType::to_le_bytes(&-2i32), [0xfe, 0xff, 0xff, 0xff]);
    assert_eq!(NativeType::to_be_bytes(&-2i32), [0xff, 0xff, 0xff, 0xfe]);
    assert_eq!(
        NativeType::to_le_bytes(&0x0102_0304_0506_0708i64),
        [8, 7, 6, 5, 4, 3, 2, 1]
    );
    assert_eq!(
        NativeType::to_be_bytes(&1i128),
        [0, 0, 0, 0, 0, 0, 0, 0, 0, 0, 0, 0, 0, 0, 0, 1]
    );
    assert_eq!(<i16 as NativeType>::from_le_bytes([0x34, 0x12]), 0x1234);
    assert_eq!(<i16 as NativeType>::from_be_bytes([0xff, 0xfe]), -2);
    assert_eq!(<i32 as NativeType>::from_le_bytes([0xfe, 0xff, 0xff, 0xff]), -2);
    assert_eq!(<i64 as NativeType>::from_be_bytes([0, 0, 0, 0, 0, 0, 1, 0]), 256);
    assert_eq!(<i128 as NativeType>::from_le_bytes([0xff; 16]), -1);
}

#[test]
fn primitive_types_of_the_native_types() {
    assert_eq!(<i16 as NativeType>::primitive(), PrimitiveType::Int16);
    assert_eq!(<i32 as NativeType>::primitive(), PrimitiveType::Int32);
    assert_eq!(<i64 as NativeType>::primitive(), PrimitiveType::Int64);
    assert_eq!(<i128 as NativeType>::primitive(), PrimitiveType::Int128);
    assert_eq!(<i256 as NativeType>::primitive(), PrimitiveType::Int256);
    assert_eq!(<days_ms as NativeType>::primitive(), PrimitiveType::DaysMs);
    assert_eq!(
        <months_days_ns as NativeType>::primitive(),
        PrimitiveType::MonthDayNano
    );
}

#[test]
fn days_ms_accessors_and_bytes() {
    let value = days_ms::new(1, -2);
    assert_eq!(value.days(), 1);
    assert_eq!(value.milliseconds(), -2);
    assert_eq!(value.to_le_bytes(), [1, 0, 0, 0, 0xfe, 0xff, 0xff, 0xff]);
    assert_eq!(value.to_be_bytes(), [0, 0, 0, 1, 0xff, 0xff, 0xff, 0xfe]);
    assert_eq!(days_ms::from_le_bytes(value.to_le_bytes()), value);
    assert_eq!(days_ms::from_be_bytes(value.to_be_bytes()), value);
    assert_eq!(
        days_ms::from_le_bytes([2, 1, 0, 0, 3, 0, 0, 0]),
        days_ms(258, 3)
    );
    assert_eq!(
        days_ms::from_be_bytes([0, 0, 1, 2, 0, 0, 0, 3]),
        days_ms(258, 3)
    );
    assert_eq!(days_ms::default(), days_ms(0, 0));
    assert_eq!(-value, days_ms(-1, 2));
}

#[test]
fn months_days_ns_accessors_and_bytes() {
    let value = months_days_ns::new(1, 2, -3);
    assert_eq!(value.months(), 1);
    assert_eq!(value.days(), 2);
    assert_eq!(value.ns(), -3);
    assert_eq!(
        value.to_le_bytes(),
        [1, 0, 0, 0, 2, 0, 0, 0, 0xfd, 0xff, 0xff, 0xff, 0xff, 0xff, 0xff, 0xff]
    );
    assert_eq!(
        value.to_be_bytes(),
        [0, 0, 0, 1, 0, 0, 0, 2, 0xff, 0xff, 0xff, 0xff, 0xff, 0xff, 0xff, 0xfd]
    );
    assert_eq!(months_days_ns::from_le_bytes(value.to_le_bytes()), value);
    assert_eq!(months_days_ns::from_be_bytes(value.to_be_bytes()), value);
    assert_eq!(months_days_ns::default(), months_days_ns(0, 0, 0));
    assert_eq!(-value, months_days_ns(-1, -2, 3));
}

#[test]
fn i256_words_and_bytes() {
    let value = i256::from_words(1, 2);
    assert_eq!(value.into_words(), (1, 2));
    assert_eq!(value.0, ethnum::I256::from_words(1, 2));
    let mut be = [0u8; 32];
    be[15] = 1;
    be[31] = 2;
    assert_eq!(value.to_be_bytes(), be);
    assert_eq!(i256::from_be_bytes(be).into_words(), (1, 2));
    // in little-endian order the high word is written first and read last
    let mut le = [0u8; 32];
    le[0] = 1;
    le[16] = 2;
    assert_eq!(value.to_le_bytes(), le);
    assert_eq!(i256::from_le_bytes(le).into_words(), (2, 1));
    assert_eq!((-value).into_words(), (-1, 2));
    let negative = i256::from_words(-1, -5);
    assert_eq!(negative.0, ethnum::I256::new(-5));
}
