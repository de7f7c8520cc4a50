use re_arrow2::bitmap::{Bitmap, MutableBitmap};
use re_arrow2::error::Error;

#[test]
fn bitmap_from_bools_round_trips() {
    let bits = vec![true, false, true, true, false, false, true, false, true];
    let bitmap = Bitmap::from_bools(&bits);
    assert_eq!(bitmap.len(), 9);
    assert_eq!(bitmap.unset_bits(), 4);
    assert_eq!(bitmap.iter(), bits);
    for (i, bit) in bits.iter().enumerate() {
        assert_eq!(bitmap.get(i), *bit);
    }
}

#[test]
fn bitmap_try_new_reads_least_significant_bit_first() {
    let bitmap = Bitmap::try_new(vec![0b0000_0101, 0b0000_0010], 10).unwrap();
    assert_eq!(
        bitmap.iter(),
        vec![true, false, true, false, false, false, false, false, false, true]
    );
    assert_eq!(bitmap.unset_bits(), 7);
}

#[test]
fn bitmap_try_new_rejects_a_length_beyond_the_bytes() {
    assert!(Bitmap::try_new(vec![0u8, 0u8], 16).is_ok());
    let r = Bitmap::try_new(vec![0u8, 0u8], 17);
    assert!(matches!(r, Err(Error::OutOfSpec(_))));
    let r = Bitmap::try_new(vec![], 1);
    assert!(matches!(r, Err(Error::OutOfSpec(_))));
    assert!(Bitmap::try_new(vec![], 0).is_ok());
}

#[test]
fn bitmap_new_zeroed_has_only_unset_bits() {
    let bitmap = Bitmap::new_zeroed(13);
    assert_eq!(bitmap.len(), 13);
    assert_eq!(bitmap.unset_bits(), 13);
    assert_eq!(bitmap.iter(), vec![false; 13]);
    let empty = Bitmap::new_zeroed(0);
    assert!(empty.is_empty());
    assert_eq!(empty.unset_bits(), 0);
}

#[test]
fn bitmap_slice_narrows_the_window_and_recounts() {
    let bits = vec![
        true, true, false, true, false, false, true, true, true, false, true, false,
    ];
    let mut bitmap = Bitmap::from_bools(&bits);
    bitmap.slice(3, 7);
    assert_eq!(bitmap.len(), 7);
    assert_eq!(bitmap.iter(), bits[3..10].to_vec());
    assert_eq!(bitmap.unset_bits(), 3);
    // a slice of a slice is relative to the slice
    let inner = bitmap.clone().sliced(2, 4);
    assert_eq!(inner.iter(), bits[5..9].to_vec());
    assert_eq!(inner.unset_bits(), 1);
    // the clone did not change the bitmap it was taken from
    assert_eq!(bitmap.len(), 7);
    let empty = bitmap.sliced(7, 0);
    assert_eq!(empty.len(), 0);
    assert_eq!(empty.unset_bits(), 0);
}

#[test]
fn bitmap_slice_to_no_nulls_keeps_the_count_at_zero() {
    let mut bitmap = Bitmap::from_bools(&[false, true, true, false]);
    bitmap.slice(1, 2);
    assert_eq!(bitmap.unset_bits(), 0);
    assert_eq!(bitmap.iter(), vec![true, true]);
}

#[test]
fn mutable_bitmap_push_appends_across_bytes() {
    let mut bitmap = MutableBitmap::new();
    assert!(bitmap.is_empty());
    let bits: Vec<bool> = (0..19).map(|i| i % 3 == 0).collect();
    for bit in &bits {
        bitmap.push(*bit);
    }
    assert_eq!(bitmap.len(), 19);
    assert_eq!(bitmap.iter(), bits);
    assert!(bitmap.get(18));
    assert!(!bitmap.get(17));
    let frozen = bitmap.freeze();
    assert_eq!(frozen.iter(), bits);
    assert_eq!(frozen.unset_bits(), 12);
}

#[test]
fn bitmap_into_inner_gives_the_window() {
    let bitmap = Bitmap::try_new(vec![0b1010_1010, 0b0000_0001], 9)
        .unwrap()
        .sliced(1, 8);
    let (bytes, offset, length) = bitmap.into_inner();
    assert_eq!(bytes, vec![0b1010_1010, 0b0000_0001]);
    assert_eq!(offset, 1);
    assert_eq!(length, 8);
}

#[test]
fn bitmap_to_arrow_and_back_keeps_the_bits() {
    let bits = vec![true, true, false, true, false, true, true, false, false, true];
    let bitmap = Bitmap::from_bools(&bits).sliced(2, 7);
    let nulls = bitmap.clone().into_arrow();
    assert_eq!(nulls.len(), 7);
    assert_eq!(nulls.null_count(), 4);
    let seen: Vec<bool> = nulls.iter().collect();
    assert_eq!(seen, bits[2..9].to_vec());
    let back = Bitmap::from_arrow(&nulls);
    assert_eq!(back.iter(), bitmap.iter());
    assert_eq!(back.unset_bits(), 4);
}

#[test]
fn bitmap_from_arrow_reads_a_sliced_null_buffer() {
    let nulls = arrow_buffer::NullBuffer::from(vec![true, false, false, true, true]);
    let sliced = nulls.slice(1, 3);
    let bitmap = Bitmap::from_arrow(&sliced);
    assert_eq!(bitmap.iter(), vec![false, false, true]);
    assert_eq!(bitmap.unset_bits(), 2);
}
