use re_arrow2::buffer::Buffer;
use re_arrow2::error::Error;
use re_arrow2::offset::{try_check_offsets_bounds, Offset, Offsets, OffsetsBuffer};

#[test]
fn offsets_try_new_accepts_non_decreasing_values() {
    let offsets = Offsets::<i32>::try_new(vec![0, 2, 5, 5, 7, 8]).unwrap();
    assert_eq!(offsets.len_proxy(), 5);
    assert_eq!(offsets.last(), 8);
    let offsets = Offsets::<i64>::try_new(vec![3]).unwrap();
    assert_eq!(offsets.len_proxy(), 0);
    assert_eq!(offsets.last(), 3);
}

#[test]
fn offsets_try_new_rejects_empty_negative_and_decreasing() {
    assert!(matches!(
        Offsets::<i32>::try_new(vec![]),
        Err(Error::OutOfSpec(_))
    ));
    assert!(matches!(
        Offsets::<i32>::try_new(vec![-1, 0, 1]),
        Err(Error::OutOfSpec(_))
    ));
    assert!(matches!(
        Offsets::<i32>::try_new(vec![0, 3, 2]),
        Err(Error::OutOfSpec(_))
    ));
    assert!(matches!(
        Offsets::<i64>::try_new(vec![0, 1, 1, 0]),
        Err(Error::OutOfSpec(_))
    ));
}

#[test]
fn offsets_new_zeroed_has_empty_segments() {
    let offsets = OffsetsBuffer::from_offsets(Offsets::<i64>::new_zeroed(3));
    assert_eq!(offsets.len_proxy(), 3);
    assert_eq!(offsets.len(), 4);
    for i in 0..3 {
        assert_eq!(offsets.start_end(i), (0, 0));
    }
    let single = OffsetsBuffer::<i32>::new();
    assert_eq!(single.len_proxy(), 0);
    assert_eq!(single.first(), 0);
}

#[test]
fn offsets_start_end_gives_the_boundaries() {
    let offsets = OffsetsBuffer::from_offsets(Offsets::<i32>::try_new(vec![0, 2, 5, 5, 7, 8]).unwrap());
    assert_eq!(offsets.start_end(0), (0, 2));
    assert_eq!(offsets.start_end(1), (2, 5));
    assert_eq!(offsets.start_end(2), (5, 5));
    assert_eq!(offsets.start_end_unchecked(4), (7, 8));
    assert_eq!(offsets.first(), 0);
    assert_eq!(offsets.last(), 8);
}

#[test]
fn offsets_slice_keeps_one_boundary_more_than_segments() {
    let mut offsets =
        OffsetsBuffer::from_offsets(Offsets::<i32>::try_new(vec![0, 2, 5, 5, 7, 8]).unwrap());
    offsets.slice(1, 3);
    assert_eq!(offsets.len_proxy(), 3);
    assert_eq!(offsets.buffer().as_slice().to_vec(), vec![2, 5, 5, 7]);
    offsets.slice_unchecked(2, 1);
    assert_eq!(offsets.buffer().as_slice().to_vec(), vec![5, 7]);
    offsets.slice(1, 0);
    assert_eq!(offsets.len_proxy(), 0);
    assert_eq!(offsets.into_buffer().into_vec(), vec![7]);
}

#[test]
fn offsets_bounds_check_fails_only_beyond_the_child() {
    let offsets = OffsetsBuffer::from_offsets(Offsets::<i32>::try_new(vec![0, 2, 5]).unwrap());
    assert!(try_check_offsets_bounds(&offsets, 5).is_ok());
    assert!(try_check_offsets_bounds(&offsets, 6).is_ok());
    assert!(matches!(
        try_check_offsets_bounds(&offsets, 4),
        Err(Error::OutOfSpec(_))
    ));
}

#[test]
fn offset_conversions_respect_the_width() {
    assert!(!<i32 as Offset>::is_large());
    assert!(<i64 as Offset>::is_large());
    assert_eq!(<i32 as Offset>::from_usize(7), Some(7));
    assert_eq!(<i32 as Offset>::from_usize(i32::MAX as usize), Some(i32::MAX));
    assert_eq!(<i32 as Offset>::from_usize(i32::MAX as usize + 1), None);
    assert_eq!(<i64 as Offset>::from_usize(1 << 40), Some(1 << 40));
    assert_eq!(Offset::to_usize(&9i64), 9);
    assert_eq!(Offset::to_i64(&-4i32), -4);
    assert_eq!(<i64 as Offset>::zero(), 0);
}

#[test]
fn buffer_slices_share_and_into_vec_copies_the_window() {
    let buffer = Buffer::from_vec(vec![10u8, 11, 12, 13, 14, 15]);
    assert_eq!(buffer.len(), 6);
    assert!(!buffer.is_empty());
    let sliced = buffer.clone().sliced(2, 3);
    assert_eq!(sliced.as_slice(), &[12, 13, 14]);
    assert_eq!(*sliced.get(1), 13);
    let mut again = sliced.clone();
    again.slice(1, 2);
    assert_eq!(again.as_slice(), &[13, 14]);
    assert_eq!(again.into_vec(), vec![13, 14]);
    assert_eq!(buffer.into_vec(), vec![10, 11, 12, 13, 14, 15]);
}
