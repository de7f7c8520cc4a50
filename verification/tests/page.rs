use re_arrow2::array::BinaryArray;
use re_arrow2::bitmap::Bitmap;
use re_arrow2::buffer::Buffer;
use re_arrow2::datatypes::DataType;
use re_arrow2::error::Error;
use re_arrow2::io::parquet::write::utils::write_def_levels;
use re_arrow2::io::parquet::write::{
    array_to_page_v1, binary::encode_plain, create_codec, finish_page, page_v1, Codec,
    CompressedPage, Compression, Encoding, PageHeader,
};
use re_arrow2::offset::{Offsets, OffsetsBuffer};

fn array(validity: Option<&[bool]>) -> BinaryArray<i32> {
    BinaryArray::<i32>::try_new(
        DataType::Binary,
        OffsetsBuffer::from_offsets(Offsets::try_new(vec![0, 2, 2, 5]).unwrap()),
        Buffer::from_vec(b"abcde".to_vec()),
        validity.map(Bitmap::from_bools),
    )
    .unwrap()
}

fn long_array(n: usize) -> (BinaryArray<i64>, Vec<Option<Vec<u8>>>) {
    let mut offsets = vec![0i64];
    let mut bytes = Vec::new();
    let mut validity = Vec::new();
    let mut expected = Vec::new();
    for i in 0..n {
        let value: Vec<u8> = (0..(i % 7)).map(|j| (i * 31 + j) as u8).collect();
        bytes.extend_from_slice(&value);
        offsets.push(bytes.len() as i64);
        let valid = i % 5 != 3;
        validity.push(valid);
        expected.push(if valid { Some(value) } else { None });
    }
    let array = BinaryArray::<i64>::try_new(
        DataType::LargeBinary,
        OffsetsBuffer::from_offsets(Offsets::try_new(offsets).unwrap()),
        Buffer::from_vec(bytes),
        Some(Bitmap::from_bools(&validity)),
    )
    .unwrap();
    (array, expected)
}

fn page_of(array: BinaryArray<i32>, compression: Compression, is_optional: bool) -> CompressedPage {
    array_to_page_v1(&array, compression, is_optional).unwrap()
}

fn header_of(page: &CompressedPage) -> (i32, Encoding, Encoding, Encoding, bool) {
    match &page.header {
        PageHeader::V1(h) => (
            h.num_values,
            h.encoding,
            h.definition_level_encoding,
            h.repetition_level_encoding,
            h.statistics.is_none(),
        ),
    }
}

/// Reads a page of the first version back: the definition levels with the
/// decoder of the `parquet2` crate, then the plain values.
fn decode(payload: &[u8], num_values: usize, is_optional: bool) -> Vec<Option<Vec<u8>>> {
    let (presence, values) = if is_optional {
        let length = i32::from_le_bytes(payload[0..4].try_into().unwrap()) as usize;
        let levels = &payload[4..4 + length];
        let decoder =
            parquet2::encoding::hybrid_rle::HybridRleDecoder::try_new(levels, 1, num_values)
                .unwrap();
        let presence: Vec<bool> = decoder.map(|level| level.unwrap() == 1).collect();
        (presence, &payload[4 + length..])
    } else {
        (vec![true; num_values], payload)
    };
    assert_eq!(presence.len(), num_values);
    let mut values = parquet2::encoding::plain_byte_array::BinaryIter::new(values, None);
    let decoded: Vec<Option<Vec<u8>>> = presence
        .iter()
        .map(|present| {
            if *present {
                Some(values.next().unwrap().unwrap().to_vec())
            } else {
                None
            }
        })
        .collect();
    assert!(values.next().is_none());
    decoded
}

#[test]
fn page_of_a_required_column_holds_every_value() {
    let page = page_of(array(None), Compression::Uncompressed, false);
    assert_eq!(
        page.buffer,
        vec![2, 0, 0, 0, b'a', b'b', 0, 0, 0, 0, 3, 0, 0, 0, b'c', b'd', b'e']
    );
    assert_eq!(page.uncompressed_size(), 17);
    assert_eq!(page.compressed_size(), 17);
    assert_eq!(page.compression, Compression::Uncompressed);
    assert_eq!(
        header_of(&page),
        (3, Encoding::Plain, Encoding::Rle, Encoding::Rle, true)
    );
    assert_eq!(page.num_values(), 3);
}

#[test]
fn page_of_a_required_column_leaves_out_the_nulls() {
    let page = page_of(array(Some(&[true, false, true])), Compression::Uncompressed, false);
    // no levels, and the null slot adds no byte
    assert_eq!(
        page.buffer,
        vec![2, 0, 0, 0, b'a', b'b', 3, 0, 0, 0, b'c', b'd', b'e']
    );
    assert_eq!(page.uncompressed_size(), 13);
    assert_eq!(page.num_values(), 3);

    let page = page_of(array(Some(&[false, false, false])), Compression::Uncompressed, false);
    assert!(page.buffer.is_empty());
    assert_eq!(page.num_values(), 3);
}

#[test]
fn page_of_an_optional_column_starts_with_the_definition_levels() {
    let page = page_of(array(Some(&[true, false, true])), Compression::Uncompressed, true);
    assert_eq!(
        page.buffer,
        vec![
            2, 0, 0, 0, // the levels take two bytes
            3, 0b101, // one bit-packed run of one byte; slots 0 and 2 are present
            2, 0, 0, 0, b'a', b'b', // slot 0
            3, 0, 0, 0, b'c', b'd', b'e', // slot 2
        ]
    );
    assert_eq!(page.uncompressed_size(), 19);
    assert_eq!(
        header_of(&page),
        (3, Encoding::Plain, Encoding::Rle, Encoding::Rle, true)
    );
}

#[test]
fn page_of_an_optional_column_without_nulls_still_has_levels() {
    let page = page_of(array(None), Compression::Uncompressed, true);
    assert_eq!(
        page.buffer,
        vec![
            2, 0, 0, 0, 3, 0b111, //
            2, 0, 0, 0, b'a', b'b', //
            0, 0, 0, 0, //
            3, 0, 0, 0, b'c', b'd', b'e',
        ]
    );
}

#[test]
fn page_of_an_empty_array() {
    let empty = BinaryArray::<i32>::new_empty(DataType::Binary);
    let page = array_to_page_v1(&empty, Compression::Uncompressed, false).unwrap();
    assert!(page.buffer.is_empty());
    assert_eq!(page.num_values(), 0);
    let page = array_to_page_v1(&empty, Compression::Uncompressed, true).unwrap();
    assert_eq!(page.buffer, vec![1, 0, 0, 0, 1]);
}

#[test]
fn definition_levels_pack_the_bits_least_significant_first() {
    assert!(write_def_levels(false, None, 5).is_empty());
    let validity = Bitmap::from_bools(&[
        true, false, true, true, true, false, false, true, // 0b1001_1101
        true, false, true, true, true, false, // 0b0001_1101
    ]);
    assert_eq!(
        write_def_levels(true, Some(&validity), 14),
        vec![3, 0, 0, 0, (2 << 1) | 1, 0b1001_1101, 0b0001_1101]
    );
    assert_eq!(
        write_def_levels(true, None, 9),
        vec![3, 0, 0, 0, (2 << 1) | 1, 0xff, 0x01]
    );
}

#[test]
fn definition_levels_of_many_slots_have_a_header_of_two_bytes() {
    // 1024 slots are 128 bytes of bits: the header 257 takes two bytes
    let levels = write_def_levels(true, None, 1024);
    assert_eq!(levels.len(), 4 + 2 + 128);
    assert_eq!(&levels[0..4], &[130, 0, 0, 0]);
    assert_eq!(&levels[4..6], &[0x81, 0x02]);
    assert!(levels[6..].iter().all(|byte| *byte == 0xff));
}

#[test]
fn encode_plain_appends_to_the_buffer() {
    let mut buffer = vec![9u8, 9];
    encode_plain(&array(Some(&[false, true, true])), &mut buffer);
    assert_eq!(
        buffer,
        vec![9, 9, 0, 0, 0, 0, 3, 0, 0, 0, b'c', b'd', b'e']
    );
    let mut buffer = Vec::new();
    encode_plain(&array(None), &mut buffer);
    assert_eq!(
        buffer,
        vec![2, 0, 0, 0, b'a', b'b', 0, 0, 0, 0, 3, 0, 0, 0, b'c', b'd', b'e']
    );
}

#[test]
fn page_round_trips_through_each_codec() {
    let (array, expected) = long_array(300);
    let uncompressed = array_to_page_v1(&array, Compression::Uncompressed, true).unwrap();
    assert_eq!(decode(&uncompressed.buffer, 300, true), expected);
    for (compression, codec) in [
        (Compression::Snappy, parquet2::compression::Compression::Snappy),
        (Compression::Gzip, parquet2::compression::Compression::Gzip),
        (Compression::Brotli, parquet2::compression::Compression::Brotli),
        (Compression::Lz4Raw, parquet2::compression::Compression::Lz4Raw),
    ] {
        let page = array_to_page_v1(&array, compression, true).unwrap();
        assert_eq!(page.compression, compression);
        assert_eq!(page.num_values(), 300);
        assert_eq!(page.uncompressed_size(), uncompressed.buffer.len());
        assert_eq!(page.compressed_size(), page.buffer.len());
        // the codec has done something
        assert_ne!(page.buffer, uncompressed.buffer);
        let mut payload = vec![0u8; page.uncompressed_size()];
        parquet2::compression::decompress(codec, &page.buffer, &mut payload).unwrap();
        assert_eq!(payload, uncompressed.buffer);
        assert_eq!(decode(&payload, 300, true), expected);
    }
}

#[test]
fn page_of_a_required_column_round_trips() {
    let (array, _) = long_array(40);
    // without levels nothing tells which slots are null, so there is none
    let array = array.with_validity(None);
    let page = array_to_page_v1(&array, Compression::Snappy, false).unwrap();
    let mut payload = vec![0u8; page.uncompressed_size()];
    parquet2::compression::decompress(
        parquet2::compression::Compression::Snappy,
        &page.buffer,
        &mut payload,
    )
    .unwrap();
    let expected: Vec<Option<Vec<u8>>> = (0..40).map(|i| Some(array.value(i).to_vec())).collect();
    assert_eq!(decode(&payload, 40, false), expected);
}

#[test]
fn page_size_before_compression_counts_the_levels_and_the_present_values() {
    let (array, expected) = long_array(100);
    let values: usize = expected
        .iter()
        .map(|slot| slot.as_ref().map_or(0, |value| 4 + value.len()))
        .sum();
    // 100 slots are 13 bytes of bits behind a header of one byte and a length of four
    let levels = 4 + 1 + 13;
    for compression in [
        Compression::Uncompressed,
        Compression::Snappy,
        Compression::Gzip,
        Compression::Brotli,
        Compression::Lz4Raw,
    ] {
        let optional = array_to_page_v1(&array, compression, true).unwrap();
        assert_eq!(optional.uncompressed_size(), levels + values);
        let required = array_to_page_v1(&array, compression, false).unwrap();
        assert_eq!(required.uncompressed_size(), values);
    }
}

#[test]
fn compression_is_the_same_each_time() {
    let (array, _) = long_array(100);
    for compression in [
        Compression::Snappy,
        Compression::Gzip,
        Compression::Brotli,
        Compression::Lz4Raw,
    ] {
        let first = array_to_page_v1(&array, compression, true).unwrap();
        let second = array_to_page_v1(&array, compression, true).unwrap();
        assert_eq!(first.buffer, second.buffer);
    }
}

#[test]
fn page_fails_for_a_codec_that_is_not_there() {
    for compression in [Compression::Lzo, Compression::Lz4, Compression::Zstd] {
        assert!(matches!(
            create_codec(&compression),
            Err(Error::Codec(_))
        ));
        let r = array_to_page_v1(&array(None), compression, true);
        assert!(matches!(r, Err(Error::Codec(_))));
    }
    assert_eq!(create_codec(&Compression::Uncompressed).unwrap(), None);
    assert_eq!(
        create_codec(&Compression::Snappy).unwrap(),
        Some(Codec::Snappy)
    );
    assert_eq!(create_codec(&Compression::Gzip).unwrap(), Some(Codec::Gzip));
    assert_eq!(
        create_codec(&Compression::Brotli).unwrap(),
        Some(Codec::Brotli)
    );
    assert_eq!(
        create_codec(&Compression::Lz4Raw).unwrap(),
        Some(Codec::Lz4Raw)
    );
}

#[test]
fn finish_page_takes_the_outcome_of_the_codec() {
    let page = finish_page(3, vec![1, 2, 3, 4], Compression::Uncompressed, None).unwrap();
    assert_eq!(page.buffer, vec![1, 2, 3, 4]);
    assert_eq!(page.uncompressed_size(), 4);

    let page = finish_page(3, vec![1, 2, 3, 4], Compression::Snappy, Some(Ok(vec![7, 8]))).unwrap();
    assert_eq!(page.buffer, vec![7, 8]);
    assert_eq!(page.uncompressed_size(), 4);
    assert_eq!(page.compressed_size(), 2);
    assert_eq!(page.compression, Compression::Snappy);
    assert_eq!(
        header_of(&page),
        (3, Encoding::Plain, Encoding::Rle, Encoding::Rle, true)
    );

    let r = finish_page(
        3,
        vec![1, 2, 3, 4],
        Compression::Snappy,
        Some(Err(Error::Encoding("the codec failed".to_string()))),
    );
    match r {
        Err(e) => {
            assert!(matches!(e, Error::Encoding(_)));
            assert_eq!(e.message(), "the codec failed");
        }
        Ok(_) => panic!("a failed codec gives no page"),
    }
}

#[test]
fn page_v1_declares_plain_values_and_rle_levels() {
    let page = page_v1(5, vec![1, 2], Compression::Gzip, 10);
    assert_eq!(
        header_of(&page),
        (5, Encoding::Plain, Encoding::Rle, Encoding::Rle, true)
    );
    assert_eq!(page.buffer, vec![1, 2]);
    assert_eq!(page.uncompressed_size(), 10);
    assert_eq!(page.compression, Compression::Gzip);
}

#[test]
fn error_messages_are_kept() {
    let e = Error::oos("out of spec");
    assert!(matches!(e, Error::OutOfSpec(_)));
    assert_eq!(e.message(), "out of spec");
    assert_eq!(Error::Codec("no codec".to_string()).message(), "no codec");
}
