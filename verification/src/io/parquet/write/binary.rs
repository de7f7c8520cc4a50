//! Pages of byte strings.
use vstd::prelude::*;
use crate::array::{BinaryArray, BinaryView};
use crate::error::Error;
use crate::offset::Offset;
use crate::types::bytes::{int_le_bytes, u32_to_le};
use super::utils::{def_levels, write_def_levels};
use super::{
    codec_of, compress, compressed, create_codec, finish_page, page_v1_spec,
    CompressedPage, Compression,
};

verus! {

/// The plain encoding of one byte string: its length as 4 little-endian
/// bytes, then its bytes.
pub open spec fn plain_value(value: Seq<u8>) -> Seq<u8> {
    int_le_bytes((value.len() as usize) as u32 as int, 4) + value
}

/// Whether slot `i` is null: there is a validity and its bit `i` is unset.
pub open spec fn is_null(validity: Option<Seq<bool>>, i: int) -> bool {
    match validity {
        Some(v) => !v[i],
        None => false,
    }
}

/// What slot `i` adds to the values of a page: nothing for a null, else the
/// plain encoding of the slot's bytes.
pub open spec fn plain_slot(array: BinaryView, i: int) -> Seq<u8> {
    if is_null(array.validity, i) {
        Seq::empty()
    } else {
        plain_value(array.value(i))
    }
}

/// The values of the first `n` slots that are present, in plain encoding
/// and in order.
pub open spec fn plain_values(array: BinaryView, n: nat) -> Seq<u8>
    decreases n,
{
    if n == 0 {
        Seq::empty()
    } else {
        plain_values(array, (n - 1) as nat) + plain_slot(array, n - 1)
    }
}

/// The number of bytes that the values of the first `n` slots take in
/// plain encoding: for each slot that is present, 4 and the length of its bytes.
pub open spec fn plain_size(array: BinaryView, n: nat) -> nat
    decreases n,
{
    if n == 0 {
        0
    } else {
        plain_size(array, (n - 1) as nat) + if is_null(array.validity, n - 1) {
            0
        } else {
            4 + array.value(n - 1).len()
        }
    }
}

/// The size of a page before compression: the length of the definition
/// levels, and for each slot that is present, 4 and the length of its bytes.
pub proof fn lemma_page_size(array: BinaryView, is_optional: bool)
    ensures
        page_payload(array, is_optional).len() == def_levels(
            is_optional,
            array.validity,
            array.len(),
        ).len() + plain_size(array, array.len()),
{
    lemma_plain_size(array, array.len());
}

/// The values of the first `n` slots take `plain_size` bytes.
proof fn lemma_plain_size(array: BinaryView, n: nat)
    ensures
        plain_values(array, n).len() == plain_size(array, n),
    decreases n,
{
    if n > 0 {
        lemma_plain_size(array, (n - 1) as nat);
    }
}

/// The bytes of a page before compression: the definition levels, then the
/// values that are present.
pub open spec fn page_payload(array: BinaryView, is_optional: bool) -> Seq<u8> {
    def_levels(is_optional, array.validity, array.len()) + plain_values(array, array.len())
}

/// Appends the values of the array that are present, in plain encoding.
/// Nulls add nothing.
pub fn encode_plain<O: Offset>(array: &BinaryArray<O>, buffer: &mut Vec<u8>)
    requires
        array.wf(),
    ensures
        final(buffer)@ == old(buffer)@ + plain_values(array@, array@.len()),
{
    let n = array.len();
    let mut i: usize = 0;
    proof {
        assert(buffer@ =~= old(buffer)@ + plain_values(array@, 0));
    }
    while i < n
        invariant
            array.wf(),
            n == array@.len(),
            i <= n,
            buffer@ == old(buffer)@ + plain_values(array@, i as nat),
        decreases n - i,
    {
        let ghost before = buffer@;
        let present = match array.validity() {
            Some(validity) => validity.get(i),
            None => true,
        };
        if present {
            let x = array.value(i);
            // BYTE_ARRAY: first 4 bytes denote length in littleendian.
            let len = u32_to_le(x.len() as u32);
            buffer.push(len[0]);
            buffer.push(len[1]);
            buffer.push(len[2]);
            buffer.push(len[3]);
            buffer.extend_from_slice(x);
            proof {
                assert(buffer@ =~= before + plain_value(x@));
            }
        }
        i = i + 1;
        proof {
            assert(buffer@ =~= before + plain_slot(array@, i - 1));
            assert(buffer@ =~= old(buffer)@ + plain_values(array@, i as nat));
        }
    }
}

/// The page of the first version that stores the array: the definition
/// levels, if the column can hold nulls, and the values that are present in
/// plain encoding, compressed as asked. The size before compression that
/// the page records is the number of these bytes, whatever the codec.
/// # Errors
/// Errors with [`Error::Codec`] iff this crate has no codec for the
/// compression, and with [`Error::Encoding`] iff the codec fails on the
/// bytes of the page.
pub fn array_to_page_v1<O: Offset>(
    array: &BinaryArray<O>,
    compression: Compression,
    is_optional: bool,
) -> (r: Result<CompressedPage, Error>)
    requires
        array.wf(),
    ensures
        page_payload(array@, is_optional).len() <= usize::MAX,
        match codec_of(compression) {
            None => r matches Err(e) && e is Codec,
            Some(None) => r matches Ok(page) && page.buffer@ == page_payload(array@, is_optional)
                && page.uncompressed_page_size == page_payload(array@, is_optional).len()
                && page == page_v1_spec(
                array@.len() as usize,
                page.buffer,
                compression,
                page_payload(array@, is_optional).len(),
            ),
            Some(Some(codec)) => match compressed(codec, page_payload(array@, is_optional)) {
                None => r matches Err(e) && e is Encoding,
                Some(bytes) => r matches Ok(page) && page.buffer@ == bytes
                    && page.uncompressed_page_size == page_payload(array@, is_optional).len()
                    && page == page_v1_spec(
                    array@.len() as usize,
                    page.buffer,
                    compression,
                    page_payload(array@, is_optional).len(),
                ),
            },
        },
{
    let validity = array.validity();

    let mut buffer = write_def_levels(is_optional, validity, array.len());

    // append the non-null values
    encode_plain(array, &mut buffer);
    proof {
        // the bytes are held in memory, so there are no more than the machine can count
        assert(buffer@.len() == buffer.len());
    }

    let codec = match create_codec(&compression) {
        Ok(codec) => codec,
        Err(e) => {
            return Err(e);
        },
    };
    let outcome = match codec {
        Some(codec) => match compress(codec, &buffer) {
            Ok(bytes) => Some(Ok(bytes)),
            Err(message) => Some(Err(Error::Encoding(message))),
        },
        None => None,
    };
    finish_page(array.len(), buffer, compression, outcome)
}

} // verus!
