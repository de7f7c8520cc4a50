//! Definition levels: the presence of each slot, before the values of a page.
use vstd::prelude::*;
use crate::bitmap::{bytes_for, Bitmap};
use crate::types::bytes::{i32_to_le, int_le_bytes};

verus! {

/// `v` in unsigned LEB128: seven bits in each byte, the least significant
/// first, and the high bit set in every byte but the last.
pub open spec fn uleb128(v: nat) -> Seq<u8>
    decreases v,
{
    if v < 128 {
        seq![v as u8]
    } else {
        seq![(v % 128 + 128) as u8] + uleb128(v / 128)
    }
}

/// 1 where bit `i` exists and is set, else 0.
pub open spec fn bit_value(bits: Seq<bool>, i: int) -> int {
    if 0 <= i < bits.len() && bits[i] {
        1
    } else {
        0
    }
}

/// Byte `i` of the bits packed eight to a byte, the first bit in the least
/// significant place. The bits that the last byte lacks are 0.
pub open spec fn packed_byte(bits: Seq<bool>, i: int) -> u8 {
    (bit_value(bits, 8 * i) + 2 * bit_value(bits, 8 * i + 1) + 4 * bit_value(bits, 8 * i + 2) + 8
        * bit_value(bits, 8 * i + 3) + 16 * bit_value(bits, 8 * i + 4) + 32 * bit_value(
        bits,
        8 * i + 5,
    ) + 64 * bit_value(bits, 8 * i + 6) + 128 * bit_value(bits, 8 * i + 7)) as u8
}

/// The bits packed eight to a byte.
pub open spec fn packed_bits(bits: Seq<bool>) -> Seq<u8> {
    Seq::new(bytes_for(bits.len()), |i: int| packed_byte(bits, i))
}

/// The run-length and bit-packed hybrid encoding of a sequence of bits, as
/// one bit-packed run: the number of bytes of the run, doubled and plus one,
/// in unsigned LEB128, then the bits packed eight to a byte.
pub open spec fn hybrid_rle_bools(bits: Seq<bool>) -> Seq<u8> {
    uleb128(2 * bytes_for(bits.len()) + 1) + packed_bits(bits)
}

/// Calls `parquet2::encoding::hybrid_rle::encode_bool` on an empty buffer:
/// the bits as one bit-packed run of the hybrid encoding.
#[verifier::external_body]
pub(crate) fn encode_bool(bits: &Vec<bool>) -> (encoded: Vec<u8>)
    ensures
        encoded@ == hybrid_rle_bools(bits@),
{
    let mut encoded = Vec::new();
    let _ = parquet2::encoding::hybrid_rle::encode_bool(&mut encoded, bits.iter().copied());
    encoded
}

/// The presence bits of `len` slots: the validity, or all set where there is none.
pub open spec fn presence(validity: Option<Seq<bool>>, len: nat) -> Seq<bool> {
    match validity {
        Some(v) => v,
        None => Seq::new(len, |i: int| true),
    }
}

/// The definition levels of a page of the first version: nothing for a
/// column that cannot hold nulls; else the hybrid encoding of the presence
/// bits, with its length in bytes before it as 4 little-endian bytes.
pub open spec fn def_levels(is_optional: bool, validity: Option<Seq<bool>>, len: nat) -> Seq<u8> {
    if is_optional {
        let encoded = hybrid_rle_bools(presence(validity, len));
        int_le_bytes((encoded.len() as usize) as i32 as int, 4) + encoded
    } else {
        Seq::empty()
    }
}

/// Writes the definition levels of `len` slots with this validity.
pub fn write_def_levels(is_optional: bool, validity: Option<&Bitmap>, len: usize) -> (buffer: Vec<
    u8,
>)
    requires
        validity matches Some(b) ==> b.wf() && b@.len() == len,
    ensures
        buffer@ == def_levels(
            is_optional,
            match validity {
                Some(b) => Some(b@),
                None => None,
            },
            len as nat,
        ),
{
    let mut buffer: Vec<u8> = Vec::new();
    if is_optional {
        let bits = match validity {
            Some(b) => b.iter(),
            None => all_present(len),
        };
        let encoded = encode_bool(&bits);
        let length = i32_to_le(encoded.len() as i32);
        buffer.push(length[0]);
        buffer.push(length[1]);
        buffer.push(length[2]);
        buffer.push(length[3]);
        let mut encoded = encoded;
        let ghost prefix = buffer@;
        buffer.append(&mut encoded);
        proof {
            assert(prefix =~= length@);
        }
    }
    buffer
}

/// `len` set bits.
fn all_present(len: usize) -> (bits: Vec<bool>)
    ensures
        bits@ == Seq::new(len as nat, |i: int| true),
{
    let mut bits: Vec<bool> = Vec::new();
    let mut i: usize = 0;
    while i < len
        invariant
            i <= len,
            bits@ == Seq::new(i as nat, |i: int| true),
        decreases len - i,
    {
        bits.push(true);
        i = i + 1;
        proof {
            assert(bits@ =~= Seq::new(i as nat, |i: int| true));
        }
    }
    bits
}

} // verus!
