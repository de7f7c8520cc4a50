//! What a page stands for: the presence of the slots and the values that
//! are read back from the bytes of a page before compression.
use vstd::prelude::*;
use crate::array::BinaryView;
use crate::bitmap::{bit_at, bits_of, bytes_for, is_set};
use vstd::arithmetic::div_mod::lemma_small_mod;
use crate::types::bytes::{int_le_bytes, le_unsigned, lemma_le_digits, pow256};
use super::write::binary::{is_null, page_payload, plain_slot, plain_values};
use super::write::utils::{
    bit_value, def_levels, hybrid_rle_bools, packed_bits, packed_byte, presence, uleb128,
};

verus! {

/// Four little-endian bytes are read back as the value that they were written for.
pub proof fn lemma_le_bytes_round_trip(x: int)
    requires
        0 <= x < 0x1_0000_0000,
    ensures
        int_le_bytes(x, 4).len() == 4,
        le_unsigned(int_le_bytes(x, 4)) == x,
{
    reveal_with_fuel(pow256, 5);
    lemma_le_digits(x, 4, 4);
    lemma_small_mod(x as nat, pow256(4) as nat);
}

/// The value that bytes in unsigned LEB128 stand for, and the number of
/// bytes that it takes: the bytes up to the first whose high bit is unset.
pub open spec fn uleb128_value(s: Seq<u8>) -> (int, int)
    decreases s.len(),
{
    if s.len() == 0 {
        (0, 0)
    } else if s[0] < 128 {
        (s[0] as int, 1)
    } else {
        let (value, consumed) = uleb128_value(s.drop_first());
        (s[0] - 128 + 128 * value, consumed + 1)
    }
}

/// A value in unsigned LEB128 is read back, whatever follows it.
pub proof fn lemma_uleb128_round_trip(v: nat, rest: Seq<u8>)
    ensures
        uleb128(v).len() >= 1,
        uleb128_value(uleb128(v) + rest) == (v as int, uleb128(v).len() as int),
    decreases v,
{
    let s = uleb128(v) + rest;
    if v < 128 {
        assert(s[0] == v as u8);
    } else {
        lemma_uleb128_round_trip(v / 128, rest);
        assert(s[0] == (v % 128 + 128) as u8);
        assert(s.drop_first() =~= uleb128(v / 128) + rest);
    }
}

/// Bit `k` of a byte that is the sum of eight bits in their places.
proof fn lemma_sum_bit(b0: u8, b1: u8, b2: u8, b3: u8, b4: u8, b5: u8, b6: u8, b7: u8, k: u8)
    requires
        b0 <= 1,
        b1 <= 1,
        b2 <= 1,
        b3 <= 1,
        b4 <= 1,
        b5 <= 1,
        b6 <= 1,
        b7 <= 1,
        k < 8,
    ensures
        ({
            let byte = (b0 + 2 * b1 + 4 * b2 + 8 * b3 + 16 * b4 + 32 * b5 + 64 * b6 + 128 * b7) as u8;
            is_set(byte, k) == (if k == 0 {
                b0 == 1
            } else if k == 1 {
                b1 == 1
            } else if k == 2 {
                b2 == 1
            } else if k == 3 {
                b3 == 1
            } else if k == 4 {
                b4 == 1
            } else if k == 5 {
                b5 == 1
            } else if k == 6 {
                b6 == 1
            } else {
                b7 == 1
            })
        }),
{
    let byte = (b0 + 2 * b1 + 4 * b2 + 8 * b3 + 16 * b4 + 32 * b5 + 64 * b6 + 128 * b7) as u8;
    assert(byte == b0 | (b1 << 1) | (b2 << 2) | (b3 << 3) | (b4 << 4) | (b5 << 5) | (b6 << 6) | (b7
        << 7)) by (bit_vector)
        requires
            b0 <= 1,
            b1 <= 1,
            b2 <= 1,
            b3 <= 1,
            b4 <= 1,
            b5 <= 1,
            b6 <= 1,
            b7 <= 1,
            byte == (b0 + 2 * b1 + 4 * b2 + 8 * b3 + 16 * b4 + 32 * b5 + 64 * b6 + 128 * b7) as u8,
    ;
    assert((byte >> k) & 1u8 == 1u8 <==> (if k == 0 {
        b0 == 1
    } else if k == 1 {
        b1 == 1
    } else if k == 2 {
        b2 == 1
    } else if k == 3 {
        b3 == 1
    } else if k == 4 {
        b4 == 1
    } else if k == 5 {
        b5 == 1
    } else if k == 6 {
        b6 == 1
    } else {
        b7 == 1
    })) by (bit_vector)
        requires
            b0 <= 1,
            b1 <= 1,
            b2 <= 1,
            b3 <= 1,
            b4 <= 1,
            b5 <= 1,
            b6 <= 1,
            b7 <= 1,
            k < 8,
            byte == b0 | (b1 << 1) | (b2 << 2) | (b3 << 3) | (b4 << 4) | (b5 << 5) | (b6 << 6) | (b7
                << 7),
    ;
}

/// The bits that were packed eight to a byte are read back from the bytes.
pub proof fn lemma_packed_bits_round_trip(bits: Seq<bool>)
    ensures
        packed_bits(bits).len() == bytes_for(bits.len()),
        bits_of(packed_bits(bits), 0, bits.len()) == bits,
{
    let packed = packed_bits(bits);
    assert forall|i: int| 0 <= i < bits.len() implies bit_at(packed, i) == bits[i] by {
        let j = i / 8;
        let k = (i % 8) as u8;
        lemma_sum_bit(
            bit_value(bits, 8 * j) as u8,
            bit_value(bits, 8 * j + 1) as u8,
            bit_value(bits, 8 * j + 2) as u8,
            bit_value(bits, 8 * j + 3) as u8,
            bit_value(bits, 8 * j + 4) as u8,
            bit_value(bits, 8 * j + 5) as u8,
            bit_value(bits, 8 * j + 6) as u8,
            bit_value(bits, 8 * j + 7) as u8,
            k,
        );
        assert(packed[j] == packed_byte(bits, j));
    }
    assert(bits_of(packed, 0, bits.len()) =~= bits);
}

/// A value in unsigned LEB128 takes no more bytes than the value is, and one.
pub proof fn lemma_uleb128_len(v: nat)
    ensures
        1 <= uleb128(v).len() <= v + 1,
    decreases v,
{
    if v >= 128 {
        lemma_uleb128_len(v / 128);
    }
}

/// The presence of `len` slots that the definition levels at the start of a
/// page stand for, and the number of bytes that the levels take: for a
/// column that cannot hold nulls every slot is present and the levels take
/// nothing; else four bytes give the length of the levels, and the levels
/// are one bit-packed run, whose header is skipped.
pub open spec fn read_def_levels(payload: Seq<u8>, len: nat, is_optional: bool) -> (Seq<bool>, int) {
    if is_optional {
        let length = le_unsigned(payload.subrange(0, 4));
        let levels = payload.subrange(4, 4 + length);
        let header = uleb128_value(levels).1;
        (bits_of(levels.subrange(header, levels.len() as int), 0, len), 4 + length)
    } else {
        (Seq::new(len, |i: int| true), 0)
    }
}

/// The values in plain encoding that are read for the slots that are
/// present, in order: `None` for a slot that is not present, else the bytes
/// whose number the four bytes before them give.
pub open spec fn read_plain(values: Seq<u8>, present: Seq<bool>) -> Seq<Option<Seq<u8>>>
    decreases present.len(),
{
    if present.len() == 0 {
        Seq::empty()
    } else if !present[0] {
        seq![None] + read_plain(values, present.drop_first())
    } else {
        let length = le_unsigned(values.subrange(0, 4));
        seq![Some(values.subrange(4, 4 + length))] + read_plain(
            values.subrange(4 + length, values.len() as int),
            present.drop_first(),
        )
    }
}

/// The slots that are read from the bytes of a page of `len` slots before compression.
pub open spec fn read_page(payload: Seq<u8>, len: nat, is_optional: bool) -> Seq<Option<Seq<u8>>> {
    let (present, consumed) = read_def_levels(payload, len, is_optional);
    read_plain(payload.subrange(consumed, payload.len() as int), present)
}

/// The slots that a page is written for: the bytes of each slot, or `None`
/// for a null.
pub open spec fn page_slots(array: BinaryView) -> Seq<Option<Seq<u8>>> {
    Seq::new(
        array.len(),
        |i: int|
            if is_null(array.validity, i) {
                None
            } else {
                Some(array.value(i))
            },
    )
}

/// Whether no slot of the array is null.
pub open spec fn has_no_null(array: BinaryView) -> bool {
    forall|i: int| 0 <= i < array.len() ==> !is_null(array.validity, i)
}

/// Whether the page format can hold the array: the number of slots fits the
/// header, and the length of each value fits its four bytes.
pub open spec fn fits_page(array: BinaryView) -> bool {
    &&& array.len() <= i32::MAX
    &&& forall|i: int| 0 <= i < array.len() ==> (#[trigger] array.value(i)).len() <= u32::MAX
}

/// The values of the slots `i` to `n` in plain encoding, the first slot first.
spec fn plain_from(array: BinaryView, i: int, n: int) -> Seq<u8>
    decreases n - i,
{
    if i >= n {
        Seq::empty()
    } else {
        plain_slot(array, i) + plain_from(array, i + 1, n)
    }
}

proof fn lemma_plain_from_last(array: BinaryView, i: int, n: int)
    requires
        i < n,
    ensures
        plain_from(array, i, n) == plain_from(array, i, n - 1)
            + plain_slot(array, n - 1),
    decreases n - i,
{
    if i + 1 < n {
        lemma_plain_from_last(array, i + 1, n);
        assert(plain_from(array, i, n) =~= plain_from(array, i, n - 1)
            + plain_slot(array, n - 1));
    } else {
        assert(plain_from(array, i + 1, n) =~= Seq::<u8>::empty());
        assert(plain_from(array, i, n - 1) =~= Seq::<u8>::empty());
        assert(plain_from(array, i, n) =~= plain_from(array, i, n - 1)
            + plain_slot(array, n - 1));
    }
}

proof fn lemma_plain_values_from(array: BinaryView, n: nat)
    ensures
        plain_values(array, n) == plain_from(array, 0, n as int),
    decreases n,
{
    if n > 0 {
        lemma_plain_values_from(array, (n - 1) as nat);
        lemma_plain_from_last(array, 0, n as int);
    }
}

proof fn lemma_read_plain(array: BinaryView, present: Seq<bool>, i: int)
    requires
        fits_page(array),
        0 <= i <= array.len(),
        present.len() == array.len(),
        forall|j: int|
            0 <= j < array.len() ==> present[j] == !is_null(array.validity, j),
    ensures
        read_plain(
            plain_from(array, i, array.len() as int),
            present.subrange(i, array.len() as int),
        ) == page_slots(array).subrange(i, array.len() as int),
    decreases array.len() - i,
{
    let n = array.len() as int;
    let bytes = plain_from(array, i, n);
    let rest = plain_from(array, i + 1, n);
    let here = present.subrange(i, n);
    let slots = page_slots(array);
    if i < n {
        lemma_read_plain(array, present, i + 1);
        assert(here.drop_first() =~= present.subrange(i + 1, n));
        assert(here[0] == present[i]);
        if present[i] {
            let value = array.value(i);
            let prefix = int_le_bytes((value.len() as usize) as u32 as int, 4);
            lemma_le_bytes_round_trip(value.len() as int);
            assert(bytes == prefix + value + rest);
            assert(bytes.subrange(0, 4) =~= prefix);
            assert(bytes.subrange(4, 4 + value.len() as int) =~= value);
            assert(bytes.subrange(4 + value.len() as int, bytes.len() as int) =~= rest);
            assert(read_plain(bytes, here) =~= seq![Some(value)] + read_plain(
                rest,
                present.subrange(i + 1, n),
            ));
        } else {
            assert(bytes =~= rest);
        }
        assert(slots.subrange(i, n) =~= seq![slots[i]] + slots.subrange(i + 1, n));
    } else {
        assert(slots.subrange(i, n) =~= Seq::<Option<Seq<u8>>>::empty());
    }
}

/// The round trip of a page: the slots that are read from the bytes of a
/// page before compression are the slots that the page was written for,
/// values and nulls alike, for every array that the page format can hold.
/// A column that cannot hold nulls has no levels to tell which slots are
/// null, so an array written for such a column must have none.
pub proof fn lemma_page_round_trip(array: BinaryView, is_optional: bool)
    requires
        array.valid(),
        fits_page(array),
        is_optional || has_no_null(array),
    ensures
        read_page(page_payload(array, is_optional), array.len(), is_optional) == page_slots(array),
{
    let n = array.len();
    let payload = page_payload(array, is_optional);
    let values = plain_values(array, n);
    let levels = def_levels(is_optional, array.validity, n);
    let present = presence(array.validity, n);
    lemma_plain_values_from(array, n);
    assert(payload == levels + values);
    if is_optional {
        let encoded = hybrid_rle_bools(present);
        let header = uleb128(2 * bytes_for(n) + 1);
        let packed = packed_bits(present);
        lemma_uleb128_len(2 * bytes_for(n) + 1);
        lemma_uleb128_round_trip(2 * bytes_for(n) + 1, packed);
        lemma_packed_bits_round_trip(present);
        assert(encoded == header + packed);
        assert(encoded.len() <= i32::MAX);
        lemma_le_bytes_round_trip(encoded.len() as int);
        let prefix = int_le_bytes((encoded.len() as usize) as i32 as int, 4);
        assert(levels == prefix + encoded);
        assert(payload.subrange(0, 4) =~= prefix);
        assert(payload.subrange(4, 4 + encoded.len() as int) =~= encoded);
        assert(encoded.subrange(header.len() as int, encoded.len() as int) =~= packed);
        assert(payload.subrange(4 + encoded.len() as int, payload.len() as int) =~= values);
        assert(read_def_levels(payload, n, is_optional) == (present, 4 + encoded.len() as int));
        lemma_read_plain(array, present, 0);
    } else {
        let all = Seq::new(n, |i: int| true);
        assert(levels =~= Seq::<u8>::empty());
        assert(payload.subrange(0, payload.len() as int) =~= values);
        lemma_read_plain(array, all, 0);
    }
    assert(present.subrange(0, n as int) =~= present);
    assert(Seq::new(n, |i: int| true).subrange(0, n as int) =~= Seq::new(n, |i: int| true));
    assert(page_slots(array).subrange(0, n as int) =~= page_slots(array));
}

} // verus!
