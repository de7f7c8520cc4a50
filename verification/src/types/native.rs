//! Native types: values of a fixed width that can be written to and read from bytes.
use vstd::prelude::*;
use super::PrimitiveType;
use super::bytes::{
    le_signed, be_signed, int_le_bytes, int_be_bytes, lemma_int_bytes_round_trip, pow256,
    i16_to_le, i16_to_be, i16_from_le, i16_from_be,
    i32_to_le, i32_to_be, i32_from_le, i32_from_be,
    i64_to_le, i64_to_be, i64_from_le, i64_from_be,
    i128_to_le, i128_to_be, i128_from_le, i128_from_be,
};

verus! {

/// A physical type that can be stored in a fixed-width slot and converted
/// to and from its bytes in either byte order.
pub trait NativeType: Copy + Sized {
    /// Type denoting its representation as bytes: `[u8; N]` with `N` the width.
    type Bytes;

    /// The corresponding variant of [`PrimitiveType`].
    spec fn primitive_type() -> PrimitiveType;

    /// The bytes held by a value of [`Self::Bytes`].
    spec fn bytes_view(bytes: Self::Bytes) -> Seq<u8>;

    /// The little-endian representation of the value.
    spec fn le_bytes(self) -> Seq<u8>;

    /// The big-endian representation of the value.
    spec fn be_bytes(self) -> Seq<u8>;

    /// Whether reading `bytes` as little-endian gives `self`.
    spec fn is_le_value(self, bytes: Seq<u8>) -> bool;

    /// Whether reading `bytes` as big-endian gives `self`.
    spec fn is_be_value(self, bytes: Seq<u8>) -> bool;

    /// The corresponding variant of [`PrimitiveType`].
    fn primitive() -> (p: PrimitiveType)
        ensures
            p == Self::primitive_type(),
    ;

    /// To bytes in little endian
    fn to_le_bytes(&self) -> (bytes: Self::Bytes)
        ensures
            Self::bytes_view(bytes) == self.le_bytes(),
    ;

    /// To bytes in big endian
    fn to_be_bytes(&self) -> (bytes: Self::Bytes)
        ensures
            Self::bytes_view(bytes) == self.be_bytes(),
    ;

    /// From bytes in little endian
    fn from_le_bytes(bytes: Self::Bytes) -> (value: Self)
        ensures
            value.is_le_value(Self::bytes_view(bytes)),
    ;

    /// From bytes in big endian
    fn from_be_bytes(bytes: Self::Bytes) -> (value: Self)
        ensures
            value.is_be_value(Self::bytes_view(bytes)),
    ;
}

impl NativeType for i16 {
    type Bytes = [u8; 2];

    open spec fn primitive_type() -> PrimitiveType {
        PrimitiveType::Int16
    }

    open spec fn bytes_view(bytes: [u8; 2]) -> Seq<u8> {
        bytes@
    }

    open spec fn le_bytes(self) -> Seq<u8> {
        int_le_bytes(self as int, 2)
    }

    open spec fn be_bytes(self) -> Seq<u8> {
        int_be_bytes(self as int, 2)
    }

    open spec fn is_le_value(self, bytes: Seq<u8>) -> bool {
        self == le_signed(bytes) as i16
    }

    open spec fn is_be_value(self, bytes: Seq<u8>) -> bool {
        self == be_signed(bytes) as i16
    }

    fn primitive() -> (p: PrimitiveType) {
        PrimitiveType::Int16
    }

    #[inline]
    fn to_le_bytes(&self) -> (bytes: [u8; 2]) {
        i16_to_le(*self)
    }

    #[inline]
    fn to_be_bytes(&self) -> (bytes: [u8; 2]) {
        i16_to_be(*self)
    }

    #[inline]
    fn from_le_bytes(bytes: [u8; 2]) -> (value: i16) {
        i16_from_le(bytes)
    }

    #[inline]
    fn from_be_bytes(bytes: [u8; 2]) -> (value: i16) {
        i16_from_be(bytes)
    }
}

impl NativeType for i32 {
    type Bytes = [u8; 4];

    open spec fn primitive_type() -> PrimitiveType {
        PrimitiveType::Int32
    }

    open spec fn bytes_view(bytes: [u8; 4]) -> Seq<u8> {
        bytes@
    }

    open spec fn le_bytes(self) -> Seq<u8> {
        int_le_bytes(self as int, 4)
    }

    open spec fn be_bytes(self) -> Seq<u8> {
        int_be_bytes(self as int, 4)
    }

    open spec fn is_le_value(self, bytes: Seq<u8>) -> bool {
        self == le_signed(bytes) as i32
    }

    open spec fn is_be_value(self, bytes: Seq<u8>) -> bool {
        self == be_signed(bytes) as i32
    }

    fn primitive() -> (p: PrimitiveType) {
        PrimitiveType::Int32
    }

    #[inline]
    fn to_le_bytes(&self) -> (bytes: [u8; 4]) {
        i32_to_le(*self)
    }

    #[inline]
    fn to_be_bytes(&self) -> (bytes: [u8; 4]) {
        i32_to_be(*self)
    }

    #[inline]
    fn from_le_bytes(bytes: [u8; 4]) -> (value: i32) {
        i32_from_le(bytes)
    }

    #[inline]
    fn from_be_bytes(bytes: [u8; 4]) -> (value: i32) {
        i32_from_be(bytes)
    }
}

impl NativeType for i64 {
    type Bytes = [u8; 8];

    open spec fn primitive_type() -> PrimitiveType {
        PrimitiveType::Int64
    }

    open spec fn bytes_view(bytes: [u8; 8]) -> Seq<u8> {
        bytes@
    }

    open spec fn le_bytes(self) -> Seq<u8> {
        int_le_bytes(self as int, 8)
    }

    open spec fn be_bytes(self) -> Seq<u8> {
        int_be_bytes(self as int, 8)
    }

    open spec fn is_le_value(self, bytes: Seq<u8>) -> bool {
        self == le_signed(bytes) as i64
    }

    open spec fn is_be_value(self, bytes: Seq<u8>) -> bool {
        self == be_signed(bytes) as i64
    }

    fn primitive() -> (p: PrimitiveType) {
        PrimitiveType::Int64
    }

    #[inline]
    fn to_le_bytes(&self) -> (bytes: [u8; 8]) {
        i64_to_le(*self)
    }

    #[inline]
    fn to_be_bytes(&self) -> (bytes: [u8; 8]) {
        i64_to_be(*self)
    }

    #[inline]
    fn from_le_bytes(bytes: [u8; 8]) -> (value: i64) {
        i64_from_le(bytes)
    }

    #[inline]
    fn from_be_bytes(bytes: [u8; 8]) -> (value: i64) {
        i64_from_be(bytes)
    }
}

impl NativeType for i128 {
    type Bytes = [u8; 16];

    open spec fn primitive_type() -> PrimitiveType {
        PrimitiveType::Int128
    }

    open spec fn bytes_view(bytes: [u8; 16]) -> Seq<u8> {
        bytes@
    }

    open spec fn le_bytes(self) -> Seq<u8> {
        int_le_bytes(self as int, 16)
    }

    open spec fn be_bytes(self) -> Seq<u8> {
        int_be_bytes(self as int, 16)
    }

    open spec fn is_le_value(self, bytes: Seq<u8>) -> bool {
        self == le_signed(bytes) as i128
    }

    open spec fn is_be_value(self, bytes: Seq<u8>) -> bool {
        self == be_signed(bytes) as i128
    }

    fn primitive() -> (p: PrimitiveType) {
        PrimitiveType::Int128
    }

    #[inline]
    fn to_le_bytes(&self) -> (bytes: [u8; 16]) {
        i128_to_le(*self)
    }

    #[inline]
    fn to_be_bytes(&self) -> (bytes: [u8; 16]) {
        i128_to_be(*self)
    }

    #[inline]
    fn from_le_bytes(bytes: [u8; 16]) -> (value: i128) {
        i128_from_le(bytes)
    }

    #[inline]
    fn from_be_bytes(bytes: [u8; 16]) -> (value: i128) {
        i128_from_be(bytes)
    }
}

/// The in-memory representation of the DayMillisecond variant of the "Interval" logical type.
#[derive(Debug, Copy, Clone, PartialEq, Eq, Structural, Hash)]
#[allow(non_camel_case_types)]
pub struct days_ms(pub i32, pub i32);

impl days_ms {
    /// A new [`days_ms`].
    #[inline]
    pub fn new(days: i32, milliseconds: i32) -> (r: Self)
        ensures
            r == days_ms(days, milliseconds),
    {
        Self(days, milliseconds)
    }

    /// The number of days
    #[inline]
    pub fn days(&self) -> (d: i32)
        ensures
            d == self.0,
    {
        self.0
    }

    /// The number of milliseconds
    #[inline]
    pub fn milliseconds(&self) -> (ms: i32)
        ensures
            ms == self.1,
    {
        self.1
    }
}

impl Default for days_ms {
    fn default() -> (r: Self)
        ensures
            r == days_ms(0, 0),
    {
        days_ms(0, 0)
    }
}

impl NativeType for days_ms {
    type Bytes = [u8; 8];

    open spec fn primitive_type() -> PrimitiveType {
        PrimitiveType::DaysMs
    }

    open spec fn bytes_view(bytes: [u8; 8]) -> Seq<u8> {
        bytes@
    }

    /// Days come first, then milliseconds, each little-endian.
    open spec fn le_bytes(self) -> Seq<u8> {
        int_le_bytes(self.0 as int, 4) + int_le_bytes(self.1 as int, 4)
    }

    /// Days come first, then milliseconds, each big-endian.
    open spec fn be_bytes(self) -> Seq<u8> {
        int_be_bytes(self.0 as int, 4) + int_be_bytes(self.1 as int, 4)
    }

    open spec fn is_le_value(self, bytes: Seq<u8>) -> bool {
        self == days_ms(
            le_signed(bytes.subrange(0, 4)) as i32,
            le_signed(bytes.subrange(4, 8)) as i32,
        )
    }

    open spec fn is_be_value(self, bytes: Seq<u8>) -> bool {
        self == days_ms(
            be_signed(bytes.subrange(0, 4)) as i32,
            be_signed(bytes.subrange(4, 8)) as i32,
        )
    }

    fn primitive() -> (p: PrimitiveType) {
        PrimitiveType::DaysMs
    }

    #[inline]
    fn to_le_bytes(&self) -> (bytes: [u8; 8]) {
        let days = i32_to_le(self.0);
        let ms = i32_to_le(self.1);
        let result = [days[0], days[1], days[2], days[3], ms[0], ms[1], ms[2], ms[3]];
        proof {
            assert(result@ =~= days@ + ms@);
        }
        result
    }

    #[inline]
    fn to_be_bytes(&self) -> (bytes: [u8; 8]) {
        let days = i32_to_be(self.0);
        let ms = i32_to_be(self.1);
        let result = [days[0], days[1], days[2], days[3], ms[0], ms[1], ms[2], ms[3]];
        proof {
            assert(result@ =~= days@ + ms@);
        }
        result
    }

    #[inline]
    fn from_le_bytes(bytes: [u8; 8]) -> (value: days_ms) {
        let days = [bytes[0], bytes[1], bytes[2], bytes[3]];
        let ms = [bytes[4], bytes[5], bytes[6], bytes[7]];
        proof {
            assert(days@ =~= bytes@.subrange(0, 4));
            assert(ms@ =~= bytes@.subrange(4, 8));
        }
        Self(i32_from_le(days), i32_from_le(ms))
    }

    #[inline]
    fn from_be_bytes(bytes: [u8; 8]) -> (value: days_ms) {
        let days = [bytes[0], bytes[1], bytes[2], bytes[3]];
        let ms = [bytes[4], bytes[5], bytes[6], bytes[7]];
        proof {
            assert(days@ =~= bytes@.subrange(0, 4));
            assert(ms@ =~= bytes@.subrange(4, 8));
        }
        Self(i32_from_be(days), i32_from_be(ms))
    }
}

/// The in-memory representation of the MonthDayNano variant of the "Interval" logical type.
#[derive(Debug, Copy, Clone, PartialEq, Eq, Structural, Hash)]
#[allow(non_camel_case_types)]
pub struct months_days_ns(pub i32, pub i32, pub i64);

impl months_days_ns {
    /// A new [`months_days_ns`].
    #[inline]
    pub fn new(months: i32, days: i32, nanoseconds: i64) -> (r: Self)
        ensures
            r == months_days_ns(months, days, nanoseconds),
    {
        Self(months, days, nanoseconds)
    }

    /// The number of months
    #[inline]
    pub fn months(&self) -> (m: i32)
        ensures
            m == self.0,
    {
        self.0
    }

    /// The number of days
    #[inline]
    pub fn days(&self) -> (d: i32)
        ensures
            d == self.1,
    {
        self.1
    }

    /// The number of nanoseconds
    #[inline]
    pub fn ns(&self) -> (n: i64)
        ensures
            n == self.2,
    {
        self.2
    }
}

impl Default for months_days_ns {
    fn default() -> (r: Self)
        ensures
            r == months_days_ns(0, 0, 0),
    {
        months_days_ns(0, 0, 0)
    }
}

impl NativeType for months_days_ns {
    type Bytes = [u8; 16];

    open spec fn primitive_type() -> PrimitiveType {
        PrimitiveType::MonthDayNano
    }

    open spec fn bytes_view(bytes: [u8; 16]) -> Seq<u8> {
        bytes@
    }

    /// Months, days and nanoseconds in this order, each little-endian.
    open spec fn le_bytes(self) -> Seq<u8> {
        int_le_bytes(self.0 as int, 4) + int_le_bytes(self.1 as int, 4) + int_le_bytes(
            self.2 as int,
            8,
        )
    }

    /// Months, days and nanoseconds in this order, each big-endian.
    open spec fn be_bytes(self) -> Seq<u8> {
        int_be_bytes(self.0 as int, 4) + int_be_bytes(self.1 as int, 4) + int_be_bytes(
            self.2 as int,
            8,
        )
    }

    open spec fn is_le_value(self, bytes: Seq<u8>) -> bool {
        self == months_days_ns(
            le_signed(bytes.subrange(0, 4)) as i32,
            le_signed(bytes.subrange(4, 8)) as i32,
            le_signed(bytes.subrange(8, 16)) as i64,
        )
    }

    open spec fn is_be_value(self, bytes: Seq<u8>) -> bool {
        self == months_days_ns(
            be_signed(bytes.subrange(0, 4)) as i32,
            be_signed(bytes.subrange(4, 8)) as i32,
            be_signed(bytes.subrange(8, 16)) as i64,
        )
    }

    fn primitive() -> (p: PrimitiveType) {
        PrimitiveType::MonthDayNano
    }

    #[inline]
    fn to_le_bytes(&self) -> (bytes: [u8; 16]) {
        let months = i32_to_le(self.months());
        let days = i32_to_le(self.days());
        let ns = i64_to_le(self.ns());
        let result = [
            months[0], months[1], months[2], months[3],
            days[0], days[1], days[2], days[3],
            ns[0], ns[1], ns[2], ns[3], ns[4], ns[5], ns[6], ns[7],
        ];
        proof {
            assert(result@ =~= months@ + days@ + ns@);
        }
        result
    }

    #[inline]
    fn to_be_bytes(&self) -> (bytes: [u8; 16]) {
        let months = i32_to_be(self.months());
        let days = i32_to_be(self.days());
        let ns = i64_to_be(self.ns());
        let result = [
            months[0], months[1], months[2], months[3],
            days[0], days[1], days[2], days[3],
            ns[0], ns[1], ns[2], ns[3], ns[4], ns[5], ns[6], ns[7],
        ];
        proof {
            assert(result@ =~= months@ + days@ + ns@);
        }
        result
    }

    #[inline]
    fn from_le_bytes(bytes: [u8; 16]) -> (value: months_days_ns) {
        let months = [bytes[0], bytes[1], bytes[2], bytes[3]];
        let days = [bytes[4], bytes[5], bytes[6], bytes[7]];
        let ns = [bytes[8], bytes[9], bytes[10], bytes[11], bytes[12], bytes[13], bytes[14], bytes[15]];
        proof {
            assert(months@ =~= bytes@.subrange(0, 4));
            assert(days@ =~= bytes@.subrange(4, 8));
            assert(ns@ =~= bytes@.subrange(8, 16));
        }
        Self(i32_from_le(months), i32_from_le(days), i64_from_le(ns))
    }

    #[inline]
    fn from_be_bytes(bytes: [u8; 16]) -> (value: months_days_ns) {
        let months = [bytes[0], bytes[1], bytes[2], bytes[3]];
        let days = [bytes[4], bytes[5], bytes[6], bytes[7]];
        let ns = [bytes[8], bytes[9], bytes[10], bytes[11], bytes[12], bytes[13], bytes[14], bytes[15]];
        proof {
            assert(months@ =~= bytes@.subrange(0, 4));
            assert(days@ =~= bytes@.subrange(4, 8));
            assert(ns@ =~= bytes@.subrange(8, 16));
        }
        Self(i32_from_be(months), i32_from_be(days), i64_from_be(ns))
    }
}

/// The two signed words, high then low, of a 256-bit integer.
pub uninterp spec fn i256_words(value: ethnum::I256) -> (i128, i128);

/// `ethnum::I256`, a signed integer of 256 bits, carried as an opaque value.
#[verifier::external_type_specification]
#[verifier::external_body]
pub struct ExI256(ethnum::I256);

/// Calls `ethnum::I256::from_words`: the integer whose high and low words are the arguments.
#[verifier::external_body]
fn words_to_i256(hi: i128, lo: i128) -> (value: ethnum::I256)
    ensures
        i256_words(value) == (hi, lo),
{
    ethnum::I256::from_words(hi, lo)
}

/// Calls `ethnum::I256::into_words`: the high and the low word of the integer.
#[verifier::external_body]
fn i256_to_words(value: ethnum::I256) -> (words: (i128, i128))
    ensures
        words == i256_words(value),
{
    value.into_words()
}

/// Physical representation of a decimal
#[derive(Clone, Copy)]
#[allow(non_camel_case_types)]
pub struct i256(pub ethnum::I256);

impl i256 {
    /// The high word of the integer.
    pub open spec fn hi(self) -> i128 {
        i256_words(self.0).0
    }

    /// The low word of the integer.
    pub open spec fn lo(self) -> i128 {
        i256_words(self.0).1
    }

    /// Returns a new [`i256`] from two `i128`.
    pub fn from_words(hi: i128, lo: i128) -> (r: Self)
        ensures
            r.hi() == hi,
            r.lo() == lo,
    {
        Self(words_to_i256(hi, lo))
    }

    /// The high and the low word.
    pub fn into_words(self) -> (words: (i128, i128))
        ensures
            words == (self.hi(), self.lo()),
    {
        i256_to_words(self.0)
    }
}

impl NativeType for i256 {
    type Bytes = [u8; 32];

    open spec fn primitive_type() -> PrimitiveType {
        PrimitiveType::Int256
    }

    open spec fn bytes_view(bytes: [u8; 32]) -> Seq<u8> {
        bytes@
    }

    /// The high word comes first, then the low word, each little-endian.
    open spec fn le_bytes(self) -> Seq<u8> {
        int_le_bytes(self.hi() as int, 16) + int_le_bytes(self.lo() as int, 16)
    }

    /// The high word comes first, then the low word, each big-endian.
    open spec fn be_bytes(self) -> Seq<u8> {
        int_be_bytes(self.hi() as int, 16) + int_be_bytes(self.lo() as int, 16)
    }

    /// The low word is read from the first half, the high word from the second.
    open spec fn is_le_value(self, bytes: Seq<u8>) -> bool {
        &&& self.hi() == le_signed(bytes.subrange(16, 32)) as i128
        &&& self.lo() == le_signed(bytes.subrange(0, 16)) as i128
    }

    /// The high word is read from the first half, the low word from the second.
    open spec fn is_be_value(self, bytes: Seq<u8>) -> bool {
        &&& self.hi() == be_signed(bytes.subrange(0, 16)) as i128
        &&& self.lo() == be_signed(bytes.subrange(16, 32)) as i128
    }

    fn primitive() -> (p: PrimitiveType) {
        PrimitiveType::Int256
    }

    #[inline]
    fn to_le_bytes(&self) -> (bytes: [u8; 32]) {
        let (a, b) = self.into_words();
        let a = i128_to_le(a);
        let b = i128_to_le(b);
        let result = [
            a[0], a[1], a[2], a[3], a[4], a[5], a[6], a[7], a[8], a[9], a[10], a[11], a[12], a[13], a[14], a[15],
            b[0], b[1], b[2], b[3], b[4], b[5], b[6], b[7], b[8], b[9], b[10], b[11], b[12], b[13], b[14], b[15],
        ];
        proof {
            assert(result@ =~= a@ + b@);
        }
        result
    }

    #[inline]
    fn to_be_bytes(&self) -> (bytes: [u8; 32]) {
        let (a, b) = self.into_words();
        let a = i128_to_be(a);
        let b = i128_to_be(b);
        let result = [
            a[0], a[1], a[2], a[3], a[4], a[5], a[6], a[7], a[8], a[9], a[10], a[11], a[12], a[13], a[14], a[15],
            b[0], b[1], b[2], b[3], b[4], b[5], b[6], b[7], b[8], b[9], b[10], b[11], b[12], b[13], b[14], b[15],
        ];
        proof {
            assert(result@ =~= a@ + b@);
        }
        result
    }

    #[inline]
    fn from_be_bytes(bytes: [u8; 32]) -> (value: i256) {
        let a = [bytes[0], bytes[1], bytes[2], bytes[3], bytes[4], bytes[5], bytes[6], bytes[7], bytes[8], bytes[9], bytes[10], bytes[11], bytes[12], bytes[13], bytes[14], bytes[15]];
        let b = [bytes[16], bytes[17], bytes[18], bytes[19], bytes[20], bytes[21], bytes[22], bytes[23], bytes[24], bytes[25], bytes[26], bytes[27], bytes[28], bytes[29], bytes[30], bytes[31]];
        proof {
            assert(a@ =~= bytes@.subrange(0, 16));
            assert(b@ =~= bytes@.subrange(16, 32));
        }
        let a = i128_from_be(a);
        let b = i128_from_be(b);
        Self::from_words(a, b)
    }

    #[inline]
    fn from_le_bytes(bytes: [u8; 32]) -> (value: i256) {
        let b = [bytes[0], bytes[1], bytes[2], bytes[3], bytes[4], bytes[5], bytes[6], bytes[7], bytes[8], bytes[9], bytes[10], bytes[11], bytes[12], bytes[13], bytes[14], bytes[15]];
        let a = [bytes[16], bytes[17], bytes[18], bytes[19], bytes[20], bytes[21], bytes[22], bytes[23], bytes[24], bytes[25], bytes[26], bytes[27], bytes[28], bytes[29], bytes[30], bytes[31]];
        proof {
            assert(b@ =~= bytes@.subrange(0, 16));
            assert(a@ =~= bytes@.subrange(16, 32));
        }
        let a = i128_from_le(a);
        let b = i128_from_le(b);
        Self::from_words(a, b)
    }
}

impl core::ops::Neg for days_ms {
    type Output = Self;

    /// Both counts negated. Neither may be the least `i32`.
    #[inline(always)]
    fn neg(self) -> (r: Self) {
        Self::new(-self.days(), -self.milliseconds())
    }
}

impl vstd::std_specs::ops::NegSpecImpl for days_ms {
    open spec fn obeys_neg_spec() -> bool {
        true
    }

    open spec fn neg_req(self) -> bool {
        self.0 > i32::MIN && self.1 > i32::MIN
    }

    open spec fn neg_spec(self) -> days_ms {
        days_ms((-self.0) as i32, (-self.1) as i32)
    }
}

impl core::ops::Neg for months_days_ns {
    type Output = Self;

    /// The three counts negated. None may be the least value of its type.
    #[inline(always)]
    fn neg(self) -> (r: Self) {
        Self::new(-self.months(), -self.days(), -self.ns())
    }
}

impl vstd::std_specs::ops::NegSpecImpl for months_days_ns {
    open spec fn obeys_neg_spec() -> bool {
        true
    }

    open spec fn neg_req(self) -> bool {
        self.0 > i32::MIN && self.1 > i32::MIN && self.2 > i64::MIN
    }

    open spec fn neg_spec(self) -> months_days_ns {
        months_days_ns((-self.0) as i32, (-self.1) as i32, (-self.2) as i64)
    }
}

impl core::ops::Neg for i256 {
    type Output = Self;

    /// The high word negated, the low word kept. The high word may not be
    /// the least `i128`.
    #[inline]
    fn neg(self) -> (r: Self)
        ensures
            r.hi() == -self.hi(),
            r.lo() == self.lo(),
    {
        let (a, b) = self.into_words();
        Self::from_words(-a, b)
    }
}

impl vstd::std_specs::ops::NegSpecImpl for i256 {
    open spec fn obeys_neg_spec() -> bool {
        false
    }

    open spec fn neg_req(self) -> bool {
        self.hi() > i128::MIN
    }

    open spec fn neg_spec(self) -> i256 {
        self
    }
}

/// What the integers of 4, 8 and 16 bytes are read back as from their bytes.
proof fn lemma_words_round_trip(a: i32, b: i64, c: i128)
    ensures
        le_signed(int_le_bytes(a as int, 4)) == a,
        be_signed(int_be_bytes(a as int, 4)) == a,
        le_signed(int_le_bytes(b as int, 8)) == b,
        be_signed(int_be_bytes(b as int, 8)) == b,
        le_signed(int_le_bytes(c as int, 16)) == c,
        be_signed(int_be_bytes(c as int, 16)) == c,
{
    reveal_with_fuel(pow256, 17);
    assert(pow256(4) == 0x1_0000_0000int);
    assert(pow256(8) == 0x1_0000_0000_0000_0000int);
    assert(pow256(16) == 0x1_0000_0000_0000_0000_0000_0000_0000_0000int);
    lemma_int_bytes_round_trip(a as int, 4);
    lemma_int_bytes_round_trip(b as int, 8);
    lemma_int_bytes_round_trip(c as int, 16);
}

/// The round trip of a [`days_ms`] through its bytes: the bytes of a value,
/// in either order, are read back as the value.
pub proof fn lemma_days_ms_round_trip(value: days_ms)
    ensures
        value.is_le_value(value.le_bytes()),
        value.is_be_value(value.be_bytes()),
{
    lemma_words_round_trip(value.0, 0, 0);
    lemma_words_round_trip(value.1, 0, 0);
    let le = value.le_bytes();
    assert(le.subrange(0, 4) =~= int_le_bytes(value.0 as int, 4));
    assert(le.subrange(4, 8) =~= int_le_bytes(value.1 as int, 4));
    let be = value.be_bytes();
    assert(be.subrange(0, 4) =~= int_be_bytes(value.0 as int, 4));
    assert(be.subrange(4, 8) =~= int_be_bytes(value.1 as int, 4));
}

/// The round trip of a [`months_days_ns`] through its bytes: the bytes of a
/// value, in either order, are read back as the value.
pub proof fn lemma_months_days_ns_round_trip(value: months_days_ns)
    ensures
        value.is_le_value(value.le_bytes()),
        value.is_be_value(value.be_bytes()),
{
    lemma_words_round_trip(value.0, value.2, 0);
    lemma_words_round_trip(value.1, 0, 0);
    let le = value.le_bytes();
    assert(le.subrange(0, 4) =~= int_le_bytes(value.0 as int, 4));
    assert(le.subrange(4, 8) =~= int_le_bytes(value.1 as int, 4));
    assert(le.subrange(8, 16) =~= int_le_bytes(value.2 as int, 8));
    let be = value.be_bytes();
    assert(be.subrange(0, 4) =~= int_be_bytes(value.0 as int, 4));
    assert(be.subrange(4, 8) =~= int_be_bytes(value.1 as int, 4));
    assert(be.subrange(8, 16) =~= int_be_bytes(value.2 as int, 8));
}

/// The round trip of an [`i256`] through its bytes: the big-endian bytes of
/// a value are read back as the value. The little-endian bytes are read
/// back with the two words exchanged, for they are written high word first
/// and read low word first.
pub proof fn lemma_i256_round_trip(value: i256, read: i256)
    ensures
        value.is_be_value(value.be_bytes()),
        read.is_le_value(value.le_bytes()) ==> read.hi() == value.lo() && read.lo() == value.hi(),
{
    lemma_words_round_trip(0, 0, value.hi());
    lemma_words_round_trip(0, 0, value.lo());
    let le = value.le_bytes();
    assert(le.subrange(0, 16) =~= int_le_bytes(value.hi() as int, 16));
    assert(le.subrange(16, 32) =~= int_le_bytes(value.lo() as int, 16));
    let be = value.be_bytes();
    assert(be.subrange(0, 16) =~= int_be_bytes(value.hi() as int, 16));
    assert(be.subrange(16, 32) =~= int_be_bytes(value.lo() as int, 16));
}

} // verus!
