//! Byte-order models of fixed-width integers, and the conversions between
//! integers and their bytes in either order.
use vstd::prelude::*;
use vstd::arithmetic::div_mod::{
    lemma_breakdown, lemma_hoist_over_denominator, lemma_mod_multiples_vanish, lemma_small_mod,
};

verus! {

/// `256^k`.
pub open spec fn pow256(k: nat) -> int
    decreases k,
{
    if k == 0 {
        1
    } else {
        256 * pow256((k - 1) as nat)
    }
}

/// Byte `k` of the two's-complement representation of `v`, byte 0 being the
/// least significant.
pub open spec fn byte_at(v: int, k: nat) -> u8 {
    ((v / pow256(k)) % 256) as u8
}

/// The `n` little-endian bytes of the two's-complement representation of `v`.
pub open spec fn int_le_bytes(v: int, n: nat) -> Seq<u8> {
    Seq::new(n, |k: int| byte_at(v, k as nat))
}

/// The `n` big-endian bytes of the two's-complement representation of `v`.
pub open spec fn int_be_bytes(v: int, n: nat) -> Seq<u8> {
    Seq::new(n, |k: int| byte_at(v, (n - 1 - k) as nat))
}

/// The unsigned integer whose first `n` digits in base 256, the least
/// significant first, are the first `n` bytes of `s`.
pub open spec fn le_digits(s: Seq<u8>, n: nat) -> int
    decreases n,
{
    if n == 0 {
        0
    } else {
        le_digits(s, (n - 1) as nat) + s[n - 1] * pow256((n - 1) as nat)
    }
}

/// The unsigned integer whose little-endian digits in base 256 are `s`.
pub open spec fn le_unsigned(s: Seq<u8>) -> int {
    le_digits(s, s.len())
}

/// Two's-complement reading of an unsigned value of `n` bytes.
pub open spec fn twos_complement(u: int, n: nat) -> int {
    if 2 * u >= pow256(n) {
        u - pow256(n)
    } else {
        u
    }
}

/// The signed integer whose little-endian two's-complement bytes are `s`.
pub open spec fn le_signed(s: Seq<u8>) -> int {
    twos_complement(le_unsigned(s), s.len())
}

/// The signed integer whose big-endian two's-complement bytes are `s`.
pub open spec fn be_signed(s: Seq<u8>) -> int {
    le_signed(s.reverse())
}

/// Adding a multiple of `256 * c` leaves the byte at place `c` as it is.
proof fn lemma_byte_shift(x: int, c: int, m: int)
    requires
        c > 0,
    ensures
        ((x + c * (256 * m)) / c) % 256 == (x / c) % 256,
{
    lemma_hoist_over_denominator(x, 256 * m, c as nat);
    assert(x + (256 * m) * c == x + c * (256 * m)) by (nonlinear_arith);
    lemma_mod_multiples_vanish(m, x / c, 256);
}

/// The powers of 256 are positive.
pub proof fn lemma_pow256_positive(k: nat)
    ensures
        pow256(k) > 0,
    decreases k,
{
    if k > 0 {
        lemma_pow256_positive((k - 1) as nat);
    }
}

/// `256^(a + b)` is `256^a * 256^b`.
pub proof fn lemma_pow256_add(a: nat, b: nat)
    ensures
        pow256(a) > 0,
        pow256(b) > 0,
        pow256(a + b) == pow256(a) * pow256(b),
    decreases b,
{
    lemma_pow256_positive(a);
    lemma_pow256_positive(b);
    if b > 0 {
        lemma_pow256_add(a, (b - 1) as nat);
        assert(256 * (pow256(a) * pow256((b - 1) as nat)) == pow256(a) * (256 * pow256(
            (b - 1) as nat,
        ))) by (nonlinear_arith);
    } else {
        assert(pow256(a) * 1 == pow256(a));
    }
}

/// The first `k` little-endian bytes of a number that is not negative hold
/// the number modulo `256^k`.
pub proof fn lemma_le_digits(x: int, n: nat, k: nat)
    requires
        0 <= x,
        k <= n,
    ensures
        pow256(k) > 0,
        le_digits(int_le_bytes(x, n), k) == x % pow256(k),
    decreases k,
{
    let s = int_le_bytes(x, n);
    lemma_pow256_add(k, 0);
    if k > 0 {
        let j = (k - 1) as nat;
        lemma_le_digits(x, n, j);
        lemma_pow256_add(j, 1);
        assert(pow256(1) == 256) by {
            reveal_with_fuel(pow256, 2);
        }
        lemma_breakdown(x, pow256(j), 256);
        assert(s[j as int] == byte_at(x, j));
        assert(0 <= (x / pow256(j)) % 256 < 256);
        assert(s[j as int] * pow256(j) == pow256(j) * ((x / pow256(j)) % 256)) by (nonlinear_arith)
            requires
                s[j as int] == (x / pow256(j)) % 256,
        ;
    }
}

/// The bytes of a number are those of the number plus `256^n`.
pub proof fn lemma_le_bytes_shift(x: int, n: nat)
    ensures
        int_le_bytes(x + pow256(n), n) == int_le_bytes(x, n),
{
    let shifted = int_le_bytes(x + pow256(n), n);
    assert forall|k: int| 0 <= k < n implies #[trigger] shifted[k] == int_le_bytes(x, n)[k] by {
        let rest = (n - 1 - k) as nat;
        lemma_pow256_add(k as nat, 1);
        lemma_pow256_add((k + 1) as nat, rest);
        assert(pow256(1) == 256) by {
            reveal_with_fuel(pow256, 2);
        }
        let c = pow256(k as nat);
        assert(pow256(n) == c * (256 * pow256(rest))) by (nonlinear_arith)
            requires
                pow256(n) == (c * 256) * pow256(rest),
        ;
        lemma_byte_shift(x, c, pow256(rest));
    }
    assert(int_le_bytes(x + pow256(n), n) =~= int_le_bytes(x, n));
}

/// The round trip of an integer through its bytes: the bytes of an integer
/// that `n` bytes can hold, in either order, are read back as the integer.
pub proof fn lemma_int_bytes_round_trip(x: int, n: nat)
    requires
        -pow256(n) <= 2 * x < pow256(n),
    ensures
        le_signed(int_le_bytes(x, n)) == x,
        be_signed(int_be_bytes(x, n)) == x,
{
    lemma_pow256_add(n, 0);
    if x >= 0 {
        lemma_le_digits(x, n, n);
        lemma_small_mod(x as nat, pow256(n) as nat);
    } else {
        let y = x + pow256(n);
        lemma_le_bytes_shift(x, n);
        lemma_le_digits(y, n, n);
        lemma_small_mod(y as nat, pow256(n) as nat);
    }
    assert(int_be_bytes(x, n).reverse() =~= int_le_bytes(x, n));
}

/// The powers of 256 up to the sixteenth.
proof fn lemma_pow256()
    ensures
        pow256(0) == 0x1int,
        pow256(1) == 0x100int,
        pow256(2) == 0x1_0000int,
        pow256(3) == 0x100_0000int,
        pow256(4) == 0x1_0000_0000int,
        pow256(5) == 0x100_0000_0000int,
        pow256(6) == 0x1_0000_0000_0000int,
        pow256(7) == 0x100_0000_0000_0000int,
        pow256(8) == 0x1_0000_0000_0000_0000int,
        pow256(9) == 0x100_0000_0000_0000_0000int,
        pow256(10) == 0x1_0000_0000_0000_0000_0000int,
        pow256(11) == 0x100_0000_0000_0000_0000_0000int,
        pow256(12) == 0x1_0000_0000_0000_0000_0000_0000int,
        pow256(13) == 0x100_0000_0000_0000_0000_0000_0000int,
        pow256(14) == 0x1_0000_0000_0000_0000_0000_0000_0000int,
        pow256(15) == 0x100_0000_0000_0000_0000_0000_0000_0000int,
        pow256(16) == 0x1_0000_0000_0000_0000_0000_0000_0000_0000int,
{
    reveal_with_fuel(pow256, 17);
}

/// The 2 bytes of `x` in two's complement, the least significant first.
pub(crate) fn i16_to_le(x: i16) -> (b: [u8; 2])
    ensures
        b@ == int_le_bytes(x as int, 2),
{
    let u: u32 = if x >= 0 {
        x as u32
    } else {
        (x as i32 + 0x1_0000) as u32
    };
    let b = [
        (u % 256) as u8,
        ((u / 0x100) % 256) as u8,
    ];
    proof {
        lemma_pow256();
        let m: int = if x >= 0 {
            0
        } else {
            1
        };
        assert(b@[0] == byte_at(x as int, 0)) by {
            lemma_byte_shift(x as int, 1, 0x100int * m);
        }
        assert(b@[1] == byte_at(x as int, 1)) by {
            lemma_byte_shift(x as int, 0x100int, m);
        }
        assert(b@ =~= int_le_bytes(x as int, 2));
    }
    b
}

/// The 2 bytes of `x` in two's complement, the most significant first.
pub(crate) fn i16_to_be(x: i16) -> (b: [u8; 2])
    ensures
        b@ == int_be_bytes(x as int, 2),
{
    let u: u32 = if x >= 0 {
        x as u32
    } else {
        (x as i32 + 0x1_0000) as u32
    };
    let b = [
        ((u / 0x100) % 256) as u8,
        (u % 256) as u8,
    ];
    proof {
        lemma_pow256();
        let m: int = if x >= 0 {
            0
        } else {
            1
        };
        assert(b@[0] == byte_at(x as int, 1)) by {
            lemma_byte_shift(x as int, 0x100int, m);
        }
        assert(b@[1] == byte_at(x as int, 0)) by {
            lemma_byte_shift(x as int, 1, 0x100int * m);
        }
        assert(b@ =~= int_be_bytes(x as int, 2));
    }
    b
}

/// The integer whose bytes in two's complement, in little-endian order, are `b`.
pub(crate) fn i16_from_le(b: [u8; 2]) -> (x: i16)
    ensures
        x == le_signed(b@),
{
    let u: u32 = b[0] as u32 + 0x100 * (b[1] as u32);
    proof {
        lemma_pow256();
        let s = b@;
        assert(le_digits(s, 0) == 0);
        assert(le_digits(s, 1) == s[0]);
        assert(le_digits(s, 2) == le_digits(s, 1) + 0x100int * s[1]);
        assert(le_unsigned(s) == u);
    }
    if u >= 0x8000 {
        (u as i32 - 0x1_0000) as i16
    } else {
        u as i16
    }
}

/// The integer whose bytes in two's complement, in big-endian order, are `b`.
pub(crate) fn i16_from_be(b: [u8; 2]) -> (x: i16)
    ensures
        x == be_signed(b@),
{
    let u: u32 = b[1] as u32 + 0x100 * (b[0] as u32);
    proof {
        lemma_pow256();
        let s = b@.reverse();
        assert(s[0] == b@[1]);
        assert(s[1] == b@[0]);
        assert(le_digits(s, 0) == 0);
        assert(le_digits(s, 1) == s[0]);
        assert(le_digits(s, 2) == le_digits(s, 1) + 0x100int * s[1]);
        assert(le_unsigned(s) == u);
    }
    if u >= 0x8000 {
        (u as i32 - 0x1_0000) as i16
    } else {
        u as i16
    }
}

/// The 4 bytes of `x` in two's complement, the least significant first.
pub(crate) fn i32_to_le(x: i32) -> (b: [u8; 4])
    ensures
        b@ == int_le_bytes(x as int, 4),
{
    let u: u64 = if x >= 0 {
        x as u64
    } else {
        (x as i64 + 0x1_0000_0000) as u64
    };
    let b = [
        (u % 256) as u8,
        ((u / 0x100) % 256) as u8,
        ((u / 0x1_0000) % 256) as u8,
        ((u / 0x100_0000) % 256) as u8,
    ];
    proof {
        lemma_pow256();
        let m: int = if x >= 0 {
            0
        } else {
            1
        };
        assert(b@[0] == byte_at(x as int, 0)) by {
            lemma_byte_shift(x as int, 1, 0x100_0000int * m);
        }
        assert(b@[1] == byte_at(x as int, 1)) by {
            lemma_byte_shift(x as int, 0x100int, 0x1_0000int * m);
        }
        assert(b@[2] == byte_at(x as int, 2)) by {
            lemma_byte_shift(x as int, 0x1_0000int, 0x100int * m);
        }
        assert(b@[3] == byte_at(x as int, 3)) by {
            lemma_byte_shift(x as int, 0x100_0000int, m);
        }
        assert(b@ =~= int_le_bytes(x as int, 4));
    }
    b
}

/// The 4 bytes of `x` in two's complement, the most significant first.
pub(crate) fn i32_to_be(x: i32) -> (b: [u8; 4])
    ensures
        b@ == int_be_bytes(x as int, 4),
{
    let u: u64 = if x >= 0 {
        x as u64
    } else {
        (x as i64 + 0x1_0000_0000) as u64
    };
    let b = [
        ((u / 0x100_0000) % 256) as u8,
        ((u / 0x1_0000) % 256) as u8,
        ((u / 0x100) % 256) as u8,
        (u % 256) as u8,
    ];
    proof {
        lemma_pow256();
        let m: int = if x >= 0 {
            0
        } else {
            1
        };
        assert(b@[0] == byte_at(x as int, 3)) by {
            lemma_byte_shift(x as int, 0x100_0000int, m);
        }
        assert(b@[1] == byte_at(x as int, 2)) by {
            lemma_byte_shift(x as int, 0x1_0000int, 0x100int * m);
        }
        assert(b@[2] == byte_at(x as int, 1)) by {
            lemma_byte_shift(x as int, 0x100int, 0x1_0000int * m);
        }
        assert(b@[3] == byte_at(x as int, 0)) by {
            lemma_byte_shift(x as int, 1, 0x100_0000int * m);
        }
        assert(b@ =~= int_be_bytes(x as int, 4));
    }
    b
}

/// The integer whose bytes in two's complement, in little-endian order, are `b`.
pub(crate) fn i32_from_le(b: [u8; 4]) -> (x: i32)
    ensures
        x == le_signed(b@),
{
    let u: u64 = b[0] as u64
        + 0x100 * (b[1] as u64)
        + 0x1_0000 * (b[2] as u64)
        + 0x100_0000 * (b[3] as u64);
    proof {
        lemma_pow256();
        let s = b@;
        assert(le_digits(s, 0) == 0);
        assert(le_digits(s, 1) == s[0]);
        assert(le_digits(s, 2) == le_digits(s, 1) + 0x100int * s[1]);
        assert(le_digits(s, 3) == le_digits(s, 2) + 0x1_0000int * s[2]);
        assert(le_digits(s, 4) == le_digits(s, 3) + 0x100_0000int * s[3]);
        assert(le_unsigned(s) == u);
    }
    if u >= 0x8000_0000 {
        (u as i64 - 0x1_0000_0000) as i32
    } else {
        u as i32
    }
}

/// The integer whose bytes in two's complement, in big-endian order, are `b`.
pub(crate) fn i32_from_be(b: [u8; 4]) -> (x: i32)
    ensures
        x == be_signed(b@),
{
    let u: u64 = b[3] as u64
        + 0x100 * (b[2] as u64)
        + 0x1_0000 * (b[1] as u64)
        + 0x100_0000 * (b[0] as u64);
    proof {
        lemma_pow256();
        let s = b@.reverse();
        assert(s[0] == b@[3]);
        assert(s[1] == b@[2]);
        assert(s[2] == b@[1]);
        assert(s[3] == b@[0]);
        assert(le_digits(s, 0) == 0);
        assert(le_digits(s, 1) == s[0]);
        assert(le_digits(s, 2) == le_digits(s, 1) + 0x100int * s[1]);
        assert(le_digits(s, 3) == le_digits(s, 2) + 0x1_0000int * s[2]);
        assert(le_digits(s, 4) == le_digits(s, 3) + 0x100_0000int * s[3]);
        assert(le_unsigned(s) == u);
    }
    if u >= 0x8000_0000 {
        (u as i64 - 0x1_0000_0000) as i32
    } else {
        u as i32
    }
}

/// The 8 bytes of `x` in two's complement, the least significant first.
pub(crate) fn i64_to_le(x: i64) -> (b: [u8; 8])
    ensures
        b@ == int_le_bytes(x as int, 8),
{
    let u: u128 = if x >= 0 {
        x as u128
    } else {
        (x as i128 + 0x1_0000_0000_0000_0000) as u128
    };
    let b = [
        (u % 256) as u8,
        ((u / 0x100) % 256) as u8,
        ((u / 0x1_0000) % 256) as u8,
        ((u / 0x100_0000) % 256) as u8,
        ((u / 0x1_0000_0000) % 256) as u8,
        ((u / 0x100_0000_0000) % 256) as u8,
        ((u / 0x1_0000_0000_0000) % 256) as u8,
        ((u / 0x100_0000_0000_0000) % 256) as u8,
    ];
    proof {
        lemma_pow256();
        let m: int = if x >= 0 {
            0
        } else {
            1
        };
        assert(b@[0] == byte_at(x as int, 0)) by {
            lemma_byte_shift(x as int, 1, 0x100_0000_0000_0000int * m);
        }
        assert(b@[1] == byte_at(x as int, 1)) by {
            lemma_byte_shift(x as int, 0x100int, 0x1_0000_0000_0000int * m);
        }
        assert(b@[2] == byte_at(x as int, 2)) by {
            lemma_byte_shift(x as int, 0x1_0000int, 0x100_0000_0000int * m);
        }
        assert(b@[3] == byte_at(x as int, 3)) by {
            lemma_byte_shift(x as int, 0x100_0000int, 0x1_0000_0000int * m);
        }
        assert(b@[4] == byte_at(x as int, 4)) by {
            lemma_byte_shift(x as int, 0x1_0000_0000int, 0x100_0000int * m);
        }
        assert(b@[5] == byte_at(x as int, 5)) by {
            lemma_byte_shift(x as int, 0x100_0000_0000int, 0x1_0000int * m);
        }
        assert(b@[6] == byte_at(x as int, 6)) by {
            lemma_byte_shift(x as int, 0x1_0000_0000_0000int, 0x100int * m);
        }
        assert(b@[7] == byte_at(x as int, 7)) by {
            lemma_byte_shift(x as int, 0x100_0000_0000_0000int, m);
        }
        assert(b@ =~= int_le_bytes(x as int, 8));
    }
    b
}

/// The 8 bytes of `x` in two's complement, the most significant first.
pub(crate) fn i64_to_be(x: i64) -> (b: [u8; 8])
    ensures
        b@ == int_be_bytes(x as int, 8),
{
    let u: u128 = if x >= 0 {
        x as u128
    } else {
        (x as i128 + 0x1_0000_0000_0000_0000) as u128
    };
    let b = [
        ((u / 0x100_0000_0000_0000) % 256) as u8,
        ((u / 0x1_0000_0000_0000) % 256) as u8,
        ((u / 0x100_0000_0000) % 256) as u8,
        ((u / 0x1_0000_0000) % 256) as u8,
        ((u / 0x100_0000) % 256) as u8,
        ((u / 0x1_0000) % 256) as u8,
        ((u / 0x100) % 256) as u8,
        (u % 256) as u8,
    ];
    proof {
        lemma_pow256();
        let m: int = if x >= 0 {
            0
        } else {
            1
        };
        assert(b@[0] == byte_at(x as int, 7)) by {
            lemma_byte_shift(x as int, 0x100_0000_0000_0000int, m);
        }
        assert(b@[1] == byte_at(x as int, 6)) by {
            lemma_byte_shift(x as int, 0x1_0000_0000_0000int, 0x100int * m);
        }
        assert(b@[2] == byte_at(x as int, 5)) by {
            lemma_byte_shift(x as int, 0x100_0000_0000int, 0x1_0000int * m);
        }
        assert(b@[3] == byte_at(x as int, 4)) by {
            lemma_byte_shift(x as int, 0x1_0000_0000int, 0x100_0000int * m);
        }
        assert(b@[4] == byte_at(x as int, 3)) by {
            lemma_byte_shift(x as int, 0x100_0000int, 0x1_0000_0000int * m);
        }
        assert(b@[5] == byte_at(x as int, 2)) by {
            lemma_byte_shift(x as int, 0x1_0000int, 0x100_0000_0000int * m);
        }
        assert(b@[6] == byte_at(x as int, 1)) by {
            lemma_byte_shift(x as int, 0x100int, 0x1_0000_0000_0000int * m);
        }
        assert(b@[7] == byte_at(x as int, 0)) by {
            lemma_byte_shift(x as int, 1, 0x100_0000_0000_0000int * m);
        }
        assert(b@ =~= int_be_bytes(x as int, 8));
    }
    b
}

/// The integer whose bytes in two's complement, in little-endian order, are `b`.
pub(crate) fn i64_from_le(b: [u8; 8]) -> (x: i64)
    ensures
        x == le_signed(b@),
{
    let u: u128 = b[0] as u128
        + 0x100 * (b[1] as u128)
        + 0x1_0000 * (b[2] as u128)
        + 0x100_0000 * (b[3] as u128)
        + 0x1_0000_0000 * (b[4] as u128)
        + 0x100_0000_0000 * (b[5] as u128)
        + 0x1_0000_0000_0000 * (b[6] as u128)
        + 0x100_0000_0000_0000 * (b[7] as u128);
    proof {
        lemma_pow256();
        let s = b@;
        assert(le_digits(s, 0) == 0);
        assert(le_digits(s, 1) == s[0]);
        assert(le_digits(s, 2) == le_digits(s, 1) + 0x100int * s[1]);
        assert(le_digits(s, 3) == le_digits(s, 2) + 0x1_0000int * s[2]);
        assert(le_digits(s, 4) == le_digits(s, 3) + 0x100_0000int * s[3]);
        assert(le_digits(s, 5) == le_digits(s, 4) + 0x1_0000_0000int * s[4]);
        assert(le_digits(s, 6) == le_digits(s, 5) + 0x100_0000_0000int * s[5]);
        assert(le_digits(s, 7) == le_digits(s, 6) + 0x1_0000_0000_0000int * s[6]);
        assert(le_digits(s, 8) == le_digits(s, 7) + 0x100_0000_0000_0000int * s[7]);
        assert(le_unsigned(s) == u);
    }
    if u >= 0x8000_0000_0000_0000 {
        (u as i128 - 0x1_0000_0000_0000_0000) as i64
    } else {
        u as i64
    }
}

/// The integer whose bytes in two's complement, in big-endian order, are `b`.
pub(crate) fn i64_from_be(b: [u8; 8]) -> (x: i64)
    ensures
        x == be_signed(b@),
{
    let u: u128 = b[7] as u128
        + 0x100 * (b[6] as u128)
        + 0x1_0000 * (b[5] as u128)
        + 0x100_0000 * (b[4] as u128)
        + 0x1_0000_0000 * (b[3] as u128)
        + 0x100_0000_0000 * (b[2] as u128)
        + 0x1_0000_0000_0000 * (b[1] as u128)
        + 0x100_0000_0000_0000 * (b[0] as u128);
    proof {
        lemma_pow256();
        let s = b@.reverse();
        assert(s[0] == b@[7]);
        assert(s[1] == b@[6]);
        assert(s[2] == b@[5]);
        assert(s[3] == b@[4]);
        assert(s[4] == b@[3]);
        assert(s[5] == b@[2]);
        assert(s[6] == b@[1]);
        assert(s[7] == b@[0]);
        assert(le_digits(s, 0) == 0);
        assert(le_digits(s, 1) == s[0]);
        assert(le_digits(s, 2) == le_digits(s, 1) + 0x100int * s[1]);
        assert(le_digits(s, 3) == le_digits(s, 2) + 0x1_0000int * s[2]);
        assert(le_digits(s, 4) == le_digits(s, 3) + 0x100_0000int * s[3]);
        assert(le_digits(s, 5) == le_digits(s, 4) + 0x1_0000_0000int * s[4]);
        assert(le_digits(s, 6) == le_digits(s, 5) + 0x100_0000_0000int * s[5]);
        assert(le_digits(s, 7) == le_digits(s, 6) + 0x1_0000_0000_0000int * s[6]);
        assert(le_digits(s, 8) == le_digits(s, 7) + 0x100_0000_0000_0000int * s[7]);
        assert(le_unsigned(s) == u);
    }
    if u >= 0x8000_0000_0000_0000 {
        (u as i128 - 0x1_0000_0000_0000_0000) as i64
    } else {
        u as i64
    }
}

/// The 16 bytes of `x` in two's complement, the least significant first.
pub(crate) fn i128_to_le(x: i128) -> (b: [u8; 16])
    ensures
        b@ == int_le_bytes(x as int, 16),
{
    let u: u128 = if x >= 0 {
        x as u128
    } else {
        (x - i128::MIN) as u128 + 0x8000_0000_0000_0000_0000_0000_0000_0000u128
    };
    let b = [
        (u % 256) as u8,
        ((u / 0x100) % 256) as u8,
        ((u / 0x1_0000) % 256) as u8,
        ((u / 0x100_0000) % 256) as u8,
        ((u / 0x1_0000_0000) % 256) as u8,
        ((u / 0x100_0000_0000) % 256) as u8,
        ((u / 0x1_0000_0000_0000) % 256) as u8,
        ((u / 0x100_0000_0000_0000) % 256) as u8,
        ((u / 0x1_0000_0000_0000_0000) % 256) as u8,
        ((u / 0x100_0000_0000_0000_0000) % 256) as u8,
        ((u / 0x1_0000_0000_0000_0000_0000) % 256) as u8,
        ((u / 0x100_0000_0000_0000_0000_0000) % 256) as u8,
        ((u / 0x1_0000_0000_0000_0000_0000_0000) % 256) as u8,
        ((u / 0x100_0000_0000_0000_0000_0000_0000) % 256) as u8,
        ((u / 0x1_0000_0000_0000_0000_0000_0000_0000) % 256) as u8,
        ((u / 0x100_0000_0000_0000_0000_0000_0000_0000) % 256) as u8,
    ];
    proof {
        lemma_pow256();
        let m: int = if x >= 0 {
            0
        } else {
            1
        };
        assert(b@[0] == byte_at(x as int, 0)) by {
            lemma_byte_shift(x as int, 1, 0x100_0000_0000_0000_0000_0000_0000_0000int * m);
        }
        assert(b@[1] == byte_at(x as int, 1)) by {
            lemma_byte_shift(x as int, 0x100int, 0x1_0000_0000_0000_0000_0000_0000_0000int * m);
        }
        assert(b@[2] == byte_at(x as int, 2)) by {
            lemma_byte_shift(x as int, 0x1_0000int, 0x100_0000_0000_0000_0000_0000_0000int * m);
        }
        assert(b@[3] == byte_at(x as int, 3)) by {
            lemma_byte_shift(x as int, 0x100_0000int, 0x1_0000_0000_0000_0000_0000_0000int * m);
        }
        assert(b@[4] == byte_at(x as int, 4)) by {
            lemma_byte_shift(x as int, 0x1_0000_0000int, 0x100_0000_0000_0000_0000_0000int * m);
        }
        assert(b@[5] == byte_at(x as int, 5)) by {
            lemma_byte_shift(x as int, 0x100_0000_0000int, 0x1_0000_0000_0000_0000_0000int * m);
        }
        assert(b@[6] == byte_at(x as int, 6)) by {
            lemma_byte_shift(x as int, 0x1_0000_0000_0000int, 0x100_0000_0000_0000_0000int * m);
        }
        assert(b@[7] == byte_at(x as int, 7)) by {
            lemma_byte_shift(x as int, 0x100_0000_0000_0000int, 0x1_0000_0000_0000_0000int * m);
        }
        assert(b@[8] == byte_at(x as int, 8)) by {
            lemma_byte_shift(x as int, 0x1_0000_0000_0000_0000int, 0x100_0000_0000_0000int * m);
        }
        assert(b@[9] == byte_at(x as int, 9)) by {
            lemma_byte_shift(x as int, 0x100_0000_0000_0000_0000int, 0x1_0000_0000_0000int * m);
        }
        assert(b@[10] == byte_at(x as int, 10)) by {
            lemma_byte_shift(x as int, 0x1_0000_0000_0000_0000_0000int, 0x100_0000_0000int * m);
        }
        assert(b@[11] == byte_at(x as int, 11)) by {
            lemma_byte_shift(x as int, 0x100_0000_0000_0000_0000_0000int, 0x1_0000_0000int * m);
        }
        assert(b@[12] == byte_at(x as int, 12)) by {
            lemma_byte_shift(x as int, 0x1_0000_0000_0000_0000_0000_0000int, 0x100_0000int * m);
        }
        assert(b@[13] == byte_at(x as int, 13)) by {
            lemma_byte_shift(x as int, 0x100_0000_0000_0000_0000_0000_0000int, 0x1_0000int * m);
        }
        assert(b@[14] == byte_at(x as int, 14)) by {
            lemma_byte_shift(x as int, 0x1_0000_0000_0000_0000_0000_0000_0000int, 0x100int * m);
        }
        assert(b@[15] == byte_at(x as int, 15)) by {
            lemma_byte_shift(x as int, 0x100_0000_0000_0000_0000_0000_0000_0000int, m);
        }
        assert(b@ =~= int_le_bytes(x as int, 16));
    }
    b
}

/// The 16 bytes of `x` in two's complement, the most significant first.
pub(crate) fn i128_to_be(x: i128) -> (b: [u8; 16])
    ensures
        b@ == int_be_bytes(x as int, 16),
{
    let u: u128 = if x >= 0 {
        x as u128
    } else {
        (x - i128::MIN) as u128 + 0x8000_0000_0000_0000_0000_0000_0000_0000u128
    };
    let b = [
        ((u / 0x100_0000_0000_0000_0000_0000_0000_0000) % 256) as u8,
        ((u / 0x1_0000_0000_0000_0000_0000_0000_0000) % 256) as u8,
        ((u / 0x100_0000_0000_0000_0000_0000_0000) % 256) as u8,
        ((u / 0x1_0000_0000_0000_0000_0000_0000) % 256) as u8,
        ((u / 0x100_0000_0000_0000_0000_0000) % 256) as u8,
        ((u / 0x1_0000_0000_0000_0000_0000) % 256) as u8,
        ((u / 0x100_0000_0000_0000_0000) % 256) as u8,
        ((u / 0x1_0000_0000_0000_0000) % 256) as u8,
        ((u / 0x100_0000_0000_0000) % 256) as u8,
        ((u / 0x1_0000_0000_0000) % 256) as u8,
        ((u / 0x100_0000_0000) % 256) as u8,
        ((u / 0x1_0000_0000) % 256) as u8,
        ((u / 0x100_0000) % 256) as u8,
        ((u / 0x1_0000) % 256) as u8,
        ((u / 0x100) % 256) as u8,
        (u % 256) as u8,
    ];
    proof {
        lemma_pow256();
        let m: int = if x >= 0 {
            0
        } else {
            1
        };
        assert(b@[0] == byte_at(x as int, 15)) by {
            lemma_byte_shift(x as int, 0x100_0000_0000_0000_0000_0000_0000_0000int, m);
        }
        assert(b@[1] == byte_at(x as int, 14)) by {
            lemma_byte_shift(x as int, 0x1_0000_0000_0000_0000_0000_0000_0000int, 0x100int * m);
        }
        assert(b@[2] == byte_at(x as int, 13)) by {
            lemma_byte_shift(x as int, 0x100_0000_0000_0000_0000_0000_0000int, 0x1_0000int * m);
        }
        assert(b@[3] == byte_at(x as int, 12)) by {
            lemma_byte_shift(x as int, 0x1_0000_0000_0000_0000_0000_0000int, 0x100_0000int * m);
        }
        assert(b@[4] == byte_at(x as int, 11)) by {
            lemma_byte_shift(x as int, 0x100_0000_0000_0000_0000_0000int, 0x1_0000_0000int * m);
        }
        assert(b@[5] == byte_at(x as int, 10)) by {
            lemma_byte_shift(x as int, 0x1_0000_0000_0000_0000_0000int, 0x100_0000_0000int * m);
        }
        assert(b@[6] == byte_at(x as int, 9)) by {
            lemma_byte_shift(x as int, 0x100_0000_0000_0000_0000int, 0x1_0000_0000_0000int * m);
        }
        assert(b@[7] == byte_at(x as int, 8)) by {
            lemma_byte_shift(x as int, 0x1_0000_0000_0000_0000int, 0x100_0000_0000_0000int * m);
        }
        assert(b@[8] == byte_at(x as int, 7)) by {
            lemma_byte_shift(x as int, 0x100_0000_0000_0000int, 0x1_0000_0000_0000_0000int * m);
        }
        assert(b@[9] == byte_at(x as int, 6)) by {
            lemma_byte_shift(x as int, 0x1_0000_0000_0000int, 0x100_0000_0000_0000_0000int * m);
        }
        assert(b@[10] == byte_at(x as int, 5)) by {
            lemma_byte_shift(x as int, 0x100_0000_0000int, 0x1_0000_0000_0000_0000_0000int * m);
        }
        assert(b@[11] == byte_at(x as int, 4)) by {
            lemma_byte_shift(x as int, 0x1_0000_0000int, 0x100_0000_0000_0000_0000_0000int * m);
        }
        assert(b@[12] == byte_at(x as int, 3)) by {
            lemma_byte_shift(x as int, 0x100_0000int, 0x1_0000_0000_0000_0000_0000_0000int * m);
        }
        assert(b@[13] == byte_at(x as int, 2)) by {
            lemma_byte_shift(x as int, 0x1_0000int, 0x100_0000_0000_0000_0000_0000_0000int * m);
        }
        assert(b@[14] == byte_at(x as int, 1)) by {
            lemma_byte_shift(x as int, 0x100int, 0x1_0000_0000_0000_0000_0000_0000_0000int * m);
        }
        assert(b@[15] == byte_at(x as int, 0)) by {
            lemma_byte_shift(x as int, 1, 0x100_0000_0000_0000_0000_0000_0000_0000int * m);
        }
        assert(b@ =~= int_be_bytes(x as int, 16));
    }
    b
}

/// The integer whose bytes in two's complement, in little-endian order, are `b`.
pub(crate) fn i128_from_le(b: [u8; 16]) -> (x: i128)
    ensures
        x == le_signed(b@),
{
    let u: u128 = b[0] as u128
        + 0x100 * (b[1] as u128)
        + 0x1_0000 * (b[2] as u128)
        + 0x100_0000 * (b[3] as u128)
        + 0x1_0000_0000 * (b[4] as u128)
        + 0x100_0000_0000 * (b[5] as u128)
        + 0x1_0000_0000_0000 * (b[6] as u128)
        + 0x100_0000_0000_0000 * (b[7] as u128)
        + 0x1_0000_0000_0000_0000 * (b[8] as u128)
        + 0x100_0000_0000_0000_0000 * (b[9] as u128)
        + 0x1_0000_0000_0000_0000_0000 * (b[10] as u128)
        + 0x100_0000_0000_0000_0000_0000 * (b[11] as u128)
        + 0x1_0000_0000_0000_0000_0000_0000 * (b[12] as u128)
        + 0x100_0000_0000_0000_0000_0000_0000 * (b[13] as u128)
        + 0x1_0000_0000_0000_0000_0000_0000_0000 * (b[14] as u128)
        + 0x100_0000_0000_0000_0000_0000_0000_0000 * (b[15] as u128);
    proof {
        lemma_pow256();
        let s = b@;
        assert(le_digits(s, 0) == 0);
        assert(le_digits(s, 1) == s[0]);
        assert(le_digits(s, 2) == le_digits(s, 1) + 0x100int * s[1]);
        assert(le_digits(s, 3) == le_digits(s, 2) + 0x1_0000int * s[2]);
        assert(le_digits(s, 4) == le_digits(s, 3) + 0x100_0000int * s[3]);
        assert(le_digits(s, 5) == le_digits(s, 4) + 0x1_0000_0000int * s[4]);
        assert(le_digits(s, 6) == le_digits(s, 5) + 0x100_0000_0000int * s[5]);
        assert(le_digits(s, 7) == le_digits(s, 6) + 0x1_0000_0000_0000int * s[6]);
        assert(le_digits(s, 8) == le_digits(s, 7) + 0x100_0000_0000_0000int * s[7]);
        assert(le_digits(s, 9) == le_digits(s, 8) + 0x1_0000_0000_0000_0000int * s[8]);
        assert(le_digits(s, 10) == le_digits(s, 9) + 0x100_0000_0000_0000_0000int * s[9]);
        assert(le_digits(s, 11) == le_digits(s, 10) + 0x1_0000_0000_0000_0000_0000int * s[10]);
        assert(le_digits(s, 12) == le_digits(s, 11) + 0x100_0000_0000_0000_0000_0000int * s[11]);
        assert(le_digits(s, 13) == le_digits(s, 12) + 0x1_0000_0000_0000_0000_0000_0000int * s[12]);
        assert(le_digits(s, 14) == le_digits(s, 13) + 0x100_0000_0000_0000_0000_0000_0000int * s[13]);
        assert(le_digits(s, 15) == le_digits(s, 14) + 0x1_0000_0000_0000_0000_0000_0000_0000int * s[14]);
        assert(le_digits(s, 16) == le_digits(s, 15) + 0x100_0000_0000_0000_0000_0000_0000_0000int * s[15]);
        assert(le_unsigned(s) == u);
    }
    if u >= 0x8000_0000_0000_0000_0000_0000_0000_0000u128 {
        (u - 0x8000_0000_0000_0000_0000_0000_0000_0000u128) as i128 + i128::MIN
    } else {
        u as i128
    }
}

/// The integer whose bytes in two's complement, in big-endian order, are `b`.
pub(crate) fn i128_from_be(b: [u8; 16]) -> (x: i128)
    ensures
        x == be_signed(b@),
{
    let u: u128 = b[15] as u128
        + 0x100 * (b[14] as u128)
        + 0x1_0000 * (b[13] as u128)
        + 0x100_0000 * (b[12] as u128)
        + 0x1_0000_0000 * (b[11] as u128)
        + 0x100_0000_0000 * (b[10] as u128)
        + 0x1_0000_0000_0000 * (b[9] as u128)
        + 0x100_0000_0000_0000 * (b[8] as u128)
        + 0x1_0000_0000_0000_0000 * (b[7] as u128)
        + 0x100_0000_0000_0000_0000 * (b[6] as u128)
        + 0x1_0000_0000_0000_0000_0000 * (b[5] as u128)
        + 0x100_0000_0000_0000_0000_0000 * (b[4] as u128)
        + 0x1_0000_0000_0000_0000_0000_0000 * (b[3] as u128)
        + 0x100_0000_0000_0000_0000_0000_0000 * (b[2] as u128)
        + 0x1_0000_0000_0000_0000_0000_0000_0000 * (b[1] as u128)
        + 0x100_0000_0000_0000_0000_0000_0000_0000 * (b[0] as u128);
    proof {
        lemma_pow256();
        let s = b@.reverse();
        assert(s[0] == b@[15]);
        assert(s[1] == b@[14]);
        assert(s[2] == b@[13]);
        assert(s[3] == b@[12]);
        assert(s[4] == b@[11]);
        assert(s[5] == b@[10]);
        assert(s[6] == b@[9]);
        assert(s[7] == b@[8]);
        assert(s[8] == b@[7]);
        assert(s[9] == b@[6]);
        assert(s[10] == b@[5]);
        assert(s[11] == b@[4]);
        assert(s[12] == b@[3]);
        assert(s[13] == b@[2]);
        assert(s[14] == b@[1]);
        assert(s[15] == b@[0]);
        assert(le_digits(s, 0) == 0);
        assert(le_digits(s, 1) == s[0]);
        assert(le_digits(s, 2) == le_digits(s, 1) + 0x100int * s[1]);
        assert(le_digits(s, 3) == le_digits(s, 2) + 0x1_0000int * s[2]);
        assert(le_digits(s, 4) == le_digits(s, 3) + 0x100_0000int * s[3]);
        assert(le_digits(s, 5) == le_digits(s, 4) + 0x1_0000_0000int * s[4]);
        assert(le_digits(s, 6) == le_digits(s, 5) + 0x100_0000_0000int * s[5]);
        assert(le_digits(s, 7) == le_digits(s, 6) + 0x1_0000_0000_0000int * s[6]);
        assert(le_digits(s, 8) == le_digits(s, 7) + 0x100_0000_0000_0000int * s[7]);
        assert(le_digits(s, 9) == le_digits(s, 8) + 0x1_0000_0000_0000_0000int * s[8]);
        assert(le_digits(s, 10) == le_digits(s, 9) + 0x100_0000_0000_0000_0000int * s[9]);
        assert(le_digits(s, 11) == le_digits(s, 10) + 0x1_0000_0000_0000_0000_0000int * s[10]);
        assert(le_digits(s, 12) == le_digits(s, 11) + 0x100_0000_0000_0000_0000_0000int * s[11]);
        assert(le_digits(s, 13) == le_digits(s, 12) + 0x1_0000_0000_0000_0000_0000_0000int * s[12]);
        assert(le_digits(s, 14) == le_digits(s, 13) + 0x100_0000_0000_0000_0000_0000_0000int * s[13]);
        assert(le_digits(s, 15) == le_digits(s, 14) + 0x1_0000_0000_0000_0000_0000_0000_0000int * s[14]);
        assert(le_digits(s, 16) == le_digits(s, 15) + 0x100_0000_0000_0000_0000_0000_0000_0000int * s[15]);
        assert(le_unsigned(s) == u);
    }
    if u >= 0x8000_0000_0000_0000_0000_0000_0000_0000u128 {
        (u - 0x8000_0000_0000_0000_0000_0000_0000_0000u128) as i128 + i128::MIN
    } else {
        u as i128
    }
}

/// The 4 bytes of `x`, the least significant first.
pub(crate) fn u32_to_le(x: u32) -> (b: [u8; 4])
    ensures
        b@ == int_le_bytes(x as int, 4),
{
    let b = [
        (x % 256) as u8,
        ((x / 0x100) % 256) as u8,
        ((x / 0x1_0000) % 256) as u8,
        ((x / 0x100_0000) % 256) as u8,
    ];
    proof {
        lemma_pow256();
        assert(b@ =~= int_le_bytes(x as int, 4));
    }
    b
}

} // verus!
