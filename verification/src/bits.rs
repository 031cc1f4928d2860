//! Facts about machine-word bit operations, proved once by the bit-vector
//! solver and reused by the rest of the crate.
use vstd::prelude::*;

verus! {

/// Masking and shifting facts on 32-bit words.
pub proof fn lemma_u32_facts()
    by (bit_vector)
    ensures
        forall|x: u32, m: u32| #[trigger] (x & m) <= m,
        forall|x: u32, m: u32| #[trigger] (x & m) <= x,
        forall|x: u32| #[trigger] !x == 0xFFFF_FFFFu32 - x,
        forall|x: u32, n: u32| n < 32 ==> #[trigger] (x >> n) <= x,
        forall|x: u32| #[trigger] (x >> 31u32) <= 1,
        forall|x: u32| (#[trigger] (x & 1u32)) == x % 2,
        forall|x: u32| (#[trigger] (x & 0x8000_0000u32)) != 0 <==> x >= 0x8000_0000,
        forall|x: u32| #[trigger] (x & 3u32) == x % 4,
        forall|x: u32| #[trigger] (x & 7u32) == x % 8,
        forall|x: u32| #[trigger] (x & 0xFu32) == x % 16,
        forall|x: u32| #[trigger] (x & 0x1Fu32) == x % 32,
        forall|x: u32| #[trigger] (x & 0xFFu32) == x % 256,
        forall|x: u32| #[trigger] (x & 0xFFFFu32) == x % 65536,
        forall|x: u32| #[trigger] (x >> 8u32) == x / 256,
        forall|x: u32| #[trigger] (x >> 16u32) == x / 65536,
        forall|x: u32| #[trigger] (x >> 24u32) == x / 0x100_0000,
{
}

/// Setting, clearing and reading single bits of a 32-bit word.
pub proof fn lemma_u32_single_bits()
    by (bit_vector)
    ensures
        forall|x: u32, i: u32, j: u32|
            i < 32 && j < 32 ==> ((#[trigger] ((x | (1u32 << i)) >> j)) & 1u32 != 0) == (j == i
                || (x >> j) & 1u32 != 0),
        forall|x: u32, i: u32, j: u32|
            i < 32 && j < 32 ==> ((#[trigger] ((x & !(1u32 << i)) >> j)) & 1u32 != 0) == (j != i
                && (x >> j) & 1u32 != 0),
        forall|x: u32, b: u32| b < 32 ==> #[trigger] (((x & !0x1Fu32) | b) & 0x1Fu32) == b,
        forall|x: u32, b: u32, j: u32|
            b < 32 && 5 <= j < 32 ==> ((#[trigger] (((x & !0x1Fu32) | b) >> j)) & 1u32 != 0) == ((x
                >> j) & 1u32 != 0),
        forall|x: u32| #[trigger] (x >> 31u32) & 1u32 != 0 <==> x >= 0x8000_0000,
{
}

/// Widening 16-bit single-bit updates to 32 bits.
pub proof fn lemma_u16_bits()
    by (bit_vector)
    ensures
        forall|x: u16, i: u32|
            i < 16 ==> #[trigger] ((x & !(1u16 << (i as u16))) as u32) == (x as u32) & !(1u32 << i),
        forall|x: u16, i: u32|
            i < 16 ==> #[trigger] ((x | (1u16 << (i as u16))) as u32) == (x as u32) | (1u32 << i),
        forall|x: u16, j: u32| 16 <= j < 32 ==> #[trigger] (((x as u32) >> j) & 1u32) == 0,
{
}

/// Setting and reading single bits of a 16-bit word, and the byte split.
pub proof fn lemma_u16_single_bits()
    by (bit_vector)
    ensures
        forall|x: u16, i: u16, j: u16|
            i < 16 && j < 16 ==> (#[trigger] ((x | (1u16 << i)) & (1u16 << j)) != 0) == (j == i || (x
                & (1u16 << j)) != 0),
        forall|x: u16, i: u16, j: u16|
            i < 16 && j < 16 ==> (#[trigger] ((x & !(1u16 << i)) & (1u16 << j)) != 0) == (j != i && (x
                & (1u16 << j)) != 0),
        forall|x: u16, i: u16|
            3 <= i < 7 && x & !0x78u16 == 0 ==> #[trigger] ((x | (1u16 << i)) & !0x78u16) == 0,
        forall|x: u16| #[trigger] (x & 3u16) == x % 4,
        forall|x: u16| #[trigger] (x & 0xFFu16) == x % 256,
        forall|x: u16| #[trigger] (x >> 8u16) == x / 256,
        forall|x: u16| #[trigger] (x & 0x1Fu16) == x % 32,
        forall|x: u16| #[trigger] ((x & !0x80u16) & 0x4000u16) == (x & 0x4000u16),
{
}

} // verus!
