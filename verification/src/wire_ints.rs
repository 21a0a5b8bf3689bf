use vstd::prelude::*;
use crate::constants::BFI_BYTE_SIZE;
use crate::constants::BFI_WORD_COUNT;

verus! {

/// A Bloom-filter index: four 16-bit entries, each a bit position.
pub type BFI = [u16; BFI_WORD_COUNT];

/// The value named by two big-endian bytes.
pub open spec fn be16(b0: u8, b1: u8) -> int {
    (b0 as int) * 256 + (b1 as int)
}

/// The value named by eight big-endian bytes.
pub open spec fn be64(b: Seq<u8>) -> int
    recommends
        b.len() == 8,
{
    (b[0] as int) * 0x100000000000000 + (b[1] as int) * 0x1000000000000
        + (b[2] as int) * 0x10000000000 + (b[3] as int) * 0x100000000 + (b[4] as int) * 0x1000000
        + (b[5] as int) * 0x10000 + (b[6] as int) * 0x100 + (b[7] as int)
}

/// The two big-endian bytes of a 16-bit integer.
pub open spec fn be16_bytes(x: u16) -> Seq<u8> {
    seq![((x as int / 256) as u8), ((x as int % 256) as u8)]
}

/// The eight big-endian bytes of a 64-bit integer.
pub open spec fn be64_bytes(x: u64) -> Seq<u8> {
    seq![
        ((x as int / 0x100000000000000 % 256) as u8),
        ((x as int / 0x1000000000000 % 256) as u8),
        ((x as int / 0x10000000000 % 256) as u8),
        ((x as int / 0x100000000 % 256) as u8),
        ((x as int / 0x1000000 % 256) as u8),
        ((x as int / 0x10000 % 256) as u8),
        ((x as int / 0x100 % 256) as u8),
        ((x as int % 256) as u8),
    ]
}

/// The eight wire bytes of a Bloom-filter index.
pub open spec fn spec_bfi_bytes(b: BFI) -> Seq<u8> {
    be16_bytes(b[0]) + be16_bytes(b[1]) + be16_bytes(b[2]) + be16_bytes(b[3])
}

/// Law: the two bytes of a 16-bit integer name it back.
pub proof fn lemma_be16_value(x: u16)
    ensures
        be16(be16_bytes(x)[0], be16_bytes(x)[1]) == x,
{
}

/// Law: the eight bytes of a 64-bit integer name it back.
pub proof fn lemma_be64_value(x: u64)
    ensures
        be64(be64_bytes(x)) == x,
{
    assert(((x as int / 0x100000000000000 % 256) as u8) as int * 0x100000000000000 + ((x as int
        / 0x1000000000000 % 256) as u8) as int * 0x1000000000000 + ((x as int / 0x10000000000
        % 256) as u8) as int * 0x10000000000 + ((x as int / 0x100000000 % 256) as u8) as int
        * 0x100000000 + ((x as int / 0x1000000 % 256) as u8) as int * 0x1000000 + ((x as int
        / 0x10000 % 256) as u8) as int * 0x10000 + ((x as int / 0x100 % 256) as u8) as int * 0x100
        + ((x as int % 256) as u8) as int == x) by (bit_vector);
}

/// Splits a 16-bit integer into its two big-endian bytes.
pub fn u16_to_u8(i: u16) -> (r: [u8; 2])
    ensures
        r@ == be16_bytes(i),
        be16(r[0], r[1]) == i,
{
    let r = [(i >> 8) as u8, i as u8];
    proof {
        assert(((i >> 8) as u8) as u16 * 256 + (i as u8) as u16 == i) by (bit_vector);
        assert((i >> 8) as u8 == (i as int / 256) as u8 && i as u8 == (i as int % 256) as u8)
            by (bit_vector);
        assert(r@ =~= be16_bytes(i));
    }
    r
}

/// Reads a 16-bit integer from its two big-endian bytes.
pub fn u8_to_u16(i: [u8; 2]) -> (r: u16)
    ensures
        r == be16(i[0], i[1]),
{
    let r = ((i[0] as u16) << 8) | (i[1] as u16);
    proof {
        let b0 = i[0];
        let b1 = i[1];
        assert(((b0 as u16) << 8) | (b1 as u16) == (b0 as u16) * 256 + (b1 as u16))
            by (bit_vector);
    }
    r
}

/// Serializes a Bloom-filter index: each entry as two big-endian bytes.
pub fn bfi_to_u8(bfi: BFI) -> (r: [u8; BFI_BYTE_SIZE])
    ensures
        r@ == spec_bfi_bytes(bfi),
        forall|k: int| 0 <= k < 4 ==> be16(r[2 * k], r[2 * k + 1]) == bfi[k],
{
    let mut bbfi: [u8; BFI_BYTE_SIZE] = [0; BFI_BYTE_SIZE];
    let mut count: usize = 0;
    while count < 4
        invariant
            count <= 4,
            forall|k: int|
                0 <= k < count ==> bbfi[2 * k] == be16_bytes(bfi[k])[0] && bbfi[2 * k + 1]
                    == be16_bytes(bfi[k])[1],
        decreases 4 - count,
    {
        let two_u8 = u16_to_u8(bfi[count]);
        bbfi[2 * count] = two_u8[0];
        bbfi[2 * count + 1] = two_u8[1];
        count += 1;
    }
    proof {
        assert(bbfi@ =~= spec_bfi_bytes(bfi));
        assert forall|k: int| 0 <= k < 4 implies be16(bbfi[2 * k], bbfi[2 * k + 1]) == bfi[k] by {
            lemma_be16_value(bfi[k]);
        }
    }
    bbfi
}

/// Reads a Bloom-filter index from eight big-endian bytes.
pub fn u8_to_bfi(bbfi: [u8; BFI_BYTE_SIZE]) -> (r: BFI)
    ensures
        forall|k: int| 0 <= k < 4 ==> r[k] == be16(bbfi[2 * k], bbfi[2 * k + 1]),
{
    [
        u8_to_u16([bbfi[0], bbfi[1]]),
        u8_to_u16([bbfi[2], bbfi[3]]),
        u8_to_u16([bbfi[4], bbfi[5]]),
        u8_to_u16([bbfi[6], bbfi[7]]),
    ]
}

/// Reads a 64-bit integer from its eight big-endian bytes.
pub fn u8_to_u64(v: [u8; 8]) -> (r: u64)
    ensures
        r == be64(v@),
{
    let r = ((v[0] as u64) << 56) | ((v[1] as u64) << 48) | ((v[2] as u64) << 40) | ((v[3]
        as u64) << 32) | ((v[4] as u64) << 24) | ((v[5] as u64) << 16) | ((v[6] as u64) << 8) | (
    v[7] as u64);
    proof {
        let b0 = v[0];
        let b1 = v[1];
        let b2 = v[2];
        let b3 = v[3];
        let b4 = v[4];
        let b5 = v[5];
        let b6 = v[6];
        let b7 = v[7];
        assert(((b0 as u64) << 56) | ((b1 as u64) << 48) | ((b2 as u64) << 40) | ((b3
            as u64) << 32) | ((b4 as u64) << 24) | ((b5 as u64) << 16) | ((b6 as u64) << 8) | (b7
            as u64) == ((b0 as u64) * 0x100000000000000 + (b1 as u64) * 0x1000000000000 + (b2
            as u64) * 0x10000000000 + (b3 as u64) * 0x100000000 + (b4 as u64) * 0x1000000 + (b5
            as u64) * 0x10000 + (b6 as u64) * 0x100 + (b7 as u64)) as u64) by (bit_vector);
    }
    r
}

/// Splits a 64-bit integer into its eight big-endian bytes.
pub fn u64_to_u8(x: u64) -> (r: [u8; 8])
    ensures
        r@ == be64_bytes(x),
        be64(r@) == x,
{
    let r = [
        ((x >> 56) & 0xff) as u8,
        ((x >> 48) & 0xff) as u8,
        ((x >> 40) & 0xff) as u8,
        ((x >> 32) & 0xff) as u8,
        ((x >> 24) & 0xff) as u8,
        ((x >> 16) & 0xff) as u8,
        ((x >> 8) & 0xff) as u8,
        (x & 0xff) as u8,
    ];
    proof {
        assert(((((x >> 56) & 0xff) as u8) as u64) * 0x100000000000000 + ((((x >> 48) & 0xff)
            as u8) as u64) * 0x1000000000000 + ((((x >> 40) & 0xff) as u8) as u64) * 0x10000000000
            + ((((x >> 32) & 0xff) as u8) as u64) * 0x100000000 + ((((x >> 24) & 0xff) as u8)
            as u64) * 0x1000000 + ((((x >> 16) & 0xff) as u8) as u64) * 0x10000 + ((((x >> 8)
            & 0xff) as u8) as u64) * 0x100 + (((x & 0xff) as u8) as u64) <= 0xffffffffffffffff)
            by (bit_vector);
        assert((((((x >> 56) & 0xff) as u8) as u64) * 0x100000000000000 + ((((x >> 48) & 0xff)
            as u8) as u64) * 0x1000000000000 + ((((x >> 40) & 0xff) as u8) as u64) * 0x10000000000
            + ((((x >> 32) & 0xff) as u8) as u64) * 0x100000000 + ((((x >> 24) & 0xff) as u8)
            as u64) * 0x1000000 + ((((x >> 16) & 0xff) as u8) as u64) * 0x10000 + ((((x >> 8)
            & 0xff) as u8) as u64) * 0x100 + (((x & 0xff) as u8) as u64)) as u64 == x)
            by (bit_vector);
        assert(((x >> 56) & 0xff) as u8 == (x as int / 0x100000000000000 % 256) as u8 && ((x >> 48)
            & 0xff) as u8 == (x as int / 0x1000000000000 % 256) as u8 && ((x >> 40) & 0xff) as u8
            == (x as int / 0x10000000000 % 256) as u8 && ((x >> 32) & 0xff) as u8 == (x as int
            / 0x100000000 % 256) as u8 && ((x >> 24) & 0xff) as u8 == (x as int / 0x1000000 % 256)
            as u8 && ((x >> 16) & 0xff) as u8 == (x as int / 0x10000 % 256) as u8 && ((x >> 8)
            & 0xff) as u8 == (x as int / 0x100 % 256) as u8 && (x & 0xff) as u8 == (x as int % 256)
            as u8) by (bit_vector);
        assert(r@ =~= be64_bytes(x));
    }
    r
}

/// Law: reading back the two bytes of a 16-bit integer returns it.
pub proof fn lemma_u16_round_trip(b0: u8, b1: u8, x: u16)
    ensures
        be16(b0, b1) == x <==> b0 == x / 256 && b1 == x % 256,
{
    assert((b0 as u16) * 256 + (b1 as u16) == x <==> b0 == x / 256 && b1 == x % 256)
        by (bit_vector);
}

} // verus!
