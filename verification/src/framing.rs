//! File data travels on its own stream as an 8-byte big-endian size followed
//! by the file's bytes.
use vstd::prelude::*;

verus! {

/// The 8 big-endian bytes of `n`.
pub open spec fn be_bytes(n: u64) -> Seq<u8> {
    seq![
        (n >> 56) as u8,
        (n >> 48) as u8,
        (n >> 40) as u8,
        (n >> 32) as u8,
        (n >> 24) as u8,
        (n >> 16) as u8,
        (n >> 8) as u8,
        n as u8,
    ]
}

/// The number whose big-endian bytes are `b[0..8]`.
pub open spec fn be_value(b: Seq<u8>) -> u64 {
    ((b[0] as u64) << 56) | ((b[1] as u64) << 48) | ((b[2] as u64) << 40) | ((b[3] as u64) << 32)
        | ((b[4] as u64) << 24) | ((b[5] as u64) << 16) | ((b[6] as u64) << 8) | (b[7] as u64)
}

/// The size prefix written before a file's bytes (`u64::to_be_bytes`).
pub fn size_prefix(n: u64) -> (b: [u8; 8])
    ensures
        b@ == be_bytes(n),
{
    let b = [
        (n >> 56) as u8,
        (n >> 48) as u8,
        (n >> 40) as u8,
        (n >> 32) as u8,
        (n >> 24) as u8,
        (n >> 16) as u8,
        (n >> 8) as u8,
        n as u8,
    ];
    assert(b@ =~= be_bytes(n));
    b
}

/// The size that a prefix announces (`u64::from_be_bytes`).
pub fn read_size_prefix(b: [u8; 8]) -> (n: u64)
    ensures
        n == be_value(b@),
{
    ((b[0] as u64) << 56) | ((b[1] as u64) << 48) | ((b[2] as u64) << 40) | ((b[3] as u64) << 32)
        | ((b[4] as u64) << 24) | ((b[5] as u64) << 16) | ((b[6] as u64) << 8) | (b[7] as u64)
}

proof fn lemma_bytes_value(n: u64)
    ensures
        ((((n >> 56) as u8) as u64) << 56) | ((((n >> 48) as u8) as u64) << 48) | ((((n
            >> 40) as u8) as u64) << 40) | ((((n >> 32) as u8) as u64) << 32) | ((((n >> 24) as u8)
            as u64) << 24) | ((((n >> 16) as u8) as u64) << 16) | ((((n >> 8) as u8) as u64) << 8)
            | ((n as u8) as u64) == n,
{
    assert(((((n >> 56) as u8) as u64) << 56) | ((((n >> 48) as u8) as u64) << 48) | ((((n
        >> 40) as u8) as u64) << 40) | ((((n >> 32) as u8) as u64) << 32) | ((((n >> 24) as u8)
        as u64) << 24) | ((((n >> 16) as u8) as u64) << 16) | ((((n >> 8) as u8) as u64) << 8)
        | ((n as u8) as u64) == n) by (bit_vector);
}

/// Law: the size read from a prefix is the size it was written for.
pub proof fn lemma_size_prefix_round_trip(n: u64)
    ensures
        be_value(be_bytes(n)) == n,
{
    lemma_bytes_value(n);
}

proof fn lemma_value_bytes(b0: u8, b1: u8, b2: u8, b3: u8, b4: u8, b5: u8, b6: u8, b7: u8)
    ensures
        ({
            let n = ((b0 as u64) << 56) | ((b1 as u64) << 48) | ((b2 as u64) << 40) | ((b3 as u64)
                << 32) | ((b4 as u64) << 24) | ((b5 as u64) << 16) | ((b6 as u64) << 8) | (b7 as u64);
            &&& (n >> 56) as u8 == b0
            &&& (n >> 48) as u8 == b1
            &&& (n >> 40) as u8 == b2
            &&& (n >> 32) as u8 == b3
            &&& (n >> 24) as u8 == b4
            &&& (n >> 16) as u8 == b5
            &&& (n >> 8) as u8 == b6
            &&& n as u8 == b7
        }),
{
    assert({
        let n = ((b0 as u64) << 56) | ((b1 as u64) << 48) | ((b2 as u64) << 40) | ((b3 as u64)
            << 32) | ((b4 as u64) << 24) | ((b5 as u64) << 16) | ((b6 as u64) << 8) | (b7 as u64);
        &&& (n >> 56) as u8 == b0
        &&& (n >> 48) as u8 == b1
        &&& (n >> 40) as u8 == b2
        &&& (n >> 32) as u8 == b3
        &&& (n >> 24) as u8 == b4
        &&& (n >> 16) as u8 == b5
        &&& (n >> 8) as u8 == b6
        &&& n as u8 == b7
    }) by (bit_vector);
}

/// Law: every 8 bytes are the prefix of the size they announce, so each size
/// has exactly one prefix.
pub proof fn lemma_size_prefix_unique(b: Seq<u8>)
    requires
        b.len() == 8,
    ensures
        be_bytes(be_value(b)) == b,
{
    lemma_value_bytes(b[0], b[1], b[2], b[3], b[4], b[5], b[6], b[7]);
    assert(be_bytes(be_value(b)) =~= b);
}

} // verus!
