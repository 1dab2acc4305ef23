//! The hashers that a storage entry names for each position of its key.

use vstd::prelude::*;

verus! {

/// The hash algorithms that chain metadata can name for a key position.
#[derive(Clone, Copy, Debug, PartialEq, Eq, Structural)]
pub enum Hasher {
    Blake2_128,
    Blake2_256,
    Blake2_128Concat,
    Twox128,
    Twox256,
    Twox64Concat,
    Identity,
}

/// 128-bit Blake2b digest of the given bytes.
pub uninterp spec fn blake2_128_of(data: Seq<u8>) -> Seq<u8>;

/// 256-bit Blake2b digest of the given bytes.
pub uninterp spec fn blake2_256_of(data: Seq<u8>) -> Seq<u8>;

/// 64-bit xxHash digest of the given bytes.
pub uninterp spec fn twox_64_of(data: Seq<u8>) -> Seq<u8>;

/// 128-bit xxHash digest (two seeded 64-bit halves) of the given bytes.
pub uninterp spec fn twox_128_of(data: Seq<u8>) -> Seq<u8>;

/// 256-bit xxHash digest (four seeded 64-bit quarters) of the given bytes.
pub uninterp spec fn twox_256_of(data: Seq<u8>) -> Seq<u8>;

/// Relies on sp_core_hashing::blake2_128: a 16-byte digest that depends on the input alone.
#[verifier::external_body]
fn blake2_128(data: &[u8]) -> (r: Vec<u8>)
    ensures
        r@ == blake2_128_of(data@),
        r@.len() == 16,
{
    sp_core_hashing::blake2_128(data).to_vec()
}

/// Relies on sp_core_hashing::blake2_256: a 32-byte digest that depends on the input alone.
#[verifier::external_body]
fn blake2_256(data: &[u8]) -> (r: Vec<u8>)
    ensures
        r@ == blake2_256_of(data@),
        r@.len() == 32,
{
    sp_core_hashing::blake2_256(data).to_vec()
}

/// Relies on sp_core_hashing::twox_64: an 8-byte digest that depends on the input alone.
#[verifier::external_body]
fn twox_64(data: &[u8]) -> (r: Vec<u8>)
    ensures
        r@ == twox_64_of(data@),
        r@.len() == 8,
{
    sp_core_hashing::twox_64(data).to_vec()
}

/// Relies on sp_core_hashing::twox_128: a 16-byte digest that depends on the input alone.
#[verifier::external_body]
fn twox_128(data: &[u8]) -> (r: Vec<u8>)
    ensures
        r@ == twox_128_of(data@),
        r@.len() == 16,
{
    sp_core_hashing::twox_128(data).to_vec()
}

/// Relies on sp_core_hashing::twox_256: a 32-byte digest that depends on the input alone.
#[verifier::external_body]
fn twox_256(data: &[u8]) -> (r: Vec<u8>)
    ensures
        r@ == twox_256_of(data@),
        r@.len() == 32,
{
    sp_core_hashing::twox_256(data).to_vec()
}

/// What hashing `data` with `h` yields: the digest, followed by the input
/// itself for the concat variants; the input unchanged for `Identity`.
pub open spec fn hash_spec(h: Hasher, data: Seq<u8>) -> Seq<u8> {
    match h {
        Hasher::Blake2_128 => blake2_128_of(data),
        Hasher::Blake2_256 => blake2_256_of(data),
        Hasher::Blake2_128Concat => blake2_128_of(data) + data,
        Hasher::Twox128 => twox_128_of(data),
        Hasher::Twox256 => twox_256_of(data),
        Hasher::Twox64Concat => twox_64_of(data) + data,
        Hasher::Identity => data,
    }
}

/// The length of what hashing `n` bytes with `h` yields.
pub open spec fn hash_len(h: Hasher, n: int) -> int {
    match h {
        Hasher::Blake2_128 => 16,
        Hasher::Blake2_256 => 32,
        Hasher::Blake2_128Concat => 16 + n,
        Hasher::Twox128 => 16,
        Hasher::Twox256 => 32,
        Hasher::Twox64Concat => 8 + n,
        Hasher::Identity => n,
    }
}

/// Appends every byte of `data` to `out`, in order.
pub fn extend_bytes(out: &mut Vec<u8>, data: &[u8])
    ensures
        final(out)@ == old(out)@ + data@,
{
    let ghost start = out@;
    let mut i: usize = 0;
    while i < data.len()
        invariant
            i <= data@.len(),
            out@ == start + data@.subrange(0, i as int),
        decreases data@.len() - i,
    {
        out.push(data[i]);
        i = i + 1;
        assert(data@.subrange(0, i as int) == data@.subrange(0, i - 1) + seq![data@[i - 1]]);
    }
    assert(data@.subrange(0, data@.len() as int) == data@);
}

/// Hashes `data` with the algorithm `h`.
pub fn hash(h: &Hasher, data: &[u8]) -> (r: Vec<u8>)
    ensures
        r@ == hash_spec(*h, data@),
        r@.len() == hash_len(*h, data@.len() as int),
{
    match h {
        Hasher::Blake2_128 => blake2_128(data),
        Hasher::Blake2_256 => blake2_256(data),
        Hasher::Blake2_128Concat => {
            let mut r = blake2_128(data);
            extend_bytes(&mut r, data);
            r
        },
        Hasher::Twox128 => twox_128(data),
        Hasher::Twox256 => twox_256(data),
        Hasher::Twox64Concat => {
            let mut r = twox_64(data);
            extend_bytes(&mut r, data);
            r
        },
        Hasher::Identity => {
            let mut r: Vec<u8> = Vec::new();
            extend_bytes(&mut r, data);
            r
        },
    }
}

} // verus!
