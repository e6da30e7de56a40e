//! The iterated hash engine: one unconditional application of the Keccak-256
//! primitive to the input, then `num_iter - 1` further applications, each fed
//! the previous digest.

use vstd::prelude::*;

verus! {

/// The 32-byte Keccak-256 digest of a byte sequence, as the `sha3` crate
/// computes it: a fixed function of the input bytes alone.
pub uninterp spec fn keccak_spec(data: Seq<u8>) -> Seq<u8>;

/// Relies on `sha3::Keccak256::digest` (through the `digest` crate's
/// `Digest` trait): it hashes exactly the given bytes and returns their
/// 32-byte Keccak-256 digest, deterministic and stateless.
#[verifier::external_body]
pub fn keccak(data: &[u8]) -> (r: [u8; 32])
    ensures
        r@ == keccak_spec(data@),
{
    <sha3::Keccak256 as sha3::Digest>::digest(data).into()
}

/// The hash primitive applied `n` times in strict sequence starting from
/// `data`, each application's output feeding the next application's input.
/// The first application is unconditional, so the minimum work is one
/// application: `n == 0` and `n == 1` both give `keccak_spec(data)`.
pub open spec fn iterated_keccak(data: Seq<u8>, n: nat) -> Seq<u8>
    decreases n,
{
    if n <= 1 {
        keccak_spec(data)
    } else {
        keccak_spec(iterated_keccak(data, (n - 1) as nat))
    }
}

/// Applies the hash primitive to `data`, then re-applies it to its own
/// output `num_iter - 1` further times. The digest is exactly the primitive
/// iterated `num_iter` times (once when `num_iter == 0`: the first
/// application is unconditional), produced with no other observable effect.
pub fn iterate(data: &[u8], num_iter: u32) -> (r: [u8; 32])
    ensures
        r@ == iterated_keccak(data@, num_iter as nat),
{
    let mut hash = keccak(data);
    let mut i: u32 = 1;
    while i < num_iter
        invariant
            1 <= i,
            num_iter >= 1 ==> i <= num_iter,
            num_iter <= 1 ==> i == 1,
            hash@ == iterated_keccak(data@, i as nat),
        decreases num_iter - i,
    {
        hash = keccak(hash.as_slice());
        i = i + 1;
    }
    hash
}

/// Law: a single iteration is one application of the hash primitive.
pub proof fn lemma_iterate_once(data: Seq<u8>)
    ensures
        iterated_keccak(data, 1) == keccak_spec(data),
{
}

/// Law: an iteration count of zero still hashes once — the minimum work is
/// exactly one application, the same digest as a count of one.
pub proof fn lemma_iterate_zero(data: Seq<u8>)
    ensures
        iterated_keccak(data, 0) == keccak_spec(data),
        iterated_keccak(data, 0) == iterated_keccak(data, 1),
{
}

/// Law: the engine is deterministic — the digest is a function of
/// `(data, num_iter)` alone, so the results of two runs on identical
/// arguments are byte-for-byte identical.
pub proof fn lemma_iterate_deterministic(data: Seq<u8>, num_iter: nat, r1: Seq<u8>, r2: Seq<u8>)
    requires
        r1 == iterated_keccak(data, num_iter),
        r2 == iterated_keccak(data, num_iter),
    ensures
        r1 == r2,
{
}

} // verus!
