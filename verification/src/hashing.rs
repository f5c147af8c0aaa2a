//! Row hashing through `ahash` with a fixed seed set, so results are
//! reproducible per build. A null row hashes to `u64::MAX`.
//!
//! What the hasher returns for a value is named, never restated: with fixed
//! seeds it is a deterministic function of the seeds and the hashed value.

use core::hash::{BuildHasher, Hash, Hasher};

use vstd::prelude::*;

verus! {

/// First word of the engine's fixed hash seed set.
pub const HASH_SEED_0: u64 = 2194717786824016851;

/// Second word of the engine's fixed hash seed set.
pub const HASH_SEED_1: u64 = 7391161229587532433;

/// Third word of the engine's fixed hash seed set.
pub const HASH_SEED_2: u64 = 8421638162391593347;

/// Fourth word of the engine's fixed hash seed set.
pub const HASH_SEED_3: u64 = 13425712476683680973;

/// The hash that `ahash` computes for a `u8` under the given seeds.
pub uninterp spec fn ahash_of_u8(k0: u64, k1: u64, k2: u64, k3: u64, v: u8) -> u64;

/// The hash that `ahash` computes for a `u16` under the given seeds.
pub uninterp spec fn ahash_of_u16(k0: u64, k1: u64, k2: u64, k3: u64, v: u16) -> u64;

/// The hash that `ahash` computes for a `u32` under the given seeds.
pub uninterp spec fn ahash_of_u32(k0: u64, k1: u64, k2: u64, k3: u64, v: u32) -> u64;

/// The hash that `ahash` computes for a `u64` under the given seeds.
pub uninterp spec fn ahash_of_u64(k0: u64, k1: u64, k2: u64, k3: u64, v: u64) -> u64;

/// The hash that `ahash` computes for a `usize` under the given seeds.
pub uninterp spec fn ahash_of_usize(k0: u64, k1: u64, k2: u64, k3: u64, v: usize) -> u64;

/// The hash that `ahash` computes for a `bool` under the given seeds.
pub uninterp spec fn ahash_of_bool(k0: u64, k1: u64, k2: u64, k3: u64, v: bool) -> u64;

/// The hash that `ahash` computes for a byte slice under the given seeds.
pub uninterp spec fn ahash_of_bytes(k0: u64, k1: u64, k2: u64, k3: u64, v: Seq<u8>) -> u64;

/// Relies on `ahash::RandomState::with_seeds` and its `Hasher`: with fixed
/// seeds the result is a deterministic function of the seeds and the value.
#[verifier::external_body]
pub(crate) fn ahash_u8(k0: u64, k1: u64, k2: u64, k3: u64, v: u8) -> (r: u64)
    ensures
        r == ahash_of_u8(k0, k1, k2, k3, v),
{
    let s = ahash::RandomState::with_seeds(k0, k1, k2, k3);
    let mut h = s.build_hasher();
    v.hash(&mut h);
    h.finish()
}

/// Relies on `ahash::RandomState::with_seeds` and its `Hasher`: with fixed
/// seeds the result is a deterministic function of the seeds and the value.
#[verifier::external_body]
pub(crate) fn ahash_u16(k0: u64, k1: u64, k2: u64, k3: u64, v: u16) -> (r: u64)
    ensures
        r == ahash_of_u16(k0, k1, k2, k3, v),
{
    let s = ahash::RandomState::with_seeds(k0, k1, k2, k3);
    let mut h = s.build_hasher();
    v.hash(&mut h);
    h.finish()
}

/// Relies on `ahash::RandomState::with_seeds` and its `Hasher`: with fixed
/// seeds the result is a deterministic function of the seeds and the value.
#[verifier::external_body]
pub(crate) fn ahash_u32(k0: u64, k1: u64, k2: u64, k3: u64, v: u32) -> (r: u64)
    ensures
        r == ahash_of_u32(k0, k1, k2, k3, v),
{
    let s = ahash::RandomState::with_seeds(k0, k1, k2, k3);
    let mut h = s.build_hasher();
    v.hash(&mut h);
    h.finish()
}

/// Relies on `ahash::RandomState::with_seeds` and its `Hasher`: with fixed
/// seeds the result is a deterministic function of the seeds and the value.
#[verifier::external_body]
pub(crate) fn ahash_u64(k0: u64, k1: u64, k2: u64, k3: u64, v: u64) -> (r: u64)
    ensures
        r == ahash_of_u64(k0, k1, k2, k3, v),
{
    let s = ahash::RandomState::with_seeds(k0, k1, k2, k3);
    let mut h = s.build_hasher();
    v.hash(&mut h);
    h.finish()
}

/// Relies on `ahash::RandomState::with_seeds` and its `Hasher`: with fixed
/// seeds the result is a deterministic function of the seeds and the value.
#[verifier::external_body]
pub(crate) fn ahash_usize(k0: u64, k1: u64, k2: u64, k3: u64, v: usize) -> (r: u64)
    ensures
        r == ahash_of_usize(k0, k1, k2, k3, v),
{
    let s = ahash::RandomState::with_seeds(k0, k1, k2, k3);
    let mut h = s.build_hasher();
    v.hash(&mut h);
    h.finish()
}

/// Relies on `ahash::RandomState::with_seeds` and its `Hasher`: with fixed
/// seeds the result is a deterministic function of the seeds and the value.
#[verifier::external_body]
pub(crate) fn ahash_bool(k0: u64, k1: u64, k2: u64, k3: u64, v: bool) -> (r: u64)
    ensures
        r == ahash_of_bool(k0, k1, k2, k3, v),
{
    let s = ahash::RandomState::with_seeds(k0, k1, k2, k3);
    let mut h = s.build_hasher();
    v.hash(&mut h);
    h.finish()
}

/// Relies on `ahash::RandomState::with_seeds` and its `Hasher` over a byte
/// slice: with fixed seeds the result is a deterministic function of the
/// seeds and the bytes.
#[verifier::external_body]
pub(crate) fn ahash_bytes(k0: u64, k1: u64, k2: u64, k3: u64, v: &[u8]) -> (r: u64)
    ensures
        r == ahash_of_bytes(k0, k1, k2, k3, v@),
{
    let s = ahash::RandomState::with_seeds(k0, k1, k2, k3);
    let mut h = s.build_hasher();
    v.hash(&mut h);
    h.finish()
}

} // verus!
