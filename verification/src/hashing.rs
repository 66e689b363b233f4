//! Hash functions that map byte strings to 64-bit ring tokens.
//!
//! Both hashes are pure functions of the hashed bytes, so their results are
//! modelled by uninterpreted spec functions: contracts elsewhere in the crate
//! speak of `sip13_of` and `std_hash_of` without fixing their values.

use vstd::prelude::*;

verus! {

/// The SipHash-1-3 digest, under the all-zero key, of the byte string fed to
/// the hasher as one `&[u8]` value.
pub uninterp spec fn sip13_of(data: Seq<u8>) -> u64;

/// The digest of the standard library's default hasher, in its freshly
/// created state, of the byte string fed to it as one `&[u8]` value.
pub uninterp spec fn std_hash_of(data: Seq<u8>) -> u64;

/// Relies on `siphasher::sip::SipHasher13`: `new` fixes both key halves to
/// zero, and `write`/`finish` compute the SipHash-1-3 digest, a function of
/// the hashed bytes alone.
#[verifier::external_body]
pub(crate) fn sip13_hash(data: &[u8]) -> (r: u64)
    ensures
        r == sip13_of(data@),
{
    let mut hasher = siphasher::sip::SipHasher13::new();
    std::hash::Hash::hash(data, &mut hasher);
    std::hash::Hasher::finish(&hasher)
}

/// Relies on `std::collections::hash_map::DefaultHasher`: its documentation
/// guarantees that every hasher made by `new` hashes identically, so the
/// digest is a function of the hashed bytes alone.
#[verifier::external_body]
pub(crate) fn std_default_hash(data: &[u8]) -> (r: u64)
    ensures
        r == std_hash_of(data@),
{
    let mut hasher = std::collections::hash_map::DefaultHasher::new();
    std::hash::Hash::hash(data, &mut hasher);
    std::hash::Hasher::finish(&hasher)
}

} // verus!
