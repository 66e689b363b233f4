//! Partitioners: stateless strategies that hash raw key bytes into tokens.
//!
//! A partitioner is a pure function from key bytes to a token of one
//! specific kind, together with that kind's boundary values.  Determinism is
//! part of the trait's contract: `partition_spec` relates a key to its token
//! and every implementation proves that the relation pins the token down.

use crate::hashing::{sip13_hash, sip13_of, std_default_hash, std_hash_of};
use crate::token::{ByteOrderedToken, Murmur3Token, RandomToken, Token};
use vstd::prelude::*;

verus! {

/// A strategy that converts keys into tokens for placement on the ring.
///
/// Implementations carry no mutable state, so `partition` may be called
/// concurrently without synchronization.
pub trait Partitioner: Sized + Copy {
    /// The token kind produced by this partitioner.
    type TokenType: Token;

    /// The relation between a key's bytes and the token it is hashed to.
    spec fn partition_spec(key: Seq<u8>, t: Self::TokenType) -> bool;

    /// Every partitioner is deterministic: the `partition_spec` relation
    /// admits a single token value for each key.
    proof fn partition_deterministic(key: Seq<u8>, t1: Self::TokenType, t2: Self::TokenType)
        requires
            Self::partition_spec(key, t1),
            Self::partition_spec(key, t2),
        ensures
            t1@ == t2@,
    ;

    /// Converts a key into a token.
    fn partition(&self, key: &[u8]) -> (t: Self::TokenType)
        ensures
            Self::partition_spec(key@, t),
    ;

    /// The minimum token value of this partitioner's space.
    fn min_token(&self) -> (t: Self::TokenType)
        ensures
            t.is_zero_spec(),
    ;

    /// The maximum token value of this partitioner's space.
    fn max_token(&self) -> (t: Self::TokenType)
        ensures
            t.is_max_spec(),
    ;

    /// The name of this partitioner.
    fn name(&self) -> &'static str;
}

/// The default partitioner: a fast non-cryptographic 64-bit hash of the key,
/// chosen for uniform distribution.
#[derive(Clone, Copy, Debug)]
pub struct Murmur3Partitioner;

impl Partitioner for Murmur3Partitioner {
    type TokenType = Murmur3Token;

    open spec fn partition_spec(key: Seq<u8>, t: Murmur3Token) -> bool {
        t.0 == sip13_of(key)
    }

    proof fn partition_deterministic(key: Seq<u8>, t1: Murmur3Token, t2: Murmur3Token) {
    }

    fn partition(&self, key: &[u8]) -> (t: Murmur3Token)
        ensures
            Self::partition_spec(key@, t),
    {
        Murmur3Token(sip13_hash(key))
    }

    fn min_token(&self) -> (t: Murmur3Token)
        ensures
            t.is_zero_spec(),
    {
        Murmur3Token::zero()
    }

    fn max_token(&self) -> (t: Murmur3Token)
        ensures
            t.is_max_spec(),
    {
        Murmur3Token::max()
    }

    fn name(&self) -> (r: &'static str)
        ensures
            r@ == "Murmur3Partitioner"@,
    {
        "Murmur3Partitioner"
    }
}

/// Partitioner that seeds a 64-bit token from a generic hash of the key:
/// reproducible but unweighted assignment.
#[derive(Clone, Copy, Debug)]
pub struct RandomPartitioner;

impl Partitioner for RandomPartitioner {
    type TokenType = RandomToken;

    open spec fn partition_spec(key: Seq<u8>, t: RandomToken) -> bool {
        t.0 == std_hash_of(key)
    }

    proof fn partition_deterministic(key: Seq<u8>, t1: RandomToken, t2: RandomToken) {
    }

    fn partition(&self, key: &[u8]) -> (t: RandomToken)
        ensures
            Self::partition_spec(key@, t),
    {
        RandomToken::from_seed(std_default_hash(key))
    }

    fn min_token(&self) -> (t: RandomToken)
        ensures
            t.is_zero_spec(),
    {
        RandomToken::zero()
    }

    fn max_token(&self) -> (t: RandomToken)
        ensures
            t.is_max_spec(),
    {
        RandomToken::max()
    }

    fn name(&self) -> (r: &'static str)
        ensures
            r@ == "RandomPartitioner"@,
    {
        "RandomPartitioner"
    }
}

/// Partitioner that uses the raw key bytes as the token, preserving the
/// keys' lexicographic order.
#[derive(Clone, Copy, Debug)]
pub struct ByteOrderedPartitioner;

impl Partitioner for ByteOrderedPartitioner {
    type TokenType = ByteOrderedToken;

    open spec fn partition_spec(key: Seq<u8>, t: ByteOrderedToken) -> bool {
        t.0@ == key
    }

    proof fn partition_deterministic(key: Seq<u8>, t1: ByteOrderedToken, t2: ByteOrderedToken) {
    }

    fn partition(&self, key: &[u8]) -> (t: ByteOrderedToken)
        ensures
            Self::partition_spec(key@, t),
    {
        ByteOrderedToken(vstd::slice::slice_to_vec(key))
    }

    fn min_token(&self) -> (t: ByteOrderedToken)
        ensures
            t.is_zero_spec(),
    {
        ByteOrderedToken::zero()
    }

    fn max_token(&self) -> (t: ByteOrderedToken)
        ensures
            t.is_max_spec(),
    {
        ByteOrderedToken::max()
    }

    fn name(&self) -> (r: &'static str)
        ensures
            r@ == "ByteOrderedPartitioner"@,
    {
        "ByteOrderedPartitioner"
    }
}

} // verus!
