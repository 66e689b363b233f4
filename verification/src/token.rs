//! Token value types: positions on the hash ring.
//!
//! A token lives in a bounded, cyclic, totally ordered space `[zero, max]`
//! whose successor of `max` is `zero`.  The clockwise distance from one token
//! to another is itself a token value.  Three interchangeable encodings
//! exist: hash-based ([`Murmur3Token`]), seeded ([`RandomToken`]) and raw
//! byte-ordered ([`ByteOrderedToken`]).

use crate::hashing::{sip13_hash, sip13_of};
use vstd::prelude::*;

verus! {

/// A position in a ring's token space.
///
/// `zero` and `max` are the fixed boundary values of the space, and
/// `distance_to` measures the forward (clockwise) gap, wrapping through the
/// top of the space.
pub trait Token: View + Sized {
    /// Whether this token is the least value of its space.
    spec fn is_zero_spec(&self) -> bool;

    /// Whether this token is the greatest value of its space.
    spec fn is_max_spec(&self) -> bool;

    /// The clockwise distance from `self` to `other`, as a token value.
    spec fn distance_spec(self, other: Self) -> Self;

    /// The least token of the space.
    fn zero() -> (t: Self)
        ensures
            t.is_zero_spec(),
    ;

    /// The greatest token of the space.
    fn max() -> (t: Self)
        ensures
            t.is_max_spec(),
    ;

    /// Whether this token is the least value of its space.
    fn is_zero(&self) -> (b: bool)
        ensures
            b == self.is_zero_spec(),
    ;

    /// Whether this token is the greatest value of its space.
    fn is_max(&self) -> (b: bool)
        ensures
            b == self.is_max_spec(),
    ;

    /// The forward (clockwise) gap from `self` to `other`.
    fn distance_to(&self, other: &Self) -> (d: Self)
        ensures
            d@ == self.distance_spec(*other)@,
    ;
}

/// Hash-based token over `u64`, the default encoding: uniform distribution
/// from a fast non-cryptographic hash of the key.
#[derive(Clone, Copy, PartialEq, Eq, Structural, PartialOrd, Hash, Debug)]
pub struct Murmur3Token(pub u64);

impl View for Murmur3Token {
    type V = u64;

    open spec fn view(&self) -> u64 {
        self.0
    }
}

/// The clockwise distance between two points of the full `u64` space: the
/// plain difference when `b` is at or past `a`, otherwise the gap wrapping
/// through the top of the space.
pub open spec fn wrap_distance(a: u64, b: u64) -> u64 {
    if b >= a {
        (b - a) as u64
    } else {
        ((u64::MAX - a) + b + 1) as u64
    }
}

impl Token for Murmur3Token {
    open spec fn is_zero_spec(&self) -> bool {
        self.0 == 0
    }

    open spec fn is_max_spec(&self) -> bool {
        self.0 == u64::MAX
    }

    open spec fn distance_spec(self, other: Self) -> Self {
        Murmur3Token(wrap_distance(self.0, other.0))
    }

    fn zero() -> (t: Self)
        ensures
            t.is_zero_spec(),
    {
        Murmur3Token(0)
    }

    fn max() -> (t: Self)
        ensures
            t.is_max_spec(),
    {
        Murmur3Token(u64::MAX)
    }

    fn is_zero(&self) -> (b: bool)
        ensures
            b == self.is_zero_spec(),
    {
        self.0 == 0
    }

    fn is_max(&self) -> (b: bool)
        ensures
            b == self.is_max_spec(),
    {
        self.0 == u64::MAX
    }

    fn distance_to(&self, other: &Self) -> (d: Self)
        ensures
            d@ == self.distance_spec(*other)@,
    {
        if other.0 >= self.0 {
            Murmur3Token(other.0 - self.0)
        } else {
            Murmur3Token((u64::MAX - self.0) + other.0 + 1)
        }
    }
}

impl Murmur3Token {
    /// Creates a token by hashing a byte slice.
    pub fn from_bytes(data: &[u8]) -> (t: Self)
        ensures
            t.0 == sip13_of(data@),
    {
        Murmur3Token(sip13_hash(data))
    }

    /// Creates a token by hashing the bytes of a string key.
    pub fn from_key(key: &str) -> (t: Self)
        ensures
            t.0 == sip13_of(vstd::utf8::encode_utf8(key@)),
    {
        Self::from_bytes(key.as_bytes())
    }
}

/// Token over `u64` seeded from a generic hash of the key: reproducible but
/// with no ordering relation to the key content.
#[derive(Clone, Copy, PartialEq, Eq, Structural, PartialOrd, Hash, Debug)]
pub struct RandomToken(pub u64);

impl View for RandomToken {
    type V = u64;

    open spec fn view(&self) -> u64 {
        self.0
    }
}

impl Token for RandomToken {
    open spec fn is_zero_spec(&self) -> bool {
        self.0 == 0
    }

    open spec fn is_max_spec(&self) -> bool {
        self.0 == u64::MAX
    }

    open spec fn distance_spec(self, other: Self) -> Self {
        RandomToken(wrap_distance(self.0, other.0))
    }

    fn zero() -> (t: Self)
        ensures
            t.is_zero_spec(),
    {
        RandomToken(0)
    }

    fn max() -> (t: Self)
        ensures
            t.is_max_spec(),
    {
        RandomToken(u64::MAX)
    }

    fn is_zero(&self) -> (b: bool)
        ensures
            b == self.is_zero_spec(),
    {
        self.0 == 0
    }

    fn is_max(&self) -> (b: bool)
        ensures
            b == self.is_max_spec(),
    {
        self.0 == u64::MAX
    }

    fn distance_to(&self, other: &Self) -> (d: Self)
        ensures
            d@ == self.distance_spec(*other)@,
    {
        if other.0 >= self.0 {
            RandomToken(other.0 - self.0)
        } else {
            RandomToken((u64::MAX - self.0) + other.0 + 1)
        }
    }
}

impl RandomToken {
    /// Creates a token directly from a 64-bit seed.
    pub fn from_seed(seed: u64) -> (t: Self)
        ensures
            t.0 == seed,
    {
        RandomToken(seed)
    }
}

/// Token holding the raw key bytes: preserves the keys' lexicographic order
/// at the cost of distribution uniformity.
#[derive(Clone, PartialEq, Eq, PartialOrd, Hash, Debug)]
pub struct ByteOrderedToken(pub Vec<u8>);

impl View for ByteOrderedToken {
    type V = Seq<u8>;

    open spec fn view(&self) -> Seq<u8> {
        self.0@
    }
}

impl Token for ByteOrderedToken {
    open spec fn is_zero_spec(&self) -> bool {
        self.0@ == seq![0u8]
    }

    open spec fn is_max_spec(&self) -> bool {
        self.0@ == seq![255u8]
    }

    /// The byte-ordered space has no numeric wraparound arithmetic; the
    /// forward gap is represented by the target position itself.
    open spec fn distance_spec(self, other: Self) -> Self {
        other
    }

    fn zero() -> (t: Self)
        ensures
            t.is_zero_spec(),
    {
        let mut v: Vec<u8> = Vec::new();
        v.push(0u8);
        proof {
            assert(v@ =~= seq![0u8]);
        }
        ByteOrderedToken(v)
    }

    fn max() -> (t: Self)
        ensures
            t.is_max_spec(),
    {
        let mut v: Vec<u8> = Vec::new();
        v.push(255u8);
        proof {
            assert(v@ =~= seq![255u8]);
        }
        ByteOrderedToken(v)
    }

    fn is_zero(&self) -> (b: bool)
        ensures
            b == self.is_zero_spec(),
    {
        let b = self.0.len() == 1 && self.0[0] == 0u8;
        proof {
            if b {
                assert(self.0@ =~= seq![0u8]);
            }
        }
        b
    }

    fn is_max(&self) -> (b: bool)
        ensures
            b == self.is_max_spec(),
    {
        let b = self.0.len() == 1 && self.0[0] == 255u8;
        proof {
            if b {
                assert(self.0@ =~= seq![255u8]);
            }
        }
        b
    }

    fn distance_to(&self, other: &Self) -> (d: Self)
        ensures
            d@ == self.distance_spec(*other)@,
    {
        ByteOrderedToken(vstd::slice::slice_to_vec(other.0.as_slice()))
    }
}

impl ByteOrderedToken {
    /// Creates a token directly from owned bytes.
    pub fn from_bytes(bytes: Vec<u8>) -> (t: Self)
        ensures
            t.0 == bytes,
    {
        ByteOrderedToken(bytes)
    }

    /// Creates a token from the bytes of a string key.
    pub fn from_key(key: &str) -> (t: Self)
        ensures
            t.0@ == vstd::utf8::encode_utf8(key@),
    {
        ByteOrderedToken(vstd::slice::slice_to_vec(key.as_bytes()))
    }
}

} // verus!
