//! Ring positions: a token paired with the partitioner that produced it.
//!
//! The pairing is enforced by the type system: a position can only combine
//! a token kind with a partitioner producing that kind, so mismatched pairs
//! cannot be constructed.

use crate::partitioner::Partitioner;
use crate::token::Token;
use vstd::prelude::*;

verus! {

/// A self-describing, ordered ring coordinate: a token together with its
/// partitioner.
#[verifier::reject_recursive_types(T)]
#[verifier::reject_recursive_types(P)]
pub struct Position<T: Token, P: Partitioner<TokenType = T>> {
    token: T,
    partitioner: P,
}

impl<T: Token, P: Partitioner<TokenType = T>> Position<T, P> {
    /// The position's token.
    pub closed spec fn spec_token(self) -> T {
        self.token
    }

    /// The partitioner that produced the token.
    pub closed spec fn spec_partitioner(self) -> P {
        self.partitioner
    }

    /// Creates a position from a token and its partitioner.
    pub fn new(token: T, partitioner: P) -> (r: Self)
        ensures
            r.spec_token() == token,
            r.spec_partitioner() == partitioner,
    {
        Position { token, partitioner }
    }

    /// Borrow the token.
    pub fn token(&self) -> (t: &T)
        ensures
            *t == self.spec_token(),
    {
        &self.token
    }

    /// Borrow the partitioner.
    pub fn partitioner(&self) -> (p: &P)
        ensures
            *p == self.spec_partitioner(),
    {
        &self.partitioner
    }

    /// Whether this position sits at the minimum of its token space.
    pub fn is_minimum(&self) -> (b: bool)
        ensures
            b == self.spec_token().is_zero_spec(),
    {
        self.token.is_zero()
    }

    /// Whether this position sits at the maximum of its token space.
    pub fn is_maximum(&self) -> (b: bool)
        ensures
            b == self.spec_token().is_max_spec(),
    {
        self.token.is_max()
    }

    /// The position at the minimum of this position's token space.
    pub fn min_value(&self) -> (r: Self)
        ensures
            r.spec_token().is_zero_spec(),
            r.spec_partitioner() == self.spec_partitioner(),
    {
        Position { token: self.partitioner.min_token(), partitioner: self.partitioner }
    }

    /// The position at the maximum of this position's token space.
    pub fn max_value(&self) -> (r: Self)
        ensures
            r.spec_token().is_max_spec(),
            r.spec_partitioner() == self.spec_partitioner(),
    {
        Position { token: self.partitioner.max_token(), partitioner: self.partitioner }
    }
}

} // verus!
