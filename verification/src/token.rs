//! One token of the collection and its mathematical model.

use vstd::prelude::*;
use crate::address::PublicAddress;

verus! {

/// A token: descriptive fields that never change, and the three fields that
/// the registry's actions write.
#[derive(Debug, PartialEq, Eq)]
pub struct Token {
    pub owner: PublicAddress,
    pub spender: Option<PublicAddress>,
    pub uri: String,
    pub metadata: String,
    pub name: String,
    pub id: String,
    pub exclusive_spender: Option<PublicAddress>,
}

/// What a token is, with its texts as sequences of characters.
pub struct TokenModel {
    pub owner: PublicAddress,
    pub spender: Option<PublicAddress>,
    pub uri: Seq<char>,
    pub metadata: Seq<char>,
    pub name: Seq<char>,
    pub id: Seq<char>,
    pub exclusive_spender: Option<PublicAddress>,
}

impl View for Token {
    type V = TokenModel;

    open spec fn view(&self) -> TokenModel {
        TokenModel {
            owner: self.owner,
            spender: self.spender,
            uri: self.uri@,
            metadata: self.metadata@,
            name: self.name@,
            id: self.id@,
            exclusive_spender: self.exclusive_spender,
        }
    }
}

impl TokenModel {
    /// The token after a change of ownership: the new owner holds it, and no
    /// authorization given by the previous owner survives.
    pub open spec fn moved_to(self, to: PublicAddress) -> TokenModel {
        TokenModel { owner: to, spender: None, exclusive_spender: None, ..self }
    }

    /// The token with another single-token authorization.
    pub open spec fn with_spender(self, spender: Option<PublicAddress>) -> TokenModel {
        TokenModel { spender: spender, ..self }
    }

    /// The token under a blanket authorization of its owner.
    pub open spec fn with_exclusive_spender(self, spender: Option<PublicAddress>) -> TokenModel {
        TokenModel { spender: spender, exclusive_spender: spender, ..self }
    }
}

impl Clone for Token {
    fn clone(&self) -> (r: Token)
        ensures
            r@ == self@,
    {
        Token {
            owner: self.owner,
            spender: self.spender,
            uri: self.uri.clone(),
            metadata: self.metadata.clone(),
            name: self.name.clone(),
            id: self.id.clone(),
            exclusive_spender: self.exclusive_spender,
        }
    }
}

impl Token {
    /// A copy of this token held by `to`, with both authorizations cleared.
    pub fn moved_to(&self, to: PublicAddress) -> (r: Token)
        ensures
            r@ == self@.moved_to(to),
    {
        Token {
            owner: to,
            spender: None,
            uri: self.uri.clone(),
            metadata: self.metadata.clone(),
            name: self.name.clone(),
            id: self.id.clone(),
            exclusive_spender: None,
        }
    }

    /// A copy of this token with `spender` as its single-token authorization.
    pub fn with_spender(&self, spender: Option<PublicAddress>) -> (r: Token)
        ensures
            r@ == self@.with_spender(spender),
    {
        Token {
            owner: self.owner,
            spender: spender,
            uri: self.uri.clone(),
            metadata: self.metadata.clone(),
            name: self.name.clone(),
            id: self.id.clone(),
            exclusive_spender: self.exclusive_spender,
        }
    }

    /// A copy of this token with `spender` written as its owner's blanket
    /// authorization.
    pub fn with_exclusive_spender(&self, spender: Option<PublicAddress>) -> (r: Token)
        ensures
            r@ == self@.with_exclusive_spender(spender),
    {
        Token {
            owner: self.owner,
            spender: spender,
            uri: self.uri.clone(),
            metadata: self.metadata.clone(),
            name: self.name.clone(),
            id: self.id.clone(),
            exclusive_spender: spender,
        }
    }
}

} // verus!
