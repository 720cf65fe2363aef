//! The rules of ownership and authorization, stated over the model of the
//! token map: who may do what, and what each action leaves behind.

use vstd::prelude::*;
use crate::address::PublicAddress;
use crate::token::TokenModel;
use crate::token_map::{EntryModel, RegistryError, has_key, index_of, token_of, with_token_at};

verus! {

/// The entry at place `i` holds a token of `address`.
pub open spec fn owns(s: Seq<EntryModel>, i: int, address: PublicAddress) -> bool {
    0 <= i < s.len() && s[i].token.owner == address
}

/// `address` owns at least one token.
pub open spec fn owns_any(s: Seq<EntryModel>, address: PublicAddress) -> bool {
    exists|i: int| owns(s, i, address)
}

/// All tokens of `address` name the same spender, or all name none.
pub open spec fn spenders_agree(s: Seq<EntryModel>, address: PublicAddress) -> bool {
    forall|i: int, j: int|
        owns(s, i, address) && owns(s, j, address) ==> s[i].token.spender == s[j].token.spender
}

/// The spender that every token of `address` names. There is none where
/// `address` owns nothing, where its tokens disagree, and where they agree on
/// naming nobody.
pub open spec fn exclusive_spender_of(s: Seq<EntryModel>, address: PublicAddress) -> Option<
    PublicAddress,
> {
    if owns_any(s, address) && spenders_agree(s, address) {
        s[choose|i: int| owns(s, i, address)].token.spender
    } else {
        None
    }
}

/// The tokens that `address` owns, in the map's order.
pub open spec fn owned_tokens(s: Seq<EntryModel>, address: PublicAddress) -> Seq<TokenModel> {
    s.map_values(|e: EntryModel| e.token).filter(|t: TokenModel| t.owner == address)
}

/// Why `caller` may not transfer the token `id` as its owner, if it may not.
pub open spec fn transfer_refusal(s: Seq<EntryModel>, caller: PublicAddress, id: Seq<char>) -> Option<
    RegistryError,
> {
    if !has_key(s, id) {
        Some(RegistryError::NotFound)
    } else if token_of(s, id).owner != caller {
        Some(RegistryError::Unauthorized)
    } else {
        None
    }
}

/// `caller` may move the token `id` out of the hands of `from`: `from` owns it,
/// and `caller` is the token's spender or the exclusive spender of `from`.
pub open spec fn may_transfer_from(
    s: Seq<EntryModel>,
    caller: PublicAddress,
    from: PublicAddress,
    id: Seq<char>,
) -> bool {
    token_of(s, id).owner == from && (token_of(s, id).spender == Some(caller)
        || exclusive_spender_of(s, from) == Some(caller))
}

/// Why `caller` may not transfer the token `id` on behalf of `from`, if it may
/// not.
pub open spec fn transfer_from_refusal(
    s: Seq<EntryModel>,
    caller: PublicAddress,
    from: PublicAddress,
    id: Seq<char>,
) -> Option<RegistryError> {
    if !has_key(s, id) {
        Some(RegistryError::NotFound)
    } else if !may_transfer_from(s, caller, from, id) {
        Some(RegistryError::Unauthorized)
    } else {
        None
    }
}

/// Why `caller` may not set the spender of the token `id` to `spender`, if it
/// may not: it must own the token, and a standing exclusive spender of the
/// caller admits no other value.
pub open spec fn set_spender_refusal(
    s: Seq<EntryModel>,
    caller: PublicAddress,
    id: Seq<char>,
    spender: Option<PublicAddress>,
) -> Option<RegistryError> {
    if !has_key(s, id) {
        Some(RegistryError::NotFound)
    } else if token_of(s, id).owner != caller {
        Some(RegistryError::Unauthorized)
    } else if exclusive_spender_of(s, caller) is Some && exclusive_spender_of(s, caller) != spender {
        Some(RegistryError::Unauthorized)
    } else {
        None
    }
}

/// The map after the token `id` went to `to`.
pub open spec fn after_transfer(s: Seq<EntryModel>, id: Seq<char>, to: PublicAddress) -> Seq<
    EntryModel,
> {
    with_token_at(s, index_of(s, id), token_of(s, id).moved_to(to))
}

/// The map after the token `id` got the spender `spender`.
pub open spec fn after_set_spender(
    s: Seq<EntryModel>,
    id: Seq<char>,
    spender: Option<PublicAddress>,
) -> Seq<EntryModel> {
    with_token_at(s, index_of(s, id), token_of(s, id).with_spender(spender))
}

/// The map after `owner` set `spender` over all its tokens: each of them names
/// it, every other token is as it was.
pub open spec fn after_set_exclusive_spender(
    s: Seq<EntryModel>,
    owner: PublicAddress,
    spender: Option<PublicAddress>,
) -> Seq<EntryModel> {
    Seq::new(
        s.len(),
        |i: int|
            if s[i].token.owner == owner {
                EntryModel { key: s[i].key, token: s[i].token.with_exclusive_spender(spender) }
            } else {
                s[i]
            },
    )
}

/// Where the owner of a token has an exclusive spender, the token names that
/// spender itself.
pub proof fn lemma_exclusive_spender_is_spender(s: Seq<EntryModel>, i: int)
    requires
        0 <= i < s.len(),
        exclusive_spender_of(s, s[i].token.owner) is Some,
    ensures
        s[i].token.spender == exclusive_spender_of(s, s[i].token.owner),
{
    let a = s[i].token.owner;
    assert(owns(s, i, a));
    let c = choose|c: int| owns(s, c, a);
    assert(owns(s, c, a));
}

} // verus!
