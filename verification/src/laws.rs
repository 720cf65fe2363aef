//! What holds of the registry's rules in every state.

use vstd::prelude::*;
use crate::address::PublicAddress;
use crate::rules::{
    after_set_exclusive_spender, after_set_spender, after_transfer, exclusive_spender_of,
    lemma_exclusive_spender_is_spender, may_transfer_from, owns, owns_any, spenders_agree,
    transfer_from_refusal, transfer_refusal,
};
use crate::token_map::{
    EntryModel, RegistryError, distinct_keys, has_key, index_of, lemma_index_of_unique,
    lemma_with_token_at_keys, token_of,
};

verus! {

/// After a transfer the token belongs to the recipient, names no spender, and
/// nobody can move it on another's behalf: every authorization that the
/// previous owner gave is gone.
pub proof fn law_transfer_moves_and_revokes(
    s: Seq<EntryModel>,
    id: Seq<char>,
    to: PublicAddress,
    caller: PublicAddress,
    from: PublicAddress,
)
    requires
        distinct_keys(s),
        has_key(s, id),
    ensures
        distinct_keys(after_transfer(s, id, to)),
        has_key(after_transfer(s, id, to), id),
        token_of(after_transfer(s, id, to), id).owner == to,
        token_of(after_transfer(s, id, to), id).spender is None,
        token_of(after_transfer(s, id, to), id).exclusive_spender is None,
        !may_transfer_from(after_transfer(s, id, to), caller, from, id),
        transfer_from_refusal(after_transfer(s, id, to), caller, from, id) == Some(
            RegistryError::Unauthorized,
        ),
{
    let i = index_of(s, id);
    let a = after_transfer(s, id, to);
    lemma_with_token_at_keys(s, i, token_of(s, id).moved_to(to));
    assert(index_of(a, id) == i);
    assert(a[i].token.spender is None);
    if exclusive_spender_of(a, to) is Some {
        lemma_exclusive_spender_is_spender(a, i);
    }
}

/// A transfer leaves every other token as it was.
pub proof fn law_transfer_touches_one_token(
    s: Seq<EntryModel>,
    id: Seq<char>,
    to: PublicAddress,
    other: Seq<char>,
)
    requires
        distinct_keys(s),
        has_key(s, id),
        has_key(s, other),
        other != id,
    ensures
        has_key(after_transfer(s, id, to), other),
        token_of(after_transfer(s, id, to), other) == token_of(s, other),
{
    let i = index_of(s, id);
    lemma_with_token_at_keys(s, i, token_of(s, id).moved_to(to));
}

/// A transfer by its owner is refused as unauthorized exactly where the token
/// exists and the caller does not own it; a transfer on an owner's behalf,
/// exactly where the token exists and the named owner does not own it or the
/// caller is neither its spender nor that owner's exclusive spender.
pub proof fn law_unauthorized_transfers(
    s: Seq<EntryModel>,
    caller: PublicAddress,
    from: PublicAddress,
    id: Seq<char>,
)
    ensures
        transfer_refusal(s, caller, id) == Some(RegistryError::Unauthorized) <==> has_key(s, id)
            && token_of(s, id).owner != caller,
        has_key(s, id) && token_of(s, id).owner != from ==> transfer_from_refusal(
            s,
            caller,
            from,
            id,
        ) == Some(RegistryError::Unauthorized),
        has_key(s, id) && token_of(s, id).spender != Some(caller) && exclusive_spender_of(s, from)
            != Some(caller) ==> transfer_from_refusal(s, caller, from, id) == Some(
            RegistryError::Unauthorized,
        ),
        transfer_from_refusal(s, caller, from, id) is None ==> token_of(s, id).owner == from
            && token_of(s, id).spender == Some(caller),
{
    if transfer_from_refusal(s, caller, from, id) is None {
        let i = index_of(s, id);
        if exclusive_spender_of(s, from) == Some(caller) {
            lemma_exclusive_spender_is_spender(s, i);
        }
    }
}

/// After an owner set its exclusive spender, each of its tokens names that
/// spender, and the tokens of every other owner are as they were.
pub proof fn law_exclusive_spender_reaches_owned_tokens(
    s: Seq<EntryModel>,
    owner: PublicAddress,
    spender: Option<PublicAddress>,
    id: Seq<char>,
)
    requires
        distinct_keys(s),
        has_key(s, id),
    ensures
        distinct_keys(after_set_exclusive_spender(s, owner, spender)),
        has_key(after_set_exclusive_spender(s, owner, spender), id),
        token_of(after_set_exclusive_spender(s, owner, spender), id).owner == token_of(s, id).owner,
        token_of(s, id).owner == owner ==> token_of(
            after_set_exclusive_spender(s, owner, spender),
            id,
        ).spender == spender,
        token_of(s, id).owner != owner ==> token_of(
            after_set_exclusive_spender(s, owner, spender),
            id,
        ) == token_of(s, id),
{
    let a = after_set_exclusive_spender(s, owner, spender);
    assert forall|i: int, j: int| 0 <= i < j < a.len() implies (#[trigger] a[i]).key != (
    #[trigger] a[j]).key by {
        assert(a[i].key == s[i].key);
        assert(a[j].key == s[j].key);
    }
    let i = index_of(s, id);
    assert(a[i].key == id);
    lemma_index_of_unique(a, i);
}

/// After an owner with at least one token set its exclusive spender, that
/// spender is the owner's exclusive spender.
pub proof fn law_exclusive_spender_is_reported(
    s: Seq<EntryModel>,
    owner: PublicAddress,
    spender: Option<PublicAddress>,
)
    requires
        owns_any(s, owner),
    ensures
        exclusive_spender_of(after_set_exclusive_spender(s, owner, spender), owner) == spender,
{
    let a = after_set_exclusive_spender(s, owner, spender);
    let w = choose|i: int| owns(s, i, owner);
    assert(owns(a, w, owner));
    assert forall|i: int, j: int| owns(a, i, owner) && owns(a, j, owner) implies a[i].token.spender
        == a[j].token.spender by {
        assert(a[i].token.spender == spender);
        assert(a[j].token.spender == spender);
    }
    let c = choose|i: int| owns(a, i, owner);
    assert(owns(a, c, owner));
    assert(a[c].token.spender == spender);
}

/// An address has no exclusive spender where it owns no token and where its
/// tokens name different spenders; otherwise its exclusive spender is the
/// spender that each of its tokens names.
pub proof fn law_exclusive_spender_cases(s: Seq<EntryModel>, address: PublicAddress)
    ensures
        !owns_any(s, address) ==> exclusive_spender_of(s, address) is None,
        !spenders_agree(s, address) ==> exclusive_spender_of(s, address) is None,
        owns_any(s, address) && spenders_agree(s, address) ==> forall|i: int|
            owns(s, i, address) ==> s[i].token.spender == exclusive_spender_of(s, address),
{
    if owns_any(s, address) && spenders_agree(s, address) {
        let c = choose|i: int| owns(s, i, address);
        assert(owns(s, c, address));
    }
}

/// Setting one token's spender changes that token's spender and nothing else
/// about it.
pub proof fn law_set_spender_sets_it(
    s: Seq<EntryModel>,
    id: Seq<char>,
    spender: Option<PublicAddress>,
)
    requires
        distinct_keys(s),
        has_key(s, id),
    ensures
        has_key(after_set_spender(s, id, spender), id),
        token_of(after_set_spender(s, id, spender), id) == token_of(s, id).with_spender(spender),
{
    let i = index_of(s, id);
    lemma_with_token_at_keys(s, i, token_of(s, id).with_spender(spender));
}

} // verus!
