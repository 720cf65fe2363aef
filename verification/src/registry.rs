//! The registry: a collection of tokens and the actions and queries on it.

use vstd::prelude::*;
use crate::address::{PublicAddress, same_address, same_spender};
use crate::events::{SetExclusiveSpenderEvent, SetSpenderEvent, TransferEvent};
use crate::rules::{
    after_set_exclusive_spender, after_set_spender, after_transfer, exclusive_spender_of,
    lemma_exclusive_spender_is_spender, owned_tokens, owns, owns_any, set_spender_refusal,
    spenders_agree, transfer_from_refusal, transfer_refusal,
};
use crate::token::{Token, TokenModel};
use crate::token_map::{EntryModel, RegistryError, TokenMap, distinct_keys, has_key, token_of};

verus! {

/// A named collection of tokens.
#[derive(Debug, PartialEq, Eq)]
pub struct Collection {
    pub name: String,
    pub symbol: String,
    pub tokens: TokenMap,
    pub uri: String,
}

/// A collection's model.
pub struct CollectionModel {
    pub name: Seq<char>,
    pub symbol: Seq<char>,
    pub tokens: Seq<EntryModel>,
    pub uri: Seq<char>,
}

impl View for Collection {
    type V = CollectionModel;

    open spec fn view(&self) -> CollectionModel {
        CollectionModel {
            name: self.name@,
            symbol: self.symbol@,
            tokens: self.tokens@,
            uri: self.uri@,
        }
    }
}

impl Clone for Collection {
    fn clone(&self) -> (r: Collection)
        ensures
            r@ == self@,
            r.tokens.wf() == self.tokens.wf(),
    {
        Collection {
            name: self.name.clone(),
            symbol: self.symbol.clone(),
            tokens: self.tokens.clone(),
            uri: self.uri.clone(),
        }
    }
}

/// The registry of one deployed collection.
#[derive(Debug, PartialEq, Eq)]
pub struct PRFC2Implementor {
    collection: Collection,
}

impl View for PRFC2Implementor {
    type V = CollectionModel;

    closed spec fn view(&self) -> CollectionModel {
        self.collection@
    }
}

impl PRFC2Implementor {
    /// The registry's invariant: every token identifier occurs once.
    pub open spec fn wf(&self) -> bool {
        distinct_keys(self@.tokens)
    }

    /// A registry over `collection`.
    pub fn from_collection(collection: Collection) -> (r: PRFC2Implementor)
        requires
            collection.tokens.wf(),
        ensures
            r.wf(),
            r@ == collection@,
    {
        PRFC2Implementor { collection: collection }
    }

    /// A snapshot of the whole collection.
    pub fn collection(&self) -> (r: Collection)
        ensures
            r@ == self@,
            self.wf() ==> r.tokens.wf(),
    {
        self.collection.clone()
    }

    /// The tokens that `address` owns, in the map's order.
    pub fn tokens_owned(&self, address: PublicAddress) -> (r: Vec<Token>)
        ensures
            r@.map_values(|t: Token| t@) == owned_tokens(self@.tokens, address),
    {
        let ghost all = self@.tokens.map_values(|e: EntryModel| e.token);
        let ghost pred = |t: TokenModel| t.owner == address;
        let n: usize = self.collection.tokens.len();
        let mut out: Vec<Token> = Vec::new();
        let mut i: usize = 0;
        proof {
            reveal(Seq::filter);
            assert(all.take(0) =~= Seq::<TokenModel>::empty());
            assert(out@.map_values(|t: Token| t@) =~= all.take(0).filter(pred));
        }
        while i < n
            invariant
                i <= n,
                n == self@.tokens.len(),
                all == self@.tokens.map_values(|e: EntryModel| e.token),
                pred == |t: TokenModel| t.owner == address,
                out@.map_values(|t: Token| t@) == all.take(i as int).filter(pred),
            decreases n - i,
        {
            let t = self.collection.tokens.token_at(i);
            let ghost before = out@.map_values(|t: Token| t@);
            let keep = same_address(&t.owner, &address);
            if keep {
                out.push(t.clone());
            }
            proof {
                reveal(Seq::filter);
                let next = all.take(i as int + 1);
                assert(next.drop_last() =~= all.take(i as int));
                assert(next.last() == t@);
                if keep {
                    assert(out@.map_values(|t: Token| t@) =~= before.push(t@));
                }
                assert(out@.map_values(|t: Token| t@) =~= next.filter(pred));
            }
            i += 1;
        }
        proof {
            assert(all.take(n as int) =~= all);
        }
        out
    }

    /// The owner of the token `token_id`; `NotFound` exactly where there is no
    /// such token.
    pub fn get_owner(&self, token_id: &String) -> (r: Result<PublicAddress, RegistryError>)
        requires
            self.wf(),
        ensures
            match r {
                Ok(a) => has_key(self@.tokens, token_id@) && a == token_of(
                    self@.tokens,
                    token_id@,
                ).owner,
                Err(e) => !has_key(self@.tokens, token_id@) && e == RegistryError::NotFound,
            },
    {
        match self.collection.tokens.position(token_id) {
            Some(i) => Ok(self.collection.tokens.token_at(i).owner),
            None => Err(RegistryError::NotFound),
        }
    }

    /// The spender of the token `token_id`, if it has one; `NotFound` exactly
    /// where there is no such token.
    pub fn get_spender(&self, token_id: &String) -> (r: Result<
        Option<PublicAddress>,
        RegistryError,
    >)
        requires
            self.wf(),
        ensures
            match r {
                Ok(a) => has_key(self@.tokens, token_id@) && a == token_of(
                    self@.tokens,
                    token_id@,
                ).spender,
                Err(e) => !has_key(self@.tokens, token_id@) && e == RegistryError::NotFound,
            },
    {
        match self.collection.tokens.position(token_id) {
            Some(i) => Ok(self.collection.tokens.token_at(i).spender),
            None => Err(RegistryError::NotFound),
        }
    }

    /// The spender that all tokens of `for_address` have in common, or `None`
    /// where it owns no token, where its tokens disagree, or where none of them
    /// has a spender.
    pub fn get_exclusive_spender(&self, for_address: PublicAddress) -> (r: Option<PublicAddress>)
        ensures
            r == exclusive_spender_of(self@.tokens, for_address),
    {
        let ghost s = self@.tokens;
        let n: usize = self.collection.tokens.len();
        let mut first: Option<usize> = None;
        let mut i: usize = 0;
        while i < n
            invariant
                i <= n,
                n == s.len(),
                s == self@.tokens,
                first is None ==> forall|j: int| 0 <= j < i ==> !owns(s, j, for_address),
                first matches Some(f) ==> f < i && owns(s, f as int, for_address) && forall|j: int|
                    0 <= j < i && owns(s, j, for_address) ==> s[j].token.spender == s[f as int].token.spender,
            decreases n - i,
        {
            let t = self.collection.tokens.token_at(i);
            if same_address(&t.owner, &for_address) {
                match first {
                    None => {
                        first = Some(i);
                    },
                    Some(f) => {
                        let head = self.collection.tokens.token_at(f);
                        if !same_spender(&t.spender, &head.spender) {
                            proof {
                                assert(owns(s, i as int, for_address));
                                assert(owns(s, f as int, for_address));
                                assert(!spenders_agree(s, for_address));
                            }
                            return None;
                        }
                    },
                }
            }
            i += 1;
        }
        match first {
            None => {
                proof {
                    assert(!owns_any(s, for_address));
                }
                None
            },
            Some(f) => {
                proof {
                    assert(owns(s, f as int, for_address));
                    assert(owns_any(s, for_address));
                    let c = choose|c: int| owns(s, c, for_address);
                    assert(owns(s, c, for_address));
                    assert(spenders_agree(s, for_address));
                }
                self.collection.tokens.token_at(f).spender
            },
        }
    }

    /// The owner `caller` hands the token `token_id` to `to_address`. On success
    /// the token belongs to `to_address` and names no spender; on refusal
    /// nothing has changed.
    pub fn transfer(&mut self, caller: PublicAddress, token_id: String, to_address: PublicAddress) -> (r:
        Result<TransferEvent, RegistryError>)
        requires
            old(self).wf(),
        ensures
            final(self).wf(),
            final(self)@.name == old(self)@.name,
            final(self)@.symbol == old(self)@.symbol,
            final(self)@.uri == old(self)@.uri,
            match r {
                Ok(event) => {
                    &&& transfer_refusal(old(self)@.tokens, caller, token_id@) is None
                    &&& final(self)@.tokens == after_transfer(
                        old(self)@.tokens,
                        token_id@,
                        to_address,
                    )
                    &&& event.owner_address == caller
                    &&& event.recipient_address == to_address
                    &&& event.token_id@ == token_id@
                },
                Err(e) => {
                    &&& transfer_refusal(old(self)@.tokens, caller, token_id@) == Some(e)
                    &&& final(self)@ == old(self)@
                },
            },
    {
        let i = match self.collection.tokens.position(&token_id) {
            Some(i) => i,
            None => {
                return Err(RegistryError::NotFound);
            },
        };
        let t = self.collection.tokens.token_at(i);
        if !same_address(&t.owner, &caller) {
            return Err(RegistryError::Unauthorized);
        }
        let moved = t.moved_to(to_address);
        self.collection.tokens.set_token_at(i, moved);
        Ok(TransferEvent { owner_address: caller, recipient_address: to_address, token_id: token_id })
    }

    /// The spender `caller` hands the token `token_id` of `from_address` to
    /// `to_address`. On success the token belongs to `to_address` and names no
    /// spender; on refusal nothing has changed.
    pub fn transfer_from(
        &mut self,
        caller: PublicAddress,
        from_address: PublicAddress,
        to_address: PublicAddress,
        token_id: String,
    ) -> (r: Result<TransferEvent, RegistryError>)
        requires
            old(self).wf(),
        ensures
            final(self).wf(),
            final(self)@.name == old(self)@.name,
            final(self)@.symbol == old(self)@.symbol,
            final(self)@.uri == old(self)@.uri,
            match r {
                Ok(event) => {
                    &&& transfer_from_refusal(old(self)@.tokens, caller, from_address, token_id@) is None
                    &&& final(self)@.tokens == after_transfer(
                        old(self)@.tokens,
                        token_id@,
                        to_address,
                    )
                    &&& event.owner_address == from_address
                    &&& event.recipient_address == to_address
                    &&& event.token_id@ == token_id@
                },
                Err(e) => {
                    &&& transfer_from_refusal(old(self)@.tokens, caller, from_address, token_id@)
                        == Some(e)
                    &&& final(self)@ == old(self)@
                },
            },
    {
        let i = match self.collection.tokens.position(&token_id) {
            Some(i) => i,
            None => {
                return Err(RegistryError::NotFound);
            },
        };
        let t = self.collection.tokens.token_at(i);
        let owned = same_address(&t.owner, &from_address);
        let allowed = same_spender(&t.spender, &Some(caller));
        proof {
            if owned && exclusive_spender_of(self@.tokens, from_address) == Some(caller) {
                lemma_exclusive_spender_is_spender(self@.tokens, i as int);
            }
        }
        if !(owned && allowed) {
            return Err(RegistryError::Unauthorized);
        }
        let moved = t.moved_to(to_address);
        self.collection.tokens.set_token_at(i, moved);
        Ok(
            TransferEvent {
                owner_address: from_address,
                recipient_address: to_address,
                token_id: token_id,
            },
        )
    }

    /// The owner `caller` names `spender_address` as the spender of the token
    /// `token_id`, or nobody. Refused while the caller has an exclusive spender
    /// other than `spender_address`; on refusal nothing has changed.
    pub fn set_spender(
        &mut self,
        caller: PublicAddress,
        token_id: String,
        spender_address: Option<PublicAddress>,
    ) -> (r: Result<SetSpenderEvent, RegistryError>)
        requires
            old(self).wf(),
        ensures
            final(self).wf(),
            final(self)@.name == old(self)@.name,
            final(self)@.symbol == old(self)@.symbol,
            final(self)@.uri == old(self)@.uri,
            match r {
                Ok(event) => {
                    &&& set_spender_refusal(old(self)@.tokens, caller, token_id@, spender_address) is None
                    &&& final(self)@.tokens == after_set_spender(
                        old(self)@.tokens,
                        token_id@,
                        spender_address,
                    )
                    &&& event.spender_address == spender_address
                    &&& event.token_id@ == token_id@
                },
                Err(e) => {
                    &&& set_spender_refusal(old(self)@.tokens, caller, token_id@, spender_address)
                        == Some(e)
                    &&& final(self)@ == old(self)@
                },
            },
    {
        let i = match self.collection.tokens.position(&token_id) {
            Some(i) => i,
            None => {
                return Err(RegistryError::NotFound);
            },
        };
        let t = self.collection.tokens.token_at(i);
        if !same_address(&t.owner, &caller) {
            return Err(RegistryError::Unauthorized);
        }
        let standing = self.get_exclusive_spender(caller);
        if standing.is_some() && !same_spender(&standing, &spender_address) {
            return Err(RegistryError::Unauthorized);
        }
        let changed = t.with_spender(spender_address);
        self.collection.tokens.set_token_at(i, changed);
        Ok(SetSpenderEvent { spender_address: spender_address, token_id: token_id })
    }

    /// `caller` names `spender_address` as the spender of every token it owns,
    /// or nobody. Tokens of other owners stay as they are.
    pub fn set_exclusive_spender(
        &mut self,
        caller: PublicAddress,
        spender_address: Option<PublicAddress>,
    ) -> (r: SetExclusiveSpenderEvent)
        requires
            old(self).wf(),
        ensures
            final(self).wf(),
            final(self)@.name == old(self)@.name,
            final(self)@.symbol == old(self)@.symbol,
            final(self)@.uri == old(self)@.uri,
            final(self)@.tokens == after_set_exclusive_spender(
                old(self)@.tokens,
                caller,
                spender_address,
            ),
            r.owner_address == caller,
            r.spender_address == spender_address,
    {
        let ghost before = self@.tokens;
        let ghost after = after_set_exclusive_spender(before, caller, spender_address);
        let n: usize = self.collection.tokens.len();
        let mut i: usize = 0;
        while i < n
            invariant
                i <= n,
                n == before.len(),
                self.wf(),
                self@.name == old(self)@.name,
                self@.symbol == old(self)@.symbol,
                self@.uri == old(self)@.uri,
                before == old(self)@.tokens,
                after == after_set_exclusive_spender(before, caller, spender_address),
                self@.tokens.len() == n,
                forall|j: int| 0 <= j < i ==> self@.tokens[j] == after[j],
                forall|j: int| i <= j < n ==> self@.tokens[j] == before[j],
            decreases n - i,
        {
            let t = self.collection.tokens.token_at(i);
            if same_address(&t.owner, &caller) {
                let changed = t.with_exclusive_spender(spender_address);
                self.collection.tokens.set_token_at(i, changed);
            }
            i += 1;
        }
        proof {
            assert(self@.tokens =~= after);
        }
        SetExclusiveSpenderEvent { owner_address: caller, spender_address: spender_address }
    }
}

} // verus!
