//! The token map: identifiers to tokens, each identifier at most once, kept in
//! the order in which the identifiers were first inserted.

use vstd::prelude::*;
use crate::token::{Token, TokenModel};

verus! {

/// Why an action or a lookup was refused.
#[derive(Clone, Copy, Debug, PartialEq, Eq, Structural)]
pub enum RegistryError {
    /// No token has the identifier that was asked for.
    NotFound,
    /// The caller has no right to do what it asked.
    Unauthorized,
    /// Bytes that should hold a collection do not have its layout.
    DecodeError,
}

/// One identifier with its token.
#[derive(Debug, PartialEq, Eq)]
pub struct Entry {
    pub key: String,
    pub token: Token,
}

/// An entry's model.
pub struct EntryModel {
    pub key: Seq<char>,
    pub token: TokenModel,
}

impl View for Entry {
    type V = EntryModel;

    open spec fn view(&self) -> EntryModel {
        EntryModel { key: self.key@, token: self.token@ }
    }
}

/// No identifier stands at two places.
pub open spec fn distinct_keys(s: Seq<EntryModel>) -> bool {
    forall|i: int, j: int| 0 <= i < j < s.len() ==> (#[trigger] s[i]).key != (#[trigger] s[j]).key
}

/// Some entry has the identifier `key`.
pub open spec fn has_key(s: Seq<EntryModel>, key: Seq<char>) -> bool {
    exists|i: int| 0 <= i < s.len() && (#[trigger] s[i]).key == key
}

/// The place of the entry with identifier `key`, where there is one.
pub open spec fn index_of(s: Seq<EntryModel>, key: Seq<char>) -> int {
    choose|i: int| 0 <= i < s.len() && (#[trigger] s[i]).key == key
}

/// The token with identifier `key`, where there is one.
pub open spec fn token_of(s: Seq<EntryModel>, key: Seq<char>) -> TokenModel {
    s[index_of(s, key)].token
}

/// The entries with the token at place `i` replaced by `token`.
pub open spec fn with_token_at(s: Seq<EntryModel>, i: int, token: TokenModel) -> Seq<EntryModel> {
    s.update(i, EntryModel { key: s[i].key, token: token })
}

/// The entries after `key` was given `token`: replaced in place where the key
/// was there, added at the end where it was not.
pub open spec fn inserted(s: Seq<EntryModel>, key: Seq<char>, token: TokenModel) -> Seq<EntryModel> {
    if has_key(s, key) {
        with_token_at(s, index_of(s, key), token)
    } else {
        s.push(EntryModel { key: key, token: token })
    }
}

/// The tokens of the entries, in order.
pub open spec fn tokens_of(s: Seq<EntryModel>) -> Seq<TokenModel> {
    s.map_values(|e: EntryModel| e.token)
}

/// In a map with distinct identifiers, the entry at place `i` is the one that
/// its identifier finds.
pub proof fn lemma_index_of_unique(s: Seq<EntryModel>, i: int)
    requires
        distinct_keys(s),
        0 <= i < s.len(),
    ensures
        has_key(s, s[i].key),
        index_of(s, s[i].key) == i,
{
    let k = s[i].key;
    let j = index_of(s, k);
    assert(0 <= j < s.len() && s[j].key == k);
    if j < i {
        assert(s[j].key != s[i].key);
    } else if i < j {
        assert(s[i].key != s[j].key);
    }
}

/// Replacing a token in place keeps every identifier where it was.
pub proof fn lemma_with_token_at_keys(s: Seq<EntryModel>, i: int, token: TokenModel)
    requires
        distinct_keys(s),
        0 <= i < s.len(),
    ensures
        distinct_keys(with_token_at(s, i, token)),
        forall|k: Seq<char>| has_key(with_token_at(s, i, token), k) == has_key(s, k),
        forall|k: Seq<char>| has_key(s, k) ==> index_of(with_token_at(s, i, token), k) == index_of(s, k),
{
    let t = with_token_at(s, i, token);
    assert forall|a: int, b: int| 0 <= a < b < t.len() implies (#[trigger] t[a]).key != (#[trigger] t[b]).key by {
        assert(t[a].key == s[a].key);
        assert(t[b].key == s[b].key);
    }
    assert forall|k: Seq<char>| has_key(t, k) == has_key(s, k) by {
        if has_key(s, k) {
            let j = index_of(s, k);
            assert(t[j].key == k);
        }
        if has_key(t, k) {
            let j = index_of(t, k);
            assert(s[j].key == k);
        }
    }
    assert forall|k: Seq<char>| has_key(s, k) implies index_of(t, k) == index_of(s, k) by {
        let j = index_of(s, k);
        assert(t[j].key == k);
        lemma_index_of_unique(t, j);
    }
}

/// The token map.
#[derive(Debug, PartialEq, Eq)]
pub struct TokenMap {
    entries: Vec<Entry>,
}

impl View for TokenMap {
    type V = Seq<EntryModel>;

    closed spec fn view(&self) -> Seq<EntryModel> {
        self.entries@.map_values(|e: Entry| e@)
    }
}

impl Clone for TokenMap {
    fn clone(&self) -> (r: TokenMap)
        ensures
            r@ == self@,
            r.wf() == self.wf(),
    {
        let mut entries: Vec<Entry> = Vec::new();
        let mut i: usize = 0;
        while i < self.entries.len()
            invariant
                i <= self.entries.len(),
                entries@.len() == i,
                forall|j: int| 0 <= j < i ==> (#[trigger] entries@[j])@ == self.entries@[j]@,
            decreases self.entries.len() - i,
        {
            let e = &self.entries[i];
            entries.push(Entry { key: e.key.clone(), token: e.token.clone() });
            i += 1;
        }
        let r = TokenMap { entries: entries };
        proof {
            assert(r@ =~= self@);
        }
        r
    }
}

impl TokenMap {
    /// The map's invariant: every identifier occurs once.
    pub open spec fn wf(&self) -> bool {
        distinct_keys(self@)
    }

    /// An empty map.
    pub fn new() -> (r: TokenMap)
        ensures
            r.wf(),
            r@ == Seq::<EntryModel>::empty(),
    {
        let r = TokenMap { entries: Vec::new() };
        proof {
            assert(r@ =~= Seq::<EntryModel>::empty());
        }
        r
    }

    /// The map that holds `entries` in their order, where no identifier occurs
    /// twice among them.
    pub fn from_entries(entries: Vec<Entry>) -> (r: Option<TokenMap>)
        ensures
            r is Some <==> distinct_keys(entries@.map_values(|e: Entry| e@)),
            r matches Some(m) ==> m.wf() && m@ == entries@.map_values(|e: Entry| e@),
    {
        let ghost s = entries@.map_values(|e: Entry| e@);
        let mut i: usize = 0;
        while i < entries.len()
            invariant
                i <= entries.len(),
                s == entries@.map_values(|e: Entry| e@),
                forall|a: int, b: int| 0 <= a < b < i ==> (#[trigger] s[a]).key != (#[trigger] s[b]).key,
            decreases entries.len() - i,
        {
            let mut j: usize = 0;
            while j < i
                invariant
                    j <= i,
                    i < entries.len(),
                    s == entries@.map_values(|e: Entry| e@),
                    forall|a: int| 0 <= a < j ==> (#[trigger] s[a]).key != s[i as int].key,
                decreases i - j,
            {
                if entries[j].key == entries[i].key {
                    proof {
                        assert(s[j as int].key == s[i as int].key);
                    }
                    return None;
                }
                j += 1;
            }
            i += 1;
        }
        Some(TokenMap { entries: entries })
    }

    /// How many tokens the map holds.
    pub fn len(&self) -> (r: usize)
        ensures
            r == self@.len(),
    {
        self.entries.len()
    }

    /// The place of `key`, or `None` where no entry has it.
    pub fn position(&self, key: &String) -> (r: Option<usize>)
        requires
            self.wf(),
        ensures
            r is Some <==> has_key(self@, key@),
            r matches Some(i) ==> i == index_of(self@, key@) && i < self@.len(),
    {
        let mut i: usize = 0;
        while i < self.entries.len()
            invariant
                i <= self.entries.len(),
                self.wf(),
                forall|j: int| 0 <= j < i ==> (#[trigger] self@[j]).key != key@,
            decreases self.entries.len() - i,
        {
            if self.entries[i].key == *key {
                proof {
                    assert(self@[i as int].key == key@);
                    lemma_index_of_unique(self@, i as int);
                }
                return Some(i);
            }
            i += 1;
        }
        None
    }

    /// The identifier at place `i`, borrowed.
    pub fn key_at(&self, i: usize) -> (r: &String)
        requires
            i < self@.len(),
        ensures
            r@ == self@[i as int].key,
    {
        &self.entries[i].key
    }

    /// The token at place `i`, borrowed.
    pub fn token_at(&self, i: usize) -> (r: &Token)
        requires
            i < self@.len(),
        ensures
            r@ == self@[i as int].token,
    {
        &self.entries[i].token
    }

    /// Writes `token` at place `i`, under the identifier that stands there.
    pub fn set_token_at(&mut self, i: usize, token: Token)
        requires
            old(self).wf(),
            i < old(self)@.len(),
        ensures
            final(self).wf(),
            final(self)@ == with_token_at(old(self)@, i as int, token@),
    {
        let key = self.entries[i].key.clone();
        self.entries.set(i, Entry { key: key, token: token });
        proof {
            assert(final(self)@ =~= with_token_at(old(self)@, i as int, token@));
            lemma_with_token_at_keys(old(self)@, i as int, token@);
        }
    }

    /// The token with identifier `key`; `NotFound` exactly where there is none.
    pub fn get(&self, key: &String) -> (r: Result<Token, RegistryError>)
        requires
            self.wf(),
        ensures
            match r {
                Ok(t) => has_key(self@, key@) && t@ == token_of(self@, key@),
                Err(e) => !has_key(self@, key@) && e == RegistryError::NotFound,
            },
    {
        match self.position(key) {
            Some(i) => Ok(self.entries[i].token.clone()),
            None => Err(RegistryError::NotFound),
        }
    }

    /// The token with identifier `key`, for writing in place; `NotFound` exactly
    /// where there is none. What the caller writes through the reference is
    /// what the map holds under `key` afterwards, and whatever that is, every
    /// identifier still occurs once.
    pub fn get_mut(&mut self, key: &String) -> (r: Result<&mut Token, RegistryError>)
        requires
            old(self).wf(),
        ensures
            r is Ok <==> has_key(old(self)@, key@),
            r matches Ok(t) ==> (*t)@ == token_of(old(self)@, key@),
            r matches Ok(t) ==> final(self)@ =~= with_token_at(
                old(self)@,
                index_of(old(self)@, key@),
                (*final(t))@,
            ),
            r matches Ok(t) ==> distinct_keys(
                with_token_at(old(self)@, index_of(old(self)@, key@), (*final(t))@),
            ),
            r matches Err(e) ==> e == RegistryError::NotFound && final(self)@ =~= old(self)@,
    {
        match self.position(key) {
            Some(i) => {
                proof {
                    assert forall|t: TokenModel| distinct_keys(#[trigger] with_token_at(self@, i as int, t)) by {
                        lemma_with_token_at_keys(self@, i as int, t);
                    }
                }
                Ok(&mut self.entries[i].token)
            },
            None => Err(RegistryError::NotFound),
        }
    }

    /// Gives `key` the token `token`: in place where the key was there, at the
    /// end where it was not.
    pub fn insert(&mut self, key: String, token: Token)
        requires
            old(self).wf(),
        ensures
            final(self).wf(),
            final(self)@ == inserted(old(self)@, key@, token@),
    {
        match self.position(&key) {
            Some(i) => {
                self.set_token_at(i, token);
            },
            None => {
                self.entries.push(Entry { key: key, token: token });
                proof {
                    let e = EntryModel { key: key@, token: token@ };
                    assert(final(self)@ =~= old(self)@.push(e));
                    assert forall|a: int, b: int| 0 <= a < b < final(self)@.len() implies (
                    #[trigger] final(self)@[a]).key != (#[trigger] final(self)@[b]).key by {
                        if b < old(self)@.len() {
                            assert(old(self)@[a].key != old(self)@[b].key);
                        } else {
                            assert(old(self)@[a].key != key@);
                        }
                    }
                }
            },
        }
    }

    /// Every token, in the map's order.
    pub fn values(&self) -> (r: Vec<Token>)
        ensures
            r@.map_values(|t: Token| t@) == tokens_of(self@),
    {
        let mut out: Vec<Token> = Vec::new();
        let mut i: usize = 0;
        while i < self.entries.len()
            invariant
                i <= self.entries.len(),
                out@.len() == i,
                forall|j: int| 0 <= j < i ==> (#[trigger] out@[j])@ == self@[j].token,
            decreases self.entries.len() - i,
        {
            out.push(self.entries[i].token.clone());
            i += 1;
        }
        proof {
            assert(out@.map_values(|t: Token| t@) =~= tokens_of(self@));
        }
        out
    }
}

} // verus!
