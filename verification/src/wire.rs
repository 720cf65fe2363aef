//! The byte layout of a collection: every text and the token map carry their
//! length in front, addresses have their fixed width, and nothing is padded.
//! Each layout comes with the reading that inverts it.

use vstd::prelude::*;
use vstd::bytes::{spec_u64_from_le_bytes, spec_u64_to_le_bytes, lemma_auto_spec_u64_to_from_le_bytes};
use vstd::utf8::{decode_utf8, encode_utf8, valid_utf8, encode_utf8_decode_utf8, encode_utf8_valid_utf8};
use crate::address::PublicAddress;
use crate::registry::CollectionModel;
use crate::token::TokenModel;
use crate::token_map::EntryModel;

verus! {

/// A length that its eight-byte prefix can hold.
pub open spec fn fits(n: nat) -> bool {
    n <= 0xffff_ffff_ffff_ffff
}

/// A length: eight bytes, least significant first.
pub open spec fn enc_len(n: nat) -> Seq<u8> {
    spec_u64_to_le_bytes(n as u64)
}

/// Reads a length from the front of `b`.
pub open spec fn parse_len(b: Seq<u8>) -> Option<(nat, Seq<u8>)> {
    if b.len() < 8 {
        None
    } else {
        Some((spec_u64_from_le_bytes(b.take(8)) as nat, b.skip(8)))
    }
}

/// A text: the length of its UTF-8 bytes, then the bytes.
pub open spec fn enc_text(t: Seq<char>) -> Seq<u8> {
    enc_len(encode_utf8(t).len()) + encode_utf8(t)
}

/// Reads a text from the front of `b`.
#[verifier::opaque]
pub open spec fn parse_text(b: Seq<u8>) -> Option<(Seq<char>, Seq<u8>)> {
    match parse_len(b) {
        None => None,
        Some((n, b1)) => if b1.len() < n || !valid_utf8(b1.take(n as int)) {
            None
        } else {
            Some((decode_utf8(b1.take(n as int)), b1.skip(n as int)))
        },
    }
}

/// The address with the bytes `b`.
pub open spec fn address_of(b: Seq<u8>) -> PublicAddress {
    choose|a: PublicAddress| a@ == b
}

/// Reads an address from the front of `b`.
pub open spec fn parse_address(b: Seq<u8>) -> Option<(PublicAddress, Seq<u8>)> {
    if b.len() < 32 {
        None
    } else {
        Some((address_of(b.take(32)), b.skip(32)))
    }
}

/// An optional address: a zero byte for none, a one byte and the address
/// otherwise.
pub open spec fn enc_spender(o: Option<PublicAddress>) -> Seq<u8> {
    match o {
        None => seq![0u8],
        Some(a) => seq![1u8] + a@,
    }
}

/// Reads an optional address from the front of `b`.
pub open spec fn parse_spender(b: Seq<u8>) -> Option<(Option<PublicAddress>, Seq<u8>)> {
    if b.len() < 1 {
        None
    } else if b[0] == 0u8 {
        Some((None, b.skip(1)))
    } else if b[0] == 1u8 {
        match parse_address(b.skip(1)) {
            None => None,
            Some((a, rest)) => Some((Some(a), rest)),
        }
    } else {
        None
    }
}

/// A token: its fields in the order of their declaration.
pub open spec fn enc_token(t: TokenModel) -> Seq<u8> {
    t.owner@ + enc_spender(t.spender) + enc_text(t.uri) + enc_text(t.metadata) + enc_text(t.name)
        + enc_text(t.id) + enc_spender(t.exclusive_spender)
}

/// Reads a token from the front of `b`.
#[verifier::opaque]
pub open spec fn parse_token(b: Seq<u8>) -> Option<(TokenModel, Seq<u8>)> {
    match parse_address(b) {
        None => None,
        Some((owner, b1)) => match parse_spender(b1) {
            None => None,
            Some((spender, b2)) => match parse_text(b2) {
                None => None,
                Some((uri, b3)) => match parse_text(b3) {
                    None => None,
                    Some((metadata, b4)) => match parse_text(b4) {
                        None => None,
                        Some((name, b5)) => match parse_text(b5) {
                            None => None,
                            Some((id, b6)) => match parse_spender(b6) {
                                None => None,
                                Some((exclusive_spender, b7)) => Some(
                                    (
                                        TokenModel {
                                            owner,
                                            spender,
                                            uri,
                                            metadata,
                                            name,
                                            id,
                                            exclusive_spender,
                                        },
                                        b7,
                                    ),
                                ),
                            },
                        },
                    },
                },
            },
        },
    }
}

/// An entry: its identifier, then its token.
pub open spec fn enc_entry(e: EntryModel) -> Seq<u8> {
    enc_text(e.key) + enc_token(e.token)
}

/// Reads an entry from the front of `b`.
#[verifier::opaque]
pub open spec fn parse_entry(b: Seq<u8>) -> Option<(EntryModel, Seq<u8>)> {
    match parse_text(b) {
        None => None,
        Some((key, b1)) => match parse_token(b1) {
            None => None,
            Some((token, b2)) => Some((EntryModel { key, token }, b2)),
        },
    }
}

/// The entries one after another, in the map's order.
pub open spec fn enc_entries(s: Seq<EntryModel>) -> Seq<u8>
    decreases s.len(),
{
    if s.len() == 0 {
        Seq::<u8>::empty()
    } else {
        enc_entry(s[0]) + enc_entries(s.skip(1))
    }
}

/// Reads `n` entries from the front of `b`.
pub open spec fn parse_entries(b: Seq<u8>, n: nat) -> Option<(Seq<EntryModel>, Seq<u8>)>
    decreases n,
{
    if n == 0 {
        Some((Seq::<EntryModel>::empty(), b))
    } else {
        match parse_entry(b) {
            None => None,
            Some((e, b1)) => match parse_entries(b1, (n - 1) as nat) {
                None => None,
                Some((es, b2)) => Some((seq![e] + es, b2)),
            },
        }
    }
}

/// A collection: name, symbol, the number of tokens, the entries, then the URI.
pub open spec fn enc_collection(c: CollectionModel) -> Seq<u8> {
    enc_text(c.name) + enc_text(c.symbol) + enc_len(c.tokens.len()) + enc_entries(c.tokens)
        + enc_text(c.uri)
}

/// Reads a collection from the front of `b`.
pub open spec fn parse_collection(b: Seq<u8>) -> Option<(CollectionModel, Seq<u8>)> {
    match parse_text(b) {
        None => None,
        Some((name, b1)) => match parse_text(b1) {
            None => None,
            Some((symbol, b2)) => match parse_len(b2) {
                None => None,
                Some((n, b3)) => match parse_entries(b3, n) {
                    None => None,
                    Some((tokens, b4)) => match parse_text(b4) {
                        None => None,
                        Some((uri, b5)) => Some((CollectionModel { name, symbol, tokens, uri }, b5)),
                    },
                },
            },
        },
    }
}

/// Every text of the token is short enough for its length prefix.
pub open spec fn token_fits(t: TokenModel) -> bool {
    &&& fits(encode_utf8(t.uri).len())
    &&& fits(encode_utf8(t.metadata).len())
    &&& fits(encode_utf8(t.name).len())
    &&& fits(encode_utf8(t.id).len())
}

/// Every entry's texts are short enough for their length prefixes.
pub open spec fn entries_fit(s: Seq<EntryModel>) -> bool {
    forall|i: int|
        0 <= i < s.len() ==> fits(encode_utf8((#[trigger] s[i]).key).len()) && token_fits(s[i].token)
}

/// Every length in the collection is one that its prefix can hold.
pub open spec fn collection_fits(c: CollectionModel) -> bool {
    &&& fits(encode_utf8(c.name).len())
    &&& fits(encode_utf8(c.symbol).len())
    &&& fits(encode_utf8(c.uri).len())
    &&& fits(c.tokens.len())
    &&& entries_fit(c.tokens)
}

/// Bytes that follow one another can be grouped either way.
pub proof fn lemma_regroup(a: Seq<u8>, b: Seq<u8>, c: Seq<u8>)
    ensures
        (a + b) + c == a + (b + c),
{
    assert((a + b) + c =~= a + (b + c));
}

/// The bytes of an address give that address back.
pub proof fn lemma_address_of(a: PublicAddress)
    ensures
        address_of(a@) == a,
{
    let c = address_of(a@);
    assert(c@ == a@);
    assert forall|i: int| 0 <= i < 32 implies c[i] == a[i] by {
        assert(c@[i] == a@[i]);
    }
    assert(c =~= a);
}

/// Reading inverts the layout of a length.
pub proof fn lemma_parse_len(n: nat, rest: Seq<u8>)
    requires
        fits(n),
    ensures
        parse_len(enc_len(n) + rest) == Some((n, rest)),
{
    lemma_auto_spec_u64_to_from_le_bytes();
    let b = enc_len(n) + rest;
    assert(enc_len(n).len() == 8);
    assert(b.take(8) =~= enc_len(n));
    assert(b.skip(8) =~= rest);
}

/// Reading inverts the layout of a text.
pub proof fn lemma_parse_text(t: Seq<char>, rest: Seq<u8>)
    requires
        fits(encode_utf8(t).len()),
    ensures
        parse_text(enc_text(t) + rest) == Some((t, rest)),
{
    reveal(parse_text);
    let body = encode_utf8(t);
    let n = body.len();
    let b1 = body + rest;
    assert(enc_text(t) + rest =~= enc_len(n) + b1);
    lemma_parse_len(n, b1);
    assert(b1.take(n as int) =~= body);
    assert(b1.skip(n as int) =~= rest);
    encode_utf8_valid_utf8(t);
    encode_utf8_decode_utf8(t);
}

/// Reading inverts the layout of an address.
pub proof fn lemma_parse_address(a: PublicAddress, rest: Seq<u8>)
    ensures
        parse_address(a@ + rest) == Some((a, rest)),
{
    let b = a@ + rest;
    assert(a@.len() == 32);
    assert(b.take(32) =~= a@);
    assert(b.skip(32) =~= rest);
    lemma_address_of(a);
}

/// Reading inverts the layout of an optional address.
pub proof fn lemma_parse_spender(o: Option<PublicAddress>, rest: Seq<u8>)
    ensures
        parse_spender(enc_spender(o) + rest) == Some((o, rest)),
{
    let b = enc_spender(o) + rest;
    match o {
        None => {
            assert(b[0] == 0u8);
            assert(b.skip(1) =~= rest);
        },
        Some(a) => {
            assert(b[0] == 1u8);
            assert(b.skip(1) =~= a@ + rest);
            lemma_parse_address(a, rest);
        },
    }
}

/// Reading inverts the layout of a token.
pub proof fn lemma_parse_token(t: TokenModel, rest: Seq<u8>)
    requires
        token_fits(t),
    ensures
        parse_token(enc_token(t) + rest) == Some((t, rest)),
{
    let r6 = enc_spender(t.exclusive_spender) + rest;
    let r5 = enc_text(t.id) + r6;
    let r4 = enc_text(t.name) + r5;
    let r3 = enc_text(t.metadata) + r4;
    let r2 = enc_text(t.uri) + r3;
    let r1 = enc_spender(t.spender) + r2;
    let b = enc_token(t) + rest;
    assert(b == t.owner@ + r1) by {
        let a1 = t.owner@ + enc_spender(t.spender);
        let a2 = a1 + enc_text(t.uri);
        let a3 = a2 + enc_text(t.metadata);
        let a4 = a3 + enc_text(t.name);
        let a5 = a4 + enc_text(t.id);
        lemma_regroup(a5, enc_spender(t.exclusive_spender), rest);
        lemma_regroup(a4, enc_text(t.id), r6);
        lemma_regroup(a3, enc_text(t.name), r5);
        lemma_regroup(a2, enc_text(t.metadata), r4);
        lemma_regroup(a1, enc_text(t.uri), r3);
        lemma_regroup(t.owner@, enc_spender(t.spender), r2);
    }
    reveal(parse_token);
    assert(parse_address(b) == Some((t.owner, r1))) by {
        lemma_parse_address(t.owner, r1);
    }
    assert(parse_spender(r1) == Some((t.spender, r2))) by {
        lemma_parse_spender(t.spender, r2);
    }
    assert(parse_text(r2) == Some((t.uri, r3))) by {
        lemma_parse_text(t.uri, r3);
    }
    assert(parse_text(r3) == Some((t.metadata, r4))) by {
        lemma_parse_text(t.metadata, r4);
    }
    assert(parse_text(r4) == Some((t.name, r5))) by {
        lemma_parse_text(t.name, r5);
    }
    assert(parse_text(r5) == Some((t.id, r6))) by {
        lemma_parse_text(t.id, r6);
    }
    assert(parse_spender(r6) == Some((t.exclusive_spender, rest))) by {
        lemma_parse_spender(t.exclusive_spender, rest);
    }
}

/// Reading inverts the layout of an entry.
pub proof fn lemma_parse_entry(e: EntryModel, rest: Seq<u8>)
    requires
        fits(encode_utf8(e.key).len()),
        token_fits(e.token),
    ensures
        parse_entry(enc_entry(e) + rest) == Some((e, rest)),
{
    let r1 = enc_token(e.token) + rest;
    let b = enc_entry(e) + rest;
    assert(b == enc_text(e.key) + r1) by {
        lemma_regroup(enc_text(e.key), enc_token(e.token), rest);
    }
    reveal(parse_entry);
    assert(parse_text(b) == Some((e.key, r1))) by {
        lemma_parse_text(e.key, r1);
    }
    assert(parse_token(r1) == Some((e.token, rest))) by {
        lemma_parse_token(e.token, rest);
    }
}

/// Reading inverts the layout of a run of entries.
pub proof fn lemma_parse_entries(s: Seq<EntryModel>, rest: Seq<u8>)
    requires
        entries_fit(s),
    ensures
        parse_entries(enc_entries(s) + rest, s.len()) == Some((s, rest)),
    decreases s.len(),
{
    if s.len() == 0 {
        assert(enc_entries(s) + rest =~= rest);
        assert(s =~= Seq::<EntryModel>::empty());
    } else {
        let tail = s.skip(1);
        let r1 = enc_entries(tail) + rest;
        let b = enc_entries(s) + rest;
        assert(b == enc_entry(s[0]) + r1) by {
            lemma_regroup(enc_entry(s[0]), enc_entries(tail), rest);
        }
        assert(parse_entry(b) == Some((s[0], r1))) by {
            assert(fits(encode_utf8(s[0].key).len()) && token_fits(s[0].token));
            lemma_parse_entry(s[0], r1);
        }
        assert(entries_fit(tail)) by {
            assert forall|i: int| 0 <= i < tail.len() implies fits(
                encode_utf8((#[trigger] tail[i]).key).len(),
            ) && token_fits(tail[i].token) by {
                assert(tail[i] == s[i + 1]);
            }
        }
        assert(parse_entries(r1, tail.len()) == Some((tail, rest))) by {
            lemma_parse_entries(tail, rest);
        }
        assert(seq![s[0]] + tail =~= s);
    }
}

/// Adding an entry at the end adds its bytes at the end.
pub proof fn lemma_enc_entries_push(s: Seq<EntryModel>, e: EntryModel)
    ensures
        enc_entries(s.push(e)) == enc_entries(s) + enc_entry(e),
    decreases s.len(),
{
    let p = s.push(e);
    if s.len() == 0 {
        assert(p.skip(1) =~= Seq::<EntryModel>::empty());
        assert(enc_entries(p.skip(1)) =~= Seq::<u8>::empty());
        assert(enc_entries(p) =~= enc_entries(s) + enc_entry(e));
    } else {
        assert(p.skip(1) =~= s.skip(1).push(e));
        lemma_enc_entries_push(s.skip(1), e);
        assert(enc_entries(p) =~= enc_entries(s) + enc_entry(e));
    }
}

/// Reading the bytes of a collection gives the collection back and leaves
/// nothing over.
pub proof fn law_round_trip(c: CollectionModel)
    requires
        collection_fits(c),
    ensures
        parse_collection(enc_collection(c)) == Some((c, Seq::<u8>::empty())),
{
    let end = Seq::<u8>::empty();
    let r4 = enc_text(c.uri) + end;
    let r3 = enc_entries(c.tokens) + r4;
    let r2 = enc_len(c.tokens.len()) + r3;
    let r1 = enc_text(c.symbol) + r2;
    let b = enc_collection(c);
    assert(b == enc_text(c.name) + r1) by {
        let a1 = enc_text(c.name) + enc_text(c.symbol);
        let a2 = a1 + enc_len(c.tokens.len());
        let a3 = a2 + enc_entries(c.tokens);
        assert(r4 =~= enc_text(c.uri));
        lemma_regroup(a2, enc_entries(c.tokens), r4);
        lemma_regroup(a1, enc_len(c.tokens.len()), r3);
        lemma_regroup(enc_text(c.name), enc_text(c.symbol), r2);
    }
    assert(parse_text(b) == Some((c.name, r1))) by {
        lemma_parse_text(c.name, r1);
    }
    assert(parse_text(r1) == Some((c.symbol, r2))) by {
        lemma_parse_text(c.symbol, r2);
    }
    assert(parse_len(r2) == Some((c.tokens.len(), r3))) by {
        lemma_parse_len(c.tokens.len(), r3);
    }
    assert(parse_entries(r3, c.tokens.len()) == Some((c.tokens, r4))) by {
        lemma_parse_entries(c.tokens, r4);
    }
    assert(parse_text(r4) == Some((c.uri, end))) by {
        lemma_parse_text(c.uri, end);
    }
}

} // verus!
