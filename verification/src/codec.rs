//! Writing a collection as bytes and reading it back.

use vstd::prelude::*;
use vstd::bytes::{u64_from_le_bytes, u64_to_le_bytes};
use vstd::slice::{slice_subrange, slice_to_vec};
use vstd::utf8::{encode_utf8, encode_utf8_decode_utf8, valid_utf8};
use crate::address::{PublicAddress, address_from_bytes};
use crate::events::append_bytes;
use crate::registry::Collection;
use crate::token::Token;
use crate::token_map::{Entry, EntryModel, RegistryError, TokenMap, distinct_keys};
use crate::wire::{
    collection_fits, enc_collection, enc_entries, enc_entry, enc_len, enc_spender, enc_text,
    enc_token, entries_fit, fits, lemma_address_of, lemma_enc_entries_push, parse_address,
    parse_collection, parse_entries, parse_entry, parse_len, parse_spender, parse_text,
    parse_token, token_fits,
};

verus! {

/// Calls `String::from_utf8`, which accepts exactly the byte sequences that are
/// valid UTF-8 and hands back the text with those bytes.
#[verifier::external_body]
fn text_from_utf8(bytes: Vec<u8>) -> (r: Option<String>)
    ensures
        r is Some <==> valid_utf8(bytes@),
        r matches Some(s) ==> encode_utf8(s@) == bytes@,
{
    String::from_utf8(bytes).ok()
}

fn write_len(out: &mut Vec<u8>, n: usize)
    ensures
        final(out)@ == old(out)@ + enc_len(n as nat),
        fits(n as nat),
{
    let b = u64_to_le_bytes(n as u64);
    append_bytes(out, b.as_slice());
}

fn write_text(out: &mut Vec<u8>, text: &str)
    ensures
        final(out)@ == old(out)@ + enc_text(text@),
        fits(encode_utf8(text@).len()),
{
    let bytes = text.as_bytes();
    write_len(out, bytes.len());
    append_bytes(out, bytes);
    proof {
        assert(final(out)@ =~= old(out)@ + enc_text(text@));
    }
}

fn write_spender(out: &mut Vec<u8>, spender: &Option<PublicAddress>)
    ensures
        final(out)@ == old(out)@ + enc_spender(*spender),
{
    match spender {
        None => {
            out.push(0u8);
            proof {
                assert(final(out)@ =~= old(out)@ + enc_spender(*spender));
            }
        },
        Some(a) => {
            out.push(1u8);
            append_bytes(out, a.as_slice());
            proof {
                assert(final(out)@ =~= old(out)@ + enc_spender(*spender));
            }
        },
    }
}

fn write_token(out: &mut Vec<u8>, token: &Token)
    ensures
        final(out)@ == old(out)@ + enc_token(token@),
        token_fits(token@),
{
    append_bytes(out, token.owner.as_slice());
    write_spender(out, &token.spender);
    write_text(out, token.uri.as_str());
    write_text(out, token.metadata.as_str());
    write_text(out, token.name.as_str());
    write_text(out, token.id.as_str());
    write_spender(out, &token.exclusive_spender);
    proof {
        assert(final(out)@ =~= old(out)@ + enc_token(token@));
    }
}

fn write_entries(out: &mut Vec<u8>, tokens: &TokenMap)
    ensures
        final(out)@ == old(out)@ + enc_entries(tokens@),
        entries_fit(tokens@),
{
    let ghost before = out@;
    let n: usize = tokens.len();
    let mut i: usize = 0;
    proof {
        assert(tokens@.take(0) =~= Seq::<EntryModel>::empty());
        assert(out@ =~= before + enc_entries(tokens@.take(0)));
    }
    while i < n
        invariant
            i <= n,
            n == tokens@.len(),
            out@ == before + enc_entries(tokens@.take(i as int)),
            entries_fit(tokens@.take(i as int)),
        decreases n - i,
    {
        let ghost so_far = out@;
        write_text(out, tokens.key_at(i).as_str());
        write_token(out, tokens.token_at(i));
        proof {
            let e = tokens@[i as int];
            let done = tokens@.take(i as int);
            assert(tokens@.take(i as int + 1) =~= done.push(e));
            lemma_enc_entries_push(done, e);
            assert(out@ =~= so_far + enc_entry(e));
            assert(out@ =~= before + enc_entries(done.push(e)));
            assert forall|j: int| 0 <= j < done.push(e).len() implies fits(
                encode_utf8((#[trigger] done.push(e)[j]).key).len(),
            ) && token_fits(done.push(e)[j].token) by {
                if j < done.len() {
                    assert(done.push(e)[j] == done[j]);
                }
            }
        }
        i += 1;
    }
    proof {
        assert(tokens@.take(n as int) =~= tokens@);
    }
}

fn read_len(bytes: &[u8], pos: usize) -> (r: Option<(u64, usize)>)
    requires
        pos <= bytes@.len(),
    ensures
        match parse_len(bytes@.skip(pos as int)) {
            Some((n, rest)) => r matches Some((v, next)) && v == n && pos <= next <= bytes@.len()
                && bytes@.skip(next as int) == rest,
            None => r is None,
        },
{
    if bytes.len() - pos < 8 {
        return None;
    }
    let v = u64_from_le_bytes(slice_subrange(bytes, pos, pos + 8));
    proof {
        let b = bytes@.skip(pos as int);
        assert(b.take(8) =~= bytes@.subrange(pos as int, pos + 8));
        assert(b.skip(8) =~= bytes@.skip(pos + 8));
    }
    Some((v, pos + 8))
}

fn read_text(bytes: &[u8], pos: usize) -> (r: Option<(String, usize)>)
    requires
        pos <= bytes@.len(),
    ensures
        match parse_text(bytes@.skip(pos as int)) {
            Some((t, rest)) => r matches Some((v, next)) && v@ == t && pos <= next <= bytes@.len()
                && bytes@.skip(next as int) == rest,
            None => r is None,
        },
{
    proof {
        reveal(parse_text);
    }
    let (n, start) = match read_len(bytes, pos) {
        Some(x) => x,
        None => {
            return None;
        },
    };
    if n > (bytes.len() - start) as u64 {
        return None;
    }
    let len: usize = n as usize;
    let body = slice_to_vec(slice_subrange(bytes, start, start + len));
    proof {
        let b1 = bytes@.skip(start as int);
        assert(b1.take(len as int) =~= body@);
        assert(b1.skip(len as int) =~= bytes@.skip(start + len));
    }
    match text_from_utf8(body) {
        Some(s) => {
            proof {
                encode_utf8_decode_utf8(s@);
            }
            Some((s, start + len))
        },
        None => None,
    }
}

fn read_address(bytes: &[u8], pos: usize) -> (r: Option<(PublicAddress, usize)>)
    requires
        pos <= bytes@.len(),
    ensures
        match parse_address(bytes@.skip(pos as int)) {
            Some((a, rest)) => r matches Some((v, next)) && v == a && pos <= next <= bytes@.len()
                && bytes@.skip(next as int) == rest,
            None => r is None,
        },
{
    if bytes.len() - pos < 32 {
        return None;
    }
    match address_from_bytes(slice_subrange(bytes, pos, pos + 32)) {
        Some(a) => {
            proof {
                let b = bytes@.skip(pos as int);
                assert(b.take(32) =~= a@);
                assert(b.skip(32) =~= bytes@.skip(pos + 32));
                lemma_address_of(a);
            }
            Some((a, pos + 32))
        },
        None => None,
    }
}

fn read_spender(bytes: &[u8], pos: usize) -> (r: Option<(Option<PublicAddress>, usize)>)
    requires
        pos <= bytes@.len(),
    ensures
        match parse_spender(bytes@.skip(pos as int)) {
            Some((o, rest)) => r matches Some((v, next)) && v == o && pos <= next <= bytes@.len()
                && bytes@.skip(next as int) == rest,
            None => r is None,
        },
{
    if bytes.len() - pos < 1 {
        return None;
    }
    let tag: u8 = bytes[pos];
    proof {
        let b = bytes@.skip(pos as int);
        assert(b[0] == tag);
        assert(b.skip(1) =~= bytes@.skip(pos + 1));
    }
    if tag == 0 {
        Some((None, pos + 1))
    } else if tag == 1 {
        match read_address(bytes, pos + 1) {
            Some((a, next)) => Some((Some(a), next)),
            None => None,
        }
    } else {
        None
    }
}

fn read_token(bytes: &[u8], pos: usize) -> (r: Option<(Token, usize)>)
    requires
        pos <= bytes@.len(),
    ensures
        match parse_token(bytes@.skip(pos as int)) {
            Some((t, rest)) => r matches Some((v, next)) && v@ == t && pos <= next <= bytes@.len()
                && bytes@.skip(next as int) == rest,
            None => r is None,
        },
{
    proof {
        reveal(parse_token);
    }
    let (owner, at1) = match read_address(bytes, pos) {
        Some(x) => x,
        None => {
            return None;
        },
    };
    let (spender, at2) = match read_spender(bytes, at1) {
        Some(x) => x,
        None => {
            return None;
        },
    };
    let (uri, at3) = match read_text(bytes, at2) {
        Some(x) => x,
        None => {
            return None;
        },
    };
    let (metadata, at4) = match read_text(bytes, at3) {
        Some(x) => x,
        None => {
            return None;
        },
    };
    let (name, at5) = match read_text(bytes, at4) {
        Some(x) => x,
        None => {
            return None;
        },
    };
    let (id, at6) = match read_text(bytes, at5) {
        Some(x) => x,
        None => {
            return None;
        },
    };
    let (exclusive_spender, at7) = match read_spender(bytes, at6) {
        Some(x) => x,
        None => {
            return None;
        },
    };
    Some((Token { owner, spender, uri, metadata, name, id, exclusive_spender }, at7))
}

fn read_entry(bytes: &[u8], pos: usize) -> (r: Option<(Entry, usize)>)
    requires
        pos <= bytes@.len(),
    ensures
        match parse_entry(bytes@.skip(pos as int)) {
            Some((e, rest)) => r matches Some((v, next)) && v@ == e && pos <= next <= bytes@.len()
                && bytes@.skip(next as int) == rest,
            None => r is None,
        },
{
    proof {
        reveal(parse_entry);
    }
    let (key, at1) = match read_text(bytes, pos) {
        Some(x) => x,
        None => {
            return None;
        },
    };
    let (token, at2) = match read_token(bytes, at1) {
        Some(x) => x,
        None => {
            return None;
        },
    };
    Some((Entry { key, token }, at2))
}

/// `whole` is what the entries read so far, followed by `tail`, amount to.
spec fn joined(
    read: Seq<EntryModel>,
    tail: Option<(Seq<EntryModel>, Seq<u8>)>,
) -> Option<(Seq<EntryModel>, Seq<u8>)> {
    match tail {
        Some((es, rest)) => Some((read + es, rest)),
        None => None,
    }
}

fn read_entries(bytes: &[u8], pos: usize, n: u64) -> (r: Option<(Vec<Entry>, usize)>)
    requires
        pos <= bytes@.len(),
    ensures
        match parse_entries(bytes@.skip(pos as int), n as nat) {
            Some((es, rest)) => r matches Some((v, next)) && v@.map_values(|e: Entry| e@) == es
                && pos <= next <= bytes@.len() && bytes@.skip(next as int) == rest,
            None => r is None,
        },
{
    let ghost whole = parse_entries(bytes@.skip(pos as int), n as nat);
    let mut out: Vec<Entry> = Vec::new();
    let mut p: usize = pos;
    let mut i: u64 = 0;
    proof {
        let t = parse_entries(bytes@.skip(pos as int), n as nat);
        if t is Some {
            assert(out@.map_values(|e: Entry| e@) + t->Some_0.0 =~= t->Some_0.0);
        }
    }
    while i < n
        invariant
            i <= n,
            pos <= p <= bytes@.len(),
            whole == parse_entries(bytes@.skip(pos as int), n as nat),
            whole == joined(
                out@.map_values(|e: Entry| e@),
                parse_entries(bytes@.skip(p as int), (n - i) as nat),
            ),
        decreases n - i,
    {
        let ghost read = out@.map_values(|e: Entry| e@);
        let ghost here = bytes@.skip(p as int);
        match read_entry(bytes, p) {
            None => {
                return None;
            },
            Some((e, next)) => {
                proof {
                    let after = parse_entries(bytes@.skip(next as int), (n - i - 1) as nat);
                    assert(parse_entries(here, (n - i) as nat) == match after {
                        None => None,
                        Some((es, rest)) => Some((seq![e@] + es, rest)),
                    });
                    if after is Some {
                        let es = after->Some_0.0;
                        assert(read + (seq![e@] + es) =~= read.push(e@) + es);
                    }
                }
                out.push(e);
                proof {
                    assert(out@.map_values(|e: Entry| e@) =~= read.push(e@));
                }
                p = next;
            },
        }
        i += 1;
    }
    proof {
        let read = out@.map_values(|e: Entry| e@);
        assert(read + Seq::<EntryModel>::empty() =~= read);
    }
    Some((out, p))
}

impl Collection {
    /// The collection as bytes.
    pub fn encode(&self) -> (r: Vec<u8>)
        ensures
            r@ == enc_collection(self@),
            collection_fits(self@),
    {
        let mut out: Vec<u8> = Vec::new();
        write_text(&mut out, self.name.as_str());
        write_text(&mut out, self.symbol.as_str());
        write_len(&mut out, self.tokens.len());
        write_entries(&mut out, &self.tokens);
        write_text(&mut out, self.uri.as_str());
        proof {
            assert(out@ =~= enc_collection(self@));
        }
        out
    }

    /// The collection that `bytes` hold. It is there exactly where the bytes
    /// have a collection's layout from the first to the last, and no token
    /// identifier occurs twice in them.
    pub fn decode(bytes: &[u8]) -> (r: Result<Collection, RegistryError>)
        ensures
            match r {
                Ok(c) => c.tokens.wf() && parse_collection(bytes@) == Some(
                    (c@, Seq::<u8>::empty()),
                ),
                Err(e) => e == RegistryError::DecodeError && !(parse_collection(bytes@) matches Some(
                    (m, rest),
                ) && rest.len() == 0 && distinct_keys(m.tokens)),
            },
    {
        proof {
            assert(bytes@.skip(0) =~= bytes@);
        }
        let (name, at1) = match read_text(bytes, 0) {
            Some(x) => x,
            None => {
                return Err(RegistryError::DecodeError);
            },
        };
        let (symbol, at2) = match read_text(bytes, at1) {
            Some(x) => x,
            None => {
                return Err(RegistryError::DecodeError);
            },
        };
        let (n, at3) = match read_len(bytes, at2) {
            Some(x) => x,
            None => {
                return Err(RegistryError::DecodeError);
            },
        };
        let (entries, at4) = match read_entries(bytes, at3, n) {
            Some(x) => x,
            None => {
                return Err(RegistryError::DecodeError);
            },
        };
        let (uri, at5) = match read_text(bytes, at4) {
            Some(x) => x,
            None => {
                return Err(RegistryError::DecodeError);
            },
        };
        if at5 != bytes.len() {
            return Err(RegistryError::DecodeError);
        }
        proof {
            assert(bytes@.skip(at5 as int) =~= Seq::<u8>::empty());
        }
        match TokenMap::from_entries(entries) {
            Some(tokens) => Ok(Collection { name, symbol, tokens, uri }),
            None => Err(RegistryError::DecodeError),
        }
    }
}

} // verus!
