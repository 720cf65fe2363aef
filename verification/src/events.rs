//! Notifications: the topic and payload that record each successful action.

use vstd::prelude::*;
use vstd::utf8::encode_utf8;
use crate::address::{PublicAddress, address_or_zero, spec_address_or_zero};

verus! {

/// Topic of a change of ownership.
pub const TRANSFER_TOPIC: u8 = 0;

/// Topic of a single-token authorization.
pub const SET_SPENDER_TOPIC: u8 = 1;

/// Topic of a blanket authorization.
pub const SET_EXCLUSIVE_SPENDER_TOPIC: u8 = 2;

/// Appends `bytes` to `out`.
pub fn append_bytes(out: &mut Vec<u8>, bytes: &[u8])
    ensures
        final(out)@ == old(out)@ + bytes@,
{
    let ghost before = out@;
    let mut i: usize = 0;
    while i < bytes.len()
        invariant
            i <= bytes@.len(),
            out@ == before + bytes@.take(i as int),
        decreases bytes@.len() - i,
    {
        out.push(bytes[i]);
        proof {
            assert(bytes@.take(i as int + 1) =~= bytes@.take(i as int).push(bytes@[i as int]));
            assert(out@ =~= before + bytes@.take(i as int + 1));
        }
        i += 1;
    }
    proof {
        assert(bytes@.take(bytes@.len() as int) =~= bytes@);
    }
}

/// A buffer with room for `fixed` bytes and the bytes of `text`.
fn sized_buffer(fixed: usize, text: &str) -> (r: Vec<u8>)
    ensures
        r@ == Seq::<u8>::empty(),
{
    let n: usize = text.len();
    if n <= usize::MAX - fixed {
        Vec::with_capacity(fixed + n)
    } else {
        Vec::new()
    }
}

/// A token changed hands.
#[derive(Debug, PartialEq, Eq)]
pub struct TransferEvent {
    pub owner_address: PublicAddress,
    pub recipient_address: PublicAddress,
    pub token_id: String,
}

/// One token's authorization was set.
#[derive(Debug, PartialEq, Eq)]
pub struct SetSpenderEvent {
    pub spender_address: Option<PublicAddress>,
    pub token_id: String,
}

/// An owner's blanket authorization was set.
#[derive(Debug, PartialEq, Eq)]
pub struct SetExclusiveSpenderEvent {
    pub owner_address: PublicAddress,
    pub spender_address: Option<PublicAddress>,
}

impl TransferEvent {
    /// The payload: previous owner, recipient, then the identifier's UTF-8 bytes.
    pub open spec fn spec_value(&self) -> Seq<u8> {
        self.owner_address@ + self.recipient_address@ + encode_utf8(self.token_id@)
    }

    /// The one-byte topic.
    pub fn topic(&self) -> (r: Vec<u8>)
        ensures
            r@ == seq![TRANSFER_TOPIC],
    {
        let mut r: Vec<u8> = Vec::with_capacity(1);
        r.push(TRANSFER_TOPIC);
        proof {
            assert(r@ =~= seq![TRANSFER_TOPIC]);
        }
        r
    }

    /// The payload, built in a buffer of its final size.
    pub fn into_value(self) -> (r: Vec<u8>)
        ensures
            r@ == self.spec_value(),
    {
        let id = self.token_id.as_str();
        let mut r = sized_buffer(64, id);
        append_bytes(&mut r, self.owner_address.as_slice());
        append_bytes(&mut r, self.recipient_address.as_slice());
        append_bytes(&mut r, id.as_bytes());
        r
    }
}

impl SetSpenderEvent {
    /// The payload: the spender, all zero where there is none, then the
    /// identifier's UTF-8 bytes.
    pub open spec fn spec_value(&self) -> Seq<u8> {
        spec_address_or_zero(self.spender_address) + encode_utf8(self.token_id@)
    }

    /// The one-byte topic.
    pub fn topic(&self) -> (r: Vec<u8>)
        ensures
            r@ == seq![SET_SPENDER_TOPIC],
    {
        let mut r: Vec<u8> = Vec::with_capacity(1);
        r.push(SET_SPENDER_TOPIC);
        proof {
            assert(r@ =~= seq![SET_SPENDER_TOPIC]);
        }
        r
    }

    /// The payload, built in a buffer of its final size.
    pub fn into_value(self) -> (r: Vec<u8>)
        ensures
            r@ == self.spec_value(),
    {
        let id = self.token_id.as_str();
        let spender = address_or_zero(&self.spender_address);
        let mut r = sized_buffer(32, id);
        append_bytes(&mut r, spender.as_slice());
        append_bytes(&mut r, id.as_bytes());
        r
    }
}

impl SetExclusiveSpenderEvent {
    /// The payload: the owner, then the spender, all zero where there is none.
    pub open spec fn spec_value(&self) -> Seq<u8> {
        self.owner_address@ + spec_address_or_zero(self.spender_address)
    }

    /// The one-byte topic.
    pub fn topic(&self) -> (r: Vec<u8>)
        ensures
            r@ == seq![SET_EXCLUSIVE_SPENDER_TOPIC],
    {
        let mut r: Vec<u8> = Vec::with_capacity(1);
        r.push(SET_EXCLUSIVE_SPENDER_TOPIC);
        proof {
            assert(r@ =~= seq![SET_EXCLUSIVE_SPENDER_TOPIC]);
        }
        r
    }

    /// The payload, built in a buffer of its final size.
    pub fn into_value(self) -> (r: Vec<u8>)
        ensures
            r@ == self.spec_value(),
    {
        let spender = address_or_zero(&self.spender_address);
        let mut r: Vec<u8> = Vec::with_capacity(64);
        append_bytes(&mut r, self.owner_address.as_slice());
        append_bytes(&mut r, spender.as_slice());
        r
    }
}

} // verus!
