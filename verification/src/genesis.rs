//! The collection as it stands when the registry is first set up.

use vstd::prelude::*;
use vstd::string::*;
use crate::address::{PublicAddress, address_from_bytes};
use crate::registry::{Collection, CollectionModel, PRFC2Implementor};
use crate::token::{Token, TokenModel};
use crate::token_map::{EntryModel, TokenMap, has_key};

verus! {

/// The bytes that a text stands for when read as unpadded base64url, or `None`
/// where the text is no such encoding.
pub uninterp spec fn base64url_decoded(text: Seq<char>) -> Option<Seq<u8>>;

/// Calls `base64url::decode`, which reads `text` with the URL-safe alphabet and
/// without padding. The contract only names the outcome: the decoded bytes, or
/// `None` where the decoder reports an error.
#[verifier::external_body]
fn decode_base64url(text: &str) -> (r: Option<Vec<u8>>)
    ensures
        r matches Some(v) ==> base64url_decoded(text@) == Some(v@),
        r is None ==> base64url_decoded(text@) is None,
{
    base64url::decode(text).ok()
}

/// A token of the initial set: `owner` holds it and is named as its spender.
pub open spec fn initial_token(
    id: Seq<char>,
    name: Seq<char>,
    uri: Seq<char>,
    metadata: Seq<char>,
    owner: PublicAddress,
) -> EntryModel {
    EntryModel {
        key: id,
        token: TokenModel {
            owner: owner,
            spender: Some(owner),
            uri: uri,
            metadata: metadata,
            name: name,
            id: id,
            exclusive_spender: Some(owner),
        },
    }
}

/// The collection at set-up: three tokens, all of them held by `owner`.
pub open spec fn initial_collection(owner: PublicAddress) -> CollectionModel {
    CollectionModel {
        name: "Kezia's art collection"@,
        symbol: "EKA"@,
        tokens: seq![
            initial_token(
                "1"@,
                "Mystic duck"@,
                "https://cms.parallelchain.io/uploads/prfc2_kezia_duck_1a9f6c738e.png"@,
                ""@,
                owner,
            ),
            initial_token(
                "2"@,
                "Suburban dogs"@,
                "https://cms.parallelchain.io/uploads/prfc2_kezia_dogs_9155af2e83.png"@,
                " "@,
                owner,
            ),
            initial_token(
                "3"@,
                "Bag'o Fish"@,
                "https://cms.parallelchain.io/uploads/prfc2_kezia_fish_59ff1d61a0.png"@,
                ""@,
                owner,
            ),
        ],
        uri: ""@,
    }
}

/// The text that encodes the first owner's address.
pub open spec fn initial_owner_text() -> Seq<char> {
    "-HcAllwug6CYTKIsATsa7yPk8wpNd4b7DBXkaD0kzko"@
}

/// `state` is the initial collection in the hands of the address `bytes`.
pub open spec fn set_up_for(state: CollectionModel, bytes: Seq<u8>) -> bool {
    exists|owner: PublicAddress| owner@ == bytes && state == initial_collection(owner)
}

fn new_token(id: &str, name: &str, uri: &str, metadata: &str, owner: PublicAddress) -> (r: Token)
    ensures
        r@ == initial_token(id@, name@, uri@, metadata@, owner).token,
{
    Token {
        owner: owner,
        spender: Some(owner),
        uri: uri.to_owned(),
        metadata: metadata.to_owned(),
        name: name.to_owned(),
        id: id.to_owned(),
        exclusive_spender: Some(owner),
    }
}

impl PRFC2Implementor {
    /// The registry at set-up, with `owner` holding every token.
    pub fn init_with_owner(owner: PublicAddress) -> (r: PRFC2Implementor)
        ensures
            r.wf(),
            r@ == initial_collection(owner),
    {
        let mut tokens = TokenMap::new();
        proof {
            reveal_strlit("1");
            reveal_strlit("2");
            reveal_strlit("3");
            assert("1"@[0] != "2"@[0]);
            assert("1"@[0] != "3"@[0]);
            assert("2"@[0] != "3"@[0]);
        }
        let first = new_token(
            "1",
            "Mystic duck",
            "https://cms.parallelchain.io/uploads/prfc2_kezia_duck_1a9f6c738e.png",
            "",
            owner,
        );
        tokens.insert("1".to_owned(), first);
        let second = new_token(
            "2",
            "Suburban dogs",
            "https://cms.parallelchain.io/uploads/prfc2_kezia_dogs_9155af2e83.png",
            " ",
            owner,
        );
        proof {
            assert(!has_key(tokens@, "2"@));
        }
        tokens.insert("2".to_owned(), second);
        let third = new_token(
            "3",
            "Bag'o Fish",
            "https://cms.parallelchain.io/uploads/prfc2_kezia_fish_59ff1d61a0.png",
            "",
            owner,
        );
        proof {
            assert(!has_key(tokens@, "3"@));
        }
        tokens.insert("3".to_owned(), third);
        proof {
            assert(tokens@ =~= initial_collection(owner).tokens);
        }
        let collection = Collection {
            name: "Kezia's art collection".to_owned(),
            symbol: "EKA".to_owned(),
            tokens: tokens,
            uri: "".to_owned(),
        };
        PRFC2Implementor::from_collection(collection)
    }

    /// The registry at set-up. The first owner's address is written as a
    /// base64url text; there is a registry exactly where that text decodes to
    /// the 32 bytes of an address.
    pub fn init() -> (r: Option<PRFC2Implementor>)
        ensures
            r is Some <==> (base64url_decoded(initial_owner_text()) matches Some(b) && b.len()
                == 32),
            r matches Some(p) ==> p.wf() && set_up_for(
                p@,
                base64url_decoded(initial_owner_text())->Some_0,
            ),
    {
        let decoded = match decode_base64url("-HcAllwug6CYTKIsATsa7yPk8wpNd4b7DBXkaD0kzko") {
            Some(v) => v,
            None => {
                return None;
            },
        };
        match address_from_bytes(decoded.as_slice()) {
            Some(owner) => {
                let p = PRFC2Implementor::init_with_owner(owner);
                Some(p)
            },
            None => None,
        }
    }
}

} // verus!
