use prfc2_registry::events::{
    append_bytes, SetExclusiveSpenderEvent, SetSpenderEvent, TransferEvent,
};
use prfc2_registry::registry::{Collection, PRFC2Implementor};
use prfc2_registry::token::Token;
use prfc2_registry::token_map::{RegistryError, TokenMap};

fn small() -> Collection {
    let mut tokens = TokenMap::new();
    tokens.insert(
        "k".to_string(),
        Token {
            owner: [1u8; 32],
            spender: None,
            uri: String::new(),
            metadata: String::new(),
            name: String::new(),
            id: "k".to_string(),
            exclusive_spender: Some([2u8; 32]),
        },
    );
    Collection { name: "a".to_string(), symbol: String::new(), tokens, uri: "u".to_string() }
}

fn small_bytes() -> Vec<u8> {
    let mut b: Vec<u8> = Vec::new();
    b.extend([1, 0, 0, 0, 0, 0, 0, 0, b'a']); // name
    b.extend([0u8; 8]); // symbol
    b.extend([1, 0, 0, 0, 0, 0, 0, 0]); // number of tokens
    b.extend([1, 0, 0, 0, 0, 0, 0, 0, b'k']); // key
    b.extend([1u8; 32]); // owner
    b.push(0); // no spender
    b.extend([0u8; 8]); // uri
    b.extend([0u8; 8]); // metadata
    b.extend([0u8; 8]); // name
    b.extend([1, 0, 0, 0, 0, 0, 0, 0, b'k']); // id
    b.push(1);
    b.extend([2u8; 32]); // exclusive spender
    b.extend([1, 0, 0, 0, 0, 0, 0, 0, b'u']); // uri
    b
}

#[test]
fn encode_lays_the_fields_out_in_order() {
    assert_eq!(small().encode(), small_bytes());
}

#[test]
fn decode_reads_the_layout() {
    assert_eq!(Collection::decode(&small_bytes()), Ok(small()));
}

#[test]
fn decode_inverts_encode() {
    let mut reg = PRFC2Implementor::init_with_owner([7u8; 32]);
    reg.set_exclusive_spender([7u8; 32], Some([8u8; 32]));
    reg.transfer([7u8; 32], "2".to_string(), [9u8; 32]).unwrap();
    let c = reg.collection();
    let bytes = c.encode();
    let back = Collection::decode(&bytes).expect("what was written can be read");
    assert_eq!(back, c);
    assert_eq!(back.encode(), bytes);
    let empty = Collection {
        name: String::new(),
        symbol: String::new(),
        tokens: TokenMap::new(),
        uri: String::new(),
    };
    assert_eq!(empty.encode(), vec![0u8; 32]);
    assert_eq!(Collection::decode(&empty.encode()), Ok(empty));
}

#[test]
fn decode_keeps_texts_beyond_ascii() {
    let mut c = small();
    c.name = "Zoë's 収集 🦆".to_string();
    c.tokens.insert("ключ".to_string(), Token {
        owner: [3u8; 32],
        spender: Some([4u8; 32]),
        uri: "ü".to_string(),
        metadata: "µ".to_string(),
        name: "ñ".to_string(),
        id: "ключ".to_string(),
        exclusive_spender: None,
    });
    let bytes = c.encode();
    assert_eq!(Collection::decode(&bytes), Ok(c));
}

#[test]
fn decode_refuses_what_has_not_the_layout() {
    let good = small_bytes();
    assert_eq!(Collection::decode(&[]), Err(RegistryError::DecodeError));
    for cut in 0..good.len() {
        assert_eq!(Collection::decode(&good[..cut]), Err(RegistryError::DecodeError));
    }
    let mut trailing = good.clone();
    trailing.push(0);
    assert_eq!(Collection::decode(&trailing), Err(RegistryError::DecodeError));
    // a spender tag that is neither 0 nor 1
    let mut tag = good.clone();
    let at = 9 + 8 + 8 + 9 + 32;
    assert_eq!(tag[at], 0);
    tag[at] = 2;
    assert_eq!(Collection::decode(&tag), Err(RegistryError::DecodeError));
    // a name that is not UTF-8
    let mut text = good.clone();
    text[8] = 0xff;
    assert_eq!(Collection::decode(&text), Err(RegistryError::DecodeError));
    // a length that runs past the end
    let mut long = good.clone();
    long[7] = 0xff;
    assert_eq!(Collection::decode(&long), Err(RegistryError::DecodeError));
    // more tokens announced than are there
    let mut count = good.clone();
    count[17] = 2;
    assert_eq!(Collection::decode(&count), Err(RegistryError::DecodeError));
}

#[test]
fn decode_refuses_a_repeated_identifier() {
    let good = small_bytes();
    let entry_start = 9 + 8 + 8;
    let entry_end = good.len() - 9;
    let mut twice: Vec<u8> = Vec::new();
    twice.extend(&good[..17]);
    twice.extend([2, 0, 0, 0, 0, 0, 0, 0]);
    twice.extend(&good[entry_start..entry_end]);
    twice.extend(&good[entry_start..entry_end]);
    twice.extend(&good[entry_end..]);
    assert_eq!(Collection::decode(&twice), Err(RegistryError::DecodeError));
    // with another key in the second entry the same bytes are a collection
    let second_key = entry_start + (entry_end - entry_start) + 8;
    twice[second_key] = b'j';
    let c = Collection::decode(&twice).expect("two identifiers");
    assert_eq!(c.tokens.len(), 2);
    assert_eq!(c.tokens.key_at(1), "j");
}

#[test]
fn transfer_event_bytes() {
    let event = TransferEvent {
        owner_address: [1u8; 32],
        recipient_address: [2u8; 32],
        token_id: "4é".to_string(),
    };
    assert_eq!(event.topic(), vec![0u8]);
    let mut expected = vec![1u8; 32];
    expected.extend([2u8; 32]);
    expected.extend([b'4', 0xc3, 0xa9]);
    let value = event.into_value();
    assert_eq!(value.len(), 67);
    assert_eq!(value, expected);
}

#[test]
fn set_spender_event_bytes() {
    let event = SetSpenderEvent { spender_address: Some([5u8; 32]), token_id: "12".to_string() };
    assert_eq!(event.topic(), vec![1u8]);
    let mut expected = vec![5u8; 32];
    expected.extend([b'1', b'2']);
    assert_eq!(event.into_value(), expected);
    let none = SetSpenderEvent { spender_address: None, token_id: "".to_string() };
    assert_eq!(none.into_value(), vec![0u8; 32]);
}

#[test]
fn set_exclusive_spender_event_bytes() {
    let event = SetExclusiveSpenderEvent { owner_address: [6u8; 32], spender_address: Some([7u8; 32]) };
    assert_eq!(event.topic(), vec![2u8]);
    let mut expected = vec![6u8; 32];
    expected.extend([7u8; 32]);
    assert_eq!(event.into_value(), expected);
    let none = SetExclusiveSpenderEvent { owner_address: [6u8; 32], spender_address: None };
    let mut cleared = vec![6u8; 32];
    cleared.extend([0u8; 32]);
    assert_eq!(none.into_value(), cleared);
}

#[test]
fn events_of_actions_carry_the_action() {
    let p = [7u8; 32];
    let q = [8u8; 32];
    let mut reg = PRFC2Implementor::init_with_owner(p);
    let e = reg.set_exclusive_spender(p, Some(q));
    let mut expected = vec![7u8; 32];
    expected.extend([8u8; 32]);
    assert_eq!(e.into_value(), expected);
    let t = reg.transfer_from(q, p, q, "1".to_string()).unwrap();
    let mut moved = vec![7u8; 32];
    moved.extend([8u8; 32]);
    moved.push(b'1');
    assert_eq!(t.topic(), vec![0u8]);
    assert_eq!(t.into_value(), moved);
}

#[test]
fn append_bytes_appends() {
    let mut out = vec![1u8, 2];
    append_bytes(&mut out, &[3, 4, 5]);
    append_bytes(&mut out, &[]);
    assert_eq!(out, vec![1u8, 2, 3, 4, 5]);
}
