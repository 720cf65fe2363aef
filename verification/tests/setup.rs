use prfc2_registry::address::{address_from_bytes, address_or_zero, same_address, same_spender, zero_address};
use prfc2_registry::registry::PRFC2Implementor;
use prfc2_registry::token::Token;
use prfc2_registry::token_map::{Entry, RegistryError, TokenMap};

const FIRST_OWNER: [u8; 32] = [
    248, 119, 0, 150, 92, 46, 131, 160, 152, 76, 162, 44, 1, 59, 26, 239, 35, 228, 243, 10, 77, 119,
    134, 251, 12, 21, 228, 104, 61, 36, 206, 74,
];

fn token(id: &str, owner: [u8; 32]) -> Token {
    Token {
        owner,
        spender: None,
        uri: String::new(),
        metadata: String::new(),
        name: format!("token {}", id),
        id: id.to_string(),
        exclusive_spender: None,
    }
}

#[test]
fn init_decodes_the_first_owner() {
    let reg = PRFC2Implementor::init().expect("the owner's text is a 32-byte address");
    for id in ["1", "2", "3"] {
        assert_eq!(reg.get_owner(&id.to_string()), Ok(FIRST_OWNER));
        assert_eq!(reg.get_spender(&id.to_string()), Ok(Some(FIRST_OWNER)));
    }
    assert_eq!(reg.collection(), PRFC2Implementor::init_with_owner(FIRST_OWNER).collection());
}

#[test]
fn init_with_owner_builds_the_three_tokens() {
    let reg = PRFC2Implementor::init_with_owner([5u8; 32]);
    let c = reg.collection();
    assert_eq!(c.name, "Kezia's art collection");
    assert_eq!(c.symbol, "EKA");
    assert_eq!(c.uri, "");
    assert_eq!(c.tokens.len(), 3);
    let all = c.tokens.values();
    let ids: Vec<&str> = all.iter().map(|t| t.id.as_str()).collect();
    assert_eq!(ids, vec!["1", "2", "3"]);
    let names: Vec<&str> = all.iter().map(|t| t.name.as_str()).collect();
    assert_eq!(names, vec!["Mystic duck", "Suburban dogs", "Bag'o Fish"]);
    assert_eq!(all[0].uri, "https://cms.parallelchain.io/uploads/prfc2_kezia_duck_1a9f6c738e.png");
    assert_eq!(all[1].uri, "https://cms.parallelchain.io/uploads/prfc2_kezia_dogs_9155af2e83.png");
    assert_eq!(all[2].uri, "https://cms.parallelchain.io/uploads/prfc2_kezia_fish_59ff1d61a0.png");
    assert_eq!(all[0].metadata, "");
    assert_eq!(all[1].metadata, " ");
    for (i, t) in all.iter().enumerate() {
        assert_eq!(t.owner, [5u8; 32]);
        assert_eq!(t.spender, Some([5u8; 32]));
        assert_eq!(t.exclusive_spender, Some([5u8; 32]));
        assert_eq!(c.tokens.key_at(i), &t.id);
    }
}

#[test]
fn token_map_inserts_in_order_and_replaces_in_place() {
    let mut map = TokenMap::new();
    assert_eq!(map.len(), 0);
    assert_eq!(map.get(&"a".to_string()), Err(RegistryError::NotFound));
    map.insert("a".to_string(), token("a", [1u8; 32]));
    map.insert("b".to_string(), token("b", [2u8; 32]));
    map.insert("c".to_string(), token("c", [3u8; 32]));
    assert_eq!(map.len(), 3);
    assert_eq!(map.position(&"b".to_string()), Some(1));
    assert_eq!(map.position(&"z".to_string()), None);
    map.insert("a".to_string(), token("a2", [9u8; 32]));
    assert_eq!(map.len(), 3);
    assert_eq!(map.position(&"a".to_string()), Some(0));
    assert_eq!(map.get(&"a".to_string()), Ok(token("a2", [9u8; 32])));
    assert_eq!(map.token_at(2), &token("c", [3u8; 32]));
    map.set_token_at(2, token("c3", [4u8; 32]));
    assert_eq!(map.key_at(2), "c");
    let owners: Vec<[u8; 32]> = map.values().into_iter().map(|t| t.owner).collect();
    assert_eq!(owners, vec![[9u8; 32], [2u8; 32], [4u8; 32]]);
    assert_eq!(map.clone(), map);
}

#[test]
fn token_map_from_entries_refuses_a_repeated_identifier() {
    let entries = vec![
        Entry { key: "a".to_string(), token: token("a", [1u8; 32]) },
        Entry { key: "b".to_string(), token: token("b", [1u8; 32]) },
    ];
    let map = TokenMap::from_entries(entries).expect("the identifiers differ");
    assert_eq!(map.len(), 2);
    assert_eq!(map.key_at(1), "b");
    let twice = vec![
        Entry { key: "a".to_string(), token: token("a", [1u8; 32]) },
        Entry { key: "b".to_string(), token: token("b", [1u8; 32]) },
        Entry { key: "a".to_string(), token: token("c", [1u8; 32]) },
    ];
    assert_eq!(TokenMap::from_entries(twice), None);
    assert_eq!(TokenMap::from_entries(Vec::new()), Some(TokenMap::new()));
}

#[test]
fn token_copies_change_only_what_they_say() {
    let t = Token {
        owner: [1u8; 32],
        spender: Some([2u8; 32]),
        uri: "u".to_string(),
        metadata: "m".to_string(),
        name: "n".to_string(),
        id: "i".to_string(),
        exclusive_spender: Some([3u8; 32]),
    };
    assert_eq!(t.clone(), t);
    let moved = t.moved_to([4u8; 32]);
    assert_eq!(moved, Token { owner: [4u8; 32], spender: None, exclusive_spender: None, ..t.clone() });
    let s = t.with_spender(None);
    assert_eq!(s, Token { spender: None, ..t.clone() });
    let e = t.with_exclusive_spender(Some([5u8; 32]));
    assert_eq!(
        e,
        Token { spender: Some([5u8; 32]), exclusive_spender: Some([5u8; 32]), ..t.clone() }
    );
}

#[test]
fn address_helpers() {
    assert_eq!(zero_address(), [0u8; 32]);
    assert!(same_address(&[3u8; 32], &[3u8; 32]));
    let mut other = [3u8; 32];
    other[31] = 4;
    assert!(!same_address(&[3u8; 32], &other));
    assert!(same_spender(&None, &None));
    assert!(same_spender(&Some(other), &Some(other)));
    assert!(!same_spender(&Some(other), &None));
    assert!(!same_spender(&Some(other), &Some([3u8; 32])));
    assert_eq!(address_or_zero(&None), [0u8; 32]);
    assert_eq!(address_or_zero(&Some(other)), other);
    assert_eq!(address_from_bytes(&FIRST_OWNER), Some(FIRST_OWNER));
    assert_eq!(address_from_bytes(&FIRST_OWNER[..31]), None);
    assert_eq!(address_from_bytes(&[0u8; 33]), None);
    assert_eq!(address_from_bytes(&[]), None);
}

#[test]
fn token_map_get_mut_writes_in_place() {
    let mut map = TokenMap::new();
    map.insert("a".to_string(), token("a", [1u8; 32]));
    map.insert("b".to_string(), token("b", [2u8; 32]));
    assert_eq!(map.get_mut(&"c".to_string()), Err(RegistryError::NotFound));
    {
        let t = map.get_mut(&"b".to_string()).expect("the key is there");
        assert_eq!(t.owner, [2u8; 32]);
        t.owner = [3u8; 32];
        t.spender = Some([4u8; 32]);
    }
    assert_eq!(map.len(), 2);
    assert_eq!(map.key_at(1), "b");
    let b = map.get(&"b".to_string()).unwrap();
    assert_eq!(b.owner, [3u8; 32]);
    assert_eq!(b.spender, Some([4u8; 32]));
    assert_eq!(b.name, "token b");
    assert_eq!(map.get(&"a".to_string()), Ok(token("a", [1u8; 32])));
}
