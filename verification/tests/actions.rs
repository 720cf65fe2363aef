use prfc2_registry::registry::PRFC2Implementor;
use prfc2_registry::token_map::RegistryError;

const P: [u8; 32] = [7u8; 32];
const Q: [u8; 32] = [8u8; 32];
const R: [u8; 32] = [9u8; 32];

fn id(s: &str) -> String {
    s.to_string()
}

#[test]
fn exclusive_spender_then_delegated_transfer() {
    let mut reg = PRFC2Implementor::init_with_owner(P);
    let event = reg.set_exclusive_spender(P, Some(Q));
    assert_eq!(event.owner_address, P);
    assert_eq!(event.spender_address, Some(Q));
    for t in ["1", "2", "3"] {
        assert_eq!(reg.get_spender(&id(t)), Ok(Some(Q)));
    }
    assert_eq!(reg.get_exclusive_spender(P), Some(Q));

    let moved = reg.transfer_from(Q, P, R, id("2")).expect("the exclusive spender may transfer");
    assert_eq!(moved.owner_address, P);
    assert_eq!(moved.recipient_address, R);
    assert_eq!(moved.token_id, "2");
    assert_eq!(reg.get_owner(&id("2")), Ok(R));
    assert_eq!(reg.get_spender(&id("2")), Ok(None));
    assert_eq!(reg.get_exclusive_spender(P), Some(Q));
    let left: Vec<String> = reg.tokens_owned(P).into_iter().map(|t| t.id).collect();
    assert_eq!(left, vec![id("1"), id("3")]);
    let gone: Vec<String> = reg.tokens_owned(R).into_iter().map(|t| t.id).collect();
    assert_eq!(gone, vec![id("2")]);
}

#[test]
fn transfer_by_stranger_is_refused_and_changes_nothing() {
    let mut reg = PRFC2Implementor::init_with_owner(P);
    let before = reg.collection();
    let r = reg.transfer(R, id("1"), R);
    assert_eq!(r, Err(RegistryError::Unauthorized));
    assert_eq!(reg.collection(), before);
    assert_eq!(reg.collection().encode(), before.encode());
}

#[test]
fn transfer_gives_the_token_to_the_recipient_and_clears_authorizations() {
    let mut reg = PRFC2Implementor::init_with_owner(P);
    reg.set_exclusive_spender(P, Some(Q));
    let event = reg.transfer(P, id("3"), R).expect("the owner may transfer");
    assert_eq!(event.owner_address, P);
    assert_eq!(event.recipient_address, R);
    assert_eq!(event.token_id, "3");
    assert_eq!(reg.get_owner(&id("3")), Ok(R));
    assert_eq!(reg.get_spender(&id("3")), Ok(None));
    let token = reg.collection().tokens.get(&id("3")).unwrap();
    assert_eq!(token.exclusive_spender, None);
    assert_eq!(token.name, "Bag'o Fish");
    // neither the old spender nor the old owner can move it any more
    assert_eq!(reg.transfer_from(Q, R, P, id("3")), Err(RegistryError::Unauthorized));
    assert_eq!(reg.transfer_from(Q, P, Q, id("3")), Err(RegistryError::Unauthorized));
    assert_eq!(reg.transfer(P, id("3"), P), Err(RegistryError::Unauthorized));
    assert_eq!(reg.get_owner(&id("3")), Ok(R));
    // the other tokens are as they were
    assert_eq!(reg.get_owner(&id("1")), Ok(P));
    assert_eq!(reg.get_spender(&id("1")), Ok(Some(Q)));
}

#[test]
fn transfer_is_unauthorized_for_every_caller_but_the_owner() {
    for caller in [Q, R, [0u8; 32], [255u8; 32]] {
        for t in ["1", "2", "3"] {
            let mut reg = PRFC2Implementor::init_with_owner(P);
            assert_eq!(reg.transfer(caller, id(t), Q), Err(RegistryError::Unauthorized));
            assert_eq!(reg.get_owner(&id(t)), Ok(P));
        }
    }
}

#[test]
fn transfer_from_needs_the_spender_and_the_true_owner() {
    let mut reg = PRFC2Implementor::init_with_owner(P);
    reg.set_exclusive_spender(P, Some(Q));
    // caller is not the spender
    assert_eq!(reg.transfer_from(R, P, R, id("1")), Err(RegistryError::Unauthorized));
    // the owner itself is not the spender either
    assert_eq!(reg.transfer_from(P, P, R, id("1")), Err(RegistryError::Unauthorized));
    // the named owner does not own the token
    assert_eq!(reg.transfer_from(Q, R, R, id("1")), Err(RegistryError::Unauthorized));
    assert_eq!(reg.transfer_from(Q, Q, R, id("1")), Err(RegistryError::Unauthorized));
    assert_eq!(reg.get_owner(&id("1")), Ok(P));
    assert_eq!(reg.get_spender(&id("1")), Ok(Some(Q)));
    assert!(reg.transfer_from(Q, P, R, id("1")).is_ok());
    assert_eq!(reg.get_owner(&id("1")), Ok(R));
}

#[test]
fn transfer_from_by_a_single_token_spender() {
    let mut reg = PRFC2Implementor::init_with_owner(P);
    reg.set_exclusive_spender(P, None);
    reg.set_spender(P, id("2"), Some(Q)).expect("no exclusive spender stands in the way");
    assert_eq!(reg.get_exclusive_spender(P), None);
    assert_eq!(reg.transfer_from(Q, P, R, id("1")), Err(RegistryError::Unauthorized));
    assert!(reg.transfer_from(Q, P, R, id("2")).is_ok());
    assert_eq!(reg.get_owner(&id("2")), Ok(R));
}

#[test]
fn unknown_tokens_are_not_found() {
    let mut reg = PRFC2Implementor::init_with_owner(P);
    assert_eq!(reg.get_owner(&id("0")), Err(RegistryError::NotFound));
    assert_eq!(reg.get_spender(&id("4")), Err(RegistryError::NotFound));
    assert_eq!(reg.transfer(P, id(""), Q), Err(RegistryError::NotFound));
    assert_eq!(reg.transfer_from(P, P, Q, id("11")), Err(RegistryError::NotFound));
    assert_eq!(reg.set_spender(P, id("x"), None), Err(RegistryError::NotFound));
    assert_eq!(reg.collection(), PRFC2Implementor::init_with_owner(P).collection());
}

#[test]
fn set_spender_respects_a_standing_exclusive_spender() {
    let mut reg = PRFC2Implementor::init_with_owner(P);
    // at set-up every token names its owner, so the owner is its own exclusive spender
    assert_eq!(reg.get_exclusive_spender(P), Some(P));
    assert_eq!(reg.set_spender(P, id("1"), Some(Q)), Err(RegistryError::Unauthorized));
    assert_eq!(reg.set_spender(P, id("1"), None), Err(RegistryError::Unauthorized));
    assert_eq!(reg.get_spender(&id("1")), Ok(Some(P)));
    let same = reg.set_spender(P, id("1"), Some(P)).expect("the same spender is accepted");
    assert_eq!(same.spender_address, Some(P));
    assert_eq!(same.token_id, "1");
    // only the owner may set a spender
    assert_eq!(reg.set_spender(Q, id("1"), Some(P)), Err(RegistryError::Unauthorized));
    reg.set_exclusive_spender(P, None);
    let event = reg.set_spender(P, id("1"), Some(Q)).expect("nothing stands in the way");
    assert_eq!(event.spender_address, Some(Q));
    assert_eq!(reg.get_spender(&id("1")), Ok(Some(Q)));
    assert_eq!(reg.get_spender(&id("2")), Ok(None));
    assert_eq!(reg.get_exclusive_spender(P), None);
    assert!(reg.set_spender(P, id("1"), None).is_ok());
    assert_eq!(reg.get_spender(&id("1")), Ok(None));
}

#[test]
fn set_exclusive_spender_leaves_other_owners_alone() {
    let mut reg = PRFC2Implementor::init_with_owner(P);
    reg.transfer(P, id("2"), R).unwrap();
    reg.set_exclusive_spender(R, Some(P));
    let before = reg.collection().tokens.get(&id("2")).unwrap();
    reg.set_exclusive_spender(P, Some(Q));
    assert_eq!(reg.get_spender(&id("1")), Ok(Some(Q)));
    assert_eq!(reg.get_spender(&id("3")), Ok(Some(Q)));
    assert_eq!(reg.collection().tokens.get(&id("2")).unwrap(), before);
    assert_eq!(reg.get_spender(&id("2")), Ok(Some(P)));
    assert_eq!(reg.get_owner(&id("1")), Ok(P));
    let one = reg.collection().tokens.get(&id("1")).unwrap();
    assert_eq!(one.exclusive_spender, Some(Q));
    // an address without tokens changes nothing
    let snapshot = reg.collection();
    let event = reg.set_exclusive_spender(Q, Some(R));
    assert_eq!(event.owner_address, Q);
    assert_eq!(reg.collection(), snapshot);
}

#[test]
fn exclusive_spender_is_the_common_spender_or_none() {
    let mut reg = PRFC2Implementor::init_with_owner(P);
    assert_eq!(reg.get_exclusive_spender(Q), None);
    assert_eq!(reg.get_exclusive_spender(P), Some(P));
    reg.set_exclusive_spender(P, Some(Q));
    assert_eq!(reg.get_exclusive_spender(P), Some(Q));
    reg.set_exclusive_spender(P, None);
    assert_eq!(reg.get_exclusive_spender(P), None);
    reg.set_spender(P, id("3"), Some(R)).unwrap();
    assert_eq!(reg.get_exclusive_spender(P), None);
    reg.transfer(P, id("3"), Q).unwrap();
    reg.set_exclusive_spender(Q, Some(R));
    assert_eq!(reg.get_exclusive_spender(Q), Some(R));
    assert_eq!(reg.get_exclusive_spender(P), None);
}

#[test]
fn tokens_owned_lists_in_map_order() {
    let mut reg = PRFC2Implementor::init_with_owner(P);
    assert_eq!(reg.tokens_owned(P).len(), 3);
    assert_eq!(reg.tokens_owned(Q).len(), 0);
    reg.transfer(P, id("1"), Q).unwrap();
    reg.transfer(P, id("3"), Q).unwrap();
    let q: Vec<String> = reg.tokens_owned(Q).into_iter().map(|t| t.name).collect();
    assert_eq!(q, vec![id("Mystic duck"), id("Bag'o Fish")]);
    let p = reg.tokens_owned(P);
    assert_eq!(p.len(), 1);
    assert_eq!(p[0].id, "2");
    assert_eq!(p[0].owner, P);
}
