use candid::{Nat, Principal};
use dip721::{GenericValue, Ledger, NftError, SupportedInterface};

fn who(b: u8) -> Principal {
    Principal::from_slice(&[b])
}

fn id(n: u64) -> Nat {
    Nat::from(n)
}

fn custodian() -> Principal {
    who(100)
}

fn alice() -> Principal {
    who(1)
}

fn bob() -> Principal {
    who(2)
}

fn carol() -> Principal {
    who(3)
}

fn dave() -> Principal {
    who(4)
}

fn eve() -> Principal {
    who(5)
}

fn ledger() -> Ledger {
    Ledger::new(vec![custodian()], 7).unwrap()
}

fn is_err<T>(r: Result<T, NftError>, e: NftError) -> bool {
    match r {
        Err(x) => x == e,
        Ok(_) => false,
    }
}

#[test]
fn new_rejects_empty_custodians() {
    assert!(matches!(Ledger::new(vec![], 0), Err(NftError::Other(_))));
    let l = ledger();
    assert_eq!(l.custodians(), &vec![custodian()]);
    assert_eq!(l.metadata().created_at, 7);
    assert_eq!(l.total_supply(), 0);
    assert_eq!(l.total_transactions(), 0);
}

#[test]
fn mint_then_transfer_moves_ownership() {
    let mut l = ledger();
    assert_eq!(l.mint(custodian(), alice(), id(1), vec![], 10), Ok(0));
    assert_eq!(l.transfer(alice(), bob(), id(1), 11), Ok(1));
    assert_eq!(l.owner_of(id(1)), Ok(Some(bob())));
}

#[test]
fn transfer_from_by_single_token_operator() {
    let mut l = ledger();
    assert_eq!(l.mint(custodian(), alice(), id(1), vec![], 10), Ok(0));
    assert_eq!(l.transfer(alice(), bob(), id(1), 11), Ok(1));
    assert_eq!(l.approve(bob(), carol(), id(1), 12), Ok(2));
    assert_eq!(l.operator_of(id(1)), Ok(Some(carol())));
    assert_eq!(l.transfer_from(carol(), bob(), dave(), id(1), 13), Ok(3));
    assert_eq!(l.operator_of(id(1)), Ok(None));
    assert_eq!(l.owner_of(id(1)), Ok(Some(dave())));
}

#[test]
fn burned_token_cannot_be_transferred() {
    let mut l = ledger();
    l.mint(custodian(), alice(), id(1), vec![], 10).unwrap();
    l.transfer(alice(), bob(), id(1), 11).unwrap();
    l.approve(bob(), carol(), id(1), 12).unwrap();
    l.transfer_from(carol(), bob(), dave(), id(1), 13).unwrap();
    assert_eq!(l.burn(dave(), id(1), 14), Ok(4));
    assert!(is_err(l.transfer(dave(), eve(), id(1), 15), NftError::UnauthorizedOwner));
    assert_eq!(l.owner_of(id(1)), Ok(None));
    let t = l.token_metadata(id(1)).unwrap();
    assert!(t.is_burned);
    assert_eq!(t.burned_by, Some(dave()));
    assert_eq!(t.burned_at, Some(14));
    assert_eq!(l.total_supply(), 1);
    assert_eq!(l.total_transactions(), 5);
}

#[test]
fn mint_requires_custodian_and_fresh_id() {
    let mut l = ledger();
    assert!(is_err(l.mint(alice(), alice(), id(1), vec![], 10), NftError::UnauthorizedOwner));
    assert_eq!(l.total_transactions(), 0);
    assert_eq!(l.mint(custodian(), alice(), id(1), vec![], 10), Ok(0));
    assert!(is_err(l.mint(custodian(), bob(), id(1), vec![], 11), NftError::ExistedNFT));
    assert_eq!(l.owner_of(id(1)), Ok(Some(alice())));
    assert_eq!(l.total_transactions(), 1);
}

#[test]
fn self_transfer_changes_nothing() {
    let mut l = ledger();
    l.mint(custodian(), alice(), id(1), vec![], 10).unwrap();
    assert!(is_err(l.transfer(alice(), alice(), id(1), 11), NftError::SelfTransfer));
    assert_eq!(l.total_transactions(), 1);
    assert_eq!(l.owner_of(id(1)), Ok(Some(alice())));
    assert_eq!(l.transfer(alice(), bob(), id(1), 12), Ok(1));
}

#[test]
fn owner_follows_latest_change() {
    let mut l = ledger();
    l.mint(custodian(), alice(), id(1), vec![], 10).unwrap();
    l.mint(custodian(), alice(), id(2), vec![], 10).unwrap();
    assert_eq!(l.owner_of(id(1)), Ok(Some(alice())));
    l.transfer(alice(), bob(), id(1), 11).unwrap();
    assert_eq!(l.owner_of(id(1)), Ok(Some(bob())));
    assert_eq!(l.owner_of(id(2)), Ok(Some(alice())));
    l.set_approval_for_all(bob(), carol(), true, 12).unwrap();
    l.transfer_from(carol(), bob(), eve(), id(1), 13).unwrap();
    assert_eq!(l.owner_of(id(1)), Ok(Some(eve())));
    l.burn(eve(), id(1), 14).unwrap();
    assert_eq!(l.owner_of(id(1)), Ok(None));
    assert_eq!(l.owner_of(id(2)), Ok(Some(alice())));
    assert!(is_err(l.owner_of(id(9)), NftError::TokenNotFound));
}

#[test]
fn approval_query_is_stable() {
    let mut l = ledger();
    assert!(!l.is_approved_for_all(alice(), bob()));
    assert_eq!(l.set_approval_for_all(alice(), bob(), true, 1), Ok(0));
    assert!(l.is_approved_for_all(alice(), bob()));
    assert!(l.is_approved_for_all(alice(), bob()));
    assert!(!l.is_approved_for_all(bob(), alice()));
    assert_eq!(l.set_approval_for_all(alice(), bob(), false, 2), Ok(1));
    assert!(!l.is_approved_for_all(alice(), bob()));
    assert!(is_err(l.set_approval_for_all(alice(), alice(), true, 3), NftError::SelfApprove));
    assert_eq!(l.total_transactions(), 2);
}

#[test]
fn transaction_ids_count_up_from_zero() {
    let mut l = ledger();
    let mut ids = vec![];
    ids.push(l.mint(custodian(), alice(), id(1), vec![], 1).unwrap());
    assert!(l.transfer(bob(), carol(), id(1), 2).is_err());
    ids.push(l.mint(custodian(), alice(), id(2), vec![], 2).unwrap());
    ids.push(l.approve(alice(), bob(), id(2), 3).unwrap());
    assert!(l.burn(bob(), id(2), 4).is_err());
    ids.push(l.set_approval_for_all(alice(), carol(), true, 4).unwrap());
    ids.push(l.transfer(alice(), dave(), id(1), 5).unwrap());
    ids.push(l.burn(alice(), id(2), 6).unwrap());
    assert_eq!(ids, vec![0, 1, 2, 3, 4, 5]);
    assert_eq!(l.total_transactions(), 6);
}

#[test]
fn owned_tokens_are_supply_less_burned() {
    let mut l = ledger();
    for i in 0..5u64 {
        let to = if i % 2 == 0 { alice() } else { bob() };
        l.mint(custodian(), to, id(i), vec![], i).unwrap();
    }
    l.burn(alice(), id(0), 9).unwrap();
    l.burn(bob(), id(3), 9).unwrap();
    let a = l.balance_of(alice()).unwrap();
    let b = l.balance_of(bob()).unwrap();
    assert_eq!(a + b, l.total_supply() - 2);
    assert_eq!(a, 2);
    assert_eq!(b, 1);
    assert_eq!(l.total_unique_holders(), 2);
}

#[test]
fn transaction_records_events() {
    let mut l = ledger();
    l.mint(custodian(), alice(), id(1), vec![], 10).unwrap();
    l.transfer(alice(), bob(), id(1), 11).unwrap();
    let e = l.transaction(1).unwrap();
    assert_eq!(e.operation, "transfer");
    assert_eq!(e.caller, alice());
    assert_eq!(e.time, 11);
    assert_eq!(e.details.len(), 2);
    assert_eq!(e.details[0].0, "to");
    assert!(matches!(e.details[0].1, GenericValue::Principal(p) if p == bob()));
    assert_eq!(e.details[1].0, "token_identifier");
    assert!(matches!(&e.details[1].1, GenericValue::NatContent(n) if *n == id(1)));
    assert_eq!(l.transaction(0).unwrap().operation, "mint");
    assert!(is_err(l.transaction(2), NftError::TxNotFound));
}

#[test]
fn transfer_from_errors() {
    let mut l = ledger();
    l.mint(custodian(), alice(), id(1), vec![], 10).unwrap();
    assert!(is_err(l.transfer_from(bob(), alice(), alice(), id(1), 11), NftError::SelfTransfer));
    assert!(is_err(l.transfer_from(bob(), alice(), carol(), id(2), 11), NftError::TokenNotFound));
    assert!(is_err(
        l.transfer_from(bob(), alice(), carol(), id(1), 11),
        NftError::UnauthorizedOperator
    ));
    assert!(is_err(l.transfer_from(bob(), bob(), carol(), id(1), 11), NftError::OwnerNotFound));
    assert_eq!(l.transfer_from(alice(), alice(), carol(), id(1), 11), Ok(1));
    assert_eq!(l.owner_of(id(1)), Ok(Some(carol())));
}

#[test]
fn transfer_and_approve_errors() {
    let mut l = ledger();
    l.mint(custodian(), alice(), id(1), vec![], 10).unwrap();
    assert!(is_err(l.transfer(alice(), bob(), id(2), 11), NftError::TokenNotFound));
    assert!(is_err(l.transfer(bob(), carol(), id(1), 11), NftError::UnauthorizedOwner));
    assert!(is_err(l.approve(alice(), bob(), id(2), 11), NftError::TokenNotFound));
    assert!(is_err(l.approve(bob(), carol(), id(1), 11), NftError::UnauthorizedOwner));
    assert!(is_err(l.approve(alice(), alice(), id(1), 11), NftError::SelfApprove));
    assert!(is_err(l.burn(alice(), id(2), 11), NftError::TokenNotFound));
    assert!(is_err(l.burn(bob(), id(1), 11), NftError::UnauthorizedOwner));
    assert_eq!(l.total_transactions(), 1);
}

#[test]
fn transfer_clears_operator() {
    let mut l = ledger();
    l.mint(custodian(), alice(), id(1), vec![], 10).unwrap();
    l.approve(alice(), bob(), id(1), 11).unwrap();
    assert_eq!(l.operator_token_identifiers(bob()), Ok(vec![id(1)]));
    l.transfer(alice(), carol(), id(1), 12).unwrap();
    assert_eq!(l.operator_of(id(1)), Ok(None));
    assert!(is_err(l.operator_token_identifiers(bob()), NftError::OperatorNotFound));
    assert!(is_err(l.operator_token_metadata(bob()), NftError::OperatorNotFound));
    let t = l.token_metadata(id(1)).unwrap();
    assert_eq!(t.transferred_by, Some(alice()));
    assert_eq!(t.transferred_at, Some(12));
    assert_eq!(t.approved_by, Some(alice()));
}

#[test]
fn enumeration_in_minting_order() {
    let mut l = ledger();
    l.mint(custodian(), alice(), id(3), vec![], 1).unwrap();
    l.mint(custodian(), bob(), id(1), vec![], 1).unwrap();
    l.mint(custodian(), alice(), id(2), vec![], 1).unwrap();
    assert_eq!(l.owner_token_identifiers(alice()), Ok(vec![id(3), id(2)]));
    let recs = l.owner_token_metadata(alice()).unwrap();
    assert_eq!(recs.len(), 2);
    assert_eq!(recs[0].token_identifier, id(3));
    assert_eq!(recs[1].token_identifier, id(2));
    assert!(is_err(l.owner_token_identifiers(carol()), NftError::OwnerNotFound));
    assert!(is_err(l.owner_token_metadata(carol()), NftError::OwnerNotFound));
    assert!(is_err(l.balance_of(carol()), NftError::OwnerNotFound));
    assert_eq!(l.balance_of(alice()), Ok(2));
}

#[test]
fn minted_record_holds_properties() {
    let mut l = ledger();
    let props = vec![("key".to_string(), GenericValue::TextContent("value".to_string()))];
    l.mint(custodian(), alice(), id(9), props, 5).unwrap();
    let t = l.token_metadata(id(9)).unwrap();
    assert_eq!(t.minted_by, custodian());
    assert_eq!(t.minted_at, 5);
    assert_eq!(t.owner, Some(alice()));
    assert!(!t.is_burned);
    assert_eq!(t.properties.len(), 1);
    assert_eq!(t.properties[0].0, "key");
    assert!(matches!(&t.properties[0].1, GenericValue::TextContent(s) if s == "value"));
    assert!(is_err(l.token_metadata(id(8)), NftError::TokenNotFound));
}

#[test]
fn administration_needs_custodian() {
    let mut l = ledger();
    assert!(is_err(l.set_name(alice(), "x".to_string()), NftError::UnauthorizedOwner));
    assert_eq!(l.name(), &None);
    assert_eq!(l.set_name(custodian(), "Cats".to_string()), Ok(()));
    assert_eq!(l.set_symbol(custodian(), "CAT".to_string()), Ok(()));
    assert_eq!(l.set_logo(custodian(), "aGk=".to_string()), Ok(()));
    assert_eq!(l.name(), &Some("Cats".to_string()));
    assert_eq!(l.symbol(), &Some("CAT".to_string()));
    assert_eq!(l.logo(), &Some("aGk=".to_string()));
    assert!(matches!(l.set_custodians(custodian(), vec![]), Err(NftError::Other(_))));
    assert_eq!(l.set_custodians(custodian(), vec![alice()]), Ok(()));
    assert!(is_err(l.set_logo(custodian(), "y".to_string()), NftError::UnauthorizedOwner));
    assert_eq!(l.custodians(), &vec![alice()]);
    assert_eq!(l.total_transactions(), 0);
}

#[test]
fn stats_and_interfaces() {
    let mut l = ledger();
    l.mint(custodian(), alice(), id(1), vec![], 1).unwrap();
    l.mint(custodian(), alice(), id(2), vec![], 1).unwrap();
    l.mint(custodian(), bob(), id(3), vec![], 1).unwrap();
    let s = l.stats(42);
    assert_eq!(s.cycles, 42);
    assert_eq!(s.total_supply, 3);
    assert_eq!(s.total_transactions, 3);
    assert_eq!(s.total_unique_holders, 2);
    assert_eq!(
        l.supported_interfaces(),
        vec![
            SupportedInterface::Approval,
            SupportedInterface::Burn,
            SupportedInterface::Mint,
            SupportedInterface::TransactionHistory
        ]
    );
}
