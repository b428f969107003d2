use asset_ledger::{Error, Ledger, Policy};

#[test]
fn new_ledger_is_empty() {
    let l = Ledger::new(Policy::OwnerGated);
    assert_eq!(l.policy(), Policy::OwnerGated);
    assert_eq!(l.nonce(), 0);
    assert!(l.asset(0).is_none());
    assert_eq!(l.account(0, 1), 0);
    assert!(l.metadata(0).is_none());
}

#[test]
fn owner_gated_scenario() {
    let a: u64 = 1;
    let b: u64 = 2;
    let mut l = Ledger::new(Policy::OwnerGated);

    let id = l.create_asset(a);
    let details = l.asset(id).unwrap();
    assert_eq!(details.owner, a);
    assert_eq!(details.supply, 0);

    let minted = l.mint(a, id, 100, a).unwrap();
    assert_eq!(minted.minted, 100);
    assert_eq!(minted.total_supply, 100);
    assert_eq!(l.asset(id).unwrap().supply, 100);
    assert_eq!(l.account(id, a), 100);

    assert_eq!(l.mint(b, id, 1, b), Err(Error::NoPermission));

    let effective = l.transfer(a, id, 150, b).unwrap();
    assert_eq!(effective, 100);
    assert_eq!(l.account(id, a), 0);
    assert_eq!(l.account(id, b), 100);
    assert_eq!(l.asset(id).unwrap().supply, 100);

    let burned = l.burn(a, id, 10).unwrap();
    assert_eq!(burned.burned, 0);
    assert_eq!(burned.total_supply, 100);
    assert_eq!(l.asset(id).unwrap().supply, 100);

    let burned = l.burn(b, id, 1000).unwrap();
    assert_eq!(burned.burned, 100);
    assert_eq!(burned.total_supply, 0);
    assert_eq!(l.account(id, b), 0);
    assert_eq!(l.asset(id).unwrap().supply, 0);
}

#[test]
fn self_issued_scenario() {
    let c: u64 = 3;
    let d: u64 = 4;
    let mut l = Ledger::new(Policy::SelfIssued);

    assert_eq!(l.create_asset_with_supply(c, 0), Err(Error::NoSupply));

    let id = l.create_asset_with_supply(c, 50).unwrap();
    let details = l.asset(id).unwrap();
    assert_eq!(details.owner, c);
    assert_eq!(details.supply, 50);
    assert_eq!(l.account(id, c), 50);

    assert_eq!(l.transfer(d, id, 5, c), Err(Error::NotOwned));
    assert_eq!(l.burn(d, id, 5), Err(Error::NotOwned));
    assert_eq!(l.account(id, c), 50);
    assert_eq!(l.asset(id).unwrap().supply, 50);
}

#[test]
fn operations_on_unknown_asset_fail() {
    let mut l = Ledger::new(Policy::OwnerGated);
    assert_eq!(l.mint(1, 7, 10, 1).map(|o| o.minted), Err(Error::Unknown));
    assert_eq!(l.burn(1, 7, 10).map(|o| o.burned), Err(Error::Unknown));
    assert_eq!(l.transfer(1, 7, 10, 2), Err(Error::Unknown));
    assert_eq!(l.set_metadata(1, 7, vec![b'x'], vec![b'y']), Err(Error::Unknown));
}

#[test]
fn create_ids_strictly_increase() {
    let mut l = Ledger::new(Policy::OwnerGated);
    let first = l.create_asset(1);
    // a failing operation in between leaves the nonce untouched
    assert_eq!(l.mint(2, first, 1, 2), Err(Error::NoPermission));
    let second = l.create_asset(2);
    let third = l.create_asset(1);
    assert_eq!(first, 0);
    assert_eq!(second, 1);
    assert_eq!(third, 2);
    assert_eq!(l.nonce(), 3);
    assert_eq!(l.asset(second).unwrap().owner, 2);
}

#[test]
fn set_metadata_stores_and_overwrites() {
    let mut l = Ledger::new(Policy::OwnerGated);
    let id = l.create_asset(1);
    assert!(l.metadata(id).is_none());

    assert_eq!(l.set_metadata(2, id, vec![b'T'], vec![b'K']), Err(Error::NoPermission));
    assert!(l.metadata(id).is_none());

    l.set_metadata(1, id, vec![b'T', b'o', b'k'], vec![b'T', b'K']).unwrap();
    let m = l.metadata(id).unwrap();
    assert_eq!(m.name, vec![b'T', b'o', b'k']);
    assert_eq!(m.symbol, vec![b'T', b'K']);

    l.set_metadata(1, id, vec![b'N'], vec![b'N', b'2']).unwrap();
    let m = l.metadata(id).unwrap();
    assert_eq!(m.name, vec![b'N']);
    assert_eq!(m.symbol, vec![b'N', b'2']);
}

#[test]
fn set_metadata_twice_is_idempotent() {
    let mut l = Ledger::new(Policy::OwnerGated);
    let id = l.create_asset(1);
    l.set_metadata(1, id, vec![1, 2, 3], vec![4]).unwrap();
    l.set_metadata(1, id, vec![1, 2, 3], vec![4]).unwrap();
    let m = l.metadata(id).unwrap();
    assert_eq!(m.name, vec![1, 2, 3]);
    assert_eq!(m.symbol, vec![4]);
    assert_eq!(l.asset(id).unwrap().supply, 0);
    assert_eq!(l.nonce(), 1);
}

#[test]
fn mint_saturates_at_numeric_maximum() {
    let mut l = Ledger::new(Policy::OwnerGated);
    let id = l.create_asset(1);
    let minted = l.mint(1, id, u128::MAX, 1).unwrap();
    assert_eq!(minted.minted, u128::MAX);
    assert_eq!(minted.total_supply, u128::MAX);

    // the supply is already at the maximum: the effective amount clamps to 0
    let minted = l.mint(1, id, 5, 2).unwrap();
    assert_eq!(minted.minted, 0);
    assert_eq!(minted.total_supply, u128::MAX);
    assert_eq!(l.account(id, 2), 0);
    assert_eq!(l.account(id, 1), u128::MAX);
}

#[test]
fn burn_clamps_to_prior_balance() {
    let mut l = Ledger::new(Policy::SelfIssued);
    let id = l.create_asset_with_supply(9, 300).unwrap();
    let burned = l.burn(9, id, 1000).unwrap();
    assert_eq!(burned.burned, 300);
    assert_eq!(burned.total_supply, 0);
    assert_eq!(l.account(id, 9), 0);
}

#[test]
fn transfer_clamps_to_prior_balance() {
    let mut l = Ledger::new(Policy::OwnerGated);
    let id = l.create_asset(1);
    l.mint(1, id, 300, 1).unwrap();
    let effective = l.transfer(1, id, 1000, 2).unwrap();
    assert_eq!(effective, 300);
    assert_eq!(l.account(id, 1), 0);
    assert_eq!(l.account(id, 2), 300);
    assert_eq!(l.asset(id).unwrap().supply, 300);
}

#[test]
fn transfer_to_self_moves_nothing() {
    let mut l = Ledger::new(Policy::OwnerGated);
    let id = l.create_asset(1);
    l.mint(1, id, 40, 1).unwrap();
    let effective = l.transfer(1, id, 70, 1).unwrap();
    assert_eq!(effective, 40);
    assert_eq!(l.account(id, 1), 40);
    assert_eq!(l.asset(id).unwrap().supply, 40);
}

#[test]
fn burn_of_zero_balance_is_policy_dependent() {
    // owner-gated: no prior-balance check, the clamp yields an effective 0
    let mut og = Ledger::new(Policy::OwnerGated);
    let id = og.create_asset(1);
    og.mint(1, id, 10, 1).unwrap();
    let burned = og.burn(2, id, 10).unwrap();
    assert_eq!(burned.burned, 0);
    assert_eq!(burned.total_supply, 10);

    // self-issued: a zero balance is refused before any mutation
    let mut si = Ledger::new(Policy::SelfIssued);
    let id = si.create_asset_with_supply(1, 10).unwrap();
    assert_eq!(si.burn(2, id, 10).map(|o| o.burned), Err(Error::NotOwned));
    assert_eq!(si.asset(id).unwrap().supply, 10);
}

#[test]
fn distinct_assets_do_not_interfere() {
    let mut l = Ledger::new(Policy::OwnerGated);
    let first = l.create_asset(1);
    let second = l.create_asset(2);
    l.mint(1, first, 100, 5).unwrap();
    l.mint(2, second, 7, 5).unwrap();
    assert_eq!(l.account(first, 5), 100);
    assert_eq!(l.account(second, 5), 7);
    l.burn(5, first, 30).unwrap();
    assert_eq!(l.asset(first).unwrap().supply, 70);
    assert_eq!(l.asset(second).unwrap().supply, 7);
    assert_eq!(l.account(second, 5), 7);
}
