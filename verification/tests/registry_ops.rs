use staking_core::errors::Error;
use staking_core::ledger::{OneToManyDelegatorStatus, OneToManyLedger};
use staking_core::location::{Junction, Location};
use staking_core::state::{AssetClass, MinimumsAndMaximums, StakingCore};

fn account_loc(byte: u8) -> Location {
    Location { parents: 1, interior: vec![Junction::AccountId32 { id: [byte; 32] }] }
}

fn simple_ledger(who: &Location, total: u128) -> OneToManyLedger {
    OneToManyLedger {
        account: who.duplicate(),
        delegations: vec![],
        total,
        less_total: 0,
        requests: vec![],
        status: OneToManyDelegatorStatus::Active,
    }
}

fn policy(delegators_maximum: u16, validators_maximum: u16) -> MinimumsAndMaximums {
    MinimumsAndMaximums { delegators_maximum, validators_maximum }
}

#[test]
fn add_then_remove_delegator_leaves_no_trace() {
    let mut core = StakingCore::new(100, 2001);
    let a = AssetClass(1);
    core.set_minimums_and_maximums(a, policy(10, 10));
    let who = account_loc(1);
    let idx = core.initialize_delegator(a).unwrap();
    assert_eq!(idx, 0);
    core.add_delegator(idx, &who, a).unwrap();
    core.set_ledger(a, &who, simple_ledger(&who, 500));
    assert!(core.has_ledger(a, &who));
    assert_eq!(core.delegator_index(a, &who), Some(0));
    assert!(core.delegator_location(a, 0).is_some());
    core.remove_delegator(&who, a).unwrap();
    assert_eq!(core.delegator_index(a, &who), None);
    assert!(core.delegator_location(a, 0).is_none());
    assert!(!core.has_ledger(a, &who));
}

#[test]
fn initialize_delegator_indices_increase_across_removals() {
    let mut core = StakingCore::new(100, 2001);
    let a = AssetClass(1);
    core.set_minimums_and_maximums(a, policy(10, 10));
    let d0 = account_loc(1);
    let d1 = account_loc(2);
    let i0 = core.initialize_delegator(a).unwrap();
    core.add_delegator(i0, &d0, a).unwrap();
    core.remove_delegator(&d0, a).unwrap();
    let i1 = core.initialize_delegator(a).unwrap();
    core.add_delegator(i1, &d1, a).unwrap();
    let i2 = core.initialize_delegator(a).unwrap();
    assert_eq!(i0, 0);
    assert_eq!(i1, 1);
    assert_eq!(i2, 2);
    // The freed index 0 is never handed out again.
    assert!(core.delegator_location(a, 0).is_none());
}

#[test]
fn initialize_delegator_fails_with_overflow_at_the_top() {
    let mut core = StakingCore::new(100, 2001);
    let a = AssetClass(1);
    for _ in 0..65535u32 {
        assert!(core.initialize_delegator(a).is_ok());
    }
    assert_eq!(core.initialize_delegator(a), Err(Error::Overflow));
}

#[test]
fn add_delegator_rejects_duplicates_and_missing_policy() {
    let mut core = StakingCore::new(100, 2001);
    let a = AssetClass(1);
    let who = account_loc(1);
    // No policy record yet.
    assert_eq!(core.add_delegator(0, &who, a), Err(Error::NotExist));
    core.set_minimums_and_maximums(a, policy(10, 10));
    core.initialize_delegator(a).unwrap();
    core.add_delegator(0, &who, a).unwrap();
    // Same index again.
    assert_eq!(core.add_delegator(0, &account_loc(2), a), Err(Error::AlreadyExist));
    // Same location under a fresh index.
    assert_eq!(core.add_delegator(1, &who, a), Err(Error::AlreadyExist));
}

#[test]
fn add_delegator_respects_the_counter_maximum() {
    let mut core = StakingCore::new(100, 2001);
    let a = AssetClass(1);
    core.set_minimums_and_maximums(a, policy(2, 10));
    let i0 = core.initialize_delegator(a).unwrap();
    core.add_delegator(i0, &account_loc(1), a).unwrap();
    let i1 = core.initialize_delegator(a).unwrap();
    assert_eq!(core.add_delegator(i1, &account_loc(2), a), Err(Error::GreaterThanMaximum));
}

#[test]
fn remove_delegator_requires_registration() {
    let mut core = StakingCore::new(100, 2001);
    let a = AssetClass(1);
    assert_eq!(core.remove_delegator(&account_loc(1), a), Err(Error::DelegatorNotExist));
}

#[test]
fn validator_set_fills_to_maximum_and_recovers_capacity() {
    let mut core = StakingCore::new(100, 2001);
    let a = AssetClass(1);
    core.set_minimums_and_maximums(a, policy(10, 2));
    let v1 = account_loc(11);
    let v2 = account_loc(12);
    let v3 = account_loc(13);
    core.add_validator(&v1, a).unwrap();
    core.add_validator(&v2, a).unwrap();
    assert_eq!(core.add_validator(&v3, a), Err(Error::GreaterThanMaximum));
    core.remove_validator(&v1, a).unwrap();
    core.add_validator(&v3, a).unwrap();
    let vs = core.validators(a).unwrap();
    assert_eq!(vs.len(), 2);
    assert_eq!(vs[0], v2);
    assert_eq!(vs[1], v3);
}

#[test]
fn add_validator_rejects_duplicates_and_hard_cap() {
    let mut core = StakingCore::new(1, 2001);
    let a = AssetClass(1);
    core.set_minimums_and_maximums(a, policy(10, 5));
    let v1 = account_loc(11);
    core.add_validator(&v1, a).unwrap();
    // The policy cap of five is not yet reached, but the hard length cap
    // of one is.
    assert_eq!(core.add_validator(&account_loc(12), a), Err(Error::ExceedMaxLengthLimit));
    let mut roomy = StakingCore::new(100, 2001);
    roomy.set_minimums_and_maximums(a, policy(10, 5));
    roomy.add_validator(&v1, a).unwrap();
    assert_eq!(roomy.add_validator(&v1, a), Err(Error::AlreadyExist));
    assert_eq!(roomy.add_validator(&v1, AssetClass(9)), Err(Error::NotExist));
}

#[test]
fn remove_validator_requires_a_set_and_membership() {
    let mut core = StakingCore::new(100, 2001);
    let a = AssetClass(1);
    core.set_minimums_and_maximums(a, policy(10, 5));
    let v1 = account_loc(11);
    assert_eq!(core.remove_validator(&v1, a), Err(Error::ValidatorSetNotExist));
    core.add_validator(&v1, a).unwrap();
    assert_eq!(core.remove_validator(&account_loc(12), a), Err(Error::ValidatorNotExist));
    core.remove_validator(&v1, a).unwrap();
    // The set stays, empty, once created.
    assert_eq!(core.validators(a).unwrap().len(), 0);
}

#[test]
fn ledger_store_creates_reads_updates_and_deletes() {
    let mut core = StakingCore::new(100, 2001);
    let a = AssetClass(1);
    let who = account_loc(1);
    assert!(!core.has_ledger(a, &who));
    assert!(core.ledger(a, &who).is_none());
    core.set_ledger(a, &who, simple_ledger(&who, 500));
    assert!(core.has_ledger(a, &who));
    assert_eq!(core.ledger(a, &who).unwrap().total, 500);
    core.set_ledger(a, &who, simple_ledger(&who, 900));
    assert_eq!(core.ledger(a, &who).unwrap().total, 900);
    core.remove_ledger(a, &who);
    assert!(!core.has_ledger(a, &who));
    // Removing an absent record is a quiet no-op.
    core.remove_ledger(a, &who);
    assert!(!core.has_ledger(a, &who));
}

#[test]
fn classes_are_isolated_from_each_other() {
    let mut core = StakingCore::new(100, 2001);
    let a = AssetClass(1);
    let b = AssetClass(2);
    core.set_minimums_and_maximums(a, policy(10, 10));
    core.set_minimums_and_maximums(b, policy(10, 10));
    let who = account_loc(1);
    let ia = core.initialize_delegator(a).unwrap();
    core.add_delegator(ia, &who, a).unwrap();
    // The same location and index are free in the other class.
    let ib = core.initialize_delegator(b).unwrap();
    assert_eq!(ib, 0);
    core.add_delegator(ib, &who, b).unwrap();
    core.remove_delegator(&who, a).unwrap();
    assert_eq!(core.delegator_index(b, &who), Some(0));
}

#[test]
fn location_equality_is_structural() {
    let l1 = account_loc(1);
    let l2 = account_loc(1);
    let l3 = account_loc(2);
    assert!(l1.matches(&l2));
    assert!(!l1.matches(&l3));
    let p1 = Location { parents: 0, interior: vec![Junction::Parachain(2001)] };
    let p2 = Location { parents: 1, interior: vec![Junction::Parachain(2001)] };
    assert!(!p1.matches(&p2));
    assert!(p1.matches(&p1.duplicate()));
}
