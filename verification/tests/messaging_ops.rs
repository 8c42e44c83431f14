use staking_core::capabilities::{AccountId, Weight, XcmOperationType};
use staking_core::errors::Error;
use staking_core::location::{Junction, Location};
use staking_core::messenger::{
    AssetFilter,
    InnerInstruction,
    Instruction,
    Outcome,
    WeightLimit,
    XcmAsset,
    XcmMessage,
};
use staking_core::mocks::{MockBridge, MockFeePolicy, MockMapper, MockPool, MockTransport};
use staking_core::state::{AssetClass, MinimumsAndMaximums, StakingCore};
use staking_core::time::TimeUnit;

fn remote_account(byte: u8) -> Location {
    Location { parents: 1, interior: vec![Junction::AccountId32 { id: [byte; 32] }] }
}

fn messaging_pool(a: AssetClass) -> MockPool {
    MockPool {
        asset: a,
        issuance: 1000,
        pool: 500,
        epoch: Some(TimeUnit::Era(5)),
        entrance: AccountId([1; 32]),
        exit: AccountId([7; 32]),
        holder: AccountId([9; 32]),
        holder_balance: 0,
        accept_increase: true,
        accept_deposit: true,
    }
}

fn transfer_weight() -> Weight {
    Weight { ref_time: 1_000_000, proof_size: 64 }
}

fn fee_policy(a: AssetClass) -> MockFeePolicy {
    MockFeePolicy { asset: a, entry: Some((transfer_weight(), 4_000_000_000)) }
}

#[test]
fn transfer_to_remote_dispatches_the_fixed_message() {
    let core = StakingCore::new(100, 2001);
    let a = AssetClass(1);
    let policy = fee_policy(a);
    let mapper = MockMapper {};
    let mut transport = MockTransport { outcome: Outcome::Complete, log: vec![] };
    let from = Location { parents: 0, interior: vec![] };
    let to = remote_account(9);
    let dest = Location { parents: 1, interior: vec![] };
    let moved = XcmAsset { location: Location { parents: 1, interior: vec![] }, amount: 77 };
    let r = core.transfer_to_remote(
        &policy,
        &mapper,
        &mut transport,
        &from,
        &to,
        77,
        a,
        vec![moved.clone()],
        &dest,
    );
    assert_eq!(r, Ok(()));
    assert_eq!(transport.log.len(), 1);
    let expected = XcmMessage {
        instructions: vec![
            Instruction::WithdrawAsset(vec![moved]),
            Instruction::InitiateReserveWithdraw {
                assets: AssetFilter::All,
                reserve: dest,
                xcm: vec![
                    InnerInstruction::BuyExecution {
                        fees: XcmAsset {
                            location: Location { parents: 0, interior: vec![] },
                            amount: 4_000_000_000,
                        },
                        weight_limit: WeightLimit::Limited(transfer_weight()),
                    },
                    InnerInstruction::DepositAsset {
                        assets: AssetFilter::AllCounted(1),
                        beneficiary: Location {
                            parents: 0,
                            interior: vec![Junction::AccountId32 { id: [9; 32] }],
                        },
                    },
                ],
            },
        ],
    };
    assert_eq!(transport.log[0], expected);
}

#[test]
fn transfer_to_remote_rejects_a_foreign_source_without_dispatch() {
    let core = StakingCore::new(100, 2001);
    let a = AssetClass(1);
    let policy = fee_policy(a);
    let mapper = MockMapper {};
    let mut transport = MockTransport { outcome: Outcome::Complete, log: vec![] };
    let from = Location { parents: 1, interior: vec![] };
    let to = remote_account(9);
    let dest = Location { parents: 1, interior: vec![] };
    let r = core.transfer_to_remote(
        &policy,
        &mapper,
        &mut transport,
        &from,
        &to,
        77,
        a,
        vec![],
        &dest,
    );
    assert_eq!(r, Err(Error::InvalidTransferSource));
    assert_eq!(transport.log.len(), 0);
}

#[test]
fn transfer_to_remote_maps_every_failure() {
    let core = StakingCore::new(100, 2001);
    let a = AssetClass(1);
    let policy = fee_policy(a);
    let mapper = MockMapper {};
    let mut transport = MockTransport { outcome: Outcome::Incomplete, log: vec![] };
    let from = Location { parents: 0, interior: vec![] };
    let to = remote_account(9);
    let dest = Location { parents: 1, interior: vec![] };
    let r = core.transfer_to_remote(
        &policy,
        &mapper,
        &mut transport,
        &from,
        &to,
        0,
        a,
        vec![],
        &dest,
    );
    assert_eq!(r, Err(Error::AmountZero));
    let r = core.transfer_to_remote(
        &policy,
        &mapper,
        &mut transport,
        &from,
        &to,
        5,
        AssetClass(9),
        vec![],
        &dest,
    );
    assert_eq!(r, Err(Error::WeightAndFeeNotExists));
    let opaque = Location { parents: 1, interior: vec![Junction::Parachain(2000)] };
    let r = core.transfer_to_remote(
        &policy,
        &mapper,
        &mut transport,
        &from,
        &opaque,
        5,
        a,
        vec![],
        &dest,
    );
    assert_eq!(r, Err(Error::AccountIdConversionFailed));
    assert_eq!(transport.log.len(), 0);
    // An incomplete remote outcome surfaces as an XcmFailure.
    let r = core.transfer_to_remote(
        &policy,
        &mapper,
        &mut transport,
        &from,
        &to,
        5,
        a,
        vec![],
        &dest,
    );
    assert_eq!(r, Err(Error::XcmFailure));
    assert_eq!(transport.log.len(), 1);
}

#[test]
fn transfer_back_resolves_destination_and_beneficiary() {
    let mut core = StakingCore::new(100, 2001);
    let a = AssetClass(1);
    core.set_minimums_and_maximums(a, MinimumsAndMaximums {
        delegators_maximum: 10,
        validators_maximum: 10,
    });
    let from = remote_account(1);
    let idx = core.initialize_delegator(a).unwrap();
    core.add_delegator(idx, &from, a).unwrap();
    let pool = messaging_pool(a);
    let mapper = MockMapper {};
    // The exit account is [7; 32], so the receiver must carry it.
    let to = remote_account(7);
    let (dest, beneficiary) =
        core.get_transfer_back_dest_and_beneficiary(&pool, &mapper, &from, &to, a).unwrap();
    assert!(dest.matches(&Location { parents: 0, interior: vec![Junction::Parachain(2001)] }));
    assert!(beneficiary.matches(
        &Location { parents: 0, interior: vec![Junction::AccountId32 { id: [7; 32] }] }
    ));
}

#[test]
fn transfer_back_checks_sender_and_receiver() {
    let mut core = StakingCore::new(100, 2001);
    let a = AssetClass(1);
    core.set_minimums_and_maximums(a, MinimumsAndMaximums {
        delegators_maximum: 10,
        validators_maximum: 10,
    });
    let from = remote_account(1);
    let pool = messaging_pool(a);
    let mapper = MockMapper {};
    let to = remote_account(7);
    assert_eq!(
        core.get_transfer_back_dest_and_beneficiary(&pool, &mapper, &from, &to, a),
        Err(Error::DelegatorNotExist)
    );
    let idx = core.initialize_delegator(a).unwrap();
    core.add_delegator(idx, &from, a).unwrap();
    // A receiver that maps to some other account than the exit account.
    let wrong = remote_account(8);
    assert_eq!(
        core.get_transfer_back_dest_and_beneficiary(&pool, &mapper, &from, &wrong, a),
        Err(Error::InvalidAccount)
    );
    // A receiver that maps to no local account at all.
    let opaque = Location { parents: 1, interior: vec![Junction::Parachain(2000)] };
    assert_eq!(
        core.get_transfer_back_dest_and_beneficiary(&pool, &mapper, &from, &opaque, a),
        Err(Error::AccountIdConversionFailed)
    );
}

#[test]
fn send_message_relays_the_payload_to_the_anchor() {
    let core = StakingCore::new(100, 2001);
    let a = AssetClass(1);
    let dest_native = AssetClass(2);
    let mut bridge = MockBridge {
        asset: dest_native,
        network: Some((1, 42)),
        give_receiver: true,
        give_payload: true,
        accept_send: true,
        sent: vec![],
    };
    let to = remote_account(5);
    let payer = AccountId([3; 32]);
    let r = core.send_message(
        &mut bridge,
        XcmOperationType::TransferTo,
        &payer,
        &to,
        123,
        a,
        dest_native,
    );
    assert_eq!(r, Ok(()));
    assert_eq!(bridge.sent.len(), 1);
    assert_eq!(bridge.sent[0], vec![5u8; 32]);
}

#[test]
fn send_message_names_the_failing_leg() {
    let core = StakingCore::new(100, 2001);
    let a = AssetClass(1);
    let dest_native = AssetClass(2);
    let to = remote_account(5);
    let payer = AccountId([3; 32]);
    let mut bridge = MockBridge {
        asset: dest_native,
        network: None,
        give_receiver: true,
        give_payload: true,
        accept_send: true,
        sent: vec![],
    };
    let r = core.send_message(
        &mut bridge,
        XcmOperationType::TransferTo,
        &payer,
        &to,
        123,
        a,
        dest_native,
    );
    assert_eq!(r, Err(Error::NetworkIdError));
    bridge.network = Some((1, 42));
    bridge.give_receiver = false;
    let r = core.send_message(
        &mut bridge,
        XcmOperationType::TransferTo,
        &payer,
        &to,
        123,
        a,
        dest_native,
    );
    assert_eq!(r, Err(Error::FailToConvert));
    bridge.give_receiver = true;
    bridge.give_payload = false;
    let r = core.send_message(
        &mut bridge,
        XcmOperationType::TransferTo,
        &payer,
        &to,
        123,
        a,
        dest_native,
    );
    assert_eq!(r, Err(Error::FailToGetPayload));
    bridge.give_payload = true;
    bridge.accept_send = false;
    let r = core.send_message(
        &mut bridge,
        XcmOperationType::TransferTo,
        &payer,
        &to,
        123,
        a,
        dest_native,
    );
    assert_eq!(r, Err(Error::FailToSendCrossOutMessage));
    assert_eq!(bridge.sent.len(), 0);
}
