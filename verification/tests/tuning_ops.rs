use staking_core::arith::mul_div;
use staking_core::capabilities::AccountId;
use staking_core::errors::Error;
use staking_core::ledger::{OneToManyDelegatorStatus, OneToManyLedger};
use staking_core::location::{Junction, Location};
use staking_core::mocks::{MockMapper, MockPool};
use staking_core::state::{AssetClass, MinimumsAndMaximums, StakingCore};
use staking_core::time::TimeUnit;

fn tuning_loc(byte: u8) -> Location {
    Location { parents: 1, interior: vec![Junction::AccountId32 { id: [byte; 32] }] }
}

fn tuning_pool(a: AssetClass) -> MockPool {
    MockPool {
        asset: a,
        issuance: 1000,
        pool: 500,
        epoch: Some(TimeUnit::Era(5)),
        entrance: AccountId([1; 32]),
        exit: AccountId([7; 32]),
        holder: AccountId([9; 32]),
        holder_balance: 0,
        accept_increase: true,
        accept_deposit: true,
    }
}

fn bonded_ledger(who: &Location) -> OneToManyLedger {
    OneToManyLedger {
        account: who.duplicate(),
        delegations: vec![(tuning_loc(99), 400)],
        total: 500,
        less_total: 0,
        requests: vec![],
        status: OneToManyDelegatorStatus::Active,
    }
}

#[test]
fn hosting_fee_is_the_exact_ratio() {
    let core = StakingCore::new(100, 2001);
    let a = AssetClass(1);
    let pool = tuning_pool(a);
    // 10 * 1000 / 500 == 20, with no rounding loss.
    assert_eq!(core.calculate_hosting_fee(&pool, 10, a, a), Ok(20));
}

#[test]
fn hosting_fee_saturates_to_zero_on_empty_pool() {
    let core = StakingCore::new(100, 2001);
    let a = AssetClass(1);
    let mut pool = tuning_pool(a);
    pool.pool = 0;
    assert_eq!(core.calculate_hosting_fee(&pool, 10, a, a), Ok(0));
}

#[test]
fn hosting_fee_rejects_a_zero_amount() {
    let core = StakingCore::new(100, 2001);
    let a = AssetClass(1);
    let pool = tuning_pool(a);
    assert_eq!(core.calculate_hosting_fee(&pool, 0, a, a), Err(Error::AmountZero));
}

#[test]
fn hosting_fee_saturates_to_zero_on_quotient_overflow() {
    let core = StakingCore::new(100, 2001);
    let a = AssetClass(1);
    let mut pool = tuning_pool(a);
    pool.issuance = u128::MAX;
    pool.pool = 1;
    assert_eq!(core.calculate_hosting_fee(&pool, u128::MAX, a, a), Ok(0));
}

#[test]
fn wide_mul_div_matches_exact_arithmetic() {
    assert_eq!(mul_div(10, 1000, 500), 20);
    assert_eq!(mul_div(7, 3, 2), 10);
    assert_eq!(mul_div(u128::MAX, 2, 2), u128::MAX);
    // The product needs the high limb, yet the quotient fits.
    assert_eq!(mul_div(1u128 << 127, 4, 8), 1u128 << 126);
    assert_eq!(mul_div(5, 5, 0), 0);
    assert_eq!(mul_div(u128::MAX, u128::MAX, 1), 0);
}

#[test]
fn charge_hosting_fee_credits_the_beneficiary() {
    let core = StakingCore::new(100, 2001);
    let a = AssetClass(1);
    let mut pool = tuning_pool(a);
    let mapper = MockMapper {};
    let to = tuning_loc(9);
    assert_eq!(core.charge_hosting_fee(&mut pool, &mapper, 20, &to, a), Ok(()));
    assert_eq!(pool.holder_balance, 20);
}

#[test]
fn charge_hosting_fee_rejects_zero_and_unmappable() {
    let core = StakingCore::new(100, 2001);
    let a = AssetClass(1);
    let mut pool = tuning_pool(a);
    let mapper = MockMapper {};
    let to = tuning_loc(9);
    assert_eq!(core.charge_hosting_fee(&mut pool, &mapper, 0, &to, a), Err(Error::AmountZero));
    let opaque = Location { parents: 1, interior: vec![Junction::Parachain(2000)] };
    assert_eq!(
        core.charge_hosting_fee(&mut pool, &mapper, 20, &opaque, a),
        Err(Error::AccountIdConversionFailed)
    );
    pool.accept_deposit = false;
    assert_eq!(
        core.charge_hosting_fee(&mut pool, &mapper, 20, &to, a),
        Err(Error::IncreaseTokenPoolError)
    );
    assert_eq!(pool.holder_balance, 0);
}

#[test]
fn tuning_limit_admits_up_to_the_limit_per_epoch() {
    let mut core = StakingCore::new(100, 2001);
    let a = AssetClass(1);
    let mut pool = tuning_pool(a);
    core.set_tune_exchange_rate_limit(a, 2, 0);
    let c1 = core.check_tuning_limit(&pool, a).unwrap();
    assert_eq!(c1, 1);
    core.set_tuning_record(a, TimeUnit::Era(5), c1);
    let c2 = core.check_tuning_limit(&pool, a).unwrap();
    assert_eq!(c2, 2);
    core.set_tuning_record(a, TimeUnit::Era(5), c2);
    assert_eq!(core.check_tuning_limit(&pool, a), Err(Error::GreaterThanMaximum));
    // A new epoch restarts the count.
    pool.epoch = Some(TimeUnit::Era(6));
    assert_eq!(core.check_tuning_limit(&pool, a), Ok(1));
}

#[test]
fn tuning_limit_needs_an_epoch_and_a_configured_limit() {
    let mut core = StakingCore::new(100, 2001);
    let a = AssetClass(1);
    let mut pool = tuning_pool(a);
    core.set_tune_exchange_rate_limit(a, 2, 0);
    pool.epoch = None;
    assert_eq!(core.check_tuning_limit(&pool, a), Err(Error::TimeUnitNotExist));
    let mut bare = StakingCore::new(100, 2001);
    let pool2 = tuning_pool(a);
    assert_eq!(bare.check_tuning_limit(&pool2, a), Err(Error::TuneExchangeRateLimitNotSet));
}

#[test]
fn tune_succeeds_once_then_refuses_within_the_epoch() {
    let mut core = StakingCore::new(100, 2001);
    let a = AssetClass(1);
    let mut pool = tuning_pool(a);
    core.set_minimums_and_maximums(a, MinimumsAndMaximums {
        delegators_maximum: 10,
        validators_maximum: 10,
    });
    let who = tuning_loc(1);
    let idx = core.initialize_delegator(a).unwrap();
    core.add_delegator(idx, &who, a).unwrap();
    core.set_ledger(a, &who, bonded_ledger(&who));
    assert_eq!(core.tune_vtoken_exchange_rate(&mut pool, &who, 40, a), Ok(()));
    assert_eq!(pool.pool, 540);
    // Within the same epoch the delegator may not tune again, and the
    // pool stays untouched.
    assert_eq!(
        core.tune_vtoken_exchange_rate(&mut pool, &who, 40, a),
        Err(Error::DelegatorAlreadyTuned)
    );
    assert_eq!(pool.pool, 540);
    // The next epoch admits the delegator again.
    pool.epoch = Some(TimeUnit::Era(6));
    assert_eq!(core.tune_vtoken_exchange_rate(&mut pool, &who, 10, a), Ok(()));
    assert_eq!(pool.pool, 550);
}

#[test]
fn tune_checks_every_precondition_in_order() {
    let mut core = StakingCore::new(100, 2001);
    let a = AssetClass(1);
    let mut pool = tuning_pool(a);
    core.set_minimums_and_maximums(a, MinimumsAndMaximums {
        delegators_maximum: 10,
        validators_maximum: 10,
    });
    let who = tuning_loc(1);
    assert_eq!(
        core.tune_vtoken_exchange_rate(&mut pool, &who, 40, a),
        Err(Error::DelegatorNotExist)
    );
    let idx = core.initialize_delegator(a).unwrap();
    core.add_delegator(idx, &who, a).unwrap();
    pool.epoch = None;
    assert_eq!(
        core.tune_vtoken_exchange_rate(&mut pool, &who, 40, a),
        Err(Error::TimeUnitNotExist)
    );
    pool.epoch = Some(TimeUnit::Era(5));
    assert_eq!(core.tune_vtoken_exchange_rate(&mut pool, &who, 0, a), Err(Error::AmountZero));
    assert_eq!(
        core.tune_vtoken_exchange_rate(&mut pool, &who, 40, a),
        Err(Error::DelegatorNotBonded)
    );
    core.set_ledger(a, &who, bonded_ledger(&who));
    pool.accept_increase = false;
    assert_eq!(
        core.tune_vtoken_exchange_rate(&mut pool, &who, 40, a),
        Err(Error::IncreaseTokenPoolError)
    );
    assert_eq!(pool.pool, 500);
    // A refused pool update leaves the delegator free to tune again.
    pool.accept_increase = true;
    assert_eq!(core.tune_vtoken_exchange_rate(&mut pool, &who, 40, a), Ok(()));
}

#[test]
fn time_units_step_and_add_saturating() {
    assert_eq!(TimeUnit::Era(1).add_one(), TimeUnit::Era(2));
    assert_eq!(TimeUnit::Era(u32::MAX).add_one(), TimeUnit::Era(u32::MAX));
    assert_eq!(TimeUnit::Round(3).add_one(), TimeUnit::Round(4));
    assert_eq!(TimeUnit::Era(1).add(TimeUnit::Era(2)), Some(TimeUnit::Era(3)));
    assert_eq!(TimeUnit::Era(u32::MAX).add(TimeUnit::Era(1)), Some(TimeUnit::Era(u32::MAX)));
    assert_eq!(TimeUnit::Era(1).add(TimeUnit::Round(2)), None);
    assert_eq!(TimeUnit::default(), TimeUnit::Era(0));
    assert_ne!(TimeUnit::Era(1), TimeUnit::Round(1));
}
