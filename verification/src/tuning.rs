use vstd::prelude::*;

use crate::arith::{mul_div, spec_mul_div};
use crate::capabilities::{AddressMapping, PoolAccounting};
use crate::errors::Error;
use crate::location::{LocV, Location};
use crate::state::{
    class_v_wf,
    has_loc,
    kv_get,
    kv_has,
    lemma_class_restored,
    lemma_class_update,
    position_by_key,
    position_by_loc,
    tpairs,
    AssetClass,
    ClassV,
    StakingCore,
};
use crate::time::TimeUnit;

verus! {

/// Admission control for one more exchange-rate tuning: given the stored
/// record, the configured limit, and the ongoing epoch, either the next
/// count within the epoch or the reason the tuning is refused. The new
/// count is returned for the caller to persist, so the check composes with
/// other writes in one atomic unit; only the lazily created first record
/// is written here.
pub open spec fn check_tuning_limit_spec(cv: ClassV, epoch: Option<TimeUnit>) -> Result<
    (u32, ClassV),
    Error,
> {
    match epoch {
        None => Err(Error::TimeUnitNotExist),
        Some(current) => {
            let rec = match cv.tune_record {
                Some(r) => r,
                None => (current, 0u32),
            };
            match cv.tune_limit {
                None => Err(Error::TuneExchangeRateLimitNotSet),
                Some((limit, _)) => {
                    if rec.0 == current {
                        if rec.1 >= limit {
                            Err(Error::GreaterThanMaximum)
                        } else {
                            Ok(((rec.1 + 1) as u32, ClassV { tune_record: Some(rec), ..cv }))
                        }
                    } else {
                        Ok((1u32, ClassV { tune_record: Some(rec), ..cv }))
                    }
                },
            }
        },
    }
}

/// The reason a tuning attempt is refused before the pool is touched, if
/// any: the delegator must be registered, an epoch must be ongoing, the
/// delegator must not have tuned in it yet, the amount must be nonzero,
/// and the delegator must be bonded.
pub open spec fn tune_precheck(
    cv: ClassV,
    who: LocV,
    token_amount: u128,
    epoch: Option<TimeUnit>,
) -> Option<Error> {
    if !has_loc(cv.delegators, who) {
        Some(Error::DelegatorNotExist)
    } else {
        match epoch {
            None => Some(Error::TimeUnitNotExist),
            Some(current) => {
                if kv_has(cv.delegator_tunes, who) && kv_get(cv.delegator_tunes, who) == current {
                    Some(Error::DelegatorAlreadyTuned)
                } else if token_amount == 0 {
                    Some(Error::AmountZero)
                } else if !kv_has(cv.ledgers, who) {
                    Some(Error::DelegatorNotBonded)
                } else {
                    None
                }
            },
        }
    }
}

/// The per-delegator tune marks after a successful tuning: the delegator's
/// mark is set to the ongoing epoch.
pub open spec fn tunes_upsert(s: Seq<(LocV, TimeUnit)>, who: LocV, epoch: TimeUnit) -> Seq<
    (LocV, TimeUnit),
> {
    if kv_has(s, who) {
        let j = choose|j: int| 0 <= j < s.len() && s[j].0 == who;
        s.update(j, (who, epoch))
    } else {
        s.push((who, epoch))
    }
}

/// Law: within one epoch a delegator tunes at most once. After a
/// successful tuning in some epoch, a second attempt by the same delegator
/// while that epoch is still ongoing is refused with
/// `DelegatorAlreadyTuned` before the pool is touched, whatever the
/// amount.
pub proof fn lemma_tune_once_per_epoch(
    cv: ClassV,
    who: LocV,
    current: TimeUnit,
    amount2: u128,
    max_length_limit: u64,
)
    requires
        class_v_wf(cv, max_length_limit),
        has_loc(cv.delegators, who),
    ensures
        kv_has(tunes_upsert(cv.delegator_tunes, who, current), who),
        kv_get(tunes_upsert(cv.delegator_tunes, who, current), who) == current,
        tune_precheck(
            ClassV { delegator_tunes: tunes_upsert(cv.delegator_tunes, who, current), ..cv },
            who,
            amount2,
            Some(current),
        ) == Some(Error::DelegatorAlreadyTuned),
{
    let s = cv.delegator_tunes;
    let t = tunes_upsert(s, who, current);
    if kv_has(s, who) {
        let j = choose|j: int| 0 <= j < s.len() && s[j].0 == who;
        assert(0 <= j < s.len() && s[j].0 == who);
        assert(t == s.update(j, (who, current)));
        assert(t[j] == (who, current));
        assert(kv_has(t, who));
        let k = choose|k: int| 0 <= k < t.len() && t[k].0 == who;
        assert(0 <= k < t.len() && t[k].0 == who);
        assert(k == j) by {
            if k != j {
                assert(t[k] == s[k]);
            }
        }
        assert(kv_get(t, who) == current);
    } else {
        let n = s.len() as int;
        assert(t == s.push((who, current)));
        assert(t[n] == (who, current));
        assert(kv_has(t, who));
        let k = choose|k: int| 0 <= k < t.len() && t[k].0 == who;
        assert(0 <= k < t.len() && t[k].0 == who);
        assert(k == n) by {
            if k < n {
                assert(t[k] == s[k]);
                assert(kv_has(s, who));
            }
        }
        assert(kv_get(t, who) == current);
    }
}

impl StakingCore {
    /// The synthetic-token charge on realized rewards: the reward amount
    /// scaled by the ratio of synthetic-token issuance to the stake pool,
    /// with a double-width intermediate product; an empty pool or an
    /// overflowing quotient saturates the charge to zero.
    pub fn calculate_hosting_fee<P: PoolAccounting>(
        &self,
        pool: &P,
        amount: u128,
        vtoken: AssetClass,
        currency_id: AssetClass,
    ) -> (r: Result<u128, Error>)
        ensures
            amount == 0 ==> r == Err::<u128, Error>(Error::AmountZero),
            amount > 0 ==> r == Ok::<u128, Error>(
                spec_mul_div(amount, pool.issuance_spec(vtoken), pool.pool_spec(currency_id)),
            ),
    {
        if amount == 0 {
            return Err(Error::AmountZero);
        }
        let vtoken_issuance = pool.total_issuance(vtoken);
        let token_pool = pool.get_token_pool(currency_id);
        Ok(mul_div(amount, vtoken_issuance, token_pool))
    }

    /// Credit a computed hosting fee to the local beneficiary that the
    /// given remote address maps to.
    pub fn charge_hosting_fee<P: PoolAccounting, M: AddressMapping>(
        &self,
        pool: &mut P,
        mapper: &M,
        charge_amount: u128,
        to: &Location,
        deposit_currency: AssetClass,
    ) -> (r: Result<(), Error>)
        ensures
            charge_amount == 0 ==> r == Err::<(), Error>(Error::AmountZero)
                && *final(pool) == *old(pool),
            charge_amount > 0 && mapper.remote_to_local_spec(to@) is None ==> r == Err::<(), Error>(
                Error::AccountIdConversionFailed,
            ) && *final(pool) == *old(pool),
            charge_amount > 0 ==> match mapper.remote_to_local_spec(to@) {
                Some(beneficiary) => match r {
                    Ok(()) => final(pool).balance_spec(deposit_currency, beneficiary)
                        == old(pool).balance_spec(deposit_currency, beneficiary) + charge_amount,
                    Err(e) => e == Error::IncreaseTokenPoolError && final(pool).balance_spec(
                        deposit_currency,
                        beneficiary,
                    ) == old(pool).balance_spec(deposit_currency, beneficiary),
                },
                None => true,
            },
    {
        if charge_amount == 0 {
            return Err(Error::AmountZero);
        }
        let beneficiary = match mapper.multilocation_to_account(to) {
            Some(b) => b,
            None => {
                return Err(Error::AccountIdConversionFailed);
            },
        };
        match pool.deposit(deposit_currency, &beneficiary, charge_amount) {
            Ok(()) => Ok(()),
            Err(()) => Err(Error::IncreaseTokenPoolError),
        }
    }

    /// Admission-check one more exchange-rate tuning for the class, lazily
    /// creating the first epoch record; the returned count is the caller's
    /// to persist.
    pub fn check_tuning_limit<P: PoolAccounting>(&mut self, pool: &P, a: AssetClass) -> (r: Result<
        u32,
        Error,
    >)
        requires
            old(self).wf(),
        ensures
            final(self).wf(),
            old(self).only_class_changed(*final(self), a),
            match check_tuning_limit_spec(old(self).class_view(a), pool.epoch_spec(a)) {
                Ok((n, cv)) => r == Ok::<u32, Error>(n) && final(self).class_view(a) == cv,
                Err(e) => r == Err::<u32, Error>(e) && old(self).same_view(*final(self)),
            },
    {
        let current = match pool.get_ongoing_time_unit(a) {
            Some(t) => t,
            None => {
                proof {
                    assert(old(self).same_view(*self));
                }
                return Err(Error::TimeUnitNotExist);
            },
        };
        let i = self.ensure_class(a);
        let ghost pre = *self;
        let mut rec = self.classes.remove(i);
        let ghost cv = rec@;
        proof {
            assert(rec == pre.classes@[i as int]);
            assert(class_v_wf(cv, pre.max_length_limit));
        }
        let stored = match rec.tune_record {
            Some(r) => r,
            None => (current, 0u32),
        };
        let limit = match rec.tune_limit {
            Some((l, _)) => l,
            None => {
                self.classes.insert(i, rec);
                proof {
                    lemma_class_restored(pre, *self, i as int);
                }
                return Err(Error::TuneExchangeRateLimitNotSet);
            },
        };
        let mut new_count: u32 = 1;
        if stored.0 == current {
            if stored.1 >= limit {
                self.classes.insert(i, rec);
                proof {
                    lemma_class_restored(pre, *self, i as int);
                }
                return Err(Error::GreaterThanMaximum);
            }
            new_count = stored.1 + 1;
        }
        rec.tune_record = Some(stored);
        self.classes.insert(i, rec);
        proof {
            assert(self.classes@[i as int]@ =~= ClassV { tune_record: Some(stored), ..cv });
            lemma_class_update(pre, *self, i as int);
        }
        Ok(new_count)
    }

    /// Persist a tuning count for the epoch; callers use it to commit the
    /// count returned by the admission check together with their other
    /// writes.
    pub fn set_tuning_record(&mut self, a: AssetClass, epoch: TimeUnit, count: u32)
        requires
            old(self).wf(),
        ensures
            final(self).wf(),
            old(self).only_class_changed(*final(self), a),
            final(self).class_view(a) == (ClassV {
                tune_record: Some((epoch, count)),
                ..old(self).class_view(a)
            }),
    {
        let i = self.ensure_class(a);
        let ghost pre = *self;
        let mut rec = self.classes.remove(i);
        let ghost cv = rec@;
        rec.tune_record = Some((epoch, count));
        self.classes.insert(i, rec);
        proof {
            assert(self.classes@[i as int]@ =~= ClassV {
                tune_record: Some((epoch, count)),
                ..cv
            });
            lemma_class_update(pre, *self, i as int);
        }
    }

    /// Configure how many tunings an epoch admits, and the largest
    /// adjustment in parts per million.
    pub fn set_tune_exchange_rate_limit(&mut self, a: AssetClass, limit: u32, max_ppm: u32)
        requires
            old(self).wf(),
        ensures
            final(self).wf(),
            old(self).only_class_changed(*final(self), a),
            final(self).class_view(a) == (ClassV {
                tune_limit: Some((limit, max_ppm)),
                ..old(self).class_view(a)
            }),
    {
        let i = self.ensure_class(a);
        let ghost pre = *self;
        let mut rec = self.classes.remove(i);
        let ghost cv = rec@;
        rec.tune_limit = Some((limit, max_ppm));
        self.classes.insert(i, rec);
        proof {
            assert(self.classes@[i as int]@ =~= ClassV { tune_limit: Some((limit, max_ppm)), ..cv });
            lemma_class_update(pre, *self, i as int);
        }
    }

    /// Reflect newly realized remote rewards in the external stake pool,
    /// at most once per delegator per epoch, and mark the delegator as
    /// tuned for the ongoing epoch.
    pub fn tune_vtoken_exchange_rate<P: PoolAccounting>(
        &mut self,
        pool: &mut P,
        who: &Location,
        token_amount: u128,
        a: AssetClass,
    ) -> (r: Result<(), Error>)
        requires
            old(self).wf(),
        ensures
            final(self).wf(),
            old(self).only_class_changed(*final(self), a),
            match tune_precheck(old(self).class_view(a), who@, token_amount, old(pool).epoch_spec(a)) {
                Some(e) => *final(pool) == *old(pool) && r == Err::<(), Error>(e)
                    && old(self).same_view(*final(self)),
                None => match r {
                    Ok(()) => {
                        &&& (match old(pool).epoch_spec(a) {
                            Some(current) => final(self).class_view(a) == (ClassV {
                                delegator_tunes: tunes_upsert(
                                    old(self).class_view(a).delegator_tunes,
                                    who@,
                                    current,
                                ),
                                ..old(self).class_view(a)
                            }),
                            None => false,
                        })
                        &&& final(pool).pool_spec(a) == old(pool).pool_spec(a) + token_amount
                    },
                    Err(e) => e == Error::IncreaseTokenPoolError && old(self).same_view(
                        *final(self),
                    ) && final(pool).pool_spec(a) == old(pool).pool_spec(a),
                },
            },
    {
        let i = self.ensure_class(a);
        let ghost pre = *self;
        let mut rec = self.classes.remove(i);
        let ghost cv = rec@;
        proof {
            assert(rec == pre.classes@[i as int]);
            assert(class_v_wf(cv, pre.max_length_limit));
        }
        let registered = match position_by_loc(&rec.delegators, who) {
            Some(p) => {
                proof {
                    assert(cv.delegators[p as int].1 == who@);
                }
                true
            },
            None => false,
        };
        if !registered {
            self.classes.insert(i, rec);
            proof {
                lemma_class_restored(pre, *self, i as int);
            }
            return Err(Error::DelegatorNotExist);
        }
        let current = match pool.get_ongoing_time_unit(a) {
            Some(t) => t,
            None => {
                self.classes.insert(i, rec);
                proof {
                    lemma_class_restored(pre, *self, i as int);
                }
                return Err(Error::TimeUnitNotExist);
            },
        };
        let tuned_pos = position_by_key(&rec.delegator_tunes, who);
        match tuned_pos {
            Some(tp) => {
                proof {
                    assert(cv.delegator_tunes[tp as int].0 == who@);
                    assert(kv_has(cv.delegator_tunes, who@));
                    let k = choose|k: int|
                        0 <= k < cv.delegator_tunes.len() && cv.delegator_tunes[k].0 == who@;
                    assert(0 <= k < cv.delegator_tunes.len() && cv.delegator_tunes[k].0 == who@);
                    assert(k == tp as int);
                    assert(kv_get(cv.delegator_tunes, who@) == cv.delegator_tunes[tp as int].1);
                    assert(cv.delegator_tunes[tp as int].1 == rec.delegator_tunes@[tp as int].1);
                }
                let last = rec.delegator_tunes[tp].1;
                if last == current {
                    self.classes.insert(i, rec);
                    proof {
                        lemma_class_restored(pre, *self, i as int);
                    }
                    return Err(Error::DelegatorAlreadyTuned);
                }
            },
            None => {
                proof {
                    assert forall|j: int|
                        0 <= j < cv.delegator_tunes.len() implies cv.delegator_tunes[j].0
                        != who@ by {
                        assert(cv.delegator_tunes[j].0 == rec.delegator_tunes@[j].0@);
                    }
                    assert(!kv_has(cv.delegator_tunes, who@));
                }
            },
        }
        if token_amount == 0 {
            self.classes.insert(i, rec);
            proof {
                lemma_class_restored(pre, *self, i as int);
            }
            return Err(Error::AmountZero);
        }
        let bonded = match position_by_key(&rec.ledgers, who) {
            Some(lp) => {
                proof {
                    assert(cv.ledgers[lp as int].0 == who@);
                }
                true
            },
            None => {
                proof {
                    assert forall|j: int| 0 <= j < cv.ledgers.len() implies cv.ledgers[j].0
                        != who@ by {
                        assert(cv.ledgers[j].0 == rec.ledgers@[j].0@);
                    }
                }
                false
            },
        };
        if !bonded {
            self.classes.insert(i, rec);
            proof {
                lemma_class_restored(pre, *self, i as int);
            }
            return Err(Error::DelegatorNotBonded);
        }
        match pool.increase_token_pool(a, token_amount) {
            Ok(()) => {},
            Err(()) => {
                self.classes.insert(i, rec);
                proof {
                    lemma_class_restored(pre, *self, i as int);
                }
                return Err(Error::IncreaseTokenPoolError);
            },
        }
        match tuned_pos {
            Some(tp) => {
                let _ = rec.delegator_tunes.remove(tp);
                rec.delegator_tunes.insert(tp, (who.duplicate(), current));
                proof {
                    let k = choose|k: int|
                        0 <= k < cv.delegator_tunes.len() && cv.delegator_tunes[k].0 == who@;
                    assert(k == tp as int);
                    assert(tpairs(rec.delegator_tunes@) =~= tunes_upsert(
                        cv.delegator_tunes,
                        who@,
                        current,
                    ));
                }
            },
            None => {
                rec.delegator_tunes.push((who.duplicate(), current));
                proof {
                    assert(tpairs(rec.delegator_tunes@) =~= tunes_upsert(
                        cv.delegator_tunes,
                        who@,
                        current,
                    ));
                }
            },
        }
        self.classes.insert(i, rec);
        proof {
            assert(self.classes@[i as int]@ =~= ClassV {
                delegator_tunes: tunes_upsert(cv.delegator_tunes, who@, current),
                ..cv
            });
            lemma_class_update(pre, *self, i as int);
        }
        Ok(())
    }
}

} // verus!

