use vstd::prelude::*;

use crate::location::{LocV, Location};
use crate::state::{
    class_v_wf,
    kv_get,
    kv_has,
    lemma_class_update,
    lpairs,
    position_by_key,
    AssetClass,
    ClassV,
    StakingCore,
};
use crate::time::TimeUnit;

verus! {

/// A pending unbonding action: revoke the whole delegation or decrease it
/// by the given amount.
#[derive(Clone, Copy, PartialEq, Eq, Debug)]
pub enum OneToManyDelegationAction {
    Revoke(u128),
    Decrease(u128),
}

/// A scheduled request becomes executable once its epoch has elapsed;
/// the external scheduler, not this core, enforces the delay.
#[derive(Clone, PartialEq, Eq, Debug)]
pub struct OneToManyScheduledRequest {
    pub delegator: Location,
    pub when_executable: TimeUnit,
    pub action: OneToManyDelegationAction,
}

/// The mathematical value of a scheduled request.
pub struct ScheduledRequestV {
    pub delegator: LocV,
    pub when_executable: TimeUnit,
    pub action: OneToManyDelegationAction,
}

impl View for OneToManyScheduledRequest {
    type V = ScheduledRequestV;

    open spec fn view(&self) -> ScheduledRequestV {
        ScheduledRequestV {
            delegator: self.delegator@,
            when_executable: self.when_executable,
            action: self.action,
        }
    }
}

/// Lifecycle of a delegator's bonding record: either serving, or leaving
/// since the given epoch.
#[derive(Clone, Copy, PartialEq, Eq, Debug)]
pub enum OneToManyDelegatorStatus {
    Active,
    Leaving(TimeUnit),
}

/// The bonding record of one delegator: how much is staked in total, the
/// per-validator split, the amount pending unlock, and the scheduled
/// unbonding requests. Mutation of the amounts is the business of callers
/// outside this core; the core stores records whole and deletes them
/// together with their delegator.
#[derive(Clone, PartialEq, Eq, Debug)]
pub struct OneToManyLedger {
    pub account: Location,
    pub delegations: Vec<(Location, u128)>,
    pub total: u128,
    pub less_total: u128,
    pub requests: Vec<OneToManyScheduledRequest>,
    pub status: OneToManyDelegatorStatus,
}

/// The mathematical value of a bonding record.
pub struct LedgerV {
    pub account: LocV,
    pub delegations: Seq<(LocV, u128)>,
    pub total: u128,
    pub less_total: u128,
    pub requests: Seq<ScheduledRequestV>,
    pub status: OneToManyDelegatorStatus,
}

impl View for OneToManyLedger {
    type V = LedgerV;

    open spec fn view(&self) -> LedgerV {
        LedgerV {
            account: self.account@,
            delegations: self.delegations@.map_values(|p: (Location, u128)| (p.0@, p.1)),
            total: self.total,
            less_total: self.less_total,
            requests: self.requests@.map_values(|q: OneToManyScheduledRequest| q@),
            status: self.status,
        }
    }
}

/// The staked amounts of a delegation split, summed over the unbounded
/// integers.
pub open spec fn delegations_sum(s: Seq<(LocV, u128)>) -> int
    decreases s.len(),
{
    if s.len() == 0 {
        0
    } else {
        delegations_sum(s.drop_last()) + s.last().1
    }
}

impl LedgerV {
    /// Well-formedness of a bonding record: the per-validator split names
    /// each validator at most once, and the bonded total covers the sum of
    /// the split.
    pub open spec fn wf(self) -> bool {
        &&& (forall|i: int, j: int|
            0 <= i < j < self.delegations.len() ==> self.delegations[i].0
                != self.delegations[j].0)
        &&& delegations_sum(self.delegations) <= self.total
    }
}

/// Writing a bonding record: replace the delegator's record or append a
/// new one.
pub open spec fn set_ledger_spec(cv: ClassV, who: LocV, ledger: LedgerV) -> ClassV {
    if kv_has(cv.ledgers, who) {
        let j = choose|j: int| 0 <= j < cv.ledgers.len() && cv.ledgers[j].0 == who;
        ClassV { ledgers: cv.ledgers.update(j, (who, ledger)), ..cv }
    } else {
        ClassV { ledgers: cv.ledgers.push((who, ledger)), ..cv }
    }
}

/// Deleting a bonding record on its own; absent records stay absent.
pub open spec fn remove_ledger_spec(cv: ClassV, who: LocV) -> ClassV {
    if kv_has(cv.ledgers, who) {
        let j = choose|j: int| 0 <= j < cv.ledgers.len() && cv.ledgers[j].0 == who;
        ClassV { ledgers: cv.ledgers.remove(j), ..cv }
    } else {
        cv
    }
}

impl StakingCore {
    /// Create or replace the bonding record of a delegator.
    pub fn set_ledger(&mut self, a: AssetClass, who: &Location, ledger: OneToManyLedger)
        requires
            old(self).wf(),
            ledger@.wf(),
        ensures
            final(self).wf(),
            old(self).only_class_changed(*final(self), a),
            final(self).class_view(a) == set_ledger_spec(old(self).class_view(a), who@, ledger@),
    {
        let i = self.ensure_class(a);
        let ghost pre = *self;
        let mut rec = self.classes.remove(i);
        let ghost cv = rec@;
        proof {
            assert(rec == pre.classes@[i as int]);
            assert(class_v_wf(cv, pre.max_length_limit));
        }
        match position_by_key(&rec.ledgers, who) {
            Some(j) => {
                proof {
                    assert(cv.ledgers[j as int].0 == who@);
                    assert(kv_has(cv.ledgers, who@));
                    let k = choose|k: int| 0 <= k < cv.ledgers.len() && cv.ledgers[k].0 == who@;
                    assert(0 <= k < cv.ledgers.len() && cv.ledgers[k].0 == who@);
                    assert(k == j as int);
                }
                let _ = rec.ledgers.remove(j);
                rec.ledgers.insert(j, (who.duplicate(), ledger));
                proof {
                    assert(lpairs(rec.ledgers@) =~= cv.ledgers.update(j as int, (who@, ledger@)));
                }
            },
            None => {
                proof {
                    assert forall|j: int| 0 <= j < cv.ledgers.len() implies cv.ledgers[j].0
                        != who@ by {
                        assert(cv.ledgers[j].0 == rec.ledgers@[j].0@);
                    }
                    assert(!kv_has(cv.ledgers, who@));
                }
                rec.ledgers.push((who.duplicate(), ledger));
                proof {
                    assert(lpairs(rec.ledgers@) =~= cv.ledgers.push((who@, ledger@)));
                }
            },
        }
        self.classes.insert(i, rec);
        proof {
            assert(self.classes@[i as int]@ =~= set_ledger_spec(cv, who@, ledger@));
            lemma_class_update(pre, *self, i as int);
        }
    }

    /// Delete the bonding record of a delegator, if it has one.
    pub fn remove_ledger(&mut self, a: AssetClass, who: &Location)
        requires
            old(self).wf(),
        ensures
            final(self).wf(),
            old(self).only_class_changed(*final(self), a),
            final(self).class_view(a) == remove_ledger_spec(old(self).class_view(a), who@),
    {
        let i = self.ensure_class(a);
        let ghost pre = *self;
        let mut rec = self.classes.remove(i);
        let ghost cv = rec@;
        proof {
            assert(rec == pre.classes@[i as int]);
            assert(class_v_wf(cv, pre.max_length_limit));
        }
        match position_by_key(&rec.ledgers, who) {
            Some(j) => {
                proof {
                    assert(cv.ledgers[j as int].0 == who@);
                    assert(kv_has(cv.ledgers, who@));
                    let k = choose|k: int| 0 <= k < cv.ledgers.len() && cv.ledgers[k].0 == who@;
                    assert(0 <= k < cv.ledgers.len() && cv.ledgers[k].0 == who@);
                    assert(k == j as int);
                }
                let _ = rec.ledgers.remove(j);
                proof {
                    assert(lpairs(rec.ledgers@) =~= cv.ledgers.remove(j as int));
                }
            },
            None => {
                proof {
                    assert forall|j: int| 0 <= j < cv.ledgers.len() implies cv.ledgers[j].0
                        != who@ by {
                        assert(cv.ledgers[j].0 == rec.ledgers@[j].0@);
                    }
                    assert(!kv_has(cv.ledgers, who@));
                }
            },
        }
        self.classes.insert(i, rec);
        proof {
            assert(self.classes@[i as int]@ =~= remove_ledger_spec(cv, who@));
            lemma_class_update(pre, *self, i as int);
        }
    }

    /// Whether a delegator has a bonding record.
    pub fn has_ledger(&self, a: AssetClass, who: &Location) -> (r: bool)
        requires
            self.wf(),
        ensures
            r == kv_has(self.class_view(a).ledgers, who@),
    {
        match self.find_class(a) {
            None => {
                proof {
                    assert(!kv_has(self.class_view(a).ledgers, who@));
                }
                false
            },
            Some(i) => {
                proof {
                    crate::state::lemma_class_at(*self, i as int);
                }
                let rec = &self.classes[i];
                let ghost cv = self.class_view(a);
                match position_by_key(&rec.ledgers, who) {
                    Some(j) => {
                        proof {
                            assert(cv.ledgers[j as int].0 == who@);
                        }
                        true
                    },
                    None => {
                        proof {
                            assert forall|j: int| 0 <= j < cv.ledgers.len() implies cv.ledgers[j].0
                                != who@ by {
                                assert(cv.ledgers[j].0 == rec.ledgers@[j].0@);
                            }
                        }
                        false
                    },
                }
            },
        }
    }

    /// The bonding record of a delegator, if it has one.
    pub fn ledger(&self, a: AssetClass, who: &Location) -> (r: Option<&OneToManyLedger>)
        requires
            self.wf(),
        ensures
            match r {
                Some(l) => kv_has(self.class_view(a).ledgers, who@) && l@ == kv_get(
                    self.class_view(a).ledgers,
                    who@,
                ),
                None => !kv_has(self.class_view(a).ledgers, who@),
            },
    {
        match self.find_class(a) {
            None => {
                proof {
                    assert(!kv_has(self.class_view(a).ledgers, who@));
                }
                None
            },
            Some(i) => {
                proof {
                    crate::state::lemma_class_at(*self, i as int);
                }
                let rec = &self.classes[i];
                let ghost cv = self.class_view(a);
                match position_by_key(&rec.ledgers, who) {
                    Some(j) => {
                        proof {
                            assert(class_v_wf(cv, self.max_length_limit));
                            assert(cv.ledgers[j as int].0 == who@);
                            assert(kv_has(cv.ledgers, who@));
                            let k = choose|k: int|
                                0 <= k < cv.ledgers.len() && cv.ledgers[k].0 == who@;
                            assert(0 <= k < cv.ledgers.len() && cv.ledgers[k].0 == who@);
                            assert(k == j as int);
                            assert(cv.ledgers[j as int].1 == rec.ledgers@[j as int].1@);
                        }
                        Some(&rec.ledgers[j].1)
                    },
                    None => {
                        proof {
                            assert forall|j: int| 0 <= j < cv.ledgers.len() implies cv.ledgers[j].0
                                != who@ by {
                                assert(cv.ledgers[j].0 == rec.ledgers@[j].0@);
                            }
                        }
                        None
                    },
                }
            },
        }
    }
}

} // verus!
