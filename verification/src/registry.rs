use vstd::prelude::*;

use crate::errors::Error;
use crate::location::{LocV, Location};
use crate::state::{
    class_v_wf,
    dpairs,
    has_index,
    has_loc,
    index_at,
    loc_at,
    kv_has,
    lemma_class_restored,
    lemma_class_update,
    lpairs,
    position_by_index,
    position_by_key,
    position_by_loc,
    position_of_loc,
    vlocs,
    AssetClass,
    ClassV,
    MinimumsAndMaximums,
    StakingCore,
};

verus! {

/// Allocation of the next dense delegator index: the counter value is
/// returned and the counter moves up by one; a counter at its top wraps
/// nothing and fails instead.
pub open spec fn initialize_delegator_spec(cv: ClassV) -> Result<(u16, ClassV), Error> {
    if cv.next_index == u16::MAX {
        Err(Error::Overflow)
    } else {
        Ok((cv.next_index, ClassV { next_index: (cv.next_index + 1) as u16, ..cv }))
    }
}

/// Registration of a delegator under a previously allocated index: both
/// the index and the location must be fresh, a policy record must exist,
/// and the allocation counter must still be below the policy maximum.
pub open spec fn add_delegator_spec(cv: ClassV, index: u16, who: LocV) -> Result<ClassV, Error> {
    if has_index(cv.delegators, index) || has_loc(cv.delegators, who) {
        Err(Error::AlreadyExist)
    } else {
        match cv.policy {
            None => Err(Error::NotExist),
            Some(p) => {
                if cv.next_index >= p.delegators_maximum {
                    Err(Error::GreaterThanMaximum)
                } else {
                    Ok(ClassV { delegators: cv.delegators.push((index, who)), ..cv })
                }
            },
        }
    }
}

/// Removal of a delegator: both directions of the index map and the
/// delegator's bonding ledger go in one step.
pub open spec fn remove_delegator_spec(cv: ClassV, who: LocV) -> Result<ClassV, Error> {
    if !has_loc(cv.delegators, who) {
        Err(Error::DelegatorNotExist)
    } else {
        Ok(remove_delegator_ok(cv, who))
    }
}

/// Admission of a validator into the bounded per-class set.
pub open spec fn add_validator_spec(cv: ClassV, who: LocV, max_length_limit: u64) -> Result<
    ClassV,
    Error,
> {
    match cv.policy {
        None => Err(Error::NotExist),
        Some(p) => {
            let vs = match cv.validators {
                Some(v) => v,
                None => Seq::<LocV>::empty(),
            };
            if vs.len() >= p.validators_maximum {
                Err(Error::GreaterThanMaximum)
            } else if vs.len() >= max_length_limit {
                Err(Error::ExceedMaxLengthLimit)
            } else if vs.contains(who) {
                Err(Error::AlreadyExist)
            } else {
                Ok(ClassV { validators: Some(vs.push(who)), ..cv })
            }
        },
    }
}

/// Removal of a validator by value from the per-class set.
pub open spec fn remove_validator_spec(cv: ClassV, who: LocV) -> Result<ClassV, Error> {
    match cv.validators {
        None => Err(Error::ValidatorSetNotExist),
        Some(vs) => {
            if !vs.contains(who) {
                Err(Error::ValidatorNotExist)
            } else {
                let i = choose|i: int| 0 <= i < vs.len() && vs[i] == who;
                Ok(ClassV { validators: Some(vs.remove(i)), ..cv })
            }
        },
    }
}

impl StakingCore {
    /// Allocate the next delegator index for the class.
    pub fn initialize_delegator(&mut self, a: AssetClass) -> (r: Result<u16, Error>)
        requires
            old(self).wf(),
        ensures
            final(self).wf(),
            old(self).only_class_changed(*final(self), a),
            match initialize_delegator_spec(old(self).class_view(a)) {
                Ok((idx, cv)) => r == Ok::<u16, Error>(idx) && final(self).class_view(a) == cv,
                Err(e) => r == Err::<u16, Error>(e) && old(self).same_view(*final(self)),
            },
    {
        let i = self.ensure_class(a);
        let ghost pre = *self;
        let mut rec = self.classes.remove(i);
        let ghost cv = rec@;
        if rec.next_index == u16::MAX {
            self.classes.insert(i, rec);
            proof {
                lemma_class_restored(pre, *self, i as int);
            }
            return Err(Error::Overflow);
        }
        let idx = rec.next_index;
        rec.next_index = rec.next_index + 1;
        self.classes.insert(i, rec);
        proof {
            assert(self.classes@[i as int]@ =~= ClassV {
                next_index: (cv.next_index + 1) as u16,
                ..cv
            });
            lemma_class_update(pre, *self, i as int);
        }
        Ok(idx)
    }

    /// Register a delegator under an allocated index.
    pub fn add_delegator(&mut self, index: u16, who: &Location, a: AssetClass) -> (r: Result<
        (),
        Error,
    >)
        requires
            old(self).wf(),
        ensures
            final(self).wf(),
            old(self).only_class_changed(*final(self), a),
            match add_delegator_spec(old(self).class_view(a), index, who@) {
                Ok(cv) => r == Ok::<(), Error>(()) && final(self).class_view(a) == cv,
                Err(e) => r == Err::<(), Error>(e) && old(self).same_view(*final(self)),
            },
    {
        let i = self.ensure_class(a);
        let ghost pre = *self;
        let mut rec = self.classes.remove(i);
        let ghost cv = rec@;
        let by_index = position_by_index(&rec.delegators, index);
        let by_loc = position_by_loc(&rec.delegators, who);
        let duplicate = by_index.is_some() || by_loc.is_some();
        proof {
            match by_index {
                Some(p) => {
                    assert(cv.delegators[p as int].0 == index);
                    assert(has_index(cv.delegators, index));
                },
                None => {},
            }
            match by_loc {
                Some(p) => {
                    assert(cv.delegators[p as int].1 == who@);
                    assert(has_loc(cv.delegators, who@));
                },
                None => {},
            }
            assert(duplicate == (has_index(cv.delegators, index) || has_loc(cv.delegators, who@)));
        }
        if duplicate {
            self.classes.insert(i, rec);
            proof {
                lemma_class_restored(pre, *self, i as int);
            }
            return Err(Error::AlreadyExist);
        }
        let policy = match rec.policy {
            Some(p) => p,
            None => {
                self.classes.insert(i, rec);
                proof {
                    lemma_class_restored(pre, *self, i as int);
                }
                return Err(Error::NotExist);
            },
        };
        if rec.next_index >= policy.delegators_maximum {
            self.classes.insert(i, rec);
            proof {
                lemma_class_restored(pre, *self, i as int);
            }
            return Err(Error::GreaterThanMaximum);
        }
        rec.delegators.push((index, who.duplicate()));
        self.classes.insert(i, rec);
        proof {
            assert(self.classes@[i as int]@.delegators =~= cv.delegators.push((index, who@)));
            assert(self.classes@[i as int]@ =~= ClassV {
                delegators: cv.delegators.push((index, who@)),
                ..cv
            });
            lemma_class_update(pre, *self, i as int);
        }
        Ok(())
    }

    /// Remove a delegator together with its bonding ledger.
    pub fn remove_delegator(&mut self, who: &Location, a: AssetClass) -> (r: Result<(), Error>)
        requires
            old(self).wf(),
        ensures
            final(self).wf(),
            old(self).only_class_changed(*final(self), a),
            match remove_delegator_spec(old(self).class_view(a), who@) {
                Ok(cv) => r == Ok::<(), Error>(()) && final(self).class_view(a) == cv,
                Err(e) => r == Err::<(), Error>(e) && old(self).same_view(*final(self)),
            },
    {
        let i = self.ensure_class(a);
        let ghost pre = *self;
        let mut rec = self.classes.remove(i);
        let ghost cv = rec@;
        let pos = match position_by_loc(&rec.delegators, who) {
            Some(p) => p,
            None => {
                self.classes.insert(i, rec);
                proof {
                    lemma_class_restored(pre, *self, i as int);
                }
                return Err(Error::DelegatorNotExist);
            },
        };
        proof {
            assert(rec == pre.classes@[i as int]);
            assert(class_v_wf(cv, pre.max_length_limit));
            assert(cv.delegators[pos as int].1 == who@);
        }
        let _ = rec.delegators.remove(pos);
        proof {
            let k = choose|k: int| 0 <= k < cv.delegators.len() && cv.delegators[k].1 == who@;
            assert(0 <= k < cv.delegators.len() && cv.delegators[k].1 == who@);
            assert(k == pos as int);
            assert(dpairs(rec.delegators@) =~= cv.delegators.remove(pos as int));
        }
        match position_by_key(&rec.ledgers, who) {
            Some(lp) => {
                proof {
                    assert(cv.ledgers[lp as int].0 == who@);
                    assert(kv_has(cv.ledgers, who@));
                }
                let _ = rec.ledgers.remove(lp);
                proof {
                    let k = choose|k: int| 0 <= k < cv.ledgers.len() && cv.ledgers[k].0 == who@;
                    assert(0 <= k < cv.ledgers.len() && cv.ledgers[k].0 == who@);
                    assert(k == lp as int);
                    assert(lpairs(rec.ledgers@) =~= cv.ledgers.remove(lp as int));
                }
            },
            None => {
                proof {
                    assert forall|j: int| 0 <= j < cv.ledgers.len() implies cv.ledgers[j].0
                        != who@ by {
                        assert(cv.ledgers[j].0 == rec.ledgers@[j].0@);
                    }
                    assert(!kv_has(cv.ledgers, who@));
                }
            },
        }
        self.classes.insert(i, rec);
        proof {
            assert(self.classes@[i as int]@ =~= remove_delegator_ok(cv, who@));
            lemma_class_update(pre, *self, i as int);
        }
        Ok(())
    }

    /// Admit a validator into the bounded per-class set.
    pub fn add_validator(&mut self, who: &Location, a: AssetClass) -> (r: Result<(), Error>)
        requires
            old(self).wf(),
        ensures
            final(self).wf(),
            old(self).only_class_changed(*final(self), a),
            match add_validator_spec(old(self).class_view(a), who@, old(self).max_length_limit) {
                Ok(cv) => r == Ok::<(), Error>(()) && final(self).class_view(a) == cv,
                Err(e) => r == Err::<(), Error>(e) && old(self).same_view(*final(self)),
            },
    {
        let max_length_limit = self.max_length_limit;
        let i = self.ensure_class(a);
        let ghost pre = *self;
        let mut rec = self.classes.remove(i);
        let ghost cv = rec@;
        let policy = match rec.policy {
            Some(p) => p,
            None => {
                self.classes.insert(i, rec);
                proof {
                    lemma_class_restored(pre, *self, i as int);
                }
                return Err(Error::NotExist);
            },
        };
        let had_set: bool;
        let mut vs: Vec<Location>;
        match rec.validators {
            Some(v) => {
                vs = v;
                had_set = true;
            },
            None => {
                vs = Vec::new();
                had_set = false;
            },
        }
        rec.validators = None;
        let ghost vsv = vlocs(vs@);
        proof {
            assert(vsv =~= match cv.validators {
                Some(v) => v,
                None => Seq::<LocV>::empty(),
            });
        }
        if !(vs.len() < policy.validators_maximum as usize) {
            rec.validators = if had_set {
                Some(vs)
            } else {
                None
            };
            proof {
                assert(rec == pre.classes@[i as int]);
            }
            self.classes.insert(i, rec);
            proof {
                lemma_class_restored(pre, *self, i as int);
            }
            return Err(Error::GreaterThanMaximum);
        }
        if !((vs.len() as u64) < max_length_limit) {
            rec.validators = if had_set {
                Some(vs)
            } else {
                None
            };
            proof {
                assert(rec == pre.classes@[i as int]);
            }
            self.classes.insert(i, rec);
            proof {
                lemma_class_restored(pre, *self, i as int);
            }
            return Err(Error::ExceedMaxLengthLimit);
        }
        match position_of_loc(&vs, who) {
            Some(p) => {
                proof {
                    assert(vsv[p as int] == who@);
                    assert(vsv.contains(who@));
                }
                rec.validators = if had_set {
                    Some(vs)
                } else {
                    None
                };
                proof {
                    assert(rec == pre.classes@[i as int]);
                }
                self.classes.insert(i, rec);
                proof {
                    lemma_class_restored(pre, *self, i as int);
                }
                return Err(Error::AlreadyExist);
            },
            None => {},
        }
        vs.push(who.duplicate());
        proof {
            assert(vlocs(vs@) =~= vsv.push(who@));
        }
        rec.validators = Some(vs);
        self.classes.insert(i, rec);
        proof {
            assert(self.classes@[i as int]@ =~= ClassV { validators: Some(vsv.push(who@)), ..cv });
            lemma_class_update(pre, *self, i as int);
        }
        Ok(())
    }

    /// Remove a validator by value from the per-class set.
    pub fn remove_validator(&mut self, who: &Location, a: AssetClass) -> (r: Result<(), Error>)
        requires
            old(self).wf(),
        ensures
            final(self).wf(),
            old(self).only_class_changed(*final(self), a),
            match remove_validator_spec(old(self).class_view(a), who@) {
                Ok(cv) => r == Ok::<(), Error>(()) && final(self).class_view(a) == cv,
                Err(e) => r == Err::<(), Error>(e) && old(self).same_view(*final(self)),
            },
    {
        let i = self.ensure_class(a);
        let ghost pre = *self;
        let mut rec = self.classes.remove(i);
        let ghost cv = rec@;
        let mut vs: Vec<Location> = match rec.validators {
            Some(v) => v,
            None => {
                rec.validators = None;
                self.classes.insert(i, rec);
                proof {
                    lemma_class_restored(pre, *self, i as int);
                }
                return Err(Error::ValidatorSetNotExist);
            },
        };
        rec.validators = None;
        let ghost vsv = vlocs(vs@);
        let pos = match position_of_loc(&vs, who) {
            Some(p) => p,
            None => {
                rec.validators = Some(vs);
                proof {
                    assert(rec == pre.classes@[i as int]);
                }
                self.classes.insert(i, rec);
                proof {
                    lemma_class_restored(pre, *self, i as int);
                }
                return Err(Error::ValidatorNotExist);
            },
        };
        proof {
            assert(rec.next_index == pre.classes@[i as int].next_index);
            assert(class_v_wf(cv, pre.max_length_limit)) by {
                assert(cv == (pre.classes@[i as int])@);
            }
            assert(cv.validators == Some(vsv));
            assert(vsv[pos as int] == who@);
            assert(vsv.contains(who@));
        }
        let _ = vs.remove(pos);
        proof {
            let k = choose|k: int| 0 <= k < vsv.len() && vsv[k] == who@;
            assert(0 <= k < vsv.len() && vsv[k] == who@);
            assert(k == pos as int);
            assert(vlocs(vs@) =~= vsv.remove(pos as int));
        }
        rec.validators = Some(vs);
        self.classes.insert(i, rec);
        proof {
            assert(self.classes@[i as int]@ =~= ClassV {
                validators: Some(vsv.remove(pos as int)),
                ..cv
            });
            lemma_class_update(pre, *self, i as int);
        }
        Ok(())
    }

    /// The index a delegator location is registered under, if any.
    pub fn delegator_index(&self, a: AssetClass, who: &Location) -> (r: Option<u16>)
        requires
            self.wf(),
        ensures
            match r {
                Some(idx) => has_loc(self.class_view(a).delegators, who@) && index_at(
                    self.class_view(a).delegators,
                    who@,
                ) == idx,
                None => !has_loc(self.class_view(a).delegators, who@),
            },
    {
        match self.find_class(a) {
            None => None,
            Some(i) => {
                proof {
                    crate::state::lemma_class_at(*self, i as int);
                }
                let rec = &self.classes[i];
                let ghost cv = self.class_view(a);
                match position_by_loc(&rec.delegators, who) {
                    Some(p) => {
                        proof {
                            assert(class_v_wf(cv, self.max_length_limit));
                            assert(cv.delegators[p as int].1 == who@);
                            let k = choose|k: int|
                                0 <= k < cv.delegators.len() && cv.delegators[k].1 == who@;
                            assert(0 <= k < cv.delegators.len() && cv.delegators[k].1 == who@);
                            assert(k == p as int);
                            assert(cv.delegators[p as int].0 == rec.delegators@[p as int].0);
                        }
                        Some(rec.delegators[p].0)
                    },
                    None => None,
                }
            },
        }
    }

    /// The location registered under a delegator index, if any.
    pub fn delegator_location(&self, a: AssetClass, index: u16) -> (r: Option<&Location>)
        requires
            self.wf(),
        ensures
            match r {
                Some(l) => has_index(self.class_view(a).delegators, index) && loc_at(
                    self.class_view(a).delegators,
                    index,
                ) == l@,
                None => !has_index(self.class_view(a).delegators, index),
            },
    {
        match self.find_class(a) {
            None => None,
            Some(i) => {
                proof {
                    crate::state::lemma_class_at(*self, i as int);
                }
                let rec = &self.classes[i];
                let ghost cv = self.class_view(a);
                match position_by_index(&rec.delegators, index) {
                    Some(p) => {
                        proof {
                            assert(class_v_wf(cv, self.max_length_limit));
                            assert(cv.delegators[p as int].0 == index);
                            let k = choose|k: int|
                                0 <= k < cv.delegators.len() && cv.delegators[k].0 == index;
                            assert(0 <= k < cv.delegators.len() && cv.delegators[k].0 == index);
                            assert(k == p as int);
                            assert(cv.delegators[p as int].1 == rec.delegators@[p as int].1@);
                        }
                        Some(&rec.delegators[p].1)
                    },
                    None => {
                        proof {
                            assert forall|j: int|
                                0 <= j < cv.delegators.len() implies cv.delegators[j].0
                                != index by {
                                assert(cv.delegators[j].0 == rec.delegators@[j].0);
                            }
                        }
                        None
                    },
                }
            },
        }
    }

    /// The registered validator locations of a class, in insertion order,
    /// if the class has a set at all.
    pub fn validators(&self, a: AssetClass) -> (r: Option<&Vec<Location>>)
        requires
            self.wf(),
        ensures
            match r {
                Some(v) => self.class_view(a).validators == Some(vlocs(v@)),
                None => self.class_view(a).validators is None,
            },
    {
        match self.find_class(a) {
            None => None,
            Some(i) => {
                proof {
                    crate::state::lemma_class_at(*self, i as int);
                }
                match &self.classes[i].validators {
                    Some(v) => Some(v),
                    None => None,
                }
            },
        }
    }

    /// Install or replace the externally supplied policy record.
    pub fn set_minimums_and_maximums(&mut self, a: AssetClass, policy: MinimumsAndMaximums)
        requires
            old(self).wf(),
        ensures
            final(self).wf(),
            old(self).only_class_changed(*final(self), a),
            final(self).class_view(a) == (ClassV {
                policy: Some(policy),
                ..old(self).class_view(a)
            }),
    {
        let i = self.ensure_class(a);
        let ghost pre = *self;
        let mut rec = self.classes.remove(i);
        let ghost cv = rec@;
        rec.policy = Some(policy);
        self.classes.insert(i, rec);
        proof {
            assert(self.classes@[i as int]@ =~= ClassV { policy: Some(policy), ..cv });
            lemma_class_update(pre, *self, i as int);
        }
    }
}

/// Law: registering a delegator and then removing the same location leaves
/// the index map, the reverse map, and the ledger store all without a
/// trace of that delegator. Removal is owed after a successful
/// registration.
pub proof fn lemma_add_remove_delegator_tombstone(
    cv: ClassV,
    index: u16,
    who: LocV,
    mid: ClassV,
    max_length_limit: u64,
)
    requires
        class_v_wf(cv, max_length_limit),
        add_delegator_spec(cv, index, who) == Ok::<ClassV, Error>(mid),
    ensures
        remove_delegator_spec(mid, who) == Ok::<ClassV, Error>(remove_delegator_ok(mid, who)),
        !has_index(remove_delegator_ok(mid, who).delegators, index),
        !has_loc(remove_delegator_ok(mid, who).delegators, who),
        !kv_has(remove_delegator_ok(mid, who).ledgers, who),
{
    let n = cv.delegators.len() as int;
    assert(mid.delegators == cv.delegators.push((index, who)));
    assert(mid.delegators[n] == (index, who));
    assert(has_loc(mid.delegators, who));
    let post = remove_delegator_ok(mid, who);
    let i = choose|i: int| 0 <= i < mid.delegators.len() && mid.delegators[i].1 == who;
    assert(0 <= i < mid.delegators.len() && mid.delegators[i].1 == who);
    assert(i == n) by {
        if i < n {
            assert(cv.delegators[i].1 == who);
            assert(has_loc(cv.delegators, who));
        }
    }
    assert(post.delegators =~= cv.delegators);
    assert(!has_index(post.delegators, index));
    assert(!has_loc(post.delegators, who));
    assert(mid.ledgers == cv.ledgers);
    if kv_has(mid.ledgers, who) {
        let j = choose|j: int| 0 <= j < mid.ledgers.len() && mid.ledgers[j].0 == who;
        assert(0 <= j < mid.ledgers.len() && mid.ledgers[j].0 == who);
        assert(post.ledgers == mid.ledgers.remove(j));
        assert forall|m: int| 0 <= m < post.ledgers.len() implies post.ledgers[m].0 != who by {
            if m < j {
                assert(post.ledgers[m] == mid.ledgers[m]);
                if mid.ledgers[m].0 == who {
                    assert(mid.ledgers[m].0 != mid.ledgers[j].0);
                }
            } else {
                assert(post.ledgers[m] == mid.ledgers[m + 1]);
                if mid.ledgers[m + 1].0 == who {
                    assert(mid.ledgers[j].0 != mid.ledgers[m + 1].0);
                }
            }
        }
        assert(!kv_has(post.ledgers, who));
    } else {
        assert(post.ledgers == mid.ledgers);
        assert(!kv_has(post.ledgers, who));
    }
}

/// Law: the index-to-location map and the location-to-index map stay
/// inverses of each other. In any well-formed class, following a
/// registered location to its index leads back to that location, and the
/// other way round.
pub proof fn lemma_delegator_maps_are_inverse(cv: ClassV, max_length_limit: u64)
    requires
        class_v_wf(cv, max_length_limit),
    ensures
        forall|l: LocV|
            #[trigger] has_loc(cv.delegators, l) ==> has_index(cv.delegators, index_at(cv.delegators, l))
                && loc_at(cv.delegators, index_at(cv.delegators, l)) == l,
        forall|i: u16|
            #[trigger] has_index(cv.delegators, i) ==> has_loc(cv.delegators, loc_at(cv.delegators, i))
                && index_at(cv.delegators, loc_at(cv.delegators, i)) == i,
{
    let s = cv.delegators;
    assert forall|l: LocV| #[trigger] has_loc(s, l) implies has_index(s, index_at(s, l)) && loc_at(
        s,
        index_at(s, l),
    ) == l by {
        let k = choose|k: int| 0 <= k < s.len() && s[k].1 == l;
        assert(0 <= k < s.len() && s[k].1 == l);
        assert(has_index(s, s[k].0));
        let k2 = choose|k2: int| 0 <= k2 < s.len() && s[k2].0 == s[k].0;
        assert(0 <= k2 < s.len() && s[k2].0 == s[k].0);
        assert(k2 == k) by {
            if k2 < k {
                assert(s[k2].0 != s[k].0);
            } else if k < k2 {
                assert(s[k].0 != s[k2].0);
            }
        }
    }
    assert forall|i: u16| #[trigger] has_index(s, i) implies has_loc(s, loc_at(s, i)) && index_at(
        s,
        loc_at(s, i),
    ) == i by {
        let k = choose|k: int| 0 <= k < s.len() && s[k].0 == i;
        assert(0 <= k < s.len() && s[k].0 == i);
        assert(has_loc(s, s[k].1));
        let k2 = choose|k2: int| 0 <= k2 < s.len() && s[k2].1 == s[k].1;
        assert(0 <= k2 < s.len() && s[k2].1 == s[k].1);
        assert(k2 == k) by {
            if k2 < k {
                assert(s[k2].1 != s[k].1);
            } else if k < k2 {
                assert(s[k].1 != s[k2].1);
            }
        }
    }
}

/// Law: indices handed out by `initialize_delegator` strictly increase and
/// are never reused. Each allocation returns the counter and moves it up;
/// every other operation's transition keeps `next_index` unchanged, so any
/// state reached after an allocation has a counter at least one above the
/// index it returned, and a later allocation returns a strictly larger
/// index.
pub proof fn lemma_initialize_indices_strictly_increase(
    s1: ClassV,
    i1: u16,
    mid1: ClassV,
    s2: ClassV,
    i2: u16,
    mid2: ClassV,
)
    requires
        initialize_delegator_spec(s1) == Ok::<(u16, ClassV), Error>((i1, mid1)),
        initialize_delegator_spec(s2) == Ok::<(u16, ClassV), Error>((i2, mid2)),
        s2.next_index >= mid1.next_index,
    ensures
        i2 > i1,
{
}

/// Law: a validator set filled to its policy maximum refuses the next
/// admission with `GreaterThanMaximum`, and removing any member makes the
/// next admission of a fresh validator succeed again.
pub proof fn lemma_validator_capacity_recovers(
    cv: ClassV,
    out: LocV,
    fresh: LocV,
    p: MinimumsAndMaximums,
    vs: Seq<LocV>,
    max_length_limit: u64,
)
    requires
        class_v_wf(cv, max_length_limit),
        cv.policy == Some(p),
        cv.validators == Some(vs),
        vs.len() == p.validators_maximum,
        vs.contains(out),
        fresh == out || !vs.contains(fresh),
    ensures
        add_validator_spec(cv, fresh, max_length_limit) == Err::<ClassV, Error>(
            Error::GreaterThanMaximum,
        ),
        remove_validator_spec(cv, out) is Ok,
        forall|mid: ClassV|
            remove_validator_spec(cv, out) == Ok::<ClassV, Error>(mid) ==> add_validator_spec(
                mid,
                fresh,
                max_length_limit,
            ) is Ok,
{
    let k = choose|k: int| 0 <= k < vs.len() && vs[k] == out;
    assert(0 <= k < vs.len() && vs[k] == out) by {
        assert(vs.contains(out));
    }
    let rest = vs.remove(k);
    assert(remove_validator_spec(cv, out) == Ok::<ClassV, Error>(
        ClassV { validators: Some(rest), ..cv },
    ));
    let mid = ClassV { validators: Some(rest), ..cv };
    assert(rest.len() < p.validators_maximum);
    assert(rest.len() < max_length_limit);
    assert(!rest.contains(fresh)) by {
        assert forall|m: int| 0 <= m < rest.len() implies rest[m] != fresh by {
            if m < k {
                assert(rest[m] == vs[m]);
                if fresh == out {
                    assert(vs[m] != vs[k]);
                } else {
                    if rest[m] == fresh {
                        assert(vs.contains(fresh));
                    }
                }
            } else {
                assert(rest[m] == vs[m + 1]);
                if fresh == out {
                    assert(vs[k] != vs[m + 1]);
                } else {
                    if rest[m] == fresh {
                        assert(vs.contains(fresh));
                    }
                }
            }
        }
        if rest.contains(fresh) {
            let m = choose|m: int| 0 <= m < rest.len() && rest[m] == fresh;
            assert(rest[m] != fresh);
        }
    }
    assert(add_validator_spec(mid, fresh, max_length_limit) is Ok);
}

/// The result state of a successful delegator removal.
pub open spec fn remove_delegator_ok(cv: ClassV, who: LocV) -> ClassV {
    let i = choose|i: int| 0 <= i < cv.delegators.len() && cv.delegators[i].1 == who;
    let ledgers = if kv_has(cv.ledgers, who) {
        let j = choose|j: int| 0 <= j < cv.ledgers.len() && cv.ledgers[j].0 == who;
        cv.ledgers.remove(j)
    } else {
        cv.ledgers
    };
    ClassV { delegators: cv.delegators.remove(i), ledgers, ..cv }
}

} // verus!
