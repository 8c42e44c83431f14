use vstd::prelude::*;

use crate::ledger::{LedgerV, OneToManyLedger};
use crate::location::{LocV, Location};
use crate::time::TimeUnit;

verus! {

/// Identifier of a stakeable asset and its synthetic liquid-staking token.
/// It partitions every registry and record kept by the core.
#[derive(Clone, Copy, PartialEq, Eq, Structural, Debug, Hash)]
pub struct AssetClass(pub u64);

/// Per-asset-class policy limits, supplied externally and read-only to
/// this core.
#[derive(Clone, Copy, PartialEq, Eq, Structural, Debug)]
pub struct MinimumsAndMaximums {
    pub delegators_maximum: u16,
    pub validators_maximum: u16,
}

/// All state the core keeps for one asset class.
pub struct ClassRecord {
    pub asset: AssetClass,
    /// Next dense delegator index; monotone, never reused.
    pub next_index: u16,
    /// Index-to-location map and its inverse, kept in lock-step as one
    /// association list.
    pub delegators: Vec<(u16, Location)>,
    /// The bounded validator set; absent until the first insertion.
    pub validators: Option<Vec<Location>>,
    pub policy: Option<MinimumsAndMaximums>,
    /// Bonding records, keyed by delegator location.
    pub ledgers: Vec<(Location, OneToManyLedger)>,
    /// Epoch and count of exchange-rate tunings in that epoch.
    pub tune_record: Option<(TimeUnit, u32)>,
    /// Configured tuning rate limit: events per epoch, and the largest
    /// adjustment in parts per million.
    pub tune_limit: Option<(u32, u32)>,
    /// Last epoch in which each delegator tuned.
    pub delegator_tunes: Vec<(Location, TimeUnit)>,
}

/// The mathematical value of one asset class's state.
#[verifier::ext_equal]
pub struct ClassV {
    pub next_index: u16,
    pub delegators: Seq<(u16, LocV)>,
    pub validators: Option<Seq<LocV>>,
    pub policy: Option<MinimumsAndMaximums>,
    pub ledgers: Seq<(LocV, LedgerV)>,
    pub tune_record: Option<(TimeUnit, u32)>,
    pub tune_limit: Option<(u32, u32)>,
    pub delegator_tunes: Seq<(LocV, TimeUnit)>,
}

pub open spec fn dpairs(s: Seq<(u16, Location)>) -> Seq<(u16, LocV)> {
    s.map_values(|p: (u16, Location)| (p.0, p.1@))
}

pub open spec fn lpairs(s: Seq<(Location, OneToManyLedger)>) -> Seq<(LocV, LedgerV)> {
    s.map_values(|p: (Location, OneToManyLedger)| (p.0@, p.1@))
}

pub open spec fn tpairs(s: Seq<(Location, TimeUnit)>) -> Seq<(LocV, TimeUnit)> {
    s.map_values(|p: (Location, TimeUnit)| (p.0@, p.1))
}

pub open spec fn vlocs(s: Seq<Location>) -> Seq<LocV> {
    s.map_values(|l: Location| l@)
}

impl View for ClassRecord {
    type V = ClassV;

    open spec fn view(&self) -> ClassV {
        ClassV {
            next_index: self.next_index,
            delegators: dpairs(self.delegators@),
            validators: match self.validators {
                Some(v) => Some(vlocs(v@)),
                None => None,
            },
            policy: self.policy,
            ledgers: lpairs(self.ledgers@),
            tune_record: self.tune_record,
            tune_limit: self.tune_limit,
            delegator_tunes: tpairs(self.delegator_tunes@),
        }
    }
}

/// The state of an asset class the core has never touched.
pub open spec fn class_default() -> ClassV {
    ClassV {
        next_index: 0,
        delegators: Seq::empty(),
        validators: None,
        policy: None,
        ledgers: Seq::empty(),
        tune_record: None,
        tune_limit: None,
        delegator_tunes: Seq::empty(),
    }
}

// Lookup predicates over the delegator association list: it is at once
// the index-to-location map and the location-to-index map.
pub open spec fn has_index(s: Seq<(u16, LocV)>, index: u16) -> bool {
    exists|i: int| 0 <= i < s.len() && s[i].0 == index
}

pub open spec fn loc_at(s: Seq<(u16, LocV)>, index: u16) -> LocV {
    s[choose|i: int| 0 <= i < s.len() && s[i].0 == index].1
}

pub open spec fn has_loc(s: Seq<(u16, LocV)>, loc: LocV) -> bool {
    exists|i: int| 0 <= i < s.len() && s[i].1 == loc
}

pub open spec fn index_at(s: Seq<(u16, LocV)>, loc: LocV) -> u16 {
    s[choose|i: int| 0 <= i < s.len() && s[i].1 == loc].0
}

// Lookup predicates over location-keyed association lists.
pub open spec fn kv_has<V>(s: Seq<(LocV, V)>, k: LocV) -> bool {
    exists|i: int| 0 <= i < s.len() && s[i].0 == k
}

pub open spec fn kv_get<V>(s: Seq<(LocV, V)>, k: LocV) -> V {
    s[choose|i: int| 0 <= i < s.len() && s[i].0 == k].1
}

pub open spec fn kv_distinct<V>(s: Seq<(LocV, V)>) -> bool {
    forall|i: int, j: int| 0 <= i < j < s.len() ==> s[i].0 != s[j].0
}

/// Well-formedness of one asset class's state: both directions of the
/// delegator map are injective, the validator set has no duplicates and
/// respects the hard length cap, and every keyed list has unique keys.
pub open spec fn class_v_wf(cv: ClassV, max_length_limit: u64) -> bool {
    &&& (forall|i: int, j: int|
        0 <= i < j < cv.delegators.len() ==> cv.delegators[i].0 != cv.delegators[j].0
            && cv.delegators[i].1 != cv.delegators[j].1)
    &&& match cv.validators {
        Some(v) => (forall|i: int, j: int| 0 <= i < j < v.len() ==> v[i] != v[j]) && v.len()
            <= max_length_limit,
        None => true,
    }
    &&& kv_distinct(cv.ledgers)
    &&& (forall|i: int| 0 <= i < cv.ledgers.len() ==> (#[trigger] cv.ledgers[i].1).wf())
    &&& kv_distinct(cv.delegator_tunes)
}

/// The whole core: per-class state plus the two global configuration
/// values, the hard cap on bounded sets and the local parachain identity.
pub struct StakingCore {
    pub max_length_limit: u64,
    pub parachain_id: u32,
    pub classes: Vec<ClassRecord>,
}

impl StakingCore {
    pub open spec fn has_class(self, a: AssetClass) -> bool {
        exists|i: int| 0 <= i < self.classes@.len() && self.classes@[i].asset == a
    }

    pub open spec fn class_idx(self, a: AssetClass) -> int {
        choose|i: int| 0 <= i < self.classes@.len() && self.classes@[i].asset == a
    }

    /// The state of an asset class, with the untouched default for classes
    /// the core has no record of.
    pub open spec fn class_view(self, a: AssetClass) -> ClassV {
        if self.has_class(a) {
            self.classes@[self.class_idx(a)]@
        } else {
            class_default()
        }
    }

    pub open spec fn wf(self) -> bool {
        &&& (forall|i: int, j: int|
            0 <= i < j < self.classes@.len() ==> self.classes@[i].asset != self.classes@[j].asset)
        &&& (forall|i: int|
            0 <= i < self.classes@.len() ==> class_v_wf(
                (#[trigger] self.classes@[i])@,
                self.max_length_limit,
            ))
    }

    /// Two cores carry the same observable state.
    pub open spec fn same_view(self, other: StakingCore) -> bool {
        &&& self.max_length_limit == other.max_length_limit
        &&& self.parachain_id == other.parachain_id
        &&& forall|a: AssetClass| self.class_view(a) == other.class_view(a)
    }

    /// Only the given asset class may differ between the two cores.
    pub open spec fn only_class_changed(self, other: StakingCore, a: AssetClass) -> bool {
        &&& self.max_length_limit == other.max_length_limit
        &&& self.parachain_id == other.parachain_id
        &&& forall|b: AssetClass| b != a ==> self.class_view(b) == other.class_view(b)
    }

    /// An empty core with the given hard length cap and local parachain
    /// identity.
    pub fn new(max_length_limit: u64, parachain_id: u32) -> (s: StakingCore)
        ensures
            s.wf(),
            s.max_length_limit == max_length_limit,
            s.parachain_id == parachain_id,
            forall|a: AssetClass| s.class_view(a) == class_default(),
    {
        StakingCore { max_length_limit, parachain_id, classes: Vec::new() }
    }

    pub fn find_class(&self, a: AssetClass) -> (r: Option<usize>)
        ensures
            match r {
                Some(i) => i < self.classes@.len() && self.classes@[i as int].asset == a,
                None => !self.has_class(a),
            },
    {
        let n = self.classes.len();
        let mut i: usize = 0;
        while i < n
            invariant
                0 <= i <= n,
                n == self.classes@.len(),
                forall|j: int| 0 <= j < i ==> self.classes@[j].asset != a,
            decreases n - i,
        {
            if self.classes[i].asset == a {
                return Some(i);
            }
            i += 1;
        }
        None
    }

    /// The record slot for the given class, creating the untouched default
    /// when the core has none yet; the observable state does not change.
    pub fn ensure_class(&mut self, a: AssetClass) -> (i: usize)
        requires
            old(self).wf(),
        ensures
            final(self).wf(),
            old(self).same_view(*final(self)),
            i < final(self).classes@.len(),
            final(self).classes@[i as int].asset == a,
            final(self).has_class(a),
            final(self).class_idx(a) == i as int,
            final(self).class_view(a) == final(self).classes@[i as int]@,
    {
        match self.find_class(a) {
            Some(i) => {
                proof {
                    lemma_class_at(*self, i as int);
                }
                i
            },
            None => {
                let i = self.classes.len();
                let rec = ClassRecord {
                    asset: a,
                    next_index: 0,
                    delegators: Vec::new(),
                    validators: None,
                    policy: None,
                    ledgers: Vec::new(),
                    tune_record: None,
                    tune_limit: None,
                    delegator_tunes: Vec::new(),
                };
                proof {
                    assert(rec@ =~= class_default());
                }
                let ghost pre = *self;
                self.classes.push(rec);
                proof {
                    assert(forall|j: int|
                        0 <= j < pre.classes@.len() ==> self.classes@[j] == pre.classes@[j]);
                    lemma_class_at(*self, i as int);
                    assert forall|b: AssetClass| pre.class_view(b) == self.class_view(b) by {
                        if b == a {
                            assert(self.class_view(b) == class_default());
                        } else {
                            if pre.has_class(b) {
                                let j = pre.class_idx(b);
                                lemma_class_at(pre, j);
                                lemma_class_at(*self, j);
                            } else {
                                assert(!self.has_class(b)) by {
                                    if self.has_class(b) {
                                        let j = self.class_idx(b);
                                        assert(0 <= j < self.classes@.len() && self.classes@[j].asset
                                            == b);
                                        assert(j < pre.classes@.len());
                                    }
                                }
                            }
                        }
                    }
                }
                i
            },
        }
    }
}

/// In a well-formed core the class at any slot is the one its asset id
/// resolves to.
pub proof fn lemma_class_at(s: StakingCore, i: int)
    requires
        forall|p: int, q: int|
            0 <= p < q < s.classes@.len() ==> s.classes@[p].asset != s.classes@[q].asset,
        0 <= i < s.classes@.len(),
    ensures
        s.has_class(s.classes@[i].asset),
        s.class_idx(s.classes@[i].asset) == i,
        s.class_view(s.classes@[i].asset) == s.classes@[i]@,
{
    let a = s.classes@[i].asset;
    assert(s.has_class(a));
    let j = s.class_idx(a);
    assert(0 <= j < s.classes@.len() && s.classes@[j].asset == a);
    if j != i {
        if j < i {
            assert(s.classes@[j].asset != s.classes@[i].asset);
        } else {
            assert(s.classes@[i].asset != s.classes@[j].asset);
        }
    }
}

/// Replacing the record of one class, keeping its asset id and its
/// well-formedness, changes no other class's view.
pub proof fn lemma_class_update(pre: StakingCore, post: StakingCore, i: int)
    requires
        pre.wf(),
        0 <= i < pre.classes@.len(),
        post.classes@.len() == pre.classes@.len(),
        post.classes@[i].asset == pre.classes@[i].asset,
        forall|j: int| 0 <= j < pre.classes@.len() && j != i ==> post.classes@[j] == pre.classes@[j],
        post.max_length_limit == pre.max_length_limit,
        post.parachain_id == pre.parachain_id,
        class_v_wf(post.classes@[i]@, post.max_length_limit),
    ensures
        post.wf(),
        post.class_view(pre.classes@[i].asset) == post.classes@[i]@,
        pre.class_view(pre.classes@[i].asset) == pre.classes@[i]@,
        pre.only_class_changed(post, pre.classes@[i].asset),
{
    let a = pre.classes@[i].asset;
    assert(forall|j: int|
        0 <= j < post.classes@.len() ==> post.classes@[j].asset == pre.classes@[j].asset);
    assert(post.wf());
    lemma_class_at(post, i);
    lemma_class_at(pre, i);
    assert forall|b: AssetClass| b != a implies pre.class_view(b) == post.class_view(b) by {
        if pre.has_class(b) {
            let j = pre.class_idx(b);
            lemma_class_at(pre, j);
            lemma_class_at(post, j);
            assert(j != i);
        } else {
            assert(!post.has_class(b)) by {
                if post.has_class(b) {
                    let j = post.class_idx(b);
                    assert(pre.classes@[j].asset == b);
                }
            }
        }
    }
}

/// Putting a class record back unchanged restores the observable state.
pub proof fn lemma_class_restored(pre: StakingCore, post: StakingCore, i: int)
    requires
        pre.wf(),
        0 <= i < pre.classes@.len(),
        post.classes@.len() == pre.classes@.len(),
        post.classes@[i] == pre.classes@[i],
        forall|j: int| 0 <= j < pre.classes@.len() && j != i ==> post.classes@[j] == pre.classes@[j],
        post.max_length_limit == pre.max_length_limit,
        post.parachain_id == pre.parachain_id,
    ensures
        post.wf(),
        pre.same_view(post),
{
    lemma_class_update(pre, post, i);
    assert(pre.class_view(pre.classes@[i].asset) == post.class_view(pre.classes@[i].asset));
}

// Exec lookups over the association lists, resolving view-level equality
// of locations.
pub fn position_by_index(v: &Vec<(u16, Location)>, index: u16) -> (r: Option<usize>)
    ensures
        match r {
            Some(i) => i < v@.len() && v@[i as int].0 == index,
            None => !has_index(dpairs(v@), index),
        },
{
    let n = v.len();
    let mut i: usize = 0;
    while i < n
        invariant
            0 <= i <= n,
            n == v@.len(),
            forall|j: int| 0 <= j < i ==> v@[j].0 != index,
        decreases n - i,
    {
        if v[i].0 == index {
            return Some(i);
        }
        i += 1;
    }
    proof {
        assert(forall|j: int| 0 <= j < dpairs(v@).len() ==> dpairs(v@)[j].0 != index);
    }
    None
}

pub fn position_by_loc(v: &Vec<(u16, Location)>, who: &Location) -> (r: Option<usize>)
    ensures
        match r {
            Some(i) => i < v@.len() && v@[i as int].1@ == who@,
            None => !has_loc(dpairs(v@), who@),
        },
{
    let n = v.len();
    let mut i: usize = 0;
    while i < n
        invariant
            0 <= i <= n,
            n == v@.len(),
            forall|j: int| 0 <= j < i ==> v@[j].1@ != who@,
        decreases n - i,
    {
        if v[i].1.matches(who) {
            return Some(i);
        }
        i += 1;
    }
    proof {
        assert(forall|j: int| 0 <= j < dpairs(v@).len() ==> dpairs(v@)[j].1 != who@);
    }
    None
}

pub fn position_by_key<V>(v: &Vec<(Location, V)>, who: &Location) -> (r: Option<usize>)
    ensures
        match r {
            Some(i) => i < v@.len() && v@[i as int].0@ == who@,
            None => forall|j: int| 0 <= j < v@.len() ==> v@[j].0@ != who@,
        },
{
    let n = v.len();
    let mut i: usize = 0;
    while i < n
        invariant
            0 <= i <= n,
            n == v@.len(),
            forall|j: int| 0 <= j < i ==> v@[j].0@ != who@,
        decreases n - i,
    {
        if v[i].0.matches(who) {
            return Some(i);
        }
        i += 1;
    }
    None
}

pub fn position_of_loc(v: &Vec<Location>, who: &Location) -> (r: Option<usize>)
    ensures
        match r {
            Some(i) => i < v@.len() && v@[i as int]@ == who@,
            None => !vlocs(v@).contains(who@),
        },
{
    let n = v.len();
    let mut i: usize = 0;
    while i < n
        invariant
            0 <= i <= n,
            n == v@.len(),
            forall|j: int| 0 <= j < i ==> v@[j]@ != who@,
        decreases n - i,
    {
        if v[i].matches(who) {
            return Some(i);
        }
        i += 1;
    }
    proof {
        assert(forall|j: int| 0 <= j < vlocs(v@).len() ==> vlocs(v@)[j] != who@);
    }
    None
}

} // verus!
