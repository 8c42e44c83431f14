use vstd::prelude::*;

verus! {

broadcast use vstd::array::group_array_axioms;

/// One step of a remote-chain address path: either a sibling or child
/// parachain, or a 32-byte account.
#[derive(Clone, Copy, PartialEq, Eq, Debug)]
pub enum Junction {
    Parachain(u32),
    AccountId32 { id: [u8; 32] },
}

/// A remote-chain address: how many steps up towards the relay chain,
/// then a path of junctions downwards.
#[derive(Clone, PartialEq, Eq, Debug)]
pub struct Location {
    pub parents: u8,
    pub interior: Vec<Junction>,
}

/// The mathematical value of a [`Location`].
pub struct LocV {
    pub parents: u8,
    pub interior: Seq<Junction>,
}

impl View for Location {
    type V = LocV;

    open spec fn view(&self) -> LocV {
        LocV { parents: self.parents, interior: self.interior@ }
    }
}

fn eq_bytes32(a: &[u8; 32], b: &[u8; 32]) -> (r: bool)
    ensures
        r == (a == b),
{
    let mut i: usize = 0;
    while i < 32
        invariant
            0 <= i <= 32,
            forall|j: int| 0 <= j < i ==> a@[j] == b@[j],
        decreases 32 - i,
    {
        if a[i] != b[i] {
            return false;
        }
        i += 1;
    }
    proof {
        assert(a@ =~= b@);
        assert(a =~= b);
    }
    true
}

impl Junction {
    /// Structural equality of two junctions.
    pub fn matches(&self, other: &Junction) -> (r: bool)
        ensures
            r == (self == other),
    {
        match (self, other) {
            (Junction::Parachain(a), Junction::Parachain(b)) => a == b,
            (Junction::AccountId32 { id: a }, Junction::AccountId32 { id: b }) => eq_bytes32(a, b),
            _ => false,
        }
    }
}

impl Location {
    /// Structural equality of two locations.
    pub fn matches(&self, other: &Location) -> (r: bool)
        ensures
            r == (self@ == other@),
    {
        if self.parents != other.parents {
            return false;
        }
        if self.interior.len() != other.interior.len() {
            proof {
                assert(self@.interior.len() != other@.interior.len());
            }
            return false;
        }
        let n = self.interior.len();
        let mut i: usize = 0;
        while i < n
            invariant
                0 <= i <= n,
                n == self.interior@.len(),
                n == other.interior@.len(),
                forall|j: int| 0 <= j < i ==> self.interior@[j] == other.interior@[j],
            decreases n - i,
        {
            if !self.interior[i].matches(&other.interior[i]) {
                return false;
            }
            i += 1;
        }
        proof {
            assert(self@.interior =~= other@.interior);
        }
        true
    }

    /// A copy with the same mathematical value.
    pub fn duplicate(&self) -> (r: Location)
        ensures
            r@ == self@,
    {
        let mut interior: Vec<Junction> = Vec::new();
        let n = self.interior.len();
        let mut i: usize = 0;
        while i < n
            invariant
                0 <= i <= n,
                n == self.interior@.len(),
                interior@.len() == i,
                forall|j: int| 0 <= j < i ==> interior@[j] == self.interior@[j],
            decreases n - i,
        {
            interior.push(self.interior[i]);
            i += 1;
        }
        proof {
            assert(interior@ =~= self.interior@);
        }
        Location { parents: self.parents, interior }
    }

    /// The local chain itself: no parents, empty path.
    pub fn here() -> (r: Location)
        ensures
            r@.parents == 0,
            r@.interior =~= Seq::<Junction>::empty(),
    {
        Location { parents: 0, interior: Vec::new() }
    }

    /// A locally-rooted parachain destination.
    pub fn local_parachain(id: u32) -> (r: Location)
        ensures
            r@.parents == 0,
            r@.interior =~= seq![Junction::Parachain(id)],
    {
        let mut interior: Vec<Junction> = Vec::new();
        interior.push(Junction::Parachain(id));
        Location { parents: 0, interior }
    }

    /// A locally-rooted 32-byte account beneficiary.
    pub fn local_account32(id: [u8; 32]) -> (r: Location)
        ensures
            r@.parents == 0,
            r@.interior =~= seq![Junction::AccountId32 { id }],
    {
        let mut interior: Vec<Junction> = Vec::new();
        interior.push(Junction::AccountId32 { id });
        Location { parents: 0, interior }
    }
}

} // verus!
