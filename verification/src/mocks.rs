use vstd::prelude::*;

use crate::capabilities::{
    AccountId,
    AddressMapping,
    FeeWeightPolicy,
    PoolAccounting,
    Weight,
    XcmOperationType,
};
use crate::location::{Junction, LocV, Location};
use crate::messenger::{BridgeRouting, MessageTransport, Outcome, XcmMessage};
use crate::state::AssetClass;
use crate::time::TimeUnit;

verus! {

/// The 32-byte account a location names in its last junction, if any.
pub open spec fn loc_account_bytes(loc: LocV) -> Option<[u8; 32]> {
    if loc.interior.len() > 0 {
        match loc.interior.last() {
            Junction::AccountId32 { id } => Some(id),
            _ => None,
        }
    } else {
        None
    }
}

fn last_account_bytes(loc: &Location) -> (r: Option<[u8; 32]>)
    ensures
        r == loc_account_bytes(loc@),
{
    let n = loc.interior.len();
    if n == 0 {
        return None;
    }
    match loc.interior[n - 1] {
        Junction::AccountId32 { id } => Some(id),
        _ => None,
    }
}

fn copy_bytes(v: &Vec<u8>) -> (r: Vec<u8>)
    ensures
        r@ == v@,
{
    let mut out: Vec<u8> = Vec::new();
    let n = v.len();
    let mut i: usize = 0;
    while i < n
        invariant
            0 <= i <= n,
            n == v@.len(),
            out@.len() == i,
            forall|j: int| 0 <= j < i ==> out@[j] == v@[j],
        decreases n - i,
    {
        out.push(v[i]);
        i += 1;
    }
    proof {
        assert(out@ =~= v@);
    }
    out
}

/// An in-memory pool accounting for one asset class: one issuance, one
/// stake pool, one ongoing epoch, and one tracked beneficiary balance.
pub struct MockPool {
    pub asset: AssetClass,
    pub issuance: u128,
    pub pool: u128,
    pub epoch: Option<TimeUnit>,
    pub entrance: AccountId,
    pub exit: AccountId,
    pub holder: AccountId,
    pub holder_balance: u128,
    pub accept_increase: bool,
    pub accept_deposit: bool,
}

impl PoolAccounting for MockPool {
    open spec fn issuance_spec(&self, asset: AssetClass) -> u128 {
        if asset == self.asset {
            self.issuance
        } else {
            0
        }
    }

    open spec fn pool_spec(&self, asset: AssetClass) -> u128 {
        if asset == self.asset {
            self.pool
        } else {
            0
        }
    }

    open spec fn epoch_spec(&self, asset: AssetClass) -> Option<TimeUnit> {
        if asset == self.asset {
            self.epoch
        } else {
            None
        }
    }

    open spec fn entrance_account_spec(&self) -> AccountId {
        self.entrance
    }

    open spec fn exit_account_spec(&self) -> AccountId {
        self.exit
    }

    open spec fn balance_spec(&self, asset: AssetClass, account: AccountId) -> u128 {
        if asset == self.asset && account == self.holder {
            self.holder_balance
        } else {
            0
        }
    }

    fn total_issuance(&self, asset: AssetClass) -> (r: u128) {
        if asset == self.asset {
            self.issuance
        } else {
            0
        }
    }

    fn get_token_pool(&self, asset: AssetClass) -> (r: u128) {
        if asset == self.asset {
            self.pool
        } else {
            0
        }
    }

    fn get_ongoing_time_unit(&self, asset: AssetClass) -> (r: Option<TimeUnit>) {
        if asset == self.asset {
            self.epoch
        } else {
            None
        }
    }

    fn get_entrance_and_exit_accounts(&self) -> (r: (AccountId, AccountId)) {
        (self.entrance, self.exit)
    }

    fn increase_token_pool(&mut self, asset: AssetClass, amount: u128) -> (r: Result<(), ()>) {
        if !self.accept_increase {
            return Err(());
        }
        if asset == self.asset {
            match self.pool.checked_add(amount) {
                Some(n) => {
                    self.pool = n;
                    Ok(())
                },
                None => Err(()),
            }
        } else {
            Err(())
        }
    }

    fn deposit(&mut self, asset: AssetClass, account: &AccountId, amount: u128) -> (r: Result<
        (),
        (),
    >) {
        if !self.accept_deposit {
            return Err(());
        }
        if asset == self.asset && account.matches(&self.holder) {
            match self.holder_balance.checked_add(amount) {
                Some(n) => {
                    self.holder_balance = n;
                    Ok(())
                },
                None => Err(()),
            }
        } else {
            Err(())
        }
    }
}

/// An address mapping that reads the 32-byte account out of the
/// location's last junction.
pub struct MockMapper {}

impl AddressMapping for MockMapper {
    open spec fn remote_to_local_spec(&self, loc: LocV) -> Option<AccountId> {
        match loc_account_bytes(loc) {
            Some(id) => Some(AccountId(id)),
            None => None,
        }
    }

    open spec fn to_bytes32_spec(&self, loc: LocV) -> Option<[u8; 32]> {
        loc_account_bytes(loc)
    }

    fn multilocation_to_account(&self, loc: &Location) -> (r: Option<AccountId>) {
        match last_account_bytes(loc) {
            Some(id) => Some(AccountId(id)),
            None => None,
        }
    }

    fn multilocation_to_account_32(&self, loc: &Location) -> (r: Option<[u8; 32]>) {
        last_account_bytes(loc)
    }
}

/// A fee policy with one configured entry for one asset class, priced the
/// same for every operation kind.
pub struct MockFeePolicy {
    pub asset: AssetClass,
    pub entry: Option<(Weight, u128)>,
}

impl FeeWeightPolicy for MockFeePolicy {
    open spec fn weight_and_fee_spec(&self, asset: AssetClass, operation: XcmOperationType) -> Option<
        (Weight, u128),
    > {
        if asset == self.asset {
            self.entry
        } else {
            None
        }
    }

    fn get_operation_weight_and_fee(&self, asset: AssetClass, operation: XcmOperationType) -> (r:
        Option<(Weight, u128)>) {
        if asset == self.asset {
            self.entry
        } else {
            None
        }
    }
}

/// A transport that records every dispatched message and answers with a
/// fixed outcome.
pub struct MockTransport {
    pub outcome: Outcome,
    pub log: Vec<XcmMessage>,
}

impl MessageTransport for MockTransport {
    fn execute_in_credit(
        &mut self,
        origin: &Location,
        message: XcmMessage,
        weight_bought: Weight,
        weight_credited: Weight,
    ) -> (r: Outcome) {
        self.log.push(message);
        self.outcome
    }
}

/// A bridge routing with one configured destination; the receiver encoding
/// is the account named by the location, and the payload echoes the
/// receiver.
pub struct MockBridge {
    pub asset: AssetClass,
    pub network: Option<(u32, u32)>,
    pub give_receiver: bool,
    pub give_payload: bool,
    pub accept_send: bool,
    pub sent: Vec<Vec<u8>>,
}

impl BridgeRouting for MockBridge {
    open spec fn network_and_id_spec(&self, asset: AssetClass) -> Option<(u32, u32)> {
        if asset == self.asset {
            self.network
        } else {
            None
        }
    }

    open spec fn receiver_spec(&self, asset: AssetClass, loc: LocV) -> Option<Seq<u8>> {
        if self.give_receiver && asset == self.asset {
            match loc_account_bytes(loc) {
                Some(id) => Some(id@),
                None => None,
            }
        } else {
            None
        }
    }

    open spec fn payload_spec(
        &self,
        operation: XcmOperationType,
        asset: AssetClass,
        amount: u128,
        receiver: Seq<u8>,
    ) -> Option<Seq<u8>> {
        if self.give_payload {
            Some(receiver)
        } else {
            None
        }
    }

    fn get_chain_network_and_id(&self, asset: AssetClass) -> (r: Option<(u32, u32)>) {
        if asset == self.asset {
            self.network
        } else {
            None
        }
    }

    fn get_receiver_from_multilocation(&self, asset: AssetClass, loc: &Location) -> (r: Option<
        Vec<u8>,
    >) {
        if self.give_receiver && asset == self.asset {
            match last_account_bytes(loc) {
                Some(id) => {
                    let mut out: Vec<u8> = Vec::new();
                    let mut i: usize = 0;
                    while i < 32
                        invariant
                            0 <= i <= 32,
                            out@.len() == i,
                            forall|j: int| 0 <= j < i ==> out@[j] == id@[j],
                        decreases 32 - i,
                    {
                        out.push(id[i]);
                        i += 1;
                    }
                    proof {
                        assert(out@ =~= id@);
                    }
                    Some(out)
                },
                None => None,
            }
        } else {
            None
        }
    }

    fn get_cross_out_payload(
        &self,
        operation: XcmOperationType,
        asset: AssetClass,
        amount: u128,
        receiver: &Vec<u8>,
    ) -> (r: Option<Vec<u8>>) {
        if self.give_payload {
            Some(copy_bytes(receiver))
        } else {
            None
        }
    }

    fn send_message_to_anchor(&mut self, fee_payer: &AccountId, chain: u32, payload: &Vec<u8>) -> (r:
        Result<(), ()>) {
        if self.accept_send {
            self.sent.push(copy_bytes(payload));
            Ok(())
        } else {
            Err(())
        }
    }
}

} // verus!
