use vstd::prelude::*;

use crate::location::Location;
use crate::state::AssetClass;
use crate::time::TimeUnit;

verus! {

broadcast use vstd::array::group_array_axioms;

/// A local ledger account, in its 32-byte public-key form.
#[derive(Clone, Copy, PartialEq, Eq, Debug)]
pub struct AccountId(pub [u8; 32]);

impl AccountId {
    /// Structural equality of two accounts.
    pub fn matches(&self, other: &AccountId) -> (r: bool)
        ensures
            r == (self == other),
    {
        let mut i: usize = 0;
        while i < 32
            invariant
                0 <= i <= 32,
                forall|j: int| 0 <= j < i ==> self.0@[j] == other.0@[j],
            decreases 32 - i,
        {
            if self.0[i] != other.0[i] {
                return false;
            }
            i += 1;
        }
        proof {
            assert(self.0@ =~= other.0@);
            assert(self.0 =~= other.0);
        }
        true
    }
}

/// Weight bought and credited for remote execution of a message.
#[derive(Clone, Copy, PartialEq, Eq, Structural, Debug)]
pub struct Weight {
    pub ref_time: u64,
    pub proof_size: u64,
}

/// The kinds of outbound cross-chain operations the fee policy prices.
#[derive(Clone, Copy, PartialEq, Eq, Structural, Debug)]
pub enum XcmOperationType {
    UmpContributeTransact,
    StatemineTransfer,
    Bond,
    WithdrawUnbonded,
    BondExtra,
    Unbond,
    Rebond,
    Delegate,
    Payout,
    Liquidize,
    TransferBack,
    TransferTo,
    Chill,
    Undelegate,
    CancelLeave,
    XtokensTransferBack,
    ExecuteLeave,
    ConvertAsset,
    Vote,
    RemoveVote,
    Any,
    SupplementaryFee,
    EthereumTransfer,
    TeleportAssets,
}

/// The pool-accounting capability: issuance and stake-pool totals of the
/// synthetic token, the ongoing epoch, the configured entrance and exit
/// accounts, and the two updates this core requests. Each reader returns
/// exactly its implementation's spec-level value, so contracts over a
/// given implementation are exact.
pub trait PoolAccounting: Sized {
    spec fn issuance_spec(&self, asset: AssetClass) -> u128;

    spec fn pool_spec(&self, asset: AssetClass) -> u128;

    spec fn epoch_spec(&self, asset: AssetClass) -> Option<TimeUnit>;

    spec fn entrance_account_spec(&self) -> AccountId;

    spec fn exit_account_spec(&self) -> AccountId;

    spec fn balance_spec(&self, asset: AssetClass, account: AccountId) -> u128;

    fn total_issuance(&self, asset: AssetClass) -> (r: u128)
        ensures
            r == self.issuance_spec(asset),
    ;

    fn get_token_pool(&self, asset: AssetClass) -> (r: u128)
        ensures
            r == self.pool_spec(asset),
    ;

    fn get_ongoing_time_unit(&self, asset: AssetClass) -> (r: Option<TimeUnit>)
        ensures
            r == self.epoch_spec(asset),
    ;

    fn get_entrance_and_exit_accounts(&self) -> (r: (AccountId, AccountId))
        ensures
            r.0 == self.entrance_account_spec(),
            r.1 == self.exit_account_spec(),
    ;

    /// Grow the stake pool by the given amount; the implementation may
    /// refuse, and a refusal leaves the pool unchanged.
    fn increase_token_pool(&mut self, asset: AssetClass, amount: u128) -> (r: Result<(), ()>)
        ensures
            r is Ok ==> final(self).pool_spec(asset) == old(self).pool_spec(asset) + amount,
            r is Err ==> final(self).pool_spec(asset) == old(self).pool_spec(asset),
    ;

    /// Credit an account with the given amount of an asset; the
    /// implementation may refuse, and a refusal leaves the balance
    /// unchanged.
    fn deposit(&mut self, asset: AssetClass, account: &AccountId, amount: u128) -> (r: Result<
        (),
        (),
    >)
        ensures
            r is Ok ==> final(self).balance_spec(asset, *account) == old(self).balance_spec(
                asset,
                *account,
            ) + amount,
            r is Err ==> final(self).balance_spec(asset, *account) == old(self).balance_spec(
                asset,
                *account,
            ),
    ;
}

/// The address-mapping capability: resolving a remote location to a local
/// account, and to its raw 32-byte form.
pub trait AddressMapping: Sized {
    spec fn remote_to_local_spec(&self, loc: crate::location::LocV) -> Option<AccountId>;

    spec fn to_bytes32_spec(&self, loc: crate::location::LocV) -> Option<[u8; 32]>;

    fn multilocation_to_account(&self, loc: &Location) -> (r: Option<AccountId>)
        ensures
            r == self.remote_to_local_spec(loc@),
    ;

    fn multilocation_to_account_32(&self, loc: &Location) -> (r: Option<[u8; 32]>)
        ensures
            r == self.to_bytes32_spec(loc@),
    ;
}

/// The fee and weight policy: what it costs to execute each operation kind
/// remotely for a given asset class.
pub trait FeeWeightPolicy: Sized {
    spec fn weight_and_fee_spec(&self, asset: AssetClass, operation: XcmOperationType) -> Option<
        (Weight, u128),
    >;

    fn get_operation_weight_and_fee(&self, asset: AssetClass, operation: XcmOperationType) -> (r:
        Option<(Weight, u128)>)
        ensures
            r == self.weight_and_fee_spec(asset, operation),
    ;
}

} // verus!
