use vstd::prelude::*;

use crate::capabilities::{AccountId, AddressMapping, FeeWeightPolicy, PoolAccounting, Weight, XcmOperationType};
use crate::errors::Error;
use crate::location::{LocV, Location};
use crate::state::{has_loc, AssetClass, StakingCore};

verus! {

/// A concrete fungible asset to move: which asset, by its location, and
/// how much of it.
#[derive(Clone, PartialEq, Eq, Debug)]
pub struct XcmAsset {
    pub location: Location,
    pub amount: u128,
}

/// The mathematical value of an asset to move.
pub struct XcmAssetV {
    pub location: LocV,
    pub amount: u128,
}

impl View for XcmAsset {
    type V = XcmAssetV;

    open spec fn view(&self) -> XcmAssetV {
        XcmAssetV { location: self.location@, amount: self.amount }
    }
}

/// A bound on the weight a remote chain may charge for execution.
#[derive(Clone, Copy, PartialEq, Eq, Structural, Debug)]
pub enum WeightLimit {
    Unlimited,
    Limited(Weight),
}

/// Which of the assets in the current holding an instruction applies to.
#[derive(Clone, Copy, PartialEq, Eq, Structural, Debug)]
pub enum AssetFilter {
    All,
    AllCounted(u32),
}

/// An instruction of the inner message executed on the reserve chain:
/// buy execution with a fee asset, or deposit what is left.
#[derive(Clone, PartialEq, Eq, Debug)]
pub enum InnerInstruction {
    BuyExecution { fees: XcmAsset, weight_limit: WeightLimit },
    DepositAsset { assets: AssetFilter, beneficiary: Location },
}

/// The mathematical value of an inner instruction.
pub enum InnerInstructionV {
    BuyExecution { fees: XcmAssetV, weight_limit: WeightLimit },
    DepositAsset { assets: AssetFilter, beneficiary: LocV },
}

impl View for InnerInstruction {
    type V = InnerInstructionV;

    open spec fn view(&self) -> InnerInstructionV {
        match self {
            InnerInstruction::BuyExecution { fees, weight_limit } => InnerInstructionV::BuyExecution {
                fees: fees@,
                weight_limit: *weight_limit,
            },
            InnerInstruction::DepositAsset { assets, beneficiary } => InnerInstructionV::DepositAsset {
                assets: *assets,
                beneficiary: beneficiary@,
            },
        }
    }
}

/// An instruction of the outbound message: withdraw assets locally, or
/// initiate a reserve-based withdrawal that runs an inner message on the
/// reserve chain.
#[derive(Clone, PartialEq, Eq, Debug)]
pub enum Instruction {
    WithdrawAsset(Vec<XcmAsset>),
    InitiateReserveWithdraw { assets: AssetFilter, reserve: Location, xcm: Vec<InnerInstruction> },
}

/// The mathematical value of an outbound instruction.
pub enum InstructionV {
    WithdrawAsset(Seq<XcmAssetV>),
    InitiateReserveWithdraw { assets: AssetFilter, reserve: LocV, xcm: Seq<InnerInstructionV> },
}

impl View for Instruction {
    type V = InstructionV;

    open spec fn view(&self) -> InstructionV {
        match self {
            Instruction::WithdrawAsset(assets) => InstructionV::WithdrawAsset(
                assets@.map_values(|x: XcmAsset| x@),
            ),
            Instruction::InitiateReserveWithdraw { assets, reserve, xcm } => InstructionV::InitiateReserveWithdraw {
                assets: *assets,
                reserve: reserve@,
                xcm: xcm@.map_values(|x: InnerInstruction| x@),
            },
        }
    }
}

/// An ordered outbound cross-chain message.
#[derive(Clone, PartialEq, Eq, Debug)]
pub struct XcmMessage {
    pub instructions: Vec<Instruction>,
}

impl View for XcmMessage {
    type V = Seq<InstructionV>;

    open spec fn view(&self) -> Seq<InstructionV> {
        self.instructions@.map_values(|x: Instruction| x@)
    }
}

/// What became of a dispatched message: fully executed, stopped partway,
/// or not executed at all.
#[derive(Clone, Copy, PartialEq, Eq, Structural, Debug)]
pub enum Outcome {
    Complete,
    Incomplete,
    Error,
}

/// The message-transport capability: execute an outbound message with
/// bought and credited weight. What a remote execution returns is the
/// transport's business; nothing is promised of the outcome.
pub trait MessageTransport: Sized {
    fn execute_in_credit(
        &mut self,
        origin: &Location,
        message: XcmMessage,
        weight_bought: Weight,
        weight_credited: Weight,
    ) -> (r: Outcome);
}

/// The bridge-routing capability: the destination chain's network and
/// routing identity, the receiver encoding for that chain, the
/// operation-specific payload, and the anchor send. The three lookups are
/// functions of the implementation's state, so contracts over them are
/// exact; nothing is promised of the send.
pub trait BridgeRouting: Sized {
    spec fn network_and_id_spec(&self, asset: AssetClass) -> Option<(u32, u32)>;

    spec fn receiver_spec(&self, asset: AssetClass, loc: LocV) -> Option<Seq<u8>>;

    spec fn payload_spec(
        &self,
        operation: XcmOperationType,
        asset: AssetClass,
        amount: u128,
        receiver: Seq<u8>,
    ) -> Option<Seq<u8>>;

    fn get_chain_network_and_id(&self, asset: AssetClass) -> (r: Option<(u32, u32)>)
        ensures
            r == self.network_and_id_spec(asset),
    ;

    fn get_receiver_from_multilocation(&self, asset: AssetClass, loc: &Location) -> (r: Option<
        Vec<u8>,
    >)
        ensures
            match r {
                Some(v) => self.receiver_spec(asset, loc@) == Some(v@),
                None => self.receiver_spec(asset, loc@) is None,
            },
    ;

    fn get_cross_out_payload(
        &self,
        operation: XcmOperationType,
        asset: AssetClass,
        amount: u128,
        receiver: &Vec<u8>,
    ) -> (r: Option<Vec<u8>>)
        ensures
            match r {
                Some(v) => self.payload_spec(operation, asset, amount, receiver@) == Some(v@),
                None => self.payload_spec(operation, asset, amount, receiver@) is None,
            },
    ;

    fn send_message_to_anchor(&mut self, fee_payer: &AccountId, chain: u32, payload: &Vec<u8>) -> (r:
        Result<(), ()>);
}

/// The fixed shape of an outbound transfer: withdraw the given assets,
/// then initiate a reserve-based withdrawal routed to the destination
/// whose inner message buys execution with the fee asset and deposits
/// everything to the beneficiary.
pub open spec fn transfer_message_spec(
    assets: Seq<XcmAssetV>,
    reserve: LocV,
    fee: XcmAssetV,
    weight: Weight,
    beneficiary: LocV,
) -> Seq<InstructionV> {
    seq![
        InstructionV::WithdrawAsset(assets),
        InstructionV::InitiateReserveWithdraw {
            assets: AssetFilter::All,
            reserve,
            xcm: seq![
                InnerInstructionV::BuyExecution {
                    fees: fee,
                    weight_limit: WeightLimit::Limited(weight),
                },
                InnerInstructionV::DepositAsset {
                    assets: AssetFilter::AllCounted(1),
                    beneficiary,
                },
            ],
        },
    ]
}

/// Build the two-step transfer message; the builder, not caller
/// discipline, fixes the instruction order and the nested fee purchase.
pub fn build_transfer_message(
    assets: Vec<XcmAsset>,
    reserve: &Location,
    fee: XcmAsset,
    weight: Weight,
    beneficiary: &Location,
) -> (m: XcmMessage)
    ensures
        m@ =~= transfer_message_spec(
            assets@.map_values(|x: XcmAsset| x@),
            reserve@,
            fee@,
            weight,
            beneficiary@,
        ),
{
    let mut inner: Vec<InnerInstruction> = Vec::new();
    inner.push(InnerInstruction::BuyExecution { fees: fee, weight_limit: WeightLimit::Limited(weight) });
    inner.push(
        InnerInstruction::DepositAsset {
            assets: AssetFilter::AllCounted(1),
            beneficiary: beneficiary.duplicate(),
        },
    );
    let mut instructions: Vec<Instruction> = Vec::new();
    instructions.push(Instruction::WithdrawAsset(assets));
    instructions.push(
        Instruction::InitiateReserveWithdraw {
            assets: AssetFilter::All,
            reserve: reserve.duplicate(),
            xcm: inner,
        },
    );
    let m = XcmMessage { instructions };
    proof {
        assert(inner@.map_values(|x: InnerInstruction| x@) =~= seq![
            InnerInstructionV::BuyExecution {
                fees: fee@,
                weight_limit: WeightLimit::Limited(weight),
            },
            InnerInstructionV::DepositAsset {
                assets: AssetFilter::AllCounted(1),
                beneficiary: beneficiary@,
            },
        ]);
    }
    m
}

impl StakingCore {
    /// Whether the location is a registered delegator of the class.
    pub fn is_delegator(&self, a: AssetClass, who: &Location) -> (r: bool)
        requires
            self.wf(),
        ensures
            r == has_loc(self.class_view(a).delegators, who@),
    {
        match self.find_class(a) {
            None => false,
            Some(i) => {
                proof {
                    crate::state::lemma_class_at(*self, i as int);
                }
                let rec = &self.classes[i];
                let ghost cv = self.class_view(a);
                match crate::state::position_by_loc(&rec.delegators, who) {
                    Some(p) => {
                        proof {
                            assert(cv.delegators[p as int].1 == who@);
                        }
                        true
                    },
                    None => false,
                }
            },
        }
    }

    /// Resolve the destination and beneficiary for a transfer back to the
    /// local chain: the sender must be a registered delegator, and the
    /// receiver must map to the configured exit account; the destination
    /// is the local chain's own parachain identity and the beneficiary the
    /// receiver's 32-byte account form.
    pub fn get_transfer_back_dest_and_beneficiary<P: PoolAccounting, M: AddressMapping>(
        &self,
        pool: &P,
        mapper: &M,
        from: &Location,
        to: &Location,
        currency_id: AssetClass,
    ) -> (r: Result<(Location, Location), Error>)
        requires
            self.wf(),
        ensures
            !has_loc(self.class_view(currency_id).delegators, from@) ==> r == Err::<
                (Location, Location),
                Error,
            >(Error::DelegatorNotExist),
            has_loc(self.class_view(currency_id).delegators, from@) ==> match (
                mapper.remote_to_local_spec(to@),
                mapper.to_bytes32_spec(to@),
            ) {
                (None, _) => r == Err::<(Location, Location), Error>(
                    Error::AccountIdConversionFailed,
                ),
                (Some(acct), bytes) => {
                    if acct != pool.exit_account_spec() {
                        r == Err::<(Location, Location), Error>(Error::InvalidAccount)
                    } else {
                        match bytes {
                            None => r == Err::<(Location, Location), Error>(
                                Error::AccountIdConversionFailed,
                            ),
                            Some(to_32) => match r {
                                Ok((dest, beneficiary)) => dest@.parents == 0 && dest@.interior
                                    =~= seq![
                                    crate::location::Junction::Parachain(self.parachain_id),
                                ] && beneficiary@.parents == 0 && beneficiary@.interior =~= seq![
                                    crate::location::Junction::AccountId32 { id: to_32 },
                                ],
                                Err(_) => false,
                            },
                        }
                    }
                },
            },
    {
        if !self.is_delegator(currency_id, from) {
            return Err(Error::DelegatorNotExist);
        }
        let to_account = match mapper.multilocation_to_account(to) {
            Some(acct) => acct,
            None => {
                return Err(Error::AccountIdConversionFailed);
            },
        };
        let (_, exit_account) = pool.get_entrance_and_exit_accounts();
        if !to_account.matches(&exit_account) {
            return Err(Error::InvalidAccount);
        }
        let to_32 = match mapper.multilocation_to_account_32(to) {
            Some(b) => b,
            None => {
                return Err(Error::AccountIdConversionFailed);
            },
        };
        let dest = Location::local_parachain(self.parachain_id);
        let beneficiary = Location::local_account32(to_32);
        Ok((dest, beneficiary))
    }

    /// Send the given assets from a locally-rooted source to a remote
    /// destination: withdraw them, initiate a reserve-based withdrawal,
    /// buy execution with the configured fee, and deposit to the
    /// receiver's local account form; dispatched in credit with the
    /// configured weight. A non-complete outcome is an `XcmFailure`.
    pub fn transfer_to_remote<F: FeeWeightPolicy, M: AddressMapping, T: MessageTransport>(
        &self,
        policy: &F,
        mapper: &M,
        transport: &mut T,
        from: &Location,
        to: &Location,
        amount: u128,
        currency_id: AssetClass,
        assets: Vec<XcmAsset>,
        dest: &Location,
    ) -> (r: Result<(), Error>)
        ensures
            amount == 0 ==> r == Err::<(), Error>(Error::AmountZero)
                && *final(transport) == *old(transport),
            amount != 0 && from@.parents != 0 ==> r == Err::<(), Error>(Error::InvalidTransferSource)
                && *final(transport) == *old(transport),
            amount != 0 && from@.parents == 0 && policy.weight_and_fee_spec(
                currency_id,
                XcmOperationType::TransferTo,
            ) is None ==> r == Err::<(), Error>(Error::WeightAndFeeNotExists)
                && *final(transport) == *old(transport),
            amount != 0 && from@.parents == 0 && policy.weight_and_fee_spec(
                currency_id,
                XcmOperationType::TransferTo,
            ) is Some && mapper.to_bytes32_spec(to@) is None ==> r == Err::<(), Error>(
                Error::AccountIdConversionFailed,
            ) && *final(transport) == *old(transport),
            amount != 0 && from@.parents == 0 && policy.weight_and_fee_spec(
                currency_id,
                XcmOperationType::TransferTo,
            ) is Some && mapper.to_bytes32_spec(to@) is Some ==> (r == Ok::<(), Error>(()) || r
                == Err::<(), Error>(Error::XcmFailure)),
    {
        if amount == 0 {
            return Err(Error::AmountZero);
        }
        if from.parents != 0 {
            return Err(Error::InvalidTransferSource);
        }
        let (weight, fee_amount) = match policy.get_operation_weight_and_fee(
            currency_id,
            XcmOperationType::TransferTo,
        ) {
            Some(wf) => wf,
            None => {
                return Err(Error::WeightAndFeeNotExists);
            },
        };
        let to_32 = match mapper.multilocation_to_account_32(to) {
            Some(b) => b,
            None => {
                return Err(Error::AccountIdConversionFailed);
            },
        };
        let beneficiary = Location::local_account32(to_32);
        let fee_asset = XcmAsset { location: Location::here(), amount: fee_amount };
        let message = build_transfer_message(assets, dest, fee_asset, weight, &beneficiary);
        let outcome = transport.execute_in_credit(from, message, weight, weight);
        match outcome {
            Outcome::Complete => Ok(()),
            _ => Err(Error::XcmFailure),
        }
    }

    /// Relay an operation to a remote chain through the bridge: resolve
    /// the chain's network and routing id, encode the receiver, build the
    /// operation payload, and hand it to the anchor transport. Each leg
    /// maps to its own error.
    pub fn send_message<B: BridgeRouting>(
        &self,
        bridge: &mut B,
        operation: XcmOperationType,
        fee_payer: &AccountId,
        to_location: &Location,
        amount: u128,
        currency_id: AssetClass,
        dest_native_currency_id: AssetClass,
    ) -> (r: Result<(), Error>)
        ensures
            old(bridge).network_and_id_spec(dest_native_currency_id) is None ==> r == Err::<
                (),
                Error,
            >(Error::NetworkIdError) && *final(bridge) == *old(bridge),
            old(bridge).network_and_id_spec(dest_native_currency_id) is Some && old(
                bridge,
            ).receiver_spec(dest_native_currency_id, to_location@) is None ==> r == Err::<(), Error>(
                Error::FailToConvert,
            ) && *final(bridge) == *old(bridge),
            match (
                old(bridge).network_and_id_spec(dest_native_currency_id),
                old(bridge).receiver_spec(dest_native_currency_id, to_location@),
            ) {
                (Some(_), Some(receiver)) => {
                    if old(bridge).payload_spec(operation, currency_id, amount, receiver) is None {
                        r == Err::<(), Error>(Error::FailToGetPayload) && *final(bridge) == *old(
                            bridge,
                        )
                    } else {
                        r == Ok::<(), Error>(()) || r == Err::<(), Error>(
                            Error::FailToSendCrossOutMessage,
                        )
                    }
                },
                _ => true,
            },
    {
        let (_network_id, dst_chain) = match bridge.get_chain_network_and_id(
            dest_native_currency_id,
        ) {
            Some(ids) => ids,
            None => {
                return Err(Error::NetworkIdError);
            },
        };
        let receiver = match bridge.get_receiver_from_multilocation(
            dest_native_currency_id,
            to_location,
        ) {
            Some(v) => v,
            None => {
                return Err(Error::FailToConvert);
            },
        };
        let payload = match bridge.get_cross_out_payload(operation, currency_id, amount, &receiver) {
            Some(p) => p,
            None => {
                return Err(Error::FailToGetPayload);
            },
        };
        match bridge.send_message_to_anchor(fee_payer, dst_chain, &payload) {
            Ok(()) => Ok(()),
            Err(()) => Err(Error::FailToSendCrossOutMessage),
        }
    }
}

} // verus!
