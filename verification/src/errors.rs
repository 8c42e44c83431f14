use vstd::prelude::*;

verus! {

/// Failure taxonomy of the staking core. Every operation returns one of
/// these as an ordinary control-flow outcome; no failure leaves a partial
/// mutation behind.
#[derive(Clone, Copy, PartialEq, Eq, Structural, Debug)]
pub enum Error {
    /// A registry or policy entry is already present.
    AlreadyExist,
    /// A required registry or policy entry is missing.
    NotExist,
    /// A bounded collection would exceed its policy cap.
    GreaterThanMaximum,
    /// A bounded collection would exceed its hard structural cap.
    ExceedMaxLengthLimit,
    /// The referenced delegator is not registered.
    DelegatorNotExist,
    /// The asset class has no validator set at all.
    ValidatorSetNotExist,
    /// The referenced validator is absent from the validator set.
    ValidatorNotExist,
    /// The referenced delegator has no bonding ledger.
    DelegatorNotBonded,
    /// An amount argument was zero.
    AmountZero,
    /// A counter would wrap.
    Overflow,
    /// The external epoch source has no ongoing epoch configured.
    TimeUnitNotExist,
    /// No tuning rate limit is configured for the asset class.
    TuneExchangeRateLimitNotSet,
    /// The delegator has already tuned within the current epoch.
    DelegatorAlreadyTuned,
    /// The external pool accounting rejected an update.
    IncreaseTokenPoolError,
    /// The transfer source is not a locally-rooted address.
    InvalidTransferSource,
    /// The receiving account is not the configured exit account.
    InvalidAccount,
    /// No weight and fee are configured for the operation.
    WeightAndFeeNotExists,
    /// The dispatched cross-chain message did not complete.
    XcmFailure,
    /// The bridge routing could not resolve the destination network.
    NetworkIdError,
    /// The receiver encoding for the destination chain failed.
    FailToConvert,
    /// The operation-specific payload could not be built.
    FailToGetPayload,
    /// The anchor messaging transport rejected the payload.
    FailToSendCrossOutMessage,
    /// A remote address could not be mapped to a local account.
    AccountIdConversionFailed,
}

} // verus!
