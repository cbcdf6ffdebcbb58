//! Error codes of the contracts.
//!
//! Every error has a stable numeric code: the code that the Soroban host
//! carries in a contract error. `code` gives it, `from_code` reads it back,
//! and the two are proved inverse to each other.
use vstd::prelude::*;

verus! {

/// A declaration of the Soroban host error value, carried through opaquely.
#[verifier::external_type_specification]
#[verifier::external_body]
pub struct ExHostError(soroban_sdk::Error);

/// A declaration of the error that a failed cross-contract call reports.
#[verifier::external_type_specification]
#[verifier::external_body]
pub struct ExInvokeError(soroban_sdk::InvokeError);

/// Whether a host error is of the contract kind, as `Error::is_type` with
/// `ScErrorType::Contract` reads it from the error's bits.
pub uninterp spec fn host_is_contract_of(err: soroban_sdk::Error) -> bool;

/// The numeric code inside a host error, as `Error::get_code` reads it.
pub uninterp spec fn host_code_of(err: soroban_sdk::Error) -> u32;

/// The host error that `Error::from_contract_error` builds for a code.
pub uninterp spec fn host_error_of(code: u32) -> soroban_sdk::Error;

/// Trusted: `soroban_sdk::Error::is_type` with `ScErrorType::Contract`, which tells
/// whether a host error carries a contract-defined code. It reads the error's
/// bits only, so its result is named by `host_is_contract_of`.
#[verifier::external_body]
fn host_error_is_contract(err: &soroban_sdk::Error) -> (r: bool)
    ensures
        r == host_is_contract_of(*err),
{
    err.is_type(soroban_sdk::xdr::ScErrorType::Contract)
}

/// Trusted: `soroban_sdk::Error::get_code`, the numeric code inside a host error,
/// named by `host_code_of`.
#[verifier::external_body]
fn host_error_code(err: &soroban_sdk::Error) -> (r: u32)
    ensures
        r == host_code_of(*err),
{
    err.get_code()
}

/// Trusted: `soroban_sdk::Error::from_contract_error`, which builds the host error
/// of the contract kind carrying `code`; reading it back with `is_type` and
/// `get_code` gives the contract kind and `code` again.
#[verifier::external_body]
fn host_contract_error(code: u32) -> (r: soroban_sdk::Error)
    ensures
        r == host_error_of(code),
        host_is_contract_of(r),
        host_code_of(r) == code,
{
    soroban_sdk::Error::from_contract_error(code)
}

/// Trusted: the `soroban_sdk::InvokeError::Abort` value, used when a host error
/// does not name one of this contract's errors. Nothing is stated of the opaque value.
#[verifier::external_body]
fn invoke_abort() -> soroban_sdk::InvokeError {
    soroban_sdk::InvokeError::Abort
}

/// Errors of the main contract; each variant carries the host error code of its position.
#[derive(Copy, Clone, Debug, PartialEq, Eq, PartialOrd, Ord, Structural)]
pub enum ContractError {
    AlreadyInitialized,
    NotInitialized,
    NotAdmin,
    NoPendingUpgrade,
    UpgradeTimelockNotSatisfied,
    InvalidHeartbeatInterval,
    InvalidNonce,
    AlreadyRegistered,
    NotRegistered,
    InvalidStakeAmount,
    Overflow,
    Unauthorized,
    TargetNotAdmin,
    ProposalAlreadyActive,
    NoActiveProposal,
    AlreadyVoted,
    ThresholdNotReached,
    SignatureExpired,
    InvalidSaltSignature,
    InsufficientStakeForTier,
    InvalidTierConfig,
    FeedAlreadyRegistered,
    PremiumPoolAccessDenied,
    TransferAlreadyPending,
    NoPendingOwner,
    FeeCeilingExceeded,
    DivisionByZero,
    StaleSequence,
    InvalidVarianceConfig,
    StaleTelemetryPayload,
    InsufficientReserveBalance,
    InsufficientVolume,
    InsufficientLiquidityDepth,
    ContractPaused,
    RevokedAddress,
    EmergencyRevocationActive,
    NoActiveEmergencyRevocation,
    BundleAssetLimitExceeded,
    BundleValidationFailed,
    IncompleteQuorum,
    EpochClosed,
    AdminChangePending,
    NoAdminChangePending,
    CosignerCannotBeProposer,
    AdminTimelockNotSatisfied,
    InsufficientBondForPenalty,
    SlippageExceeded,
    AmountTooLow,
    NullifierAlreadyUsed,
    InvalidProof,
    BridgeAssetNotRegistered,
    BridgeInvalidMaxSupply,
    BridgeAssetAlreadyRegistered,
    BridgeInvalidAmount,
    BridgeNotController,
    BridgeSupplyCapExceeded,
    BridgeInsufficientBalance,
    BridgeEscrowNotConfigured,
    ReentrancyDetected,
    UpgradeHealthCheckFailed,
    MathOverflow,
    EventTopicLimitExceeded,
    OrderZeroAmount,
    OrderInvalidPrice,
    OrderNotFound,
    OrderAlreadyClosed,
    OrderInsufficientRemaining,
    OrderNotMaker,
    HtlcNotFound,
    HtlcNotActive,
    InvalidPreImage,
    DeadlineReached,
    DeadlineNotReached,
    DeadlineTooSoon,
    DeadlineTooFar,
    TooManyActiveHtlcs,
    InvalidInput,
    InvalidArgument,
    InvalidDivisionFactor,
    InvalidTickSpacing,
    TickIndexAlreadyExists,
    TickIndexNotFound,
    TickNotAligned,
    TickOutOfBounds,
    TooManyTicks,
    PoolNotFound,
    ZeroSwapAmount,
    EmptyRoute,
    InconsistentRouteAssets,
    RouteExecutionFailed,
    RouteTooLong,
    RoleNotFound,
    RoleExpiredOrMissing,
    RoleExpirationInPast,
    RollbackWindowExpired,
    NoPreviousUpgrade,
    StagingNotAuthorized,
    StaleData,
    RecoveryKeyNotConfigured,
    RecoveryNotAvailableYet,
    EmergencyRevocationAlreadyActive,
    VaultNotInitialized,
    VaultAlreadyInitialized,
    VaultInvalidPerformanceFee,
    VaultZeroAmount,
    VaultInsufficientShares,
    VaultInsufficientBalance,
    VaultPaused,
    NotEmergencyAdmin,
    NotRecoveryKey,
}

/// The error whose code is `code`, if there is one.
pub open spec fn contract_error_of_code(code: u32) -> Option<ContractError> {
    match code {
        1 => Some(ContractError::AlreadyInitialized),
        2 => Some(ContractError::NotInitialized),
        3 => Some(ContractError::NotAdmin),
        4 => Some(ContractError::NoPendingUpgrade),
        5 => Some(ContractError::UpgradeTimelockNotSatisfied),
        6 => Some(ContractError::InvalidHeartbeatInterval),
        7 => Some(ContractError::InvalidNonce),
        8 => Some(ContractError::AlreadyRegistered),
        9 => Some(ContractError::NotRegistered),
        10 => Some(ContractError::InvalidStakeAmount),
        11 => Some(ContractError::Overflow),
        12 => Some(ContractError::Unauthorized),
        13 => Some(ContractError::TargetNotAdmin),
        14 => Some(ContractError::ProposalAlreadyActive),
        15 => Some(ContractError::NoActiveProposal),
        16 => Some(ContractError::AlreadyVoted),
        17 => Some(ContractError::ThresholdNotReached),
        18 => Some(ContractError::SignatureExpired),
        19 => Some(ContractError::InvalidSaltSignature),
        20 => Some(ContractError::InsufficientStakeForTier),
        21 => Some(ContractError::InvalidTierConfig),
        22 => Some(ContractError::FeedAlreadyRegistered),
        23 => Some(ContractError::PremiumPoolAccessDenied),
        24 => Some(ContractError::TransferAlreadyPending),
        25 => Some(ContractError::NoPendingOwner),
        26 => Some(ContractError::FeeCeilingExceeded),
        27 => Some(ContractError::DivisionByZero),
        28 => Some(ContractError::StaleSequence),
        29 => Some(ContractError::InvalidVarianceConfig),
        30 => Some(ContractError::StaleTelemetryPayload),
        31 => Some(ContractError::InsufficientReserveBalance),
        32 => Some(ContractError::InsufficientVolume),
        33 => Some(ContractError::InsufficientLiquidityDepth),
        34 => Some(ContractError::ContractPaused),
        35 => Some(ContractError::RevokedAddress),
        36 => Some(ContractError::EmergencyRevocationActive),
        37 => Some(ContractError::NoActiveEmergencyRevocation),
        38 => Some(ContractError::BundleAssetLimitExceeded),
        39 => Some(ContractError::BundleValidationFailed),
        40 => Some(ContractError::IncompleteQuorum),
        41 => Some(ContractError::EpochClosed),
        42 => Some(ContractError::AdminChangePending),
        43 => Some(ContractError::NoAdminChangePending),
        44 => Some(ContractError::CosignerCannotBeProposer),
        45 => Some(ContractError::AdminTimelockNotSatisfied),
        46 => Some(ContractError::InsufficientBondForPenalty),
        47 => Some(ContractError::SlippageExceeded),
        48 => Some(ContractError::AmountTooLow),
        49 => Some(ContractError::NullifierAlreadyUsed),
        50 => Some(ContractError::InvalidProof),
        51 => Some(ContractError::BridgeAssetNotRegistered),
        52 => Some(ContractError::BridgeInvalidMaxSupply),
        53 => Some(ContractError::BridgeAssetAlreadyRegistered),
        54 => Some(ContractError::BridgeInvalidAmount),
        55 => Some(ContractError::BridgeNotController),
        56 => Some(ContractError::BridgeSupplyCapExceeded),
        57 => Some(ContractError::BridgeInsufficientBalance),
        58 => Some(ContractError::BridgeEscrowNotConfigured),
        59 => Some(ContractError::ReentrancyDetected),
        60 => Some(ContractError::UpgradeHealthCheckFailed),
        61 => Some(ContractError::MathOverflow),
        62 => Some(ContractError::EventTopicLimitExceeded),
        63 => Some(ContractError::OrderZeroAmount),
        64 => Some(ContractError::OrderInvalidPrice),
        65 => Some(ContractError::OrderNotFound),
        66 => Some(ContractError::OrderAlreadyClosed),
        67 => Some(ContractError::OrderInsufficientRemaining),
        68 => Some(ContractError::OrderNotMaker),
        69 => Some(ContractError::HtlcNotFound),
        70 => Some(ContractError::HtlcNotActive),
        71 => Some(ContractError::InvalidPreImage),
        72 => Some(ContractError::DeadlineReached),
        73 => Some(ContractError::DeadlineNotReached),
        74 => Some(ContractError::DeadlineTooSoon),
        75 => Some(ContractError::DeadlineTooFar),
        76 => Some(ContractError::TooManyActiveHtlcs),
        77 => Some(ContractError::InvalidInput),
        78 => Some(ContractError::InvalidArgument),
        79 => Some(ContractError::InvalidDivisionFactor),
        80 => Some(ContractError::InvalidTickSpacing),
        81 => Some(ContractError::TickIndexAlreadyExists),
        82 => Some(ContractError::TickIndexNotFound),
        83 => Some(ContractError::TickNotAligned),
        84 => Some(ContractError::TickOutOfBounds),
        85 => Some(ContractError::TooManyTicks),
        86 => Some(ContractError::PoolNotFound),
        87 => Some(ContractError::ZeroSwapAmount),
        88 => Some(ContractError::EmptyRoute),
        89 => Some(ContractError::InconsistentRouteAssets),
        90 => Some(ContractError::RouteExecutionFailed),
        91 => Some(ContractError::RouteTooLong),
        92 => Some(ContractError::RoleNotFound),
        93 => Some(ContractError::RoleExpiredOrMissing),
        94 => Some(ContractError::RoleExpirationInPast),
        95 => Some(ContractError::RollbackWindowExpired),
        96 => Some(ContractError::NoPreviousUpgrade),
        97 => Some(ContractError::StagingNotAuthorized),
        98 => Some(ContractError::StaleData),
        99 => Some(ContractError::RecoveryKeyNotConfigured),
        100 => Some(ContractError::RecoveryNotAvailableYet),
        101 => Some(ContractError::EmergencyRevocationAlreadyActive),
        102 => Some(ContractError::VaultNotInitialized),
        103 => Some(ContractError::VaultAlreadyInitialized),
        104 => Some(ContractError::VaultInvalidPerformanceFee),
        105 => Some(ContractError::VaultZeroAmount),
        106 => Some(ContractError::VaultInsufficientShares),
        107 => Some(ContractError::VaultInsufficientBalance),
        108 => Some(ContractError::VaultPaused),
        109 => Some(ContractError::NotEmergencyAdmin),
        110 => Some(ContractError::NotRecoveryKey),
        _ => None,
    }
}

impl ContractError {
    /// The numeric code of this error.
    pub open spec fn code_spec(self) -> u32 {
        match self {
            ContractError::AlreadyInitialized => 1,
            ContractError::NotInitialized => 2,
            ContractError::NotAdmin => 3,
            ContractError::NoPendingUpgrade => 4,
            ContractError::UpgradeTimelockNotSatisfied => 5,
            ContractError::InvalidHeartbeatInterval => 6,
            ContractError::InvalidNonce => 7,
            ContractError::AlreadyRegistered => 8,
            ContractError::NotRegistered => 9,
            ContractError::InvalidStakeAmount => 10,
            ContractError::Overflow => 11,
            ContractError::Unauthorized => 12,
            ContractError::TargetNotAdmin => 13,
            ContractError::ProposalAlreadyActive => 14,
            ContractError::NoActiveProposal => 15,
            ContractError::AlreadyVoted => 16,
            ContractError::ThresholdNotReached => 17,
            ContractError::SignatureExpired => 18,
            ContractError::InvalidSaltSignature => 19,
            ContractError::InsufficientStakeForTier => 20,
            ContractError::InvalidTierConfig => 21,
            ContractError::FeedAlreadyRegistered => 22,
            ContractError::PremiumPoolAccessDenied => 23,
            ContractError::TransferAlreadyPending => 24,
            ContractError::NoPendingOwner => 25,
            ContractError::FeeCeilingExceeded => 26,
            ContractError::DivisionByZero => 27,
            ContractError::StaleSequence => 28,
            ContractError::InvalidVarianceConfig => 29,
            ContractError::StaleTelemetryPayload => 30,
            ContractError::InsufficientReserveBalance => 31,
            ContractError::InsufficientVolume => 32,
            ContractError::InsufficientLiquidityDepth => 33,
            ContractError::ContractPaused => 34,
            ContractError::RevokedAddress => 35,
            ContractError::EmergencyRevocationActive => 36,
            ContractError::NoActiveEmergencyRevocation => 37,
            ContractError::BundleAssetLimitExceeded => 38,
            ContractError::BundleValidationFailed => 39,
            ContractError::IncompleteQuorum => 40,
            ContractError::EpochClosed => 41,
            ContractError::AdminChangePending => 42,
            ContractError::NoAdminChangePending => 43,
            ContractError::CosignerCannotBeProposer => 44,
            ContractError::AdminTimelockNotSatisfied => 45,
            ContractError::InsufficientBondForPenalty => 46,
            ContractError::SlippageExceeded => 47,
            ContractError::AmountTooLow => 48,
            ContractError::NullifierAlreadyUsed => 49,
            ContractError::InvalidProof => 50,
            ContractError::BridgeAssetNotRegistered => 51,
            ContractError::BridgeInvalidMaxSupply => 52,
            ContractError::BridgeAssetAlreadyRegistered => 53,
            ContractError::BridgeInvalidAmount => 54,
            ContractError::BridgeNotController => 55,
            ContractError::BridgeSupplyCapExceeded => 56,
            ContractError::BridgeInsufficientBalance => 57,
            ContractError::BridgeEscrowNotConfigured => 58,
            ContractError::ReentrancyDetected => 59,
            ContractError::UpgradeHealthCheckFailed => 60,
            ContractError::MathOverflow => 61,
            ContractError::EventTopicLimitExceeded => 62,
            ContractError::OrderZeroAmount => 63,
            ContractError::OrderInvalidPrice => 64,
            ContractError::OrderNotFound => 65,
            ContractError::OrderAlreadyClosed => 66,
            ContractError::OrderInsufficientRemaining => 67,
            ContractError::OrderNotMaker => 68,
            ContractError::HtlcNotFound => 69,
            ContractError::HtlcNotActive => 70,
            ContractError::InvalidPreImage => 71,
            ContractError::DeadlineReached => 72,
            ContractError::DeadlineNotReached => 73,
            ContractError::DeadlineTooSoon => 74,
            ContractError::DeadlineTooFar => 75,
            ContractError::TooManyActiveHtlcs => 76,
            ContractError::InvalidInput => 77,
            ContractError::InvalidArgument => 78,
            ContractError::InvalidDivisionFactor => 79,
            ContractError::InvalidTickSpacing => 80,
            ContractError::TickIndexAlreadyExists => 81,
            ContractError::TickIndexNotFound => 82,
            ContractError::TickNotAligned => 83,
            ContractError::TickOutOfBounds => 84,
            ContractError::TooManyTicks => 85,
            ContractError::PoolNotFound => 86,
            ContractError::ZeroSwapAmount => 87,
            ContractError::EmptyRoute => 88,
            ContractError::InconsistentRouteAssets => 89,
            ContractError::RouteExecutionFailed => 90,
            ContractError::RouteTooLong => 91,
            ContractError::RoleNotFound => 92,
            ContractError::RoleExpiredOrMissing => 93,
            ContractError::RoleExpirationInPast => 94,
            ContractError::RollbackWindowExpired => 95,
            ContractError::NoPreviousUpgrade => 96,
            ContractError::StagingNotAuthorized => 97,
            ContractError::StaleData => 98,
            ContractError::RecoveryKeyNotConfigured => 99,
            ContractError::RecoveryNotAvailableYet => 100,
            ContractError::EmergencyRevocationAlreadyActive => 101,
            ContractError::VaultNotInitialized => 102,
            ContractError::VaultAlreadyInitialized => 103,
            ContractError::VaultInvalidPerformanceFee => 104,
            ContractError::VaultZeroAmount => 105,
            ContractError::VaultInsufficientShares => 106,
            ContractError::VaultInsufficientBalance => 107,
            ContractError::VaultPaused => 108,
            ContractError::NotEmergencyAdmin => 109,
            ContractError::NotRecoveryKey => 110,
        }
    }

    /// The numeric code of this error.
    pub fn code(&self) -> (c: u32)
        ensures
            c == self.code_spec(),
    {
        match self {
            ContractError::AlreadyInitialized => 1,
            ContractError::NotInitialized => 2,
            ContractError::NotAdmin => 3,
            ContractError::NoPendingUpgrade => 4,
            ContractError::UpgradeTimelockNotSatisfied => 5,
            ContractError::InvalidHeartbeatInterval => 6,
            ContractError::InvalidNonce => 7,
            ContractError::AlreadyRegistered => 8,
            ContractError::NotRegistered => 9,
            ContractError::InvalidStakeAmount => 10,
            ContractError::Overflow => 11,
            ContractError::Unauthorized => 12,
            ContractError::TargetNotAdmin => 13,
            ContractError::ProposalAlreadyActive => 14,
            ContractError::NoActiveProposal => 15,
            ContractError::AlreadyVoted => 16,
            ContractError::ThresholdNotReached => 17,
            ContractError::SignatureExpired => 18,
            ContractError::InvalidSaltSignature => 19,
            ContractError::InsufficientStakeForTier => 20,
            ContractError::InvalidTierConfig => 21,
            ContractError::FeedAlreadyRegistered => 22,
            ContractError::PremiumPoolAccessDenied => 23,
            ContractError::TransferAlreadyPending => 24,
            ContractError::NoPendingOwner => 25,
            ContractError::FeeCeilingExceeded => 26,
            ContractError::DivisionByZero => 27,
            ContractError::StaleSequence => 28,
            ContractError::InvalidVarianceConfig => 29,
            ContractError::StaleTelemetryPayload => 30,
            ContractError::InsufficientReserveBalance => 31,
            ContractError::InsufficientVolume => 32,
            ContractError::InsufficientLiquidityDepth => 33,
            ContractError::ContractPaused => 34,
            ContractError::RevokedAddress => 35,
            ContractError::EmergencyRevocationActive => 36,
            ContractError::NoActiveEmergencyRevocation => 37,
            ContractError::BundleAssetLimitExceeded => 38,
            ContractError::BundleValidationFailed => 39,
            ContractError::IncompleteQuorum => 40,
            ContractError::EpochClosed => 41,
            ContractError::AdminChangePending => 42,
            ContractError::NoAdminChangePending => 43,
            ContractError::CosignerCannotBeProposer => 44,
            ContractError::AdminTimelockNotSatisfied => 45,
            ContractError::InsufficientBondForPenalty => 46,
            ContractError::SlippageExceeded => 47,
            ContractError::AmountTooLow => 48,
            ContractError::NullifierAlreadyUsed => 49,
            ContractError::InvalidProof => 50,
            ContractError::BridgeAssetNotRegistered => 51,
            ContractError::BridgeInvalidMaxSupply => 52,
            ContractError::BridgeAssetAlreadyRegistered => 53,
            ContractError::BridgeInvalidAmount => 54,
            ContractError::BridgeNotController => 55,
            ContractError::BridgeSupplyCapExceeded => 56,
            ContractError::BridgeInsufficientBalance => 57,
            ContractError::BridgeEscrowNotConfigured => 58,
            ContractError::ReentrancyDetected => 59,
            ContractError::UpgradeHealthCheckFailed => 60,
            ContractError::MathOverflow => 61,
            ContractError::EventTopicLimitExceeded => 62,
            ContractError::OrderZeroAmount => 63,
            ContractError::OrderInvalidPrice => 64,
            ContractError::OrderNotFound => 65,
            ContractError::OrderAlreadyClosed => 66,
            ContractError::OrderInsufficientRemaining => 67,
            ContractError::OrderNotMaker => 68,
            ContractError::HtlcNotFound => 69,
            ContractError::HtlcNotActive => 70,
            ContractError::InvalidPreImage => 71,
            ContractError::DeadlineReached => 72,
            ContractError::DeadlineNotReached => 73,
            ContractError::DeadlineTooSoon => 74,
            ContractError::DeadlineTooFar => 75,
            ContractError::TooManyActiveHtlcs => 76,
            ContractError::InvalidInput => 77,
            ContractError::InvalidArgument => 78,
            ContractError::InvalidDivisionFactor => 79,
            ContractError::InvalidTickSpacing => 80,
            ContractError::TickIndexAlreadyExists => 81,
            ContractError::TickIndexNotFound => 82,
            ContractError::TickNotAligned => 83,
            ContractError::TickOutOfBounds => 84,
            ContractError::TooManyTicks => 85,
            ContractError::PoolNotFound => 86,
            ContractError::ZeroSwapAmount => 87,
            ContractError::EmptyRoute => 88,
            ContractError::InconsistentRouteAssets => 89,
            ContractError::RouteExecutionFailed => 90,
            ContractError::RouteTooLong => 91,
            ContractError::RoleNotFound => 92,
            ContractError::RoleExpiredOrMissing => 93,
            ContractError::RoleExpirationInPast => 94,
            ContractError::RollbackWindowExpired => 95,
            ContractError::NoPreviousUpgrade => 96,
            ContractError::StagingNotAuthorized => 97,
            ContractError::StaleData => 98,
            ContractError::RecoveryKeyNotConfigured => 99,
            ContractError::RecoveryNotAvailableYet => 100,
            ContractError::EmergencyRevocationAlreadyActive => 101,
            ContractError::VaultNotInitialized => 102,
            ContractError::VaultAlreadyInitialized => 103,
            ContractError::VaultInvalidPerformanceFee => 104,
            ContractError::VaultZeroAmount => 105,
            ContractError::VaultInsufficientShares => 106,
            ContractError::VaultInsufficientBalance => 107,
            ContractError::VaultPaused => 108,
            ContractError::NotEmergencyAdmin => 109,
            ContractError::NotRecoveryKey => 110,
        }
    }

    /// The error with numeric code `code`, or `None` for a code that no error has.
    pub fn from_code(code: u32) -> (r: Option<ContractError>)
        ensures
            r == contract_error_of_code(code),
            r is Some <==> 1 <= code <= 110,
    {
        match code {
            1 => Some(ContractError::AlreadyInitialized),
            2 => Some(ContractError::NotInitialized),
            3 => Some(ContractError::NotAdmin),
            4 => Some(ContractError::NoPendingUpgrade),
            5 => Some(ContractError::UpgradeTimelockNotSatisfied),
            6 => Some(ContractError::InvalidHeartbeatInterval),
            7 => Some(ContractError::InvalidNonce),
            8 => Some(ContractError::AlreadyRegistered),
            9 => Some(ContractError::NotRegistered),
            10 => Some(ContractError::InvalidStakeAmount),
            11 => Some(ContractError::Overflow),
            12 => Some(ContractError::Unauthorized),
            13 => Some(ContractError::TargetNotAdmin),
            14 => Some(ContractError::ProposalAlreadyActive),
            15 => Some(ContractError::NoActiveProposal),
            16 => Some(ContractError::AlreadyVoted),
            17 => Some(ContractError::ThresholdNotReached),
            18 => Some(ContractError::SignatureExpired),
            19 => Some(ContractError::InvalidSaltSignature),
            20 => Some(ContractError::InsufficientStakeForTier),
            21 => Some(ContractError::InvalidTierConfig),
            22 => Some(ContractError::FeedAlreadyRegistered),
            23 => Some(ContractError::PremiumPoolAccessDenied),
            24 => Some(ContractError::TransferAlreadyPending),
            25 => Some(ContractError::NoPendingOwner),
            26 => Some(ContractError::FeeCeilingExceeded),
            27 => Some(ContractError::DivisionByZero),
            28 => Some(ContractError::StaleSequence),
            29 => Some(ContractError::InvalidVarianceConfig),
            30 => Some(ContractError::StaleTelemetryPayload),
            31 => Some(ContractError::InsufficientReserveBalance),
            32 => Some(ContractError::InsufficientVolume),
            33 => Some(ContractError::InsufficientLiquidityDepth),
            34 => Some(ContractError::ContractPaused),
            35 => Some(ContractError::RevokedAddress),
            36 => Some(ContractError::EmergencyRevocationActive),
            37 => Some(ContractError::NoActiveEmergencyRevocation),
            38 => Some(ContractError::BundleAssetLimitExceeded),
            39 => Some(ContractError::BundleValidationFailed),
            40 => Some(ContractError::IncompleteQuorum),
            41 => Some(ContractError::EpochClosed),
            42 => Some(ContractError::AdminChangePending),
            43 => Some(ContractError::NoAdminChangePending),
            44 => Some(ContractError::CosignerCannotBeProposer),
            45 => Some(ContractError::AdminTimelockNotSatisfied),
            46 => Some(ContractError::InsufficientBondForPenalty),
            47 => Some(ContractError::SlippageExceeded),
            48 => Some(ContractError::AmountTooLow),
            49 => Some(ContractError::NullifierAlreadyUsed),
            50 => Some(ContractError::InvalidProof),
            51 => Some(ContractError::BridgeAssetNotRegistered),
            52 => Some(ContractError::BridgeInvalidMaxSupply),
            53 => Some(ContractError::BridgeAssetAlreadyRegistered),
            54 => Some(ContractError::BridgeInvalidAmount),
            55 => Some(ContractError::BridgeNotController),
            56 => Some(ContractError::BridgeSupplyCapExceeded),
            57 => Some(ContractError::BridgeInsufficientBalance),
            58 => Some(ContractError::BridgeEscrowNotConfigured),
            59 => Some(ContractError::ReentrancyDetected),
            60 => Some(ContractError::UpgradeHealthCheckFailed),
            61 => Some(ContractError::MathOverflow),
            62 => Some(ContractError::EventTopicLimitExceeded),
            63 => Some(ContractError::OrderZeroAmount),
            64 => Some(ContractError::OrderInvalidPrice),
            65 => Some(ContractError::OrderNotFound),
            66 => Some(ContractError::OrderAlreadyClosed),
            67 => Some(ContractError::OrderInsufficientRemaining),
            68 => Some(ContractError::OrderNotMaker),
            69 => Some(ContractError::HtlcNotFound),
            70 => Some(ContractError::HtlcNotActive),
            71 => Some(ContractError::InvalidPreImage),
            72 => Some(ContractError::DeadlineReached),
            73 => Some(ContractError::DeadlineNotReached),
            74 => Some(ContractError::DeadlineTooSoon),
            75 => Some(ContractError::DeadlineTooFar),
            76 => Some(ContractError::TooManyActiveHtlcs),
            77 => Some(ContractError::InvalidInput),
            78 => Some(ContractError::InvalidArgument),
            79 => Some(ContractError::InvalidDivisionFactor),
            80 => Some(ContractError::InvalidTickSpacing),
            81 => Some(ContractError::TickIndexAlreadyExists),
            82 => Some(ContractError::TickIndexNotFound),
            83 => Some(ContractError::TickNotAligned),
            84 => Some(ContractError::TickOutOfBounds),
            85 => Some(ContractError::TooManyTicks),
            86 => Some(ContractError::PoolNotFound),
            87 => Some(ContractError::ZeroSwapAmount),
            88 => Some(ContractError::EmptyRoute),
            89 => Some(ContractError::InconsistentRouteAssets),
            90 => Some(ContractError::RouteExecutionFailed),
            91 => Some(ContractError::RouteTooLong),
            92 => Some(ContractError::RoleNotFound),
            93 => Some(ContractError::RoleExpiredOrMissing),
            94 => Some(ContractError::RoleExpirationInPast),
            95 => Some(ContractError::RollbackWindowExpired),
            96 => Some(ContractError::NoPreviousUpgrade),
            97 => Some(ContractError::StagingNotAuthorized),
            98 => Some(ContractError::StaleData),
            99 => Some(ContractError::RecoveryKeyNotConfigured),
            100 => Some(ContractError::RecoveryNotAvailableYet),
            101 => Some(ContractError::EmergencyRevocationAlreadyActive),
            102 => Some(ContractError::VaultNotInitialized),
            103 => Some(ContractError::VaultAlreadyInitialized),
            104 => Some(ContractError::VaultInvalidPerformanceFee),
            105 => Some(ContractError::VaultZeroAmount),
            106 => Some(ContractError::VaultInsufficientShares),
            107 => Some(ContractError::VaultInsufficientBalance),
            108 => Some(ContractError::VaultPaused),
            109 => Some(ContractError::NotEmergencyAdmin),
            110 => Some(ContractError::NotRecoveryKey),
            _ => None,
        }
    }
}

/// Every error has a code in `1..=110`, and reading that code back gives the
/// same error: `from_code(e.code()) == Some(e)`.
pub proof fn lemma_contract_error_code_roundtrip(e: ContractError)
    ensures
        1 <= e.code_spec() <= 110,
        contract_error_of_code(e.code_spec()) == Some(e),
{
}

/// Reading a code and writing it again gives the same code: for every code that
/// names an error, `from_code(c).unwrap().code() == c`.
pub proof fn lemma_contract_error_code_of_decoded(code: u32)
    ensures
        contract_error_of_code(code) matches Some(e) ==> e.code_spec() == code,
{
}

/// Two errors with the same code are the same error.
pub proof fn lemma_contract_error_code_injective(a: ContractError, b: ContractError)
    ensures
        a.code_spec() == b.code_spec() ==> a == b,
{
    lemma_contract_error_code_roundtrip(a);
    lemma_contract_error_code_roundtrip(b);
}

impl ContractError {
    /// The error that a host error names: `None` unless the host error is of the
    /// contract kind and carries a known code.
    pub fn decode(is_contract: bool, code: u32) -> (r: Option<ContractError>)
        ensures
            r == (if is_contract { contract_error_of_code(code) } else { None }),
    {
        if !is_contract {
            return None;
        }
        ContractError::from_code(code)
    }

    /// Read a host error back as one of this contract's errors; any other host
    /// error is reported as an abort.
    pub fn try_from_error(err: soroban_sdk::Error) -> (r: Result<ContractError, soroban_sdk::InvokeError>)
        ensures
            r is Ok <==> host_is_contract_of(err) && 1 <= host_code_of(err) <= 110,
            r matches Ok(e) ==> Some(e) == contract_error_of_code(host_code_of(err)) && e.code_spec()
                == host_code_of(err),
    {
        let is_contract = host_error_is_contract(&err);
        let code = host_error_code(&err);
        match ContractError::decode(is_contract, code) {
            Some(e) => {
                proof { lemma_contract_error_code_roundtrip(e); }
                Ok(e)
            },
            None => Err(invoke_abort()),
        }
    }

    /// The host error that carries this error's code.
    pub fn to_host_error(&self) -> (r: soroban_sdk::Error)
        ensures
            r == host_error_of(self.code_spec()),
            host_is_contract_of(r),
            host_code_of(r) == self.code_spec(),
    {
        host_contract_error(self.code())
    }
}

/// Errors of the voting-weight invariant contract.
#[derive(Copy, Clone, Debug, PartialEq, Eq, PartialOrd, Ord, Structural)]
pub enum InvariantError {
    AlreadyInitialized,
    NotInitialized,
    NotAdmin,
    VotingWeightDrift,
    UserNotFound,
    InvalidAmount,
    LockAlreadyExists,
    NoLockFound,
    Overflow,
}

/// The error whose code is `code`, if there is one.
pub open spec fn invariant_error_of_code(code: u32) -> Option<InvariantError> {
    match code {
        1 => Some(InvariantError::AlreadyInitialized),
        2 => Some(InvariantError::NotInitialized),
        3 => Some(InvariantError::NotAdmin),
        4 => Some(InvariantError::VotingWeightDrift),
        5 => Some(InvariantError::UserNotFound),
        6 => Some(InvariantError::InvalidAmount),
        7 => Some(InvariantError::LockAlreadyExists),
        8 => Some(InvariantError::NoLockFound),
        9 => Some(InvariantError::Overflow),
        _ => None,
    }
}

impl InvariantError {
    /// The numeric code of this error.
    pub open spec fn code_spec(self) -> u32 {
        match self {
            InvariantError::AlreadyInitialized => 1,
            InvariantError::NotInitialized => 2,
            InvariantError::NotAdmin => 3,
            InvariantError::VotingWeightDrift => 4,
            InvariantError::UserNotFound => 5,
            InvariantError::InvalidAmount => 6,
            InvariantError::LockAlreadyExists => 7,
            InvariantError::NoLockFound => 8,
            InvariantError::Overflow => 9,
        }
    }

    /// The numeric code of this error.
    pub fn code(&self) -> (c: u32)
        ensures
            c == self.code_spec(),
    {
        match self {
            InvariantError::AlreadyInitialized => 1,
            InvariantError::NotInitialized => 2,
            InvariantError::NotAdmin => 3,
            InvariantError::VotingWeightDrift => 4,
            InvariantError::UserNotFound => 5,
            InvariantError::InvalidAmount => 6,
            InvariantError::LockAlreadyExists => 7,
            InvariantError::NoLockFound => 8,
            InvariantError::Overflow => 9,
        }
    }

    /// The error with numeric code `code`, or `None` for a code that no error has.
    pub fn from_code(code: u32) -> (r: Option<InvariantError>)
        ensures
            r == invariant_error_of_code(code),
            r is Some <==> 1 <= code <= 9,
    {
        match code {
            1 => Some(InvariantError::AlreadyInitialized),
            2 => Some(InvariantError::NotInitialized),
            3 => Some(InvariantError::NotAdmin),
            4 => Some(InvariantError::VotingWeightDrift),
            5 => Some(InvariantError::UserNotFound),
            6 => Some(InvariantError::InvalidAmount),
            7 => Some(InvariantError::LockAlreadyExists),
            8 => Some(InvariantError::NoLockFound),
            9 => Some(InvariantError::Overflow),
            _ => None,
        }
    }
}

/// Every error has a code in `1..=9`, and reading that code back gives the
/// same error: `from_code(e.code()) == Some(e)`.
pub proof fn lemma_invariant_error_code_roundtrip(e: InvariantError)
    ensures
        1 <= e.code_spec() <= 9,
        invariant_error_of_code(e.code_spec()) == Some(e),
{
}

/// Reading a code and writing it again gives the same code: for every code that
/// names an error, `from_code(c).unwrap().code() == c`.
pub proof fn lemma_invariant_error_code_of_decoded(code: u32)
    ensures
        invariant_error_of_code(code) matches Some(e) ==> e.code_spec() == code,
{
}

/// Two errors with the same code are the same error.
pub proof fn lemma_invariant_error_code_injective(a: InvariantError, b: InvariantError)
    ensures
        a.code_spec() == b.code_spec() ==> a == b,
{
    lemma_invariant_error_code_roundtrip(a);
    lemma_invariant_error_code_roundtrip(b);
}

} // verus!
