//! Error codes shared by the contract suite.

use vstd::prelude::*;

verus! {

/// Errors shared by every contract of the suite.
#[derive(Clone, Copy, Debug, PartialEq, Eq, PartialOrd, Ord, Structural)]
pub enum HarvestaError {
    AlreadyInitialized,
    NotInitialized,
    Unauthorized,
    ContractPaused,
    AlreadyPaused,
    NotPaused,
    NoPendingAdmin,
    AmountMustBePositive,
    TreeCountMustBePositive,
    InvalidPayoutAmount,
    SlotAmountMustBePositive,
    EscrowAlreadyExists,
    EscrowNotFound,
    RefundAfterPlanting,
    SurvivalRateOutOfRange,
    SurvivalRateBelowMinimum,
    SurvivalPeriodNotElapsed,
    NothingToRelease,
    UnauthorizedOracle,
    NoOracleReport,
    BatchEmpty,
    BatchTooLarge,
    TreeAlreadyRegistered,
    TreeNotRegistered,
    TreeNotOpenForContributions,
    TreeNotOpenForRelease,
    NoFundsToRelease,
    FarmerAlreadyRegistered,
    FarmerNotRegistered,
    InvalidRegion,
    DisputeAlreadyOpen,
    NoOpenDispute,
    EscrowAlreadyFinalised,
    NotArbiter,
    InvalidRoyalty,
    ProposalNotFound,
    VotingPeriodExpired,
    AlreadyVoted,
    ProposalNotActive,
    ProposalNotPassed,
    ProposalAlreadyExecuted,
    CommitmentAlreadyRegistered,
    NotVerifier,
    Co2MustBePositive,
    MaturityYearsMustBePositive,
    SpeciesNotFound,
    OutsideNigeriaRegion,
    ProofCommitmentAlreadyRegistered,
    CommitmentAlreadySubmitted,
    CommitmentNotFound,
    CommitmentNotPending,
    ZkProofInvalid,
    AgeBelowMinimum,
    ProofExpired,
    HashMismatch,
    InvasiveSpecies,
    PolygonTooFewVertices,
    PointOutsidePolygon,
    ZoneNotFound,
    GrowthRateMustBePositive,
    NotValidator,
    TreeTokenMintOverflow,
    TokenUnitOverflow,
    HighWaterUse,
    InvalidTreeStatusTransition,
    PlantingTimeoutNotReached,
    PolicyNotFound,
    InvalidThreshold,
    InvalidSignerSet,
    AlreadyApproved,
    NotAPolicySigner,
    RequestNotOpen,
    RequestExpired,
    NotPolicyAdmin,
    PolicySuperseded,
    CannotCancelFinalised,
    InvalidReplacementVersion,
}

impl HarvestaError {
    /// The contract error number under which the host reports this error.
    pub open spec fn spec_code(&self) -> u32 {
        match self {
            HarvestaError::AlreadyInitialized => 1,
            HarvestaError::NotInitialized => 2,
            HarvestaError::Unauthorized => 3,
            HarvestaError::ContractPaused => 4,
            HarvestaError::AlreadyPaused => 5,
            HarvestaError::NotPaused => 6,
            HarvestaError::NoPendingAdmin => 7,
            HarvestaError::AmountMustBePositive => 9,
            HarvestaError::TreeCountMustBePositive => 10,
            HarvestaError::InvalidPayoutAmount => 13,
            HarvestaError::SlotAmountMustBePositive => 15,
            HarvestaError::EscrowAlreadyExists => 16,
            HarvestaError::EscrowNotFound => 17,
            HarvestaError::RefundAfterPlanting => 20,
            HarvestaError::SurvivalRateOutOfRange => 22,
            HarvestaError::SurvivalRateBelowMinimum => 23,
            HarvestaError::SurvivalPeriodNotElapsed => 24,
            HarvestaError::NothingToRelease => 25,
            HarvestaError::UnauthorizedOracle => 26,
            HarvestaError::NoOracleReport => 27,
            HarvestaError::BatchEmpty => 28,
            HarvestaError::BatchTooLarge => 29,
            HarvestaError::TreeAlreadyRegistered => 30,
            HarvestaError::TreeNotRegistered => 31,
            HarvestaError::TreeNotOpenForContributions => 32,
            HarvestaError::TreeNotOpenForRelease => 33,
            HarvestaError::NoFundsToRelease => 34,
            HarvestaError::FarmerAlreadyRegistered => 35,
            HarvestaError::FarmerNotRegistered => 36,
            HarvestaError::InvalidRegion => 37,
            HarvestaError::DisputeAlreadyOpen => 38,
            HarvestaError::NoOpenDispute => 39,
            HarvestaError::EscrowAlreadyFinalised => 40,
            HarvestaError::NotArbiter => 41,
            HarvestaError::InvalidRoyalty => 47,
            HarvestaError::ProposalNotFound => 50,
            HarvestaError::VotingPeriodExpired => 51,
            HarvestaError::AlreadyVoted => 52,
            HarvestaError::ProposalNotActive => 53,
            HarvestaError::ProposalNotPassed => 54,
            HarvestaError::ProposalAlreadyExecuted => 55,
            HarvestaError::CommitmentAlreadyRegistered => 60,
            HarvestaError::NotVerifier => 61,
            HarvestaError::Co2MustBePositive => 62,
            HarvestaError::MaturityYearsMustBePositive => 63,
            HarvestaError::SpeciesNotFound => 64,
            HarvestaError::OutsideNigeriaRegion => 65,
            HarvestaError::ProofCommitmentAlreadyRegistered => 66,
            HarvestaError::CommitmentAlreadySubmitted => 67,
            HarvestaError::CommitmentNotFound => 68,
            HarvestaError::CommitmentNotPending => 69,
            HarvestaError::ZkProofInvalid => 70,
            HarvestaError::AgeBelowMinimum => 71,
            HarvestaError::ProofExpired => 72,
            HarvestaError::HashMismatch => 73,
            HarvestaError::InvasiveSpecies => 74,
            HarvestaError::PolygonTooFewVertices => 75,
            HarvestaError::PointOutsidePolygon => 76,
            HarvestaError::ZoneNotFound => 77,
            HarvestaError::GrowthRateMustBePositive => 78,
            HarvestaError::NotValidator => 79,
            HarvestaError::TreeTokenMintOverflow => 80,
            HarvestaError::TokenUnitOverflow => 81,
            HarvestaError::HighWaterUse => 82,
            HarvestaError::InvalidTreeStatusTransition => 90,
            HarvestaError::PlantingTimeoutNotReached => 91,
            HarvestaError::PolicyNotFound => 101,
            HarvestaError::InvalidThreshold => 102,
            HarvestaError::InvalidSignerSet => 103,
            HarvestaError::AlreadyApproved => 104,
            HarvestaError::NotAPolicySigner => 105,
            HarvestaError::RequestNotOpen => 106,
            HarvestaError::RequestExpired => 107,
            HarvestaError::NotPolicyAdmin => 108,
            HarvestaError::PolicySuperseded => 109,
            HarvestaError::CannotCancelFinalised => 111,
            HarvestaError::InvalidReplacementVersion => 112,
        }
    }

    /// The contract error number under which the host reports this error.
    #[verifier::when_used_as_spec(spec_code)]
    pub fn code(&self) -> (c: u32)
        ensures
            c == self.spec_code(),
    {
        match self {
            HarvestaError::AlreadyInitialized => 1,
            HarvestaError::NotInitialized => 2,
            HarvestaError::Unauthorized => 3,
            HarvestaError::ContractPaused => 4,
            HarvestaError::AlreadyPaused => 5,
            HarvestaError::NotPaused => 6,
            HarvestaError::NoPendingAdmin => 7,
            HarvestaError::AmountMustBePositive => 9,
            HarvestaError::TreeCountMustBePositive => 10,
            HarvestaError::InvalidPayoutAmount => 13,
            HarvestaError::SlotAmountMustBePositive => 15,
            HarvestaError::EscrowAlreadyExists => 16,
            HarvestaError::EscrowNotFound => 17,
            HarvestaError::RefundAfterPlanting => 20,
            HarvestaError::SurvivalRateOutOfRange => 22,
            HarvestaError::SurvivalRateBelowMinimum => 23,
            HarvestaError::SurvivalPeriodNotElapsed => 24,
            HarvestaError::NothingToRelease => 25,
            HarvestaError::UnauthorizedOracle => 26,
            HarvestaError::NoOracleReport => 27,
            HarvestaError::BatchEmpty => 28,
            HarvestaError::BatchTooLarge => 29,
            HarvestaError::TreeAlreadyRegistered => 30,
            HarvestaError::TreeNotRegistered => 31,
            HarvestaError::TreeNotOpenForContributions => 32,
            HarvestaError::TreeNotOpenForRelease => 33,
            HarvestaError::NoFundsToRelease => 34,
            HarvestaError::FarmerAlreadyRegistered => 35,
            HarvestaError::FarmerNotRegistered => 36,
            HarvestaError::InvalidRegion => 37,
            HarvestaError::DisputeAlreadyOpen => 38,
            HarvestaError::NoOpenDispute => 39,
            HarvestaError::EscrowAlreadyFinalised => 40,
            HarvestaError::NotArbiter => 41,
            HarvestaError::InvalidRoyalty => 47,
            HarvestaError::ProposalNotFound => 50,
            HarvestaError::VotingPeriodExpired => 51,
            HarvestaError::AlreadyVoted => 52,
            HarvestaError::ProposalNotActive => 53,
            HarvestaError::ProposalNotPassed => 54,
            HarvestaError::ProposalAlreadyExecuted => 55,
            HarvestaError::CommitmentAlreadyRegistered => 60,
            HarvestaError::NotVerifier => 61,
            HarvestaError::Co2MustBePositive => 62,
            HarvestaError::MaturityYearsMustBePositive => 63,
            HarvestaError::SpeciesNotFound => 64,
            HarvestaError::OutsideNigeriaRegion => 65,
            HarvestaError::ProofCommitmentAlreadyRegistered => 66,
            HarvestaError::CommitmentAlreadySubmitted => 67,
            HarvestaError::CommitmentNotFound => 68,
            HarvestaError::CommitmentNotPending => 69,
            HarvestaError::ZkProofInvalid => 70,
            HarvestaError::AgeBelowMinimum => 71,
            HarvestaError::ProofExpired => 72,
            HarvestaError::HashMismatch => 73,
            HarvestaError::InvasiveSpecies => 74,
            HarvestaError::PolygonTooFewVertices => 75,
            HarvestaError::PointOutsidePolygon => 76,
            HarvestaError::ZoneNotFound => 77,
            HarvestaError::GrowthRateMustBePositive => 78,
            HarvestaError::NotValidator => 79,
            HarvestaError::TreeTokenMintOverflow => 80,
            HarvestaError::TokenUnitOverflow => 81,
            HarvestaError::HighWaterUse => 82,
            HarvestaError::InvalidTreeStatusTransition => 90,
            HarvestaError::PlantingTimeoutNotReached => 91,
            HarvestaError::PolicyNotFound => 101,
            HarvestaError::InvalidThreshold => 102,
            HarvestaError::InvalidSignerSet => 103,
            HarvestaError::AlreadyApproved => 104,
            HarvestaError::NotAPolicySigner => 105,
            HarvestaError::RequestNotOpen => 106,
            HarvestaError::RequestExpired => 107,
            HarvestaError::NotPolicyAdmin => 108,
            HarvestaError::PolicySuperseded => 109,
            HarvestaError::CannotCancelFinalised => 111,
            HarvestaError::InvalidReplacementVersion => 112,
        }
    }
}
/// Errors of the governance and multisig contracts.
#[derive(Clone, Copy, Debug, PartialEq, Eq, PartialOrd, Ord, Structural)]
pub enum GovernanceError {
    NotAdmin,
    MinimumOneSignerRequired,
    ThresholdMustBePositive,
    ThresholdTooHigh,
    MultisigNotInitialized,
    NotASigner,
    ProposalNotFound,
    ProposalAlreadyExecuted,
    AlreadyApproved,
    SignerAlreadyExists,
    SignerNotFound,
    NonceAlreadyUsed,
}

impl GovernanceError {
    /// The contract error number under which the host reports this error.
    pub open spec fn spec_code(&self) -> u32 {
        match self {
            GovernanceError::NotAdmin => 1,
            GovernanceError::MinimumOneSignerRequired => 2,
            GovernanceError::ThresholdMustBePositive => 3,
            GovernanceError::ThresholdTooHigh => 4,
            GovernanceError::MultisigNotInitialized => 5,
            GovernanceError::NotASigner => 6,
            GovernanceError::ProposalNotFound => 7,
            GovernanceError::ProposalAlreadyExecuted => 8,
            GovernanceError::AlreadyApproved => 9,
            GovernanceError::SignerAlreadyExists => 10,
            GovernanceError::SignerNotFound => 11,
            GovernanceError::NonceAlreadyUsed => 93,
        }
    }

    /// The contract error number under which the host reports this error.
    #[verifier::when_used_as_spec(spec_code)]
    pub fn code(&self) -> (c: u32)
        ensures
            c == self.spec_code(),
    {
        match self {
            GovernanceError::NotAdmin => 1,
            GovernanceError::MinimumOneSignerRequired => 2,
            GovernanceError::ThresholdMustBePositive => 3,
            GovernanceError::ThresholdTooHigh => 4,
            GovernanceError::MultisigNotInitialized => 5,
            GovernanceError::NotASigner => 6,
            GovernanceError::ProposalNotFound => 7,
            GovernanceError::ProposalAlreadyExecuted => 8,
            GovernanceError::AlreadyApproved => 9,
            GovernanceError::SignerAlreadyExists => 10,
            GovernanceError::SignerNotFound => 11,
            GovernanceError::NonceAlreadyUsed => 93,
        }
    }
}
/// Errors of the tree NFT contract.
#[derive(Clone, Copy, Debug, PartialEq, Eq, PartialOrd, Ord, Structural)]
pub enum NftError {
    TokenAlreadyMinted,
    TokenNotFound,
    MetadataMismatch,
}

impl NftError {
    /// The contract error number under which the host reports this error.
    pub open spec fn spec_code(&self) -> u32 {
        match self {
            NftError::TokenAlreadyMinted => 1,
            NftError::TokenNotFound => 2,
            NftError::MetadataMismatch => 3,
        }
    }

    /// The contract error number under which the host reports this error.
    #[verifier::when_used_as_spec(spec_code)]
    pub fn code(&self) -> (c: u32)
        ensures
            c == self.spec_code(),
    {
        match self {
            NftError::TokenAlreadyMinted => 1,
            NftError::TokenNotFound => 2,
            NftError::MetadataMismatch => 3,
        }
    }
}
/// Errors of the farmer registry.
#[derive(Clone, Copy, Debug, PartialEq, Eq, PartialOrd, Ord, Structural)]
pub enum FarmerError {
    FarmerAlreadyRegistered,
    FarmerNotRegistered,
    InvalidRegion,
    PlotAlreadyExists,
    InvalidCoordinatesCount,
    NotValidator,
    HashMismatch,
    FarmerFrozen,
    LandTenureAlreadyExists,
    LandTenureNotFound,
}

impl FarmerError {
    /// The contract error number under which the host reports this error.
    pub open spec fn spec_code(&self) -> u32 {
        match self {
            FarmerError::FarmerAlreadyRegistered => 1,
            FarmerError::FarmerNotRegistered => 2,
            FarmerError::InvalidRegion => 3,
            FarmerError::PlotAlreadyExists => 4,
            FarmerError::InvalidCoordinatesCount => 5,
            FarmerError::NotValidator => 6,
            FarmerError::HashMismatch => 7,
            FarmerError::FarmerFrozen => 8,
            FarmerError::LandTenureAlreadyExists => 9,
            FarmerError::LandTenureNotFound => 10,
        }
    }

    /// The contract error number under which the host reports this error.
    #[verifier::when_used_as_spec(spec_code)]
    pub fn code(&self) -> (c: u32)
        ensures
            c == self.spec_code(),
    {
        match self {
            FarmerError::FarmerAlreadyRegistered => 1,
            FarmerError::FarmerNotRegistered => 2,
            FarmerError::InvalidRegion => 3,
            FarmerError::PlotAlreadyExists => 4,
            FarmerError::InvalidCoordinatesCount => 5,
            FarmerError::NotValidator => 6,
            FarmerError::HashMismatch => 7,
            FarmerError::FarmerFrozen => 8,
            FarmerError::LandTenureAlreadyExists => 9,
            FarmerError::LandTenureNotFound => 10,
        }
    }
}
} // verus!
