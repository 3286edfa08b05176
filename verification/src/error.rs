//! The failures an operation can end in.

use vstd::prelude::*;

verus! {

/// What can go wrong in the staking engine. Every variant has a number of its
/// own, which the host reports, and a sentence for people.
#[derive(Clone, Copy, Debug, PartialEq, Eq, Structural, Hash)]
pub enum StakingError {
    InstructionUnpackError,
    AlreadyInitialized,
    NotRentExempt,
    MathOverflow,
    StakeDepositsZero,
    StakeWithdrawsZero,
    InvalidArgumentError,
    InvalidSupplyError,
    InvalidDurationError,
    InvalidCurrentTimeError,
    InvalidWithdrawAmountError,
    InvalidCurrentRateError,
    InvalidAccountOwner,
    InSufficientSupplyError,
    InvalidSigner,
    InvalidRewardSupplyAccountError,
    InvalidTokenMint,
    InvalidTokenOwner,
    InvalidRewardTokenPoolOwner,
    InvalidRewardTokenSupplyAccount,
    InvalidStakingPool,
    InvalidStakeAccount,
    InvalidRewardTokenPool,
    TokenTransferFailed,
    TokenInitializeAccountFailed,
    ReduceRewardTooMuch,
    AlreadyHasSubReward,
}

impl StakingError {
    /// The number of a variant: its place in the declaration, from zero.
    pub open spec fn spec_code(self) -> u32 {
        match self {
            StakingError::InstructionUnpackError => 0,
            StakingError::AlreadyInitialized => 1,
            StakingError::NotRentExempt => 2,
            StakingError::MathOverflow => 3,
            StakingError::StakeDepositsZero => 4,
            StakingError::StakeWithdrawsZero => 5,
            StakingError::InvalidArgumentError => 6,
            StakingError::InvalidSupplyError => 7,
            StakingError::InvalidDurationError => 8,
            StakingError::InvalidCurrentTimeError => 9,
            StakingError::InvalidWithdrawAmountError => 10,
            StakingError::InvalidCurrentRateError => 11,
            StakingError::InvalidAccountOwner => 12,
            StakingError::InSufficientSupplyError => 13,
            StakingError::InvalidSigner => 14,
            StakingError::InvalidRewardSupplyAccountError => 15,
            StakingError::InvalidTokenMint => 16,
            StakingError::InvalidTokenOwner => 17,
            StakingError::InvalidRewardTokenPoolOwner => 18,
            StakingError::InvalidRewardTokenSupplyAccount => 19,
            StakingError::InvalidStakingPool => 20,
            StakingError::InvalidStakeAccount => 21,
            StakingError::InvalidRewardTokenPool => 22,
            StakingError::TokenTransferFailed => 23,
            StakingError::TokenInitializeAccountFailed => 24,
            StakingError::ReduceRewardTooMuch => 25,
            StakingError::AlreadyHasSubReward => 26,
        }
    }

    /// The variant with a given number, if there is one.
    pub open spec fn spec_from_code(code: u32) -> Option<StakingError> {
        if code == 0 {
            Some(StakingError::InstructionUnpackError)
        } else if code == 1 {
            Some(StakingError::AlreadyInitialized)
        } else if code == 2 {
            Some(StakingError::NotRentExempt)
        } else if code == 3 {
            Some(StakingError::MathOverflow)
        } else if code == 4 {
            Some(StakingError::StakeDepositsZero)
        } else if code == 5 {
            Some(StakingError::StakeWithdrawsZero)
        } else if code == 6 {
            Some(StakingError::InvalidArgumentError)
        } else if code == 7 {
            Some(StakingError::InvalidSupplyError)
        } else if code == 8 {
            Some(StakingError::InvalidDurationError)
        } else if code == 9 {
            Some(StakingError::InvalidCurrentTimeError)
        } else if code == 10 {
            Some(StakingError::InvalidWithdrawAmountError)
        } else if code == 11 {
            Some(StakingError::InvalidCurrentRateError)
        } else if code == 12 {
            Some(StakingError::InvalidAccountOwner)
        } else if code == 13 {
            Some(StakingError::InSufficientSupplyError)
        } else if code == 14 {
            Some(StakingError::InvalidSigner)
        } else if code == 15 {
            Some(StakingError::InvalidRewardSupplyAccountError)
        } else if code == 16 {
            Some(StakingError::InvalidTokenMint)
        } else if code == 17 {
            Some(StakingError::InvalidTokenOwner)
        } else if code == 18 {
            Some(StakingError::InvalidRewardTokenPoolOwner)
        } else if code == 19 {
            Some(StakingError::InvalidRewardTokenSupplyAccount)
        } else if code == 20 {
            Some(StakingError::InvalidStakingPool)
        } else if code == 21 {
            Some(StakingError::InvalidStakeAccount)
        } else if code == 22 {
            Some(StakingError::InvalidRewardTokenPool)
        } else if code == 23 {
            Some(StakingError::TokenTransferFailed)
        } else if code == 24 {
            Some(StakingError::TokenInitializeAccountFailed)
        } else if code == 25 {
            Some(StakingError::ReduceRewardTooMuch)
        } else if code == 26 {
            Some(StakingError::AlreadyHasSubReward)
        } else {
            None
        }
    }

    /// No two variants share a number, and `spec_from_code` finds each again.
    pub proof fn lemma_code_round_trip(self)
        ensures
            self.spec_code() <= 26,
            StakingError::spec_from_code(self.spec_code()) == Some(self),
    {
    }

    /// The number of the failure.
    pub fn code(&self) -> (r: u32)
        ensures
            r == self.spec_code(),
    {
        match self {
            StakingError::InstructionUnpackError => 0,
            StakingError::AlreadyInitialized => 1,
            StakingError::NotRentExempt => 2,
            StakingError::MathOverflow => 3,
            StakingError::StakeDepositsZero => 4,
            StakingError::StakeWithdrawsZero => 5,
            StakingError::InvalidArgumentError => 6,
            StakingError::InvalidSupplyError => 7,
            StakingError::InvalidDurationError => 8,
            StakingError::InvalidCurrentTimeError => 9,
            StakingError::InvalidWithdrawAmountError => 10,
            StakingError::InvalidCurrentRateError => 11,
            StakingError::InvalidAccountOwner => 12,
            StakingError::InSufficientSupplyError => 13,
            StakingError::InvalidSigner => 14,
            StakingError::InvalidRewardSupplyAccountError => 15,
            StakingError::InvalidTokenMint => 16,
            StakingError::InvalidTokenOwner => 17,
            StakingError::InvalidRewardTokenPoolOwner => 18,
            StakingError::InvalidRewardTokenSupplyAccount => 19,
            StakingError::InvalidStakingPool => 20,
            StakingError::InvalidStakeAccount => 21,
            StakingError::InvalidRewardTokenPool => 22,
            StakingError::TokenTransferFailed => 23,
            StakingError::TokenInitializeAccountFailed => 24,
            StakingError::ReduceRewardTooMuch => 25,
            StakingError::AlreadyHasSubReward => 26,
        }
    }

    /// The failure with a given number, if there is one.
    pub fn from_code(code: u32) -> (r: Option<StakingError>)
        ensures
            r == StakingError::spec_from_code(code),
            r is Some <==> code <= 26,
            r matches Some(e) ==> e.spec_code() == code,
    {
        match code {
            0 => Some(StakingError::InstructionUnpackError),
            1 => Some(StakingError::AlreadyInitialized),
            2 => Some(StakingError::NotRentExempt),
            3 => Some(StakingError::MathOverflow),
            4 => Some(StakingError::StakeDepositsZero),
            5 => Some(StakingError::StakeWithdrawsZero),
            6 => Some(StakingError::InvalidArgumentError),
            7 => Some(StakingError::InvalidSupplyError),
            8 => Some(StakingError::InvalidDurationError),
            9 => Some(StakingError::InvalidCurrentTimeError),
            10 => Some(StakingError::InvalidWithdrawAmountError),
            11 => Some(StakingError::InvalidCurrentRateError),
            12 => Some(StakingError::InvalidAccountOwner),
            13 => Some(StakingError::InSufficientSupplyError),
            14 => Some(StakingError::InvalidSigner),
            15 => Some(StakingError::InvalidRewardSupplyAccountError),
            16 => Some(StakingError::InvalidTokenMint),
            17 => Some(StakingError::InvalidTokenOwner),
            18 => Some(StakingError::InvalidRewardTokenPoolOwner),
            19 => Some(StakingError::InvalidRewardTokenSupplyAccount),
            20 => Some(StakingError::InvalidStakingPool),
            21 => Some(StakingError::InvalidStakeAccount),
            22 => Some(StakingError::InvalidRewardTokenPool),
            23 => Some(StakingError::TokenTransferFailed),
            24 => Some(StakingError::TokenInitializeAccountFailed),
            25 => Some(StakingError::ReduceRewardTooMuch),
            26 => Some(StakingError::AlreadyHasSubReward),
            _ => None,
        }
    }

    /// The sentence that goes with a variant.
    pub open spec fn spec_message(self) -> Seq<char> {
        match self {
            StakingError::InstructionUnpackError => "Failed to unpack instruction data"@,
            StakingError::AlreadyInitialized => "Account is already initialized"@,
            StakingError::NotRentExempt => "Lamport balance below rent-exempt threshold"@,
            StakingError::MathOverflow => "Math operation overflow"@,
            StakingError::StakeDepositsZero => "Stake Account deposits have zero value"@,
            StakingError::StakeWithdrawsZero => "Stake Account withdraws have zero value"@,
            StakingError::InvalidArgumentError => "Invalid Argument"@,
            StakingError::InvalidSupplyError => "Supply to the staking pool must be non zero"@,
            StakingError::InvalidDurationError => "Duration to the staking pool must be non zero"@,
            StakingError::InvalidCurrentTimeError => "Current Time must be greater than start time"@,
            StakingError::InvalidWithdrawAmountError => "Withdraw amount must be smaller than balance"@,
            StakingError::InvalidCurrentRateError => "Reward rate must be monotonic increasing"@,
            StakingError::InvalidAccountOwner => "Invalid account owner"@,
            StakingError::InSufficientSupplyError => "Insufficient token supply for rewarding"@,
            StakingError::InvalidSigner => "Not correct signer"@,
            StakingError::InvalidRewardSupplyAccountError => "Reward supply token account is illegal"@,
            StakingError::InvalidTokenMint => "Input token mint account is not valid"@,
            StakingError::InvalidTokenOwner => "Input token account is not owned by the correct token program id"@,
            StakingError::InvalidRewardTokenPoolOwner => "Reward token pool must be owned by the staking program"@,
            StakingError::InvalidRewardTokenSupplyAccount => "Invalid reward token supply account"@,
            StakingError::InvalidStakingPool => "Invalid staking pool"@,
            StakingError::InvalidStakeAccount => "Invalid stake account"@,
            StakingError::InvalidRewardTokenPool => "Invalid reward token pool"@,
            StakingError::TokenTransferFailed => "Transfer token failed"@,
            StakingError::TokenInitializeAccountFailed => "token account init failed"@,
            StakingError::ReduceRewardTooMuch => "Cannot reduce reward smaller than zero"@,
            StakingError::AlreadyHasSubReward => "The staking pool already has a sub reward"@,
        }
    }

    /// The sentence that goes with the failure.
    pub fn message(&self) -> (r: &'static str)
        ensures
            r@ == self.spec_message(),
    {
        match self {
            StakingError::InstructionUnpackError => "Failed to unpack instruction data",
            StakingError::AlreadyInitialized => "Account is already initialized",
            StakingError::NotRentExempt => "Lamport balance below rent-exempt threshold",
            StakingError::MathOverflow => "Math operation overflow",
            StakingError::StakeDepositsZero => "Stake Account deposits have zero value",
            StakingError::StakeWithdrawsZero => "Stake Account withdraws have zero value",
            StakingError::InvalidArgumentError => "Invalid Argument",
            StakingError::InvalidSupplyError => "Supply to the staking pool must be non zero",
            StakingError::InvalidDurationError => "Duration to the staking pool must be non zero",
            StakingError::InvalidCurrentTimeError => "Current Time must be greater than start time",
            StakingError::InvalidWithdrawAmountError => "Withdraw amount must be smaller than balance",
            StakingError::InvalidCurrentRateError => "Reward rate must be monotonic increasing",
            StakingError::InvalidAccountOwner => "Invalid account owner",
            StakingError::InSufficientSupplyError => "Insufficient token supply for rewarding",
            StakingError::InvalidSigner => "Not correct signer",
            StakingError::InvalidRewardSupplyAccountError => "Reward supply token account is illegal",
            StakingError::InvalidTokenMint => "Input token mint account is not valid",
            StakingError::InvalidTokenOwner => "Input token account is not owned by the correct token program id",
            StakingError::InvalidRewardTokenPoolOwner => "Reward token pool must be owned by the staking program",
            StakingError::InvalidRewardTokenSupplyAccount => "Invalid reward token supply account",
            StakingError::InvalidStakingPool => "Invalid staking pool",
            StakingError::InvalidStakeAccount => "Invalid stake account",
            StakingError::InvalidRewardTokenPool => "Invalid reward token pool",
            StakingError::TokenTransferFailed => "Transfer token failed",
            StakingError::TokenInitializeAccountFailed => "token account init failed",
            StakingError::ReduceRewardTooMuch => "Cannot reduce reward smaller than zero",
            StakingError::AlreadyHasSubReward => "The staking pool already has a sub reward",
        }
    }

    /// The name under which hosts list these failures.
    pub fn type_of() -> (r: &'static str)
        ensures
            r@ == "Staking Error"@,
    {
        "Staking Error"
    }
}

/// How an operation of the program ends when it fails: with a failure of the
/// staking engine, or with one of the host's own kinds.
#[derive(Clone, Copy, Debug, PartialEq, Eq, Structural, Hash)]
pub enum ProgramError {
    /// A failure of the staking engine; the host sees its number.
    Staking(StakingError),
    /// An account that is not the host account an operation needs.
    InvalidArgument,
    /// Data that does not hold the record an operation needs.
    InvalidAccountData,
    /// A record that was never initialized.
    UninitializedAccount,
    /// Fewer accounts than an operation needs.
    NotEnoughAccountKeys,
    /// A pool address and seed byte that give no derived authority.
    InvalidSeeds,
}

impl ProgramError {
    /// The number the host reports for a failure of the staking engine.
    pub open spec fn spec_custom_code(self) -> Option<u32> {
        match self {
            ProgramError::Staking(e) => Some(e.spec_code()),
            _ => None,
        }
    }

    /// The number the host reports, for a failure of the staking engine.
    pub fn custom_code(&self) -> (r: Option<u32>)
        ensures
            r == self.spec_custom_code(),
    {
        match self {
            ProgramError::Staking(e) => Some(e.code()),
            _ => None,
        }
    }
}

impl From<StakingError> for ProgramError {
    fn from(e: StakingError) -> (r: ProgramError) {
        ProgramError::Staking(e)
    }
}

impl vstd::std_specs::convert::FromSpecImpl<StakingError> for ProgramError {
    open spec fn obeys_from_spec() -> bool {
        true
    }

    open spec fn from_spec(e: StakingError) -> ProgramError {
        ProgramError::Staking(e)
    }
}

/// The failure of checked arithmetic.
pub open spec fn math_overflow() -> ProgramError {
    ProgramError::Staking(StakingError::MathOverflow)
}

pub type ProgramResult = Result<(), ProgramError>;

} // verus!
