//! The reasons for which an instruction is refused.

use pinocchio::program_error::ProgramError;
use vstd::prelude::*;

verus! {

/// Why an instruction was refused. A refused instruction changes nothing.
#[derive(Clone, Copy, Debug, PartialEq, Eq, Structural)]
pub enum TokenError {
    /// An account holds no record of the kind the instruction needs, or the
    /// record has not been initialized.
    InvalidAccountData,
    /// The record to initialize is initialized already.
    AlreadyInitialized,
    /// The record whose authority is to be set has not been initialized.
    UninitializedState,
    /// Two holdings, or a holding and a mint, belong to different mints.
    MintMismatch,
    /// The decimals stated in a checked instruction are not the mint's.
    DecimalsMismatch,
    /// The account given as authority is not the one the record names.
    OwnerMismatch,
    /// The authority, or too few of a multisignature's signers, signed.
    MissingRequiredSignature,
    /// The balance, or the delegated allowance, is less than the amount.
    InsufficientFunds,
    /// An amount does not fit in 64 bits.
    Overflow,
    /// The holding is frozen.
    AccountFrozen,
    /// The mint has no freeze authority.
    MintCannotFreeze,
    /// A holding that is to be closed still has a balance.
    NonZeroBalance,
    /// The owner of the holding was made immutable.
    ImmutableOwner,
    /// An argument is out of its range, or does not fit the record.
    InvalidArgument,
    /// The payload is not laid out as the instruction requires.
    InvalidInstructionData,
    /// An account that must hold a record is not owned by this program.
    IncorrectProgramId,
    /// The instruction names fewer accounts than it needs.
    NotEnoughAccountKeys,
    /// The mint account holds no initialized mint.
    InvalidMint,
    /// The holding does not wrap the native currency.
    NotNative,
    /// The holding wraps the native currency, which is neither minted nor burned.
    NativeNotSupported,
    /// The mint has no mint authority: its supply is fixed.
    FixedSupply,
    /// The holding is not in the state the instruction starts from.
    InvalidState,
}

/// An error as the runtime knows it: one of its own, or a number that the
/// program chose.
#[derive(Clone, Copy, Debug, PartialEq, Eq, Structural)]
pub enum ProgramErrorKind {
    /// An error of the program's own, by its number.
    Custom(u32),
    InvalidArgument,
    InvalidInstructionData,
    InvalidAccountData,
    IncorrectProgramId,
    MissingRequiredSignature,
    NotEnoughAccountKeys,
}

/// The status that stands for success.
pub const SUCCESS: u64 = 0;

/// The status that stands for an error. The runtime's own errors have their
/// number in the upper 32 bits; an error of the program's own is its number,
/// but for the number 0, which is told apart from success.
pub open spec fn status_of(kind: ProgramErrorKind) -> u64 {
    match kind {
        ProgramErrorKind::Custom(number) => if number == 0 {
            0x1_0000_0000
        } else {
            number as u64
        },
        ProgramErrorKind::InvalidArgument => 0x2_0000_0000,
        ProgramErrorKind::InvalidInstructionData => 0x3_0000_0000,
        ProgramErrorKind::InvalidAccountData => 0x4_0000_0000,
        ProgramErrorKind::IncorrectProgramId => 0x7_0000_0000,
        ProgramErrorKind::MissingRequiredSignature => 0x8_0000_0000,
        ProgramErrorKind::NotEnoughAccountKeys => 0xb_0000_0000,
    }
}

/// How the runtime knows a refusal: by an error of its own where it has one
/// for the reason, else by the number of the reason.
pub open spec fn program_error_of(error: TokenError) -> ProgramErrorKind {
    match error {
        TokenError::InvalidAccountData => ProgramErrorKind::InvalidAccountData,
        TokenError::InvalidArgument => ProgramErrorKind::InvalidArgument,
        TokenError::InvalidInstructionData => ProgramErrorKind::InvalidInstructionData,
        TokenError::IncorrectProgramId => ProgramErrorKind::IncorrectProgramId,
        TokenError::MissingRequiredSignature => ProgramErrorKind::MissingRequiredSignature,
        TokenError::NotEnoughAccountKeys => ProgramErrorKind::NotEnoughAccountKeys,
        TokenError::InsufficientFunds => ProgramErrorKind::Custom(1),
        TokenError::InvalidMint => ProgramErrorKind::Custom(2),
        TokenError::MintMismatch => ProgramErrorKind::Custom(3),
        TokenError::OwnerMismatch => ProgramErrorKind::Custom(4),
        TokenError::FixedSupply => ProgramErrorKind::Custom(5),
        TokenError::AlreadyInitialized => ProgramErrorKind::Custom(6),
        TokenError::UninitializedState => ProgramErrorKind::Custom(9),
        TokenError::NativeNotSupported => ProgramErrorKind::Custom(10),
        TokenError::NonZeroBalance => ProgramErrorKind::Custom(11),
        TokenError::InvalidState => ProgramErrorKind::Custom(13),
        TokenError::Overflow => ProgramErrorKind::Custom(14),
        TokenError::MintCannotFreeze => ProgramErrorKind::Custom(16),
        TokenError::AccountFrozen => ProgramErrorKind::Custom(17),
        TokenError::DecimalsMismatch => ProgramErrorKind::Custom(18),
        TokenError::NotNative => ProgramErrorKind::Custom(19),
        TokenError::ImmutableOwner => ProgramErrorKind::Custom(34),
    }
}

/// The status of an error: what `u64::from` makes of the `ProgramError` of
/// `pinocchio` that the kind stands for. Of that conversion this is taken on
/// trust: it gives 2, 3, 4, 7, 8 and 11 in the upper 32 bits for
/// `InvalidArgument`, `InvalidInstructionData`, `InvalidAccountData`,
/// `IncorrectProgramId`, `MissingRequiredSignature` and `NotEnoughAccountKeys`,
/// and for `Custom` the number, or 1 in the upper 32 bits where the number is 0.
#[verifier::external_body]
fn program_error_status(kind: ProgramErrorKind) -> (status: u64)
    ensures
        status == status_of(kind),
{
    u64::from(match kind {
        ProgramErrorKind::Custom(number) => ProgramError::Custom(number),
        ProgramErrorKind::InvalidArgument => ProgramError::InvalidArgument,
        ProgramErrorKind::InvalidInstructionData => ProgramError::InvalidInstructionData,
        ProgramErrorKind::InvalidAccountData => ProgramError::InvalidAccountData,
        ProgramErrorKind::IncorrectProgramId => ProgramError::IncorrectProgramId,
        ProgramErrorKind::MissingRequiredSignature => ProgramError::MissingRequiredSignature,
        ProgramErrorKind::NotEnoughAccountKeys => ProgramError::NotEnoughAccountKeys,
    })
}

impl TokenError {
    /// How the runtime knows this refusal.
    pub fn program_error(self) -> (kind: ProgramErrorKind)
        ensures
            kind == program_error_of(self),
    {
        match self {
            TokenError::InvalidAccountData => ProgramErrorKind::InvalidAccountData,
            TokenError::InvalidArgument => ProgramErrorKind::InvalidArgument,
            TokenError::InvalidInstructionData => ProgramErrorKind::InvalidInstructionData,
            TokenError::IncorrectProgramId => ProgramErrorKind::IncorrectProgramId,
            TokenError::MissingRequiredSignature => ProgramErrorKind::MissingRequiredSignature,
            TokenError::NotEnoughAccountKeys => ProgramErrorKind::NotEnoughAccountKeys,
            TokenError::InsufficientFunds => ProgramErrorKind::Custom(1),
            TokenError::InvalidMint => ProgramErrorKind::Custom(2),
            TokenError::MintMismatch => ProgramErrorKind::Custom(3),
            TokenError::OwnerMismatch => ProgramErrorKind::Custom(4),
            TokenError::FixedSupply => ProgramErrorKind::Custom(5),
            TokenError::AlreadyInitialized => ProgramErrorKind::Custom(6),
            TokenError::UninitializedState => ProgramErrorKind::Custom(9),
            TokenError::NativeNotSupported => ProgramErrorKind::Custom(10),
            TokenError::NonZeroBalance => ProgramErrorKind::Custom(11),
            TokenError::InvalidState => ProgramErrorKind::Custom(13),
            TokenError::Overflow => ProgramErrorKind::Custom(14),
            TokenError::MintCannotFreeze => ProgramErrorKind::Custom(16),
            TokenError::AccountFrozen => ProgramErrorKind::Custom(17),
            TokenError::DecimalsMismatch => ProgramErrorKind::Custom(18),
            TokenError::NotNative => ProgramErrorKind::Custom(19),
            TokenError::ImmutableOwner => ProgramErrorKind::Custom(34),
        }
    }
}

/// The status that the runtime is handed for the outcome of an instruction:
/// zero for success, and never zero for a refusal.
pub fn status(result: &Result<(), TokenError>) -> (code: u64)
    ensures
        code == match *result {
            Ok(()) => SUCCESS,
            Err(error) => status_of(program_error_of(error)),
        },
        (code == SUCCESS) == (*result is Ok),
{
    match result {
        Ok(()) => SUCCESS,
        Err(error) => program_error_status(error.program_error()),
    }
}

} // verus!
