//! The errors of the land program and the codes under which they are reported.

use vstd::prelude::*;

verus! {

/// What the land program can find wrong with a request.
#[derive(Clone, Copy, Debug, PartialEq, Eq, Structural)]
pub enum LandError {
    /// The account is already in use.
    AlreadyInUse,
    /// A required signature is missing.
    SignatureError,
    /// The land plane account is uninitialised.
    LandPlaneAccUninitialised,
    /// The account's balance is below the rent-exempt threshold.
    NotRentExempt,
    /// The account's data has the wrong size for the record.
    IncorrectDataSize,
    /// Every plot of the plane has been handed out.
    LandComplete,
    /// The land asset account is not the one derived for the next plot.
    InvalidLandAssetAccKey,
    /// The land asset account is uninitialised.
    LandAssetAccUninitialised,
}

impl LandError {
    /// The code under which the ledger reports this error: the variant's
    /// position in the declaration, counted from zero.
    pub open spec fn spec_code(self) -> u32 {
        match self {
            LandError::AlreadyInUse => 0,
            LandError::SignatureError => 1,
            LandError::LandPlaneAccUninitialised => 2,
            LandError::NotRentExempt => 3,
            LandError::IncorrectDataSize => 4,
            LandError::LandComplete => 5,
            LandError::InvalidLandAssetAccKey => 6,
            LandError::LandAssetAccUninitialised => 7,
        }
    }

    /// The code under which the ledger reports this error.
    #[verifier::when_used_as_spec(spec_code)]
    pub fn code(self) -> (code: u32)
        ensures
            code == self.spec_code(),
    {
        match self {
            LandError::AlreadyInUse => 0,
            LandError::SignatureError => 1,
            LandError::LandPlaneAccUninitialised => 2,
            LandError::NotRentExempt => 3,
            LandError::IncorrectDataSize => 4,
            LandError::LandComplete => 5,
            LandError::InvalidLandAssetAccKey => 6,
            LandError::LandAssetAccUninitialised => 7,
        }
    }
}

/// The errors with which a request to the land program can end: those of the
/// program itself, under their codes, and those that arise before its own
/// checks can be made.
#[derive(Clone, Copy, Debug, PartialEq, Eq, Structural)]
pub enum ProgramError {
    /// An error of the program's own, under its code.
    Custom(u32),
    /// An account handed over in support of the request could not be read
    /// as what it was handed over for.
    InvalidArgument,
    /// The request names fewer accounts than the operation reads.
    NotEnoughAccountKeys,
    /// Instruction or record bytes do not decode.
    BorshIoError,
}

impl LandError {
    /// This error as the ledger reports it.
    pub open spec fn reported(self) -> ProgramError {
        ProgramError::Custom(self.spec_code())
    }
}

impl From<LandError> for ProgramError {
    fn from(e: LandError) -> (err: ProgramError) {
        ProgramError::Custom(e.code())
    }
}

impl vstd::std_specs::convert::FromSpecImpl<LandError> for ProgramError {
    open spec fn obeys_from_spec() -> bool {
        true
    }

    open spec fn from_spec(e: LandError) -> ProgramError {
        e.reported()
    }
}

/// The outcome of an operation of the land program that hands nothing back.
pub type ProgramResult = Result<(), ProgramError>;

/// Two errors of the land program are never reported under one code.
pub proof fn lemma_codes_distinct(a: LandError, b: LandError)
    ensures
        a.spec_code() == b.spec_code() <==> a == b,
        a.reported() == b.reported() <==> a == b,
{
}

} // verus!
