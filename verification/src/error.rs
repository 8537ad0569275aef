use vstd::prelude::*;

verus! {

/// The program's own error codes, reported to the runtime as
/// `ProgramError::Custom(code)`.
#[derive(Copy, Clone, Debug, Eq, PartialEq)]
pub enum SolDbError {
    WrongOwner,
    PdaMismatch,
    NotTable,
    GrowthTooLarge,
    WrongError,
    NotWritable,
}

/// The numeric code of each error.
pub open spec fn error_code(e: SolDbError) -> u32 {
    match e {
        SolDbError::WrongOwner => 0,
        SolDbError::PdaMismatch => 1,
        SolDbError::NotTable => 2,
        SolDbError::GrowthTooLarge => 3,
        SolDbError::WrongError => 4,
        SolDbError::NotWritable => 5,
    }
}

/// The error that a numeric code names; every code that names no error
/// gives `WrongError`.
pub open spec fn error_from_code(value: u32) -> SolDbError {
    if value == 0 {
        SolDbError::WrongOwner
    } else if value == 1 {
        SolDbError::PdaMismatch
    } else if value == 2 {
        SolDbError::NotTable
    } else if value == 3 {
        SolDbError::GrowthTooLarge
    } else if value == 5 {
        SolDbError::NotWritable
    } else {
        SolDbError::WrongError
    }
}

/// The message that the program logs for each error.
pub open spec fn error_message(e: SolDbError) -> Seq<char> {
    match e {
        SolDbError::WrongOwner => "Error: Account is not owned by this program"@,
        SolDbError::PdaMismatch => "Error: PDA Account is not as expected"@,
        SolDbError::NotTable => "Error: Not a SolTable Account"@,
        SolDbError::GrowthTooLarge => "Error: The growth of the account has exceeded the maximum of 10KB"@,
        SolDbError::WrongError => "Error: Wrong error value"@,
        SolDbError::NotWritable => "Error: Account is not writable"@,
    }
}

impl SolDbError {
    /// The message that the program logs for this error.
    pub fn to_str(&self) -> (s: &'static str)
        ensures
            s@ == error_message(*self),
    {
        match self {
            SolDbError::WrongOwner => "Error: Account is not owned by this program",
            SolDbError::PdaMismatch => "Error: PDA Account is not as expected",
            SolDbError::NotTable => "Error: Not a SolTable Account",
            SolDbError::GrowthTooLarge => {
                "Error: The growth of the account has exceeded the maximum of 10KB"
            },
            SolDbError::WrongError => "Error: Wrong error value",
            SolDbError::NotWritable => "Error: Account is not writable",
        }
    }

    /// The numeric code of this error.
    pub fn code(&self) -> (c: u32)
        ensures
            c == error_code(*self),
    {
        match self {
            SolDbError::WrongOwner => 0,
            SolDbError::PdaMismatch => 1,
            SolDbError::NotTable => 2,
            SolDbError::GrowthTooLarge => 3,
            SolDbError::WrongError => 4,
            SolDbError::NotWritable => 5,
        }
    }
}


/// The failures that the program reports to the runtime. Each variant stands
/// for the runtime error of the same name; `Custom` carries the code of a
/// `SolDbError`.
#[derive(Copy, Clone, Debug, Eq, PartialEq)]
pub enum ProgramError {
    Custom(u32),
    InvalidInstructionData,
    InvalidAccountData,
    InvalidSeeds,
    NotEnoughAccountKeys,
    MissingRequiredSignature,
    IncorrectProgramId,
    /// Account data could not be encoded (a list grew past `u32::MAX` items).
    BorshIoError,
    /// No bump seed gives an address off the curve, or the seeds exceed the
    /// limits of a program address (more than 16 seeds, or one longer than
    /// 32 bytes). The address search itself gives up here.
    UnviableProgramAddress,
}

impl From<SolDbError> for ProgramError {
    fn from(value: SolDbError) -> (r: ProgramError) {
        ProgramError::Custom(value.code())
    }
}

impl vstd::std_specs::convert::FromSpecImpl<SolDbError> for ProgramError {
    open spec fn obeys_from_spec() -> bool {
        true
    }

    open spec fn from_spec(value: SolDbError) -> ProgramError {
        ProgramError::Custom(error_code(value))
    }
}

impl TryFrom<u32> for SolDbError {
    type Error = SolDbError;

    /// Reads an error back from its code. Every code is accepted: one that
    /// names no error gives `WrongError`.
    fn try_from(value: u32) -> (r: Result<SolDbError, SolDbError>) {
        if value == 0 {
            Ok(SolDbError::WrongOwner)
        } else if value == 1 {
            Ok(SolDbError::PdaMismatch)
        } else if value == 2 {
            Ok(SolDbError::NotTable)
        } else if value == 3 {
            Ok(SolDbError::GrowthTooLarge)
        } else if value == 5 {
            Ok(SolDbError::NotWritable)
        } else {
            Ok(SolDbError::WrongError)
        }
    }
}

impl vstd::std_specs::convert::TryFromSpecImpl<u32> for SolDbError {
    open spec fn obeys_try_from_spec() -> bool {
        true
    }

    open spec fn try_from_spec(value: u32) -> Result<SolDbError, SolDbError> {
        Ok(error_from_code(value))
    }
}

/// Every error survives the trip through its numeric code.
pub proof fn lemma_code_round_trip(e: SolDbError)
    ensures
        error_from_code(error_code(e)) == e,
{
}

} // verus!
