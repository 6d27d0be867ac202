//! The failures of a command, and the status that a contract sees.

use vstd::prelude::*;

verus! {

/// Why a command did not complete.
#[derive(Clone, Copy, Debug, PartialEq, Eq, Structural)]
pub enum Error {
    /// The input is malformed, or ends early, or holds more than the command takes.
    DecodeError,
    /// A versioned value carries a version tag that is not understood.
    UnsupportedVersion,
    /// The command number is unknown, or a contract call's destination does
    /// not end in an account.
    InvalidCommand,
    /// Execute or send was called with nothing prepared for it.
    PreparationMissing,
    /// The message's weight could not be computed.
    CannotWeigh,
    /// The message did not execute completely.
    ExecutionFailed,
    /// The message was refused on its way out.
    SendFailed,
    /// No response is there for the query.
    NoResponse,
}

/// The status that a completed command hands back to the contract.
#[derive(Clone, Copy, Debug, PartialEq, Eq, Structural)]
pub enum Status {
    Success,
    NoResponse,
}

impl Status {
    /// The number of the status: 0 for success, 1 for a missing response.
    pub open spec fn code_spec(self) -> u32 {
        match self {
            Status::Success => 0,
            Status::NoResponse => 1,
        }
    }

    /// The number that the contract receives.
    pub fn code(self) -> (code: u32)
        ensures
            code == self.code_spec(),
    {
        match self {
            Status::Success => 0,
            Status::NoResponse => 1,
        }
    }
}

impl Error {
    /// What a status number means to the contract: 0 is success, 1 is a
    /// missing response.
    pub open spec fn from_status_code_spec(status_code: u32) -> Result<(), Error> {
        if status_code == 0 {
            Ok(())
        } else {
            Err(Error::NoResponse)
        }
    }

    /// Reads the status number of a completed command. A command that fails
    /// in any other way does not complete, so no other number arrives.
    pub fn from_status_code(status_code: u32) -> (r: Result<(), Error>)
        requires
            status_code <= 1,
        ensures
            r == Error::from_status_code_spec(status_code),
            r is Ok <==> status_code == Status::Success.code_spec(),
            r == Err::<(), Error>(Error::NoResponse) <==> status_code
                == Status::NoResponse.code_spec(),
    {
        if status_code == 0 {
            Ok(())
        } else {
            Err(Error::NoResponse)
        }
    }
}

} // verus!
