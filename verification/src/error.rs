//! The ways an operation on the ledger can fail.

use vstd::prelude::*;
use vstd::string::*;

verus! {

/// Why an operation was refused. Every failure is final for the operation
/// and leaves the ledger's storage as it was.
#[derive(Clone, Copy, Debug, PartialEq, Eq, Structural)]
pub enum OrderbookError {
    /// The request names no known command, lacks a field, or holds more
    /// bytes than its command has fields.
    InvalidInstruction,
    /// The storage region is not owned by this program.
    InvalidOwner,
    /// The storage region already holds an initialized ledger.
    AlreadyInitialized,
    /// The request came with fewer accounts than its command needs.
    NotEnoughAccountKeys,
    /// The storage region does not hold a ledger that can be appended to.
    DeserializationFailure,
    /// The ledger would no longer fit the storage region, or a length would
    /// no longer fit its four-byte field.
    CapacityExceeded,
}

/// The number under which `error` is reported to the host.
pub open spec fn error_code(error: OrderbookError) -> u32 {
    match error {
        OrderbookError::InvalidInstruction => 0,
        OrderbookError::InvalidOwner => 1,
        OrderbookError::AlreadyInitialized => 2,
        OrderbookError::NotEnoughAccountKeys => 3,
        OrderbookError::DeserializationFailure => 4,
        OrderbookError::CapacityExceeded => 5,
    }
}

/// The sentence that describes `error` to a person.
pub open spec fn error_message(error: OrderbookError) -> Seq<char> {
    match error {
        OrderbookError::InvalidInstruction => "Invalid instruction"@,
        OrderbookError::InvalidOwner => "Invalid account owner"@,
        OrderbookError::AlreadyInitialized => "Account already initialized"@,
        OrderbookError::NotEnoughAccountKeys => "Not enough account keys"@,
        OrderbookError::DeserializationFailure => "Account does not hold a ledger"@,
        OrderbookError::CapacityExceeded => "Account capacity exceeded"@,
    }
}

impl OrderbookError {
    /// The number under which this error is reported to the host.
    pub fn code(&self) -> (code: u32)
        ensures
            code == error_code(*self),
    {
        match self {
            OrderbookError::InvalidInstruction => 0,
            OrderbookError::InvalidOwner => 1,
            OrderbookError::AlreadyInitialized => 2,
            OrderbookError::NotEnoughAccountKeys => 3,
            OrderbookError::DeserializationFailure => 4,
            OrderbookError::CapacityExceeded => 5,
        }
    }

    /// The sentence that describes this error to a person.
    pub fn message(&self) -> (text: String)
        ensures
            text@ == error_message(*self),
    {
        match self {
            OrderbookError::InvalidInstruction => String::from_str("Invalid instruction"),
            OrderbookError::InvalidOwner => String::from_str("Invalid account owner"),
            OrderbookError::AlreadyInitialized => String::from_str("Account already initialized"),
            OrderbookError::NotEnoughAccountKeys => String::from_str("Not enough account keys"),
            OrderbookError::DeserializationFailure => String::from_str(
                "Account does not hold a ledger",
            ),
            OrderbookError::CapacityExceeded => String::from_str("Account capacity exceeded"),
        }
    }
}

} // verus!
