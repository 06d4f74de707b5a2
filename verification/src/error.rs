//! The closed error enumeration that every operation of the core reports.

use vstd::prelude::*;

verus! {

/// Every failure of the instruction-processing core, as a small closed
/// enumeration so that callers can branch programmatically.
#[derive(Debug, Copy, Clone, PartialEq, Eq, Structural)]
pub enum ChatError {
    /// The operation bytes were malformed or carried an unknown tag.
    InvalidInstruction,
    /// The payer cannot cover the minimum funding for the allocation.
    NotRentExempt,
    /// A computed quantity did not match what the caller supplied.
    ExpectedAmountMismatch,
    /// A funding computation overflowed the machine word.
    AmountOverflow,
    /// The required signer is missing, or the caller is not an authorized
    /// party for the record.
    Unauthorized,
    /// The message content exceeds the maximum length.
    MessageTooLong,
    /// The recipient role is missing from the request.
    InvalidRecipient,
    /// A group field is malformed, or a generated group identifier cannot
    /// be used as an address seed.
    InvalidGroup,
    /// A status update addressed a record that does not exist, is not
    /// initialized, or does not decode as a message record.
    MessageNotFound,
    /// The status text is unknown, or the transition is not strictly
    /// forward (sent to delivered to read).
    InvalidStatus,
    /// The target address is already allocated.
    AddressOccupied,
    /// The caller-supplied target address does not equal the derived one.
    InvalidAddress,
}

impl ChatError {
    /// A stable numeric code for reporting the error across the boundary.
    pub open spec fn spec_code(self) -> u32 {
        match self {
            ChatError::InvalidInstruction => 0,
            ChatError::NotRentExempt => 1,
            ChatError::ExpectedAmountMismatch => 2,
            ChatError::AmountOverflow => 3,
            ChatError::Unauthorized => 4,
            ChatError::MessageTooLong => 5,
            ChatError::InvalidRecipient => 6,
            ChatError::InvalidGroup => 7,
            ChatError::MessageNotFound => 8,
            ChatError::InvalidStatus => 9,
            ChatError::AddressOccupied => 10,
            ChatError::InvalidAddress => 11,
        }
    }

    /// The numeric code of this error.
    pub fn code(&self) -> (r: u32)
        ensures
            r == self.spec_code(),
    {
        match self {
            ChatError::InvalidInstruction => 0,
            ChatError::NotRentExempt => 1,
            ChatError::ExpectedAmountMismatch => 2,
            ChatError::AmountOverflow => 3,
            ChatError::Unauthorized => 4,
            ChatError::MessageTooLong => 5,
            ChatError::InvalidRecipient => 6,
            ChatError::InvalidGroup => 7,
            ChatError::MessageNotFound => 8,
            ChatError::InvalidStatus => 9,
            ChatError::AddressOccupied => 10,
            ChatError::InvalidAddress => 11,
        }
    }
}

} // verus!
