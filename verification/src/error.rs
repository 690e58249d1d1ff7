//! The engine's error kinds. Every handler rejects its whole message with
//! one of these; no partial mutation is ever committed.

use vstd::prelude::*;

verus! {

/// Why a handler or validator rejected its input.
#[derive(Clone, Copy, PartialEq, Eq, Structural, Debug)]
pub enum ContractError {
    /// Wrong caller for an admin-, treasury- or trigger-gated operation.
    Unauthorized,
    /// An amount is zero where it may not be, or exceeds what is available.
    InvalidAmount,
    /// No withdrawable balance is available.
    NoWithdrawable,
    /// A new operation arrived while the pending-action slot is occupied.
    InvalidAction,
    /// A config update would break the fee-sum invariant or set the
    /// treasury fee at or below its floor.
    InvalidFee,
    /// A withdrawal was attempted with no configured destination.
    InvalidDistributor,
    /// A config update that changes nothing.
    NoData,
    /// Logo bytes do not start with a well-formed XML preamble.
    InvalidXmlPreamble,
    /// Logo bytes do not start with the PNG header.
    InvalidPngHeader,
    /// Logo bytes exceed the size cap.
    LogoTooBig,
}

impl ContractError {
    /// A short description of the error, in words.
    pub fn describe(&self) -> (r: &'static str)
    {
        match self {
            ContractError::Unauthorized => "unauthorized",
            ContractError::InvalidAmount => "invalid amount",
            ContractError::NoWithdrawable => "no withdrawable amount",
            ContractError::InvalidAction => "previous action is not completed",
            ContractError::InvalidFee => "invalid fee",
            ContractError::InvalidDistributor => "reward distributor is not defined",
            ContractError::NoData => "no data in the update",
            ContractError::InvalidXmlPreamble => "invalid xml preamble for svg",
            ContractError::InvalidPngHeader => "invalid png header",
            ContractError::LogoTooBig => "logo binary data exceeds the size limit",
        }
    }
}

} // verus!
