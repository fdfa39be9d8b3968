//! What can go wrong while a transaction is journalled or committed.

use vstd::prelude::*;

verus! {

/// The kind of durable record that a write looked for.
#[derive(Clone, Copy, Debug, PartialEq, Eq, Structural)]
pub enum RecordKind {
    EvmAccount,
    EvmContract,
}

/// A failure of the durable store.
#[derive(Clone, Copy, Debug, PartialEq, Eq, Structural)]
pub enum StdError {
    /// No record of this kind is stored under the address written to.
    NotFound { kind: RecordKind },
}

/// A caller protocol that was broken. None of these is bad input: the
/// host must abort on them.
#[derive(Clone, Copy, Debug, PartialEq, Eq, Structural)]
pub enum Violation {
    /// A diff deletes an address that has no contract record.
    DeleteOfNonContract,
    /// A diff carries a nonce below the stored one.
    NonceNotIncreasing,
}

/// Why a message to the execution layer failed.
#[derive(Clone, Copy, Debug, PartialEq, Eq, Structural)]
pub enum ContractError {
    Std(StdError),
    /// A transfer's source holds less than the value to move.
    InsufficientFunds,
    ContractCreationFailed,
    /// The bytes of an unsigned transaction do not decode.
    InvalidTransactionData,
    /// A transfer would lift its target's balance over the 256-bit range.
    BalanceOverflow,
    /// A nonce does not fit the 64 bits that durable accounts keep.
    NonceOverflow,
    InvalidTxChunks,
    TxChunksMissing,
    QueryChangedState,
    /// Unrecoverable: the diff does not follow from the stored state.
    ProtocolViolation(Violation),
}

impl ContractError {
    /// The error in words.
    pub open spec fn description(self) -> Seq<char> {
        match self {
            ContractError::Std(StdError::NotFound { kind: RecordKind::EvmAccount }) => {
                "EvmAccount not found"@
            },
            ContractError::Std(StdError::NotFound { kind: RecordKind::EvmContract }) => {
                "EvmContract not found"@
            },
            ContractError::InsufficientFunds => {
                "Terranova EVM transfer failed due to insufficient funds in the caller account"@
            },
            ContractError::ContractCreationFailed => "Contract creation failed"@,
            ContractError::InvalidTransactionData => "The unsigned transaction is invalid"@,
            ContractError::BalanceOverflow => "An account balance overflowed"@,
            ContractError::NonceOverflow => "An account nonce overflowed"@,
            ContractError::InvalidTxChunks => {
                "The collected chunks of the transaction do not match the provided hash"@
            },
            ContractError::TxChunksMissing => {
                "One or more of the chunks for this transaction are still missing"@
            },
            ContractError::QueryChangedState => {
                "The provided query is invalid because it tried to incur a state change"@
            },
            ContractError::ProtocolViolation(Violation::DeleteOfNonContract) => {
                "An account without a contract was to be deleted"@
            },
            ContractError::ProtocolViolation(Violation::NonceNotIncreasing) => {
                "An account nonce was to be lowered"@
            },
        }
    }

    /// The error in words.
    pub fn message(&self) -> (r: &'static str)
        ensures
            r@ == self.description(),
    {
        match self {
            ContractError::Std(StdError::NotFound { kind: RecordKind::EvmAccount }) => {
                "EvmAccount not found"
            },
            ContractError::Std(StdError::NotFound { kind: RecordKind::EvmContract }) => {
                "EvmContract not found"
            },
            ContractError::InsufficientFunds => {
                "Terranova EVM transfer failed due to insufficient funds in the caller account"
            },
            ContractError::ContractCreationFailed => "Contract creation failed",
            ContractError::InvalidTransactionData => "The unsigned transaction is invalid",
            ContractError::BalanceOverflow => "An account balance overflowed",
            ContractError::NonceOverflow => "An account nonce overflowed",
            ContractError::InvalidTxChunks => {
                "The collected chunks of the transaction do not match the provided hash"
            },
            ContractError::TxChunksMissing => {
                "One or more of the chunks for this transaction are still missing"
            },
            ContractError::QueryChangedState => {
                "The provided query is invalid because it tried to incur a state change"
            },
            ContractError::ProtocolViolation(Violation::DeleteOfNonContract) => {
                "An account without a contract was to be deleted"
            },
            ContractError::ProtocolViolation(Violation::NonceNotIncreasing) => {
                "An account nonce was to be lowered"
            },
        }
    }
}

/// Why a journal operation stopped the frame that asked for it.
#[derive(Clone, Copy, Debug, PartialEq, Eq, Structural)]
pub enum ExitError {
    /// The source of a transfer holds less than the value to move.
    OutOfFund,
    /// The target's balance would leave the 256-bit range.
    InvalidRange,
    /// The nonce already is the largest 256-bit value.
    MaxNonce,
}

/// A result without a value that is no error is `Ok(())`.
pub proof fn lemma_ok_is_unit(r: Result<(), ContractError>)
    requires
        r is Ok,
    ensures
        r == Ok::<(), ContractError>(()),
{
    match r {
        Ok(u) => {
            assert(u == ());
        },
        Err(_) => {},
    }
}

} // verus!
