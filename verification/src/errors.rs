//! The error taxonomy of the transfer core.

use vstd::prelude::*;
use vstd::string::StringExecFns;
use crate::text::{decimal, u64_to_string};

verus! {

/// Everything a transfer operation can fail with.
///
/// `InvalidChunkHash` and `FileTooLarge` are reserved: no operation of this
/// crate produces them. `Io` is produced only by the surrounding binary, for
/// storage failures outside this crate's control.
#[derive(Debug, Clone)]
pub enum TransferError {
    /// No active session has the given id.
    TransferNotFound(String),
    /// A chunk index at or past `total_chunks`; carries the declared chunk
    /// count and the offending index.
    ChunkOutOfOrder { expected: usize, got: usize },
    /// Session creation with `chunk_size == 0`.
    InvalidChunkSize,
    /// Completion requested with fewer distinct chunks received than declared.
    IncompleteTransfer { expected: usize, actual: usize },
    /// Reserved: no code path produces it.
    InvalidChunkHash,
    /// Reserved: no code path produces it.
    FileTooLarge,
    /// An underlying storage failure, reported by the caller.
    Io(String),
}

impl TransferError {
    /// What `message` returns, character for character.
    pub open spec fn message_spec(&self) -> Seq<char> {
        match self {
            TransferError::TransferNotFound(id) => "Transfer not found: "@ + id@,
            TransferError::ChunkOutOfOrder { expected, got } => "Chunk out of order: expected "@
                + decimal(*expected as int) + ", got "@ + decimal(*got as int),
            TransferError::InvalidChunkSize => "chunk_size must be greater than 0"@,
            TransferError::IncompleteTransfer { expected, actual } => "Transfer incomplete: expected "@
                + decimal(*expected as int) + " chunks, received "@ + decimal(*actual as int),
            TransferError::InvalidChunkHash => "Invalid chunk hash"@,
            TransferError::FileTooLarge => "File too large"@,
            TransferError::Io(m) => "IO error: "@ + m@,
        }
    }

    /// A human-readable description of the error.
    pub fn message(&self) -> (r: String)
        ensures
            r@ == self.message_spec(),
    {
        match self {
            TransferError::TransferNotFound(id) => {
                String::from_str("Transfer not found: ").concat(id.as_str())
            },
            TransferError::ChunkOutOfOrder { expected, got } => {
                String::from_str("Chunk out of order: expected ").concat(
                    u64_to_string(*expected as u64).as_str(),
                ).concat(", got ").concat(u64_to_string(*got as u64).as_str())
            },
            TransferError::InvalidChunkSize => {
                String::from_str("chunk_size must be greater than 0")
            },
            TransferError::IncompleteTransfer { expected, actual } => {
                String::from_str("Transfer incomplete: expected ").concat(
                    u64_to_string(*expected as u64).as_str(),
                ).concat(" chunks, received ").concat(u64_to_string(*actual as u64).as_str())
            },
            TransferError::InvalidChunkHash => String::from_str("Invalid chunk hash"),
            TransferError::FileTooLarge => String::from_str("File too large"),
            TransferError::Io(m) => String::from_str("IO error: ").concat(m.as_str()),
        }
    }
}

} // verus!
