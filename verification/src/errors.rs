use vstd::prelude::*;

verus! {

/// Malformed hexadecimal text handed to the codec.
#[derive(Debug, Clone, Copy, PartialEq, Eq, Structural)]
pub enum CodecError {
    /// A character outside `0-9a-fA-F` appeared among the digits.
    InvalidDigit,
}

/// Protocol-level failures while decoding a JSON-RPC response envelope.
#[derive(Debug, Clone, Copy, PartialEq, Eq, Structural)]
pub enum ProtocolError {
    /// The raw bytes are not a JSON object of the expected overall shape.
    Malformed,
    /// A `result` field is present but no `id` accompanies it, so the
    /// result cannot be interpreted.
    IdNotYetKnown,
    /// The echoed id names no call in the registry.
    UnknownCallId,
    /// The `result` JSON has a different shape than the call's decode rule expects.
    MismatchedTypes,
    /// Both `result` and `error` are absent, or both are present.
    AmbiguousEnvelope,
    /// The `result` was a hex scalar but its text was not valid hexadecimal.
    BadHexScalar,
}

/// Transport-level failures, opaque to this core.
#[derive(Debug, PartialEq, Eq)]
pub enum TransportError {
    /// The network side failed; the text is whatever the transport said.
    Failed(String),
    /// A batch answer did not hold one result per submitted call.
    BatchLengthMismatch,
}

/// Failures of the transaction cache.
#[derive(Debug, PartialEq, Eq)]
pub enum CacheError {
    /// A resource needed by the cache could not be found.
    NotFound(String),
    /// Two distinct cache entries matched one (block number, transaction index)
    /// pair, which must identify at most one transaction.
    DuplicateBlockIndex,
    /// A persisted blob could not be decoded back into a cache.
    CorruptPersistedData,
}

/// Failures while reading the claimed-transaction CSV input.
#[derive(Debug, Clone, Copy, PartialEq, Eq, Structural)]
pub enum ReconciliationError {
    /// The header row is missing or does not name the expected columns.
    BadHeader,
    /// A data row does not have exactly three fields.
    BadRowShape,
    /// A numeric column holds something other than a number in range.
    BadNumber,
}

/// Failures of the transaction validator as a whole.
#[derive(Debug, PartialEq, Eq)]
pub enum TransactionValidatorError {
    /// The claimed-transaction CSV could not be read.
    Csv(ReconciliationError),
    /// The cache broke one of its invariants.
    Cache(CacheError),
}

/// Failures while assembling a client configuration.
#[derive(Debug, PartialEq, Eq)]
pub enum ClientError {
    /// A required configuration item was not supplied.
    MustSpecify(String),
}

/// Failures of the transaction crawl bounds.
#[derive(Debug, Clone, Copy, PartialEq, Eq, Structural)]
pub enum TransactionFinderError {
    /// The requested range runs from a later block to an earlier one.
    ImpossibleTo,
}

/// Failures while converting text into a block-string keyword.
#[derive(Debug, Clone, Copy, PartialEq, Eq, Structural)]
pub enum BlockStringError {
    /// The text names none of `latest`, `earliest`, `pending`.
    Convert,
}

} // verus!
