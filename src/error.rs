use vstd::prelude::*;

verus! {

/// Every fatal condition that the engine itself can detect.
#[derive(Debug, Clone, Copy, PartialEq, Eq, Structural)]
pub enum PreclearError {
    /// An explicit block size below 16 bytes.
    BlockSizeTooSmall,
    /// An explicit block size that is not a multiple of 16.
    BlockSizeNotMultipleOf16,
    /// Both zero fill and random fill were requested.
    ConflictingWriteModes,
    /// The key text is not valid hexadecimal.
    InvalidKeyHex,
    /// The key does not decode to exactly 32 bytes.
    InvalidKeyLength,
    /// The start offset lies at or beyond the end of the device.
    StartBeyondDisk,
    /// A block index whose first byte lies at or beyond the end of the device.
    BlockOutOfRange,
    /// Read-back data differs from what was written, first at `offset`.
    ValidationFailed { offset: u64 },
}

/// Process exit status for an error: 2 for a validation mismatch, 1 otherwise.
pub open spec fn spec_exit_code(e: PreclearError) -> i32 {
    match e {
        PreclearError::ValidationFailed { .. } => 2,
        _ => 1,
    }
}

impl PreclearError {
    /// The process exit status that reports this error.
    pub fn exit_code(&self) -> (r: i32)
        ensures
            r == spec_exit_code(*self),
    {
        match self {
            PreclearError::ValidationFailed { .. } => 2,
            _ => 1,
        }
    }
}

} // verus!
