use vstd::prelude::*;
use crate::error::PreclearError;
use crate::key::{KeyMaterial, KEY_LEN, is_hex_text, without_dashes, hex_decoded};
use crate::plan::validate_block_size;

verus! {

/// What the write pass puts on the device, if there is one.
#[derive(Debug, Clone, Copy, PartialEq, Eq, Structural)]
pub enum WriteMode {
    /// No write pass: the verify pass only measures read speed.
    ReadOnly,
    /// Write zero bytes.
    Zero,
    /// Write the fill pattern of the key.
    Random,
}

impl WriteMode {
    pub open spec fn writes(self) -> bool {
        !(self is ReadOnly)
    }

    /// Whether this mode has a write pass.
    pub fn has_write_pass(&self) -> (r: bool)
        ensures
            r == self.writes(),
    {
        !matches!(self, WriteMode::ReadOnly)
    }

    /// The mode that the two write flags ask for.
    pub open spec fn spec_from_flags(write_random: bool, write_zero: bool) -> WriteMode {
        if write_random {
            WriteMode::Random
        } else if write_zero {
            WriteMode::Zero
        } else {
            WriteMode::ReadOnly
        }
    }

    /// Picks the mode from the random-fill and zero-fill flags; asking for
    /// both is an error.
    pub fn from_flags(write_random: bool, write_zero: bool) -> (r: Result<WriteMode, PreclearError>)
        ensures
            write_random && write_zero <==> r == Err::<WriteMode, PreclearError>(
                PreclearError::ConflictingWriteModes,
            ),
            !(write_random && write_zero) ==> r == Ok::<WriteMode, PreclearError>(
                WriteMode::spec_from_flags(write_random, write_zero),
            ),
    {
        if write_random && write_zero {
            Err(PreclearError::ConflictingWriteModes)
        } else if write_random {
            Ok(WriteMode::Random)
        } else if write_zero {
            Ok(WriteMode::Zero)
        } else {
            Ok(WriteMode::ReadOnly)
        }
    }
}

/// The first configuration error among the user's settings, checked in this
/// order: block size, write modes, key.
pub open spec fn options_error(
    block_size: Option<u64>,
    write_random: bool,
    write_zero: bool,
    key_text: Option<Seq<u8>>,
) -> Option<PreclearError> {
    if block_size matches Some(b) && b < 16 {
        Some(PreclearError::BlockSizeTooSmall)
    } else if block_size matches Some(b) && b % 16 != 0 {
        Some(PreclearError::BlockSizeNotMultipleOf16)
    } else if write_random && write_zero {
        Some(PreclearError::ConflictingWriteModes)
    } else if key_text matches Some(t) && !is_hex_text(without_dashes(t)) {
        Some(PreclearError::InvalidKeyHex)
    } else if key_text matches Some(t) && without_dashes(t).len() != 2 * KEY_LEN {
        Some(PreclearError::InvalidKeyLength)
    } else {
        None
    }
}

/// The user's settings for one run, validated.
pub struct Options {
    /// Explicit block size; `None` lets the device size decide.
    pub block_size: Option<u64>,
    /// Byte offset at which both passes begin.
    pub start_at: u64,
    pub mode: WriteMode,
    /// Explicit key; `None` asks for a random one.
    pub key: Option<KeyMaterial>,
}

impl Options {
    pub open spec fn wf(&self) -> bool {
        self.block_size matches Some(b) ==> b >= 16 && b % 16 == 0
    }

    /// Validates the settings, before any device I/O.
    pub fn new(
        block_size: Option<u64>,
        start_at: u64,
        write_random: bool,
        write_zero: bool,
        key_text: Option<&[u8]>,
    ) -> (r: Result<Options, PreclearError>)
        ensures
            ({
                let e = options_error(
                    block_size,
                    write_random,
                    write_zero,
                    match key_text {
                        Some(t) => Some(t@),
                        None => None,
                    },
                );
                &&& e is Some <==> r is Err
                &&& e matches Some(err) ==> r == Err::<Options, PreclearError>(err)
            }),
            r matches Ok(o) ==> {
                &&& o.wf()
                &&& o.block_size == block_size
                &&& o.start_at == start_at
                &&& o.mode == WriteMode::spec_from_flags(write_random, write_zero)
                &&& key_text is None <==> o.key is None
                &&& key_text matches Some(t) ==> o.key matches Some(k) && k@ == hex_decoded(
                    without_dashes(t@),
                )
            },
    {
        if let Some(b) = block_size {
            if let Err(e) = validate_block_size(b) {
                return Err(e);
            }
        }
        let mode = match WriteMode::from_flags(write_random, write_zero) {
            Ok(m) => m,
            Err(e) => {
                return Err(e);
            },
        };
        let key = match key_text {
            Some(t) => match KeyMaterial::from_hex(t) {
                Ok(k) => Some(k),
                Err(e) => {
                    return Err(e);
                },
            },
            None => None,
        };
        Ok(Options { block_size, start_at, mode, key })
    }
}

} // verus!
