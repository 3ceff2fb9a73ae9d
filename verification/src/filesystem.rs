//! The ramdisk: a tar archive the boot loader hands over as a module.
use vstd::prelude::*;
use tar_no_std::{CorruptDataError, TarArchiveRef};

verus! {

/// Why a tar archive was refused.
#[derive(Debug, Clone, Copy, PartialEq, Eq, Structural)]
pub enum ArchiveError {
    EmptyArchive,
    InvalidBlockSize,
    TooShort { byte_count: usize, block_count: usize },
    InvalidChecksum { block_index: usize },
    InvalidTypeFlag { block_index: usize },
    InvalidPayloadSize { block_index: usize },
    PayloadExtendsBeyondArchive { block_index: usize },
    MissingTerminator,
}

/// A refusal for reason `e`.
pub open spec fn refused(e: ArchiveError) -> Result<(), ArchiveError> {
    Err(e)
}

/// Acceptance.
pub open spec fn accepted() -> Result<(), ArchiveError> {
    Ok(())
}

/// The refusal of an archive of `len` bytes, fewer than three blocks.
pub open spec fn too_short(len: nat) -> ArchiveError {
    ArchiveError::TooShort { byte_count: len as usize, block_count: (len / 512) as usize }
}

/// Size in bytes of a tar block.
pub const BLOCKSIZE: usize = 512;

/// The verdict of the tar reader's validation on the archive bytes `data`.
pub uninterp spec fn tar_validation(data: Seq<u8>) -> Result<(), ArchiveError>;

/// Validates `data` as a tar archive with `TarArchiveRef::new` from
/// `tar_no_std`. Its verdict depends on the bytes alone and is named
/// `tar_validation`. As the crate's source shows, it refuses empty data, data
/// whose length is not a multiple of 512, and data of fewer than three
/// blocks, in that order, and it accepts data of three or more whole blocks
/// whose first two blocks are all zero. What it decides on other archives
/// (header checksums, type flags, payload sizes, terminator) is left to the
/// name.
#[verifier::external_body]
fn validate_tar(data: &[u8]) -> (r: Result<(), ArchiveError>)
    ensures
        r == tar_validation(data@),
        data@.len() == 0 ==> r == refused(ArchiveError::EmptyArchive),
        data@.len() > 0 && data@.len() % 512 != 0 ==> r == refused(ArchiveError::InvalidBlockSize),
        data@.len() > 0 && data@.len() % 512 == 0 && data@.len() / 512 < 3 ==> r == refused(too_short(data@.len())),
        data@.len() % 512 == 0 && data@.len() >= 1536 && (forall|i: int| 0 <= i < 1024 ==> data@[i] == 0) ==> r
            == accepted(),
{
    match TarArchiveRef::new(data) {
        Ok(_) => Ok(()),
        Err(CorruptDataError::EmptyArchive) => Err(ArchiveError::EmptyArchive),
        Err(CorruptDataError::InvalidBlockSize) => Err(ArchiveError::InvalidBlockSize),
        Err(CorruptDataError::TooShort { byte_count, block_count }) => Err(ArchiveError::TooShort { byte_count, block_count }),
        Err(CorruptDataError::InvalidChecksum { block_index }) => Err(ArchiveError::InvalidChecksum { block_index }),
        Err(CorruptDataError::InvalidTypeFlag { block_index }) => Err(ArchiveError::InvalidTypeFlag { block_index }),
        Err(CorruptDataError::InvalidPayloadSize { block_index }) => Err(ArchiveError::InvalidPayloadSize { block_index }),
        Err(CorruptDataError::PayloadExtendsBeyondArchive { block_index }) => Err(ArchiveError::PayloadExtendsBeyondArchive { block_index }),
        Err(CorruptDataError::MissingTerminator) => Err(ArchiveError::MissingTerminator),
    }
}

/// Opens the ramdisk `data` as a tar archive: `Ok` when the archive is
/// valid, else why it is not.
pub fn init_filesystem(data: &[u8]) -> (r: Result<(), ArchiveError>)
    ensures
        r == tar_validation(data@),
        data@.len() == 0 ==> r == refused(ArchiveError::EmptyArchive),
        data@.len() > 0 && data@.len() % 512 != 0 ==> r == refused(ArchiveError::InvalidBlockSize),
        data@.len() > 0 && data@.len() % 512 == 0 && data@.len() / 512 < 3 ==> r == refused(too_short(data@.len())),
        data@.len() % 512 == 0 && data@.len() >= 1536 && (forall|i: int| 0 <= i < 1024 ==> data@[i] == 0) ==> r
            == accepted(),
{
    validate_tar(data)
}

} // verus!
