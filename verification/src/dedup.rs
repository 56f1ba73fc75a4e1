//! Pairwise deduplication: validating a pair of block locations and
//! submitting the byte range to the filesystem's extent-dedup primitive.
//!
//! The primitive compares the ranges byte for byte before merging anything,
//! so a spurious 64-bit hash match can never corrupt data: it only shows up
//! as a `NotIdentical` outcome here.

use vstd::prelude::*;

verus! {

/// One physical byte range of one file, recorded at scan time.
#[derive(Debug)]
pub struct BlockLocation {
    /// Canonical absolute path of the file.
    pub path: String,
    /// Byte offset of the block inside the file.
    pub offset: u64,
    /// Byte count of the block.
    pub length: usize,
}

/// Two locations name the same block: same file path, offset and length.
pub open spec fn loc_eq(a: BlockLocation, b: BlockLocation) -> bool {
    a.path@ == b.path@ && a.offset == b.offset && a.length == b.length
}

impl Clone for BlockLocation {
    fn clone(&self) -> (r: Self)
        ensures
            r == *self,
    {
        BlockLocation { path: self.path.clone(), offset: self.offset, length: self.length }
    }
}

impl PartialEq for BlockLocation {
    fn eq(&self, other: &Self) -> bool {
        self.path == other.path && self.offset == other.offset && self.length == other.length
    }
}

impl vstd::std_specs::cmp::PartialEqSpecImpl for BlockLocation {
    open spec fn obeys_eq_spec() -> bool {
        true
    }

    open spec fn eq_spec(&self, other: &Self) -> bool {
        loc_eq(*self, *other)
    }
}

/// Why one pairing attempt produced no merge.
#[derive(Debug)]
pub enum BlockDedupError {
    /// The pair offered one location against itself: a bookkeeping oddity,
    /// reported but never fatal.
    SameBlock { block: BlockLocation },
    /// Both sides already share physical storage (hardlinks or an earlier
    /// merge): informational, nothing left to do.
    SameExtent { path1: String, path2: String, ino: u64, offset: u64, length: usize },
    /// The filesystem primitive itself reported a failure.
    DedupInternal(String),
    /// One or both files could not be reopened at dedup time.
    FileErrors(Option<String>, Option<String>),
}

/// What came of reopening one side of a pair; the caller performs the open
/// and hands the outcome in as a plain value.
pub enum OpenOutcome {
    /// The file opened; `fd` is its raw descriptor, `ino` its inode number.
    Opened { fd: i32, ino: u64 },
    /// The open failed with this error message.
    Failed { message: String },
}

/// The primitive's per-destination report: the ranges were byte-identical
/// and now share storage, or they differed and nothing was done.
#[derive(Clone, Copy, Debug, PartialEq, Eq, Structural)]
pub enum DedupStatus {
    Same,
    Differs,
}

/// Final outcome of one pairing that reached the primitive.
#[derive(Clone, Copy, Debug, PartialEq, Eq, Structural)]
pub enum DedupOutcome {
    /// The ranges were identical; they now share storage.
    Deduplicated,
    /// The ranges held different bytes; no action was taken. This is the
    /// expected outcome of a hash collision and is not a success.
    NotIdentical,
}

/// The error message of a failed open, if it failed.
pub open spec fn open_failure(o: OpenOutcome) -> Option<String> {
    match o {
        OpenOutcome::Opened { .. } => None,
        OpenOutcome::Failed { message } => Some(message),
    }
}

/// The inode number of a successful open, if it succeeded.
pub open spec fn opened_ino(o: OpenOutcome) -> Option<u64> {
    match o {
        OpenOutcome::Opened { ino, .. } => Some(ino),
        OpenOutcome::Failed { .. } => None,
    }
}

/// At least one side of the pair failed to open.
pub open spec fn opens_failed(o1: OpenOutcome, o2: OpenOutcome) -> bool {
    open_failure(o1) is Some || open_failure(o2) is Some
}

/// Both sides opened and `(inode, offset, length)` agree: the two logical
/// ranges already share the same underlying storage.
pub open spec fn already_shared(
    b1: BlockLocation,
    b2: BlockLocation,
    o1: OpenOutcome,
    o2: OpenOutcome,
) -> bool {
    opened_ino(o1) is Some && opened_ino(o1) == opened_ino(o2) && b1.offset == b2.offset
        && b1.length == b2.length
}

/// Rejects a pair whose two locations are one and the same block, before
/// any file is opened: a self-pairing must trigger no filesystem call.
pub fn dedup_precheck(block1: &BlockLocation, block2: &BlockLocation) -> (r: Result<
    (),
    BlockDedupError,
>)
    ensures
        loc_eq(*block1, *block2) ==> (r matches Err(BlockDedupError::SameBlock { block })
            && loc_eq(block, *block1)),
        !loc_eq(*block1, *block2) ==> r is Ok,
{
    if block1 == block2 {
        Err(BlockDedupError::SameBlock { block: block1.clone() })
    } else {
        Ok(())
    }
}

/// Turns the primitive's raw report into the outcome of the pairing:
/// `Same` is the one and only success; `Differs` is the verified-non-identical
/// outcome (never treated as a merge); a reported failure is wrapped as
/// `DedupInternal` with its reason.
pub fn interpret_primitive(result: Result<DedupStatus, String>) -> (r: Result<
    DedupOutcome,
    BlockDedupError,
>)
    ensures
        result == Ok::<DedupStatus, String>(DedupStatus::Same) ==> r == Ok::<
            DedupOutcome,
            BlockDedupError,
        >(DedupOutcome::Deduplicated),
        result == Ok::<DedupStatus, String>(DedupStatus::Differs) ==> r == Ok::<
            DedupOutcome,
            BlockDedupError,
        >(DedupOutcome::NotIdentical),
        result matches Err(reason) ==> (r matches Err(BlockDedupError::DedupInternal(m)) && m
            == reason),
        (r matches Ok(o) && o == DedupOutcome::Deduplicated) ==> result == Ok::<
            DedupStatus,
            String,
        >(DedupStatus::Same),
{
    match result {
        Ok(DedupStatus::Same) => Ok(DedupOutcome::Deduplicated),
        Ok(DedupStatus::Differs) => Ok(DedupOutcome::NotIdentical),
        Err(reason) => Err(BlockDedupError::DedupInternal(reason)),
    }
}

/// The raw descriptors of two successful opens.
pub open spec fn opened_fd(o: OpenOutcome) -> Option<i32> {
    match o {
        OpenOutcome::Opened { fd, .. } => Some(fd),
        OpenOutcome::Failed { .. } => None,
    }
}

/// A validated request for the filesystem's extent-dedup primitive: compare
/// the source range against exactly one destination range and merge their
/// storage only if the bytes are identical.
#[derive(Clone, Copy, Debug, PartialEq, Eq, Structural)]
pub struct DedupRequest {
    pub src_fd: i32,
    pub src_offset: u64,
    pub src_length: u64,
    pub dst_fd: i32,
    pub dst_offset: u64,
}

/// One pairing attempt, up to the primitive's doorstep: validate the pair
/// against the open outcomes the caller obtained and either reject it with
/// the exact error the situation calls for, or hand back the one request
/// that may be submitted. The caller submits the request and feeds what the
/// primitive reported to `interpret_primitive`.
///
/// A self-pair is rejected again here even though `dedup_precheck` should
/// have caught it before any file was opened, so no path reaches the
/// primitive with an invalid pair.
pub fn prepare_dedup(
    block1: &BlockLocation,
    block2: &BlockLocation,
    open1: OpenOutcome,
    open2: OpenOutcome,
) -> (r: Result<DedupRequest, BlockDedupError>)
    ensures
        loc_eq(*block1, *block2) ==> (r matches Err(BlockDedupError::SameBlock { block })
            && loc_eq(block, *block1)),
        !loc_eq(*block1, *block2) && opens_failed(open1, open2) ==> r == Err::<
            DedupRequest,
            BlockDedupError,
        >(BlockDedupError::FileErrors(open_failure(open1), open_failure(open2))),
        !loc_eq(*block1, *block2) && !opens_failed(open1, open2) && already_shared(
            *block1,
            *block2,
            open1,
            open2,
        ) ==> (r matches Err(BlockDedupError::SameExtent { path1, path2, ino, offset, length })
            && path1 == block1.path && path2 == block2.path && Some(ino) == opened_ino(open1)
            && offset == block1.offset && length == block1.length),
        !loc_eq(*block1, *block2) && !opens_failed(open1, open2) && !already_shared(
            *block1,
            *block2,
            open1,
            open2,
        ) ==> (r matches Ok(q) && Some(q.src_fd) == opened_fd(open1) && q.src_offset
            == block1.offset && q.src_length == block1.length && Some(q.dst_fd) == opened_fd(open2)
            && q.dst_offset == block2.offset),
{
    if block1 == block2 {
        return Err(BlockDedupError::SameBlock { block: block1.clone() });
    }
    match (open1, open2) {
        (OpenOutcome::Opened { fd: fd1, ino: ino1 }, OpenOutcome::Opened { fd: fd2, ino: ino2 }) => {
            if ino1 == ino2 && block1.offset == block2.offset && block1.length == block2.length {
                Err(
                    BlockDedupError::SameExtent {
                        path1: block1.path.clone(),
                        path2: block2.path.clone(),
                        ino: ino1,
                        offset: block1.offset,
                        length: block1.length,
                    },
                )
            } else {
                Ok(
                    DedupRequest {
                        src_fd: fd1,
                        src_offset: block1.offset,
                        src_length: block1.length as u64,
                        dst_fd: fd2,
                        dst_offset: block2.offset,
                    },
                )
            }
        },
        (o1, o2) => {
            let e1 = match o1 {
                OpenOutcome::Failed { message } => Some(message),
                OpenOutcome::Opened { .. } => None,
            };
            let e2 = match o2 {
                OpenOutcome::Failed { message } => Some(message),
                OpenOutcome::Opened { .. } => None,
            };
            Err(BlockDedupError::FileErrors(e1, e2))
        },
    }
}

} // verus!
