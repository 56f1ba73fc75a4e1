//! Verified core of a block-level deduplication tool for copy-on-write
//! filesystems: a streaming block hasher, a first-writer-wins hash index,
//! a bounded hand-off queue, and the pairwise dedup protocol around the
//! filesystem's extent-dedup primitive. The content hash is fast and
//! collidable; the primitive's own byte-for-byte comparison is the sole
//! authority for identity, so no hash collision can merge differing data.

pub mod channel;
pub mod dedup;
pub mod index;
pub mod scan;
