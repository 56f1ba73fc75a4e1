//! Block hashing: a file's bytes, read sequentially in fixed-size chunks
//! (the final chunk may be shorter), are mapped to an ordered sequence of
//! 64-bit content hashes. The hash is a fast, collidable checksum, used
//! only as an index key; identity is never concluded from it alone.

use crate::dedup::BlockLocation;
use vstd::prelude::*;
use vstd::slice::slice_subrange;

verus! {

/// The CRC-64 checksum of a byte sequence, as the streaming hasher computes
/// it. A pure function of the bytes; its value is not spelled out here.
pub uninterp spec fn crc64_of(bytes: Seq<u8>) -> u64;

/// Relies on crc64fast::Digest (one write, then sum64): the CRC-64-ECMA
/// checksum of the bytes written, a function of those bytes alone.
#[verifier::external_body]
fn crc64_chunk(chunk: &[u8]) -> (r: u64)
    ensures
        r == crc64_of(chunk@),
{
    let mut digest = crc64fast::Digest::new();
    digest.write(chunk);
    digest.sum64()
}

/// The hash sequence of `bytes` cut into chunks of `block_size`: one hash
/// per chunk, in file order, the final chunk possibly shorter. Empty bytes
/// yield no hashes at all.
pub open spec fn spec_block_hashes(bytes: Seq<u8>, block_size: nat) -> Seq<u64>
    decreases bytes.len(),
{
    if block_size == 0 || bytes.len() == 0 {
        Seq::empty()
    } else if bytes.len() <= block_size {
        seq![crc64_of(bytes)]
    } else {
        seq![crc64_of(bytes.take(block_size as int))] + spec_block_hashes(
            bytes.skip(block_size as int),
            block_size,
        )
    }
}

/// Chunking law, count part: cutting `bytes` into blocks of `block_size`
/// yields exactly the rounded-up quotient of the length, and zero hashes
/// for empty bytes.
pub proof fn lemma_chunk_count(bytes: Seq<u8>, block_size: nat)
    requires
        block_size > 0,
    ensures
        spec_block_hashes(bytes, block_size).len() == (bytes.len() + block_size - 1) / (
        block_size as int),
    decreases bytes.len(),
{
    let bs = block_size as int;
    let n = bytes.len() as int;
    if bytes.len() == 0 {
        assert((0 + bs - 1) / bs == 0) by (nonlinear_arith)
            requires
                bs > 0,
        ;
    } else if bytes.len() <= block_size {
        assert((n + bs - 1) / bs == 1) by (nonlinear_arith)
            requires
                bs > 0 && 0 < n <= bs,
        ;
    } else {
        lemma_chunk_count(bytes.skip(bs), block_size);
        assert(((n - bs) + bs - 1) / bs + 1 == (n + bs - 1) / bs) by (nonlinear_arith)
            requires
                bs > 0 && n > bs,
        ;
    }
}

/// Hashing the same byte content with the same block size yields the
/// identical hash sequence, however many times and wherever it is done.
pub proof fn lemma_hash_determinism(bytes1: Seq<u8>, bytes2: Seq<u8>, block_size: nat)
    requires
        bytes1 == bytes2,
    ensures
        spec_block_hashes(bytes1, block_size) == spec_block_hashes(bytes2, block_size),
{
}

/// Extending fully-chunked bytes by one more chunk appends exactly that
/// chunk's hash.
proof fn lemma_block_hashes_snoc(prefix: Seq<u8>, chunk: Seq<u8>, block_size: nat)
    requires
        block_size > 0,
        prefix.len() % block_size == 0,
        0 < chunk.len() <= block_size,
    ensures
        spec_block_hashes(prefix + chunk, block_size) == spec_block_hashes(
            prefix,
            block_size,
        ).push(crc64_of(chunk)),
    decreases prefix.len(),
{
    let bs = block_size as int;
    if prefix.len() == 0 {
        assert(prefix + chunk =~= chunk);
        assert(spec_block_hashes(chunk, block_size) =~= spec_block_hashes(
            prefix,
            block_size,
        ).push(crc64_of(chunk)));
    } else {
        assert(prefix.len() >= block_size) by (nonlinear_arith)
            requires
                block_size > 0 && prefix.len() % block_size == 0 && prefix.len() > 0,
        ;
        let rest = prefix.skip(bs);
        assert(rest.len() % block_size == 0) by (nonlinear_arith)
            requires
                block_size > 0 && prefix.len() % block_size == 0 && prefix.len()
                    >= block_size && rest.len() == prefix.len() - block_size,
        ;
        assert((prefix + chunk).len() > block_size);
        assert((prefix + chunk).take(bs) =~= prefix.take(bs));
        assert((prefix + chunk).skip(bs) =~= rest + chunk);
        lemma_block_hashes_snoc(rest, chunk, block_size);
        if prefix.len() == block_size {
            assert(rest =~= Seq::<u8>::empty());
            assert(prefix.take(bs) =~= prefix);
            assert(spec_block_hashes(prefix + chunk, block_size) =~= spec_block_hashes(
                prefix,
                block_size,
            ).push(crc64_of(chunk)));
        } else {
            assert(spec_block_hashes(prefix + chunk, block_size) =~= spec_block_hashes(
                prefix,
                block_size,
            ).push(crc64_of(chunk)));
        }
    }
}

/// Why one file's scan was abandoned; the crawl goes on without it.
#[derive(Debug)]
pub enum ScanError {
    /// The file could not be canonicalized, opened, stat'ed or read.
    IoError(String),
}

/// What one scanned file contributes to deduplication: its canonical path,
/// identity metadata, and one content hash per block, in file order.
pub struct ScanResult {
    /// Canonical absolute path of the scanned file.
    pub path: String,
    /// The fixed block size the file was cut into.
    pub block_size: usize,
    /// One hash per block; the index in this vector is the block number.
    pub block_hashes: Vec<u64>,
    /// Length of the final block: the file size modulo the block size, or
    /// the block size itself when the size is a positive exact multiple.
    pub last_block_size: usize,
    /// Modification time at scan time, seconds since the epoch; recorded
    /// for diagnostics only, never used for identity decisions.
    pub mtime: u64,
    /// Inode number at scan time; recorded for diagnostics only.
    pub ino: u64,
}

impl ScanResult {
    /// Structural soundness: a positive block size, a final block that is
    /// nonempty and no longer than a full one, and a file size that fits
    /// the filesystem's 64-bit offsets.
    pub open spec fn wf(&self) -> bool {
        &&& self.block_size > 0
        &&& (self.block_hashes@.len() == 0 ==> self.last_block_size == 0)
        &&& (self.block_hashes@.len() > 0 ==> 0 < self.last_block_size <= self.block_size)
        &&& self.spec_file_size() <= u64::MAX
    }

    /// The size of the scanned file, reconstructed from the block count and
    /// the final block's length.
    pub open spec fn spec_file_size(&self) -> int {
        if self.block_hashes@.len() == 0 {
            0
        } else {
            (self.block_hashes@.len() - 1) * self.block_size + self.last_block_size
        }
    }

    /// The location of block `index`: the byte range it occupied in the
    /// scanned file.
    pub open spec fn spec_block_location(&self, index: int) -> BlockLocation {
        BlockLocation {
            path: self.path,
            offset: (index * self.block_size) as u64,
            length: if index == self.block_hashes@.len() - 1 {
                self.last_block_size
            } else {
                self.block_size
            },
        }
    }

    /// Computes the byte range that block `index` occupied in the file.
    pub fn get_block_location(&self, index: usize) -> (r: BlockLocation)
        requires
            self.wf(),
            index < self.block_hashes@.len(),
        ensures
            r == self.spec_block_location(index as int),
    {
        proof {
            let bs = self.block_size as int;
            let n = self.block_hashes@.len() as int;
            let idx = index as int;
            assert(idx * bs <= (n - 1) * bs) by (nonlinear_arith)
                requires
                    0 <= idx <= n - 1 && bs > 0,
            ;
        }
        BlockLocation {
            path: self.path.clone(),
            offset: (index as u64) * (self.block_size as u64),
            length: if index == self.block_hashes.len() - 1 {
                self.last_block_size
            } else {
                self.block_size
            },
        }
    }
}

/// Chunking law, lengths part: in a well-formed scan every block but the
/// last occupies a full block size, the last block occupies the file size
/// modulo the block size (or a full block when the size is a positive
/// exact multiple), and the block count is the rounded-up quotient of the
/// file size.
pub proof fn lemma_chunking(scan: ScanResult)
    requires
        scan.wf(),
    ensures
        forall|i: int|
            0 <= i < scan.block_hashes@.len() - 1 ==> (#[trigger] scan.spec_block_location(
                i,
            )).length == scan.block_size,
        scan.block_hashes@.len() > 0 ==> scan.spec_block_location(
            scan.block_hashes@.len() - 1,
        ).length == (if scan.spec_file_size() % (scan.block_size as int) == 0 {
            scan.block_size as int
        } else {
            scan.spec_file_size() % (scan.block_size as int)
        }),
        scan.block_hashes@.len() == (scan.spec_file_size() + scan.block_size - 1) / (
        scan.block_size as int),
{
    let bs = scan.block_size as int;
    let n = scan.block_hashes@.len() as int;
    let last = scan.last_block_size as int;
    if n > 0 {
        assert(((n - 1) * bs + last) % bs == (if last == bs {
            0int
        } else {
            last
        })) by (nonlinear_arith)
            requires
                bs > 0 && 0 < last <= bs && n > 0,
        ;
        assert(((n - 1) * bs + last + bs - 1) / bs == n) by (nonlinear_arith)
            requires
                bs > 0 && 0 < last <= bs && n > 0,
        ;
    } else {
        assert((0 + bs - 1) / bs == 0) by (nonlinear_arith)
            requires
                bs > 0,
        ;
    }
}

/// Streams one file's bytes through the hasher, one chunk at a time, so
/// memory use stays bounded by the block size. The ghost `bytes` records
/// everything consumed so far; the hash vector always equals the chunked
/// hashes of exactly those bytes.
pub struct BlockHasher {
    block_size: usize,
    hashes: Vec<u64>,
    tail_len: usize,
    bytes: Ghost<Seq<u8>>,
}

impl BlockHasher {
    /// The bytes consumed so far.
    pub closed spec fn consumed(&self) -> Seq<u8> {
        self.bytes@
    }

    /// The block size this hasher cuts at.
    pub closed spec fn spec_block_size(&self) -> usize {
        self.block_size
    }

    /// Internal soundness: the hashes are exactly the chunked hashes of the
    /// consumed bytes, and the record of the final chunk's length is right.
    pub closed spec fn wf(&self) -> bool {
        &&& self.block_size > 0
        &&& self.hashes@ == spec_block_hashes(self.bytes@, self.block_size as nat)
        &&& (self.hashes@.len() == 0 ==> self.bytes@.len() == 0 && self.tail_len == 0)
        &&& (self.hashes@.len() > 0 ==> 0 < self.tail_len <= self.block_size && self.bytes@.len()
            == (self.hashes@.len() - 1) * self.block_size + self.tail_len)
        &&& self.bytes@.len() <= u64::MAX
    }

    /// Every chunk so far was full, so one more may follow. A short chunk
    /// is the file's final chunk and closes the stream.
    pub closed spec fn accepting(&self) -> bool {
        self.hashes@.len() == 0 || self.tail_len == self.block_size
    }

    /// A fresh hasher that has consumed nothing.
    pub fn new(block_size: usize) -> (r: Self)
        requires
            block_size > 0,
        ensures
            r.wf(),
            r.accepting(),
            r.spec_block_size() == block_size,
            r.consumed() == Seq::<u8>::empty(),
    {
        BlockHasher { block_size, hashes: Vec::new(), tail_len: 0, bytes: Ghost(Seq::empty()) }
    }

    /// Consumes the next chunk: hashes it and appends the hash. Only the
    /// file's final chunk may be shorter than the block size.
    pub fn push_chunk(&mut self, chunk: &[u8])
        requires
            old(self).wf(),
            old(self).accepting(),
            0 < chunk@.len() <= old(self).spec_block_size(),
            old(self).consumed().len() + chunk@.len() <= u64::MAX,
        ensures
            final(self).wf(),
            final(self).spec_block_size() == old(self).spec_block_size(),
            final(self).consumed() == old(self).consumed() + chunk@,
            final(self).accepting() <==> chunk@.len() == old(self).spec_block_size(),
    {
        proof {
            let n = self.hashes@.len() as int;
            let bs = self.block_size as int;
            let len = self.bytes@.len() as int;
            if n == 0 {
                assert(len % bs == 0) by (nonlinear_arith)
                    requires
                        bs > 0 && len == 0,
                ;
            } else {
                assert((n - 1) * bs + bs == n * bs) by (nonlinear_arith);
                assert(len % bs == 0) by (nonlinear_arith)
                    requires
                        bs > 0 && len == n * bs,
                ;
            }
            lemma_block_hashes_snoc(self.bytes@, chunk@, self.block_size as nat);
            assert(((n + 1) - 1) * bs == n * bs);
        }
        let h = crc64_chunk(chunk);
        self.hashes.push(h);
        self.tail_len = chunk.len();
        proof {
            self.bytes@ = self.bytes@ + chunk@;
        }
    }

    /// Closes the stream and packs the hashes, with the file's identity
    /// metadata, into a well-formed `ScanResult`.
    pub fn finish(self, path: String, mtime: u64, ino: u64) -> (r: ScanResult)
        requires
            self.wf(),
        ensures
            r.wf(),
            r.path == path,
            r.block_size == self.spec_block_size(),
            r.block_hashes@ == spec_block_hashes(self.consumed(), self.spec_block_size() as nat),
            r.mtime == mtime,
            r.ino == ino,
            r.spec_file_size() == self.consumed().len(),
    {
        ScanResult {
            path,
            block_size: self.block_size,
            block_hashes: self.hashes,
            last_block_size: self.tail_len,
            mtime,
            ino,
        }
    }
}

/// Hashes in-memory content exactly as a file scan would: cut into blocks
/// of `block_size`, the final block possibly shorter, one hash per block.
/// The caller supplies the identity metadata a file scan would have read.
pub fn scan_bytes(path: String, content: &[u8], block_size: usize, mtime: u64, ino: u64) -> (r:
    ScanResult)
    requires
        block_size > 0,
        content@.len() <= u64::MAX,
    ensures
        r.wf(),
        r.path == path,
        r.block_size == block_size,
        r.block_hashes@ == spec_block_hashes(content@, block_size as nat),
        r.mtime == mtime,
        r.ino == ino,
        r.spec_file_size() == content@.len(),
{
    let mut hasher = BlockHasher::new(block_size);
    let mut i: usize = 0;
    while i < content.len()
        invariant
            hasher.wf(),
            hasher.spec_block_size() == block_size,
            i <= content@.len(),
            content@.len() <= u64::MAX,
            hasher.consumed() == content@.take(i as int),
            i < content@.len() ==> hasher.accepting(),
            i % block_size == 0 || i == content@.len(),
        decreases content@.len() - i,
    {
        let remaining = content.len() - i;
        let end = if remaining < block_size {
            content.len()
        } else {
            i + block_size
        };
        let chunk = slice_subrange(content, i, end);
        hasher.push_chunk(chunk);
        proof {
            assert(content@.take(i as int) + content@.subrange(i as int, end as int)
                =~= content@.take(end as int));
            if end < content@.len() {
                assert((i as int + block_size as int) % (block_size as int) == 0)
                    by (nonlinear_arith)
                    requires
                        block_size as int > 0 && i as int % (block_size as int) == 0,
                ;
            }
        }
        i = end;
    }
    proof {
        assert(content@.take(content@.len() as int) =~= content@);
    }
    hasher.finish(path, mtime, ino)
}

} // verus!
