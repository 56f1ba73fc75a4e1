//! The dedup index: a single-owner mapping from content hash to the first
//! block location observed with that hash. Entries are never removed or
//! replaced for the lifetime of a run, so every later block with a known
//! hash is paired against the original first-seen location.

use crate::dedup::BlockLocation;
use crate::scan::ScanResult;
use std::collections::HashMap;
use vstd::prelude::*;

verus! {

broadcast use vstd::std_specs::hash::group_hash_axioms;

/// The index after folding in the first `n` blocks of `scan`, starting
/// from `m`: a miss inserts the block's location, a hit changes nothing.
pub open spec fn spec_index_after(
    m: Map<u64, BlockLocation>,
    scan: ScanResult,
    n: int,
) -> Map<u64, BlockLocation>
    decreases n,
{
    if n <= 0 {
        m
    } else {
        let prev = spec_index_after(m, scan, n - 1);
        let h = scan.block_hashes@[n - 1];
        if prev.contains_key(h) {
            prev
        } else {
            prev.insert(h, scan.spec_block_location(n - 1))
        }
    }
}

/// The pairings attempted while folding in the first `n` blocks of `scan`:
/// for each hit, the indexed first-seen location (donor) against the
/// current block's location, in ascending block order.
pub open spec fn spec_pairs_after(
    m: Map<u64, BlockLocation>,
    scan: ScanResult,
    n: int,
) -> Seq<(BlockLocation, BlockLocation)>
    decreases n,
{
    if n <= 0 {
        Seq::empty()
    } else {
        let prev_pairs = spec_pairs_after(m, scan, n - 1);
        let prev = spec_index_after(m, scan, n - 1);
        let h = scan.block_hashes@[n - 1];
        if prev.contains_key(h) {
            prev_pairs.push((prev[h], scan.spec_block_location(n - 1)))
        } else {
            prev_pairs
        }
    }
}

/// Single-owner mapping from content hash to the first location observed
/// with it. Owned and mutated by exactly one consumer; empty at the start
/// of a run and discarded at its end.
pub struct DedupIndex {
    map: HashMap<u64, BlockLocation>,
}

impl DedupIndex {
    /// The mapping the index currently holds.
    pub closed spec fn view(&self) -> Map<u64, BlockLocation> {
        self.map@
    }

    /// An empty index: no hash has been seen yet.
    pub fn new() -> (r: Self)
        ensures
            r@ == Map::<u64, BlockLocation>::empty(),
    {
        DedupIndex { map: HashMap::new() }
    }

    /// Resolves one hashed block: a first-seen hash is recorded with this
    /// location and no pairing is owed; a known hash leaves the index
    /// untouched and hands back the first-seen location to pair against.
    pub fn resolve_block(&mut self, hash: u64, location: BlockLocation) -> (r: Option<
        BlockLocation,
    >)
        ensures
            old(self)@.contains_key(hash) ==> final(self)@ == old(self)@ && r == Some(
                old(self)@[hash],
            ),
            !old(self)@.contains_key(hash) ==> final(self)@ == old(self)@.insert(hash, location)
                && r is None,
    {
        if self.map.contains_key(&hash) {
            let first = self.map.get(&hash).unwrap();
            Some(first.clone())
        } else {
            self.map.insert(hash, location);
            None
        }
    }

    /// How many distinct hashes have been recorded.
    pub fn len(&self) -> (r: usize)
        ensures
            r == self@.dom().len(),
    {
        self.map.len()
    }

    /// The consumer's step for one received scan: folds the scan's blocks
    /// into the index in ascending block order and collects the pairings
    /// to attempt, each one donor-first.
    pub fn pair_blocks(&mut self, scan: &ScanResult) -> (pairs: Vec<
        (BlockLocation, BlockLocation),
    >)
        requires
            scan.wf(),
        ensures
            final(self)@ == spec_index_after(old(self)@, *scan, scan.block_hashes@.len() as int),
            pairs@ == spec_pairs_after(old(self)@, *scan, scan.block_hashes@.len() as int),
    {
        let mut pairs: Vec<(BlockLocation, BlockLocation)> = Vec::new();
        let n = scan.block_hashes.len();
        let mut i: usize = 0;
        while i < n
            invariant
                scan.wf(),
                n == scan.block_hashes@.len(),
                i <= n,
                self@ == spec_index_after(old(self)@, *scan, i as int),
                pairs@ == spec_pairs_after(old(self)@, *scan, i as int),
            decreases n - i,
        {
            let hash = scan.block_hashes[i];
            let location = scan.get_block_location(i);
            match self.resolve_block(hash, location) {
                Some(first) => {
                    let duplicate = scan.get_block_location(i);
                    pairs.push((first, duplicate));
                },
                None => {},
            }
            i = i + 1;
        }
        pairs
    }
}

/// An entry, once present, survives any amount of folding unchanged: the
/// index keeps the first writer's location whatever arrives later.
pub proof fn lemma_index_stable(m: Map<u64, BlockLocation>, scan: ScanResult, n: int, h: u64)
    requires
        m.contains_key(h),
    ensures
        spec_index_after(m, scan, n).contains_key(h),
        spec_index_after(m, scan, n)[h] == m[h],
    decreases n,
{
    if n > 0 {
        lemma_index_stable(m, scan, n - 1, h);
    }
}

/// The least index in `hashes` holding `h`, or the length when none does.
pub open spec fn first_index_with_hash(hashes: Seq<u64>, h: u64) -> int
    decreases hashes.len(),
{
    if hashes.len() == 0 {
        0
    } else if hashes[0] == h {
        0
    } else {
        1 + first_index_with_hash(hashes.drop_first(), h)
    }
}

/// What `first_index_with_hash` returns when `h` occurs: an in-range index
/// holding `h`, with no earlier occurrence.
pub proof fn lemma_first_index(hashes: Seq<u64>, h: u64)
    requires
        exists|i: int| 0 <= i < hashes.len() && hashes[i] == h,
    ensures
        0 <= first_index_with_hash(hashes, h) < hashes.len(),
        hashes[first_index_with_hash(hashes, h)] == h,
        forall|j: int| 0 <= j < first_index_with_hash(hashes, h) ==> hashes[j] != h,
    decreases hashes.len(),
{
    if hashes.len() == 0 {
    } else if hashes[0] == h {
    } else {
        let rest = hashes.drop_first();
        let w = choose|i: int| 0 <= i < hashes.len() && hashes[i] == h;
        assert(rest[w - 1] == h);
        lemma_first_index(rest, h);
        let f = first_index_with_hash(rest, h);
        assert(hashes[1 + f] == rest[f]);
        assert forall|j: int| 1 <= j < 1 + f implies #[trigger] hashes[j] != h by {
            assert(hashes[j] == rest[j - 1]);
            assert(rest[j - 1] != h);
        }
    }
}

/// What the index maps a hash to after a fold: an entry present at the
/// start survives unchanged; a hash first seen during the scan ends up
/// with the location of its first occurrence there.
proof fn lemma_index_entry_first(m: Map<u64, BlockLocation>, scan: ScanResult, n: int, h: u64)
    requires
        0 <= n <= scan.block_hashes@.len(),
    ensures
        spec_index_after(m, scan, n).contains_key(h) <==> (m.contains_key(h) || exists|i: int|
            0 <= i < n && scan.block_hashes@[i] == h),
        m.contains_key(h) ==> spec_index_after(m, scan, n)[h] == m[h],
        !m.contains_key(h) && spec_index_after(m, scan, n).contains_key(h) ==> {
            let f = first_index_with_hash(scan.block_hashes@, h);
            &&& 0 <= f < n
            &&& scan.block_hashes@[f] == h
            &&& spec_index_after(m, scan, n)[h] == scan.spec_block_location(f)
        },
    decreases n,
{
    let hashes = scan.block_hashes@;
    if n > 0 {
        lemma_index_entry_first(m, scan, n - 1, h);
        let prev = spec_index_after(m, scan, n - 1);
        let last = hashes[n - 1];
        if last == h && !prev.contains_key(h) {
            assert(forall|i: int| 0 <= i < n - 1 ==> hashes[i] != h);
            assert(hashes[n - 1] == h);
            lemma_first_index(hashes, h);
            let f = first_index_with_hash(hashes, h);
            assert(f <= n - 1);
            assert(f == n - 1);
        }
        if spec_index_after(m, scan, n).contains_key(h) && !m.contains_key(h) {
            let w = choose|i: int| 0 <= i < n && hashes[i] == h;
            assert(0 <= w < n && hashes[w] == h);
        }
    }
}

/// One pairing is sound when its second (duplicate) side is some block of
/// the scan and its first (donor) side is the first writer of the shared
/// hash: the entry that stood in the index before the scan, or else the
/// location of the hash's first occurrence, strictly earlier in the scan.
pub open spec fn pair_is_first_seen(
    m: Map<u64, BlockLocation>,
    scan: ScanResult,
    n: int,
    pair: (BlockLocation, BlockLocation),
) -> bool {
    exists|i: int|
        #![trigger scan.block_hashes@[i]]
        {
            let h = scan.block_hashes@[i];
            let f = first_index_with_hash(scan.block_hashes@, h);
            &&& 0 <= i < n
            &&& pair.1 == scan.spec_block_location(i)
            &&& if m.contains_key(h) {
                pair.0 == m[h]
            } else {
                0 <= f < i && scan.block_hashes@[f] == h && pair.0 == scan.spec_block_location(f)
            }
        }
}

/// First-writer-wins: every pairing the fold of one scan produces pairs a
/// later occurrence of a hash against the first location ever observed
/// with it — an entry already indexed by an earlier scan, or the hash's
/// first occurrence in this one — never against an intermediate duplicate,
/// and never a block against itself.
pub proof fn lemma_first_writer_wins(m: Map<u64, BlockLocation>, scan: ScanResult, n: int)
    requires
        0 <= n <= scan.block_hashes@.len(),
    ensures
        forall|k: int|
            0 <= k < spec_pairs_after(m, scan, n).len() ==> pair_is_first_seen(
                m,
                scan,
                n,
                #[trigger] spec_pairs_after(m, scan, n)[k],
            ),
    decreases n,
{
    let hashes = scan.block_hashes@;
    if n > 0 {
        lemma_first_writer_wins(m, scan, n - 1);
        let prev_pairs = spec_pairs_after(m, scan, n - 1);
        let cur_pairs = spec_pairs_after(m, scan, n);
        let prev = spec_index_after(m, scan, n - 1);
        let h = hashes[n - 1];
        assert(forall|k: int|
            0 <= k < prev_pairs.len() && pair_is_first_seen(
                m,
                scan,
                n - 1,
                #[trigger] prev_pairs[k],
            ) ==> pair_is_first_seen(m, scan, n, prev_pairs[k]));
        if prev.contains_key(h) {
            lemma_index_entry_first(m, scan, n - 1, h);
            let new_pair = (prev[h], scan.spec_block_location(n - 1));
            assert(pair_is_first_seen(m, scan, n, new_pair)) by {
                if m.contains_key(h) {
                    assert(scan.block_hashes@[n - 1] == h && new_pair.0 == m[h] && new_pair.1
                        == scan.spec_block_location(n - 1));
                } else {
                    let f = first_index_with_hash(hashes, h);
                    assert(0 <= f < n - 1 && hashes[f] == h && prev[h]
                        == scan.spec_block_location(f));
                    assert({
                        let ff = first_index_with_hash(scan.block_hashes@, scan.block_hashes@[n
                            - 1]);
                        &&& 0 <= n - 1 < n
                        &&& new_pair.1 == scan.spec_block_location(n - 1)
                        &&& 0 <= ff < n - 1
                        &&& scan.block_hashes@[ff] == scan.block_hashes@[n - 1]
                        &&& new_pair.0 == scan.spec_block_location(ff)
                    });
                }
            }
            assert(forall|k: int| 0 <= k < cur_pairs.len() - 1 ==> cur_pairs[k] == prev_pairs[k]);
            assert(cur_pairs[cur_pairs.len() - 1] == new_pair);
        }
    }
}

} // verus!
