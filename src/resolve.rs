//! The three cascading stages of resolution: root index, mid index, leaf
//! blocks. Each stage narrows the match and refines the end of the matched
//! range, which starts out as the largest key.

use vstd::prelude::*;
use crate::block::IpBlockRecord;
use crate::error::LookupError;
use crate::search::{starts, strictly_ascending, below_all, is_floor, next_boundary, floor_search};

verus! {

/// The key of `255.255.255.255`: the end of a range that nothing bounds.
pub const MAX_KEY: u32 = 4294967295;

/// In a strictly ascending sequence of keys, each position is at most its key.
pub proof fn lemma_position_below_key(s: Seq<u32>, i: int)
    requires
        strictly_ascending(s),
        0 <= i < s.len(),
    ensures
        i <= s[i],
    decreases i,
{
    if i > 0 {
        lemma_position_below_key(s, i - 1);
    }
}

/// At most one position of a strictly ascending sequence contains a query.
pub proof fn lemma_floor_unique(s: Seq<u32>, q: u32, i: int, j: int)
    requires
        strictly_ascending(s),
        is_floor(s, q, i),
        is_floor(s, q, j),
    ensures
        i == j,
{
    if i < j {
        assert(s[i + 1] <= s[j]);
    } else if j < i {
        assert(s[j + 1] <= s[i]);
    }
}

/// The root match: the root shard's position and the range end known so far.
#[derive(Debug, Clone, Copy, PartialEq, Eq, Structural)]
pub struct RootMatch {
    pub root_index: u32,
    pub next: u32,
}

/// The mid match: the local position in the mid shard, the global position
/// that names the leaf shard, and the range end known so far.
#[derive(Debug, Clone, Copy, PartialEq, Eq, Structural)]
pub struct MidMatch {
    pub local_index: u32,
    pub global: u64,
    pub next: u32,
}

/// The leaf match: the block's position, its location id and its range
/// `[range_start, range_end)`.
#[derive(Debug, Clone, Copy, PartialEq, Eq, Structural)]
pub struct LeafMatch {
    pub index: usize,
    pub location_id: u32,
    pub range_start: u32,
    pub range_end: u32,
}

/// Root stage: the root shard whose range contains `key`.
pub fn root_stage(root: &Vec<u32>, key: u32) -> (r: Result<RootMatch, LookupError>)
    requires
        strictly_ascending(root@),
    ensures
        r is Err <==> below_all(root@, key),
        r matches Err(e) ==> e == LookupError::IpNotFound,
        r matches Ok(m) ==> is_floor(root@, key, m.root_index as int) && m.next == next_boundary(
            root@,
            m.root_index as int,
            MAX_KEY,
        ),
{
    assert(starts(root@) =~= root@);
    match floor_search(root, key) {
        None => Err(LookupError::IpNotFound),
        Some(i) => {
            proof {
                lemma_position_below_key(root@, i as int);
            }
            let next = if i + 1 < root.len() {
                root[i + 1]
            } else {
                MAX_KEY
            };
            Ok(RootMatch { root_index: i as u32, next })
        },
    }
}

/// The leaf shard that a mid match names: `root_index * nodes_per_mid_index + local`.
pub open spec fn global_position(root_index: u32, nodes_per_mid_index: u32, local: u32) -> int {
    root_index as int * nodes_per_mid_index as int + local as int
}

/// Mid stage: within the mid shard of root `root_index`, the position whose
/// range contains `key`, and the leaf shard it names.
///
/// The root stage promised a match here, so a key below the whole mid shard
/// is an inconsistency of the index.
pub fn mid_stage(mid: &Vec<u32>, key: u32, root_index: u32, nodes_per_mid_index: u32, next: u32) -> (r:
    Result<MidMatch, LookupError>)
    requires
        strictly_ascending(mid@),
    ensures
        r is Err <==> below_all(mid@, key),
        r matches Err(e) ==> e == LookupError::IndexInconsistency,
        r matches Ok(m) ==> {
            &&& is_floor(mid@, key, m.local_index as int)
            &&& m.global == global_position(root_index, nodes_per_mid_index, m.local_index)
            &&& m.next == next_boundary(mid@, m.local_index as int, next)
        },
{
    assert(starts(mid@) =~= mid@);
    match floor_search(mid, key) {
        None => Err(LookupError::IndexInconsistency),
        Some(i) => {
            proof {
                lemma_position_below_key(mid@, i as int);
            }
            let local = i as u32;
            assert(root_index as int * nodes_per_mid_index as int <= 0xffff_ffffint
                * 0xffff_ffffint) by (nonlinear_arith);
            let global = root_index as u64 * nodes_per_mid_index as u64 + local as u64;
            let next = if i + 1 < mid.len() {
                mid[i + 1]
            } else {
                next
            };
            Ok(MidMatch { local_index: local, global, next })
        },
    }
}

/// Leaf stage: the block whose range contains `key`, and the range it reports.
///
/// The earlier stages promised a match here, so a key below the whole leaf
/// shard is an inconsistency of the index; a block without a location id
/// yields no result.
pub fn leaf_stage(blocks: &Vec<IpBlockRecord>, key: u32, next: u32) -> (r: Result<
    LeafMatch,
    LookupError,
>)
    requires
        strictly_ascending(starts(blocks@)),
    ensures
        r == Err::<LeafMatch, LookupError>(LookupError::IndexInconsistency) <==> below_all(
            starts(blocks@),
            key,
        ),
        r == Err::<LeafMatch, LookupError>(LookupError::LocationUnavailable) <==> exists|i: int|
            is_floor(starts(blocks@), key, i) && blocks@[i].1 is None,
        r matches Err(e) ==> e == LookupError::IndexInconsistency || e
            == LookupError::LocationUnavailable,
        r matches Ok(m) ==> {
            &&& is_floor(starts(blocks@), key, m.index as int)
            &&& blocks@[m.index as int].1 == Some(m.location_id)
            &&& m.range_start == blocks@[m.index as int].0
            &&& m.range_end == next_boundary(starts(blocks@), m.index as int, next)
        },
{
    let ghost s = starts(blocks@);
    match floor_search(blocks, key) {
        None => Err(LookupError::IndexInconsistency),
        Some(i) => {
            let end = if i + 1 < blocks.len() {
                blocks[i + 1].0
            } else {
                next
            };
            match blocks[i].1 {
                None => Err(LookupError::LocationUnavailable),
                Some(id) => {
                    assert forall|j: int| is_floor(s, key, j) implies blocks@[j].1 is Some by {
                        lemma_floor_unique(s, key, i as int, j);
                    }
                    Ok(LeafMatch { index: i, location_id: id, range_start: blocks[i].0, range_end: end })
                },
            }
        },
    }
}

} // verus!
