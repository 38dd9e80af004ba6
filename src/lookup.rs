//! The lookup facade: one lookup as a sequence of steps.
//!
//! Each step runs one stage of resolution on a shard taken from the cache or
//! decoded from bytes that the host read. When neither is at hand the step
//! names the file it needs and changes nothing; the host reads it and steps
//! again with its bytes.

use vstd::prelude::*;
use crate::addr::{ip_string_to_number, is_ipv4, ipv4_key};
use crate::block::IpBlockRecord;
use crate::cache::{KeyShard, ShardCache, blocks_fields, keys_loaded, blocks_loaded};
use crate::codec::{json_keys, json_blocks, json_location};
use crate::error::LookupError;
use crate::location::LocationRecord;
use crate::params::Params;
use crate::resolve::{
    MAX_KEY, RootMatch, MidMatch, LeafMatch, global_position, root_stage, mid_stage, leaf_stage,
};
use crate::search::{starts, strictly_ascending, below_all, is_floor, next_boundary};
use crate::shard::parse_location;

verus! {

/// A file that a step needs read.
#[derive(Debug, Clone, Copy, PartialEq, Eq, Structural)]
pub enum Request {
    /// The root index (`index.json`) or the mid index of a root position (`i{r}.json`).
    Keys(KeyShard),
    /// The leaf shard of a global position (`{g}.json`).
    Blocks(u64),
    /// `len` bytes of the location records file, from byte `offset` on.
    Location { offset: u64, len: usize },
}

/// Where a lookup stands: the stage it runs next, with the matches so far.
#[derive(Debug, Clone, Copy, PartialEq, Eq, Structural)]
pub enum Phase {
    Root,
    Mid(RootMatch),
    Leaf(RootMatch, MidMatch),
    Location(RootMatch, MidMatch, LeafMatch),
    Done,
}

/// A resolved address: its range `[range_start, range_end)`, the block's
/// coordinates and area code, and the block's location record.
#[derive(Debug)]
pub struct GeoMatch {
    pub range_start: u32,
    pub range_end: u32,
    pub latitude: serde_json::Number,
    pub longitude: serde_json::Number,
    pub area: u16,
    pub location: LocationRecord,
}

/// What a step did.
#[derive(Debug)]
pub enum Step {
    /// The stage needs this file; nothing changed.
    Need(Request),
    /// A stage ran and the lookup moved on.
    Continue,
    /// The lookup ended.
    Done(Result<GeoMatch, LookupError>),
}

pub open spec fn root_found(key: u32, root: Seq<u32>, rm: RootMatch) -> bool {
    &&& is_floor(root, key, rm.root_index as int)
    &&& rm.next == next_boundary(root, rm.root_index as int, MAX_KEY)
}

pub open spec fn mid_found(key: u32, mid: Seq<u32>, nodes: u32, rm: RootMatch, mm: MidMatch) -> bool {
    &&& is_floor(mid, key, mm.local_index as int)
    &&& mm.global == global_position(rm.root_index, nodes, mm.local_index)
    &&& mm.next == next_boundary(mid, mm.local_index as int, rm.next)
}

pub open spec fn leaf_found(key: u32, leaf: Seq<IpBlockRecord>, mm: MidMatch, lm: LeafMatch) -> bool {
    &&& is_floor(starts(leaf), key, lm.index as int)
    &&& leaf[lm.index as int].1 == Some(lm.location_id)
    &&& lm.range_start == leaf[lm.index as int].0
    &&& lm.range_end == next_boundary(starts(leaf), lm.index as int, mm.next)
}

/// The range that the three matches report contains the key: it starts at
/// or below the key, and ends above it unless nothing bounds it.
pub proof fn lemma_found_range_contains_key(
    key: u32,
    root: Seq<u32>,
    mid: Seq<u32>,
    leaf: Seq<IpBlockRecord>,
    nodes: u32,
    rm: RootMatch,
    mm: MidMatch,
    lm: LeafMatch,
)
    requires
        root_found(key, root, rm),
        mid_found(key, mid, nodes, rm, mm),
        leaf_found(key, leaf, mm, lm),
    ensures
        lm.range_start <= key,
        key < lm.range_end || lm.range_end == MAX_KEY,
{
    assert(starts(leaf)[lm.index as int] == leaf[lm.index as int].0);
    if lm.index + 1 < leaf.len() {
        assert(starts(leaf)[lm.index + 1] == leaf[lm.index + 1].0);
    }
}

/// One lookup in progress.
pub struct Lookup {
    key: u32,
    phase: Phase,
    block: Option<IpBlockRecord>,
    root: Ghost<Seq<u32>>,
    mid: Ghost<Seq<u32>>,
    leaf: Ghost<Seq<IpBlockRecord>>,
}

impl Lookup {
    /// The key being looked up.
    pub closed spec fn key(&self) -> u32 {
        self.key
    }

    pub closed spec fn phase(&self) -> Phase {
        self.phase
    }

    /// The root index that the root stage ran on.
    pub closed spec fn root_shard(&self) -> Seq<u32> {
        self.root@
    }

    /// The mid index that the mid stage ran on.
    pub closed spec fn mid_shard(&self) -> Seq<u32> {
        self.mid@
    }

    /// The leaf shard that the leaf stage ran on.
    pub closed spec fn leaf_shard(&self) -> Seq<IpBlockRecord> {
        self.leaf@
    }

    /// The block that the leaf stage matched.
    pub closed spec fn block(&self) -> Option<IpBlockRecord> {
        self.block
    }

    /// Each match so far is the one that its stage owes on the shard it ran on.
    pub open spec fn wf(&self, nodes: u32) -> bool {
        match self.phase() {
            Phase::Root => true,
            Phase::Mid(rm) => root_found(self.key(), self.root_shard(), rm),
            Phase::Leaf(rm, mm) => root_found(self.key(), self.root_shard(), rm) && mid_found(
                self.key(),
                self.mid_shard(),
                nodes,
                rm,
                mm,
            ),
            Phase::Location(rm, mm, lm) => {
                &&& root_found(self.key(), self.root_shard(), rm)
                &&& mid_found(self.key(), self.mid_shard(), nodes, rm, mm)
                &&& leaf_found(self.key(), self.leaf_shard(), mm, lm)
                &&& self.block() == Some(self.leaf_shard()[lm.index as int])
            },
            Phase::Done => true,
        }
    }

    /// A lookup of `key` that has run no stage yet.
    pub fn new(key: u32) -> (r: Lookup)
        ensures
            r.key() == key,
            r.phase() == Phase::Root,
    {
        Lookup {
            key,
            phase: Phase::Root,
            block: None,
            root: Ghost(Seq::empty()),
            mid: Ghost(Seq::empty()),
            leaf: Ghost(Seq::empty()),
        }
    }

    /// A lookup of the address `ip`; `InvalidAddress` unless it is four
    /// dot-separated decimal octets.
    pub fn begin(ip: &str) -> (r: Result<Lookup, LookupError>)
        ensures
            r is Ok <==> is_ipv4(ip@),
            r matches Ok(l) ==> l.key() == ipv4_key(ip@) && l.phase() == Phase::Root,
            r matches Err(e) ==> e == LookupError::InvalidAddress,
    {
        let key = ip_string_to_number(ip)?;
        Ok(Lookup::new(key))
    }

    pub fn is_done(&self) -> (r: bool)
        ensures
            r == (self.phase() is Done),
    {
        match self.phase {
            Phase::Done => true,
            _ => false,
        }
    }
}

/// The file that a lookup in `phase` needs next.
pub open spec fn request_of(phase: Phase, p: Params) -> Request {
    match phase {
        Phase::Mid(rm) => Request::Keys(KeyShard::Mid(rm.root_index)),
        Phase::Leaf(_, mm) => Request::Blocks(mm.global),
        Phase::Location(_, _, lm) => Request::Location {
            offset: (lm.location_id as int * p.location_record_size as int + 1) as u64,
            len: (p.location_record_size - 1) as usize,
        },
        _ => Request::Keys(KeyShard::Root),
    }
}

/// The root stage ran on root index `s`.
pub open spec fn root_step(before: Lookup, s: Seq<u32>, r: Step, after: Lookup) -> bool {
    &&& after.key() == before.key()
    &&& after.root_shard() == s
    &&& if below_all(s, before.key()) {
        r == Step::Done(Err(LookupError::IpNotFound))
    } else {
        &&& r is Continue
        &&& after.phase() matches Phase::Mid(rm)
        &&& root_found(before.key(), s, rm)
    }
}

/// The mid stage ran, after root match `rm`, on mid index `s`.
pub open spec fn mid_step(
    before: Lookup,
    rm: RootMatch,
    nodes: u32,
    s: Seq<u32>,
    r: Step,
    after: Lookup,
) -> bool {
    &&& after.key() == before.key()
    &&& after.root_shard() == before.root_shard()
    &&& after.mid_shard() == s
    &&& if below_all(s, before.key()) {
        r == Step::Done(Err(LookupError::IndexInconsistency))
    } else {
        &&& r is Continue
        &&& after.phase() matches Phase::Leaf(rm2, mm)
        &&& rm2 == rm
        &&& mid_found(before.key(), s, nodes, rm, mm)
    }
}

/// The leaf stage ran, after matches `rm` and `mm`, on leaf shard `s`.
pub open spec fn leaf_step(
    before: Lookup,
    rm: RootMatch,
    mm: MidMatch,
    s: Seq<IpBlockRecord>,
    r: Step,
    after: Lookup,
) -> bool {
    &&& after.key() == before.key()
    &&& after.root_shard() == before.root_shard()
    &&& after.mid_shard() == before.mid_shard()
    &&& after.leaf_shard() == s
    &&& if below_all(starts(s), before.key()) {
        r == Step::Done(Err(LookupError::IndexInconsistency))
    } else if exists|i: int| is_floor(starts(s), before.key(), i) && s[i].1 is None {
        r == Step::Done(Err(LookupError::LocationUnavailable))
    } else {
        &&& r is Continue
        &&& after.phase() matches Phase::Location(rm2, mm2, lm)
        &&& rm2 == rm
        &&& mm2 == mm
        &&& leaf_found(before.key(), s, mm, lm)
    }
}

/// The location record `t` was read for leaf match `lm`, and the lookup
/// ended with its result.
pub open spec fn location_step(
    before: Lookup,
    lm: LeafMatch,
    t: (Seq<char>, Seq<char>, Seq<char>, u32, Seq<char>, Seq<char>),
    r: Step,
) -> bool {
    &&& r matches Step::Done(Ok(g))
    &&& g.range_start == lm.range_start
    &&& g.range_end == lm.range_end
    &&& before.block() matches Some(b)
    &&& g.latitude == b.2
    &&& g.longitude == b.3
    &&& g.area == b.4
    &&& t == (
        g.location.country@,
        g.location.region@,
        g.location.city@,
        g.location.metro,
        g.location.timezone@,
        g.location.eu@,
    )
}

/// The bytes handed to a step, as a sequence.
pub open spec fn bytes_view(bytes: Option<&[u8]>) -> Option<Seq<u8>> {
    match bytes {
        Some(b) => Some(b@),
        None => None,
    }
}

/// What a step did to the cache: a key shard or leaf shard handed in as
/// bytes is loaded as `keys_loaded` and `blocks_loaded` say; any other step
/// leaves the cache as it was.
pub open spec fn step_cache(
    before: ShardCache,
    after: ShardCache,
    phase: Phase,
    bytes: Option<Seq<u8>>,
) -> bool {
    match bytes {
        Some(b) => match phase {
            Phase::Root => keys_loaded(before, after, KeyShard::Root.slot_spec(), b),
            Phase::Mid(rm) => keys_loaded(before, after, KeyShard::Mid(rm.root_index).slot_spec(), b),
            Phase::Leaf(_, mm) => blocks_loaded(before, after, mm.global, b),
            _ => after == before,
        },
        None => after == before,
    }
}

/// The resolver: the resolution parameters and the shard cache, shared by
/// the lookups it runs.
pub struct Resolver {
    params: Params,
    cache: ShardCache,
}

impl Resolver {
    pub closed spec fn params(&self) -> Params {
        self.params
    }

    pub closed spec fn cache(&self) -> ShardCache {
        self.cache
    }

    pub open spec fn wf(&self) -> bool {
        self.params().wf() && self.cache().wf()
    }

    /// A resolver whose cache holds at most `capacity` shards; zero turns
    /// caching off.
    pub fn new(params: Params, capacity: usize) -> (r: Resolver)
        requires
            params.wf(),
        ensures
            r.wf(),
            r.params() == params,
            r.cache().capacity_spec() == capacity,
            r.cache().entries() == 0,
            r.cache().key_shards() == Map::<u64, Seq<u32>>::empty(),
            r.cache().block_shards() == Map::<u64, Seq<IpBlockRecord>>::empty(),
    {
        Resolver { params, cache: ShardCache::new(capacity) }
    }

    /// Runs the stage that `lk` stands at, on the shard in `bytes` when
    /// given, else on the cached one; asks for the file when neither is at hand.
    pub fn step(&mut self, lk: &mut Lookup, bytes: Option<&[u8]>) -> (r: Step)
        requires
            old(self).wf(),
            old(lk).wf(old(self).params().nodes_per_mid_index),
            !(old(lk).phase() is Done),
        ensures
            final(self).wf(),
            final(self).params() == old(self).params(),
            final(self).cache().capacity_spec() == old(self).cache().capacity_spec(),
            step_cache(old(self).cache(), final(self).cache(), old(lk).phase(), bytes_view(bytes)),
            final(lk).wf(old(self).params().nodes_per_mid_index),
            final(lk).key() == old(lk).key(),
            r is Done <==> final(lk).phase() is Done,
            r matches Step::Need(q) ==> bytes is None && *final(lk) == *old(lk) && q == request_of(
                old(lk).phase(),
                old(self).params(),
            ),
            match old(lk).phase() {
                Phase::Root => match bytes {
                    Some(b) => match json_keys(b@) {
                        Some(s) if strictly_ascending(s) => root_step(*old(lk), s, r, *final(lk)),
                        _ => r == Step::Done(Err(LookupError::MalformedShard)),
                    },
                    None => if old(self).cache().key_shards().contains_key(0) {
                        root_step(*old(lk), old(self).cache().key_shards()[0], r, *final(lk))
                    } else {
                        r is Need
                    },
                },
                Phase::Mid(rm) => match bytes {
                    Some(b) => match json_keys(b@) {
                        Some(s) if strictly_ascending(s) => mid_step(
                            *old(lk),
                            rm,
                            old(self).params().nodes_per_mid_index,
                            s,
                            r,
                            *final(lk),
                        ),
                        _ => r == Step::Done(Err(LookupError::MalformedShard)),
                    },
                    None => if old(self).cache().key_shards().contains_key(
                        KeyShard::Mid(rm.root_index).slot_spec(),
                    ) {
                        mid_step(
                            *old(lk),
                            rm,
                            old(self).params().nodes_per_mid_index,
                            old(self).cache().key_shards()[KeyShard::Mid(rm.root_index).slot_spec()],
                            r,
                            *final(lk),
                        )
                    } else {
                        r is Need
                    },
                },
                Phase::Leaf(rm, mm) => match bytes {
                    Some(b) => match json_blocks(b@) {
                        Some(s) if strictly_ascending(s.map_values(|x: (u32, Option<u32>, u16)| x.0)) =>
                            exists|v: Seq<IpBlockRecord>|
                            blocks_fields(v) == s && #[trigger] leaf_step(*old(lk), rm, mm, v, r, *final(lk)),
                        _ => r == Step::Done(Err(LookupError::MalformedShard)),
                    },
                    None => if old(self).cache().block_shards().contains_key(mm.global) {
                        leaf_step(
                            *old(lk),
                            rm,
                            mm,
                            old(self).cache().block_shards()[mm.global],
                            r,
                            *final(lk),
                        )
                    } else {
                        r is Need
                    },
                },
                Phase::Location(_, _, lm) => match bytes {
                    Some(b) => match json_location(b@) {
                        Some(t) => location_step(*old(lk), lm, t, r),
                        None => r == Step::Done(Err(LookupError::MalformedShard)),
                    },
                    None => r is Need,
                },
                Phase::Done => true,
            },
    {
        let phase = lk.phase;
        match phase {
            Phase::Root => {
                match bytes {
                    Some(b) => match self.cache.load_keys(KeyShard::Root, b) {
                        Ok(v) => run_root(lk, &v),
                        Err(e) => {
                            lk.phase = Phase::Done;
                            Step::Done(Err(e))
                        },
                    },
                    None => match self.cache.keys(KeyShard::Root) {
                        Some(v) => run_root(lk, v),
                        None => Step::Need(Request::Keys(KeyShard::Root)),
                    },
                }
            },
            Phase::Mid(rm) => {
                let nodes = self.params.nodes_per_mid_index;
                match bytes {
                    Some(b) => match self.cache.load_keys(KeyShard::Mid(rm.root_index), b) {
                        Ok(v) => run_mid(lk, rm, nodes, &v),
                        Err(e) => {
                            lk.phase = Phase::Done;
                            Step::Done(Err(e))
                        },
                    },
                    None => match self.cache.keys(KeyShard::Mid(rm.root_index)) {
                        Some(v) => run_mid(lk, rm, nodes, v),
                        None => Step::Need(Request::Keys(KeyShard::Mid(rm.root_index))),
                    },
                }
            },
            Phase::Leaf(rm, mm) => {
                match bytes {
                    Some(b) => match self.cache.load_blocks(mm.global, b) {
                        Ok(v) => run_leaf(lk, rm, mm, &v),
                        Err(e) => {
                            lk.phase = Phase::Done;
                            Step::Done(Err(e))
                        },
                    },
                    None => match self.cache.blocks(mm.global) {
                        Some(v) => run_leaf(lk, rm, mm, v),
                        None => Step::Need(Request::Blocks(mm.global)),
                    },
                }
            },
            Phase::Location(_, _, lm) => {
                match bytes {
                    None => {
                        let (offset, len) = self.params.location_span(lm.location_id);
                        Step::Need(Request::Location { offset, len })
                    },
                    Some(b) => {
                        let loc = parse_location(b);
                        lk.phase = Phase::Done;
                        match loc {
                            Err(e) => Step::Done(Err(e)),
                            Ok(location) => match &lk.block {
                                Some(blk) => Step::Done(
                                    Ok(
                                        GeoMatch {
                                            range_start: lm.range_start,
                                            range_end: lm.range_end,
                                            latitude: blk.2.clone(),
                                            longitude: blk.3.clone(),
                                            area: blk.4,
                                            location,
                                        },
                                    ),
                                ),
                                // not reached: the leaf stage kept the matched block
                                None => Step::Done(Err(LookupError::IndexInconsistency)),
                            },
                        }
                    },
                }
            },
            Phase::Done => Step::Continue,
        }
    }
}

fn run_root(lk: &mut Lookup, v: &Vec<u32>) -> (r: Step)
    requires
        strictly_ascending(v@),
    ensures
        root_step(*old(lk), v@, r, *final(lk)),
        r is Done <==> final(lk).phase() is Done,
        final(lk).mid_shard() == old(lk).mid_shard(),
        final(lk).leaf_shard() == old(lk).leaf_shard(),
        final(lk).block() == old(lk).block(),
{
    lk.root = Ghost(v@);
    match root_stage(v, lk.key) {
        Ok(rm) => {
            lk.phase = Phase::Mid(rm);
            Step::Continue
        },
        Err(e) => {
            lk.phase = Phase::Done;
            Step::Done(Err(e))
        },
    }
}

fn run_mid(lk: &mut Lookup, rm: RootMatch, nodes: u32, v: &Vec<u32>) -> (r: Step)
    requires
        strictly_ascending(v@),
    ensures
        mid_step(*old(lk), rm, nodes, v@, r, *final(lk)),
        r is Done <==> final(lk).phase() is Done,
        final(lk).leaf_shard() == old(lk).leaf_shard(),
        final(lk).block() == old(lk).block(),
{
    lk.mid = Ghost(v@);
    match mid_stage(v, lk.key, rm.root_index, nodes, rm.next) {
        Ok(mm) => {
            lk.phase = Phase::Leaf(rm, mm);
            Step::Continue
        },
        Err(e) => {
            lk.phase = Phase::Done;
            Step::Done(Err(e))
        },
    }
}

fn run_leaf(lk: &mut Lookup, rm: RootMatch, mm: MidMatch, v: &Vec<IpBlockRecord>) -> (r: Step)
    requires
        strictly_ascending(starts(v@)),
    ensures
        leaf_step(*old(lk), rm, mm, v@, r, *final(lk)),
        r is Done <==> final(lk).phase() is Done,
        r is Continue ==> final(lk).block() == Some(v@[final(lk).phase()->Location_2.index as int]),
{
    lk.leaf = Ghost(v@);
    match leaf_stage(v, lk.key, mm.next) {
        Ok(lm) => {
            lk.phase = Phase::Location(rm, mm, lm);
            lk.block = Some(v[lm.index].duplicate());
            Step::Continue
        },
        Err(e) => {
            lk.phase = Phase::Done;
            Step::Done(Err(e))
        },
    }
}

} // verus!
