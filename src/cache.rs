//! The shard content cache: decoded shards kept by file, up to a capacity.
//!
//! A decoded shard is stored only while the cache holds fewer shards than
//! its capacity; nothing is evicted, and a capacity of zero turns caching off.
//! Loading a shard again stores the new decoding in its place, room allowing:
//! two lookups that miss on one shard may both decode it, and the cache then
//! holds one of the two equal decodings. Every stored shard is the decoding of
//! the bytes it was loaded from, so a hit returns what a fresh decode of the
//! same file returns.

use vstd::prelude::*;
use std::collections::HashMap;
use crate::block::IpBlockRecord;
use crate::codec::{json_keys, json_blocks, block_fields};
use crate::error::LookupError;
use crate::search::{starts, strictly_ascending};
use crate::shard::{parse_keys, parse_blocks};

verus! {

broadcast use vstd::std_specs::hash::group_hash_axioms;

/// A shard of keys: the root index, or the mid index of one root position.
#[derive(Debug, Clone, Copy, PartialEq, Eq, Structural)]
pub enum KeyShard {
    Root,
    Mid(u32),
}

impl KeyShard {
    /// The cache slot of the shard: the root takes slot zero, the mid index of
    /// root position `r` takes slot `r + 1`.
    pub open spec fn slot_spec(self) -> u64 {
        match self {
            KeyShard::Root => 0,
            KeyShard::Mid(r) => (r as u64 + 1) as u64,
        }
    }

    pub fn slot(&self) -> (r: u64)
        ensures
            r == self.slot_spec(),
    {
        match self {
            KeyShard::Root => 0,
            KeyShard::Mid(r) => *r as u64 + 1,
        }
    }
}

pub struct ShardCache {
    capacity: usize,
    keys: HashMap<u64, Vec<u32>>,
    blocks: HashMap<u64, Vec<IpBlockRecord>>,
    key_sources: Ghost<Map<u64, Seq<u8>>>,
    block_sources: Ghost<Map<u64, Seq<u8>>>,
}

/// The integer fields of each block, in order.
pub open spec fn blocks_fields(s: Seq<IpBlockRecord>) -> Seq<(u32, Option<u32>, u16)> {
    s.map_values(|x: IpBlockRecord| block_fields(x))
}

/// What loading a key shard into slot `slot` from `bytes` did to the cache:
/// the decoded shard is stored, with its bytes, when it decodes to strictly
/// ascending keys and the cache has room; otherwise nothing changes.
pub open spec fn keys_loaded(before: ShardCache, after: ShardCache, slot: u64, bytes: Seq<u8>) -> bool {
    &&& after.capacity_spec() == before.capacity_spec()
    &&& after.block_shards() == before.block_shards()
    &&& after.block_sources() == before.block_sources()
    &&& match json_keys(bytes) {
        Some(s) if strictly_ascending(s) && before.entries() < before.capacity_spec() => {
            &&& after.key_shards() == before.key_shards().insert(slot, s)
            &&& after.key_sources() == before.key_sources().insert(slot, bytes)
        },
        _ => after.key_shards() == before.key_shards() && after.key_sources()
            == before.key_sources(),
    }
}

/// What loading the leaf shard at `global` from `bytes` did to the cache:
/// the decoded shard is stored, with its bytes, when it decodes to blocks
/// with strictly ascending range starts and the cache has room; otherwise
/// nothing changes.
pub open spec fn blocks_loaded(
    before: ShardCache,
    after: ShardCache,
    global: u64,
    bytes: Seq<u8>,
) -> bool {
    &&& after.capacity_spec() == before.capacity_spec()
    &&& after.key_shards() == before.key_shards()
    &&& after.key_sources() == before.key_sources()
    &&& match json_blocks(bytes) {
        Some(f) if strictly_ascending(f.map_values(|x: (u32, Option<u32>, u16)| x.0))
            && before.entries() < before.capacity_spec() => {
            &&& after.block_shards().contains_key(global)
            &&& after.block_shards() == before.block_shards().insert(
                global,
                after.block_shards()[global],
            )
            &&& blocks_fields(after.block_shards()[global]) == f
            &&& after.block_sources() == before.block_sources().insert(global, bytes)
        },
        _ => after.block_shards() == before.block_shards() && after.block_sources()
            == before.block_sources(),
    }
}

/// A well-formed cache never holds more shards than its capacity.
pub proof fn lemma_within_capacity(c: &ShardCache)
    requires
        c.wf(),
    ensures
        c.entries() <= c.capacity_spec(),
{
    c.lemma_counts();
}

impl ShardCache {
    proof fn lemma_counts(&self)
        ensures
            self.key_shards().len() == self.keys@.len(),
            self.block_shards().len() == self.blocks@.len(),
    {
        assert(self.key_shards().dom() =~= self.keys@.dom());
        assert(self.block_shards().dom() =~= self.blocks@.dom());
    }

    /// The stored key shards, by slot.
    pub closed spec fn key_shards(&self) -> Map<u64, Seq<u32>> {
        self.keys@.map_values(|v: Vec<u32>| v@)
    }

    /// The stored leaf shards, by global position.
    pub closed spec fn block_shards(&self) -> Map<u64, Seq<IpBlockRecord>> {
        self.blocks@.map_values(|v: Vec<IpBlockRecord>| v@)
    }

    /// The bytes that each stored key shard was decoded from.
    pub closed spec fn key_sources(&self) -> Map<u64, Seq<u8>> {
        self.key_sources@
    }

    /// The bytes that each stored leaf shard was decoded from.
    pub closed spec fn block_sources(&self) -> Map<u64, Seq<u8>> {
        self.block_sources@
    }

    /// How many shards the cache may hold.
    pub closed spec fn capacity_spec(&self) -> nat {
        self.capacity as nat
    }

    /// How many shards the cache holds.
    pub open spec fn entries(&self) -> nat {
        self.key_shards().len() + self.block_shards().len()
    }

    pub closed spec fn wf(&self) -> bool {
        &&& self.keys@.dom().finite()
        &&& self.blocks@.dom().finite()
        &&& self.keys@.dom() == self.key_sources@.dom()
        &&& self.blocks@.dom() == self.block_sources@.dom()
        &&& self.keys@.len() + self.blocks@.len() <= self.capacity
        &&& forall|k: u64| #[trigger]
            self.keys@.contains_key(k) ==> json_keys(self.key_sources@[k]) == Some(self.keys@[k]@)
                && strictly_ascending(self.keys@[k]@)
        &&& forall|k: u64| #[trigger]
            self.blocks@.contains_key(k) ==> json_blocks(self.block_sources@[k]) == Some(
                blocks_fields(self.blocks@[k]@),
            ) && strictly_ascending(starts(self.blocks@[k]@))
    }

    /// An empty cache that holds at most `capacity` shards.
    pub fn new(capacity: usize) -> (r: ShardCache)
        ensures
            r.wf(),
            r.capacity_spec() == capacity,
            r.entries() == 0,
            r.key_shards() == Map::<u64, Seq<u32>>::empty(),
            r.block_shards() == Map::<u64, Seq<IpBlockRecord>>::empty(),
    {
        let r = ShardCache {
            capacity,
            keys: HashMap::new(),
            blocks: HashMap::new(),
            key_sources: Ghost(Map::empty()),
            block_sources: Ghost(Map::empty()),
        };
        assert(r.key_shards() =~= Map::<u64, Seq<u32>>::empty());
        assert(r.block_shards() =~= Map::<u64, Seq<IpBlockRecord>>::empty());
        assert(r.key_shards().dom() =~= Set::<u64>::empty());
        assert(r.block_shards().dom() =~= Set::<u64>::empty());
        r
    }

    /// The stored content of a key shard, if any.
    pub fn keys(&self, shard: KeyShard) -> (r: Option<&Vec<u32>>)
        requires
            self.wf(),
        ensures
            r is None <==> !self.key_shards().contains_key(shard.slot_spec()),
            r matches Some(v) ==> self.key_shards()[shard.slot_spec()] == v@ && strictly_ascending(
                v@,
            ),
    {
        let slot = shard.slot();
        self.keys.get(&slot)
    }

    /// The stored content of the leaf shard at `global`, if any.
    pub fn blocks(&self, global: u64) -> (r: Option<&Vec<IpBlockRecord>>)
        requires
            self.wf(),
        ensures
            r is None <==> !self.block_shards().contains_key(global),
            r matches Some(v) ==> self.block_shards()[global] == v@ && strictly_ascending(
                starts(v@),
            ),
    {
        self.blocks.get(&global)
    }

    /// Decodes a key shard from the bytes of its file and, if the cache has
    /// room, stores it.
    pub fn load_keys(&mut self, shard: KeyShard, bytes: &[u8]) -> (r: Result<Vec<u32>, LookupError>)
        requires
            old(self).wf(),
        ensures
            final(self).wf(),
            r is Ok <==> (json_keys(bytes@) matches Some(s) && strictly_ascending(s)),
            r matches Ok(v) ==> json_keys(bytes@) == Some(v@),
            r matches Err(e) ==> e == LookupError::MalformedShard,
            keys_loaded(*old(self), *final(self), shard.slot_spec(), bytes@),
            final(self).entries() <= final(self).capacity_spec(),
    {
        proof {
            self.lemma_counts();
            lemma_within_capacity(self);
        }
        let v = match parse_keys(bytes) {
            Ok(v) => v,
            Err(e) => return Err(e),
        };
        if self.keys.len() + self.blocks.len() < self.capacity {
            let slot = shard.slot();
            let copy = v.clone();
            assert(copy@ =~= v@);
            let ghost old_keys = self.keys@;
            self.keys.insert(slot, copy);
            self.key_sources = Ghost(self.key_sources@.insert(slot, bytes@));
            assert(self.key_shards() =~= old(self).key_shards().insert(slot, v@));
            assert(self.keys@.len() <= old_keys.len() + 1) by {
                if old_keys.contains_key(slot) {
                    assert(self.keys@.dom() =~= old_keys.dom());
                }
            }
        }
        proof {
            lemma_within_capacity(self);
        }
        Ok(v)
    }

    /// Decodes a leaf shard from the bytes of its file and, if the cache has
    /// room, stores it.
    pub fn load_blocks(&mut self, global: u64, bytes: &[u8]) -> (r: Result<
        Vec<IpBlockRecord>,
        LookupError,
    >)
        requires
            old(self).wf(),
        ensures
            final(self).wf(),
            r is Ok <==> (json_blocks(bytes@) matches Some(s) && strictly_ascending(
                s.map_values(|x: (u32, Option<u32>, u16)| x.0),
            )),
            r matches Ok(v) ==> json_blocks(bytes@) == Some(blocks_fields(v@)) && strictly_ascending(
                starts(v@),
            ),
            r matches Err(e) ==> e == LookupError::MalformedShard,
            blocks_loaded(*old(self), *final(self), global, bytes@),
            final(self).entries() <= final(self).capacity_spec(),
            match r {
                Ok(v) if old(self).entries() < old(self).capacity_spec() => {
                    &&& final(self).block_shards() == old(self).block_shards().insert(global, v@)
                    &&& final(self).block_sources() == old(self).block_sources().insert(
                        global,
                        bytes@,
                    )
                },
                _ => final(self).block_shards() == old(self).block_shards()
                    && final(self).block_sources() == old(self).block_sources(),
            },
    {
        proof {
            self.lemma_counts();
            lemma_within_capacity(self);
        }
        let v = match parse_blocks(bytes) {
            Ok(v) => v,
            Err(e) => return Err(e),
        };
        if self.keys.len() + self.blocks.len() < self.capacity {
            let copy = copy_blocks(&v);
            let ghost old_blocks = self.blocks@;
            self.blocks.insert(global, copy);
            self.block_sources = Ghost(self.block_sources@.insert(global, bytes@));
            assert(self.block_shards() =~= old(self).block_shards().insert(global, v@));
            assert(self.blocks@.len() <= old_blocks.len() + 1) by {
                if old_blocks.contains_key(global) {
                    assert(self.blocks@.dom() =~= old_blocks.dom());
                }
            }
        }
        proof {
            lemma_within_capacity(self);
        }
        Ok(v)
    }
}

/// A copy of a leaf shard.
fn copy_blocks(v: &Vec<IpBlockRecord>) -> (r: Vec<IpBlockRecord>)
    ensures
        r@ == v@,
{
    let mut r: Vec<IpBlockRecord> = Vec::new();
    let mut i: usize = 0;
    while i < v.len()
        invariant
            i <= v.len(),
            r@ == v@.take(i as int),
        decreases v.len() - i,
    {
        r.push(v[i].duplicate());
        assert(v@.take(i + 1) =~= v@.take(i as int).push(v@[i as int]));
        i = i + 1;
    }
    assert(v@.take(v.len() as int) =~= v@);
    r
}

/// A hit on a key shard holds exactly what decoding the bytes it was loaded
/// from yields: a cached shard is never stale or altered.
pub proof fn lemma_key_hit_is_decode(c: &ShardCache, slot: u64)
    requires
        c.wf(),
        c.key_shards().contains_key(slot),
    ensures
        c.key_sources().contains_key(slot),
        json_keys(c.key_sources()[slot]) == Some(c.key_shards()[slot]),
{
    assert(c.keys@.contains_key(slot));
}

/// A hit on a leaf shard holds exactly what decoding the bytes it was loaded
/// from yields: a cached shard is never stale or altered.
pub proof fn lemma_block_hit_is_decode(c: &ShardCache, global: u64)
    requires
        c.wf(),
        c.block_shards().contains_key(global),
    ensures
        c.block_sources().contains_key(global),
        json_blocks(c.block_sources()[global]) == Some(blocks_fields(c.block_shards()[global])),
{
    assert(c.blocks@.contains_key(global));
}

} // verus!
