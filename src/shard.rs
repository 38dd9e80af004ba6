//! Turning the bytes of a shard or of a location record into checked values.

use vstd::prelude::*;
use crate::block::IpBlockRecord;
use crate::codec::{
    json_keys, json_blocks, json_location, block_fields, decode_keys, decode_blocks,
    decode_location,
};
use crate::error::LookupError;
use crate::location::LocationRecord;
use crate::search::{RangeStart, starts, strictly_ascending};

verus! {

/// Whether each key of `list` is smaller than the next.
pub fn is_strictly_ascending<T: RangeStart>(list: &Vec<T>) -> (r: bool)
    ensures
        r == strictly_ascending(starts(list@)),
{
    let ghost s = starts(list@);
    if list.len() == 0 {
        return true;
    }
    let mut i: usize = 1;
    while i < list.len()
        invariant
            s == starts(list@),
            s.len() == list@.len(),
            1 <= i <= s.len(),
            forall|a: int, b: int| 0 <= a < b < i ==> s[a] < s[b],
        decreases list.len() - i,
    {
        let prev = list[i - 1].start();
        let cur = list[i].start();
        if prev >= cur {
            assert(s[i - 1] >= s[i as int]);
            return false;
        }
        assert forall|a: int, b: int| 0 <= a < b < i + 1 implies s[a] < s[b] by {
            if b == i && a < i - 1 {
                assert(s[a] < s[i - 1]);
            }
        }
        i = i + 1;
    }
    true
}

/// The shard `v` as decoded, if it is strictly ascending; `MalformedShard` otherwise.
pub fn check_keys(v: Vec<u32>) -> (r: Result<Vec<u32>, LookupError>)
    ensures
        r is Ok <==> strictly_ascending(v@),
        r matches Ok(w) ==> w@ == v@,
        r matches Err(e) ==> e == LookupError::MalformedShard,
{
    assert(starts(v@) =~= v@);
    if is_strictly_ascending(&v) {
        Ok(v)
    } else {
        Err(LookupError::MalformedShard)
    }
}

/// The blocks `v` as decoded, if their range starts are strictly ascending;
/// `MalformedShard` otherwise.
pub fn check_blocks(v: Vec<IpBlockRecord>) -> (r: Result<Vec<IpBlockRecord>, LookupError>)
    ensures
        r is Ok <==> strictly_ascending(starts(v@)),
        r matches Ok(w) ==> w@ == v@,
        r matches Err(e) ==> e == LookupError::MalformedShard,
{
    if is_strictly_ascending(&v) {
        Ok(v)
    } else {
        Err(LookupError::MalformedShard)
    }
}

/// A key shard (the root index or a mid index): a JSON array of strictly
/// ascending unsigned 32-bit keys.
pub fn parse_keys(bytes: &[u8]) -> (r: Result<Vec<u32>, LookupError>)
    ensures
        r is Ok <==> (json_keys(bytes@) matches Some(s) && strictly_ascending(s)),
        r matches Ok(v) ==> json_keys(bytes@) == Some(v@),
        r matches Err(e) ==> e == LookupError::MalformedShard,
{
    match decode_keys(bytes) {
        Ok(v) => check_keys(v),
        Err(_) => Err(LookupError::MalformedShard),
    }
}

/// A leaf shard: a JSON array of block tuples, strictly ascending by range start.
pub fn parse_blocks(bytes: &[u8]) -> (r: Result<Vec<IpBlockRecord>, LookupError>)
    ensures
        r is Ok <==> (json_blocks(bytes@) matches Some(s) && strictly_ascending(
            s.map_values(|x: (u32, Option<u32>, u16)| x.0),
        )),
        r matches Ok(v) ==> json_blocks(bytes@) == Some(
            v@.map_values(|x: IpBlockRecord| block_fields(x)),
        ) && strictly_ascending(starts(v@)),
        r matches Err(e) ==> e == LookupError::MalformedShard,
{
    match decode_blocks(bytes) {
        Ok(v) => {
            let ghost f = v@.map_values(|x: IpBlockRecord| block_fields(x));
            assert(f.map_values(|x: (u32, Option<u32>, u16)| x.0) =~= starts(v@));
            check_blocks(v)
        },
        Err(_) => Err(LookupError::MalformedShard),
    }
}

/// One location record: a JSON array of six fields.
pub fn parse_location(bytes: &[u8]) -> (r: Result<LocationRecord, LookupError>)
    ensures
        r is Ok <==> json_location(bytes@) is Some,
        r matches Ok(l) ==> json_location(bytes@) == Some(
            (l.country@, l.region@, l.city@, l.metro, l.timezone@, l.eu@),
        ),
        r matches Err(e) ==> e == LookupError::MalformedShard,
{
    match decode_location(bytes) {
        Ok(l) => Ok(l),
        Err(_) => Err(LookupError::MalformedShard),
    }
}

} // verus!
