//! Leaf shards: the address blocks, ascending by range start.

use vstd::prelude::*;
use crate::search::{
    RangeStart, starts, strictly_ascending, below_all, is_floor, next_boundary, floor_search,
};

verus! {

/// One address block: `(range_start, location_id, latitude, longitude, area_code)`.
///
/// A missing location id means that no location is known for the block. The
/// coordinates are kept as the JSON numbers of the shard file.
#[derive(Debug)]
pub struct IpBlockRecord(
    pub u32,
    pub Option<u32>,
    pub serde_json::Number,
    pub serde_json::Number,
    pub u16,
);

impl RangeStart for IpBlockRecord {
    open spec fn start_spec(&self) -> u32 {
        self.0
    }

    fn start(&self) -> (r: u32) {
        self.0
    }
}

impl IpBlockRecord {
    /// A copy of the record.
    pub fn duplicate(&self) -> (r: IpBlockRecord)
        ensures
            r == *self,
    {
        IpBlockRecord(self.0, self.1, self.2.clone(), self.3.clone(), self.4)
    }
}

/// Floor search over a leaf shard: the position of the block whose range
/// contains `item`, or `-1` when `item` lies below the first block. It ends
/// on every list; its answer is exact when the range starts strictly ascend.
pub fn item_binary_search(list: &Vec<IpBlockRecord>, item: u32) -> (r: isize)
    requires
        list.len() <= isize::MAX,
    ensures
        -1 <= r < list.len(),
        strictly_ascending(starts(list@)) ==> (r == -1 <==> below_all(starts(list@), item)),
        strictly_ascending(starts(list@)) ==> (r != -1 ==> is_floor(
            starts(list@),
            item,
            r as int,
        )),
{
    match floor_search(list, item) {
        Some(i) => i as isize,
        None => -1,
    }
}

/// The end of the block at position `index`: the start of the block that
/// follows it, or `current_next_ip` when no block follows it (at the last
/// block or past the end).
pub fn get_next_ip_from_list(list: &Vec<IpBlockRecord>, index: isize, current_next_ip: u32) -> (r:
    u32)
    requires
        0 <= index,
    ensures
        r == next_boundary(starts(list@), index as int, current_next_ip),
{
    let i = index as usize;
    if i + 1 < list.len() {
        list[i + 1].0
    } else {
        current_next_ip
    }
}

} // verus!
