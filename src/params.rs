//! The two resolution parameters, supplied by the host's configuration.

use vstd::prelude::*;
use crate::error::LookupError;

verus! {

/// `nodes_per_mid_index` is the fan-out that turns a root position and a mid
/// position into a global leaf position; `location_record_size` is the byte
/// stride of one location record, and is never zero.
#[derive(Debug, Clone, Copy, PartialEq, Eq, Structural)]
pub struct Params {
    pub nodes_per_mid_index: u32,
    pub location_record_size: u32,
}

impl Params {
    pub open spec fn wf(&self) -> bool {
        self.location_record_size >= 1
    }

    /// Builds the parameters from the configured values. A value that is
    /// absent, or a record size of zero, which can address no record, yields
    /// `ConfigMissing`.
    pub fn new(nodes_per_mid_index: Option<u32>, location_record_size: Option<u32>) -> (r: Result<
        Params,
        LookupError,
    >)
        ensures
            r is Ok <==> (nodes_per_mid_index is Some && (location_record_size matches Some(n)
                && n >= 1)),
            r matches Err(e) ==> e == LookupError::ConfigMissing,
            r matches Ok(p) ==> p.wf() && Some(p.nodes_per_mid_index) == nodes_per_mid_index
                && Some(p.location_record_size) == location_record_size,
    {
        match (nodes_per_mid_index, location_record_size) {
            (Some(n), Some(size)) => {
                if size == 0 {
                    Err(LookupError::ConfigMissing)
                } else {
                    Ok(Params { nodes_per_mid_index: n, location_record_size: size })
                }
            },
            _ => Err(LookupError::ConfigMissing),
        }
    }

    /// Where the record of `location_id` lies in the records file: it starts
    /// one byte past `location_id * location_record_size`, which skips the
    /// delimiter in front of each record, and runs for
    /// `location_record_size - 1` bytes.
    pub fn location_span(&self, location_id: u32) -> (r: (u64, usize))
        requires
            self.wf(),
        ensures
            r.0 == location_id as int * self.location_record_size as int + 1,
            r.1 == self.location_record_size as int - 1,
    {
        assert(location_id as int * self.location_record_size as int <= 0xffff_ffffint
            * 0xffff_ffffint) by (nonlinear_arith);
        let offset = location_id as u64 * self.location_record_size as u64 + 1;
        (offset, (self.location_record_size - 1) as usize)
    }
}

} // verus!
