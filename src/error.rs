//! The ways a lookup can fail.

use vstd::prelude::*;

verus! {

#[derive(Debug, Clone, Copy, PartialEq, Eq, Structural)]
pub enum LookupError {
    /// The text is not four dot-separated decimal octets.
    InvalidAddress,
    /// A shard or record file could not be opened or read.
    DatasetUnavailable,
    /// A shard's or record's bytes do not decode into the expected shape.
    MalformedShard,
    /// The address lies below the lowest known range.
    IpNotFound,
    /// A later index level holds no match where an earlier one promised one.
    IndexInconsistency,
    /// The matched block carries no location identifier.
    LocationUnavailable,
    /// A resolution parameter is absent or unusable.
    ConfigMissing,
}

} // verus!
