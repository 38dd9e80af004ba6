//! The location record store: fixed-width records addressed by byte offset.

use vstd::prelude::*;

verus! {

/// One decoded location record.
#[derive(Debug)]
pub struct LocationRecord {
    pub country: String,
    pub region: String,
    pub city: String,
    pub metro: u32,
    pub timezone: String,
    /// `"1"` inside the European Union, `"0"` outside.
    pub eu: String,
}

} // verus!
