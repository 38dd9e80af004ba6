//! Decoding of shard and record bytes, through serde_json.
//!
//! A shard file holds one JSON array; a location record is one JSON array of
//! six fields. What a decode yields is named by a spec function of the bytes
//! alone, so that what is built on it can be stated exactly.

use vstd::prelude::*;
use crate::block::IpBlockRecord;
use crate::location::LocationRecord;

verus! {

#[verifier::external_type_specification]
#[verifier::external_body]
pub struct ExNumber(serde_json::Number);

#[verifier::external_type_specification]
#[verifier::external_body]
pub struct ExJsonError(serde_json::Error);

/// Relies on serde_json's `Number` being cloned field by field (derived `Clone`).
pub assume_specification[ <serde_json::Number as Clone>::clone ](n: &serde_json::Number) -> (r:
    serde_json::Number)
    ensures
        r == *n,
;

/// The keys that a JSON array of unsigned 32-bit integers holds, or `None`
/// where the bytes are not such an array.
pub uninterp spec fn json_keys(b: Seq<u8>) -> Option<Seq<u32>>;

/// The range start, location id and area code of each element of a JSON array
/// of block tuples `[start, location_id | null, latitude, longitude, area]`, or
/// `None` where the bytes are not such an array.
pub uninterp spec fn json_blocks(b: Seq<u8>) -> Option<Seq<(u32, Option<u32>, u16)>>;

/// The six fields of a JSON array `[country, region, city, metro, timezone, eu]`,
/// or `None` where the bytes are not such an array.
pub uninterp spec fn json_location(b: Seq<u8>) -> Option<
    (Seq<char>, Seq<char>, Seq<char>, u32, Seq<char>, Seq<char>),
>;

/// The integer fields of a block record, in file order.
pub open spec fn block_fields(r: IpBlockRecord) -> (u32, Option<u32>, u16) {
    (r.0, r.1, r.4)
}

/// Relies on `serde_json::from_slice::<Vec<u32>>`: it succeeds exactly on a
/// JSON array of unsigned 32-bit integers, and its result depends on the bytes alone.
#[verifier::external_body]
pub(crate) fn decode_keys(b: &[u8]) -> (r: Result<Vec<u32>, serde_json::Error>)
    ensures
        match r {
            Ok(v) => json_keys(b@) == Some(v@),
            Err(_) => json_keys(b@) is None,
        },
{
    serde_json::from_slice::<Vec<u32>>(b)
}

/// Relies on `serde_json::from_slice` into a vector of
/// `(u32, Option<u32>, Number, Number, u16)` tuples: it succeeds exactly on a
/// JSON array of block tuples, and its result depends on the bytes alone.
#[verifier::external_body]
pub(crate) fn decode_blocks(b: &[u8]) -> (r: Result<Vec<IpBlockRecord>, serde_json::Error>)
    ensures
        match r {
            Ok(v) => json_blocks(b@) == Some(v@.map_values(|x: IpBlockRecord| block_fields(x))),
            Err(_) => json_blocks(b@) is None,
        },
{
    let rows = serde_json::from_slice::<
        Vec<(u32, Option<u32>, serde_json::Number, serde_json::Number, u16)>,
    >(b)?;
    Ok(rows.into_iter().map(|t| IpBlockRecord(t.0, t.1, t.2, t.3, t.4)).collect())
}

/// Relies on `serde_json::from_slice::<(String, String, String, u32, String, String)>`:
/// it succeeds exactly on a JSON array of those six fields, and its result
/// depends on the bytes alone.
#[verifier::external_body]
pub(crate) fn decode_location(b: &[u8]) -> (r: Result<LocationRecord, serde_json::Error>)
    ensures
        match r {
            Ok(l) => json_location(b@) == Some(
                (l.country@, l.region@, l.city@, l.metro, l.timezone@, l.eu@),
            ),
            Err(_) => json_location(b@) is None,
        },
{
    let t = serde_json::from_slice::<(String, String, String, u32, String, String)>(b)?;
    Ok(LocationRecord { country: t.0, region: t.1, city: t.2, metro: t.3, timezone: t.4, eu: t.5 })
}

} // verus!
