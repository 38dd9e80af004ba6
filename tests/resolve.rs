use fast_geoip::resolve::{leaf_stage, mid_stage, root_stage, LeafMatch, MidMatch, RootMatch, MAX_KEY};
use fast_geoip::shard::{parse_blocks, parse_keys, parse_location};
use fast_geoip::{IpBlockRecord, LookupError, Params};
use serde_json::Number;

fn block(start: u32, location: Option<u32>) -> IpBlockRecord {
    IpBlockRecord(start, location, Number::from(1), Number::from(2), 7)
}

#[test]
fn root_stage_reports_ip_not_found_below_first_range() {
    let root = vec![100, 200, 300];
    assert_eq!(root_stage(&root, 99), Err(LookupError::IpNotFound));
    assert_eq!(root_stage(&Vec::new(), 99), Err(LookupError::IpNotFound));
}

#[test]
fn root_stage_sets_next_boundary_from_successor() {
    let root = vec![100, 200, 300];
    assert_eq!(root_stage(&root, 250), Ok(RootMatch { root_index: 1, next: 300 }));
    assert_eq!(root_stage(&root, 300), Ok(RootMatch { root_index: 2, next: MAX_KEY }));
    assert_eq!(MAX_KEY, 4294967295);
}

#[test]
fn mid_stage_computes_global_position() {
    let mid = vec![200, 220, 240];
    assert_eq!(
        mid_stage(&mid, 225, 3, 10, 300),
        Ok(MidMatch { local_index: 1, global: 31, next: 240 })
    );
    assert_eq!(
        mid_stage(&mid, 299, 3, 10, 300),
        Ok(MidMatch { local_index: 2, global: 32, next: 300 })
    );
    assert_eq!(
        mid_stage(&vec![0], 5, u32::MAX, u32::MAX, 9),
        Ok(MidMatch { local_index: 0, global: 18446744065119617025, next: 9 })
    );
}

#[test]
fn mid_stage_reports_inconsistency_below_first_range() {
    assert_eq!(mid_stage(&vec![200, 220], 150, 0, 10, 300), Err(LookupError::IndexInconsistency));
    assert_eq!(mid_stage(&Vec::new(), 150, 0, 10, 300), Err(LookupError::IndexInconsistency));
}

#[test]
fn leaf_stage_reports_inconsistency_when_no_block_matches() {
    let blocks = vec![block(220, Some(1)), block(230, Some(2))];
    assert_eq!(leaf_stage(&blocks, 219, 240), Err(LookupError::IndexInconsistency));
    assert_eq!(leaf_stage(&Vec::new(), 219, 240), Err(LookupError::IndexInconsistency));
}

#[test]
fn leaf_stage_reports_missing_location() {
    let blocks = vec![block(220, Some(1)), block(230, None), block(235, Some(3))];
    assert_eq!(leaf_stage(&blocks, 231, 240), Err(LookupError::LocationUnavailable));
}

#[test]
fn leaf_stage_reports_range_of_matched_block() {
    let blocks = vec![block(220, Some(1)), block(230, None), block(235, Some(3))];
    assert_eq!(
        leaf_stage(&blocks, 225, 240),
        Ok(LeafMatch { index: 0, location_id: 1, range_start: 220, range_end: 230 })
    );
    assert_eq!(
        leaf_stage(&blocks, 239, 240),
        Ok(LeafMatch { index: 2, location_id: 3, range_start: 235, range_end: 240 })
    );
}

#[test]
fn params_require_both_values() {
    assert_eq!(Params::new(None, Some(64)), Err(LookupError::ConfigMissing));
    assert_eq!(Params::new(Some(10), None), Err(LookupError::ConfigMissing));
    assert_eq!(Params::new(Some(10), Some(0)), Err(LookupError::ConfigMissing));
    assert_eq!(
        Params::new(Some(10), Some(64)),
        Ok(Params { nodes_per_mid_index: 10, location_record_size: 64 })
    );
}

#[test]
fn location_span_skips_the_delimiter() {
    let p = Params::new(Some(10), Some(64)).unwrap();
    assert_eq!(p.location_span(0), (1, 63));
    assert_eq!(p.location_span(3), (193, 63));
    let wide = Params::new(Some(1), Some(u32::MAX)).unwrap();
    assert_eq!(wide.location_span(u32::MAX), (18446744065119617026, 4294967294));
}

#[test]
fn key_shards_decode_and_must_ascend() {
    assert_eq!(parse_keys(b"[1, 5, 9]"), Ok(vec![1, 5, 9]));
    assert_eq!(parse_keys(b"[]"), Ok(vec![]));
    assert_eq!(parse_keys(b"[1, 5, 5]"), Err(LookupError::MalformedShard));
    assert_eq!(parse_keys(b"[9, 5]"), Err(LookupError::MalformedShard));
    assert_eq!(parse_keys(b"[1, -5]"), Err(LookupError::MalformedShard));
    assert_eq!(parse_keys(b"[4294967296]"), Err(LookupError::MalformedShard));
    assert_eq!(parse_keys(b"{\"a\": 1}"), Err(LookupError::MalformedShard));
    assert_eq!(parse_keys(b"not json"), Err(LookupError::MalformedShard));
}

#[test]
fn block_shards_decode_and_must_ascend() {
    let v = parse_blocks(b"[[10, 4, 45.4722, 9.1922, 20], [20, null, -1.5, 2, 0]]").unwrap();
    assert_eq!(v.len(), 2);
    assert_eq!((v[0].0, v[0].1, v[0].4), (10, Some(4), 20));
    assert_eq!(v[0].2.as_f64(), Some(45.4722));
    assert_eq!(v[0].3.as_f64(), Some(9.1922));
    assert_eq!((v[1].0, v[1].1, v[1].4), (20, None, 0));
    assert_eq!(v[1].2.as_f64(), Some(-1.5));
    assert_eq!(
        parse_blocks(b"[[20, 4, 1.0, 1.0, 1], [10, 4, 1.0, 1.0, 1]]").unwrap_err(),
        LookupError::MalformedShard
    );
    assert_eq!(parse_blocks(b"[[20, 4, 1.0, 1.0]]").unwrap_err(), LookupError::MalformedShard);
    assert_eq!(parse_blocks(b"[1, 2]").unwrap_err(), LookupError::MalformedShard);
}

#[test]
fn location_records_decode() {
    let l = parse_location(b"[\"IT\",\"25\",\"Milan\",0,\"Europe/Rome\",\"1\"]     ").unwrap();
    assert_eq!(l.country, "IT");
    assert_eq!(l.region, "25");
    assert_eq!(l.city, "Milan");
    assert_eq!(l.metro, 0);
    assert_eq!(l.timezone, "Europe/Rome");
    assert_eq!(l.eu, "1");
    assert_eq!(
        parse_location(b"[\"IT\",\"25\",\"Milan\",\"x\",\"Europe/Rome\",\"1\"]").unwrap_err(),
        LookupError::MalformedShard
    );
}
