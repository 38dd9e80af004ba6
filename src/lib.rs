//! Resolution of IPv4 addresses to geolocation records over a sharded,
//! three-level, read-only index.

pub mod search;
pub mod block;
pub mod codec;
pub mod location;
pub mod error;
pub mod resolve;
pub mod params;
pub mod shard;
pub mod cache;
pub mod addr;
pub mod lookup;

pub use addr::ip_string_to_number;
pub use block::{IpBlockRecord, get_next_ip_from_list, item_binary_search};
pub use cache::{KeyShard, ShardCache};
pub use error::LookupError;
pub use location::LocationRecord;
pub use lookup::{GeoMatch, Lookup, Request, Resolver, Step};
pub use params::Params;
pub use search::{file_binary_search, floor_search, get_next_ip_from_u32};
