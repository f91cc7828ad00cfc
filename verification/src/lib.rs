//! A caching HTTP proxy: request routing, cache decisions, range and header handling.
pub mod cache;
pub mod cache_control;
pub mod digest;
pub mod duration;
pub mod error;
pub mod exchange;
pub mod forward;
pub mod headers;
pub mod paths;
pub mod range;
pub mod router;
pub mod server;
pub mod storage;
pub mod stream;
pub mod table;
pub mod text;
pub mod time;
pub mod types;
pub mod upstream;

pub use cache_control::parse_cache_control;
pub use digest::get_hash_v1;
pub use duration::parse_duration;
pub use error::ErrorKind;
pub use headers::{conver_hashmap_to_header_map, conver_header_map_to_hashmap};
pub use range::parse_range;
pub use router::RequestHandler;
pub use server::ProxyServer;
