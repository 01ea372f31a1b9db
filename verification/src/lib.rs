//! Generation of globally-orderable 64-bit identifiers ("snowflakes")
//! across independent shards, each packing a millisecond timestamp, a
//! fixed node identity, and a per-millisecond sequence counter into one
//! value.

pub mod node;
pub mod pool;
pub mod response;
pub mod snowflake;

pub use node::Node;
pub use response::SnowflakeResponse;
pub use snowflake::Snowflake;
