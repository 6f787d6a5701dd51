//! Query engine for IP2Location and IP2Proxy binary databases.
//!
//! The library decodes the file header, the two index blocks, the sorted
//! record tables and the length-prefixed string pool of a database image,
//! and answers lookups over it.
pub mod bytes;
pub mod content;
pub mod header;
pub mod index;
pub mod ip2location;
pub mod ip2proxy;
pub mod proxy_format;
pub mod querier;
pub mod record_field;
pub mod records;
pub mod schema;
