//! Verified core of a ClickHouse plugin speaking JSON-RPC over stdio.

pub mod text;
pub mod escape;
pub mod value;
pub mod query;
pub mod sql;
pub mod schema;
pub mod connection;
pub mod rpc;
