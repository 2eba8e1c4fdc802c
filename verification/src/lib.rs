//! Maintains a deduplicated list of BitTorrent tracker announce URLs
//! assembled from heterogeneous sources, renders it for HTTP serving, and
//! prepares JSON-RPC synchronization calls for an aria2 daemon over either
//! an HTTP or a WebSocket transport.

pub mod payload;
pub mod rpc;
pub mod sources;
pub mod text;
pub mod trackers;

pub use rpc::Transport;
