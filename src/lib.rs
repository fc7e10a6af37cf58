//! Peer-to-peer synchronisation of song folders: the catalog of local folders,
//! the archives that carry them, the framed packet protocol and the decisions
//! taken by the two halves of a connection.

pub mod decimal;
pub mod catalog;
pub mod archive;
pub mod packets;
pub mod dispatch;
pub mod connection;
