//! The constants that tune the client.

pub mod connection;
