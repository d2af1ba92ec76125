//! The operations on the client's records, by the kind of record.

pub mod notifications;
pub mod servers;
pub mod settings;
pub mod subscriptions;
