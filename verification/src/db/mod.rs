//! The client's records and the operations on them.

pub mod connection;
pub mod models;
pub mod queries;
pub mod types;

pub use connection::Database;
pub use models::{NotificationRow, SettingRow, SubscriptionRow};
pub use types::JsonVec;
