//! What the commands of the user interface decide.

pub mod notifications;
pub mod settings;
pub mod subscriptions;
