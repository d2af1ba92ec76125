//! The data that the client keeps and exchanges.

pub mod address;
pub mod notification;
pub mod server_url;
pub mod settings;
pub mod subscription;

pub use notification::{
    Attachment, Notification, NotificationAction, NtfyAction, NtfyAttachment, NtfyMessage,
    Priority,
};
pub use server_url::{normalize_url, urls_match, ServerUrl};
pub use settings::{
    AppSettings, NotificationDisplayMethod, NotificationSettings, ServerConfig, ThemeMode,
};
pub use subscription::{CreateSubscription, Subscription};
