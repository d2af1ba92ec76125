//! The protocol client, the connection supervisor and the reconciliation
//! of local and remote state.

pub mod connection_manager;
pub mod connection_task;
pub mod credential_manager;
pub mod image_cache;
pub mod markdown;
pub mod notifier;
pub mod ntfy_client;
pub mod sync_service;
pub mod tray_manager;
pub mod update_service;
pub mod wire;

pub use connection_manager::{ConnectionManager, ConnectionPlan};
pub use connection_task::{ConnectionAction, ConnectionEvent, ConnectionState, ConnectionTask};
pub use ntfy_client::{HttpRequest, HttpResponse, NtfyAccount, NtfyClient, NtfySubscription};
pub use sync_service::SyncService;
pub use tray_manager::TrayManager;
pub use update_service::{UpdateInfo, UpdateService};
