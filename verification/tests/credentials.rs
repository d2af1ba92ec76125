use ntfier::services::credential_manager::{
    clear_cache, delete_password, get_password, keyring_key, store_password, CredentialCache,
    SERVICE_NAME,
};
use ntfier::services::{TrayManager, UpdateService};
use ntfier::error::AppError;

#[test]
fn password_is_held_until_it_is_deleted_or_replaced() {
    let mut cache = CredentialCache::new();
    assert_eq!(get_password(&cache, "u", "https://x").unwrap(), None);
    store_password(&mut cache, "u", "https://x", "one").unwrap();
    store_password(&mut cache, "v", "https://x", "other").unwrap();
    assert_eq!(get_password(&cache, "u", "https://x").unwrap(), Some("one".to_string()));
    store_password(&mut cache, "u", "https://x", "two").unwrap();
    assert_eq!(get_password(&cache, "u", "https://x").unwrap(), Some("two".to_string()));
    assert_eq!(get_password(&cache, "u", "https://y").unwrap(), None);
    delete_password(&mut cache, "u", "https://x").unwrap();
    assert_eq!(get_password(&cache, "u", "https://x").unwrap(), None);
    assert_eq!(get_password(&cache, "v", "https://x").unwrap(), Some("other".to_string()));
    delete_password(&mut cache, "u", "https://x").unwrap();
    clear_cache(&mut cache).unwrap();
    assert_eq!(get_password(&cache, "v", "https://x").unwrap(), None);
}

#[test]
fn password_is_found_under_every_address_of_the_server() {
    let mut cache = CredentialCache::new();
    store_password(&mut cache, "u", "https://x.com/", "one").unwrap();
    assert_eq!(get_password(&cache, "u", "https://x.com").unwrap(), Some("one".to_string()));
    assert_eq!(get_password(&cache, "u", "https://x.com//").unwrap(), Some("one".to_string()));
    store_password(&mut cache, "u", "https://x.com", "two").unwrap();
    assert_eq!(get_password(&cache, "u", "https://x.com/").unwrap(), Some("two".to_string()));
    delete_password(&mut cache, "u", "https://x.com/").unwrap();
    assert_eq!(get_password(&cache, "u", "https://x.com").unwrap(), None);
}

#[test]
fn key_of_the_secret_store() {
    assert_eq!(keyring_key("user", "https://ntfy.sh"), "user_https://ntfy.sh");
    assert_eq!(keyring_key("user", "https://ntfy.sh/"), "user_https://ntfy.sh");
    assert_eq!(SERVICE_NAME, "ntfier");
}

#[test]
fn tray_icon_changes_only_when_the_state_changes() {
    let mut tray = TrayManager::new();
    assert!(!tray.update_icon(false));
    assert!(tray.update_icon(true));
    assert!(!tray.update_icon(true));
    tray.force_update_icon(false);
    assert!(tray.update_icon(true));
    assert!(TrayManager::has_unread_in(&Ok(3)));
    assert!(!TrayManager::has_unread_in(&Ok(0)));
    assert!(!TrayManager::has_unread_in(&Err(AppError::Database("x".to_string()))));
}

#[test]
fn version_as_it_is_shown() {
    assert_eq!(UpdateService::version_display("1.2.3", false), "v1.2.3");
    assert_eq!(UpdateService::version_display("1.2.3", true), "dev");
}
