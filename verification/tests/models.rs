use ntfier::error::AppError;
use ntfier::models::{
    normalize_url, urls_match, AppSettings, CreateSubscription, NotificationDisplayMethod,
    NtfyAction, NtfyAttachment, NtfyMessage, Priority, ServerConfig, ServerUrl, Subscription,
    ThemeMode,
};

fn invalid_url_detail(r: Result<(), AppError>) -> String {
    match r {
        Err(AppError::InvalidUrl(d)) => d,
        other => panic!("expected an invalid address, got {:?}", other),
    }
}

fn request_for(topic: &str, server_url: &str) -> CreateSubscription {
    CreateSubscription {
        topic: topic.to_string(),
        server_url: server_url.to_string(),
        display_name: None,
    }
}

fn wire_message(id: &str, time: i64) -> NtfyMessage {
    NtfyMessage {
        id: id.to_string(),
        time,
        event: "message".to_string(),
        topic: "t".to_string(),
        message: None,
        title: None,
        priority: None,
        tags: None,
        click: None,
        actions: None,
        attachment: None,
    }
}

#[test]
fn trailing_slashes_are_ignored_in_addresses() {
    assert_eq!(normalize_url("https://x.com/"), "https://x.com");
    assert_eq!(normalize_url("https://x.com///"), "https://x.com");
    assert_eq!(normalize_url("https://x.com"), "https://x.com");
    assert_eq!(normalize_url("///"), "");
    assert_eq!(normalize_url(""), "");
    assert!(urls_match("https://x.com", "https://x.com/"));
    assert!(urls_match("https://x.com/", "https://x.com"));
    assert!(!urls_match("https://x.com", "https://y.com"));
    assert!(!urls_match("https://x.com", "https://x.com/a"));
}

#[test]
fn server_url_clone_and_matches() {
    let url = ServerUrl::new("https://ntfy.sh//");
    let copy = url.clone();
    assert_eq!(copy.as_str(), "https://ntfy.sh");
    assert!(copy.matches("https://ntfy.sh/"));
    assert!(!copy.matches("https://ntfy.sh/x"));
    assert_eq!(url.join("///a/b"), "https://ntfy.sh/a/b");
}

#[test]
fn subscription_and_server_identity_ignore_trailing_slash() {
    let sub = Subscription {
        id: "s".to_string(),
        topic: "t".to_string(),
        server_url: "https://x.com/".to_string(),
        display_name: None,
        unread_count: 0,
        last_notification: None,
        muted: false,
    };
    assert_eq!(sub.normalized_server_url(), "https://x.com");
    assert!(sub.server_url_matches("https://x.com"));
    assert!(!sub.server_url_matches("https://x.org"));
    let server = ServerConfig {
        url: "https://x.com".to_string(),
        username: None,
        password: None,
        is_default: false,
    };
    assert_eq!(server.normalized_url(), "https://x.com");
    assert!(server.url_matches("https://x.com/"));
    assert!(!server.url_matches("https://x.com/v1"));
}

#[test]
fn credentials_need_user_name_and_password() {
    let mut server = ServerConfig {
        url: "https://x.com".to_string(),
        username: Some("u".to_string()),
        password: Some("p".to_string()),
        is_default: false,
    };
    assert_eq!(server.credentials(), Some(("u", "p")));
    server.username = Some(String::new());
    assert_eq!(server.credentials(), None);
    server.username = None;
    assert_eq!(server.credentials(), None);
    server.username = Some("u".to_string());
    server.password = None;
    assert_eq!(server.credentials(), None);
}

#[test]
fn topic_is_checked_before_the_address() {
    assert_eq!(
        invalid_url_detail(request_for("   ", "https://ntfy.sh").validate()),
        "Topic cannot be empty"
    );
    let long = "a".repeat(65);
    assert_eq!(
        invalid_url_detail(request_for(&long, "https://ntfy.sh").validate()),
        "Topic must be 64 characters or less"
    );
    assert!(request_for(&"a".repeat(64), "https://ntfy.sh").validate().is_ok());
    assert_eq!(
        invalid_url_detail(request_for("a b", "https://ntfy.sh").validate()),
        "Topic can only contain letters, numbers, hyphens, and underscores"
    );
    assert_eq!(
        invalid_url_detail(request_for("caf\u{e9}", "https://ntfy.sh").validate()),
        "Topic can only contain letters, numbers, hyphens, and underscores"
    );
    assert!(request_for(" my-Topic_1 ", "https://ntfy.sh").validate().is_ok());
}

#[test]
fn address_of_a_subscription_is_checked() {
    assert_eq!(
        invalid_url_detail(request_for("t", "  ").validate()),
        "Server URL cannot be empty"
    );
    assert!(invalid_url_detail(request_for("t", "not a url").validate())
        .starts_with("Invalid server URL: "));
    assert_eq!(
        invalid_url_detail(request_for("t", "not a url").validate()),
        "Invalid server URL: relative URL without a base"
    );
    assert_eq!(
        invalid_url_detail(request_for("t", "ftp://example.com").validate()),
        "Server URL must use http or https scheme"
    );
    assert!(request_for("t", "http://example.com:8080/base").validate().is_ok());
    assert!(request_for("t", "HTTPS://EXAMPLE.COM").validate().is_ok());
}

#[test]
fn address_of_a_server_is_checked() {
    let server = |url: &str| ServerConfig {
        url: url.to_string(),
        username: None,
        password: None,
        is_default: false,
    };
    assert_eq!(invalid_url_detail(server("").validate()), "Server URL cannot be empty");
    assert_eq!(
        invalid_url_detail(server("://x").validate()),
        "Invalid URL: relative URL without a base"
    );
    assert_eq!(
        invalid_url_detail(server("mailto:a@b.c").validate()),
        "URL must use http or https scheme"
    );
    assert!(server("https://ntfy.sh").validate().is_ok());
}

#[test]
fn priority_from_number() {
    assert_eq!(Priority::from(1i8), Priority::Min);
    assert_eq!(Priority::from(2i8), Priority::Low);
    assert_eq!(Priority::from(3i8), Priority::Default);
    assert_eq!(Priority::from(4i8), Priority::High);
    assert_eq!(Priority::from(5i8), Priority::Max);
    assert_eq!(Priority::from(0i8), Priority::Default);
    assert_eq!(Priority::from(-7i8), Priority::Default);
    assert_eq!(Priority::from(6i8), Priority::Default);
    assert_eq!(Priority::default(), Priority::Default);
    assert_eq!(Priority::Max.level(), 5);
    assert_eq!(Priority::Min.level(), 1);
}

#[test]
fn message_becomes_notification_in_milliseconds() {
    let mut m = wire_message("m1", 1700000000);
    m.title = Some("Title".to_string());
    m.message = Some("Body".to_string());
    m.priority = Some(4);
    m.tags = Some(vec!["a".to_string(), "b".to_string()]);
    m.actions = Some(vec![NtfyAction {
        id: "x".to_string(),
        action: "view".to_string(),
        label: "Open".to_string(),
        url: Some("https://e.com".to_string()),
        method: None,
        clear: None,
    }]);
    m.attachment = Some(NtfyAttachment {
        name: "f.bin".to_string(),
        mime_type: None,
        url: "https://e.com/f.bin".to_string(),
        size: Some(12),
    });
    assert_eq!(m.ntfy_id(), "m1");
    let n = m.into_notification_with_ids("sub".to_string(), "n1".to_string(), "a1".to_string());
    assert_eq!(n.id, "n1");
    assert_eq!(n.topic_id, "sub");
    assert_eq!(n.title, "Title");
    assert_eq!(n.message, "Body");
    assert_eq!(n.priority, Priority::High);
    assert_eq!(n.tags, vec!["a".to_string(), "b".to_string()]);
    assert_eq!(n.timestamp, 1700000000000);
    assert_eq!(n.actions.len(), 1);
    assert_eq!(n.actions[0].label, "Open");
    assert!(!n.actions[0].clear);
    assert_eq!(n.attachments.len(), 1);
    assert_eq!(n.attachments[0].id, "a1");
    assert_eq!(n.attachments[0].attachment_type, "application/octet-stream");
    assert_eq!(n.attachments[0].size, Some(12));
    assert!(!n.read);
    assert!(!n.is_expanded);
    assert!(!n.favorite);
}

#[test]
fn bare_message_becomes_empty_notification_with_fresh_identifier() {
    let a = wire_message("m1", 5).into_notification("sub".to_string());
    let b = wire_message("m1", 5).into_notification("sub".to_string());
    assert_eq!(a.title, "");
    assert_eq!(a.message, "");
    assert_eq!(a.priority, Priority::Default);
    assert!(a.tags.is_empty());
    assert!(a.actions.is_empty());
    assert!(a.attachments.is_empty());
    assert_eq!(a.timestamp, 5000);
    assert_eq!(a.id.chars().count(), 36);
    assert_ne!(a.id, b.id);
}

#[test]
fn time_of_a_message_must_fit_milliseconds() {
    assert!(wire_message("m", 9_223_372_036_854_775).time_in_range());
    assert!(!wire_message("m", 9_223_372_036_854_776).time_in_range());
    assert!(wire_message("m", -9_223_372_036_854_775).time_in_range());
    assert!(!wire_message("m", i64::MIN).time_in_range());
    let mut keepalive = wire_message("m", 1);
    keepalive.event = "keepalive".to_string();
    assert!(!keepalive.is_user_message());
    assert!(wire_message("m", 1).is_user_message());
}

#[test]
fn settings_of_a_new_installation() {
    let s = AppSettings::default();
    assert_eq!(s.theme, ThemeMode::System);
    assert_eq!(s.servers.len(), 1);
    assert_eq!(s.servers[0].url, "https://ntfy.sh");
    assert!(s.servers[0].is_default);
    assert_eq!(s.default_server, "https://ntfy.sh");
    assert!(s.minimize_to_tray);
    assert!(!s.start_minimized);
    assert_eq!(s.notification_method, NotificationDisplayMethod::Native);
    assert!(s.notification_sound);
    assert!(!s.compact_view);
    assert!(s.expand_new_messages);
}

#[test]
fn settings_words() {
    assert_eq!(ThemeMode::from_setting("light"), ThemeMode::Light);
    assert_eq!(ThemeMode::from_setting("dark"), ThemeMode::Dark);
    assert_eq!(ThemeMode::from_setting("anything"), ThemeMode::System);
    assert_eq!(ThemeMode::Dark.as_setting(), "dark");
    assert_eq!(
        NotificationDisplayMethod::from_setting("windows_enhanced"),
        NotificationDisplayMethod::WindowsEnhanced
    );
    assert_eq!(
        NotificationDisplayMethod::from_setting("x"),
        NotificationDisplayMethod::Native
    );
    assert_eq!(NotificationDisplayMethod::WindowsEnhanced.as_setting(), "windows_enhanced");
}

#[test]
fn every_kind_of_failure_has_its_words() {
    assert_eq!(AppError::Database("d".to_string()).to_string(), "Database error: d");
    assert_eq!(AppError::WebSocket("d".to_string()).to_string(), "WebSocket error: d");
    assert_eq!(AppError::Serialization("d".to_string()).to_string(), "Serialization error: d");
    assert_eq!(AppError::NotFound("d".to_string()).to_string(), "Not found: d");
    assert_eq!(AppError::InvalidUrl("d".to_string()).to_string(), "Invalid URL: d");
    assert_eq!(AppError::Connection("d".to_string()).to_string(), "Connection error: d");
    assert_eq!(AppError::Credential("d".to_string()).to_string(), "Credential error: d");
}
