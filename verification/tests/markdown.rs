use ntfier::models::{Notification, NotificationAction, NotificationSettings, Priority};
use ntfier::models::NotificationDisplayMethod;
use ntfier::services::markdown::{collapse_whitespace, sanitize_for_notification};
use ntfier::services::notifier::{Toast, ToastSound};
use ntfier::services::ConnectionManager;

fn shown(title: &str, message: &str, priority: Priority) -> Notification {
    Notification {
        id: "n".to_string(),
        topic_id: "s".to_string(),
        title: title.to_string(),
        message: message.to_string(),
        priority,
        tags: Vec::new(),
        timestamp: 0,
        actions: Vec::new(),
        attachments: Vec::new(),
        read: false,
        is_expanded: false,
        favorite: false,
    }
}

fn display(method: NotificationDisplayMethod, sound: bool) -> NotificationSettings {
    NotificationSettings {
        notification_method: method,
        notification_force_display: true,
        notification_show_actions: true,
        notification_show_images: false,
        notification_sound: sound,
    }
}

fn button(label: &str, url: Option<&str>) -> NotificationAction {
    NotificationAction {
        id: "i".to_string(),
        label: label.to_string(),
        url: url.map(|u| u.to_string()),
        method: None,
        clear: false,
    }
}

#[test]
fn plain_text_without_images_and_markup() {
    assert_eq!(sanitize_for_notification("Hello **bold** and `code`"), "Hello bold and code");
    assert_eq!(
        sanitize_for_notification("Hello ![alt text](https://example.com/image.png) world"),
        "Hello world"
    );
    assert_eq!(sanitize_for_notification("# Title\n\nFirst\n\n- one\n- two"), "Title First one two");
    assert_eq!(sanitize_for_notification("[link](https://e.com) here"), "link here");
    assert_eq!(sanitize_for_notification("> quoted\n\nafter"), "quoted after");
    assert_eq!(sanitize_for_notification(""), "");
    assert_eq!(sanitize_for_notification("![only](https://e.com/i.png)"), "");
}

#[test]
fn white_space_collapses_to_single_spaces() {
    assert_eq!(collapse_whitespace("  a \t b\n\nc  "), "a b c");
    assert_eq!(collapse_whitespace("one"), "one");
    assert_eq!(collapse_whitespace(" \n "), "");
    assert_eq!(collapse_whitespace(""), "");
    assert_eq!(collapse_whitespace("a\u{a0}b"), "a b");
}

#[test]
fn native_toast_has_stock_title_and_sound_from_default_priority() {
    let toast = ConnectionManager::native_toast(&shown("", "raw **body**", Priority::Default), None);
    assert_eq!(toast.title, "New notification");
    assert_eq!(toast.body, "raw body");
    assert!(toast.sound);
    let quiet = display(NotificationDisplayMethod::Native, false);
    let toast = ConnectionManager::native_toast(
        &shown("*T*", "see [this](https://e.com) ![i](https://e.com/i.png)", Priority::Max),
        Some(&quiet),
    );
    assert_eq!(toast.title, "T");
    assert_eq!(toast.body, "see this");
    assert!(!toast.sound);
    let loud = display(NotificationDisplayMethod::Native, true);
    assert!(!ConnectionManager::native_toast(&shown("t", "b", Priority::Low), Some(&loud)).sound);
    assert!(ConnectionManager::native_toast(&shown("t", "b", Priority::High), Some(&loud)).sound);
}

#[test]
fn windows_toast_follows_priority_and_settings() {
    let settings = display(NotificationDisplayMethod::WindowsEnhanced, true);
    let mut n = shown("", "see ![i](https://e/i.png) **this**", Priority::High);
    n.actions = vec![
        button("one", Some("https://1")),
        button("none", None),
        button("three", Some("https://3")),
        button("four", Some("https://4")),
    ];
    let toast = ConnectionManager::winrt_toast(&n, &settings);
    assert_eq!(toast.title, "New notification");
    assert_eq!(toast.text, "see this");
    assert!(toast.force_display);
    assert!(toast.long_duration);
    assert_eq!(toast.sound, Some(ToastSound::Sms));
    assert_eq!(
        toast.buttons,
        vec![("one".to_string(), "https://1".to_string()), ("three".to_string(), "https://3".to_string())]
    );
    assert!(!toast.wants_image);
    let toast = ConnectionManager::winrt_toast(&shown("t", "m", Priority::Default), &settings);
    assert!(!toast.long_duration);
    assert_eq!(toast.sound, Some(ToastSound::Default));
    let toast = ConnectionManager::winrt_toast(&shown("t", "m", Priority::Low), &settings);
    assert_eq!(toast.sound, None);
    let mut silent = settings;
    silent.notification_sound = false;
    silent.notification_show_actions = false;
    let toast = ConnectionManager::winrt_toast(&n, &silent);
    assert_eq!(toast.sound, None);
    assert!(toast.buttons.is_empty());
}

#[test]
fn windows_toast_only_on_windows_and_when_chosen() {
    let n = shown("t", "m", Priority::Default);
    let enhanced = display(NotificationDisplayMethod::WindowsEnhanced, true);
    let native = display(NotificationDisplayMethod::Native, true);
    assert!(matches!(ConnectionManager::show_notification(&n, Some(&enhanced), true), Toast::Winrt(_)));
    assert!(matches!(ConnectionManager::show_notification(&n, Some(&enhanced), false), Toast::Native(_)));
    assert!(matches!(ConnectionManager::show_notification(&n, Some(&native), true), Toast::Native(_)));
    assert!(matches!(ConnectionManager::show_notification(&n, None, true), Toast::Native(_)));
}
