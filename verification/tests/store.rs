use ntfier::commands::notifications::plan_remote_delete;
use ntfier::commands::settings::{remove_server, set_switch, set_theme};
use ntfier::commands::subscriptions::{add_subscription, remove_subscription};
use ntfier::db::Database;
use ntfier::db::JsonVec;
use ntfier::error::AppError;
use ntfier::models::{
    CreateSubscription, Notification, NtfyMessage, Priority, ServerConfig, ThemeMode,
};
use ntfier::services::ConnectionManager;

fn store_with(topics: &[&str]) -> (Database, Vec<String>) {
    let mut db = Database::new();
    let mut ids = Vec::new();
    for (i, t) in topics.iter().enumerate() {
        let sub = db
            .create_subscription_with_id(
                CreateSubscription {
                    topic: t.to_string(),
                    server_url: "https://ntfy.sh".to_string(),
                    display_name: None,
                },
                format!("sub-{}", i),
            )
            .unwrap();
        ids.push(sub.id);
    }
    (db, ids)
}

fn note(id: &str, subscription: &str, timestamp: i64) -> Notification {
    Notification {
        id: id.to_string(),
        topic_id: subscription.to_string(),
        title: String::new(),
        message: "m".to_string(),
        priority: Priority::Default,
        tags: Vec::new(),
        timestamp,
        actions: Vec::new(),
        attachments: Vec::new(),
        read: false,
        is_expanded: false,
        favorite: false,
    }
}

fn message_for_store(id: &str, time: i64) -> NtfyMessage {
    NtfyMessage {
        id: id.to_string(),
        time,
        event: "message".to_string(),
        topic: "t".to_string(),
        message: Some("hi".to_string()),
        title: None,
        priority: None,
        tags: None,
        click: None,
        actions: None,
        attachment: None,
    }
}

#[test]
fn duplicate_suppression() {
    let (mut db, ids) = store_with(&["s"]);
    let s = &ids[0];
    let first = message_for_store("m1", 1000);
    let again = message_for_store("m1", 1000);
    let kept = db.deliver(s, &first, "n1".to_string(), "a1".to_string());
    assert!(kept.is_some());
    let kept = db.deliver(s, &again, "n2".to_string(), "a2".to_string());
    assert!(kept.is_none());
    let all = db.get_notifications_by_subscription(s).unwrap();
    assert_eq!(all.len(), 1);
    assert_eq!(all[0].id, "n1");
    assert_eq!(all[0].timestamp, 1_000_000);
    assert!(db.notification_exists_by_ntfy_id("m1").unwrap());
    assert!(!db.notification_exists_by_ntfy_id("m2").unwrap());
}

#[test]
fn insert_with_the_same_message_twice_keeps_one() {
    let (mut db, ids) = store_with(&["s", "t"]);
    assert!(db.insert_notification_with_ntfy_id(&note("n1", &ids[0], 5), "m1").is_ok());
    assert!(db.insert_notification_with_ntfy_id(&note("n9", &ids[1], 6), "other").is_ok());
    assert!(db.insert_notification_with_ntfy_id(&note("n2", &ids[0], 7), "m1").is_ok());
    assert!(db.insert_notification_with_ntfy_id(&note("n3", &ids[1], 8), "m1").is_ok());
    assert_eq!(db.get_notifications_by_subscription(&ids[0]).unwrap().len(), 1);
    assert_eq!(db.get_notifications_by_subscription(&ids[1]).unwrap().len(), 1);
    assert_eq!(db.get_notification_meta("n1").unwrap(), Some((Some("m1".to_string()), ids[0].clone())));
    assert_eq!(db.get_notification_meta("n2").unwrap(), None);
}

#[test]
fn taken_identifier_with_a_new_message_is_passed_over_in_silence() {
    let (mut db, ids) = store_with(&["s"]);
    db.insert_notification_with_ntfy_id(&note("n1", &ids[0], 5), "m1").unwrap();
    assert!(db.insert_notification_with_ntfy_id(&note("n1", &ids[0], 6), "m2").is_ok());
    assert!(!db.notification_exists_by_ntfy_id("m2").unwrap());
    // the message can still be stored under a free identifier
    assert!(db.insert_notification_with_ntfy_id(&note("n2", &ids[0], 6), "m2").is_ok());
    assert!(db.notification_exists_by_ntfy_id("m2").unwrap());
    // the same message again is passed over in silence, whatever its identifier
    assert!(db.insert_notification_with_ntfy_id(&note("n1", &ids[0], 6), "m1").is_ok());
    assert!(db.insert_notification_with_ntfy_id(&note("n3", "nowhere", 6), "m1").is_ok());
    assert_eq!(db.get_notifications_by_subscription(&ids[0]).unwrap().len(), 2);
}

#[test]
fn two_inserts_of_one_message_in_either_order_keep_the_first() {
    for first in ["a", "b"] {
        let second = if first == "a" { "b" } else { "a" };
        let (mut db, ids) = store_with(&["s"]);
        assert!(db.insert_notification_with_ntfy_id(&note(first, &ids[0], 5), "k").is_ok());
        assert!(db.insert_notification_with_ntfy_id(&note(second, &ids[0], 5), "k").is_ok());
        let kept = db.notification_records();
        assert_eq!(kept.len(), 1);
        assert_eq!(kept[0].notification.id, first);
        assert_eq!(kept[0].ntfy_id, Some("k".to_string()));
    }
}

#[test]
fn remote_deletion_carries_the_credentials_of_the_server() {
    let mut db = Database::new();
    db.add_server(ServerConfig {
        url: "https://push.example.org".to_string(),
        username: Some("user".to_string()),
        password: Some("pass".to_string()),
        is_default: false,
    })
    .unwrap();
    db.add_server(ServerConfig {
        url: "https://lone.example.org".to_string(),
        username: Some("user".to_string()),
        password: None,
        is_default: false,
    })
    .unwrap();
    for (i, url) in ["https://push.example.org/", "https://lone.example.org"].iter().enumerate() {
        db.create_subscription_with_id(
            CreateSubscription {
                topic: "t".to_string(),
                server_url: url.to_string(),
                display_name: None,
            },
            format!("r{}", i),
        )
        .unwrap();
        db.insert_notification_with_ntfy_id(&note(&format!("n{}", i), &format!("r{}", i), 1), &format!("m{}", i))
            .unwrap();
    }
    set_switch(&mut db, "delete_local_only", false).unwrap();
    let plan = plan_remote_delete(&db, "n0").unwrap().unwrap();
    assert_eq!(plan.server_url, "https://push.example.org");
    assert_eq!(plan.username, Some("user".to_string()));
    assert_eq!(plan.password, Some("pass".to_string()));
    let plan = plan_remote_delete(&db, "n1").unwrap().unwrap();
    assert_eq!(plan.username, None);
    assert_eq!(plan.password, None);
}

#[test]
fn notifications_without_message_identifier_are_never_deduplicated() {
    let (mut db, ids) = store_with(&["s"]);
    assert!(db.insert_notification(&note("n1", &ids[0], 5)).is_ok());
    assert!(db.insert_notification(&note("n2", &ids[0], 5)).is_ok());
    assert_eq!(db.get_notifications_by_subscription(&ids[0]).unwrap().len(), 2);
    // the same identifier replaces
    let mut changed = note("n1", &ids[0], 9);
    changed.message = "changed".to_string();
    assert!(db.insert_notification(&changed).is_ok());
    let all = db.get_notifications_by_subscription(&ids[0]).unwrap();
    assert_eq!(all.len(), 2);
    assert_eq!(all[0].id, "n1");
    assert_eq!(all[0].message, "changed");
    assert_eq!(db.get_notification_meta("n1").unwrap(), Some((None, ids[0].clone())));
}

#[test]
fn notification_of_a_missing_subscription_is_refused() {
    let mut db = Database::new();
    match db.insert_notification_with_ntfy_id(&note("n1", "nowhere", 5), "m1") {
        Err(AppError::NotFound(d)) => assert_eq!(d, "Subscription nowhere not found"),
        other => panic!("unexpected {:?}", other),
    }
    match db.insert_notification(&note("n1", "nowhere", 5)) {
        Err(AppError::NotFound(d)) => assert_eq!(d, "Subscription nowhere not found"),
        other => panic!("unexpected {:?}", other),
    }
    assert!(db.deliver("nowhere", &message_for_store("m", 1), "n".to_string(), "a".to_string()).is_none());
}

#[test]
fn notifications_come_newest_first() {
    let (mut db, ids) = store_with(&["s"]);
    for (i, t) in [5i64, 9, 7, 7, 1].iter().enumerate() {
        db.insert_notification(&note(&format!("n{}", i), &ids[0], *t)).unwrap();
    }
    let times: Vec<i64> = db
        .get_notifications_by_subscription(&ids[0])
        .unwrap()
        .iter()
        .map(|n| n.timestamp)
        .collect();
    assert_eq!(times, vec![9, 7, 7, 5, 1]);
}

#[test]
fn flags_and_counts() {
    let (mut db, ids) = store_with(&["s", "t"]);
    db.insert_notification(&note("a", &ids[0], 1)).unwrap();
    db.insert_notification(&note("b", &ids[0], 2)).unwrap();
    db.insert_notification(&note("c", &ids[1], 3)).unwrap();
    assert_eq!(db.get_unread_count(&ids[0]).unwrap(), 2);
    assert_eq!(db.get_total_unread_count().unwrap(), 3);
    db.mark_notification_read("a").unwrap();
    assert_eq!(db.get_unread_count(&ids[0]).unwrap(), 1);
    db.toggle_subscription_mute(&ids[1]).unwrap();
    assert_eq!(db.get_total_unread_count().unwrap(), 1);
    db.mark_all_notifications_read(&ids[0]).unwrap();
    assert_eq!(db.get_unread_count(&ids[0]).unwrap(), 0);
    assert_eq!(db.get_unread_count(&ids[1]).unwrap(), 1);
    db.set_notification_expanded("b", true).unwrap();
    db.set_notification_favorite("c", true).unwrap();
    let b = &db.get_notifications_by_subscription(&ids[0]).unwrap()[0];
    assert_eq!(b.id, "b");
    assert!(b.is_expanded && b.read && !b.favorite);
    let favorites = db.get_favorite_notifications().unwrap();
    assert_eq!(favorites.len(), 1);
    assert_eq!(favorites[0].id, "c");
    db.delete_notification("c").unwrap();
    assert!(db.get_favorite_notifications().unwrap().is_empty());
    assert_eq!(db.get_notifications_by_subscription(&ids[0]).unwrap().len(), 2);
}

#[test]
fn subscriptions_are_listed_by_latest_notification() {
    let (mut db, ids) = store_with(&["quiet", "old", "new"]);
    db.insert_notification(&note("a", &ids[1], 10)).unwrap();
    db.insert_notification(&note("b", &ids[2], 30)).unwrap();
    db.insert_notification(&note("c", &ids[2], 20)).unwrap();
    let subs = db.get_all_subscriptions().unwrap();
    let topics: Vec<&str> = subs.iter().map(|s| s.topic.as_str()).collect();
    assert_eq!(topics, vec!["new", "old", "quiet"]);
    assert_eq!(subs[0].last_notification, Some(30));
    assert_eq!(subs[0].unread_count, 2);
    assert_eq!(subs[2].last_notification, None);
    assert_eq!(subs[2].unread_count, 0);
    let one = db.get_subscription_by_id(&ids[1]).unwrap().unwrap();
    assert_eq!(one.topic, "old");
    assert!(db.get_subscription_by_id("none").unwrap().is_none());
}

#[test]
fn subscription_is_unique_by_server_and_topic() {
    let (mut db, _) = store_with(&["alerts"]);
    let again = CreateSubscription {
        topic: "alerts".to_string(),
        server_url: "https://ntfy.sh/".to_string(),
        display_name: Some("x".to_string()),
    };
    match db.create_subscription(again) {
        Err(AppError::Database(d)) => {
            assert_eq!(d, "Subscription already exists")
        }
        other => panic!("unexpected {:?}", other),
    }
    let taken = CreateSubscription {
        topic: "other".to_string(),
        server_url: "https://ntfy.sh".to_string(),
        display_name: None,
    };
    match db.create_subscription_with_id(taken, "sub-0".to_string()) {
        Err(AppError::Database(d)) => assert_eq!(d, "Subscription identifier is taken"),
        other => panic!("unexpected {:?}", other),
    }
    let elsewhere = CreateSubscription {
        topic: "alerts".to_string(),
        server_url: "https://push.example.org/".to_string(),
        display_name: Some(String::new()),
    };
    let sub = db.create_subscription(elsewhere).unwrap();
    assert_eq!(sub.server_url, "https://push.example.org");
    assert_eq!(sub.display_name, None);
    assert_eq!(sub.id.chars().count(), 36);
    assert_eq!(db.get_all_subscriptions().unwrap().len(), 2);
    let servers = db.get_servers_with_credentials().unwrap();
    assert_eq!(servers.len(), 2);
    assert_eq!(servers[1].url, "https://push.example.org");
    assert!(!servers[1].is_default);
    let invalid = CreateSubscription {
        topic: "bad topic".to_string(),
        server_url: "https://ntfy.sh".to_string(),
        display_name: None,
    };
    assert!(matches!(db.create_subscription(invalid), Err(AppError::InvalidUrl(_))));
}

#[test]
fn deleting_a_subscription_takes_its_notifications() {
    let (mut db, ids) = store_with(&["s", "t"]);
    db.insert_notification(&note("a", &ids[0], 1)).unwrap();
    db.insert_notification(&note("b", &ids[1], 2)).unwrap();
    db.delete_subscription(&ids[0]).unwrap();
    assert_eq!(db.get_all_subscriptions().unwrap().len(), 1);
    assert!(db.get_notifications_by_subscription(&ids[0]).unwrap().is_empty());
    assert_eq!(db.get_notifications_by_subscription(&ids[1]).unwrap().len(), 1);
    assert_eq!(db.get_notification_meta("a").unwrap(), None);
    // deleting what is not there changes nothing
    db.delete_subscription("none").unwrap();
    assert_eq!(db.get_all_subscriptions().unwrap().len(), 1);
}

#[test]
fn muting_a_missing_subscription_fails() {
    let (mut db, ids) = store_with(&["s"]);
    assert!(db.toggle_subscription_mute(&ids[0]).unwrap().muted);
    assert!(!db.toggle_subscription_mute(&ids[0]).unwrap().muted);
    match db.toggle_subscription_mute("none") {
        Err(AppError::NotFound(d)) => assert_eq!(d, "Subscription none not found"),
        other => panic!("unexpected {:?}", other),
    }
}

#[test]
fn server_removal_cascades() {
    let mut db = Database::new();
    let mut manager = ConnectionManager::new();
    db.add_server(ServerConfig {
        url: "https://push.example.org/".to_string(),
        username: Some("u".to_string()),
        password: Some("p".to_string()),
        is_default: false,
    })
    .unwrap();
    let mut mine = Vec::new();
    for topic in ["a", "b"] {
        let (sub, plan) = add_subscription(
            &mut db,
            &mut manager,
            CreateSubscription {
                topic: topic.to_string(),
                server_url: "https://push.example.org".to_string(),
                display_name: None,
            },
        )
        .unwrap();
        assert_eq!(plan.subscription_id, sub.id);
        mine.push(sub);
    }
    let (other, other_plan) = add_subscription(
        &mut db,
        &mut manager,
        CreateSubscription {
            topic: "c".to_string(),
            server_url: "https://ntfy.sh".to_string(),
            display_name: None,
        },
    )
    .unwrap();
    for i in 0..10 {
        let owner = &mine[i % 2].id;
        db.insert_notification_with_ntfy_id(&note(&format!("n{}", i), owner, i as i64), &format!("m{}", i))
            .unwrap();
    }
    db.insert_notification(&note("keep", &other.id, 1)).unwrap();
    assert_eq!(db.get_all_subscriptions().unwrap().len(), 3);

    let stopped = remove_server(&mut db, &mut manager, "https://push.example.org/").unwrap();
    assert_eq!(stopped.len(), 2);
    assert!(!stopped.contains(&other_plan.connection_id));
    assert_eq!(manager.current_connection(&mine[0].id), None);
    assert_eq!(manager.current_connection(&mine[1].id), None);
    assert_eq!(manager.current_connection(&other.id), Some(other_plan.connection_id));
    let left = db.get_all_subscriptions().unwrap();
    assert_eq!(left.len(), 1);
    assert_eq!(left[0].id, other.id);
    assert!(db.get_notifications_by_subscription(&mine[0].id).unwrap().is_empty());
    assert!(db.get_notifications_by_subscription(&mine[1].id).unwrap().is_empty());
    for i in 0..10 {
        assert!(!db.notification_exists_by_ntfy_id(&format!("m{}", i)).unwrap());
    }
    assert_eq!(db.get_notifications_by_subscription(&other.id).unwrap().len(), 1);
    let servers = db.get_servers_with_credentials().unwrap();
    assert_eq!(servers.len(), 1);
    assert_eq!(servers[0].url, "https://ntfy.sh");
}

#[test]
fn servers_are_unique_and_at_most_one_is_default() {
    let mut db = Database::new();
    assert_eq!(db.get_default_server_url().unwrap(), "https://ntfy.sh");
    db.add_server(ServerConfig {
        url: "https://a.example/".to_string(),
        username: None,
        password: None,
        is_default: true,
    })
    .unwrap();
    assert_eq!(db.get_default_server_url().unwrap(), "https://a.example");
    let servers = db.get_servers_with_credentials().unwrap();
    assert_eq!(servers.iter().filter(|s| s.is_default).count(), 1);
    match db.add_server(ServerConfig {
        url: "https://a.example".to_string(),
        username: None,
        password: None,
        is_default: false,
    }) {
        Err(AppError::Database(d)) => assert_eq!(d, "Server already exists"),
        other => panic!("unexpected {:?}", other),
    }
    assert!(matches!(
        db.add_server(ServerConfig {
            url: "ftp://a.example".to_string(),
            username: None,
            password: None,
            is_default: false,
        }),
        Err(AppError::InvalidUrl(_))
    ));
    db.set_default_server("https://ntfy.sh/").unwrap();
    assert_eq!(db.get_default_server_url().unwrap(), "https://ntfy.sh");
    match db.set_default_server("https://unknown") {
        Err(AppError::NotFound(d)) => assert_eq!(d, "Server https://unknown not found"),
        other => panic!("unexpected {:?}", other),
    }
    assert_eq!(db.get_default_server_url().unwrap(), "https://ntfy.sh");
    assert_eq!(db.get_servers_with_credentials().unwrap().iter().filter(|s| s.is_default).count(), 1);
    db.remove_server("https://a.example//").unwrap();
    assert_eq!(db.get_servers_with_credentials().unwrap().len(), 1);
}

#[test]
fn settings_have_defaults_and_are_replaced() {
    let mut db = Database::new();
    let s = db.get_settings().unwrap();
    assert_eq!(s.theme, ThemeMode::System);
    assert!(s.minimize_to_tray && !s.start_minimized && s.delete_local_only && !s.favorites_enabled);
    set_theme(&mut db, ThemeMode::Dark).unwrap();
    set_switch(&mut db, "minimize_to_tray", false).unwrap();
    set_switch(&mut db, "start_minimized", true).unwrap();
    set_theme(&mut db, ThemeMode::Light).unwrap();
    let s = db.get_settings().unwrap();
    assert_eq!(s.theme, ThemeMode::Light);
    assert!(!s.minimize_to_tray && s.start_minimized);
    assert!(!db.get_minimize_to_tray().unwrap());
    assert!(db.get_start_minimized().unwrap());
    assert_eq!(db.get_setting_string("theme", "system").unwrap(), "light");
    assert_eq!(db.get_setting_string("none", "fallback").unwrap(), "fallback");
    db.set_setting("notification_sound", "yes").unwrap();
    assert!(!db.get_setting_bool("notification_sound", true).unwrap());
    assert!(!db.get_notification_settings().unwrap().notification_sound);
    assert!(db.get_notification_settings().unwrap().notification_show_images);
}

#[test]
fn remote_deletion_is_planned_only_when_asked_for() {
    let (mut db, ids) = store_with(&["alerts"]);
    db.insert_notification_with_ntfy_id(&note("n1", &ids[0], 1), "m1").unwrap();
    db.insert_notification(&note("n2", &ids[0], 2)).unwrap();
    assert!(plan_remote_delete(&db, "n1").unwrap().is_none());
    set_switch(&mut db, "delete_local_only", false).unwrap();
    let plan = plan_remote_delete(&db, "n1").unwrap().unwrap();
    assert_eq!(plan.server_url, "https://ntfy.sh");
    assert_eq!(plan.topic, "alerts");
    assert_eq!(plan.ntfy_id, "m1");
    assert_eq!(plan.username, None);
    assert!(plan_remote_delete(&db, "n2").unwrap().is_none());
    assert!(plan_remote_delete(&db, "none").unwrap().is_none());
}

#[test]
fn removing_a_subscription_disconnects_it_first() {
    let mut db = Database::new();
    let mut manager = ConnectionManager::new();
    let (sub, plan) = add_subscription(
        &mut db,
        &mut manager,
        CreateSubscription {
            topic: "a".to_string(),
            server_url: "https://ntfy.sh".to_string(),
            display_name: None,
        },
    )
    .unwrap();
    assert_eq!(plan.connection_id, 1);
    assert_eq!(plan.ws_url, "wss://ntfy.sh/a/ws");
    assert_eq!(remove_subscription(&mut db, &mut manager, &sub.id).unwrap(), Some(1));
    assert_eq!(remove_subscription(&mut db, &mut manager, &sub.id).unwrap(), None);
    assert!(db.get_all_subscriptions().unwrap().is_empty());
}

#[test]
fn records_are_handed_out_as_they_are_kept() {
    let (mut db, ids) = store_with(&["s", "t"]);
    db.insert_notification_with_ntfy_id(&note("b", &ids[1], 9), "m9").unwrap();
    db.insert_notification(&note("a", &ids[0], 1)).unwrap();
    db.update_subscription_last_sync(&ids[1], 77).unwrap();
    db.update_subscription_last_sync(&ids[1], 70).unwrap();
    db.set_setting("theme", "dark").unwrap();
    let subs = db.subscription_records();
    assert_eq!(subs.len(), 2);
    assert_eq!(subs[0].last_sync, None);
    assert_eq!(subs[1].last_sync, Some(77));
    let notes = db.notification_records();
    assert_eq!(notes.len(), 2);
    assert_eq!(notes[0].notification.id, "b");
    assert_eq!(notes[0].ntfy_id, Some("m9".to_string()));
    assert_eq!(notes[1].ntfy_id, None);
    let settings = db.setting_records();
    assert_eq!(settings.len(), 1);
    assert_eq!(settings[0].key, "theme");
    assert_eq!(settings[0].value, "dark");
}

#[test]
fn list_in_a_column() {
    let v = JsonVec::new(vec![1, 2, 3]);
    assert_eq!(v.0.len(), 3);
    assert_eq!(v.into_inner(), vec![1, 2, 3]);
}
