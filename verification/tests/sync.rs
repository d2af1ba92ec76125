use ntfier::db::Database;
use ntfier::error::AppError;
use ntfier::models::{CreateSubscription, NtfyMessage, ServerConfig, Subscription};
use ntfier::services::{
    ConnectionManager, HttpResponse, NtfyAccount, NtfyClient, NtfySubscription, SyncService,
};

fn fetched(id: &str, time: i64) -> NtfyMessage {
    NtfyMessage {
        id: id.to_string(),
        time,
        event: "message".to_string(),
        topic: "t".to_string(),
        message: Some("hi".to_string()),
        title: None,
        priority: None,
        tags: None,
        click: None,
        actions: None,
        attachment: None,
    }
}

fn pairs(n: usize, prefix: &str) -> Vec<(String, String)> {
    (0..n).map(|i| (format!("{}-n{}", prefix, i), format!("{}-a{}", prefix, i))).collect()
}

fn one_subscription() -> (Database, Subscription) {
    let mut db = Database::new();
    let sub = db
        .create_subscription_with_id(
            CreateSubscription {
                topic: "alerts".to_string(),
                server_url: "https://ntfy.sh".to_string(),
                display_name: None,
            },
            "S".to_string(),
        )
        .unwrap();
    (db, sub)
}

fn watermark(db: &Database, id: &str) -> Option<i64> {
    db.get_subscription_with_last_sync(id).unwrap().unwrap().1
}

#[test]
fn backlog_watermark() {
    let (mut db, sub) = one_subscription();
    assert_eq!(watermark(&db, "S"), None);
    let client = NtfyClient::new().unwrap();
    let servers = db.get_servers_with_credentials().unwrap();
    let first = SyncService::backlog_request(&db, &client, &servers, &sub).unwrap();
    assert_eq!(first.url, "https://ntfy.sh/alerts/json?poll=1&since=all");

    let messages = vec![fetched("a", 5), fetched("b", 7), fetched("c", 7), fetched("d", 9)];
    let now = 3;
    let added = SyncService::apply_backlog(&mut db, "S", &messages, &pairs(4, "x"), now);
    assert_eq!(added.len(), 4);
    assert_eq!(watermark(&db, "S"), Some(10));
    assert_eq!(watermark(&db, "S"), Some(std::cmp::max(10, now)));

    // the second fetch asks from the watermark on, and so for no time up to 9
    let second = SyncService::backlog_request(&db, &client, &servers, &sub).unwrap();
    assert_eq!(second.url, "https://ntfy.sh/alerts/json?poll=1&since=10");
    let added = SyncService::apply_backlog(&mut db, "S", &Vec::new(), &Vec::new(), 4);
    assert!(added.is_empty());
    assert_eq!(watermark(&db, "S"), Some(10));
    assert_eq!(db.get_notifications_by_subscription("S").unwrap().len(), 4);
}

#[test]
fn watermark_is_one_past_the_later_of_clock_and_latest_message() {
    let (mut db, _) = one_subscription();
    SyncService::apply_backlog(&mut db, "S", &vec![fetched("a", 50)], &pairs(1, "x"), 100);
    assert_eq!(watermark(&db, "S"), Some(101));
    SyncService::apply_backlog(&mut db, "S", &vec![fetched("b", 500)], &pairs(1, "y"), 200);
    assert_eq!(watermark(&db, "S"), Some(501));
    // an empty window still moves the watermark past the clock
    SyncService::apply_backlog(&mut db, "S", &Vec::new(), &Vec::new(), 600);
    assert_eq!(watermark(&db, "S"), Some(601));
    // and it never moves back
    SyncService::apply_backlog(&mut db, "S", &vec![fetched("c", 5)], &pairs(1, "z"), 10);
    assert_eq!(watermark(&db, "S"), Some(601));
}

#[test]
fn checkpoint_formula() {
    assert_eq!(SyncService::checkpoint_after(Some(9), 3), 10);
    assert_eq!(SyncService::checkpoint_after(Some(9), 9), 10);
    assert_eq!(SyncService::checkpoint_after(Some(9), 10), 11);
    assert_eq!(SyncService::checkpoint_after(None, 10), 11);
    assert_eq!(SyncService::checkpoint_after(Some(-5), -7), -4);
}

#[test]
fn frames_and_messages_out_of_range_do_not_count() {
    let (mut db, _) = one_subscription();
    let mut keepalive = fetched("k", 900);
    keepalive.event = "keepalive".to_string();
    let messages = vec![fetched("a", 20), keepalive, fetched("far", i64::MAX)];
    let added = SyncService::apply_backlog(&mut db, "S", &messages, &pairs(3, "x"), 7);
    assert_eq!(added.len(), 1);
    assert_eq!(added[0].timestamp, 20_000);
    assert_eq!(watermark(&db, "S"), Some(21));
}

#[test]
fn backlog_of_a_missing_subscription_changes_nothing() {
    let (mut db, mut sub) = one_subscription();
    let added = SyncService::apply_backlog(&mut db, "none", &vec![fetched("a", 5)], &pairs(1, "x"), 7);
    assert!(added.is_empty());
    assert!(!db.notification_exists_by_ntfy_id("a").unwrap());
    assert_eq!(watermark(&db, "S"), None);
    sub.id = "none".to_string();
    let client = NtfyClient::new().unwrap();
    assert!(SyncService::backlog_request(&db, &client, &Vec::new(), &sub).is_none());
}

#[test]
fn message_on_both_paths_is_stored_once_in_either_order() {
    // live first
    let (mut db, _) = one_subscription();
    let live = ConnectionManager::handle_notification(&mut db, "S", fetched("m1", 5), false);
    assert!(live.is_some());
    let added = SyncService::apply_backlog(&mut db, "S", &vec![fetched("m1", 5), fetched("m2", 6)], &pairs(2, "x"), 7);
    assert_eq!(added.len(), 1);
    assert_eq!(db.get_notifications_by_subscription("S").unwrap().len(), 2);

    // backlog first
    let (mut db, _) = one_subscription();
    let added = SyncService::sync_subscription_notifications(&mut db, "S", &vec![fetched("m1", 5)]);
    assert_eq!(added.len(), 1);
    let live = ConnectionManager::handle_notification(&mut db, "S", fetched("m1", 5), false);
    assert!(live.is_none());
    assert_eq!(db.get_notifications_by_subscription("S").unwrap().len(), 1);
    let mark = watermark(&db, "S").unwrap();
    assert!(mark > 1_600_000_000);
}

#[test]
fn muted_subscription_stores_but_does_not_show() {
    let (mut db, _) = one_subscription();
    let d = ConnectionManager::handle_notification(&mut db, "S", fetched("m1", 5), true).unwrap();
    assert!(!d.show);
    assert_eq!(d.notification.topic_id, "S");
    let d = ConnectionManager::handle_notification(&mut db, "S", fetched("m2", 5), false).unwrap();
    assert!(d.show);
    let mut frame = fetched("m3", 5);
    frame.event = "open".to_string();
    assert!(ConnectionManager::handle_notification(&mut db, "S", frame, false).is_none());
    assert_eq!(db.get_notifications_by_subscription("S").unwrap().len(), 2);
}

fn listed(base_url: &str, topic: &str) -> NtfySubscription {
    NtfySubscription {
        base_url: base_url.to_string(),
        topic: topic.to_string(),
        display_name: Some(format!("Name of {}", topic)),
    }
}

#[test]
fn account_creates_what_is_missing_and_leaves_the_rest() {
    let (mut db, _) = one_subscription();
    db.toggle_subscription_mute("S").unwrap();
    let mut manager = ConnectionManager::new();
    let account = NtfyAccount {
        username: "u".to_string(),
        subscriptions: vec![
            listed("https://ntfy.sh/", "alerts"),
            listed("https://ntfy.sh", "news"),
            listed("https://elsewhere.example", "foreign"),
            listed("https://ntfy.sh", "news"),
            listed("https://ntfy.sh", "bad topic"),
        ],
    };
    let plans = SyncService::sync_subscriptions(&mut db, &mut manager, "https://ntfy.sh/", &account);
    assert_eq!(plans.len(), 1);
    assert_eq!(plans[0].ws_url, "wss://ntfy.sh/news/ws");
    assert_eq!(plans[0].connection_id, 1);
    assert_eq!(plans[0].superseded, None);
    let subs = db.get_all_subscriptions().unwrap();
    assert_eq!(subs.len(), 2);
    let old = subs.iter().find(|s| s.topic == "alerts").unwrap();
    assert!(old.muted);
    assert_eq!(old.display_name, None);
    let new = subs.iter().find(|s| s.topic == "news").unwrap();
    assert_eq!(new.display_name, Some("Name of news".to_string()));
    assert_eq!(new.server_url, "https://ntfy.sh");
    assert!(manager.is_current(&new.id, 1));
    // a second run changes nothing
    let plans = SyncService::sync_subscriptions(&mut db, &mut manager, "https://ntfy.sh", &account);
    assert!(plans.is_empty());
    assert_eq!(db.get_all_subscriptions().unwrap().len(), 2);
    let shown = SyncService::listed_subscriptions(&db, "https://ntfy.sh", &account);
    let topics: Vec<&str> = shown.iter().map(|s| s.topic.as_str()).collect();
    assert_eq!(topics, vec!["alerts", "news", "news"]);
}

fn server_with(url: &str, username: Option<&str>, password: Option<&str>) -> ServerConfig {
    ServerConfig {
        url: url.to_string(),
        username: username.map(|s| s.to_string()),
        password: password.map(|s| s.to_string()),
        is_default: false,
    }
}

#[test]
fn only_servers_with_credentials_are_synced() {
    let servers = vec![
        server_with("https://a", None, None),
        server_with("https://b", Some("u"), Some("p")),
        server_with("https://c", Some(""), Some("p")),
        server_with("https://d", Some("u"), None),
        server_with("https://e", Some("v"), Some("")),
    ];
    let got = SyncService::servers_to_sync(&servers);
    let urls: Vec<&str> = got.iter().map(|s| s.url.as_str()).collect();
    assert_eq!(urls, vec!["https://b", "https://e"]);
}

#[test]
fn credentials_on_demand_and_why_not() {
    let servers = vec![
        server_with("https://a", None, Some("p")),
        server_with("https://b", Some("u"), Some("p")),
        server_with("https://d", Some("u"), None),
    ];
    assert_eq!(
        SyncService::credentials_on_demand(&servers, "https://b").unwrap(),
        ("u".to_string(), "p".to_string())
    );
    match SyncService::credentials_on_demand(&servers, "https://a") {
        Err(AppError::Connection(d)) => assert_eq!(d, "Server has no username configured"),
        other => panic!("unexpected {:?}", other),
    }
    match SyncService::credentials_on_demand(&servers, "https://d") {
        Err(AppError::Connection(d)) => assert_eq!(d, "Server has no password configured"),
        other => panic!("unexpected {:?}", other),
    }
    // an address names a server with or without slashes at its end
    assert_eq!(
        SyncService::credentials_on_demand(&servers, "https://b/").unwrap(),
        SyncService::credentials_on_demand(&servers, "https://b").unwrap()
    );
    assert_eq!(
        SyncService::credentials_on_demand(&servers, "https://b//").unwrap(),
        ("u".to_string(), "p".to_string())
    );
    match SyncService::credentials_on_demand(&servers, "https://d/") {
        Err(AppError::Connection(d)) => assert_eq!(d, "Server has no password configured"),
        other => panic!("unexpected {:?}", other),
    }
    match SyncService::credentials_on_demand(&servers, "https://z/") {
        Err(AppError::NotFound(d)) => assert_eq!(d, "Server https://z/ not found"),
        other => panic!("unexpected {:?}", other),
    }
    let slashed = vec![server_with("https://x.com/", Some("u"), Some("p"))];
    assert!(SyncService::credentials_on_demand(&slashed, "https://x.com").is_ok());
}

#[test]
fn backlog_request_signs_in_with_the_server_credentials() {
    let (mut db, sub) = one_subscription();
    db.remove_server("https://ntfy.sh").unwrap();
    db.add_server(server_with("https://ntfy.sh/", Some("user"), Some("pass"))).unwrap();
    let sub = db
        .create_subscription_with_id(
            CreateSubscription {
                topic: sub.topic.clone(),
                server_url: "https://ntfy.sh".to_string(),
                display_name: None,
            },
            "S2".to_string(),
        )
        .unwrap();
    let client = NtfyClient::new().unwrap();
    let servers = db.get_servers_with_credentials().unwrap();
    let request = SyncService::backlog_request(&db, &client, &servers, &sub).unwrap();
    assert_eq!(request.authorization, Some("Basic dXNlcjpwYXNz".to_string()));
    let body = "{\"id\":\"m1\",\"time\":11,\"event\":\"message\",\"message\":\"x\"}\n{\"id\":\"o\",\"time\":12,\"event\":\"open\"}\n";
    let response = HttpResponse { success: true, status: "200 OK".to_string(), body: body.to_string() };
    let messages = client.get_messages(&response).unwrap();
    let added = SyncService::apply_backlog(&mut db, "S2", &messages, &pairs(messages.len(), "q"), 1);
    assert_eq!(added.len(), 1);
    assert_eq!(added[0].message, "x");
    assert_eq!(watermark(&db, "S2"), Some(12));
}
