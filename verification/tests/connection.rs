use ntfier::config::connection::{
    base_delay_secs, delay_with_jitter, next_attempt_after, next_delay, JITTER_MAX_SECS,
    RETRY_BACKOFF_SECS,
};
use ntfier::db::Database;
use ntfier::models::{CreateSubscription, ServerConfig, Subscription};
use ntfier::services::{
    ConnectionAction, ConnectionEvent, ConnectionManager, ConnectionState, ConnectionTask,
};

fn subscription(id: &str, server_url: &str, topic: &str) -> Subscription {
    Subscription {
        id: id.to_string(),
        topic: topic.to_string(),
        server_url: server_url.to_string(),
        display_name: None,
        unread_count: 0,
        last_notification: None,
        muted: false,
    }
}

fn configured(url: &str, username: Option<&str>, password: Option<&str>) -> ServerConfig {
    ServerConfig {
        url: url.to_string(),
        username: username.map(|s| s.to_string()),
        password: password.map(|s| s.to_string()),
        is_default: false,
    }
}

#[test]
fn stream_address_is_derived_from_server_and_topic() {
    let url = |s: &str, t: &str| ConnectionManager::build_ws_url(&subscription("x", s, t)).unwrap();
    assert_eq!(url("https://ntfy.sh", "alerts"), "wss://ntfy.sh/alerts/ws");
    assert_eq!(url("http://localhost:8080", "t"), "ws://localhost:8080/t/ws");
    assert_eq!(url("ntfy.example.org", "t"), "wss://ntfy.example.org/t/ws");
    assert_eq!(url("https://h/base", "t"), "wss://h/base/t/ws");
    assert_eq!(url("https://", "t"), "wss:///t/ws");
    assert_eq!(url("https://ntfy.sh/", "alerts"), "wss://ntfy.sh/alerts/ws");
    assert_eq!(url("http://localhost:8080//", "t"), "ws://localhost:8080/t/ws");
    assert_eq!(url("ntfy.example.org/", "t"), "wss://ntfy.example.org/t/ws");
    assert_eq!(url("http", "t"), "wss://http/t/ws");
}

#[test]
fn auth_header_of_the_first_matching_server() {
    let servers = vec![
        configured("https://a.example", None, None),
        configured("https://b.example/", Some("user"), Some("pass")),
        configured("https://b.example", Some("other"), Some("x")),
        configured("https://c.example", Some(""), Some("x")),
        configured("https://d.example", Some("user"), None),
    ];
    assert_eq!(
        ConnectionManager::get_auth_header(&servers, "https://b.example"),
        Some("Basic dXNlcjpwYXNz".to_string())
    );
    assert_eq!(ConnectionManager::get_auth_header(&servers, "https://a.example/"), None);
    assert_eq!(ConnectionManager::get_auth_header(&servers, "https://c.example"), None);
    assert_eq!(ConnectionManager::get_auth_header(&servers, "https://d.example"), None);
    assert_eq!(ConnectionManager::get_auth_header(&servers, "https://z.example"), None);
}

#[test]
fn second_connect_supersedes_the_first() {
    let mut manager = ConnectionManager::new();
    let sub = subscription("S", "https://ntfy.sh", "t");
    let servers = Vec::new();
    let first = manager.connect(&sub, &servers).unwrap();
    let second = manager.connect(&sub, &servers).unwrap();
    assert_eq!(first.connection_id, 1);
    assert_eq!(first.superseded, None);
    assert_eq!(second.connection_id, 2);
    assert_eq!(second.superseded, Some(1));
    assert!(first.connection_id < second.connection_id);
    assert!(!manager.is_current("S", first.connection_id));
    assert!(manager.is_current("S", second.connection_id));

    // the stale task ends at its start, the current one connects
    let mut stale = ConnectionTask::new("S".to_string(), first.connection_id);
    let mut current = ConnectionTask::new("S".to_string(), second.connection_id);
    assert!(matches!(stale.step(&manager, ConnectionEvent::Started), ConnectionAction::Exit));
    assert_eq!(stale.state, ConnectionState::Stopped);
    assert!(matches!(current.step(&manager, ConnectionEvent::Started), ConnectionAction::Connect));
    assert_eq!(current.state, ConnectionState::Connecting);
    assert!(matches!(current.step(&manager, ConnectionEvent::Connected), ConnectionAction::Receive));
    assert_eq!(current.state, ConnectionState::Streaming);
    // once stopped, nothing brings the stale task back
    assert!(matches!(stale.step(&manager, ConnectionEvent::Connected), ConnectionAction::Exit));
    assert!(matches!(stale.step(&manager, ConnectionEvent::DelayElapsed), ConnectionAction::Exit));
    assert_eq!(stale.state, ConnectionState::Stopped);
}

#[test]
fn task_that_waits_while_it_is_superseded_never_reconnects() {
    let mut manager = ConnectionManager::new();
    let sub = subscription("S", "https://ntfy.sh", "t");
    let servers = Vec::new();
    let first = manager.connect(&sub, &servers).unwrap();
    let mut task = ConnectionTask::new("S".to_string(), first.connection_id);
    task.step(&manager, ConnectionEvent::Started);
    task.step(&manager, ConnectionEvent::ConnectFailed);
    assert_eq!(task.state, ConnectionState::Backoff);
    manager.connect(&sub, &servers).unwrap();
    assert!(matches!(task.step(&manager, ConnectionEvent::DelayElapsed), ConnectionAction::Exit));
    assert_eq!(task.state, ConnectionState::Stopped);
}

#[test]
fn disconnect_is_idempotent_and_per_subscription() {
    let mut manager = ConnectionManager::new();
    let servers = Vec::new();
    let a = manager.connect(&subscription("A", "https://x", "t"), &servers).unwrap();
    let b = manager.connect(&subscription("B", "https://x", "u"), &servers).unwrap();
    assert_eq!(manager.disconnect("A"), Some(a.connection_id));
    assert_eq!(manager.disconnect("A"), None);
    assert_eq!(manager.current_connection("A"), None);
    assert!(manager.is_current("B", b.connection_id));
    let mut task = ConnectionTask::new("A".to_string(), a.connection_id);
    assert!(matches!(task.step(&manager, ConnectionEvent::Started), ConnectionAction::Exit));
    // a later connection never gets an identifier that was given out
    let again = manager.connect(&subscription("A", "https://x", "t"), &servers).unwrap();
    assert_eq!(again.connection_id, 3);
    assert_eq!(again.superseded, None);
}

#[test]
fn disconnecting_a_server_takes_its_subscriptions_only() {
    let mut db = Database::new();
    let mut manager = ConnectionManager::new();
    let mut kept = Vec::new();
    for (id, server, topic) in [
        ("A", "https://x.com", "t"),
        ("B", "https://y.com", "t"),
        ("C", "https://x.com/", "u"),
        ("D", "https://x.com", "never-connected"),
    ] {
        let sub = db
            .create_subscription_with_id(
                CreateSubscription {
                    topic: topic.to_string(),
                    server_url: server.to_string(),
                    display_name: None,
                },
                id.to_string(),
            )
            .unwrap();
        kept.push(sub);
    }
    let servers = Vec::new();
    let plans = manager.connect_all(&kept[..3].to_vec(), &servers);
    assert_eq!(plans.len(), 3);
    assert_eq!(plans[2].connection_id, 3);
    // a subscription that the records do not hold stays connected
    manager.connect(&subscription("E", "https://x.com", "elsewhere"), &servers).unwrap();
    let stopped = manager.disconnect_server(&db, "https://x.com/");
    assert_eq!(stopped, vec![1, 3]);
    assert_eq!(manager.current_connection("A"), None);
    assert_eq!(manager.current_connection("C"), None);
    assert_eq!(manager.current_connection("D"), None);
    assert_eq!(manager.current_connection("B"), Some(2));
    assert_eq!(manager.current_connection("E"), Some(4));
    assert!(manager.disconnect_server(&db, "https://x.com").is_empty());
}

#[test]
fn backoff_grows_to_a_ceiling() {
    let last = RETRY_BACKOFF_SECS.len() - 1;
    let mut previous = 0;
    for attempt in 0..10 {
        let base = base_delay_secs(attempt);
        assert!(base >= previous);
        assert!(base <= RETRY_BACKOFF_SECS[last]);
        assert_eq!(base, RETRY_BACKOFF_SECS[attempt.min(last)]);
        previous = base;
        for random in [0u64, 1, 2, 3, 4, 1000, u64::MAX] {
            let d = delay_with_jitter(attempt, random);
            assert_eq!(d, base + random % JITTER_MAX_SECS);
            assert!(d < RETRY_BACKOFF_SECS[last] + JITTER_MAX_SECS);
        }
        let drawn = next_delay(attempt);
        assert!(drawn >= base && drawn < base + JITTER_MAX_SECS);
    }
    // below the ceiling a later failure never waits less, whatever the random parts
    for attempt in 0..last {
        assert!(delay_with_jitter(attempt, 2) <= delay_with_jitter(attempt + 1, 0));
    }
    assert_eq!(next_attempt_after(0), 1);
    assert_eq!(next_attempt_after(2), 3);
    assert_eq!(next_attempt_after(3), 3);
    assert_eq!(next_attempt_after(usize::MAX), 3);
}

#[test]
fn reconnect_after_hostile_close() {
    let mut manager = ConnectionManager::new();
    let sub = subscription("S", "https://ntfy.sh", "t");
    let plan = manager.connect(&sub, &Vec::new()).unwrap();
    let mut task = ConnectionTask::new("S".to_string(), plan.connection_id);
    task.step(&manager, ConnectionEvent::Started);
    // three failures in a row take the count of failures up
    let mut waits = Vec::new();
    for _ in 0..3 {
        match task.step(&manager, ConnectionEvent::ConnectFailed) {
            ConnectionAction::Sleep(s) => waits.push(s),
            other => panic!("unexpected {:?}", other),
        }
        assert!(matches!(task.step(&manager, ConnectionEvent::DelayElapsed), ConnectionAction::Connect));
    }
    assert!(waits[0] >= 5 && waits[0] < 8);
    assert!(waits[1] >= 10 && waits[1] < 13);
    assert!(waits[2] >= 20 && waits[2] < 23);
    assert_eq!(task.reconnect_attempt, 3);
    // a handshake sets the count back
    task.step(&manager, ConnectionEvent::Connected);
    assert_eq!(task.state, ConnectionState::Streaming);
    assert_eq!(task.reconnect_attempt, 0);
    // the server closes: a new attempt follows within the first step and the jitter
    match task.step(&manager, ConnectionEvent::StreamClosed) {
        ConnectionAction::Sleep(s) => {
            assert!(s >= RETRY_BACKOFF_SECS[0]);
            assert!(s < RETRY_BACKOFF_SECS[0] + JITTER_MAX_SECS);
        }
        other => panic!("unexpected {:?}", other),
    }
    assert_eq!(task.state, ConnectionState::Backoff);
    assert!(matches!(task.step(&manager, ConnectionEvent::DelayElapsed), ConnectionAction::Connect));
    assert_eq!(task.state, ConnectionState::Connecting);
    task.step(&manager, ConnectionEvent::Connected);
    assert_eq!(task.reconnect_attempt, 0);
    match task.step_with(ConnectionEvent::StreamFailed, true, 7) {
        ConnectionAction::Sleep(s) => assert_eq!(s, 5 + 7 % 3),
        other => panic!("unexpected {:?}", other),
    }
}

#[test]
fn frames_are_delivered_or_passed_over() {
    let mut task = ConnectionTask::new("S".to_string(), 1);
    task.step_with(ConnectionEvent::Started, true, 0);
    task.step_with(ConnectionEvent::Connected, true, 0);
    let frame = |t: &str| ConnectionEvent::Frame(t.to_string());
    match task.step_with(frame(r#"{"id":"m1","time":5,"event":"message","message":"x"}"#), true, 0) {
        ConnectionAction::Deliver(m) => {
            assert_eq!(m.id, "m1");
            assert_eq!(m.message, Some("x".to_string()));
        }
        other => panic!("unexpected {:?}", other),
    }
    assert!(matches!(
        task.step_with(frame(r#"{"id":"k","time":5,"event":"keepalive"}"#), true, 0),
        ConnectionAction::Receive
    ));
    assert!(matches!(task.step_with(frame("garbage"), true, 0), ConnectionAction::Receive));
    assert_eq!(task.state, ConnectionState::Streaming);
    assert!(matches!(
        task.step_with(ConnectionEvent::ShutdownRequested, true, 0),
        ConnectionAction::Exit
    ));
    assert_eq!(task.state, ConnectionState::Stopped);
}

#[test]
fn superseded_task_delivers_nothing_more() {
    let mut task = ConnectionTask::new("S".to_string(), 1);
    task.step_with(ConnectionEvent::Started, true, 0);
    task.step_with(ConnectionEvent::Connected, true, 0);
    let frame = ConnectionEvent::Frame(r#"{"id":"m1","time":5,"event":"message"}"#.to_string());
    assert!(matches!(task.step_with(frame, false, 0), ConnectionAction::Exit));
    assert_eq!(task.state, ConnectionState::Stopped);
}

#[test]
fn an_event_out_of_place_ends_the_task() {
    let mut task = ConnectionTask::new("S".to_string(), 1);
    assert!(matches!(task.step_with(ConnectionEvent::Connected, true, 0), ConnectionAction::Exit));
    assert_eq!(task.state, ConnectionState::Stopped);
    let mut task = ConnectionTask::new("S".to_string(), 1);
    task.step_with(ConnectionEvent::Started, true, 0);
    assert!(matches!(task.step_with(ConnectionEvent::DelayElapsed, true, 0), ConnectionAction::Exit));
}
