use ntfier::error::AppError;
use ntfier::models::Priority;
use ntfier::services::{HttpResponse, NtfyClient};
use ntfier::text::{decimal_string, hex_string, trim};

fn answer(success: bool, status: &str, body: &str) -> HttpResponse {
    HttpResponse { success, status: status.to_string(), body: body.to_string() }
}

#[test]
fn basic_auth_header_is_base64_of_user_and_password() {
    assert_eq!(NtfyClient::create_auth_header("user", "pass"), "Basic dXNlcjpwYXNz");
    assert_eq!(NtfyClient::create_auth_header("a", ""), "Basic YTo=");
    assert_eq!(
        NtfyClient::create_auth_header("j\u{fc}rgen", "s3cr\u{e9}t"),
        "Basic asO8cmdlbjpzM2Nyw6l0"
    );
}

#[test]
fn no_auth_header_without_user_name_or_password() {
    assert_eq!(NtfyClient::optional_auth_header(None, Some("p")), None);
    assert_eq!(NtfyClient::optional_auth_header(Some("u"), None), None);
    assert_eq!(NtfyClient::optional_auth_header(Some(""), Some("p")), None);
    assert_eq!(
        NtfyClient::optional_auth_header(Some("user"), Some("pass")),
        Some("Basic dXNlcjpwYXNz".to_string())
    );
}

#[test]
fn account_request_goes_to_the_normalized_address() {
    let client = NtfyClient::new().unwrap();
    let r = client.account_request("https://ntfy.example.com/", "user", "pass");
    assert_eq!(r.url, "https://ntfy.example.com/v1/account");
    assert_eq!(r.authorization, Some("Basic dXNlcjpwYXNz".to_string()));
}

#[test]
fn messages_request_asks_since_the_watermark_or_for_all() {
    let client = NtfyClient::new().unwrap();
    let r = client.messages_request("https://x.com/", "alerts", Some(1700000000), None, None);
    assert_eq!(r.url, "https://x.com/alerts/json?poll=1&since=1700000000");
    assert_eq!(r.authorization, None);
    let r = client.messages_request("https://x.com", "alerts", None, Some("user"), Some("pass"));
    assert_eq!(r.url, "https://x.com/alerts/json?poll=1&since=all");
    assert_eq!(r.authorization, Some("Basic dXNlcjpwYXNz".to_string()));
    let r = client.messages_request("https://x.com", "a", Some(-5), Some(""), Some("pass"));
    assert_eq!(r.url, "https://x.com/a/json?poll=1&since=-5");
    assert_eq!(r.authorization, None);
}

#[test]
fn delete_request_names_the_message() {
    let client = NtfyClient::new().unwrap();
    let r = client.delete_request("https://x.com/", "alerts", "m1", Some("user"), Some("pass"));
    assert_eq!(r.url, "https://x.com/alerts/m1");
    assert_eq!(r.authorization, Some("Basic dXNlcjpwYXNz".to_string()));
    let r = client.delete_request("https://x.com", "alerts", "m1", None, None);
    assert_eq!(r.authorization, None);
}

#[test]
fn numbers_in_decimal_and_hex() {
    assert_eq!(decimal_string(0), "0");
    assert_eq!(decimal_string(7), "7");
    assert_eq!(decimal_string(10), "10");
    assert_eq!(decimal_string(-1), "-1");
    assert_eq!(decimal_string(i64::MAX), "9223372036854775807");
    assert_eq!(decimal_string(i64::MIN), "-9223372036854775808");
    assert_eq!(hex_string(0), "0");
    assert_eq!(hex_string(16), "10");
    assert_eq!(hex_string(0xdeadbeef), "deadbeef");
}

#[test]
fn white_space_is_trimmed_at_both_ends() {
    assert_eq!(trim("  a b \t\n"), "a b");
    assert_eq!(trim("\u{a0}\u{3000}x\u{2003}"), "x");
    assert_eq!(trim(" \r\n "), "");
    assert_eq!(trim(""), "");
    assert_eq!(trim("\u{200b}x"), "\u{200b}x");
}

#[test]
fn messages_are_read_line_by_line() {
    let body = concat_lines(&[
        r#"{"id":"o1","time":1000,"event":"open","topic":"t"}"#,
        r#"{"id":"m1","time":1001,"event":"message","topic":"t","message":"hello","title":"T","priority":5,"tags":["a","b"]}"#,
        "",
        "   ",
        "this is not json",
        r#"{"id":"k1","time":1002,"event":"keepalive","topic":"t"}"#,
        r#"{"id":"m2","time":1003,"event":"message","topic":"t"}"#,
    ]);
    let got = NtfyClient::parse_messages(&body);
    assert_eq!(got.len(), 2);
    assert_eq!(got[0].id, "m1");
    assert_eq!(got[0].time, 1001);
    assert_eq!(got[0].message, Some("hello".to_string()));
    assert_eq!(got[0].title, Some("T".to_string()));
    assert_eq!(got[0].priority, Some(5));
    assert_eq!(got[0].tags, Some(vec!["a".to_string(), "b".to_string()]));
    assert_eq!(got[1].id, "m2");
    assert_eq!(got[1].message, None);
    assert_eq!(Priority::from(got[0].priority.unwrap()), Priority::Max);
}

fn concat_lines(lines: &[&str]) -> String {
    let mut out = String::new();
    for l in lines {
        out.push_str(l);
        out.push('\n');
    }
    out
}

#[test]
fn messages_of_an_empty_or_unterminated_body() {
    assert!(NtfyClient::parse_messages("").is_empty());
    assert!(NtfyClient::parse_messages("\n\n").is_empty());
    let got = NtfyClient::parse_messages(r#"{"id":"m1","time":7,"event":"message"}"#);
    assert_eq!(got.len(), 1);
    assert_eq!(got[0].topic, "");
    let got = NtfyClient::parse_messages("{\"id\":\"m1\",\"time\":7,\"event\":\"message\"}\r\n{\"id\":\"m2\",\"time\":8,\"event\":\"message\"}\r\n");
    assert_eq!(got.len(), 2);
    assert_eq!(got[1].id, "m2");
}

#[test]
fn malformed_records_are_passed_over() {
    // no id
    assert!(NtfyClient::parse_line(r#"{"time":7,"event":"message"}"#).is_none());
    // time is no integer
    assert!(NtfyClient::parse_line(r#"{"id":"a","time":"7","event":"message"}"#).is_none());
    assert!(NtfyClient::parse_line(r#"{"id":"a","time":7.5,"event":"message"}"#).is_none());
    // a title that is no string
    assert!(NtfyClient::parse_line(r#"{"id":"a","time":7,"event":"message","title":3}"#).is_none());
    // a priority that does not fit
    assert!(
        NtfyClient::parse_line(r#"{"id":"a","time":7,"event":"message","priority":300}"#).is_none()
    );
    // tags that are no strings
    assert!(
        NtfyClient::parse_line(r#"{"id":"a","time":7,"event":"message","tags":[1]}"#).is_none()
    );
    // no object at all
    assert!(NtfyClient::parse_line(r#"["id","a"]"#).is_none());
    assert!(NtfyClient::parse_line(r#"{"id":"a","time":7,"event":"message"} x"#).is_none());
    // null counts as left out
    assert!(
        NtfyClient::parse_line(r#"{"id":"a","time":7,"event":"message","topic":null}"#).is_none()
    );
    let m = NtfyClient::parse_line(
        r#"{"id":"a","time":7,"event":"message","title":null,"tags":null,"attachment":null}"#,
    )
    .unwrap();
    assert_eq!(m.title, None);
    assert_eq!(m.tags, None);
    assert!(m.attachment.is_none());
}

#[test]
fn actions_and_attachment_of_a_record() {
    let m = NtfyClient::parse_line(
        r#"{"id":"a","time":7,"event":"message","click":"https://c","actions":[{"id":"1","action":"view","label":"Open","url":"https://e","clear":true},{"id":"2","action":"http","label":"Post","method":"POST"}],"attachment":{"name":"p.png","type":"image/png","url":"https://e/p.png","size":42}}"#,
    )
    .unwrap();
    assert_eq!(m.click, Some("https://c".to_string()));
    let actions = m.actions.unwrap();
    assert_eq!(actions.len(), 2);
    assert_eq!(actions[0].url, Some("https://e".to_string()));
    assert_eq!(actions[0].clear, Some(true));
    assert_eq!(actions[1].method, Some("POST".to_string()));
    assert_eq!(actions[1].clear, None);
    let a = m.attachment.unwrap();
    assert_eq!(a.name, "p.png");
    assert_eq!(a.mime_type, Some("image/png".to_string()));
    assert_eq!(a.size, Some(42));
    // an action without a label spoils the record
    assert!(NtfyClient::parse_line(
        r#"{"id":"a","time":7,"event":"message","actions":[{"id":"1","action":"view"}]}"#
    )
    .is_none());
    // an action need not say of what kind it is
    let m = NtfyClient::parse_line(
        r#"{"id":"a","time":7,"event":"message","actions":[{"id":"1","label":"Open","url":"https://e"}]}"#,
    )
    .unwrap();
    assert_eq!(m.actions.unwrap()[0].action, "");
}

#[test]
fn account_is_read_from_the_answer() {
    let client = NtfyClient::new().unwrap();
    let ok = answer(
        true,
        "200 OK",
        r#"{"username":"phil","subscriptions":[{"base_url":"https://ntfy.sh","topic":"a","display_name":"A"},{"base_url":"https://other","topic":"b"}]}"#,
    );
    let account = client.get_account(&ok).unwrap();
    assert_eq!(account.username, "phil");
    assert_eq!(account.subscriptions.len(), 2);
    assert_eq!(account.subscriptions[0].display_name, Some("A".to_string()));
    assert_eq!(account.subscriptions[1].base_url, "https://other");
    assert_eq!(account.subscriptions[1].display_name, None);
    let bare = client.get_account(&answer(true, "200 OK", r#"{"username":"phil"}"#)).unwrap();
    assert!(bare.subscriptions.is_empty());
}

#[test]
fn account_failures() {
    let client = NtfyClient::new().unwrap();
    match client.get_account(&answer(false, "401 Unauthorized", "denied")) {
        Err(AppError::Connection(d)) => assert_eq!(d, "Server returned 401 Unauthorized: denied"),
        other => panic!("unexpected {:?}", other),
    }
    match client.get_account(&answer(true, "200 OK", "<html>")) {
        Err(AppError::Connection(d)) => {
            assert_eq!(d, "Failed to parse response: invalid account data - body: <html>")
        }
        other => panic!("unexpected {:?}", other),
    }
    assert!(client
        .get_account(&answer(true, "200 OK", r#"{"username":"p","subscriptions":[{"topic":"a"}]}"#))
        .is_err());
    // a member of another kind, and a body that is no object
    assert!(client.get_account(&answer(true, "200 OK", r#"{"username":7}"#)).is_err());
    assert!(client.get_account(&answer(true, "200 OK", r#"{"subscriptions":{}}"#)).is_err());
    assert!(client.get_account(&answer(true, "200 OK", "[]")).is_err());
    assert!(client.get_account(&answer(true, "200 OK", "42")).is_err());
}

#[test]
fn account_needs_no_user_name() {
    let client = NtfyClient::new().unwrap();
    let body = r#"{"subscriptions":[{"base_url":"https://ntfy.sh","topic":"a"},{"base_url":"https://ntfy.sh","topic":"b","display_name":"B"}]}"#;
    let account = client.get_account(&answer(true, "200 OK", body)).unwrap();
    assert_eq!(account.username, "");
    assert_eq!(account.subscriptions.len(), 2);
    assert_eq!(account.subscriptions[0].topic, "a");
    assert_eq!(account.subscriptions[1].display_name, Some("B".to_string()));
    let empty = client.get_account(&answer(true, "200 OK", "{}")).unwrap();
    assert_eq!(empty.username, "");
    assert!(empty.subscriptions.is_empty());
    // null is neither a user name nor a list
    assert!(client.get_account(&answer(true, "200 OK", r#"{"username":null}"#)).is_err());
    assert!(client.get_account(&answer(true, "200 OK", r#"{"subscriptions":null}"#)).is_err());
}

#[test]
fn messages_failure_names_the_status() {
    let client = NtfyClient::new().unwrap();
    match client.get_messages(&answer(false, "403 Forbidden", "no")) {
        Err(AppError::Connection(d)) => assert_eq!(d, "Failed to fetch messages: 403 Forbidden - no"),
        other => panic!("unexpected {:?}", other),
    }
    let got = client
        .get_messages(&answer(true, "200 OK", "{\"id\":\"m\",\"time\":1,\"event\":\"message\"}\n"))
        .unwrap();
    assert_eq!(got.len(), 1);
}
