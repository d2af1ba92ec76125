use ntfier::models::ServerUrl;

#[test]
fn test_normalizes_trailing_slash() {
    let url = ServerUrl::new("https://ntfy.sh/");
    assert_eq!(url.as_str(), "https://ntfy.sh");
}

#[test]
fn test_matches_with_trailing_slash() {
    let url = ServerUrl::new("https://ntfy.sh");
    assert!(url.matches("https://ntfy.sh/"));
    assert!(url.matches("https://ntfy.sh"));
}

#[test]
fn test_join_path() {
    let url = ServerUrl::new("https://ntfy.sh/");
    assert_eq!(url.join("v1/account"), "https://ntfy.sh/v1/account");
    assert_eq!(url.join("/v1/account"), "https://ntfy.sh/v1/account");
}
