//! Subscriptions to topics.

use crate::error::{AppError, AppErrorView};
use crate::models::address::{address_verdict, check_address, parse_url, url_parse, verdict_view};
use crate::models::server_url::{normalize_url, normalized, same_url, urls_match};
use crate::text::{clone_opt, opt_view, owned, trim, trim_whitespace};
use vstd::prelude::*;
use vstd::string::*;
use vstd::utf8::encode_utf8;

verus! {

/// A subscription to a topic on a server, with what the client shows of it.
#[derive(Debug)]
pub struct Subscription {
    pub id: String,
    pub topic: String,
    pub server_url: String,
    pub display_name: Option<String>,
    /// How many of its notifications are unread.
    pub unread_count: i32,
    /// The time of its latest notification, in milliseconds.
    pub last_notification: Option<i64>,
    pub muted: bool,
}

/// A subscription, as plain values.
pub struct SubscriptionView {
    pub id: Seq<char>,
    pub topic: Seq<char>,
    pub server_url: Seq<char>,
    pub display_name: Option<Seq<char>>,
    pub unread_count: int,
    pub last_notification: Option<i64>,
    pub muted: bool,
}

impl View for Subscription {
    type V = SubscriptionView;

    open spec fn view(&self) -> SubscriptionView {
        SubscriptionView {
            id: self.id@,
            topic: self.topic@,
            server_url: self.server_url@,
            display_name: opt_view(self.display_name),
            unread_count: self.unread_count as int,
            last_notification: self.last_notification,
            muted: self.muted,
        }
    }
}

impl Clone for Subscription {
    fn clone(&self) -> (r: Subscription)
        ensures
            r@ == self@,
    {
        Subscription {
            id: self.id.clone(),
            topic: self.topic.clone(),
            server_url: self.server_url.clone(),
            display_name: clone_opt(&self.display_name),
            unread_count: self.unread_count,
            last_notification: self.last_notification,
            muted: self.muted,
        }
    }
}

impl Subscription {
    /// The server's address in the form that identifies the server.
    pub fn normalized_server_url(&self) -> (r: &str)
        ensures
            r@ == normalized(self@.server_url),
    {
        normalize_url(self.server_url.as_str())
    }

    /// Whether `other` names the server of this subscription.
    pub fn server_url_matches(&self, other: &str) -> (r: bool)
        ensures
            r == same_url(self@.server_url, other@),
    {
        urls_match(self.server_url.as_str(), other)
    }
}

/// What it takes to create a subscription.
#[derive(Debug)]
pub struct CreateSubscription {
    pub topic: String,
    pub server_url: String,
    pub display_name: Option<String>,
}

/// A request for a subscription, as plain values.
pub struct CreateSubscriptionView {
    pub topic: Seq<char>,
    pub server_url: Seq<char>,
    pub display_name: Option<Seq<char>>,
}

impl View for CreateSubscription {
    type V = CreateSubscriptionView;

    open spec fn view(&self) -> CreateSubscriptionView {
        CreateSubscriptionView {
            topic: self.topic@,
            server_url: self.server_url@,
            display_name: opt_view(self.display_name),
        }
    }
}

impl Clone for CreateSubscription {
    fn clone(&self) -> (r: CreateSubscription)
        ensures
            r@ == self@,
    {
        CreateSubscription {
            topic: self.topic.clone(),
            server_url: self.server_url.clone(),
            display_name: clone_opt(&self.display_name),
        }
    }
}

/// Whether a topic may hold `c`: a letter or digit of ASCII, a hyphen or an
/// underscore.
pub open spec fn is_topic_char(c: char) -> bool {
    ('a' <= c <= 'z') || ('A' <= c <= 'Z') || ('0' <= c <= '9') || c == '-' || c == '_'
}

/// The longest topic, in bytes.
pub const MAX_TOPIC_LEN: usize = 64;

/// The verdict on a topic: between the white space at its ends it must not
/// be empty, must take at most 64 bytes, and must hold topic characters
/// only; the first of these that fails is reported.
pub open spec fn topic_verdict(topic: Seq<char>) -> Result<(), AppErrorView> {
    let t = trim_whitespace(topic);
    if t.len() == 0 {
        Err(AppErrorView::InvalidUrl("Topic cannot be empty"@))
    } else if encode_utf8(t).len() > MAX_TOPIC_LEN {
        Err(AppErrorView::InvalidUrl("Topic must be 64 characters or less"@))
    } else if !(forall|i: int| 0 <= i < t.len() ==> is_topic_char(#[trigger] t[i])) {
        Err(
            AppErrorView::InvalidUrl(
                "Topic can only contain letters, numbers, hyphens, and underscores"@,
            ),
        )
    } else {
        Ok(())
    }
}

/// Whether a topic may hold `c`.
pub fn char_is_topic_char(c: char) -> (r: bool)
    ensures
        r == is_topic_char(c),
{
    ('a' <= c && c <= 'z') || ('A' <= c && c <= 'Z') || ('0' <= c && c <= '9') || c == '-' || c
        == '_'
}

/// The verdict on a topic.
#[verifier::loop_isolation(false)]
pub fn check_topic(topic: &str) -> (r: Result<(), AppError>)
    ensures
        verdict_view(r) == topic_verdict(topic@),
{
    let t = trim(topic);
    let n: usize = t.unicode_len();
    if n == 0 {
        return Err(AppError::InvalidUrl(owned("Topic cannot be empty")));
    }
    if t.as_bytes().len() > MAX_TOPIC_LEN {
        return Err(AppError::InvalidUrl(owned("Topic must be 64 characters or less")));
    }
    let mut i: usize = 0;
    while i < n
        invariant
            i <= n,
            n == t@.len(),
            forall|j: int| 0 <= j < i ==> is_topic_char(#[trigger] t@[j]),
        decreases n - i,
    {
        if !char_is_topic_char(t.get_char(i)) {
            assert(!is_topic_char(t@[i as int]));
            return Err(
                AppError::InvalidUrl(
                    owned("Topic can only contain letters, numbers, hyphens, and underscores"),
                ),
            );
        }
        i = i + 1;
    }
    Ok(())
}

impl CreateSubscriptionView {
    /// The verdict on a request whose server address parsed as `parsed`:
    /// that on its topic and, where the topic passes, that on its address.
    pub open spec fn verdict(self, parsed: Result<(Seq<char>, bool), Seq<char>>) -> Result<
        (),
        AppErrorView,
    > {
        match topic_verdict(self.topic) {
            Err(e) => Err(e),
            Ok(()) => address_verdict(
                self.server_url,
                parsed,
                "Invalid server URL: "@,
                "Server URL"@,
            ),
        }
    }
}

impl CreateSubscription {
    /// Checks the topic and the server's address.
    pub fn validate(&self) -> (r: Result<(), AppError>)
        ensures
            verdict_view(r) == self@.verdict(url_parse(self@.server_url)),
    {
        match check_topic(self.topic.as_str()) {
            Err(e) => Err(e),
            Ok(()) => {
                let parsed = parse_url(self.server_url.as_str());
                check_address(
                    self.server_url.as_str(),
                    &parsed,
                    "Invalid server URL: ",
                    "Server URL",
                )
            },
        }
    }
}

} // verus!
