//! The protocol client: what is asked of a server, and what its answers
//! hold.

use crate::error::{AppError, AppErrorView};
use crate::json::{
    is_object, items_of, json_document, json_is_object, json_items, json_member, member,
    parse_document,
};
use crate::models::notification::{NtfyMessage, NtfyMessageView};
use crate::models::server_url::{normalize_url, normalized};
use crate::services::wire::{
    defaulted_text, message_of_json, opt_message, optional_text, read_defaulted_text, read_message,
    read_optional_text, read_required_text, required_text,
};
use crate::text::{
    char_is_whitespace, chars_of, clone_opt, concat2, concat3, decimal, decimal_string, is_blank,
    is_whitespace, opt_view,
};
use serde_json::Value;
use vstd::prelude::*;
use vstd::string::*;
use vstd::utf8::encode_utf8;

verus! {

/// The standard Base64 encoding, with padding, of some bytes.
pub uninterp spec fn base64_standard(bytes: Seq<u8>) -> Seq<char>;

/// Encodes bytes with `base64::engine::general_purpose::STANDARD` and its
/// `encode`: the standard alphabet, with padding. The result is a function
/// of the bytes alone.
#[verifier::external_body]
pub(crate) fn base64_encode(bytes: &[u8]) -> (r: String)
    ensures
        r@ == base64_standard(bytes@),
{
    base64::Engine::encode(&base64::engine::general_purpose::STANDARD, bytes)
}

/// The value of the `Authorization` header that signs in with a user name
/// and a password: the word `Basic` and the Base64 encoding of the two,
/// with a colon between them.
pub open spec fn basic_auth(username: Seq<char>, password: Seq<char>) -> Seq<char> {
    "Basic "@ + base64_standard(encode_utf8(username + ":"@ + password))
}

/// The header that goes with a user name and a password that may both be
/// missing: none unless both are there and the user name is not empty.
pub open spec fn optional_auth(username: Option<Seq<char>>, password: Option<Seq<char>>) -> Option<
    Seq<char>,
> {
    match (username, password) {
        (Some(u), Some(p)) => if u.len() > 0 {
            Some(basic_auth(u, p))
        } else {
            None
        },
        _ => None,
    }
}

/// The address from which a server hands out an account.
pub open spec fn account_url(server_url: Seq<char>) -> Seq<char> {
    normalized(server_url) + "/v1/account"@
}

/// The address from which a server hands out the messages of a topic
/// since a time in seconds, without waiting for new ones; without a time,
/// all that it has kept.
pub open spec fn messages_url(server_url: Seq<char>, topic: Seq<char>, since: Option<i64>) -> Seq<
    char,
> {
    normalized(server_url) + "/"@ + topic + "/json?poll=1&since="@ + match since {
        Some(t) => decimal(t as int),
        None => "all"@,
    }
}

/// The address under which a server keeps one message of a topic.
pub open spec fn message_url(server_url: Seq<char>, topic: Seq<char>, ntfy_id: Seq<char>) -> Seq<
    char,
> {
    normalized(server_url) + "/"@ + topic + "/"@ + ntfy_id
}

/// A request to a server.
#[derive(Debug)]
pub struct HttpRequest {
    pub url: String,
    /// The value of the `Authorization` header, where one is sent.
    pub authorization: Option<String>,
}

/// A request, as plain values.
pub struct HttpRequestView {
    pub url: Seq<char>,
    pub authorization: Option<Seq<char>>,
}

impl View for HttpRequest {
    type V = HttpRequestView;

    open spec fn view(&self) -> HttpRequestView {
        HttpRequestView { url: self.url@, authorization: opt_view(self.authorization) }
    }
}

/// A server's answer.
#[derive(Debug)]
pub struct HttpResponse {
    /// Whether the status is one of success.
    pub success: bool,
    /// The status as it is shown, such as `404 Not Found`.
    pub status: String,
    pub body: String,
}

/// A subscription as a server lists it in an account.
#[derive(Debug)]
pub struct NtfySubscription {
    pub base_url: String,
    pub topic: String,
    pub display_name: Option<String>,
}

/// A listed subscription, as plain values.
pub struct NtfySubscriptionView {
    pub base_url: Seq<char>,
    pub topic: Seq<char>,
    pub display_name: Option<Seq<char>>,
}

impl View for NtfySubscription {
    type V = NtfySubscriptionView;

    open spec fn view(&self) -> NtfySubscriptionView {
        NtfySubscriptionView {
            base_url: self.base_url@,
            topic: self.topic@,
            display_name: opt_view(self.display_name),
        }
    }
}

impl Clone for NtfySubscription {
    fn clone(&self) -> (r: NtfySubscription)
        ensures
            r@ == self@,
    {
        NtfySubscription {
            base_url: self.base_url.clone(),
            topic: self.topic.clone(),
            display_name: clone_opt(&self.display_name),
        }
    }
}

/// The views of a list of listed subscriptions.
pub open spec fn listed_views(s: Seq<NtfySubscription>) -> Seq<NtfySubscriptionView> {
    Seq::new(s.len(), |i: int| s[i]@)
}

/// An account on a server.
#[derive(Debug)]
pub struct NtfyAccount {
    pub username: String,
    pub subscriptions: Vec<NtfySubscription>,
}

/// An account, as plain values.
pub struct NtfyAccountView {
    pub username: Seq<char>,
    pub subscriptions: Seq<NtfySubscriptionView>,
}

impl View for NtfyAccount {
    type V = NtfyAccountView;

    open spec fn view(&self) -> NtfyAccountView {
        NtfyAccountView {
            username: self.username@,
            subscriptions: listed_views(self.subscriptions@),
        }
    }
}

/// The listed subscription that a JSON value denotes: an object with the
/// strings `base_url` and `topic` and, where it is there, the string
/// `display_name`.
pub open spec fn subscription_of_json(value: Value) -> Option<NtfySubscriptionView> {
    match (
        required_text(value, "base_url"@),
        required_text(value, "topic"@),
        optional_text(value, "display_name"@),
    ) {
        (Some(base_url), Some(topic), Some(display_name)) => Some(
            NtfySubscriptionView { base_url, topic, display_name },
        ),
        _ => None,
    }
}

/// The listed subscriptions of a list of values that all denote one.
pub open spec fn subscriptions_of(items: Seq<Value>) -> Option<Seq<NtfySubscriptionView>> {
    if forall|i: int| 0 <= i < items.len() ==> subscription_of_json(#[trigger] items[i]) is Some {
        Some(Seq::new(items.len(), |i: int| subscription_of_json(items[i])->0))
    } else {
        None
    }
}

/// The account that a JSON value denotes: an object that may have the
/// string `username` and the array `subscriptions` of listed
/// subscriptions. Without the one the user name is empty, without the
/// other the account has no subscriptions; a member that is there and of
/// another kind makes the account malformed, `null` too.
pub open spec fn account_of_json(value: Value) -> Option<NtfyAccountView> {
    if !json_is_object(value) {
        None
    } else {
        match defaulted_text(value, "username"@) {
            Some(username) => {
                match json_member(value, "subscriptions"@) {
                    Some(m) => match json_items(m) {
                        Some(items) => match subscriptions_of(items) {
                            Some(subscriptions) => Some(
                                NtfyAccountView { username, subscriptions },
                            ),
                            None => None,
                        },
                        None => None,
                    },
                    None => Some(NtfyAccountView { username, subscriptions: Seq::empty() }),
                }
            },
            None => None,
        }
    }
}

/// The account that the body of an answer denotes.
pub open spec fn account_of_text(body: Seq<char>) -> Option<NtfyAccountView> {
    match json_document(body) {
        Some(v) => account_of_json(v),
        None => None,
    }
}

/// Where the line that starts at `from` ends: at the next line feed, or at
/// the end of the text.
pub open spec fn line_end(text: Seq<char>, from: int) -> int
    decreases text.len() - from,
{
    if from < 0 || from >= text.len() || text[from] == '\n' {
        from
    } else {
        line_end(text, from + 1)
    }
}

/// The message of a user that a line denotes: none where the line is
/// blank, is no JSON document, denotes no message, or denotes a frame of
/// the protocol's own.
pub open spec fn message_of_line(line: Seq<char>) -> Option<NtfyMessageView> {
    if is_blank(line) {
        None
    } else {
        match json_document(line) {
            Some(v) => match message_of_json(v) {
                Some(m) => if m.is_user_message() {
                    Some(m)
                } else {
                    None
                },
                None => None,
            },
            None => None,
        }
    }
}

/// The messages of users that the lines of a text denote, from the line
/// that starts at `from` on, in the order of the lines. Lines end at line
/// feeds; a line that denotes no message of a user is passed over.
pub open spec fn messages_from(text: Seq<char>, from: int) -> Seq<NtfyMessageView>
    decreases text.len() - from,
{
    if from < 0 || from > text.len() {
        Seq::empty()
    } else {
        let end = line_end(text, from);
        let head = match message_of_line(text.subrange(from, end)) {
            Some(m) => seq![m],
            None => Seq::empty(),
        };
        if end < from || end >= text.len() {
            head
        } else {
            head + messages_from(text, end + 1)
        }
    }
}

/// The messages of users that the body of an answer holds.
pub open spec fn messages_of_text(body: Seq<char>) -> Seq<NtfyMessageView> {
    messages_from(body, 0)
}

/// The views of a list of messages.
pub open spec fn message_views(s: Seq<NtfyMessage>) -> Seq<NtfyMessageView> {
    Seq::new(s.len(), |i: int| s[i]@)
}

/// The plain values of a result that holds an account.
pub open spec fn account_result_view(r: Result<NtfyAccount, AppError>) -> Result<
    NtfyAccountView,
    AppErrorView,
> {
    match r {
        Ok(a) => Ok(a@),
        Err(e) => Err(e@),
    }
}

/// The plain values of a result that holds messages.
pub open spec fn messages_result_view(r: Result<Vec<NtfyMessage>, AppError>) -> Result<
    Seq<NtfyMessageView>,
    AppErrorView,
> {
    match r {
        Ok(m) => Ok(message_views(m@)),
        Err(e) => Err(e@),
    }
}

/// What the client makes of the answer to a request for an account: the
/// account, or the failure that it reports.
pub open spec fn account_outcome(success: bool, status: Seq<char>, body: Seq<char>) -> Result<
    NtfyAccountView,
    AppErrorView,
> {
    if !success {
        Err(AppErrorView::Connection("Server returned "@ + status + ": "@ + body))
    } else {
        match account_of_text(body) {
            Some(a) => Ok(a),
            None => Err(
                AppErrorView::Connection(
                    "Failed to parse response: invalid account data - body: "@ + body,
                ),
            ),
        }
    }
}

/// What the client makes of the answer to a request for messages.
pub open spec fn messages_outcome(success: bool, status: Seq<char>, body: Seq<char>) -> Result<
    Seq<NtfyMessageView>,
    AppErrorView,
> {
    if !success {
        Err(AppErrorView::Connection("Failed to fetch messages: "@ + status + " - "@ + body))
    } else {
        Ok(messages_of_text(body))
    }
}

/// Whether a text holds nothing but white space.
pub fn str_is_blank(s: &str) -> (r: bool)
    ensures
        r == is_blank(s@),
{
    let n: usize = s.unicode_len();
    let mut i: usize = 0;
    while i < n
        invariant
            i <= n,
            n == s@.len(),
            forall|j: int| 0 <= j < i ==> is_whitespace(#[trigger] s@[j]),
        decreases n - i,
    {
        if !char_is_whitespace(s.get_char(i)) {
            assert(!is_whitespace(s@[i as int]));
            return false;
        }
        i = i + 1;
    }
    true
}

/// The protocol client. It keeps no connection: it says what to ask, and
/// reads what came back.
#[derive(Debug)]
pub struct NtfyClient {}

impl NtfyClient {
    /// A client.
    pub fn new() -> (r: Result<NtfyClient, AppError>)
        ensures
            r is Ok,
    {
        Ok(NtfyClient {  })
    }

    /// The value of the `Authorization` header that signs in with a user
    /// name and a password.
    pub fn create_auth_header(username: &str, password: &str) -> (r: String)
        ensures
            r@ == basic_auth(username@, password@),
    {
        let credentials = concat3(username, ":", password);
        let encoded = base64_encode(credentials.as_str().as_bytes());
        concat2("Basic ", encoded.as_str())
    }

    /// The header for a user name and a password that may be missing.
    pub fn optional_auth_header(username: Option<&str>, password: Option<&str>) -> (r: Option<
        String,
    >)
        ensures
            opt_view(r) == optional_auth(
                match username {
                    Some(u) => Some(u@),
                    None => None,
                },
                match password {
                    Some(p) => Some(p@),
                    None => None,
                },
            ),
    {
        match (username, password) {
            (Some(u), Some(p)) => {
                if u.unicode_len() > 0 {
                    Some(Self::create_auth_header(u, p))
                } else {
                    None
                }
            },
            _ => None,
        }
    }

    /// What to ask a server for the account of a user.
    pub fn account_request(&self, server_url: &str, username: &str, password: &str) -> (r:
        HttpRequest)
        ensures
            r@ == (HttpRequestView {
                url: account_url(server_url@),
                authorization: Some(basic_auth(username@, password@)),
            }),
    {
        HttpRequest {
            url: concat2(normalize_url(server_url), "/v1/account"),
            authorization: Some(Self::create_auth_header(username, password)),
        }
    }

    /// What to ask a server for the messages of a topic since a time, and
    /// for all that it has kept where no time is given.
    pub fn messages_request(
        &self,
        server_url: &str,
        topic: &str,
        since: Option<i64>,
        username: Option<&str>,
        password: Option<&str>,
    ) -> (r: HttpRequest)
        ensures
            r@ == (HttpRequestView {
                url: messages_url(server_url@, topic@, since),
                authorization: optional_auth(
                    match username {
                        Some(u) => Some(u@),
                        None => None,
                    },
                    match password {
                        Some(p) => Some(p@),
                        None => None,
                    },
                ),
            }),
    {
        let mut url = concat3(normalize_url(server_url), "/", topic);
        url.append("/json?poll=1&since=");
        match since {
            Some(t) => {
                let digits = decimal_string(t);
                url.append(digits.as_str());
            },
            None => {
                url.append("all");
            },
        }
        HttpRequest { url, authorization: Self::optional_auth_header(username, password) }
    }

    /// What to ask a server to delete one message of a topic: a request to
    /// delete what is under the message's address.
    pub fn delete_request(
        &self,
        server_url: &str,
        topic: &str,
        ntfy_id: &str,
        username: Option<&str>,
        password: Option<&str>,
    ) -> (r: HttpRequest)
        ensures
            r@ == (HttpRequestView {
                url: message_url(server_url@, topic@, ntfy_id@),
                authorization: optional_auth(
                    match username {
                        Some(u) => Some(u@),
                        None => None,
                    },
                    match password {
                        Some(p) => Some(p@),
                        None => None,
                    },
                ),
            }),
    {
        let mut url = concat3(normalize_url(server_url), "/", topic);
        url.append("/");
        url.append(ntfy_id);
        HttpRequest { url, authorization: Self::optional_auth_header(username, password) }
    }

    /// The listed subscription that a JSON value denotes.
    fn read_subscription(value: &Value) -> (r: Option<NtfySubscription>)
        ensures
            match r {
                Some(s) => subscription_of_json(*value) == Some(s@),
                None => subscription_of_json(*value) is None,
            },
    {
        let base_url = read_required_text(value, "base_url");
        let topic = read_required_text(value, "topic");
        let display_name = read_optional_text(value, "display_name");
        match (base_url, topic, display_name) {
            (Some(base_url), Some(topic), Some(display_name)) => Some(
                NtfySubscription { base_url, topic, display_name },
            ),
            _ => None,
        }
    }

    /// The account that the body of an answer denotes.
    #[verifier::loop_isolation(false)]
    pub fn parse_account(body: &str) -> (r: Option<NtfyAccount>)
        ensures
            match r {
                Some(a) => account_of_text(body@) == Some(a@),
                None => account_of_text(body@) is None,
            },
    {
        let value = match parse_document(body) {
            Some(v) => v,
            None => {
                return None;
            },
        };
        if !is_object(&value) {
            return None;
        }
        let username = match read_defaulted_text(&value, "username") {
            Some(u) => u,
            None => {
                return None;
            },
        };
        let m = match member(&value, "subscriptions") {
            Some(m) => m,
            None => {
                let a = NtfyAccount { username, subscriptions: Vec::new() };
                assert(a@.subscriptions =~= Seq::empty());
                return Some(a);
            },
        };
        let items = match items_of(m) {
            Some(items) => items,
            None => {
                return None;
            },
        };
        let mut out: Vec<NtfySubscription> = Vec::new();
        let mut i: usize = 0;
        while i < items.len()
            invariant
                i <= items.len(),
                out.len() == i,
                forall|j: int|
                    0 <= j < i ==> subscription_of_json(#[trigger] items@[j]) == Some(out[j]@),
            decreases items.len() - i,
        {
            match Self::read_subscription(&items[i]) {
                Some(s) => {
                    out.push(s);
                },
                None => {
                    assert(subscription_of_json(items@[i as int]) is None);
                    return None;
                },
            }
            i = i + 1;
        }
        assert(listed_views(out@) =~= subscriptions_of(items@)->0);
        Some(NtfyAccount { username, subscriptions: out })
    }

    /// The account that a server's answer holds.
    pub fn get_account(&self, response: &HttpResponse) -> (r: Result<NtfyAccount, AppError>)
        ensures
            account_result_view(r) == account_outcome(
                response.success,
                response.status@,
                response.body@,
            ),
    {
        if !response.success {
            let mut detail = concat3("Server returned ", response.status.as_str(), ": ");
            detail.append(response.body.as_str());
            return Err(AppError::Connection(detail));
        }
        match Self::parse_account(response.body.as_str()) {
            Some(a) => Ok(a),
            None => Err(
                AppError::Connection(
                    concat2(
                        "Failed to parse response: invalid account data - body: ",
                        response.body.as_str(),
                    ),
                ),
            ),
        }
    }

    /// The message of a user that a line denotes.
    pub fn parse_line(line: &str) -> (r: Option<NtfyMessage>)
        ensures
            opt_message(r) == message_of_line(line@),
    {
        if str_is_blank(line) {
            return None;
        }
        match parse_document(line) {
            Some(v) => match read_message(&v) {
                Some(m) => if m.is_user_message() {
                    Some(m)
                } else {
                    None
                },
                None => None,
            },
            None => None,
        }
    }

    /// The messages of users that the body of an answer holds, one JSON
    /// record to a line. A line that is malformed, or that is a frame of
    /// the protocol's own, is passed over.
    pub fn parse_messages(body: &str) -> (r: Vec<NtfyMessage>)
        ensures
            message_views(r@) == messages_of_text(body@),
    {
        let chars = chars_of(body);
        let n: usize = chars.len();
        let mut out: Vec<NtfyMessage> = Vec::new();
        let mut start: usize = 0;
        let mut done = false;
        assert(message_views(out@) =~= Seq::empty());
        while !done
            invariant
                chars@ == body@,
                n == body@.len(),
                start <= n,
                !done ==> messages_from(body@, 0) == message_views(out@) + messages_from(
                    body@,
                    start as int,
                ),
                done ==> messages_from(body@, 0) == message_views(out@),
            decreases n - start + if done { 0int } else { 1int },
        {
            let mut end: usize = start;
            while end < n && chars[end] != '\n'
                invariant
                    start <= end <= n,
                    chars@ == body@,
                    n == body@.len(),
                    line_end(body@, start as int) == line_end(body@, end as int),
                decreases n - end,
            {
                end = end + 1;
            }
            let line = body.substring_char(start, end);
            let ghost before = message_views(out@);
            match Self::parse_line(line) {
                Some(m) => {
                    out.push(m);
                    assert(message_views(out@) =~= before + seq![m@]);
                },
                None => {
                    assert(message_views(out@) =~= before + Seq::<NtfyMessageView>::empty());
                },
            }
            if end >= n {
                done = true;
            } else {
                start = end + 1;
            }
        }
        out
    }

    /// The messages that a server's answer holds.
    pub fn get_messages(&self, response: &HttpResponse) -> (r: Result<Vec<NtfyMessage>, AppError>)
        ensures
            messages_result_view(r) == messages_outcome(
                response.success,
                response.status@,
                response.body@,
            ),
    {
        if !response.success {
            let mut detail = concat3("Failed to fetch messages: ", response.status.as_str(), " - ");
            detail.append(response.body.as_str());
            return Err(AppError::Connection(detail));
        }
        Ok(Self::parse_messages(response.body.as_str()))
    }
}

} // verus!
