//! The rows of the client's tables.

use crate::models::notification::{Notification, NotificationView};
use crate::text::{clone_opt, opt_view};
use vstd::prelude::*;

verus! {

/// A subscription as it is kept: on a server, to a topic, with the
/// watermark up to which the server's backlog has been asked for.
#[derive(Debug)]
pub struct SubscriptionRow {
    pub id: String,
    /// The server's address, in normalized form.
    pub server_url: String,
    pub topic: String,
    pub display_name: Option<String>,
    pub muted: bool,
    /// Seconds since the epoch; `None` before the first backlog fetch.
    pub last_sync: Option<i64>,
}

/// A kept subscription, as plain values.
pub struct SubscriptionRowView {
    pub id: Seq<char>,
    pub server_url: Seq<char>,
    pub topic: Seq<char>,
    pub display_name: Option<Seq<char>>,
    pub muted: bool,
    pub last_sync: Option<i64>,
}

impl View for SubscriptionRow {
    type V = SubscriptionRowView;

    open spec fn view(&self) -> SubscriptionRowView {
        SubscriptionRowView {
            id: self.id@,
            server_url: self.server_url@,
            topic: self.topic@,
            display_name: opt_view(self.display_name),
            muted: self.muted,
            last_sync: self.last_sync,
        }
    }
}

impl Clone for SubscriptionRow {
    fn clone(&self) -> (r: SubscriptionRow)
        ensures
            r@ == self@,
    {
        SubscriptionRow {
            id: self.id.clone(),
            server_url: self.server_url.clone(),
            topic: self.topic.clone(),
            display_name: clone_opt(&self.display_name),
            muted: self.muted,
            last_sync: self.last_sync,
        }
    }
}

/// A notification as it is kept: with the server's identifier of the
/// message it was made from, where it was made from one.
#[derive(Debug)]
pub struct NotificationRow {
    pub notification: Notification,
    pub ntfy_id: Option<String>,
}

/// A kept notification, as plain values.
pub struct NotificationRowView {
    pub notification: NotificationView,
    pub ntfy_id: Option<Seq<char>>,
}

impl View for NotificationRow {
    type V = NotificationRowView;

    open spec fn view(&self) -> NotificationRowView {
        NotificationRowView { notification: self.notification@, ntfy_id: opt_view(self.ntfy_id) }
    }
}

impl Clone for NotificationRow {
    fn clone(&self) -> (r: NotificationRow)
        ensures
            r@ == self@,
    {
        NotificationRow {
            notification: self.notification.clone(),
            ntfy_id: clone_opt(&self.ntfy_id),
        }
    }
}

/// One setting: a key and its value.
#[derive(Debug)]
pub struct SettingRow {
    pub key: String,
    pub value: String,
}

impl View for SettingRow {
    type V = (Seq<char>, Seq<char>);

    open spec fn view(&self) -> (Seq<char>, Seq<char>) {
        (self.key@, self.value@)
    }
}

impl Clone for SettingRow {
    fn clone(&self) -> (r: SettingRow)
        ensures
            r@ == self@,
    {
        SettingRow { key: self.key.clone(), value: self.value.clone() }
    }
}

/// The views of a list of kept subscriptions.
pub open spec fn subscription_rows(s: Seq<SubscriptionRow>) -> Seq<SubscriptionRowView> {
    Seq::new(s.len(), |i: int| s[i]@)
}

/// The views of a list of kept notifications.
pub open spec fn notification_rows(s: Seq<NotificationRow>) -> Seq<NotificationRowView> {
    Seq::new(s.len(), |i: int| s[i]@)
}

/// The views of a list of settings.
pub open spec fn setting_rows(s: Seq<SettingRow>) -> Seq<(Seq<char>, Seq<char>)> {
    Seq::new(s.len(), |i: int| s[i]@)
}

} // verus!
