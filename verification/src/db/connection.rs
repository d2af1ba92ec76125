//! The client's records: servers, subscriptions, notifications and
//! settings, held in memory with the rules that tie them together.

use crate::db::models::{
    notification_rows, setting_rows, subscription_rows, NotificationRow, NotificationRowView,
    SettingRow, SubscriptionRow, SubscriptionRowView,
};
use crate::models::server_url::normalized;
use crate::models::settings::{
    default_server_url, server_views, ServerConfig, ServerConfigView,
};
use crate::text::owned;
use vstd::prelude::*;

verus! {

/// The client's records. Every operation on them is one step: none leaves
/// them in a state that breaks the rules of `DatabaseView::wf`.
#[derive(Debug)]
pub struct Database {
    pub(crate) servers: Vec<ServerConfig>,
    pub(crate) subscriptions: Vec<SubscriptionRow>,
    pub(crate) notifications: Vec<NotificationRow>,
    pub(crate) settings: Vec<SettingRow>,
}

/// The records, as plain values.
pub struct DatabaseView {
    pub servers: Seq<ServerConfigView>,
    pub subscriptions: Seq<SubscriptionRowView>,
    pub notifications: Seq<NotificationRowView>,
    pub settings: Seq<(Seq<char>, Seq<char>)>,
}

impl View for Database {
    type V = DatabaseView;

    open(crate) spec fn view(&self) -> DatabaseView {
        DatabaseView {
            servers: server_views(self.servers@),
            subscriptions: subscription_rows(self.subscriptions@),
            notifications: notification_rows(self.notifications@),
            settings: setting_rows(self.settings@),
        }
    }
}

impl DatabaseView {
    /// Whether a server with the address `url`, taken as it is, is kept.
    pub open spec fn has_server(self, url: Seq<char>) -> bool {
        exists|i: int| 0 <= i < self.servers.len() && (#[trigger] self.servers[i]).url == url
    }

    /// Whether a subscription with the identifier `id` is kept.
    pub open spec fn has_subscription(self, id: Seq<char>) -> bool {
        exists|i: int|
            0 <= i < self.subscriptions.len() && (#[trigger] self.subscriptions[i]).id == id
    }

    /// Whether a subscription to `topic` on the server at `url`, taken as
    /// it is, is kept.
    pub open spec fn has_topic(self, url: Seq<char>, topic: Seq<char>) -> bool {
        exists|i: int|
            0 <= i < self.subscriptions.len() && (#[trigger] self.subscriptions[i]).server_url
                == url && self.subscriptions[i].topic == topic
    }

    /// Whether a notification with the identifier `id` is kept.
    pub open spec fn has_notification(self, id: Seq<char>) -> bool {
        exists|i: int|
            0 <= i < self.notifications.len() && (#[trigger] self.notifications[i]).notification.id
                == id
    }

    /// Whether a notification made from the server's message `ntfy_id` is
    /// kept.
    pub open spec fn has_ntfy_id(self, ntfy_id: Seq<char>) -> bool {
        exists|i: int|
            0 <= i < self.notifications.len() && (#[trigger] self.notifications[i]).ntfy_id
                == Some(ntfy_id)
    }

    /// Servers are kept under normalized addresses, no two under the same,
    /// and at most one is the default.
    pub open spec fn servers_wf(self) -> bool {
        &&& forall|i: int|
            0 <= i < self.servers.len() ==> normalized((#[trigger] self.servers[i]).url)
                == self.servers[i].url
        &&& forall|i: int, j: int|
            0 <= i < j < self.servers.len() ==> (#[trigger] self.servers[i]).url != (
            #[trigger] self.servers[j]).url
        &&& forall|i: int, j: int|
            0 <= i < j < self.servers.len() ==> !((#[trigger] self.servers[i]).is_default && (
            #[trigger] self.servers[j]).is_default)
    }

    /// Every subscription is on a kept server; no two have the same
    /// identifier, nor the same server and topic.
    pub open spec fn subscriptions_wf(self) -> bool {
        &&& forall|i: int|
            0 <= i < self.subscriptions.len() ==> self.has_server(
                (#[trigger] self.subscriptions[i]).server_url,
            )
        &&& forall|i: int, j: int|
            0 <= i < j < self.subscriptions.len() ==> (#[trigger] self.subscriptions[i]).id != (
            #[trigger] self.subscriptions[j]).id
        &&& forall|i: int, j: int|
            0 <= i < j < self.subscriptions.len() ==> !((#[trigger] self.subscriptions[i]).server_url
                == (#[trigger] self.subscriptions[j]).server_url && self.subscriptions[i].topic
                == self.subscriptions[j].topic)
    }

    /// Every notification belongs to a kept subscription; no two have the
    /// same identifier, nor were made from the same message of a server.
    pub open spec fn notifications_wf(self) -> bool {
        &&& forall|i: int|
            0 <= i < self.notifications.len() ==> self.has_subscription(
                (#[trigger] self.notifications[i]).notification.topic_id,
            )
        &&& forall|i: int, j: int|
            0 <= i < j < self.notifications.len() ==> (
            #[trigger] self.notifications[i]).notification.id != (
            #[trigger] self.notifications[j]).notification.id
        &&& forall|i: int, j: int|
            0 <= i < j < self.notifications.len() && (#[trigger] self.notifications[i]).ntfy_id
                is Some ==> self.notifications[i].ntfy_id != (
            #[trigger] self.notifications[j]).ntfy_id
    }

    /// No key has two settings.
    pub open spec fn settings_wf(self) -> bool {
        forall|i: int, j: int|
            0 <= i < j < self.settings.len() ==> (#[trigger] self.settings[i]).0 != (
            #[trigger] self.settings[j]).0
    }

    /// The rules that tie the records together.
    pub open spec fn wf(self) -> bool {
        &&& self.servers_wf()
        &&& self.subscriptions_wf()
        &&& self.notifications_wf()
        &&& self.settings_wf()
    }

    /// The records of a new installation: the public server, as the default.
    pub open spec fn initial() -> DatabaseView {
        DatabaseView {
            servers: seq![
                ServerConfigView {
                    url: default_server_url(),
                    username: None,
                    password: None,
                    is_default: true,
                },
            ],
            subscriptions: Seq::empty(),
            notifications: Seq::empty(),
            settings: Seq::empty(),
        }
    }
}

/// The public server's address is in normalized form.
pub proof fn lemma_default_server_url_is_normalized()
    ensures
        normalized(default_server_url()) == default_server_url(),
{
    reveal_strlit("https://ntfy.sh");
    assert(default_server_url().last() == 'h');
}

impl Database {
    /// Whether the records keep their rules.
    pub open spec fn wf(&self) -> bool {
        self@.wf()
    }

    /// The records of a new installation.
    pub fn new() -> (r: Database)
        ensures
            r@ == DatabaseView::initial(),
            r.wf(),
    {
        let mut servers: Vec<ServerConfig> = Vec::new();
        servers.push(
            ServerConfig {
                url: owned("https://ntfy.sh"),
                username: None,
                password: None,
                is_default: true,
            },
        );
        let r = Database {
            servers,
            subscriptions: Vec::new(),
            notifications: Vec::new(),
            settings: Vec::new(),
        };
        proof {
            lemma_default_server_url_is_normalized();
            assert(r@.servers =~= DatabaseView::initial().servers);
            assert(r@.subscriptions =~= DatabaseView::initial().subscriptions);
            assert(r@.notifications =~= DatabaseView::initial().notifications);
            assert(r@.settings =~= DatabaseView::initial().settings);
        }
        r
    }

    /// The subscriptions as they are kept, for the file that mirrors the
    /// records.
    pub fn subscription_records(&self) -> (r: Vec<SubscriptionRow>)
        ensures
            subscription_rows(r@) == self@.subscriptions,
    {
        let mut out: Vec<SubscriptionRow> = Vec::new();
        let mut i: usize = 0;
        while i < self.subscriptions.len()
            invariant
                i <= self.subscriptions.len(),
                out.len() == i,
                forall|j: int| 0 <= j < i ==> out[j]@ == self.subscriptions[j]@,
            decreases self.subscriptions.len() - i,
        {
            out.push(self.subscriptions[i].clone());
            i = i + 1;
        }
        assert(subscription_rows(out@) =~= self@.subscriptions);
        out
    }

    /// The notifications as they are kept, in the order in which they were
    /// added.
    pub fn notification_records(&self) -> (r: Vec<NotificationRow>)
        ensures
            notification_rows(r@) == self@.notifications,
    {
        let mut out: Vec<NotificationRow> = Vec::new();
        let mut i: usize = 0;
        while i < self.notifications.len()
            invariant
                i <= self.notifications.len(),
                out.len() == i,
                forall|j: int| 0 <= j < i ==> out[j]@ == self.notifications[j]@,
            decreases self.notifications.len() - i,
        {
            out.push(self.notifications[i].clone());
            i = i + 1;
        }
        assert(notification_rows(out@) =~= self@.notifications);
        out
    }

    /// The settings as they are kept.
    pub fn setting_records(&self) -> (r: Vec<SettingRow>)
        ensures
            setting_rows(r@) == self@.settings,
    {
        let mut out: Vec<SettingRow> = Vec::new();
        let mut i: usize = 0;
        while i < self.settings.len()
            invariant
                i <= self.settings.len(),
                out.len() == i,
                forall|j: int| 0 <= j < i ==> out[j]@ == self.settings[j]@,
            decreases self.settings.len() - i,
        {
            out.push(self.settings[i].clone());
            i = i + 1;
        }
        assert(setting_rows(out@) =~= self@.settings);
        out
    }
}

} // verus!
