//! Deleting a notification, here and on its server.

use crate::db::connection::{Database, DatabaseView};
use crate::error::AppError;
use crate::models::settings::{server_views, ServerConfig, ServerConfigView};
use crate::services::connection_manager::first_matching;
use crate::text::{opt_view, owned};
use vstd::prelude::*;

verus! {

/// What it takes to delete a message on its server.
#[derive(Debug)]
pub struct RemoteDelete {
    pub server_url: String,
    pub topic: String,
    /// The server's identifier of the message.
    pub ntfy_id: String,
    pub username: Option<String>,
    pub password: Option<String>,
}

/// A deletion on a server, as plain values.
pub struct RemoteDeleteView {
    pub server_url: Seq<char>,
    pub topic: Seq<char>,
    pub ntfy_id: Seq<char>,
    pub username: Option<Seq<char>>,
    pub password: Option<Seq<char>>,
}

impl View for RemoteDelete {
    type V = RemoteDeleteView;

    open spec fn view(&self) -> RemoteDeleteView {
        RemoteDeleteView {
            server_url: self.server_url@,
            topic: self.topic@,
            ntfy_id: self.ntfy_id@,
            username: opt_view(self.username),
            password: opt_view(self.password),
        }
    }
}

/// The plain values of an optional deletion.
pub open spec fn opt_remote_delete(o: Option<RemoteDelete>) -> Option<RemoteDeleteView> {
    match o {
        Some(d) => Some(d@),
        None => None,
    }
}

/// The credentials of the first server that `url` names, where it has
/// both and the user name is not empty.
pub open spec fn credentials_for(servers: Seq<ServerConfigView>, url: Seq<char>) -> Option<
    (Seq<char>, Seq<char>),
> {
    match first_matching(servers, url) {
        Some(s) => s.credentials(),
        None => None,
    }
}

impl DatabaseView {
    /// The deletion on its server that goes with deleting the notification
    /// `id`, with the user name and password of its server where the
    /// server has both. There is none where deleting is set to leave the
    /// server alone, where the notification is not kept or was made from
    /// no message of a server, or where its subscription is not kept.
    pub open spec fn remote_delete(self, id: Seq<char>) -> Option<RemoteDeleteView> {
        if self.setting_bool("delete_local_only"@, true) {
            None
        } else {
            match self.notification_meta(id) {
                Some((Some(ntfy_id), subscription_id)) => match self.subscription_row(
                    subscription_id,
                ) {
                    Some(row) => Some(
                        RemoteDeleteView {
                            server_url: row.server_url,
                            topic: row.topic,
                            ntfy_id,
                            username: match credentials_for(self.servers, row.server_url) {
                                Some((u, _)) => Some(u),
                                None => None,
                            },
                            password: match credentials_for(self.servers, row.server_url) {
                                Some((_, p)) => Some(p),
                                None => None,
                            },
                        },
                    ),
                    None => None,
                },
                _ => None,
            }
        }
    }
}

/// The credentials of the first server that `url` names.
fn find_credentials(servers: &Vec<ServerConfig>, url: &str) -> (r: Option<(String, String)>)
    ensures
        match r {
            Some((u, p)) => credentials_for(server_views(servers@), url@) == Some((u@, p@)),
            None => credentials_for(server_views(servers@), url@) is None,
        },
{
    let ghost all = server_views(servers@);
    let mut i: usize = 0;
    assert(all.subrange(0, all.len() as int) =~= all);
    while i < servers.len()
        invariant
            i <= servers.len(),
            all == server_views(servers@),
            first_matching(all, url@) == first_matching(
                all.subrange(i as int, all.len() as int),
                url@,
            ),
        decreases servers.len() - i,
    {
        let server = &servers[i];
        proof {
            let rest = all.subrange(i as int, all.len() as int);
            assert(rest.first() == server@);
            assert(rest.drop_first() =~= all.subrange(i + 1, all.len() as int));
        }
        if server.url_matches(url) {
            return match server.credentials() {
                Some((u, p)) => Some((owned(u), owned(p))),
                None => None,
            };
        }
        i = i + 1;
    }
    None
}

/// The deletion on its server that goes with deleting the notification
/// `id`. It is tried before the notification is deleted here, and its
/// failure does not keep the notification from being deleted here.
pub fn plan_remote_delete(db: &Database, id: &str) -> (r: Result<Option<RemoteDelete>, AppError>)
    requires
        db.wf(),
    ensures
        r is Ok,
        opt_remote_delete(r->Ok_0) == db@.remote_delete(id@),
{
    if db.switch("delete_local_only", true) {
        return Ok(None);
    }
    let (ntfy_id, subscription_id) = match db.get_notification_meta(id) {
        Ok(Some((Some(ntfy_id), subscription_id))) => (ntfy_id, subscription_id),
        _ => {
            return Ok(None);
        },
    };
    let k = match db.find_subscription(subscription_id.as_str()) {
        Some(k) => k,
        None => {
            return Ok(None);
        },
    };
    proof {
        crate::db::queries::subscriptions::lemma_subscription_row(db@, k as int);
        assert(db@.subscriptions[k as int] == db.subscriptions[k as int]@);
    }
    let row = &db.subscriptions[k];
    let (username, password) = match find_credentials(&db.servers, row.server_url.as_str()) {
        Some((u, p)) => (Some(u), Some(p)),
        None => (None, None),
    };
    Ok(
        Some(
            RemoteDelete {
                server_url: row.server_url.clone(),
                topic: row.topic.clone(),
                ntfy_id,
                username,
                password,
            },
        ),
    )
}

} // verus!
