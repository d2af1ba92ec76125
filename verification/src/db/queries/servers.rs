//! Operations on servers.

use crate::db::connection::{Database, DatabaseView};
use crate::db::models::{
    notification_rows, subscription_rows, NotificationRow, SubscriptionRow, SubscriptionRowView,
};
use crate::db::queries::subscriptions::{lemma_cascade_keeps_rules, of_kept};
use crate::error::{AppError, AppErrorView};
use crate::models::address::{url_parse, verdict_view};
use crate::models::server_url::{lemma_normalized_idempotent, normalize_url, normalized};
use crate::models::settings::{
    clone_servers, default_server_url, server_views, ServerConfig, ServerConfigView,
};
use crate::seqs::{lemma_filter_from, lemma_filter_keeps, lemma_filter_pairwise, pairwise};
use crate::text::{clone_opt, concat3, owned, str_eq};
use vstd::prelude::*;

verus! {

/// Every server but the one kept under the address `url`.
pub open spec fn other_server(url: Seq<char>) -> spec_fn(ServerConfigView) -> bool {
    |s: ServerConfigView| s.url != url
}

/// Every subscription but those on the server kept under the address `url`.
pub open spec fn not_on_server(url: Seq<char>) -> spec_fn(SubscriptionRowView) -> bool {
    |s: SubscriptionRowView| s.server_url != url
}

/// The words that report a server as missing.
pub open spec fn server_not_found(url: Seq<char>) -> AppErrorView {
    AppErrorView::NotFound("Server "@ + url + " not found"@)
}

/// The words with which a second server under one address is refused.
pub open spec fn duplicate_server() -> AppErrorView {
    AppErrorView::Database("Server already exists"@)
}

impl DatabaseView {
    /// The address of the default server, and that of the public server
    /// where none is the default.
    pub open spec fn default_server(self) -> Seq<char> {
        if exists|i: int| 0 <= i < self.servers.len() && (#[trigger] self.servers[i]).is_default {
            self.servers[choose|i: int|
                0 <= i < self.servers.len() && (#[trigger] self.servers[i]).is_default].url
        } else {
            default_server_url()
        }
    }

    /// The verdict on adding `server`, whose address parsed as `parsed`:
    /// that on its address, and a refusal where a server is kept under its
    /// normalized address.
    pub open spec fn server_verdict(
        self,
        server: ServerConfigView,
        parsed: Result<(Seq<char>, bool), Seq<char>>,
    ) -> Result<(), AppErrorView> {
        match server.verdict(parsed) {
            Err(e) => Err(e),
            Ok(()) => if self.has_server(normalized(server.url)) {
                Err(duplicate_server())
            } else {
                Ok(())
            },
        }
    }

    /// The records with `server` added under its normalized address. Where
    /// it is to be the default, no other server is one any more.
    pub open spec fn with_server(self, server: ServerConfigView) -> DatabaseView {
        DatabaseView {
            servers: Seq::new(
                self.servers.len(),
                |i: int|
                    ServerConfigView {
                        is_default: self.servers[i].is_default && !server.is_default,
                        ..self.servers[i]
                    },
            ).push(ServerConfigView { url: normalized(server.url), ..server }),
            ..self
        }
    }

    /// The records without the server that `url` names, without the
    /// subscriptions on it and without their notifications.
    pub open spec fn without_server(self, url: Seq<char>) -> DatabaseView {
        DatabaseView {
            servers: self.servers.filter(other_server(normalized(url))),
            subscriptions: self.subscriptions.filter(not_on_server(normalized(url))),
            notifications: self.notifications.filter(
                of_kept(self, not_on_server(normalized(url))),
            ),
            ..self
        }
    }

    /// The records with the server that `url` names as the default, and no
    /// other. Nothing changes where no server is named by it, so that the
    /// default stays where it is.
    pub open spec fn with_default_server(self, url: Seq<char>) -> DatabaseView {
        if !self.has_server(normalized(url)) {
            self
        } else {
            self.with_only_default(url)
        }
    }

    /// The records with the servers that `url` names as defaults, and no
    /// others.
    pub open spec fn with_only_default(self, url: Seq<char>) -> DatabaseView {
        DatabaseView {
            servers: Seq::new(
                self.servers.len(),
                |i: int|
                    ServerConfigView {
                        is_default: self.servers[i].url == normalized(url),
                        ..self.servers[i]
                    },
            ),
            ..self
        }
    }
}

impl Database {
    /// Where the server is kept whose address, as it is kept, is `url`.
    pub(crate) fn find_server(&self, url: &str) -> (r: Option<usize>)
        ensures
            match r {
                Some(i) => i < self.servers.len() && self@.servers[i as int].url == url@,
                None => !self@.has_server(url@),
            },
    {
        let mut i: usize = 0;
        while i < self.servers.len()
            invariant
                i <= self.servers.len(),
                forall|j: int| 0 <= j < i ==> (#[trigger] self@.servers[j]).url != url@,
            decreases self.servers.len() - i,
        {
            if str_eq(self.servers[i].url.as_str(), url) {
                return Some(i);
            }
            i = i + 1;
        }
        None
    }

    /// The servers, each with its credentials.
    pub fn get_servers_with_credentials(&self) -> (r: Result<Vec<ServerConfig>, AppError>)
        ensures
            r is Ok,
            server_views(r->Ok_0@) == self@.servers,
    {
        Ok(clone_servers(&self.servers))
    }

    /// The address of the default server, and that of the public server
    /// where none is the default.
    pub(crate) fn default_server_url(&self) -> (r: String)
        requires
            self.wf(),
        ensures
            r@ == self@.default_server(),
    {
        let mut i: usize = 0;
        while i < self.servers.len()
            invariant
                i <= self.servers.len(),
                self.wf(),
                forall|j: int| 0 <= j < i ==> !(#[trigger] self@.servers[j]).is_default,
            decreases self.servers.len() - i,
        {
            if self.servers[i].is_default {
                proof {
                    assert(self@.servers[i as int] == self.servers[i as int]@);
                    assert(self@.servers[i as int].is_default);
                    let k = choose|k: int|
                        0 <= k < self@.servers.len() && (#[trigger] self@.servers[k]).is_default;
                    if i < k {
                        assert(!(self@.servers[i as int].is_default
                            && self@.servers[k].is_default));
                    }
                }
                return self.servers[i].url.clone();
            }
            i = i + 1;
        }
        owned("https://ntfy.sh")
    }

    /// The address of the default server, and that of the public server
    /// where none is the default.
    pub fn get_default_server_url(&self) -> (r: Result<String, AppError>)
        requires
            self.wf(),
        ensures
            r is Ok,
            r->Ok_0@ == self@.default_server(),
    {
        Ok(self.default_server_url())
    }

    /// Adds a server under its normalized address, once its address has
    /// passed the checks. Where it is to be the default, no other server is
    /// one any more.
    pub fn add_server(&mut self, server: ServerConfig) -> (r: Result<(), AppError>)
        requires
            old(self).wf(),
        ensures
            final(self).wf(),
            verdict_view(r) == old(self)@.server_verdict(server@, url_parse(server@.url)),
            final(self)@ == if r is Ok {
                old(self)@.with_server(server@)
            } else {
                old(self)@
            },
    {
        match server.validate() {
            Err(e) => {
                return Err(e);
            },
            Ok(()) => {},
        }
        let url = owned(normalize_url(server.url.as_str()));
        if self.find_server(url.as_str()).is_some() {
            return Err(AppError::Database(owned("Server already exists")));
        }
        let ghost before = self@;
        let mut out: Vec<ServerConfig> = Vec::new();
        let mut i: usize = 0;
        while i < self.servers.len()
            invariant
                i <= self.servers.len(),
                self@ == before,
                out.len() == i,
                forall|j: int|
                    0 <= j < i ==> (#[trigger] out[j])@ == before.with_server(server@).servers[j],
            decreases self.servers.len() - i,
        {
            let mut copy = self.servers[i].clone();
            assert(before.servers[i as int] == self.servers[i as int]@);
            if server.is_default {
                copy.is_default = false;
            }
            out.push(copy);
            i = i + 1;
        }
        out.push(
            ServerConfig {
                url,
                username: clone_opt(&server.username),
                password: clone_opt(&server.password),
                is_default: server.is_default,
            },
        );
        self.servers = out;
        proof {
            let want = before.with_server(server@);
            lemma_normalized_idempotent(server@.url);
            assert(self@.servers =~= want.servers);
            assert(self@.subscriptions == before.subscriptions);
            assert(self@.notifications == before.notifications);
            assert(self@.settings == before.settings);
            let n = before.servers.len() as int;
            assert forall|a: int, b: int| 0 <= a < b < want.servers.len() implies (
            #[trigger] want.servers[a]).url != (#[trigger] want.servers[b]).url by {
                if b < n {
                    assert(before.servers[a].url != before.servers[b].url);
                } else {
                    assert(before.servers[a].url != normalized(server@.url));
                }
            }
            assert forall|a: int, b: int| 0 <= a < b < want.servers.len() implies !((
            #[trigger] want.servers[a]).is_default && (#[trigger] want.servers[b]).is_default) by {
                if b < n {
                    assert(!(before.servers[a].is_default && before.servers[b].is_default));
                }
            }
            assert forall|a: int| 0 <= a < want.servers.len() implies normalized(
                (#[trigger] want.servers[a]).url,
            ) == want.servers[a].url by {
                if a < n {
                    assert(normalized(before.servers[a].url) == before.servers[a].url);
                }
            }
            assert forall|a: int| 0 <= a < want.subscriptions.len() implies want.has_server(
                (#[trigger] want.subscriptions[a]).server_url,
            ) by {
                assert(before.has_server(before.subscriptions[a].server_url));
                let k = choose|k: int|
                    0 <= k < before.servers.len() && (#[trigger] before.servers[k]).url
                        == before.subscriptions[a].server_url;
                assert(want.servers[k].url == before.servers[k].url);
            }
            assert(want.notifications_wf());
        }
        Ok(())
    }

    /// Removes the server that `url` names and, with it, the subscriptions
    /// on it and their notifications.
    pub fn remove_server(&mut self, url: &str) -> (r: Result<(), AppError>)
        requires
            old(self).wf(),
        ensures
            final(self).wf(),
            final(self)@ == old(self)@.without_server(url@),
            r is Ok,
    {
        let ghost before = self@;
        let key = normalize_url(url);
        let ghost keep_sub = not_on_server(key@);
        let ghost keep_note = of_kept(before, keep_sub);
        let ghost keep_server = other_server(key@);
        proof {
            reveal(Seq::filter);
            assert(before.subscriptions.subrange(0, 0) =~= Seq::empty());
            assert(before.notifications.subrange(0, 0) =~= Seq::empty());
            assert(before.servers.subrange(0, 0) =~= Seq::empty());
        }
        let mut notes: Vec<NotificationRow> = Vec::new();
        let mut i: usize = 0;
        while i < self.notifications.len()
            invariant
                i <= self.notifications.len(),
                self@ == before,
                before.wf(),
                keep_sub == not_on_server(key@),
                keep_note == of_kept(before, keep_sub),
                notification_rows(notes@) == before.notifications.subrange(0, i as int).filter(
                    keep_note,
                ),
            decreases self.notifications.len() - i,
        {
            let row = &self.notifications[i];
            let stays = match self.find_subscription(row.notification.topic_id.as_str()) {
                Some(k) => {
                    proof {
                        assert(before.subscriptions[k as int] == self.subscriptions[k as int]@);
                        if keep_note(row@) {
                            let m = choose|m: int|
                                0 <= m < before.subscriptions.len() && (
                                #[trigger] before.subscriptions[m]).id
                                    == row@.notification.topic_id && keep_sub(
                                    before.subscriptions[m],
                                );
                            if m < k {
                                assert(before.subscriptions[m].id
                                    != before.subscriptions[k as int].id);
                            }
                            if k < m {
                                assert(before.subscriptions[k as int].id
                                    != before.subscriptions[m].id);
                            }
                        }
                    }
                    !str_eq(self.subscriptions[k].server_url.as_str(), key)
                },
                None => false,
            };
            proof {
                broadcast use Seq::lemma_filter_push;

                assert(before.notifications[i as int] == row@);
                assert(before.notifications.subrange(0, i + 1) =~= before.notifications.subrange(
                    0,
                    i as int,
                ).push(row@));
                assert(keep_note(row@) == stays);
            }
            if stays {
                let ghost prev = notification_rows(notes@);
                notes.push(row.clone());
                assert(notification_rows(notes@) =~= prev.push(row@));
            }
            i = i + 1;
        }
        assert(before.notifications.subrange(0, i as int) =~= before.notifications);
        let mut subs: Vec<SubscriptionRow> = Vec::new();
        let mut j: usize = 0;
        while j < self.subscriptions.len()
            invariant
                j <= self.subscriptions.len(),
                self@ == before,
                keep_sub == not_on_server(key@),
                subscription_rows(subs@) == before.subscriptions.subrange(0, j as int).filter(
                    keep_sub,
                ),
            decreases self.subscriptions.len() - j,
        {
            let row = &self.subscriptions[j];
            let hit = str_eq(row.server_url.as_str(), key);
            proof {
                broadcast use Seq::lemma_filter_push;

                assert(before.subscriptions[j as int] == row@);
                assert(before.subscriptions.subrange(0, j + 1) =~= before.subscriptions.subrange(
                    0,
                    j as int,
                ).push(row@));
                assert(keep_sub(row@) == !hit);
            }
            if !hit {
                let ghost prev = subscription_rows(subs@);
                subs.push(row.clone());
                assert(subscription_rows(subs@) =~= prev.push(row@));
            }
            j = j + 1;
        }
        assert(before.subscriptions.subrange(0, j as int) =~= before.subscriptions);
        let mut servers: Vec<ServerConfig> = Vec::new();
        let mut k: usize = 0;
        while k < self.servers.len()
            invariant
                k <= self.servers.len(),
                self@ == before,
                keep_server == other_server(key@),
                server_views(servers@) == before.servers.subrange(0, k as int).filter(keep_server),
            decreases self.servers.len() - k,
        {
            let row = &self.servers[k];
            let hit = str_eq(row.url.as_str(), key);
            proof {
                broadcast use Seq::lemma_filter_push;

                assert(before.servers[k as int] == row@);
                assert(before.servers.subrange(0, k + 1) =~= before.servers.subrange(
                    0,
                    k as int,
                ).push(row@));
                assert(keep_server(row@) == !hit);
            }
            if !hit {
                let ghost prev = server_views(servers@);
                servers.push(row.clone());
                assert(server_views(servers@) =~= prev.push(row@));
            }
            k = k + 1;
        }
        assert(before.servers.subrange(0, k as int) =~= before.servers);
        self.notifications = notes;
        self.subscriptions = subs;
        self.servers = servers;
        proof {
            assert(self@.settings == before.settings);
            assert(self@ == before.without_server(url@));
            lemma_without_server_keeps_rules(before, url@);
        }
        Ok(())
    }

    /// Makes the server that `url` names the default, and no other. An
    /// address that names no server is reported, and the default stays.
    pub fn set_default_server(&mut self, url: &str) -> (r: Result<(), AppError>)
        requires
            old(self).wf(),
        ensures
            final(self).wf(),
            final(self)@ == old(self)@.with_default_server(url@),
            verdict_view(r) == if old(self)@.has_server(normalized(url@)) {
                Ok::<(), AppErrorView>(())
            } else {
                Err::<(), AppErrorView>(server_not_found(url@))
            },
    {
        let ghost before = self@;
        let key = normalize_url(url);
        if self.find_server(key).is_none() {
            return Err(AppError::NotFound(concat3("Server ", url, " not found")));
        }
        let mut out: Vec<ServerConfig> = Vec::new();
        let mut i: usize = 0;
        while i < self.servers.len()
            invariant
                i <= self.servers.len(),
                self@ == before,
                key@ == normalized(url@),
                out.len() == i,
                forall|j: int|
                    0 <= j < i ==> (#[trigger] out[j])@ == before.with_only_default(
                        url@,
                    ).servers[j],
            decreases self.servers.len() - i,
        {
            let mut copy = self.servers[i].clone();
            assert(before.servers[i as int] == self.servers[i as int]@);
            copy.is_default = str_eq(copy.url.as_str(), key);
            out.push(copy);
            i = i + 1;
        }
        self.servers = out;
        proof {
            let want = before.with_only_default(url@);
            assert(self@.servers =~= want.servers);
            assert(self@.subscriptions == before.subscriptions);
            assert(self@.notifications == before.notifications);
            assert(self@.settings == before.settings);
            assert forall|a: int, b: int| 0 <= a < b < want.servers.len() implies (
            #[trigger] want.servers[a]).url != (#[trigger] want.servers[b]).url by {
                assert(before.servers[a].url != before.servers[b].url);
            }
            assert forall|a: int| 0 <= a < want.servers.len() implies normalized(
                (#[trigger] want.servers[a]).url,
            ) == want.servers[a].url by {
                assert(normalized(before.servers[a].url) == before.servers[a].url);
            }
            assert forall|a: int| 0 <= a < want.subscriptions.len() implies want.has_server(
                (#[trigger] want.subscriptions[a]).server_url,
            ) by {
                assert(before.has_server(before.subscriptions[a].server_url));
                let k = choose|k: int|
                    0 <= k < before.servers.len() && (#[trigger] before.servers[k]).url
                        == before.subscriptions[a].server_url;
                assert(want.servers[k].url == before.servers[k].url);
            }
            assert(want.notifications_wf());
        }
        Ok(())
    }
}

/// Removing a server with what depends on it keeps the records' rules.
pub proof fn lemma_without_server_keeps_rules(old: DatabaseView, url: Seq<char>)
    requires
        old.wf(),
    ensures
        old.without_server(url).wf(),
{
    let n = normalized(url);
    let new = old.without_server(url);
    lemma_cascade_keeps_rules(old, not_on_server(n));
    let middle = DatabaseView {
        subscriptions: old.subscriptions.filter(not_on_server(n)),
        notifications: old.notifications.filter(of_kept(old, not_on_server(n))),
        ..old
    };
    assert(middle.wf());
    let keep = other_server(n);
    let distinct_urls = |a: ServerConfigView, b: ServerConfigView| a.url != b.url;
    let one_default = |a: ServerConfigView, b: ServerConfigView| !(a.is_default && b.is_default);
    assert(pairwise(old.servers, distinct_urls));
    assert(pairwise(old.servers, one_default));
    lemma_filter_pairwise(old.servers, keep, distinct_urls);
    lemma_filter_pairwise(old.servers, keep, one_default);
    assert forall|i: int| 0 <= i < new.servers.len() implies normalized(
        (#[trigger] new.servers[i]).url,
    ) == new.servers[i].url by {
        lemma_filter_from(old.servers, keep, i);
        let k = choose|k: int| 0 <= k < old.servers.len() && old.servers[k] == new.servers[i];
        assert(normalized(old.servers[k].url) == old.servers[k].url);
    }
    assert forall|i: int, j: int| 0 <= i < j < new.servers.len() implies (
    #[trigger] new.servers[i]).url != (#[trigger] new.servers[j]).url by {
        assert(distinct_urls(new.servers[i], new.servers[j]));
    }
    assert forall|i: int, j: int| 0 <= i < j < new.servers.len() implies !((
    #[trigger] new.servers[i]).is_default && (#[trigger] new.servers[j]).is_default) by {
        assert(one_default(new.servers[i], new.servers[j]));
    }
    assert forall|i: int| 0 <= i < new.subscriptions.len() implies new.has_server(
        (#[trigger] new.subscriptions[i]).server_url,
    ) by {
        lemma_filter_from(old.subscriptions, not_on_server(n), i);
        let address = new.subscriptions[i].server_url;
        assert(middle.has_server(address));
        let k = choose|k: int|
            0 <= k < old.servers.len() && (#[trigger] old.servers[k]).url == address;
        lemma_filter_keeps(old.servers, keep, k);
        let m = choose|m: int| 0 <= m < new.servers.len() && new.servers[m] == old.servers[k];
        assert(new.servers[m].url == address);
    }
    assert forall|i: int| 0 <= i < new.notifications.len() implies new.has_subscription(
        (#[trigger] new.notifications[i]).notification.topic_id,
    ) by {
        assert(middle.has_subscription(middle.notifications[i].notification.topic_id));
    }
}

} // verus!
