//! Operations on subscriptions.

use crate::db::connection::{Database, DatabaseView};
use crate::db::models::{
    subscription_rows, NotificationRowView, SubscriptionRow, SubscriptionRowView,
};
use crate::db::queries::notifications::{
    belongs_to, clip_count, lemma_fewer_notifications_keep_rules, not_of, subscription_not_found,
    unread_of,
};
use crate::error::{AppError, AppErrorView};
use crate::ids::fresh_id;
use crate::models::address::url_parse;
use crate::models::server_url::{lemma_normalized_idempotent, normalize_url, normalized};
use crate::models::settings::{ServerConfig, ServerConfigView};
use crate::models::subscription::{
    CreateSubscription, CreateSubscriptionView, Subscription, SubscriptionView,
};
use crate::seqs::{
    lemma_filter_agree, lemma_filter_from, lemma_filter_keeps, lemma_filter_pairwise, pairwise,
};
use crate::text::{clone_opt, concat3, owned, str_eq};
use vstd::prelude::*;
use vstd::string::*;
use vstd::seq_lib::{to_multiset_build, to_multiset_insert};

verus! {

/// Every subscription but `id`.
pub open spec fn other_subscription(id: Seq<char>) -> spec_fn(SubscriptionRowView) -> bool {
    |s: SubscriptionRowView| s.id != id
}

/// The time of the latest of some notifications, where there is one.
pub open spec fn latest(rows: Seq<NotificationRowView>) -> Option<i64>
    decreases rows.len(),
{
    if rows.len() == 0 {
        None
    } else {
        let t = rows.last().notification.timestamp as i64;
        match latest(rows.drop_last()) {
            Some(m) => if m >= t {
                Some(m)
            } else {
                Some(t)
            },
            None => Some(t),
        }
    }
}

/// The place of a subscription in the list that the client shows: one
/// whose latest notification is newer comes earlier, and one without
/// notifications comes after all that have one.
pub open spec fn recency(last_notification: Option<i64>) -> int {
    match last_notification {
        Some(t) => t as int,
        None => i64::MIN - 1,
    }
}

/// Whether no subscription of a list has a newer latest notification than
/// one before it, those without notifications at the end.
pub open spec fn most_recent_first(s: Seq<SubscriptionView>) -> bool {
    forall|a: int, b: int|
        0 <= a < b < s.len() ==> recency((#[trigger] s[a]).last_notification) >= recency(
            (#[trigger] s[b]).last_notification,
        )
}

/// The views of a list of subscriptions.
pub open spec fn subscription_views(s: Seq<Subscription>) -> Seq<SubscriptionView> {
    Seq::new(s.len(), |i: int| s[i]@)
}

/// The plain values of an optional subscription.
pub open spec fn opt_subscription(o: Option<Subscription>) -> Option<SubscriptionView> {
    match o {
        Some(s) => Some(s@),
        None => None,
    }
}

/// The words with which a second subscription to a topic of a server is
/// refused.
pub open spec fn duplicate_topic() -> AppErrorView {
    AppErrorView::Database("Subscription already exists"@)
}

/// The words with which a subscription under a taken identifier is refused.
pub open spec fn duplicate_subscription_id() -> AppErrorView {
    AppErrorView::Database("Subscription identifier is taken"@)
}

/// The row that is kept for a new subscription: on the server's normalized
/// address, not muted, without a watermark, and without a name where the
/// name asked for is empty.
pub open spec fn new_row(sub: CreateSubscriptionView, id: Seq<char>) -> SubscriptionRowView {
    SubscriptionRowView {
        id,
        server_url: normalized(sub.server_url),
        topic: sub.topic,
        display_name: match sub.display_name {
            Some(d) => if d.len() > 0 {
                Some(d)
            } else {
                None
            },
            None => None,
        },
        muted: false,
        last_sync: None,
    }
}

/// What the client shows of a new subscription: it has no notifications.
pub open spec fn new_subscription(sub: CreateSubscriptionView, id: Seq<char>) -> SubscriptionView {
    let row = new_row(sub, id);
    SubscriptionView {
        id: row.id,
        topic: row.topic,
        server_url: row.server_url,
        display_name: row.display_name,
        unread_count: 0,
        last_notification: None,
        muted: false,
    }
}

/// The plain values of the result of creating a subscription.
pub open spec fn creation_view(r: Result<Subscription, AppError>) -> Result<
    SubscriptionView,
    AppErrorView,
> {
    match r {
        Ok(s) => Ok(s@),
        Err(e) => Err(e@),
    }
}

impl DatabaseView {
    /// The verdict on creating the subscription `sub` under the identifier
    /// `id`, where the server's address parsed as `parsed`: that on the
    /// request itself, then a refusal where the topic of that server is
    /// subscribed to already, then one where the identifier is taken.
    pub open spec fn creation_verdict(
        self,
        sub: CreateSubscriptionView,
        parsed: Result<(Seq<char>, bool), Seq<char>>,
        id: Seq<char>,
    ) -> Result<(), AppErrorView> {
        match sub.verdict(parsed) {
            Err(e) => Err(e),
            Ok(()) => if self.has_topic(normalized(sub.server_url), sub.topic) {
                Err(duplicate_topic())
            } else if self.has_subscription(id) {
                Err(duplicate_subscription_id())
            } else {
                Ok(())
            },
        }
    }

    /// The records with the new subscription `sub` under the identifier
    /// `id`. Its server is added, without credentials and not as the
    /// default, where it is not kept yet.
    pub open spec fn with_subscription(
        self,
        sub: CreateSubscriptionView,
        id: Seq<char>,
    ) -> DatabaseView {
        let url = normalized(sub.server_url);
        DatabaseView {
            servers: if self.has_server(url) {
                self.servers
            } else {
                self.servers.push(
                    ServerConfigView { url, username: None, password: None, is_default: false },
                )
            },
            subscriptions: self.subscriptions.push(new_row(sub, id)),
            ..self
        }
    }

    /// The records after the subscription `sub` was asked for under the
    /// identifier `id`, and what the one who asked is told.
    pub open spec fn creation(
        self,
        sub: CreateSubscriptionView,
        parsed: Result<(Seq<char>, bool), Seq<char>>,
        id: Seq<char>,
    ) -> (DatabaseView, Result<SubscriptionView, AppErrorView>) {
        match self.creation_verdict(sub, parsed, id) {
            Ok(()) => (self.with_subscription(sub, id), Ok(new_subscription(sub, id))),
            Err(e) => (self, Err(e)),
        }
    }
}

impl DatabaseView {
    /// What the client shows of a kept subscription: the row, the number of
    /// its unread notifications and the time of its latest notification.
    pub open spec fn summary(self, row: SubscriptionRowView) -> SubscriptionView {
        SubscriptionView {
            id: row.id,
            topic: row.topic,
            server_url: row.server_url,
            display_name: row.display_name,
            unread_count: clip_count(self.unread_count(row.id)),
            last_notification: latest(self.notifications.filter(belongs_to(row.id))),
            muted: row.muted,
        }
    }

    /// What the client shows of each kept subscription, in the order in
    /// which they are kept.
    pub open spec fn summaries(self) -> Seq<SubscriptionView> {
        Seq::new(self.subscriptions.len(), |i: int| self.summary(self.subscriptions[i]))
    }

    /// The row of the subscription `id`.
    pub open spec fn subscription_row(self, id: Seq<char>) -> Option<SubscriptionRowView> {
        if self.has_subscription(id) {
            Some(
                self.subscriptions[choose|i: int|
                    0 <= i < self.subscriptions.len() && (#[trigger] self.subscriptions[i]).id
                        == id],
            )
        } else {
            None
        }
    }

    /// The watermark of the subscription `id`: `None` where it is not kept
    /// or has none yet.
    pub open spec fn last_sync(self, id: Seq<char>) -> Option<i64> {
        match self.subscription_row(id) {
            Some(row) => row.last_sync,
            None => None,
        }
    }

    /// The records with the watermark of the subscription `id` moved up to
    /// `timestamp`: a watermark never moves down.
    pub open spec fn with_last_sync(self, id: Seq<char>, timestamp: i64) -> DatabaseView {
        DatabaseView {
            subscriptions: Seq::new(
                self.subscriptions.len(),
                |i: int|
                    {
                        let row = self.subscriptions[i];
                        if row.id == id {
                            SubscriptionRowView {
                                last_sync: match row.last_sync {
                                    Some(t) => if t >= timestamp {
                                        Some(t)
                                    } else {
                                        Some(timestamp)
                                    },
                                    None => Some(timestamp),
                                },
                                ..row
                            }
                        } else {
                            row
                        }
                    },
            ),
            ..self
        }
    }

    /// The records with the subscription `id` muted if it was not, and the
    /// other way round.
    pub open spec fn with_mute_toggled(self, id: Seq<char>) -> DatabaseView {
        DatabaseView {
            subscriptions: Seq::new(
                self.subscriptions.len(),
                |i: int|
                    {
                        let row = self.subscriptions[i];
                        if row.id == id {
                            SubscriptionRowView { muted: !row.muted, ..row }
                        } else {
                            row
                        }
                    },
            ),
            ..self
        }
    }

    /// The records without the subscription `id` and without its
    /// notifications.
    pub open spec fn without_subscription(self, id: Seq<char>) -> DatabaseView {
        DatabaseView {
            subscriptions: self.subscriptions.filter(other_subscription(id)),
            notifications: self.notifications.filter(not_of(id)),
            ..self
        }
    }
}

/// Under the records' rules an identifier names one subscription.
pub proof fn lemma_subscription_row(db: DatabaseView, i: int)
    requires
        db.wf(),
        0 <= i < db.subscriptions.len(),
    ensures
        db.has_subscription(db.subscriptions[i].id),
        db.subscription_row(db.subscriptions[i].id) == Some(db.subscriptions[i]),
{
    let id = db.subscriptions[i].id;
    assert(db.has_subscription(id));
    let k = choose|k: int|
        0 <= k < db.subscriptions.len() && (#[trigger] db.subscriptions[k]).id == id;
    if k < i {
        assert(db.subscriptions[k].id != db.subscriptions[i].id);
    }
    if i < k {
        assert(db.subscriptions[i].id != db.subscriptions[k].id);
    }
}

/// Rows of subscriptions that differ only in what is no key keep the
/// records' rules.
pub proof fn lemma_same_keys_keep_rules(old: DatabaseView, new: DatabaseView)
    requires
        old.wf(),
        new.servers == old.servers,
        new.notifications == old.notifications,
        new.settings == old.settings,
        new.subscriptions.len() == old.subscriptions.len(),
        forall|i: int|
            0 <= i < old.subscriptions.len() ==> (#[trigger] new.subscriptions[i]).id
                == old.subscriptions[i].id && new.subscriptions[i].server_url
                == old.subscriptions[i].server_url && new.subscriptions[i].topic
                == old.subscriptions[i].topic,
    ensures
        new.wf(),
{
    assert forall|i: int| 0 <= i < new.subscriptions.len() implies new.has_server(
        (#[trigger] new.subscriptions[i]).server_url,
    ) by {
        assert(old.has_server(old.subscriptions[i].server_url));
    }
    assert forall|i: int, j: int| 0 <= i < j < new.subscriptions.len() implies (
    #[trigger] new.subscriptions[i]).id != (#[trigger] new.subscriptions[j]).id by {
        assert(old.subscriptions[i].id != old.subscriptions[j].id);
    }
    assert forall|i: int, j: int| 0 <= i < j < new.subscriptions.len() implies !((
    #[trigger] new.subscriptions[i]).server_url == (#[trigger] new.subscriptions[j]).server_url
        && new.subscriptions[i].topic == new.subscriptions[j].topic) by {
        assert(!(old.subscriptions[i].server_url == old.subscriptions[j].server_url
            && old.subscriptions[i].topic == old.subscriptions[j].topic));
    }
    assert forall|i: int| 0 <= i < new.notifications.len() implies new.has_subscription(
        (#[trigger] new.notifications[i]).notification.topic_id,
    ) by {
        let id = old.notifications[i].notification.topic_id;
        assert(old.has_subscription(id));
        let k = choose|k: int|
            0 <= k < old.subscriptions.len() && (#[trigger] old.subscriptions[k]).id == id;
        assert(new.subscriptions[k].id == id);
    }
}

/// A new subscription that passed the verdict keeps the records' rules.
pub proof fn lemma_with_subscription_keeps_rules(
    old: DatabaseView,
    sub: CreateSubscriptionView,
    id: Seq<char>,
)
    requires
        old.wf(),
        !old.has_topic(normalized(sub.server_url), sub.topic),
        !old.has_subscription(id),
    ensures
        old.with_subscription(sub, id).wf(),
{
    let new = old.with_subscription(sub, id);
    let url = normalized(sub.server_url);
    let n = old.servers.len() as int;
    let m = old.subscriptions.len() as int;
    lemma_normalized_idempotent(sub.server_url);
    assert forall|i: int| 0 <= i < new.servers.len() implies normalized(
        (#[trigger] new.servers[i]).url,
    ) == new.servers[i].url by {
        if i < n {
            assert(normalized(old.servers[i].url) == old.servers[i].url);
        }
    }
    assert forall|i: int, j: int| 0 <= i < j < new.servers.len() implies (
    #[trigger] new.servers[i]).url != (#[trigger] new.servers[j]).url by {
        if j < n {
            assert(old.servers[i].url != old.servers[j].url);
        } else {
            assert(old.servers[i].url != url);
        }
    }
    assert forall|i: int, j: int| 0 <= i < j < new.servers.len() implies !((
    #[trigger] new.servers[i]).is_default && (#[trigger] new.servers[j]).is_default) by {
        if j < n {
            assert(!(old.servers[i].is_default && old.servers[j].is_default));
        }
    }
    assert forall|i: int| 0 <= i < new.subscriptions.len() implies new.has_server(
        (#[trigger] new.subscriptions[i]).server_url,
    ) by {
        if i < m {
            assert(old.has_server(old.subscriptions[i].server_url));
            let k = choose|k: int|
                0 <= k < old.servers.len() && (#[trigger] old.servers[k]).url
                    == old.subscriptions[i].server_url;
            assert(new.servers[k].url == old.servers[k].url);
        } else if old.has_server(url) {
            let k = choose|k: int|
                0 <= k < old.servers.len() && (#[trigger] old.servers[k]).url == url;
            assert(new.servers[k].url == url);
        } else {
            assert(new.servers[n].url == url);
        }
    }
    assert forall|i: int, j: int| 0 <= i < j < new.subscriptions.len() implies (
    #[trigger] new.subscriptions[i]).id != (#[trigger] new.subscriptions[j]).id by {
        if j < m {
            assert(old.subscriptions[i].id != old.subscriptions[j].id);
        } else {
            assert(old.subscriptions[i].id != id);
        }
    }
    assert forall|i: int, j: int| 0 <= i < j < new.subscriptions.len() implies !((
    #[trigger] new.subscriptions[i]).server_url == (#[trigger] new.subscriptions[j]).server_url
        && new.subscriptions[i].topic == new.subscriptions[j].topic) by {
        if j < m {
            assert(!(old.subscriptions[i].server_url == old.subscriptions[j].server_url
                && old.subscriptions[i].topic == old.subscriptions[j].topic));
        } else {
            assert(!(old.subscriptions[i].server_url == url && old.subscriptions[i].topic
                == sub.topic));
        }
    }
    assert forall|i: int| 0 <= i < new.notifications.len() implies new.has_subscription(
        (#[trigger] new.notifications[i]).notification.topic_id,
    ) by {
        let want = old.notifications[i].notification.topic_id;
        assert(old.has_subscription(want));
        let k = choose|k: int|
            0 <= k < old.subscriptions.len() && (#[trigger] old.subscriptions[k]).id == want;
        assert(new.subscriptions[k].id == want);
    }
}

/// The notifications of the subscriptions that `keep` accepts.
pub open spec fn of_kept(db: DatabaseView, keep: spec_fn(SubscriptionRowView) -> bool) -> spec_fn(
    NotificationRowView,
) -> bool {
    |r: NotificationRowView|
        exists|i: int|
            0 <= i < db.subscriptions.len() && (#[trigger] db.subscriptions[i]).id
                == r.notification.topic_id && keep(db.subscriptions[i])
}

/// Leaving subscriptions out, together with their notifications, keeps the
/// records' rules.
pub proof fn lemma_cascade_keeps_rules(
    old: DatabaseView,
    keep: spec_fn(SubscriptionRowView) -> bool,
)
    requires
        old.wf(),
    ensures
        (DatabaseView {
            subscriptions: old.subscriptions.filter(keep),
            notifications: old.notifications.filter(of_kept(old, keep)),
            ..old
        }).wf(),
{
    let subs = old.subscriptions.filter(keep);
    let middle = DatabaseView {
        notifications: old.notifications.filter(of_kept(old, keep)),
        ..old
    };
    lemma_fewer_notifications_keep_rules(old, of_kept(old, keep));
    let new = DatabaseView { subscriptions: subs, ..middle };
    let distinct_ids = |a: SubscriptionRowView, b: SubscriptionRowView| a.id != b.id;
    let distinct_topics = |a: SubscriptionRowView, b: SubscriptionRowView|
        !(a.server_url == b.server_url && a.topic == b.topic);
    assert(pairwise(old.subscriptions, distinct_ids));
    assert(pairwise(old.subscriptions, distinct_topics));
    lemma_filter_pairwise(old.subscriptions, keep, distinct_ids);
    lemma_filter_pairwise(old.subscriptions, keep, distinct_topics);
    assert forall|i: int| 0 <= i < subs.len() implies new.has_server(
        (#[trigger] subs[i]).server_url,
    ) by {
        lemma_filter_from(old.subscriptions, keep, i);
        let k = choose|k: int| 0 <= k < old.subscriptions.len() && old.subscriptions[k] == subs[i];
        assert(old.has_server(old.subscriptions[k].server_url));
    }
    assert forall|i: int, j: int| 0 <= i < j < subs.len() implies (#[trigger] subs[i]).id != (
    #[trigger] subs[j]).id by {
        assert(distinct_ids(subs[i], subs[j]));
    }
    assert forall|i: int, j: int| 0 <= i < j < subs.len() implies !((
    #[trigger] subs[i]).server_url == (#[trigger] subs[j]).server_url && subs[i].topic
        == subs[j].topic) by {
        assert(distinct_topics(subs[i], subs[j]));
    }
    assert forall|i: int| 0 <= i < new.notifications.len() implies new.has_subscription(
        (#[trigger] new.notifications[i]).notification.topic_id,
    ) by {
        lemma_filter_from(old.notifications, of_kept(old, keep), i);
        let r = new.notifications[i];
        let k = choose|k: int|
            0 <= k < old.subscriptions.len() && (#[trigger] old.subscriptions[k]).id
                == r.notification.topic_id && keep(old.subscriptions[k]);
        lemma_filter_keeps(old.subscriptions, keep, k);
        let m = choose|m: int| 0 <= m < subs.len() && subs[m] == old.subscriptions[k];
        assert(new.subscriptions[m].id == r.notification.topic_id);
    }
}

/// Removing a subscription removes the notifications that belong to it and
/// no others.
pub proof fn lemma_cascade_of_one(db: DatabaseView, id: Seq<char>)
    requires
        db.wf(),
    ensures
        db.notifications.filter(of_kept(db, other_subscription(id))) == db.notifications.filter(
            not_of(id),
        ),
{
    let p = of_kept(db, other_subscription(id));
    let q = not_of(id);
    assert forall|k: int| 0 <= k < db.notifications.len() implies p(
        #[trigger] db.notifications[k],
    ) == q(db.notifications[k]) by {
        let r = db.notifications[k];
        assert(db.has_subscription(r.notification.topic_id));
        let i = choose|i: int|
            0 <= i < db.subscriptions.len() && (#[trigger] db.subscriptions[i]).id
                == r.notification.topic_id;
        if r.notification.topic_id != id {
            assert(other_subscription(id)(db.subscriptions[i]));
        }
    }
    lemma_filter_agree(db.notifications, p, q);
}

impl Database {
    /// Whether the topic `topic` of the server kept under `url` is
    /// subscribed to.
    pub(crate) fn topic_is_taken(&self, url: &str, topic: &str) -> (r: bool)
        ensures
            r == self@.has_topic(url@, topic@),
    {
        let mut i: usize = 0;
        while i < self.subscriptions.len()
            invariant
                i <= self.subscriptions.len(),
                forall|j: int|
                    0 <= j < i ==> !((#[trigger] self@.subscriptions[j]).server_url == url@
                        && self@.subscriptions[j].topic == topic@),
            decreases self.subscriptions.len() - i,
        {
            if str_eq(self.subscriptions[i].server_url.as_str(), url) && str_eq(
                self.subscriptions[i].topic.as_str(),
                topic,
            ) {
                assert(self@.subscriptions[i as int].server_url == url@);
                return true;
            }
            i = i + 1;
        }
        false
    }

    /// Creates the subscription `sub` under the identifier `id`.
    pub fn create_subscription_with_id(
        &mut self,
        sub: CreateSubscription,
        id: String,
    ) -> (r: Result<
        Subscription,
        AppError,
    >)
        requires
            old(self).wf(),
        ensures
            final(self).wf(),
            (final(self)@, creation_view(r)) == old(self)@.creation(
                sub@,
                url_parse(sub@.server_url),
                id@,
            ),
    {
        match sub.validate() {
            Err(e) => {
                return Err(e);
            },
            Ok(()) => {},
        }
        let url = owned(normalize_url(sub.server_url.as_str()));
        if self.topic_is_taken(url.as_str(), sub.topic.as_str()) {
            return Err(AppError::Database(owned("Subscription already exists")));
        }
        if self.find_subscription(id.as_str()).is_some() {
            return Err(AppError::Database(owned("Subscription identifier is taken")));
        }
        let ghost before = self@;
        let ghost want = before.with_subscription(sub@, id@);
        let known = self.find_server(url.as_str()).is_some();
        if !known {
            let ghost prev = self@.servers;
            self.servers.push(
                ServerConfig {
                    url: url.clone(),
                    username: None,
                    password: None,
                    is_default: false,
                },
            );
            assert(self@.servers =~= prev.push(
                ServerConfigView {
                    url: url@,
                    username: None,
                    password: None,
                    is_default: false,
                },
            ));
        }
        let display_name = match &sub.display_name {
            Some(d) => if d.as_str().unicode_len() > 0 {
                Some(d.clone())
            } else {
                None
            },
            None => None,
        };
        let row = SubscriptionRow {
            id: id.clone(),
            server_url: url.clone(),
            topic: sub.topic.clone(),
            display_name: clone_opt(&display_name),
            muted: false,
            last_sync: None,
        };
        assert(row@ == new_row(sub@, id@));
        let ghost prev = self@.subscriptions;
        self.subscriptions.push(row);
        proof {
            assert(self@.subscriptions =~= prev.push(new_row(sub@, id@)));
            assert(self@.notifications == before.notifications);
            assert(self@.settings == before.settings);
            assert(self@ == want);
            lemma_with_subscription_keeps_rules(before, sub@, id@);
        }
        Ok(
            Subscription {
                id,
                topic: sub.topic,
                server_url: url,
                display_name,
                unread_count: 0,
                last_notification: None,
                muted: false,
            },
        )
    }

    /// Creates the subscription `sub` under an identifier made up for it.
    pub fn create_subscription(&mut self, sub: CreateSubscription) -> (r: Result<
        Subscription,
        AppError,
    >)
        requires
            old(self).wf(),
        ensures
            final(self).wf(),
            exists|id: Seq<char>|
                (final(self)@, creation_view(r)) == #[trigger] old(self)@.creation(
                    sub@,
                    url_parse(sub@.server_url),
                    id,
                ),
    {
        let id = fresh_id();
        let ghost chosen = id@;
        let ghost before = self@;
        let r = self.create_subscription_with_id(sub, id);
        assert((self@, creation_view(r)) == before.creation(
            sub@,
            url_parse(sub@.server_url),
            chosen,
        ));
        r
    }

    /// What the client shows of the subscription kept at `i`.
    pub(crate) fn summarize(&self, i: usize) -> (r: Subscription)
        requires
            i < self.subscriptions.len(),
        ensures
            r@ == self@.summary(self@.subscriptions[i as int]),
    {
        let row = &self.subscriptions[i];
        let ghost mine = belongs_to(row@.id);
        let ghost unread = unread_of(row@.id);
        let mut count: i32 = 0;
        let mut last: Option<i64> = None;
        let mut k: usize = 0;
        assert(self@.notifications.subrange(0, 0) =~= Seq::empty());
        assert(Seq::<NotificationRowView>::empty().filter(mine) =~= Seq::empty()
            && Seq::<NotificationRowView>::empty().filter(unread) =~= Seq::empty()) by {
            reveal(Seq::filter);
        }
        while k < self.notifications.len()
            invariant
                k <= self.notifications.len(),
                i < self.subscriptions.len(),
                row == &self.subscriptions[i as int],
                mine == belongs_to(row@.id),
                unread == unread_of(row@.id),
                count == clip_count(self@.notifications.subrange(0, k as int).filter(unread).len()),
                last == latest(self@.notifications.subrange(0, k as int).filter(mine)),
            decreases self.notifications.len() - k,
        {
            let n = &self.notifications[k];
            let belongs = str_eq(n.notification.topic_id.as_str(), row.id.as_str());
            proof {
                broadcast use Seq::lemma_filter_push;

                assert(self@.notifications[k as int] == n@);
                assert(self@.notifications.subrange(0, k + 1) =~= self@.notifications.subrange(
                    0,
                    k as int,
                ).push(n@));
                assert(mine(n@) == belongs);
                assert(unread(n@) == (belongs && !n.notification.read));
                let seen = self@.notifications.subrange(0, k as int).filter(mine);
                assert(seen.push(n@).drop_last() =~= seen);
            }
            if belongs {
                if !n.notification.read && count < i32::MAX {
                    count = count + 1;
                }
                last = match last {
                    Some(m) => if m >= n.notification.timestamp {
                        Some(m)
                    } else {
                        Some(n.notification.timestamp)
                    },
                    None => Some(n.notification.timestamp),
                };
            }
            k = k + 1;
        }
        assert(self@.notifications.subrange(0, k as int) =~= self@.notifications);
        assert(self@.subscriptions[i as int] == row@);
        Subscription {
            id: row.id.clone(),
            topic: row.topic.clone(),
            server_url: row.server_url.clone(),
            display_name: clone_opt(&row.display_name),
            unread_count: count,
            last_notification: last,
            muted: row.muted,
        }
    }

    /// Every subscription with what the client shows of it, those with the
    /// newest notifications first and those without any at the end.
    pub fn get_all_subscriptions(&self) -> (r: Result<Vec<Subscription>, AppError>)
        ensures
            r is Ok,
            most_recent_first(subscription_views(r->Ok_0@)),
            subscription_views(r->Ok_0@).to_multiset() == self@.summaries().to_multiset(),
    {
        let mut out: Vec<Subscription> = Vec::new();
        let mut i: usize = 0;
        assert(subscription_views(out@) =~= self@.summaries().subrange(0, 0));
        while i < self.subscriptions.len()
            invariant
                i <= self.subscriptions.len(),
                most_recent_first(subscription_views(out@)),
                subscription_views(out@).to_multiset() == self@.summaries().subrange(
                    0,
                    i as int,
                ).to_multiset(),
            decreases self.subscriptions.len() - i,
        {
            let sub = self.summarize(i);
            let mut p: usize = 0;
            while p < out.len() && !Self::shown_before(&sub, &out[p])
                invariant
                    p <= out.len(),
                    forall|a: int|
                        0 <= a < p ==> recency((#[trigger] out[a])@.last_notification) >= recency(
                            sub@.last_notification,
                        ),
                decreases out.len() - p,
            {
                p = p + 1;
            }
            let ghost prev = subscription_views(out@);
            let ghost item = sub@;
            out.insert(p, sub);
            proof {
                broadcast use {to_multiset_insert, to_multiset_build};

                let now = subscription_views(out@);
                assert(now =~= prev.insert(p as int, item));
                assert(self@.summaries().subrange(0, i + 1) =~= self@.summaries().subrange(
                    0,
                    i as int,
                ).push(item));
                assert forall|a: int, b: int| 0 <= a < b < now.len() implies recency(
                    (#[trigger] now[a]).last_notification,
                ) >= recency((#[trigger] now[b]).last_notification) by {
                    if b < p {
                        assert(now[a] == prev[a] && now[b] == prev[b]);
                    } else if b == p {
                        assert(now[a] == prev[a]);
                    } else if a < p {
                        assert(now[a] == prev[a] && now[b] == prev[b - 1]);
                    } else if a == p {
                        assert(now[b] == prev[b - 1]);
                        assert(recency(prev[p as int].last_notification) < recency(
                            item.last_notification,
                        ));
                        if b - 1 > p {
                            assert(recency(prev[p as int].last_notification) >= recency(
                                prev[b - 1].last_notification,
                            ));
                        }
                    } else {
                        assert(now[a] == prev[a - 1] && now[b] == prev[b - 1]);
                    }
                }
            }
            i = i + 1;
        }
        assert(self@.summaries().subrange(0, i as int) =~= self@.summaries());
        Ok(out)
    }

    /// Whether `a` is shown before `b` because its latest notification is
    /// newer.
    fn shown_before(a: &Subscription, b: &Subscription) -> (r: bool)
        ensures
            r == (recency(a@.last_notification) > recency(b@.last_notification)),
    {
        match (a.last_notification, b.last_notification) {
            (Some(x), Some(y)) => x > y,
            (Some(_), None) => true,
            (None, _) => false,
        }
    }

    /// The subscription `id` with what the client shows of it.
    pub fn get_subscription_by_id(&self, id: &str) -> (r: Result<Option<Subscription>, AppError>)
        requires
            self.wf(),
        ensures
            r is Ok,
            opt_subscription(r->Ok_0) == match self@.subscription_row(id@) {
                Some(row) => Some(self@.summary(row)),
                None => None,
            },
    {
        match self.find_subscription(id) {
            Some(i) => {
                proof {
                    lemma_subscription_row(self@, i as int);
                }
                Ok(Some(self.summarize(i)))
            },
            None => Ok(None),
        }
    }

    /// The subscription `id` with what the client shows of it, and its
    /// watermark.
    pub fn get_subscription_with_last_sync(&self, id: &str) -> (r: Result<
        Option<(Subscription, Option<i64>)>,
        AppError,
    >)
        requires
            self.wf(),
        ensures
            r is Ok,
            match r->Ok_0 {
                Some((sub, last_sync)) => self@.subscription_row(id@) is Some && sub@
                    == self@.summary(self@.subscription_row(id@)->0) && last_sync
                    == self@.last_sync(id@),
                None => self@.subscription_row(id@) is None,
            },
    {
        match self.find_subscription(id) {
            Some(i) => {
                proof {
                    lemma_subscription_row(self@, i as int);
                    assert(self@.subscriptions[i as int] == self.subscriptions[i as int]@);
                }
                Ok(Some((self.summarize(i), self.subscriptions[i].last_sync)))
            },
            None => Ok(None),
        }
    }

    /// Moves the watermark of the subscription `id` up to `timestamp`.
    pub(crate) fn advance_last_sync(&mut self, id: &str, timestamp: i64)
        requires
            old(self).wf(),
        ensures
            final(self).wf(),
            final(self)@ == old(self)@.with_last_sync(id@, timestamp),
    {
        let ghost before = self@;
        let mut out: Vec<SubscriptionRow> = Vec::new();
        let mut i: usize = 0;
        while i < self.subscriptions.len()
            invariant
                i <= self.subscriptions.len(),
                self@ == before,
                out.len() == i,
                forall|j: int|
                    0 <= j < i ==> (#[trigger] out[j])@ == before.with_last_sync(
                        id@,
                        timestamp,
                    ).subscriptions[j],
            decreases self.subscriptions.len() - i,
        {
            let mut copy = self.subscriptions[i].clone();
            assert(before.subscriptions[i as int] == self.subscriptions[i as int]@);
            if str_eq(copy.id.as_str(), id) {
                copy.last_sync = match copy.last_sync {
                    Some(t) => if t >= timestamp {
                        Some(t)
                    } else {
                        Some(timestamp)
                    },
                    None => Some(timestamp),
                };
            }
            out.push(copy);
            i = i + 1;
        }
        self.subscriptions = out;
        proof {
            assert(self@.subscriptions =~= before.with_last_sync(id@, timestamp).subscriptions);
            assert(self@.servers == before.servers);
            assert(self@.notifications == before.notifications);
            assert(self@.settings == before.settings);
            lemma_same_keys_keep_rules(before, self@);
        }
    }

    /// Moves the watermark of the subscription `id` up to `timestamp`. A
    /// watermark that is there already and not smaller stays.
    pub fn update_subscription_last_sync(&mut self, id: &str, timestamp: i64) -> (r: Result<
        (),
        AppError,
    >)
        requires
            old(self).wf(),
        ensures
            final(self).wf(),
            final(self)@ == old(self)@.with_last_sync(id@, timestamp),
            r is Ok,
    {
        self.advance_last_sync(id, timestamp);
        Ok(())
    }

    /// Mutes the subscription `id` if it was not muted, and the other way
    /// round, and hands out the subscription as it is then. A subscription
    /// that is not kept is reported as missing.
    pub fn toggle_subscription_mute(&mut self, id: &str) -> (r: Result<Subscription, AppError>)
        requires
            old(self).wf(),
        ensures
            final(self).wf(),
            final(self)@ == old(self)@.with_mute_toggled(id@),
            match r {
                Ok(sub) => final(self)@.subscription_row(id@) is Some && sub@
                    == final(self)@.summary(final(self)@.subscription_row(id@)->0),
                Err(e) => !old(self)@.has_subscription(id@) && e@ == subscription_not_found(id@),
            },
    {
        let ghost before = self@;
        let mut out: Vec<SubscriptionRow> = Vec::new();
        let mut i: usize = 0;
        while i < self.subscriptions.len()
            invariant
                i <= self.subscriptions.len(),
                self@ == before,
                out.len() == i,
                forall|j: int|
                    0 <= j < i ==> (#[trigger] out[j])@ == before.with_mute_toggled(
                        id@,
                    ).subscriptions[j],
            decreases self.subscriptions.len() - i,
        {
            let mut copy = self.subscriptions[i].clone();
            assert(before.subscriptions[i as int] == self.subscriptions[i as int]@);
            if str_eq(copy.id.as_str(), id) {
                copy.muted = !copy.muted;
            }
            out.push(copy);
            i = i + 1;
        }
        self.subscriptions = out;
        proof {
            assert(self@.subscriptions =~= before.with_mute_toggled(id@).subscriptions);
            assert(self@.servers == before.servers);
            assert(self@.notifications == before.notifications);
            assert(self@.settings == before.settings);
            lemma_same_keys_keep_rules(before, self@);
        }
        match self.find_subscription(id) {
            Some(k) => {
                proof {
                    lemma_subscription_row(self@, k as int);
                }
                Ok(self.summarize(k))
            },
            None => {
                proof {
                    if before.has_subscription(id@) {
                        let k = choose|k: int|
                            0 <= k < before.subscriptions.len() && (
                            #[trigger] before.subscriptions[k]).id == id@;
                        assert(self@.subscriptions[k].id == id@);
                    }
                }
                Err(AppError::NotFound(concat3("Subscription ", id, " not found")))
            },
        }
    }

    /// Removes the subscription `id` and, with it, its notifications.
    pub fn delete_subscription(&mut self, id: &str) -> (r: Result<(), AppError>)
        requires
            old(self).wf(),
        ensures
            final(self).wf(),
            final(self)@ == old(self)@.without_subscription(id@),
            r is Ok,
    {
        let ghost before = self@;
        let ghost keep = other_subscription(id@);
        let mut out: Vec<SubscriptionRow> = Vec::new();
        let mut i: usize = 0;
        assert(before.subscriptions.subrange(0, 0) =~= Seq::empty());
        assert(Seq::<SubscriptionRowView>::empty().filter(keep) =~= Seq::empty()) by {
            reveal(Seq::filter);
        }
        while i < self.subscriptions.len()
            invariant
                i <= self.subscriptions.len(),
                self@ == before,
                keep == other_subscription(id@),
                subscription_rows(out@) == before.subscriptions.subrange(0, i as int).filter(keep),
            decreases self.subscriptions.len() - i,
        {
            let row = &self.subscriptions[i];
            let hit = str_eq(row.id.as_str(), id);
            proof {
                broadcast use Seq::lemma_filter_push;

                assert(before.subscriptions[i as int] == row@);
                assert(before.subscriptions.subrange(0, i + 1) =~= before.subscriptions.subrange(
                    0,
                    i as int,
                ).push(row@));
                assert(keep(row@) == !hit);
            }
            if !hit {
                let ghost prev = subscription_rows(out@);
                out.push(row.clone());
                assert(subscription_rows(out@) =~= prev.push(row@));
            }
            i = i + 1;
        }
        assert(before.subscriptions.subrange(0, i as int) =~= before.subscriptions);
        proof {
            lemma_cascade_keeps_rules(before, keep);
            lemma_cascade_of_one(before, id@);
            lemma_fewer_notifications_keep_rules(before, not_of(id@));
        }
        self.drop_notifications(true, id);
        self.subscriptions = out;
        proof {
            assert(self@.servers == before.servers);
            assert(self@.settings == before.settings);
            assert(self@.subscriptions == before.subscriptions.filter(keep));
            assert(self@.notifications == before.notifications.filter(not_of(id@)));
        }
        Ok(())
    }
}

} // verus!
