//! Operations on notifications.

use crate::db::connection::{Database, DatabaseView};
use crate::db::models::{notification_rows, NotificationRow, NotificationRowView};
use crate::error::{AppError, AppErrorView};
use crate::models::address::verdict_view;
use crate::models::notification::{Notification, NotificationView, NtfyMessage, NtfyMessageView};
use crate::seqs::{lemma_filter_from, lemma_filter_keeps, lemma_filter_pairwise, pairwise};
use crate::text::{clone_opt, concat3, opt_view, owned, str_eq};
use vstd::prelude::*;
use vstd::seq_lib::{to_multiset_build, to_multiset_insert};

verus! {

/// The notifications made from the server's message `ntfy_id`.
pub open spec fn made_from(ntfy_id: Seq<char>) -> spec_fn(NotificationRowView) -> bool {
    |r: NotificationRowView| r.ntfy_id == Some(ntfy_id)
}

/// The notifications of the subscription `subscription_id`.
pub open spec fn belongs_to(subscription_id: Seq<char>) -> spec_fn(NotificationRowView) -> bool {
    |r: NotificationRowView| r.notification.topic_id == subscription_id
}

/// The notifications of every subscription but `subscription_id`.
pub open spec fn not_of(subscription_id: Seq<char>) -> spec_fn(NotificationRowView) -> bool {
    |r: NotificationRowView| r.notification.topic_id != subscription_id
}

/// Every notification but the one with the identifier `id`.
pub open spec fn other_than(id: Seq<char>) -> spec_fn(NotificationRowView) -> bool {
    |r: NotificationRowView| r.notification.id != id
}

/// The unread notifications of the subscription `subscription_id`.
pub open spec fn unread_of(subscription_id: Seq<char>) -> spec_fn(NotificationRowView) -> bool {
    |r: NotificationRowView| r.notification.topic_id == subscription_id && !r.notification.read
}

/// The words that report a subscription as missing.
pub open spec fn subscription_not_found(id: Seq<char>) -> AppErrorView {
    AppErrorView::NotFound("Subscription "@ + id + " not found"@)
}

/// The favorites.
pub open spec fn favorites() -> spec_fn(NotificationRowView) -> bool {
    |r: NotificationRowView| r.notification.favorite
}

/// The notifications that rows hold.
pub open spec fn notes(rows: Seq<NotificationRowView>) -> Seq<NotificationView> {
    Seq::new(rows.len(), |i: int| rows[i].notification)
}

/// The views of a list of notifications.
pub open spec fn notification_views(s: Seq<Notification>) -> Seq<NotificationView> {
    Seq::new(s.len(), |i: int| s[i]@)
}

/// Whether no notification of a list is newer than one before it.
pub open spec fn newest_first(s: Seq<NotificationView>) -> bool {
    forall|a: int, b: int| 0 <= a < b < s.len() ==> (#[trigger] s[a]).timestamp >= (
    #[trigger] s[b]).timestamp
}

/// What a flag of a notification is set to.
pub enum Mark {
    Read,
    Expanded(bool),
    Favorite(bool),
}

impl NotificationRowView {
    /// The row with the flag set.
    pub open spec fn marked(self, mark: Mark) -> NotificationRowView {
        match mark {
            Mark::Read => self.with_read(true),
            Mark::Expanded(e) => self.with_expanded(e),
            Mark::Favorite(f) => self.with_favorite(f),
        }
    }

    /// Whether the row is the notification `key` or, with `by_subscription`,
    /// one of the subscription `key`.
    pub open spec fn selected(self, by_subscription: bool, key: Seq<char>) -> bool {
        if by_subscription {
            self.notification.topic_id == key
        } else {
            self.notification.id == key
        }
    }
}

impl NotificationRowView {
    /// The row, read or unread.
    pub open spec fn with_read(self, read: bool) -> NotificationRowView {
        NotificationRowView {
            notification: NotificationView { read, ..self.notification },
            ntfy_id: self.ntfy_id,
        }
    }

    /// The row, expanded or collapsed.
    pub open spec fn with_expanded(self, is_expanded: bool) -> NotificationRowView {
        NotificationRowView {
            notification: NotificationView { is_expanded, ..self.notification },
            ntfy_id: self.ntfy_id,
        }
    }

    /// The row, a favorite or not.
    pub open spec fn with_favorite(self, favorite: bool) -> NotificationRowView {
        NotificationRowView {
            notification: NotificationView { favorite, ..self.notification },
            ntfy_id: self.ntfy_id,
        }
    }
}

impl DatabaseView {
    /// How many notifications made from the server's message `ntfy_id` are
    /// kept.
    pub open spec fn count_ntfy_id(self, ntfy_id: Seq<char>) -> nat {
        self.notifications.filter(made_from(ntfy_id)).len()
    }

    /// Whether the notification `n`, made from the server's message
    /// `ntfy_id`, is added: not if one made from that message is kept, nor
    /// if its identifier is taken or its subscription is not kept.
    pub open spec fn accepts_message(self, n: NotificationView, ntfy_id: Seq<char>) -> bool {
        !self.has_ntfy_id(ntfy_id) && !self.has_notification(n.id) && self.has_subscription(
            n.topic_id,
        )
    }

    /// The records after the notification `n`, made from the server's
    /// message `ntfy_id`, was handed in: it is added at the end where it is
    /// accepted, and nothing changes where it is not.
    pub open spec fn with_message(self, n: NotificationView, ntfy_id: Seq<char>) -> DatabaseView {
        if self.accepts_message(n, ntfy_id) {
            DatabaseView {
                notifications: self.notifications.push(
                    NotificationRowView { notification: n, ntfy_id: Some(ntfy_id) },
                ),
                ..self
            }
        } else {
            self
        }
    }

    /// Whether the message `m`, received for the subscription
    /// `subscription_id`, is kept under the identifier `id`: it must be a
    /// message of a user with a time that milliseconds can hold, no
    /// notification made from it may be kept, the identifier must be free
    /// and the subscription kept.
    pub open spec fn delivers(
        self,
        subscription_id: Seq<char>,
        m: NtfyMessageView,
        id: Seq<char>,
    ) -> bool {
        m.is_user_message() && m.time_in_range() && !self.has_ntfy_id(m.id)
            && !self.has_notification(id) && self.has_subscription(subscription_id)
    }

    /// The records after the message `m` was received for the subscription
    /// `subscription_id`, on the live stream or from the backlog: where it
    /// is kept, its notification is added at the end under the identifier
    /// `id`, with its attached file under `attachment_id`.
    pub open spec fn with_delivery(
        self,
        subscription_id: Seq<char>,
        m: NtfyMessageView,
        id: Seq<char>,
        attachment_id: Seq<char>,
    ) -> DatabaseView {
        if self.delivers(subscription_id, m, id) {
            DatabaseView {
                notifications: self.notifications.push(
                    NotificationRowView {
                        notification: m.to_notification(subscription_id, id, attachment_id),
                        ntfy_id: Some(m.id),
                    },
                ),
                ..self
            }
        } else {
            self
        }
    }

    /// What handing in `n`, made from the message `ntfy_id`, reports. A
    /// notification that is passed over because its message has one
    /// already, or because its identifier is taken, is passed over in
    /// silence: that is no failure. One whose subscription is not kept is
    /// reported.
    pub open spec fn message_verdict(self, n: NotificationView, ntfy_id: Seq<char>) -> Result<
        (),
        AppErrorView,
    > {
        if !self.has_ntfy_id(ntfy_id) && !self.has_notification(n.id) && !self.has_subscription(
            n.topic_id,
        ) {
            Err(subscription_not_found(n.topic_id))
        } else {
            Ok(())
        }
    }

    /// The records after the notification `n`, which was made from no
    /// message of a server, was handed in: where its subscription is kept
    /// it takes the place of the one with its identifier, at the end.
    pub open spec fn with_notification(self, n: NotificationView) -> DatabaseView {
        if self.has_subscription(n.topic_id) {
            DatabaseView {
                notifications: self.notifications.filter(other_than(n.id)).push(
                    NotificationRowView { notification: n, ntfy_id: None },
                ),
                ..self
            }
        } else {
            self
        }
    }

    /// The records without the notification `id`.
    pub open spec fn without_notification(self, id: Seq<char>) -> DatabaseView {
        DatabaseView { notifications: self.notifications.filter(other_than(id)), ..self }
    }

    /// The server's identifier of the message that the notification `id`
    /// was made from, and the notification's subscription.
    pub open spec fn notification_meta(self, id: Seq<char>) -> Option<
        (Option<Seq<char>>, Seq<char>),
    > {
        if self.has_notification(id) {
            let i = choose|i: int|
                0 <= i < self.notifications.len() && (
                #[trigger] self.notifications[i]).notification.id == id;
            Some((self.notifications[i].ntfy_id, self.notifications[i].notification.topic_id))
        } else {
            None
        }
    }

    /// How many unread notifications the subscription `subscription_id` has.
    pub open spec fn unread_count(self, subscription_id: Seq<char>) -> nat {
        self.notifications.filter(unread_of(subscription_id)).len()
    }

    /// Whether the subscription `id` is kept and muted.
    pub open spec fn is_muted(self, id: Seq<char>) -> bool {
        exists|i: int|
            0 <= i < self.subscriptions.len() && (#[trigger] self.subscriptions[i]).id == id
                && self.subscriptions[i].muted
    }

    /// The unread notifications of the subscriptions that are not muted.
    pub open spec fn audible_unread(self) -> spec_fn(NotificationRowView) -> bool {
        |r: NotificationRowView| !r.notification.read && !self.is_muted(r.notification.topic_id)
    }

    /// How many unread notifications the subscriptions that are not muted
    /// have between them.
    pub open spec fn total_unread_count(self) -> nat {
        self.notifications.filter(self.audible_unread()).len()
    }

    /// The records with a flag set on the rows selected.
    pub open spec fn with_mark(
        self,
        by_subscription: bool,
        key: Seq<char>,
        mark: Mark,
    ) -> DatabaseView {
        DatabaseView {
            notifications: Seq::new(
                self.notifications.len(),
                |i: int|
                    if self.notifications[i].selected(by_subscription, key) {
                        self.notifications[i].marked(mark)
                    } else {
                        self.notifications[i]
                    },
            ),
            ..self
        }
    }
}

/// A count, as far as 32 bits with a sign hold it.
pub open spec fn clip_count(n: nat) -> int {
    if n > i32::MAX {
        i32::MAX as int
    } else {
        n as int
    }
}

/// Rows that differ only in their flags keep the records' rules.
pub proof fn lemma_flags_keep_rules(old: DatabaseView, new: DatabaseView)
    requires
        old.wf(),
        new.servers == old.servers,
        new.subscriptions == old.subscriptions,
        new.settings == old.settings,
        new.notifications.len() == old.notifications.len(),
        forall|i: int|
            0 <= i < old.notifications.len() ==> (#[trigger] new.notifications[i]).ntfy_id
                == old.notifications[i].ntfy_id && new.notifications[i].notification.id
                == old.notifications[i].notification.id
                && new.notifications[i].notification.topic_id
                == old.notifications[i].notification.topic_id,
    ensures
        new.wf(),
{
    assert forall|i: int| 0 <= i < new.notifications.len() implies new.has_subscription(
        (#[trigger] new.notifications[i]).notification.topic_id,
    ) by {
        assert(old.has_subscription(old.notifications[i].notification.topic_id));
    }
    assert forall|i: int, j: int| 0 <= i < j < new.notifications.len() implies (
    #[trigger] new.notifications[i]).notification.id != (
    #[trigger] new.notifications[j]).notification.id by {
        assert(old.notifications[i].notification.id != old.notifications[j].notification.id);
    }
    assert forall|i: int, j: int|
        0 <= i < j < new.notifications.len() && (#[trigger] new.notifications[i]).ntfy_id
            is Some implies new.notifications[i].ntfy_id != (
    #[trigger] new.notifications[j]).ntfy_id by {
        assert(old.notifications[i].ntfy_id != old.notifications[j].ntfy_id);
    }
}

/// Leaving notifications out keeps the records' rules.
pub proof fn lemma_fewer_notifications_keep_rules(
    old: DatabaseView,
    keep: spec_fn(NotificationRowView) -> bool,
)
    requires
        old.wf(),
    ensures
        (DatabaseView { notifications: old.notifications.filter(keep), ..old }).wf(),
{
    let kept = old.notifications.filter(keep);
    let new = DatabaseView { notifications: kept, ..old };
    let distinct_ids = |a: NotificationRowView, b: NotificationRowView|
        a.notification.id != b.notification.id;
    let distinct_messages = |a: NotificationRowView, b: NotificationRowView|
        a.ntfy_id is Some ==> a.ntfy_id != b.ntfy_id;
    assert(pairwise(old.notifications, distinct_ids));
    assert(pairwise(old.notifications, distinct_messages));
    lemma_filter_pairwise(old.notifications, keep, distinct_ids);
    lemma_filter_pairwise(old.notifications, keep, distinct_messages);
    assert forall|i: int| 0 <= i < kept.len() implies new.has_subscription(
        (#[trigger] kept[i]).notification.topic_id,
    ) by {
        lemma_filter_from(old.notifications, keep, i);
        let k = choose|k: int| 0 <= k < old.notifications.len() && old.notifications[k] == kept[i];
        assert(old.has_subscription(old.notifications[k].notification.topic_id));
    }
    assert forall|i: int, j: int| 0 <= i < j < kept.len() implies (
    #[trigger] kept[i]).notification.id != (#[trigger] kept[j]).notification.id by {
        assert(distinct_ids(kept[i], kept[j]));
    }
    assert forall|i: int, j: int|
        0 <= i < j < kept.len() && (#[trigger] kept[i]).ntfy_id is Some implies kept[i].ntfy_id
        != (#[trigger] kept[j]).ntfy_id by {
        assert(distinct_messages(kept[i], kept[j]));
    }
}

/// Under the records' rules no message of a server has two notifications,
/// and it has one exactly if one made from it is kept.
pub proof fn lemma_at_most_one_per_message(db: DatabaseView, ntfy_id: Seq<char>)
    requires
        db.wf(),
    ensures
        db.count_ntfy_id(ntfy_id) <= 1,
        db.count_ntfy_id(ntfy_id) == 1 <==> db.has_ntfy_id(ntfy_id),
{
    let same = db.notifications.filter(made_from(ntfy_id));
    let distinct_messages = |a: NotificationRowView, b: NotificationRowView|
        a.ntfy_id is Some ==> a.ntfy_id != b.ntfy_id;
    assert(pairwise(db.notifications, distinct_messages));
    lemma_filter_pairwise(db.notifications, made_from(ntfy_id), distinct_messages);
    if same.len() >= 2 {
        lemma_filter_from(db.notifications, made_from(ntfy_id), 0);
        lemma_filter_from(db.notifications, made_from(ntfy_id), 1);
        assert(distinct_messages(same[0], same[1]));
    }
    if same.len() >= 1 {
        lemma_filter_from(db.notifications, made_from(ntfy_id), 0);
        let k = choose|k: int| 0 <= k < db.notifications.len() && db.notifications[k] == same[0];
        assert(db.notifications[k].ntfy_id == Some(ntfy_id));
    }
    if db.has_ntfy_id(ntfy_id) {
        let k = choose|k: int|
            0 <= k < db.notifications.len() && (#[trigger] db.notifications[k]).ntfy_id == Some(
                ntfy_id,
            );
        lemma_filter_keeps(db.notifications, made_from(ntfy_id), k);
    }
}

impl Database {
    /// Where the subscription `id` is kept.
    pub(crate) fn find_subscription(&self, id: &str) -> (r: Option<usize>)
        ensures
            match r {
                Some(i) => i < self@.subscriptions.len() && self@.subscriptions[i as int].id == id@
                    && i < self.subscriptions.len(),
                None => !self@.has_subscription(id@),
            },
    {
        let mut i: usize = 0;
        while i < self.subscriptions.len()
            invariant
                i <= self.subscriptions.len(),
                forall|j: int| 0 <= j < i ==> (#[trigger] self@.subscriptions[j]).id != id@,
            decreases self.subscriptions.len() - i,
        {
            if str_eq(self.subscriptions[i].id.as_str(), id) {
                return Some(i);
            }
            i = i + 1;
        }
        None
    }

    /// Where the notification `id` is kept.
    pub(crate) fn find_notification(&self, id: &str) -> (r: Option<usize>)
        ensures
            match r {
                Some(i) => i < self@.notifications.len() && self@.notifications[i as int].notification.id
                    == id@ && i < self.notifications.len(),
                None => !self@.has_notification(id@),
            },
    {
        let mut i: usize = 0;
        while i < self.notifications.len()
            invariant
                i <= self.notifications.len(),
                forall|j: int|
                    0 <= j < i ==> (#[trigger] self@.notifications[j]).notification.id != id@,
            decreases self.notifications.len() - i,
        {
            if str_eq(self.notifications[i].notification.id.as_str(), id) {
                return Some(i);
            }
            i = i + 1;
        }
        None
    }

    /// Whether a notification made from the server's message `ntfy_id` is
    /// kept.
    pub(crate) fn has_message(&self, ntfy_id: &str) -> (r: bool)
        ensures
            r == self@.has_ntfy_id(ntfy_id@),
    {
        let mut i: usize = 0;
        while i < self.notifications.len()
            invariant
                i <= self.notifications.len(),
                forall|j: int|
                    0 <= j < i ==> (#[trigger] self@.notifications[j]).ntfy_id != Some(ntfy_id@),
            decreases self.notifications.len() - i,
        {
            let found = match &self.notifications[i].ntfy_id {
                Some(m) => str_eq(m.as_str(), ntfy_id),
                None => false,
            };
            if found {
                assert(self@.notifications[i as int].ntfy_id == Some(ntfy_id@));
                return true;
            }
            i = i + 1;
        }
        false
    }

    /// Whether a notification made from the server's message `ntfy_id` is
    /// kept.
    pub fn notification_exists_by_ntfy_id(&self, ntfy_id: &str) -> (r: Result<bool, AppError>)
        ensures
            r == Ok::<bool, AppError>(self@.has_ntfy_id(ntfy_id@)),
    {
        Ok(self.has_message(ntfy_id))
    }

    /// Hands in a notification made from the server's message `ntfy_id`,
    /// in one step. It is kept unless one made from that message is kept
    /// already: the second of two is passed over in silence, and so is one
    /// whose own identifier is taken.
    pub fn insert_notification_with_ntfy_id(
        &mut self,
        notification: &Notification,
        ntfy_id: &str,
    ) -> (r: Result<(), AppError>)
        requires
            old(self).wf(),
        ensures
            final(self).wf(),
            final(self)@ == old(self)@.with_message(notification@, ntfy_id@),
            verdict_view(r) == old(self)@.message_verdict(notification@, ntfy_id@),
    {
        if self.has_message(ntfy_id) {
            return Ok(());
        }
        if self.find_notification(notification.id.as_str()).is_some() {
            return Ok(());
        }
        if self.find_subscription(notification.topic_id.as_str()).is_none() {
            return Err(
                AppError::NotFound(
                    concat3("Subscription ", notification.topic_id.as_str(), " not found"),
                ),
            );
        }
        self.accept(notification.clone(), ntfy_id);
        Ok(())
    }

    /// Adds a notification made from the server's message `ntfy_id` that
    /// is accepted.
    fn accept(&mut self, notification: Notification, ntfy_id: &str)
        requires
            old(self).wf(),
            old(self)@.accepts_message(notification@, ntfy_id@),
        ensures
            final(self).wf(),
            final(self)@ == old(self)@.with_message(notification@, ntfy_id@),
    {
        let ghost before = self@;
        let ghost row = NotificationRowView {
            notification: notification@,
            ntfy_id: Some(ntfy_id@),
        };
        self.notifications.push(NotificationRow { notification, ntfy_id: Some(owned(ntfy_id)) });
        proof {
            assert(self@.notifications =~= before.notifications.push(row));
            assert(self@.servers == before.servers);
            assert(self@.subscriptions == before.subscriptions);
            assert(self@.settings == before.settings);
            assert forall|i: int| 0 <= i < self@.notifications.len() implies self@.has_subscription(
                (#[trigger] self@.notifications[i]).notification.topic_id,
            ) by {
                if i < before.notifications.len() {
                    assert(before.has_subscription(before.notifications[i].notification.topic_id));
                }
            }
        }
    }

    /// Receives the message `message` for the subscription
    /// `subscription_id`: the one way in which a message of a server
    /// becomes a notification, whether it came on the live stream or from
    /// the backlog. The notification is handed back where it is kept.
    pub fn deliver(
        &mut self,
        subscription_id: &str,
        message: &NtfyMessage,
        id: String,
        attachment_id: String,
    ) -> (r: Option<Notification>)
        requires
            old(self).wf(),
        ensures
            final(self).wf(),
            final(self)@ == old(self)@.with_delivery(
                subscription_id@,
                message@,
                id@,
                attachment_id@,
            ),
            match r {
                Some(n) => old(self)@.delivers(subscription_id@, message@, id@) && n@
                    == message@.to_notification(subscription_id@, id@, attachment_id@),
                None => !old(self)@.delivers(subscription_id@, message@, id@),
            },
    {
        if !message.is_user_message() || !message.time_in_range() {
            return None;
        }
        if self.has_message(message.ntfy_id()) || self.find_notification(id.as_str()).is_some()
            || self.find_subscription(subscription_id).is_none() {
            return None;
        }
        let notification = message.clone().into_notification_with_ids(
            owned(subscription_id),
            id,
            attachment_id,
        );
        self.accept(notification.clone(), message.ntfy_id());
        Some(notification)
    }

    /// Sets a flag on the rows selected.
    fn mark(&mut self, by_subscription: bool, key: &str, mark: Mark)
        requires
            old(self).wf(),
        ensures
            final(self).wf(),
            final(self)@ == old(self)@.with_mark(by_subscription, key@, mark),
    {
        let ghost before = self@;
        let mut out: Vec<NotificationRow> = Vec::new();
        let mut i: usize = 0;
        while i < self.notifications.len()
            invariant
                i <= self.notifications.len(),
                self@ == before,
                out.len() == i,
                forall|j: int|
                    0 <= j < i ==> (#[trigger] out[j])@ == before.with_mark(
                        by_subscription,
                        key@,
                        mark,
                    ).notifications[j],
            decreases self.notifications.len() - i,
        {
            let row = &self.notifications[i];
            let hit = if by_subscription {
                str_eq(row.notification.topic_id.as_str(), key)
            } else {
                str_eq(row.notification.id.as_str(), key)
            };
            let mut copy = row.clone();
            if hit {
                match mark {
                    Mark::Read => {
                        copy.notification.read = true;
                    },
                    Mark::Expanded(e) => {
                        copy.notification.is_expanded = e;
                    },
                    Mark::Favorite(f) => {
                        copy.notification.favorite = f;
                    },
                }
            }
            assert(before.notifications[i as int] == self.notifications[i as int]@);
            out.push(copy);
            i = i + 1;
        }
        self.notifications = out;
        proof {
            let want = before.with_mark(by_subscription, key@, mark);
            assert(self@.notifications =~= want.notifications);
            assert(self@.servers == before.servers);
            assert(self@.subscriptions == before.subscriptions);
            assert(self@.settings == before.settings);
            lemma_flags_keep_rules(before, self@);
        }
    }

    /// Removes the notification `key` or, with `by_subscription`, every
    /// notification of the subscription `key`.
    pub(crate) fn drop_notifications(&mut self, by_subscription: bool, key: &str)
        requires
            old(self).wf(),
        ensures
            final(self).wf(),
            final(self)@ == (DatabaseView {
                notifications: old(self)@.notifications.filter(
                    if by_subscription {
                        not_of(key@)
                    } else {
                        other_than(key@)
                    },
                ),
                ..old(self)@
            }),
    {
        let ghost before = self@;
        let ghost keep = if by_subscription {
            not_of(key@)
        } else {
            other_than(key@)
        };
        let mut out: Vec<NotificationRow> = Vec::new();
        let mut i: usize = 0;
        assert(before.notifications.subrange(0, 0) =~= Seq::empty());
        assert(Seq::<NotificationRowView>::empty().filter(keep) =~= Seq::empty()) by {
            reveal(Seq::filter);
        }
        while i < self.notifications.len()
            invariant
                i <= self.notifications.len(),
                self@ == before,
                keep == if by_subscription {
                    not_of(key@)
                } else {
                    other_than(key@)
                },
                notification_rows(out@) == before.notifications.subrange(0, i as int).filter(keep),
            decreases self.notifications.len() - i,
        {
            let row = &self.notifications[i];
            let hit = if by_subscription {
                str_eq(row.notification.topic_id.as_str(), key)
            } else {
                str_eq(row.notification.id.as_str(), key)
            };
            proof {
                broadcast use Seq::lemma_filter_push;

                assert(before.notifications[i as int] == row@);
                assert(before.notifications.subrange(0, i + 1) =~= before.notifications.subrange(
                    0,
                    i as int,
                ).push(row@));
                assert(keep(row@) == !hit);
            }
            if !hit {
                let ghost prev = notification_rows(out@);
                out.push(row.clone());
                assert(notification_rows(out@) =~= prev.push(row@));
            }
            i = i + 1;
        }
        assert(before.notifications.subrange(0, i as int) =~= before.notifications);
        self.notifications = out;
        proof {
            assert(self@.notifications == before.notifications.filter(keep));
            assert(self@.servers == before.servers);
            assert(self@.subscriptions == before.subscriptions);
            assert(self@.settings == before.settings);
            lemma_fewer_notifications_keep_rules(before, keep);
        }
    }

    /// Hands in a notification that was made from no message of a server.
    /// It takes the place of the notification with its identifier.
    pub fn insert_notification(&mut self, notification: &Notification) -> (r: Result<(), AppError>)
        requires
            old(self).wf(),
        ensures
            final(self).wf(),
            final(self)@ == old(self)@.with_notification(notification@),
            verdict_view(r) == if old(self)@.has_subscription(notification@.topic_id) {
                Ok::<(), AppErrorView>(())
            } else {
                Err::<(), AppErrorView>(subscription_not_found(notification@.topic_id))
            },
    {
        if self.find_subscription(notification.topic_id.as_str()).is_none() {
            return Err(
                AppError::NotFound(
                    concat3("Subscription ", notification.topic_id.as_str(), " not found"),
                ),
            );
        }
        let ghost before = self@;
        self.drop_notifications(false, notification.id.as_str());
        let ghost middle = self@;
        self.notifications.push(
            NotificationRow { notification: notification.clone(), ntfy_id: None },
        );
        proof {
            let row = NotificationRowView { notification: notification@, ntfy_id: None };
            assert(self@.notifications =~= middle.notifications.push(row));
            assert(self@.servers == before.servers);
            assert(self@.subscriptions == before.subscriptions);
            assert(self@.settings == before.settings);
            assert forall|i: int| 0 <= i < middle.notifications.len() implies (
            #[trigger] middle.notifications[i]).notification.id != notification@.id by {
                lemma_filter_from(before.notifications, other_than(notification@.id), i);
            }
            assert forall|i: int| 0 <= i < self@.notifications.len() implies self@.has_subscription(
                (#[trigger] self@.notifications[i]).notification.topic_id,
            ) by {
                if i < middle.notifications.len() {
                    assert(middle.has_subscription(middle.notifications[i].notification.topic_id));
                }
            }
        }
        Ok(())
    }

    /// Marks the notification `id` as read.
    pub fn mark_notification_read(&mut self, id: &str) -> (r: Result<(), AppError>)
        requires
            old(self).wf(),
        ensures
            final(self).wf(),
            final(self)@ == old(self)@.with_mark(false, id@, Mark::Read),
            r is Ok,
    {
        self.mark(false, id, Mark::Read);
        Ok(())
    }

    /// Marks every notification of the subscription `subscription_id` as
    /// read.
    pub fn mark_all_notifications_read(&mut self, subscription_id: &str) -> (r: Result<
        (),
        AppError,
    >)
        requires
            old(self).wf(),
        ensures
            final(self).wf(),
            final(self)@ == old(self)@.with_mark(true, subscription_id@, Mark::Read),
            r is Ok,
    {
        self.mark(true, subscription_id, Mark::Read);
        Ok(())
    }

    /// Expands or collapses the notification `id`.
    pub fn set_notification_expanded(&mut self, id: &str, expanded: bool) -> (r: Result<
        (),
        AppError,
    >)
        requires
            old(self).wf(),
        ensures
            final(self).wf(),
            final(self)@ == old(self)@.with_mark(false, id@, Mark::Expanded(expanded)),
            r is Ok,
    {
        self.mark(false, id, Mark::Expanded(expanded));
        Ok(())
    }

    /// Makes the notification `id` a favorite, or no favorite.
    pub fn set_notification_favorite(&mut self, id: &str, favorite: bool) -> (r: Result<
        (),
        AppError,
    >)
        requires
            old(self).wf(),
        ensures
            final(self).wf(),
            final(self)@ == old(self)@.with_mark(false, id@, Mark::Favorite(favorite)),
            r is Ok,
    {
        self.mark(false, id, Mark::Favorite(favorite));
        Ok(())
    }

    /// Removes the notification `id`.
    pub fn delete_notification(&mut self, id: &str) -> (r: Result<(), AppError>)
        requires
            old(self).wf(),
        ensures
            final(self).wf(),
            final(self)@ == old(self)@.without_notification(id@),
            r is Ok,
    {
        self.drop_notifications(false, id);
        Ok(())
    }

    /// The server's identifier of the message that the notification `id`
    /// was made from, and the notification's subscription; `None` where no
    /// such notification is kept.
    pub fn get_notification_meta(&self, id: &str) -> (r: Result<
        Option<(Option<String>, String)>,
        AppError,
    >)
        requires
            self.wf(),
        ensures
            r is Ok,
            match r->Ok_0 {
                Some((ntfy_id, subscription_id)) => self@.notification_meta(id@) == Some(
                    (opt_view(ntfy_id), subscription_id@),
                ),
                None => self@.notification_meta(id@) is None,
            },
    {
        match self.find_notification(id) {
            Some(i) => {
                let row = &self.notifications[i];
                proof {
                    let k = choose|k: int|
                        0 <= k < self@.notifications.len() && (
                        #[trigger] self@.notifications[k]).notification.id == id@;
                    if k < i {
                        assert(self@.notifications[k].notification.id
                            != self@.notifications[i as int].notification.id);
                    }
                    if i < k {
                        assert(self@.notifications[i as int].notification.id
                            != self@.notifications[k].notification.id);
                    }
                    assert(k == i);
                }
                Ok(Some((clone_opt(&row.ntfy_id), row.notification.topic_id.clone())))
            },
            None => Ok(None),
        }
    }

    /// How many unread notifications the subscription `subscription_id`
    /// has.
    pub fn get_unread_count(&self, subscription_id: &str) -> (r: Result<i32, AppError>)
        ensures
            r is Ok,
            r->Ok_0 == clip_count(self@.unread_count(subscription_id@)),
    {
        let ghost keep = unread_of(subscription_id@);
        let mut count: i32 = 0;
        let mut i: usize = 0;
        assert(self@.notifications.subrange(0, 0) =~= Seq::empty());
        assert(Seq::<NotificationRowView>::empty().filter(keep) =~= Seq::empty()) by {
            reveal(Seq::filter);
        }
        while i < self.notifications.len()
            invariant
                i <= self.notifications.len(),
                keep == unread_of(subscription_id@),
                count == clip_count(self@.notifications.subrange(0, i as int).filter(keep).len()),
            decreases self.notifications.len() - i,
        {
            let row = &self.notifications[i];
            let hit = !row.notification.read && str_eq(
                row.notification.topic_id.as_str(),
                subscription_id,
            );
            proof {
                broadcast use Seq::lemma_filter_push;

                assert(self@.notifications[i as int] == row@);
                assert(self@.notifications.subrange(0, i + 1) =~= self@.notifications.subrange(
                    0,
                    i as int,
                ).push(row@));
                assert(keep(row@) == hit);
            }
            if hit && count < i32::MAX {
                count = count + 1;
            }
            i = i + 1;
        }
        assert(self@.notifications.subrange(0, i as int) =~= self@.notifications);
        Ok(count)
    }

    /// How many unread notifications the subscriptions that are not muted
    /// have between them.
    pub fn get_total_unread_count(&self) -> (r: Result<i32, AppError>)
        requires
            self.wf(),
        ensures
            r is Ok,
            r->Ok_0 == clip_count(self@.total_unread_count()),
    {
        let ghost keep = self@.audible_unread();
        let mut count: i32 = 0;
        let mut i: usize = 0;
        assert(self@.notifications.subrange(0, 0) =~= Seq::empty());
        assert(Seq::<NotificationRowView>::empty().filter(keep) =~= Seq::empty()) by {
            reveal(Seq::filter);
        }
        while i < self.notifications.len()
            invariant
                i <= self.notifications.len(),
                self.wf(),
                keep == self@.audible_unread(),
                count == clip_count(self@.notifications.subrange(0, i as int).filter(keep).len()),
            decreases self.notifications.len() - i,
        {
            let row = &self.notifications[i];
            let muted = match self.find_subscription(row.notification.topic_id.as_str()) {
                Some(k) => {
                    proof {
                        let id = row@.notification.topic_id;
                        if self@.is_muted(id) {
                            let m = choose|m: int|
                                0 <= m < self@.subscriptions.len() && (
                                #[trigger] self@.subscriptions[m]).id == id
                                    && self@.subscriptions[m].muted;
                            if m < k {
                                assert(self@.subscriptions[m].id != self@.subscriptions[k as int].id);
                            }
                            if k < m {
                                assert(self@.subscriptions[k as int].id != self@.subscriptions[m].id);
                            }
                        }
                        assert(self@.subscriptions[k as int] == self.subscriptions[k as int]@);
                    }
                    self.subscriptions[k].muted
                },
                None => false,
            };
            let hit = !row.notification.read && !muted;
            proof {
                broadcast use Seq::lemma_filter_push;

                assert(self@.notifications[i as int] == row@);
                assert(self@.notifications.subrange(0, i + 1) =~= self@.notifications.subrange(
                    0,
                    i as int,
                ).push(row@));
                assert(keep(row@) == hit);
            }
            if hit && count < i32::MAX {
                count = count + 1;
            }
            i = i + 1;
        }
        assert(self@.notifications.subrange(0, i as int) =~= self@.notifications);
        Ok(count)
    }

    /// The favorites or, with `by_subscription`, the notifications of the
    /// subscription `key`, the newest first.
    fn select_newest_first(&self, by_subscription: bool, key: &str) -> (r: Vec<Notification>)
        ensures
            newest_first(notification_views(r@)),
            notification_views(r@).to_multiset() == notes(
                self@.notifications.filter(
                    if by_subscription {
                        belongs_to(key@)
                    } else {
                        favorites()
                    },
                ),
            ).to_multiset(),
    {
        let ghost keep = if by_subscription {
            belongs_to(key@)
        } else {
            favorites()
        };
        let mut out: Vec<Notification> = Vec::new();
        let mut i: usize = 0;
        assert(self@.notifications.subrange(0, 0) =~= Seq::empty());
        assert(Seq::<NotificationRowView>::empty().filter(keep) =~= Seq::empty()) by {
            reveal(Seq::filter);
        }
        assert(notification_views(out@) =~= notes(Seq::empty()));
        while i < self.notifications.len()
            invariant
                i <= self.notifications.len(),
                keep == if by_subscription {
                    belongs_to(key@)
                } else {
                    favorites()
                },
                newest_first(notification_views(out@)),
                notification_views(out@).to_multiset() == notes(
                    self@.notifications.subrange(0, i as int).filter(keep),
                ).to_multiset(),
            decreases self.notifications.len() - i,
        {
            let row = &self.notifications[i];
            let hit = if by_subscription {
                str_eq(row.notification.topic_id.as_str(), key)
            } else {
                row.notification.favorite
            };
            let ghost seen = self@.notifications.subrange(0, i as int).filter(keep);
            proof {
                broadcast use Seq::lemma_filter_push;

                assert(self@.notifications[i as int] == row@);
                assert(self@.notifications.subrange(0, i + 1) =~= self@.notifications.subrange(
                    0,
                    i as int,
                ).push(row@));
                assert(keep(row@) == hit);
            }
            if hit {
                let mut p: usize = 0;
                while p < out.len() && out[p].timestamp >= row.notification.timestamp
                    invariant
                        p <= out.len(),
                        forall|a: int|
                            0 <= a < p ==> (#[trigger] out[a]).timestamp
                                >= row.notification.timestamp,
                    decreases out.len() - p,
                {
                    p = p + 1;
                }
                let ghost prev = notification_views(out@);
                out.insert(p, row.notification.clone());
                proof {
                    broadcast use {to_multiset_insert, to_multiset_build};

                    let now = notification_views(out@);
                    assert(now =~= prev.insert(p as int, row@.notification));
                    assert(notes(seen.push(row@)) =~= notes(seen).push(row@.notification));
                    assert forall|a: int, b: int| 0 <= a < b < now.len() implies (
                    #[trigger] now[a]).timestamp >= (#[trigger] now[b]).timestamp by {
                        if b < p {
                            assert(now[a] == prev[a] && now[b] == prev[b]);
                        } else if b == p {
                            assert(now[a] == prev[a]);
                        } else if a < p {
                            assert(now[a] == prev[a] && now[b] == prev[b - 1]);
                        } else if a == p {
                            assert(now[b] == prev[b - 1]);
                            assert(prev[p as int].timestamp < row@.notification.timestamp);
                            if b - 1 > p {
                                assert(prev[p as int].timestamp >= prev[b - 1].timestamp);
                            }
                        } else {
                            assert(now[a] == prev[a - 1] && now[b] == prev[b - 1]);
                        }
                    }
                }
            }
            i = i + 1;
        }
        assert(self@.notifications.subrange(0, i as int) =~= self@.notifications);
        out
    }

    /// The notifications of the subscription `subscription_id`, the newest
    /// first.
    pub fn get_notifications_by_subscription(&self, subscription_id: &str) -> (r: Result<
        Vec<Notification>,
        AppError,
    >)
        ensures
            r is Ok,
            newest_first(notification_views(r->Ok_0@)),
            notification_views(r->Ok_0@).to_multiset() == notes(
                self@.notifications.filter(belongs_to(subscription_id@)),
            ).to_multiset(),
    {
        Ok(self.select_newest_first(true, subscription_id))
    }

    /// The favorites, the newest first.
    pub fn get_favorite_notifications(&self) -> (r: Result<Vec<Notification>, AppError>)
        ensures
            r is Ok,
            newest_first(notification_views(r->Ok_0@)),
            notification_views(r->Ok_0@).to_multiset() == notes(
                self@.notifications.filter(favorites()),
            ).to_multiset(),
    {
        Ok(self.select_newest_first(false, ""))
    }
}

} // verus!
