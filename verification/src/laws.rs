//! What holds of the client's records and of the connection supervisor
//! whatever the order of events.

use crate::db::connection::DatabaseView;
use crate::db::models::NotificationRowView;
use crate::db::queries::notifications::{belongs_to, lemma_at_most_one_per_message};
use crate::db::queries::servers::{
    lemma_without_server_keeps_rules, not_on_server, other_server,
};
use crate::seqs::{lemma_filter_from, lemma_filter_keeps};
use crate::db::queries::subscriptions::{lemma_same_keys_keep_rules, lemma_subscription_row};
use crate::models::notification::{NotificationView, NtfyMessageView};
use crate::models::server_url::{law_trailing_slash_ignored, normalized, same_url};
use crate::models::subscription::CreateSubscriptionView;
use crate::services::connection_manager::{ws_url, ConnectionManagerView};
use crate::text::starts_with;
use crate::services::connection_task::{
    transition, ConnectionActionView, ConnectionEventView, ConnectionState,
};
use crate::db::queries::servers::server_not_found;
use crate::error::AppErrorView;
use crate::models::settings::ServerConfigView;
use crate::services::ntfy_client::NtfySubscriptionView;
use crate::services::sync_service::{
    account_applied, checkpoint_floor, demand_credentials, highest_time, is_new_listing,
    lemma_deliveries_keep_rules, lemma_delivery_keeps_rules, lemma_highest_time_in_range,
    listed_request, SyncState,
};
use crate::models::address::url_parse;
use crate::models::server_url::lemma_normalized_idempotent;
use vstd::prelude::*;

verus! {

/// Handing in a notification made from a message of a server keeps the
/// records' rules.
pub proof fn lemma_message_keeps_rules(db: DatabaseView, n: NotificationView, ntfy_id: Seq<char>)
    requires
        db.wf(),
    ensures
        db.with_message(n, ntfy_id).wf(),
        db.accepts_message(n, ntfy_id) ==> db.with_message(n, ntfy_id).has_ntfy_id(ntfy_id),
        db.has_ntfy_id(ntfy_id) ==> db.with_message(n, ntfy_id) == db,
{
    let new = db.with_message(n, ntfy_id);
    if db.accepts_message(n, ntfy_id) {
        assert forall|i: int| 0 <= i < new.notifications.len() implies new.has_subscription(
            (#[trigger] new.notifications[i]).notification.topic_id,
        ) by {
            if i < db.notifications.len() {
                assert(db.has_subscription(db.notifications[i].notification.topic_id));
            }
        }
        assert(new.notifications[db.notifications.len() as int].ntfy_id == Some(ntfy_id));
    }
}

/// A notification that is kept stays kept when another is handed in.
pub proof fn lemma_message_stays(
    db: DatabaseView,
    n: NotificationView,
    ntfy_id: Seq<char>,
    kept: Seq<char>,
)
    requires
        db.has_ntfy_id(kept),
    ensures
        db.with_message(n, ntfy_id).has_ntfy_id(kept),
{
    let k = choose|k: int|
        0 <= k < db.notifications.len() && (#[trigger] db.notifications[k]).ntfy_id == Some(kept);
    assert(db.with_message(n, ntfy_id).notifications[k].ntfy_id == Some(kept));
}

/// Idempotent insert. When two notifications made from one message of a
/// server are handed in, with any third one handed in between them, the
/// records hold at most one notification of that message. They hold one
/// exactly if the message had one before, or one of the two can be kept;
/// the second of the two never changes what the first left.
pub proof fn law_idempotent_insert(
    db: DatabaseView,
    first: NotificationView,
    between: NotificationView,
    between_id: Seq<char>,
    second: NotificationView,
    ntfy_id: Seq<char>,
)
    requires
        db.wf(),
    ensures
        ({
            let one = db.with_message(first, ntfy_id);
            let two = one.with_message(between, between_id);
            let three = two.with_message(second, ntfy_id);
            let both = one.with_message(second, ntfy_id);
            &&& three.wf() && both.wf()
            &&& three.count_ntfy_id(ntfy_id) <= 1
            &&& both.count_ntfy_id(ntfy_id) <= 1
            &&& both.count_ntfy_id(ntfy_id) == 1 <==> db.has_ntfy_id(ntfy_id)
                || db.accepts_message(first, ntfy_id) || db.accepts_message(second, ntfy_id)
            &&& db.has_ntfy_id(ntfy_id) || db.accepts_message(first, ntfy_id) ==> both == one
                && three == two && three.count_ntfy_id(ntfy_id) == 1 && one.message_verdict(
                second,
                ntfy_id,
            ) is Ok && two.message_verdict(second, ntfy_id) is Ok
            &&& !db.accepts_message(first, ntfy_id) ==> one == db
        }),
{
    let one = db.with_message(first, ntfy_id);
    let two = one.with_message(between, between_id);
    let three = two.with_message(second, ntfy_id);
    let both = one.with_message(second, ntfy_id);
    lemma_message_keeps_rules(db, first, ntfy_id);
    lemma_message_keeps_rules(one, between, between_id);
    lemma_message_keeps_rules(two, second, ntfy_id);
    lemma_message_keeps_rules(one, second, ntfy_id);
    lemma_at_most_one_per_message(three, ntfy_id);
    lemma_at_most_one_per_message(both, ntfy_id);
    lemma_at_most_one_per_message(one, ntfy_id);
    if one.has_ntfy_id(ntfy_id) {
        lemma_message_stays(one, between, between_id, ntfy_id);
    }
    if db.has_ntfy_id(ntfy_id) {
        lemma_message_stays(db, first, ntfy_id, ntfy_id);
    }
}

/// Two inserts of one message are as one after the other. Where the
/// message has no notification yet and the two notifications made from it
/// belong to kept subscriptions, handing in both, in either order,
/// reports no failure and leaves at most one notification of the message.
/// It leaves exactly one where the identifier of one of the two is free:
/// the one handed in first, or the other where the identifier of the
/// first is taken. Every insert is one step on the records, so two tasks
/// that hand them in at once do so in one of these two orders.
pub proof fn law_inserts_of_one_message_serialize(
    db: DatabaseView,
    a: NotificationView,
    b: NotificationView,
    ntfy_id: Seq<char>,
)
    requires
        db.wf(),
        !db.has_ntfy_id(ntfy_id),
        db.has_subscription(a.topic_id),
        db.has_subscription(b.topic_id),
    ensures
        ({
            let one_a = db.with_message(a, ntfy_id);
            let one_b = db.with_message(b, ntfy_id);
            let a_first = one_a.with_message(b, ntfy_id);
            let b_first = one_b.with_message(a, ntfy_id);
            let row_a = NotificationRowView { notification: a, ntfy_id: Some(ntfy_id) };
            let row_b = NotificationRowView { notification: b, ntfy_id: Some(ntfy_id) };
            &&& db.message_verdict(a, ntfy_id) is Ok
            &&& one_a.message_verdict(b, ntfy_id) is Ok
            &&& db.message_verdict(b, ntfy_id) is Ok
            &&& one_b.message_verdict(a, ntfy_id) is Ok
            &&& a_first.wf() && b_first.wf()
            &&& a_first.count_ntfy_id(ntfy_id) <= 1
            &&& b_first.count_ntfy_id(ntfy_id) <= 1
            &&& !db.has_notification(a.id) ==> a_first.notifications == db.notifications.push(
                row_a,
            ) && a_first.count_ntfy_id(ntfy_id) == 1
            &&& !db.has_notification(b.id) ==> b_first.notifications == db.notifications.push(
                row_b,
            ) && b_first.count_ntfy_id(ntfy_id) == 1
            &&& db.has_notification(a.id) && !db.has_notification(b.id) ==> a_first.notifications
                == db.notifications.push(row_b) && a_first.count_ntfy_id(ntfy_id) == 1
            &&& db.has_notification(b.id) && !db.has_notification(a.id) ==> b_first.notifications
                == db.notifications.push(row_a) && b_first.count_ntfy_id(ntfy_id) == 1
            &&& db.has_notification(a.id) && db.has_notification(b.id) ==> a_first == db && b_first
                == db
        }),
{
    let one_a = db.with_message(a, ntfy_id);
    let one_b = db.with_message(b, ntfy_id);
    let a_first = one_a.with_message(b, ntfy_id);
    let b_first = one_b.with_message(a, ntfy_id);
    lemma_message_keeps_rules(db, a, ntfy_id);
    lemma_message_keeps_rules(db, b, ntfy_id);
    lemma_message_keeps_rules(one_a, b, ntfy_id);
    lemma_message_keeps_rules(one_b, a, ntfy_id);
    lemma_at_most_one_per_message(a_first, ntfy_id);
    lemma_at_most_one_per_message(b_first, ntfy_id);
    assert(one_a.has_subscription(b.topic_id)) by {
        let k = choose|k: int|
            0 <= k < db.subscriptions.len() && (#[trigger] db.subscriptions[k]).id == b.topic_id;
        assert(one_a.subscriptions[k].id == b.topic_id);
    }
    assert(one_b.has_subscription(a.topic_id)) by {
        let k = choose|k: int|
            0 <= k < db.subscriptions.len() && (#[trigger] db.subscriptions[k]).id == a.topic_id;
        assert(one_b.subscriptions[k].id == a.topic_id);
    }
}

/// Under the records' rules, which every operation keeps, no message of a
/// server has two notifications.
pub proof fn law_one_notification_per_message(db: DatabaseView, ntfy_id: Seq<char>)
    requires
        db.wf(),
    ensures
        db.count_ntfy_id(ntfy_id) <= 1,
{
    lemma_at_most_one_per_message(db, ntfy_id);
}

/// Moving a watermark up changes the watermark of that subscription
/// alone, and never lowers it.
pub proof fn lemma_last_sync_moves_up(db: DatabaseView, id: Seq<char>, timestamp: i64)
    requires
        db.wf(),
        db.has_subscription(id),
    ensures
        db.with_last_sync(id, timestamp).wf(),
        db.with_last_sync(id, timestamp).has_subscription(id),
        db.with_last_sync(id, timestamp).last_sync(id) == match db.last_sync(id) {
            Some(t) => if t >= timestamp {
                Some(t)
            } else {
                Some(timestamp)
            },
            None => Some(timestamp),
        },
{
    let new = db.with_last_sync(id, timestamp);
    lemma_same_keys_keep_rules(db, new);
    let k = choose|k: int|
        0 <= k < db.subscriptions.len() && (#[trigger] db.subscriptions[k]).id == id;
    lemma_subscription_row(db, k);
    assert(new.subscriptions[k].id == id);
    lemma_subscription_row(new, k);
}

/// Checkpoint monotonicity. A fetch of the backlog of a subscription
/// never lowers the subscription's watermark. It sets the watermark to
/// one more than the later of the time of the fetch and the latest time
/// of the messages fetched, unless the watermark was beyond that already.
pub proof fn law_checkpoint_monotonic(
    db: DatabaseView,
    subscription_id: Seq<char>,
    messages: Seq<NtfyMessageView>,
    ids: Seq<(Seq<char>, Seq<char>)>,
    now: i64,
)
    requires
        db.wf(),
        db.has_subscription(subscription_id),
        now < i64::MAX,
    ensures
        ({
            let after = db.with_backlog(subscription_id, messages, ids, now);
            let floor = checkpoint_floor(highest_time(messages), now);
            &&& after.wf()
            &&& after.has_subscription(subscription_id)
            &&& after.last_sync(subscription_id) is Some
            &&& after.last_sync(subscription_id)->0 > now
            &&& db.last_sync(subscription_id) is Some ==> after.last_sync(subscription_id)->0
                >= db.last_sync(subscription_id)->0
            &&& (db.last_sync(subscription_id) is None || db.last_sync(subscription_id)->0
                <= floor) ==> after.last_sync(subscription_id)->0 == floor
        }),
{
    let received = db.with_deliveries(subscription_id, messages, ids, messages.len());
    lemma_deliveries_keep_rules(db, subscription_id, messages, ids, messages.len());
    lemma_highest_time_in_range(messages);
    let floor = checkpoint_floor(highest_time(messages), now);
    assert(received.has_subscription(subscription_id)) by {
        let k = choose|k: int|
            0 <= k < db.subscriptions.len() && (#[trigger] db.subscriptions[k]).id
                == subscription_id;
        assert(received.subscriptions[k].id == subscription_id);
    }
    assert(received.last_sync(subscription_id) == db.last_sync(subscription_id));
    lemma_last_sync_moves_up(received, subscription_id, floor as i64);
}

/// One fetch of a backlog: the messages that came back, the identifiers
/// for their notifications, and the time of the fetch.
pub struct Fetch {
    pub messages: Seq<NtfyMessageView>,
    pub ids: Seq<(Seq<char>, Seq<char>)>,
    pub now: i64,
}

/// The records after the first `n` of a row of fetches of the backlog of
/// one subscription.
pub open spec fn after_fetches(
    db: DatabaseView,
    subscription_id: Seq<char>,
    fetches: Seq<Fetch>,
    n: nat,
) -> DatabaseView
    decreases n,
{
    if n == 0 {
        db
    } else {
        after_fetches(db, subscription_id, fetches, (n - 1) as nat).with_backlog(
            subscription_id,
            fetches[n - 1].messages,
            fetches[n - 1].ids,
            fetches[n - 1].now,
        )
    }
}

/// Checkpoint monotonicity over time. In any row of fetches of the
/// backlog of one subscription the watermark never goes down: after more
/// fetches it is at least what it was after fewer.
pub proof fn law_checkpoint_never_decreases(
    db: DatabaseView,
    subscription_id: Seq<char>,
    fetches: Seq<Fetch>,
    fewer: nat,
    more: nat,
)
    requires
        db.wf(),
        db.has_subscription(subscription_id),
        fewer <= more <= fetches.len(),
        forall|i: int| 0 <= i < fetches.len() ==> (#[trigger] fetches[i]).now < i64::MAX,
    ensures
        after_fetches(db, subscription_id, fetches, more).wf(),
        after_fetches(db, subscription_id, fetches, more).has_subscription(subscription_id),
        after_fetches(db, subscription_id, fetches, fewer).last_sync(subscription_id) is Some
            ==> after_fetches(db, subscription_id, fetches, more).last_sync(subscription_id)
            is Some && after_fetches(db, subscription_id, fetches, more).last_sync(
            subscription_id,
        )->0 >= after_fetches(db, subscription_id, fetches, fewer).last_sync(subscription_id)->0,
    decreases more,
{
    if more > 0 {
        let earlier = if fewer == more {
            (more - 1) as nat
        } else {
            fewer
        };
        law_checkpoint_never_decreases(db, subscription_id, fetches, earlier, (more - 1) as nat);
        law_checkpoint_monotonic(
            after_fetches(db, subscription_id, fetches, (more - 1) as nat),
            subscription_id,
            fetches[more - 1].messages,
            fetches[more - 1].ids,
            fetches[more - 1].now,
        );
    }
}

/// A fetch of the backlog of one subscription leaves the watermark of
/// every other subscription alone.
pub proof fn law_checkpoint_is_per_subscription(
    db: DatabaseView,
    subscription_id: Seq<char>,
    other: Seq<char>,
    messages: Seq<NtfyMessageView>,
    ids: Seq<(Seq<char>, Seq<char>)>,
    now: i64,
)
    requires
        db.wf(),
        other != subscription_id,
        db.has_subscription(other),
    ensures
        db.with_backlog(subscription_id, messages, ids, now).last_sync(other) == db.last_sync(
            other,
        ),
{
    if db.has_subscription(subscription_id) {
        let received = db.with_deliveries(subscription_id, messages, ids, messages.len());
        lemma_deliveries_keep_rules(db, subscription_id, messages, ids, messages.len());
        let floor = checkpoint_floor(highest_time(messages), now) as i64;
        let after = received.with_last_sync(subscription_id, floor);
        lemma_same_keys_keep_rules(received, after);
        let k = choose|k: int|
            0 <= k < db.subscriptions.len() && (#[trigger] db.subscriptions[k]).id == other;
        lemma_subscription_row(db, k);
        assert(after.subscriptions[k].id == other);
        lemma_subscription_row(after, k);
    }
}

/// Receiving messages for one subscription leaves the notifications of
/// every other subscription as they are.
pub proof fn lemma_deliveries_are_per_subscription(
    db: DatabaseView,
    subscription_id: Seq<char>,
    other: Seq<char>,
    messages: Seq<NtfyMessageView>,
    ids: Seq<(Seq<char>, Seq<char>)>,
    n: nat,
)
    requires
        other != subscription_id,
    ensures
        db.with_deliveries(subscription_id, messages, ids, n).notifications.filter(
            belongs_to(other),
        ) == db.notifications.filter(belongs_to(other)),
    decreases n,
{
    broadcast use Seq::lemma_filter_push;

    if n > 0 {
        lemma_deliveries_are_per_subscription(
            db,
            subscription_id,
            other,
            messages,
            ids,
            (n - 1) as nat,
        );
    }
}

/// Isolation of the subscriptions in a fetch of the backlog. What the
/// backlog of one subscription brings changes neither the notifications
/// nor the watermark of any other subscription, and a fetch for a
/// subscription that is not kept changes nothing at all. So the backlog
/// of each subscription is taken in as if it were the only one, whatever
/// became of the others.
pub proof fn law_backlog_is_per_subscription(
    db: DatabaseView,
    subscription_id: Seq<char>,
    other: Seq<char>,
    messages: Seq<NtfyMessageView>,
    ids: Seq<(Seq<char>, Seq<char>)>,
    now: i64,
)
    requires
        db.wf(),
        other != subscription_id,
    ensures
        db.with_backlog(subscription_id, messages, ids, now).notifications.filter(
            belongs_to(other),
        ) == db.notifications.filter(belongs_to(other)),
        db.with_backlog(subscription_id, messages, ids, now).servers == db.servers,
        db.with_backlog(subscription_id, messages, ids, now).settings == db.settings,
        db.has_subscription(other) ==> db.with_backlog(subscription_id, messages, ids, now)
            .last_sync(other) == db.last_sync(other),
        !db.has_subscription(subscription_id) ==> db.with_backlog(
            subscription_id,
            messages,
            ids,
            now,
        ) == db,
{
    if db.has_subscription(subscription_id) {
        lemma_deliveries_are_per_subscription(
            db,
            subscription_id,
            other,
            messages,
            ids,
            messages.len(),
        );
        lemma_deliveries_keep_rules(db, subscription_id, messages, ids, messages.len());
    }
    if db.has_subscription(other) {
        law_checkpoint_is_per_subscription(db, subscription_id, other, messages, ids, now);
    }
}

/// A notification that is kept stays kept when a message is received.
pub proof fn lemma_delivery_keeps_messages(
    db: DatabaseView,
    subscription_id: Seq<char>,
    m: NtfyMessageView,
    id: Seq<char>,
    attachment_id: Seq<char>,
    kept: Seq<char>,
)
    requires
        db.has_ntfy_id(kept) || (db.delivers(subscription_id, m, id) && m.id == kept),
    ensures
        db.with_delivery(subscription_id, m, id, attachment_id).has_ntfy_id(kept),
{
    let new = db.with_delivery(subscription_id, m, id, attachment_id);
    if db.has_ntfy_id(kept) {
        let k = choose|k: int|
            0 <= k < db.notifications.len() && (#[trigger] db.notifications[k]).ntfy_id == Some(
                kept,
            );
        assert(new.notifications[k].ntfy_id == Some(kept));
    } else {
        assert(new.notifications[db.notifications.len() as int].ntfy_id == Some(kept));
    }
}

/// A notification that is kept stays kept when messages are received.
pub proof fn lemma_deliveries_keep_messages(
    db: DatabaseView,
    subscription_id: Seq<char>,
    messages: Seq<NtfyMessageView>,
    ids: Seq<(Seq<char>, Seq<char>)>,
    n: nat,
    kept: Seq<char>,
)
    requires
        db.has_ntfy_id(kept),
    ensures
        db.with_deliveries(subscription_id, messages, ids, n).has_ntfy_id(kept),
    decreases n,
{
    if n > 0 {
        lemma_deliveries_keep_messages(db, subscription_id, messages, ids, (n - 1) as nat, kept);
        lemma_delivery_keeps_messages(
            db.with_deliveries(subscription_id, messages, ids, (n - 1) as nat),
            subscription_id,
            messages[n - 1],
            ids[n - 1].0,
            ids[n - 1].1,
            kept,
        );
    }
}

/// A fetch of the backlog keeps the records' rules, and keeps the
/// notifications that were kept.
pub proof fn lemma_backlog_keeps_rules(
    db: DatabaseView,
    subscription_id: Seq<char>,
    messages: Seq<NtfyMessageView>,
    ids: Seq<(Seq<char>, Seq<char>)>,
    now: i64,
    kept: Seq<char>,
)
    requires
        db.wf(),
    ensures
        db.with_backlog(subscription_id, messages, ids, now).wf(),
        db.has_ntfy_id(kept) ==> db.with_backlog(subscription_id, messages, ids, now).has_ntfy_id(
            kept,
        ),
{
    if db.has_subscription(subscription_id) {
        let received = db.with_deliveries(subscription_id, messages, ids, messages.len());
        lemma_deliveries_keep_rules(db, subscription_id, messages, ids, messages.len());
        let floor = checkpoint_floor(highest_time(messages), now) as i64;
        let after = received.with_last_sync(subscription_id, floor);
        lemma_same_keys_keep_rules(received, after);
        if db.has_ntfy_id(kept) {
            lemma_deliveries_keep_messages(
                db,
                subscription_id,
                messages,
                ids,
                messages.len(),
                kept,
            );
            let k = choose|k: int|
                0 <= k < received.notifications.len() && (
                #[trigger] received.notifications[k]).ntfy_id == Some(kept);
            assert(after.notifications[k].ntfy_id == Some(kept));
        }
    }
}

/// Dedup across the backlog and the live stream. A message that arrives
/// on the live stream and is also part of a fetched backlog has at most
/// one notification, in whichever order the two arrive; and it has
/// exactly one where the first to arrive was kept.
pub proof fn law_dedup_across_paths(
    db: DatabaseView,
    subscription_id: Seq<char>,
    m: NtfyMessageView,
    live_id: Seq<char>,
    live_attachment_id: Seq<char>,
    messages: Seq<NtfyMessageView>,
    ids: Seq<(Seq<char>, Seq<char>)>,
    now: i64,
)
    requires
        db.wf(),
    ensures
        ({
            let live_first = db.with_delivery(subscription_id, m, live_id, live_attachment_id)
                .with_backlog(subscription_id, messages, ids, now);
            let backlog_first = db.with_backlog(subscription_id, messages, ids, now);
            let live_second = backlog_first.with_delivery(
                subscription_id,
                m,
                live_id,
                live_attachment_id,
            );
            &&& live_first.wf() && live_second.wf()
            &&& live_first.count_ntfy_id(m.id) <= 1
            &&& live_second.count_ntfy_id(m.id) <= 1
            &&& db.delivers(subscription_id, m, live_id) ==> live_first.count_ntfy_id(m.id) == 1
            &&& backlog_first.has_ntfy_id(m.id) ==> live_second == backlog_first
                && live_second.count_ntfy_id(m.id) == 1
            &&& backlog_first.delivers(subscription_id, m, live_id) ==> live_second.count_ntfy_id(
                m.id,
            ) == 1
        }),
{
    let live = db.with_delivery(subscription_id, m, live_id, live_attachment_id);
    lemma_delivery_keeps_rules(db, subscription_id, m, live_id, live_attachment_id);
    let live_first = live.with_backlog(subscription_id, messages, ids, now);
    lemma_backlog_keeps_rules(live, subscription_id, messages, ids, now, m.id);
    let backlog_first = db.with_backlog(subscription_id, messages, ids, now);
    lemma_backlog_keeps_rules(db, subscription_id, messages, ids, now, m.id);
    let live_second = backlog_first.with_delivery(subscription_id, m, live_id, live_attachment_id);
    lemma_delivery_keeps_rules(backlog_first, subscription_id, m, live_id, live_attachment_id);
    lemma_at_most_one_per_message(live_first, m.id);
    lemma_at_most_one_per_message(live_second, m.id);
    if db.delivers(subscription_id, m, live_id) {
        lemma_delivery_keeps_messages(db, subscription_id, m, live_id, live_attachment_id, m.id);
    }
    if backlog_first.delivers(subscription_id, m, live_id) {
        lemma_delivery_keeps_messages(
            backlog_first,
            subscription_id,
            m,
            live_id,
            live_attachment_id,
            m.id,
        );
    }
}

/// Connection race-freedom in the table. When two connections are made
/// for one subscription, one after the other, the second has the larger
/// identifier and is the current one; the first is not, and is the one
/// that the second plan hands back to be told to stop.
pub proof fn law_latest_connection_wins(
    manager: ConnectionManagerView,
    subscription_id: Seq<char>,
)
    requires
        manager.wf(),
        manager.next_connection_id + 1 < u64::MAX,
    ensures
        ({
            let one = manager.connected(subscription_id);
            let two = one.connected(subscription_id);
            let first = manager.next_connection_id;
            let second = one.next_connection_id;
            &&& one.wf() && two.wf()
            &&& first < second
            &&& one.is_current(subscription_id, first)
            &&& one.current_of(subscription_id) == Some(first)
            &&& two.is_current(subscription_id, second)
            &&& !two.is_current(subscription_id, first)
            &&& forall|other: u64| other != second ==> !two.is_current(subscription_id, other)
        }),
{
}

/// Making or ending the connection of one subscription changes the
/// current connection of no other, and an identifier that was given out is
/// never given out again.
pub proof fn law_connections_are_independent(
    manager: ConnectionManagerView,
    subscription_id: Seq<char>,
    other: Seq<char>,
)
    requires
        manager.wf(),
        other != subscription_id,
    ensures
        manager.connected(subscription_id).wf(),
        manager.disconnected(subscription_id).wf(),
        manager.connected(subscription_id).current_of(other) == manager.current_of(other),
        manager.disconnected(subscription_id).current_of(other) == manager.current_of(other),
        manager.disconnected(subscription_id).current_of(subscription_id) is None,
        manager.connected(subscription_id).next_connection_id >= manager.next_connection_id,
        forall|k: Seq<char>| #[trigger]
            manager.connected(subscription_id).current.contains_key(k) && k != subscription_id
                ==> manager.connected(subscription_id).current[k] < manager.next_connection_id,
{
}

/// Connection race-freedom in the task. A task whose connection is not
/// the current one of its subscription ends at its next step, whatever
/// state it is in and whatever happens to it: it never connects, never
/// reads on and never delivers a message. So of the tasks of one
/// subscription only the one with the latest connection streams. No task
/// reaches the reading of a stream but from connecting, and a task that
/// was told to stop, or that has stopped, never does anything again.
pub proof fn law_stale_task_stops(
    state: ConnectionState,
    attempt: nat,
    event: ConnectionEventView,
    is_current: bool,
    random: u64,
)
    ensures
        ({
            let next = transition(state, attempt, event, is_current, random);
            &&& !is_current ==> next.0 == ConnectionState::Stopped && next.2
                == ConnectionActionView::Exit
            &&& next.0 != ConnectionState::Stopped ==> is_current
            &&& next.2 is Deliver || next.2 == ConnectionActionView::Connect || next.2
                == ConnectionActionView::Receive ==> is_current
            &&& next.0 == ConnectionState::Streaming ==> state == ConnectionState::Connecting
                || state == ConnectionState::Streaming
            &&& state == ConnectionState::Stopped || event
                == ConnectionEventView::ShutdownRequested ==> next.0 == ConnectionState::Stopped
                && next.2 == ConnectionActionView::Exit
        }),
{
}

/// The course of reconnecting. A stream that opens sets the count of
/// failures back, so that the wait after the next failure is the first of
/// the table again; every wait is at least the table's step and less than
/// the step plus the bound of the random part; and the count of failures
/// never leaves the table.
pub proof fn law_reconnect_course(attempt: nat, random: u64)
    ensures
        transition(
            ConnectionState::Connecting,
            attempt,
            ConnectionEventView::Connected,
            true,
            random,
        ).1 == 0,
        transition(ConnectionState::Streaming, 0, ConnectionEventView::StreamClosed, true, random)
            == (
            ConnectionState::Backoff,
            0nat,
            ConnectionActionView::Sleep(
                crate::config::connection::reconnect_delay(0, random) as u64,
            ),
        ),
        5 <= crate::config::connection::reconnect_delay(0, random) < 5
            + crate::config::connection::JITTER_MAX_SECS,
        transition(
            ConnectionState::Backoff,
            attempt,
            ConnectionEventView::DelayElapsed,
            true,
            random,
        ).1 == crate::config::connection::next_attempt(attempt),
        crate::config::connection::next_attempt(attempt) < 4,
{
}

/// Removal of a server. With the server go the subscriptions on it and
/// their notifications, and nothing else: every subscription on another
/// server stays, and every notification that stays belongs to a
/// subscription that stays.
pub proof fn law_server_removal_cascades(db: DatabaseView, url: Seq<char>)
    requires
        db.wf(),
    ensures
        ({
            let after = db.without_server(url);
            &&& after.wf()
            &&& !after.has_server(normalized(url))
            &&& forall|i: int|
                0 <= i < after.subscriptions.len() ==> (#[trigger] after.subscriptions[i]).server_url
                    != normalized(url)
            &&& forall|i: int|
                0 <= i < after.notifications.len() ==> after.has_subscription(
                    (#[trigger] after.notifications[i]).notification.topic_id,
                )
            &&& forall|k: int|
                0 <= k < db.subscriptions.len() && (#[trigger] db.subscriptions[k]).server_url
                    != normalized(url) ==> after.has_subscription(db.subscriptions[k].id)
        }),
{
    let n = normalized(url);
    let after = db.without_server(url);
    lemma_without_server_keeps_rules(db, url);
    assert forall|i: int| 0 <= i < after.servers.len() implies (#[trigger] after.servers[i]).url
        != n by {
        lemma_filter_from(db.servers, other_server(n), i);
    }
    assert forall|i: int| 0 <= i < after.subscriptions.len() implies (
    #[trigger] after.subscriptions[i]).server_url != n by {
        lemma_filter_from(db.subscriptions, not_on_server(n), i);
    }
    assert forall|k: int|
        0 <= k < db.subscriptions.len() && (#[trigger] db.subscriptions[k]).server_url
            != n implies after.has_subscription(db.subscriptions[k].id) by {
        lemma_filter_keeps(db.subscriptions, not_on_server(n), k);
        let m = choose|m: int|
            0 <= m < after.subscriptions.len() && after.subscriptions[m] == db.subscriptions[k];
        assert(after.subscriptions[m].id == db.subscriptions[k].id);
    }
}

/// The address of a stream ignores a slash at the end of the server's
/// address: with it and without it the stream is the same. The two
/// addresses left out are schemes that the slash would complete.
pub proof fn law_stream_address_ignores_trailing_slash(url: Seq<char>, topic: Seq<char>)
    requires
        url != "https:/"@,
        url != "http:/"@,
    ensures
        ws_url(url.push('/'), topic) == ws_url(url, topic),
{
    reveal_strlit("https://");
    reveal_strlit("http://");
    reveal_strlit("https:/");
    reveal_strlit("http:/");
    let longer = url.push('/');
    let secure = "https://"@;
    let plain = "http://"@;
    assert(starts_with(longer, secure) == starts_with(url, secure)) by {
        if url.len() >= 8 {
            assert(longer.subrange(0, 8) =~= url.subrange(0, 8));
        } else if url.len() == 7 {
            if starts_with(longer, secure) {
                assert(longer.subrange(0, 8) == secure);
                assert forall|i: int| 0 <= i < 7 implies url[i] == "https:/"@[i] by {
                    assert(longer.subrange(0, 8)[i] == secure[i]);
                }
                assert(url =~= "https:/"@);
            }
        }
    }
    assert(starts_with(longer, plain) == starts_with(url, plain)) by {
        if url.len() >= 7 {
            assert(longer.subrange(0, 7) =~= url.subrange(0, 7));
        } else if url.len() == 6 {
            if starts_with(longer, plain) {
                assert(longer.subrange(0, 7) == plain);
                assert forall|i: int| 0 <= i < 6 implies url[i] == "http:/"@[i] by {
                    assert(longer.subrange(0, 7)[i] == plain[i]);
                }
                assert(url =~= "http:/"@);
            }
        }
    }
    if starts_with(url, secure) {
        let rest = url.subrange(8, url.len() as int);
        assert(longer.subrange(8, longer.len() as int) =~= rest.push('/'));
        law_trailing_slash_ignored(rest);
    } else if starts_with(url, plain) {
        let rest = url.subrange(7, url.len() as int);
        assert(longer.subrange(7, longer.len() as int) =~= rest.push('/'));
        law_trailing_slash_ignored(rest);
    } else {
        law_trailing_slash_ignored(url);
    }
}

/// Server identity in the subscription sync. Two addresses that name one
/// server give the same sync: the same subscriptions are created, the
/// same connections made and the same plans handed back.
pub proof fn law_account_sync_ignores_trailing_slash(
    state: SyncState,
    url: Seq<char>,
    other_url: Seq<char>,
    listed: Seq<NtfySubscriptionView>,
    ids: Seq<Seq<char>>,
    n: nat,
)
    requires
        same_url(url, other_url),
    ensures
        account_applied(state, url, listed, ids, n) == account_applied(
            state,
            other_url,
            listed,
            ids,
            n,
        ),
        state.db.listed_known(url, listed, n) == state.db.listed_known(other_url, listed, n),
    decreases n,
{
    if n > 0 {
        law_account_sync_ignores_trailing_slash(
            state,
            url,
            other_url,
            listed,
            ids,
            (n - 1) as nat,
        );
    }
}

/// Server identity in the sync on demand. Two addresses that name one
/// server find the same credentials, or both find none.
pub proof fn law_credentials_ignore_trailing_slash(
    servers: Seq<ServerConfigView>,
    url: Seq<char>,
    other_url: Seq<char>,
)
    requires
        same_url(url, other_url),
    ensures
        demand_credentials(servers, url) == demand_credentials(servers, other_url) || (
        demand_credentials(servers, url) == Err::<(Seq<char>, Seq<char>), AppErrorView>(
            server_not_found(url),
        ) && demand_credentials(servers, other_url) == Err::<
            (Seq<char>, Seq<char>),
            AppErrorView,
        >(server_not_found(other_url))),
    decreases servers.len(),
{
    if servers.len() > 0 && !same_url(servers.first().url, url) {
        law_credentials_ignore_trailing_slash(servers.drop_first(), url, other_url);
    }
}

/// A sync of subscriptions that finds every listed subscription of the
/// server present creates nothing and connects nothing.
pub proof fn law_present_listings_change_nothing(
    state: SyncState,
    url: Seq<char>,
    listed: Seq<NtfySubscriptionView>,
    ids: Seq<Seq<char>>,
    n: nat,
)
    requires
        n <= listed.len(),
        forall|i: int| 0 <= i < n ==> !is_new_listing(state.db, url, #[trigger] listed[i]),
    ensures
        account_applied(state, url, listed, ids, n) == state,
    decreases n,
{
    if n > 0 {
        law_present_listings_change_nothing(state, url, listed, ids, (n - 1) as nat);
    }
}

/// A topic that is subscribed to after some listed subscriptions were
/// taken in is subscribed to after more were.
pub proof fn lemma_account_keeps_topics(
    state: SyncState,
    url: Seq<char>,
    listed: Seq<NtfySubscriptionView>,
    ids: Seq<Seq<char>>,
    fewer: nat,
    more: nat,
    server: Seq<char>,
    topic: Seq<char>,
)
    requires
        fewer <= more,
        account_applied(state, url, listed, ids, fewer).db.has_topic(server, topic),
    ensures
        account_applied(state, url, listed, ids, more).db.has_topic(server, topic),
    decreases more,
{
    if fewer < more {
        lemma_account_keeps_topics(
            state,
            url,
            listed,
            ids,
            fewer,
            (more - 1) as nat,
            server,
            topic,
        );
        let before = account_applied(state, url, listed, ids, (more - 1) as nat);
        let after = account_applied(state, url, listed, ids, more);
        let k = choose|k: int|
            0 <= k < before.db.subscriptions.len() && (
            #[trigger] before.db.subscriptions[k]).server_url == server
                && before.db.subscriptions[k].topic == topic;
        if after != before {
            assert(after.db.subscriptions[k] == before.db.subscriptions[k]);
        }
    }
}

/// The subscriptions that are kept after listed subscriptions were taken
/// in are those that were kept before and those under the identifiers
/// used so far.
pub proof fn lemma_account_uses_its_ids(
    state: SyncState,
    url: Seq<char>,
    listed: Seq<NtfySubscriptionView>,
    ids: Seq<Seq<char>>,
    n: nat,
    id: Seq<char>,
)
    requires
        account_applied(state, url, listed, ids, n).db.has_subscription(id),
    ensures
        state.db.has_subscription(id) || exists|j: int| 0 <= j < n && #[trigger] ids[j] == id,
    decreases n,
{
    if n > 0 {
        let before = account_applied(state, url, listed, ids, (n - 1) as nat);
        let after = account_applied(state, url, listed, ids, n);
        let k = choose|k: int|
            0 <= k < after.db.subscriptions.len() && (#[trigger] after.db.subscriptions[k]).id
                == id;
        if after == before || k < before.db.subscriptions.len() {
            if after != before {
                assert(after.db.subscriptions[k] == before.db.subscriptions[k]);
            }
            assert(before.db.subscriptions[k].id == id);
            lemma_account_uses_its_ids(state, url, listed, ids, (n - 1) as nat, id);
            if !state.db.has_subscription(id) {
                let j = choose|j: int| 0 <= j < n - 1 && #[trigger] ids[j] == id;
                assert(ids[j] == id);
            }
        } else {
            assert(ids[n - 1] == id);
        }
    }
}

/// A second sync of subscriptions creates nothing. After the account of
/// a server was taken in, under identifiers that were free and differed
/// from each other, taking it in again, under any identifiers, changes
/// neither the records nor the table, and makes no connection.
pub proof fn law_second_sync_creates_nothing(
    state: SyncState,
    url: Seq<char>,
    listed: Seq<NtfySubscriptionView>,
    ids: Seq<Seq<char>>,
    again_ids: Seq<Seq<char>>,
    n: nat,
    m: nat,
)
    requires
        m <= n <= listed.len(),
        forall|i: int| 0 <= i < n ==> !state.db.has_subscription(#[trigger] ids[i]),
        forall|i: int, j: int| 0 <= i < j < n ==> #[trigger] ids[i] != #[trigger] ids[j],
    ensures
        ({
            let first = account_applied(state, url, listed, ids, n);
            let again = SyncState { db: first.db, manager: first.manager, plans: Seq::empty() };
            account_applied(again, url, listed, again_ids, m) == again
        }),
    decreases m,
{
    let first = account_applied(state, url, listed, ids, n);
    let again = SyncState { db: first.db, manager: first.manager, plans: Seq::empty() };
    if m > 0 {
        law_second_sync_creates_nothing(state, url, listed, ids, again_ids, n, (m - 1) as nat);
        let i = (m - 1) as nat;
        let entry = listed[i as int];
        let address = normalized(url);
        let before = account_applied(state, url, listed, ids, i);
        let after = account_applied(state, url, listed, ids, (i + 1) as nat);
        let request = listed_request(url, entry);
        let parsed = url_parse(address);
        lemma_normalized_idempotent(url);
        if is_new_listing(first.db, url, entry) {
            if before.db.has_topic(address, entry.topic) {
                lemma_account_keeps_topics(state, url, listed, ids, i, n, address, entry.topic);
            }
            assert(is_new_listing(before.db, url, entry));
            if before.db.creation_verdict(request, parsed, ids[i as int]) is Ok {
                assert(after.db == before.db.with_subscription(request, ids[i as int]));
                assert(after.db.subscriptions[before.db.subscriptions.len() as int].topic
                    == entry.topic);
                assert(after.db.has_topic(address, entry.topic));
                lemma_account_keeps_topics(
                    state,
                    url,
                    listed,
                    ids,
                    (i + 1) as nat,
                    n,
                    address,
                    entry.topic,
                );
            } else {
                if before.db.has_subscription(ids[i as int]) {
                    lemma_account_uses_its_ids(state, url, listed, ids, i, ids[i as int]);
                    let j = choose|j: int| 0 <= j < i && #[trigger] ids[j] == ids[i as int];
                    assert(ids[j] != ids[i as int]);
                }
                assert(request.verdict(parsed) is Err);
                assert(first.db.creation_verdict(request, parsed, again_ids[i as int]) is Err);
            }
        }
    }
}

/// Whether the identifiers are free in the records and differ from each
/// other.
pub open spec fn fresh_ids(db: DatabaseView, ids: Seq<(Seq<char>, Seq<char>)>) -> bool {
    &&& forall|i: int| 0 <= i < ids.len() ==> !db.has_notification((#[trigger] ids[i]).0)
    &&& forall|i: int, j: int|
        0 <= i < j < ids.len() ==> (#[trigger] ids[i]).0 != (#[trigger] ids[j]).0
}

/// The notifications that are kept after messages were received are those
/// that were kept before and those under the identifiers used so far.
pub proof fn lemma_deliveries_use_their_ids(
    db: DatabaseView,
    subscription_id: Seq<char>,
    messages: Seq<NtfyMessageView>,
    ids: Seq<(Seq<char>, Seq<char>)>,
    n: nat,
    id: Seq<char>,
)
    requires
        db.with_deliveries(subscription_id, messages, ids, n).has_notification(id),
    ensures
        db.has_notification(id) || exists|j: int| 0 <= j < n && (#[trigger] ids[j]).0 == id,
    decreases n,
{
    if n > 0 {
        let before = db.with_deliveries(subscription_id, messages, ids, (n - 1) as nat);
        let after = db.with_deliveries(subscription_id, messages, ids, n);
        let k = choose|k: int|
            0 <= k < after.notifications.len() && (#[trigger] after.notifications[k]).notification.id
                == id;
        if k < before.notifications.len() {
            assert(before.notifications[k].notification.id == id);
            lemma_deliveries_use_their_ids(
                db,
                subscription_id,
                messages,
                ids,
                (n - 1) as nat,
                id,
            );
            if !db.has_notification(id) {
                let j = choose|j: int| 0 <= j < n - 1 && (#[trigger] ids[j]).0 == id;
                assert(ids[j].0 == id);
            }
        } else {
            assert(ids[n - 1].0 == id);
        }
    }
}

/// A notification that is kept after some messages were received is kept
/// after more were.
pub proof fn lemma_deliveries_keep_later(
    db: DatabaseView,
    subscription_id: Seq<char>,
    messages: Seq<NtfyMessageView>,
    ids: Seq<(Seq<char>, Seq<char>)>,
    fewer: nat,
    more: nat,
    kept: Seq<char>,
)
    requires
        fewer <= more,
        db.with_deliveries(subscription_id, messages, ids, fewer).has_ntfy_id(kept),
    ensures
        db.with_deliveries(subscription_id, messages, ids, more).has_ntfy_id(kept),
    decreases more,
{
    if fewer < more {
        lemma_deliveries_keep_later(
            db,
            subscription_id,
            messages,
            ids,
            fewer,
            (more - 1) as nat,
            kept,
        );
        lemma_delivery_keeps_messages(
            db.with_deliveries(subscription_id, messages, ids, (more - 1) as nat),
            subscription_id,
            messages[more - 1],
            ids[more - 1].0,
            ids[more - 1].1,
            kept,
        );
    }
}

/// A fetch of the backlog stores every message. Where the identifiers
/// that are used are free and differ from each other, every message of a
/// user in the backlog of a kept subscription, with a time that
/// milliseconds can hold, has its notification afterwards.
pub proof fn law_backlog_stores_every_message(
    db: DatabaseView,
    subscription_id: Seq<char>,
    messages: Seq<NtfyMessageView>,
    ids: Seq<(Seq<char>, Seq<char>)>,
    now: i64,
    k: int,
)
    requires
        db.wf(),
        db.has_subscription(subscription_id),
        ids.len() == messages.len(),
        fresh_ids(db, ids),
        0 <= k < messages.len(),
        messages[k].is_user_message(),
        messages[k].time_in_range(),
    ensures
        db.with_backlog(subscription_id, messages, ids, now).has_ntfy_id(messages[k].id),
        db.with_backlog(subscription_id, messages, ids, now).count_ntfy_id(messages[k].id) == 1,
{
    let before = db.with_deliveries(subscription_id, messages, ids, k as nat);
    let after = db.with_deliveries(subscription_id, messages, ids, (k + 1) as nat);
    let received = db.with_deliveries(subscription_id, messages, ids, messages.len());
    lemma_deliveries_keep_rules(db, subscription_id, messages, ids, k as nat);
    assert(before.has_subscription(subscription_id)) by {
        let i = choose|i: int|
            0 <= i < db.subscriptions.len() && (#[trigger] db.subscriptions[i]).id
                == subscription_id;
        assert(before.subscriptions[i].id == subscription_id);
    }
    if before.has_notification(ids[k].0) {
        lemma_deliveries_use_their_ids(db, subscription_id, messages, ids, k as nat, ids[k].0);
        let j = choose|j: int| 0 <= j < k && (#[trigger] ids[j]).0 == ids[k].0;
        assert(ids[j].0 != ids[k].0);
    }
    lemma_delivery_keeps_messages(
        before,
        subscription_id,
        messages[k],
        ids[k].0,
        ids[k].1,
        messages[k].id,
    );
    lemma_deliveries_keep_later(
        db,
        subscription_id,
        messages,
        ids,
        (k + 1) as nat,
        messages.len(),
        messages[k].id,
    );
    lemma_deliveries_keep_rules(db, subscription_id, messages, ids, messages.len());
    let floor = checkpoint_floor(highest_time(messages), now) as i64;
    let done = received.with_last_sync(subscription_id, floor);
    lemma_same_keys_keep_rules(received, done);
    let i = choose|i: int|
        0 <= i < received.notifications.len() && (#[trigger] received.notifications[i]).ntfy_id
            == Some(messages[k].id);
    assert(done.notifications[i].ntfy_id == Some(messages[k].id));
    lemma_at_most_one_per_message(done, messages[k].id);
}

/// Server identity in the records. Once the client is subscribed to a
/// topic of a server, it counts as subscribed to that topic under every
/// address that names the server, with or without slashes at its end.
pub proof fn law_subscription_identity_ignores_trailing_slash(
    db: DatabaseView,
    sub: CreateSubscriptionView,
    id: Seq<char>,
    other_url: Seq<char>,
)
    requires
        same_url(sub.server_url, other_url),
    ensures
        db.with_subscription(sub, id).has_topic(normalized(other_url), sub.topic),
        db.with_subscription(sub, id).has_topic(normalized(other_url.push('/')), sub.topic),
        db.with_subscription(sub, id).has_server(normalized(other_url)),
{
    let new = db.with_subscription(sub, id);
    law_trailing_slash_ignored(other_url);
    assert(new.subscriptions[db.subscriptions.len() as int].server_url == normalized(
        sub.server_url,
    ));
    if db.has_server(normalized(sub.server_url)) {
        let k = choose|k: int|
            0 <= k < db.servers.len() && (#[trigger] db.servers[k]).url == normalized(
                sub.server_url,
            );
        assert(new.servers[k].url == normalized(other_url));
    } else {
        assert(new.servers[db.servers.len() as int].url == normalized(other_url));
    }
}

} // verus!
