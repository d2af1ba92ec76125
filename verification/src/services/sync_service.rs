//! The reconciliation of the client's records with what a server holds:
//! the subscriptions of an account, and the backlog of each subscription.

use crate::db::connection::{Database, DatabaseView};
use crate::db::queries::notifications::notification_views;
use crate::db::models::SubscriptionRowView;
use crate::db::queries::servers::server_not_found;
use crate::db::queries::subscriptions::subscription_views;
use crate::error::{AppError, AppErrorView};
use crate::ids::fresh_id;
use crate::models::address::url_parse;
use crate::models::notification::{
    Notification, NotificationView, NtfyMessage, NtfyMessageView, MAX_MESSAGE_TIME,
};
use crate::models::server_url::{normalize_url, normalized, same_url, urls_match};
use crate::models::settings::{server_views, ServerConfig, ServerConfigView};
use crate::models::subscription::{
    CreateSubscription, CreateSubscriptionView, Subscription, SubscriptionView,
};
use crate::services::connection_manager::{
    auth_header_for, plan_views, ConnectionManager, ConnectionManagerView, ConnectionPlan,
    ConnectionPlanView,
};
use crate::services::ntfy_client::{
    message_views, messages_url, HttpRequest, HttpRequestView, NtfyAccount, NtfyClient,
    NtfySubscriptionView,
};
use crate::text::{clone_opt, concat3, owned, str_eq, views};
use vstd::prelude::*;

verus! {

/// The latest time, in seconds, of the messages of users among
/// `messages` whose time milliseconds can hold; `None` where there is no
/// such message.
pub open spec fn highest_time(messages: Seq<NtfyMessageView>) -> Option<i64>
    decreases messages.len(),
{
    if messages.len() == 0 {
        None
    } else {
        let m = messages.last();
        let earlier = highest_time(messages.drop_last());
        if m.is_user_message() && m.time_in_range() {
            match earlier {
                Some(h) => if h >= m.time {
                    Some(h)
                } else {
                    Some(m.time as i64)
                },
                None => Some(m.time as i64),
            }
        } else {
            earlier
        }
    }
}

/// The watermark that a fetch of the backlog at the time `now` leads to:
/// one more than the later of `now` and the latest time of the messages
/// fetched. Both in seconds.
pub open spec fn checkpoint_floor(highest: Option<i64>, now: i64) -> int {
    match highest {
        Some(h) => if h >= now {
            h + 1
        } else {
            now + 1
        },
        None => now + 1,
    }
}

/// The identifiers under which a notification and its attached file are
/// kept.
pub type IdPair = (String, String);

/// The views of a list of pairs of identifiers.
pub open spec fn id_pairs(s: Seq<IdPair>) -> Seq<(Seq<char>, Seq<char>)> {
    Seq::new(s.len(), |i: int| (s[i].0@, s[i].1@))
}

impl DatabaseView {
    /// The records after the first `n` of `messages` were received for the
    /// subscription `subscription_id`, in their order, each under its pair
    /// of `ids`.
    pub open spec fn with_deliveries(
        self,
        subscription_id: Seq<char>,
        messages: Seq<NtfyMessageView>,
        ids: Seq<(Seq<char>, Seq<char>)>,
        n: nat,
    ) -> DatabaseView
        decreases n,
    {
        if n == 0 {
            self
        } else {
            self.with_deliveries(subscription_id, messages, ids, (n - 1) as nat).with_delivery(
                subscription_id,
                messages[n - 1],
                ids[n - 1].0,
                ids[n - 1].1,
            )
        }
    }

    /// The records after the backlog `messages` of the subscription
    /// `subscription_id` was fetched at the time `now`: every message is
    /// received, and the watermark moves up to what the fetch leads to.
    /// Nothing changes where the subscription is not kept.
    pub open spec fn with_backlog(
        self,
        subscription_id: Seq<char>,
        messages: Seq<NtfyMessageView>,
        ids: Seq<(Seq<char>, Seq<char>)>,
        now: i64,
    ) -> DatabaseView {
        if self.has_subscription(subscription_id) {
            self.with_deliveries(subscription_id, messages, ids, messages.len()).with_last_sync(
                subscription_id,
                checkpoint_floor(highest_time(messages), now) as i64,
            )
        } else {
            self
        }
    }

    /// The notifications that receiving the first `n` of `messages` adds.
    pub open spec fn delivered(
        self,
        subscription_id: Seq<char>,
        messages: Seq<NtfyMessageView>,
        ids: Seq<(Seq<char>, Seq<char>)>,
        n: nat,
    ) -> Seq<NotificationView>
        decreases n,
    {
        if n == 0 {
            Seq::empty()
        } else {
            let before = self.with_deliveries(subscription_id, messages, ids, (n - 1) as nat);
            let earlier = self.delivered(subscription_id, messages, ids, (n - 1) as nat);
            if before.delivers(subscription_id, messages[n - 1], ids[n - 1].0) {
                earlier.push(
                    messages[n - 1].to_notification(subscription_id, ids[n - 1].0, ids[n - 1].1),
                )
            } else {
                earlier
            }
        }
    }
}

/// The records and the supervisor's table in the course of taking in an
/// account, with the plans of the connections made so far.
pub struct SyncState {
    pub db: DatabaseView,
    pub manager: ConnectionManagerView,
    pub plans: Seq<ConnectionPlanView>,
}

/// The request for the subscription that an account lists, on the server
/// under its normalized address.
pub open spec fn listed_request(
    server_url: Seq<char>,
    listed: NtfySubscriptionView,
) -> CreateSubscriptionView {
    CreateSubscriptionView {
        topic: listed.topic,
        server_url: normalized(server_url),
        display_name: listed.display_name,
    }
}

/// Whether a subscription that the account of the server `server_url`
/// lists is new to the client: it must be on that server, and the client
/// must not be subscribed to its topic there.
pub open spec fn is_new_listing(
    db: DatabaseView,
    server_url: Seq<char>,
    listed: NtfySubscriptionView,
) -> bool {
    same_url(listed.base_url, server_url) && !db.has_topic(normalized(server_url), listed.topic)
}

/// What taking in one listed subscription of the account of the server
/// `server_url` does. A subscription that is new to the client is created
/// under the identifier `id`, and a connection is made for it at once; one
/// that the client has already is left as it is, and so is one that
/// cannot be created.
pub open spec fn account_step(
    state: SyncState,
    server_url: Seq<char>,
    listed: NtfySubscriptionView,
    id: Seq<char>,
) -> SyncState {
    if is_new_listing(state.db, server_url, listed) {
        match state.db.creation(
            listed_request(server_url, listed),
            url_parse(normalized(server_url)),
            id,
        ) {
            (db, Ok(sub)) => SyncState {
                db,
                manager: state.manager.connected(sub.id),
                plans: if state.manager.can_connect() {
                    state.plans.push(state.manager.plan(sub, db.servers))
                } else {
                    state.plans
                },
            },
            (_, Err(_)) => state,
        }
    } else {
        state
    }
}

/// What taking in the first `n` listed subscriptions does, in their
/// order, each under its identifier of `ids`.
pub open spec fn account_applied(
    state: SyncState,
    server_url: Seq<char>,
    listed: Seq<NtfySubscriptionView>,
    ids: Seq<Seq<char>>,
    n: nat,
) -> SyncState
    decreases n,
{
    if n == 0 {
        state
    } else {
        account_step(
            account_applied(state, server_url, listed, ids, (n - 1) as nat),
            server_url,
            listed[n - 1],
            ids[n - 1],
        )
    }
}

impl DatabaseView {
    /// The row of the subscription to `topic` on the server kept under
    /// `url`.
    pub open spec fn topic_row(self, url: Seq<char>, topic: Seq<char>) -> Option<
        SubscriptionRowView,
    > {
        if self.has_topic(url, topic) {
            Some(
                self.subscriptions[choose|i: int|
                    0 <= i < self.subscriptions.len() && (
                    #[trigger] self.subscriptions[i]).server_url == url
                        && self.subscriptions[i].topic == topic],
            )
        } else {
            None
        }
    }

    /// The subscriptions of the client among the first `n` that the
    /// account of the server `server_url` lists, each with what the client
    /// shows of it, in the order of the account.
    pub open spec fn listed_known(
        self,
        server_url: Seq<char>,
        listed: Seq<NtfySubscriptionView>,
        n: nat,
    ) -> Seq<SubscriptionView>
        decreases n,
    {
        if n == 0 {
            Seq::empty()
        } else {
            let earlier = self.listed_known(server_url, listed, (n - 1) as nat);
            if same_url(listed[n - 1].base_url, server_url) {
                match self.topic_row(normalized(server_url), listed[n - 1].topic) {
                    Some(row) => earlier.push(self.summary(row)),
                    None => earlier,
                }
            } else {
                earlier
            }
        }
    }
}

/// Under the records' rules a server and a topic name one subscription.
pub proof fn lemma_topic_row(db: DatabaseView, i: int)
    requires
        db.wf(),
        0 <= i < db.subscriptions.len(),
    ensures
        db.topic_row(db.subscriptions[i].server_url, db.subscriptions[i].topic) == Some(
            db.subscriptions[i],
        ),
{
    let url = db.subscriptions[i].server_url;
    let topic = db.subscriptions[i].topic;
    assert(db.has_topic(url, topic));
    let k = choose|k: int|
        0 <= k < db.subscriptions.len() && (#[trigger] db.subscriptions[k]).server_url == url
            && db.subscriptions[k].topic == topic;
    if k < i {
        assert(!(db.subscriptions[k].server_url == db.subscriptions[i].server_url
            && db.subscriptions[k].topic == db.subscriptions[i].topic));
    }
    if i < k {
        assert(!(db.subscriptions[i].server_url == db.subscriptions[k].server_url
            && db.subscriptions[i].topic == db.subscriptions[k].topic));
    }
}

/// The servers that the client signs in to.
pub open spec fn has_credentials() -> spec_fn(ServerConfigView) -> bool {
    |s: ServerConfigView| s.credentials() is Some
}

/// The credentials with which the subscriptions of the server that `url`
/// names are fetched on demand, or why they cannot be: no configured
/// server is named by it, or the first that is has no user name, or no
/// password. Slashes at the end of an address do not matter.
pub open spec fn demand_credentials(servers: Seq<ServerConfigView>, url: Seq<char>) -> Result<
    (Seq<char>, Seq<char>),
    AppErrorView,
>
    decreases servers.len(),
{
    if servers.len() == 0 {
        Err(server_not_found(url))
    } else if same_url(servers.first().url, url) {
        match (servers.first().username, servers.first().password) {
            (None, _) => Err(AppErrorView::Connection("Server has no username configured"@)),
            (Some(_), None) => Err(
                AppErrorView::Connection("Server has no password configured"@),
            ),
            (Some(u), Some(p)) => Ok((u, p)),
        }
    } else {
        demand_credentials(servers.drop_first(), url)
    }
}

/// The plain values of credentials or of the reason why there are none.
pub open spec fn credentials_result_view(r: Result<(String, String), AppError>) -> Result<
    (Seq<char>, Seq<char>),
    AppErrorView,
> {
    match r {
        Ok((u, p)) => Ok((u@, p@)),
        Err(e) => Err(e@),
    }
}

/// The notifications that a fetch of the backlog adds: those of the
/// messages that are kept, in their order, and none where the subscription
/// is not kept.
pub open spec fn backlog_added(
    db: DatabaseView,
    subscription_id: Seq<char>,
    messages: Seq<NtfyMessageView>,
    ids: Seq<(Seq<char>, Seq<char>)>,
) -> Seq<NotificationView> {
    if db.has_subscription(subscription_id) {
        db.delivered(subscription_id, messages, ids, messages.len())
    } else {
        Seq::empty()
    }
}

/// No time of a message that counts reaches the largest number of 64
/// bits.
pub proof fn lemma_highest_time_in_range(messages: Seq<NtfyMessageView>)
    ensures
        match highest_time(messages) {
            Some(h) => -MAX_MESSAGE_TIME <= h <= MAX_MESSAGE_TIME,
            None => true,
        },
    decreases messages.len(),
{
    if messages.len() > 0 {
        lemma_highest_time_in_range(messages.drop_last());
    }
}

/// Receiving a message keeps the records' rules.
pub proof fn lemma_delivery_keeps_rules(
    db: DatabaseView,
    subscription_id: Seq<char>,
    m: NtfyMessageView,
    id: Seq<char>,
    attachment_id: Seq<char>,
)
    requires
        db.wf(),
    ensures
        db.with_delivery(subscription_id, m, id, attachment_id).wf(),
        db.with_delivery(subscription_id, m, id, attachment_id).subscriptions == db.subscriptions,
        db.with_delivery(subscription_id, m, id, attachment_id).servers == db.servers,
        db.with_delivery(subscription_id, m, id, attachment_id).settings == db.settings,
{
    let new = db.with_delivery(subscription_id, m, id, attachment_id);
    if db.delivers(subscription_id, m, id) {
        assert forall|i: int| 0 <= i < new.notifications.len() implies new.has_subscription(
            (#[trigger] new.notifications[i]).notification.topic_id,
        ) by {
            if i < db.notifications.len() {
                assert(db.has_subscription(db.notifications[i].notification.topic_id));
            }
        }
    }
}

/// Receiving messages keeps the records' rules, and changes neither the
/// servers, nor the subscriptions, nor the settings.
pub proof fn lemma_deliveries_keep_rules(
    db: DatabaseView,
    subscription_id: Seq<char>,
    messages: Seq<NtfyMessageView>,
    ids: Seq<(Seq<char>, Seq<char>)>,
    n: nat,
)
    requires
        db.wf(),
    ensures
        db.with_deliveries(subscription_id, messages, ids, n).wf(),
        db.with_deliveries(subscription_id, messages, ids, n).subscriptions == db.subscriptions,
        db.with_deliveries(subscription_id, messages, ids, n).servers == db.servers,
        db.with_deliveries(subscription_id, messages, ids, n).settings == db.settings,
    decreases n,
{
    if n > 0 {
        lemma_deliveries_keep_rules(db, subscription_id, messages, ids, (n - 1) as nat);
        lemma_delivery_keeps_rules(
            db.with_deliveries(subscription_id, messages, ids, (n - 1) as nat),
            subscription_id,
            messages[n - 1],
            ids[n - 1].0,
            ids[n - 1].1,
        );
    }
}

/// The present time in seconds since the epoch, from `chrono::Utc::now`
/// and its `timestamp`. The clock is asked anew at every call. The time is
/// not before the epoch, and chrono's dates end long before 2 to the 48th
/// second. The call does not return where the system's clock stands
/// before the epoch.
#[verifier::external_body]
pub(crate) fn unix_now() -> (r: i64)
    ensures
        0 <= r < 0x1_0000_0000_0000,
{
    chrono::Utc::now().timestamp()
}

/// The reconciliation of the client's records with a server.
#[derive(Debug)]
pub struct SyncService {}

impl SyncService {
    /// What to ask the server of the subscription `sub` for its backlog:
    /// the messages since its watermark, or all that the server has kept
    /// where it has no watermark yet. Nothing is to be asked where the
    /// subscription is not kept.
    pub fn backlog_request(
        db: &Database,
        client: &NtfyClient,
        servers: &Vec<ServerConfig>,
        sub: &Subscription,
    ) -> (r: Option<HttpRequest>)
        requires
            db.wf(),
        ensures
            match r {
                Some(request) => db@.has_subscription(sub@.id) && request@ == (HttpRequestView {
                    url: messages_url(sub@.server_url, sub@.topic, db@.last_sync(sub@.id)),
                    authorization: auth_header_for(server_views(servers@), sub@.server_url),
                }),
                None => !db@.has_subscription(sub@.id),
            },
    {
        let last_sync = match db.get_subscription_with_last_sync(sub.id.as_str()) {
            Ok(Some((_, last_sync))) => last_sync,
            _ => {
                return None;
            },
        };
        let mut request = client.messages_request(
            sub.server_url.as_str(),
            sub.topic.as_str(),
            last_sync,
            None,
            None,
        );
        request.authorization = ConnectionManager::get_auth_header(
            servers,
            sub.server_url.as_str(),
        );
        Some(request)
    }

    /// The latest time of the messages that count.
    fn latest_time(messages: &Vec<NtfyMessage>) -> (r: Option<i64>)
        ensures
            r == highest_time(message_views(messages@)),
    {
        let ghost all = message_views(messages@);
        let mut highest: Option<i64> = None;
        let mut i: usize = 0;
        assert(all.subrange(0, 0) =~= Seq::empty());
        while i < messages.len()
            invariant
                i <= messages.len(),
                all == message_views(messages@),
                highest == highest_time(all.subrange(0, i as int)),
            decreases messages.len() - i,
        {
            let m = &messages[i];
            proof {
                assert(all.subrange(0, i + 1).drop_last() =~= all.subrange(0, i as int));
                assert(all.subrange(0, i + 1).last() == m@);
            }
            if m.is_user_message() && m.time_in_range() {
                highest = match highest {
                    Some(h) => if h >= m.time {
                        Some(h)
                    } else {
                        Some(m.time)
                    },
                    None => Some(m.time),
                };
            }
            i = i + 1;
        }
        assert(all.subrange(0, i as int) =~= all);
        highest
    }

    /// Takes in the backlog `messages` of the subscription
    /// `subscription_id`, fetched at the time `now`: every message is
    /// received under its pair of `ids`, and the watermark moves up. The
    /// notifications that were added are handed back, in their order.
    pub fn apply_backlog(
        db: &mut Database,
        subscription_id: &str,
        messages: &Vec<NtfyMessage>,
        ids: &Vec<IdPair>,
        now: i64,
    ) -> (r: Vec<Notification>)
        requires
            old(db).wf(),
            ids.len() == messages.len(),
            now < i64::MAX,
        ensures
            final(db).wf(),
            final(db)@ == old(db)@.with_backlog(
                subscription_id@,
                message_views(messages@),
                id_pairs(ids@),
                now,
            ),
            notification_views(r@) == backlog_added(
                old(db)@,
                subscription_id@,
                message_views(messages@),
                id_pairs(ids@),
            ),
    {
        let mut added: Vec<Notification> = Vec::new();
        assert(notification_views(added@) =~= Seq::empty());
        if db.find_subscription(subscription_id).is_none() {
            return added;
        }
        let ghost start = db@;
        let ghost all = message_views(messages@);
        let ghost pairs = id_pairs(ids@);
        let mut i: usize = 0;
        while i < messages.len()
            invariant
                i <= messages.len(),
                db.wf(),
                all == message_views(messages@),
                pairs == id_pairs(ids@),
                ids.len() == messages.len(),
                db@ == start.with_deliveries(subscription_id@, all, pairs, i as nat),
                notification_views(added@) == start.delivered(
                    subscription_id@,
                    all,
                    pairs,
                    i as nat,
                ),
            decreases messages.len() - i,
        {
            assert(pairs[i as int] == (ids[i as int].0@, ids[i as int].1@));
            assert(all[i as int] == messages[i as int]@);
            let ghost earlier = notification_views(added@);
            match db.deliver(subscription_id, &messages[i], ids[i].0.clone(), ids[i].1.clone()) {
                Some(n) => {
                    let ghost kept = n@;
                    added.push(n);
                    assert(notification_views(added@) =~= earlier.push(kept));
                },
                None => {},
            }
            i = i + 1;
        }
        let highest = Self::latest_time(messages);
        proof {
            lemma_highest_time_in_range(all);
        }
        db.advance_last_sync(subscription_id, Self::checkpoint_after(highest, now));
        added
    }

    /// The watermark that a fetch of the backlog at the time `now` leads
    /// to, where `highest` is the latest time of the messages fetched.
    pub fn checkpoint_after(highest: Option<i64>, now: i64) -> (r: i64)
        requires
            now < i64::MAX,
            highest is Some ==> highest->0 < i64::MAX,
        ensures
            r == checkpoint_floor(highest, now),
    {
        match highest {
            Some(h) => if h >= now {
                h + 1
            } else {
                now + 1
            },
            None => now + 1,
        }
    }

    /// Takes in the backlog `messages` of the subscription
    /// `subscription_id`, fetched just now: identifiers are made up for
    /// the notifications, and the clock says what time it is.
    pub fn sync_subscription_notifications(
        db: &mut Database,
        subscription_id: &str,
        messages: &Vec<NtfyMessage>,
    ) -> (r: Vec<Notification>)
        requires
            old(db).wf(),
        ensures
            final(db).wf(),
            exists|ids: Seq<(Seq<char>, Seq<char>)>, now: i64|
                0 <= now < 0x1_0000_0000_0000 && final(db)@ == #[trigger] old(db)@.with_backlog(
                    subscription_id@,
                    message_views(messages@),
                    ids,
                    now,
                ) && notification_views(r@) == backlog_added(
                    old(db)@,
                    subscription_id@,
                    message_views(messages@),
                    ids,
                ),
    {
        let mut ids: Vec<IdPair> = Vec::new();
        let mut i: usize = 0;
        while i < messages.len()
            invariant
                i <= messages.len(),
                ids.len() == i,
            decreases messages.len() - i,
        {
            ids.push((fresh_id(), fresh_id()));
            i = i + 1;
        }
        let now = unix_now();
        let ghost pairs = id_pairs(ids@);
        let ghost before = db@;
        let added = Self::apply_backlog(db, subscription_id, messages, &ids, now);
        assert(db@ == before.with_backlog(subscription_id@, message_views(messages@), pairs, now));
        added
    }

    /// The servers that the client signs in to: those with a user name
    /// that is not empty, and a password. The subscriptions of no other
    /// server are fetched.
    pub fn servers_to_sync(servers: &Vec<ServerConfig>) -> (r: Vec<ServerConfig>)
        ensures
            server_views(r@) == server_views(servers@).filter(has_credentials()),
    {
        let ghost all = server_views(servers@);
        let ghost keep = has_credentials();
        let mut out: Vec<ServerConfig> = Vec::new();
        let mut i: usize = 0;
        assert(all.subrange(0, 0) =~= Seq::empty());
        assert(Seq::<ServerConfigView>::empty().filter(keep) =~= Seq::empty()) by {
            reveal(Seq::filter);
        }
        while i < servers.len()
            invariant
                i <= servers.len(),
                all == server_views(servers@),
                keep == has_credentials(),
                server_views(out@) == all.subrange(0, i as int).filter(keep),
            decreases servers.len() - i,
        {
            let server = &servers[i];
            let hit = server.credentials().is_some();
            proof {
                broadcast use Seq::lemma_filter_push;

                assert(all.subrange(0, i + 1) =~= all.subrange(0, i as int).push(server@));
                assert(keep(server@) == hit);
            }
            if hit {
                let ghost prev = server_views(out@);
                out.push(server.clone());
                assert(server_views(out@) =~= prev.push(server@));
            }
            i = i + 1;
        }
        assert(all.subrange(0, i as int) =~= all);
        out
    }

    /// The credentials with which the subscriptions of the server that
    /// `server_url` names are fetched on demand.
    pub fn credentials_on_demand(servers: &Vec<ServerConfig>, server_url: &str) -> (r: Result<
        (String, String),
        AppError,
    >)
        ensures
            credentials_result_view(r) == demand_credentials(server_views(servers@), server_url@),
    {
        let ghost all = server_views(servers@);
        let mut i: usize = 0;
        assert(all.subrange(0, all.len() as int) =~= all);
        while i < servers.len()
            invariant
                i <= servers.len(),
                all == server_views(servers@),
                demand_credentials(all, server_url@) == demand_credentials(
                    all.subrange(i as int, all.len() as int),
                    server_url@,
                ),
            decreases servers.len() - i,
        {
            let server = &servers[i];
            proof {
                let rest = all.subrange(i as int, all.len() as int);
                assert(rest.first() == server@);
                assert(rest.drop_first() =~= all.subrange(i + 1, all.len() as int));
            }
            if server.url_matches(server_url) {
                return match (&server.username, &server.password) {
                    (None, _) => Err(
                        AppError::Connection(owned("Server has no username configured")),
                    ),
                    (Some(_), None) => Err(
                        AppError::Connection(owned("Server has no password configured")),
                    ),
                    (Some(u), Some(p)) => Ok((u.clone(), p.clone())),
                };
            }
            i = i + 1;
        }
        Err(AppError::NotFound(concat3("Server ", server_url, " not found")))
    }

    /// Takes in the account of the server `server_url`: every listed
    /// subscription that is new to the client is created, under its
    /// identifier of `ids`, and a connection is made for it. The plans of
    /// those connections are handed back.
    pub fn apply_account(
        db: &mut Database,
        manager: &mut ConnectionManager,
        server_url: &str,
        account: &NtfyAccount,
        ids: &Vec<String>,
    ) -> (r: Vec<ConnectionPlan>)
        requires
            old(db).wf(),
            old(manager).wf(),
            ids.len() == account.subscriptions.len(),
        ensures
            final(db).wf(),
            final(manager).wf(),
            (SyncState { db: final(db)@, manager: final(manager)@, plans: plan_views(r@) })
                == account_applied(
                SyncState { db: old(db)@, manager: old(manager)@, plans: Seq::empty() },
                server_url@,
                account@.subscriptions,
                views(ids@),
                account.subscriptions.len() as nat,
            ),
    {
        let ghost start = SyncState { db: db@, manager: manager@, plans: Seq::empty() };
        let ghost listed = account@.subscriptions;
        let ghost names = views(ids@);
        let mut plans: Vec<ConnectionPlan> = Vec::new();
        assert(plan_views(plans@) =~= Seq::empty());
        let key = normalize_url(server_url);
        let mut i: usize = 0;
        while i < account.subscriptions.len()
            invariant
                i <= account.subscriptions.len(),
                db.wf(),
                manager.wf(),
                key@ == normalized(server_url@),
                listed == account@.subscriptions,
                names == views(ids@),
                ids.len() == account.subscriptions.len(),
                (SyncState { db: db@, manager: manager@, plans: plan_views(plans@) })
                    == account_applied(start, server_url@, listed, names, i as nat),
            decreases account.subscriptions.len() - i,
        {
            let entry = &account.subscriptions[i];
            assert(listed[i as int] == entry@);
            assert(names[i as int] == ids[i as int]@);
            let ghost before = SyncState { db: db@, manager: manager@, plans: plan_views(plans@) };
            if urls_match(entry.base_url.as_str(), server_url) && !db.topic_is_taken(
                key,
                entry.topic.as_str(),
            ) {
                let request = CreateSubscription {
                    topic: entry.topic.clone(),
                    server_url: owned(key),
                    display_name: clone_opt(&entry.display_name),
                };
                assert(request@ == listed_request(server_url@, entry@));
                match db.create_subscription_with_id(request, ids[i].clone()) {
                    Ok(sub) => {
                        let ghost earlier = plan_views(plans@);
                        match manager.connect(&sub, &db.servers) {
                            Ok(plan) => {
                                let ghost p = plan@;
                                plans.push(plan);
                                assert(plan_views(plans@) =~= earlier.push(p));
                            },
                            Err(_) => {},
                        }
                    },
                    Err(_) => {},
                }
            }
            assert((SyncState { db: db@, manager: manager@, plans: plan_views(plans@) })
                == account_step(before, server_url@, listed[i as int], names[i as int]));
            i = i + 1;
        }
        plans
    }

    /// Takes in the account of the server `server_url`, with identifiers
    /// made up for the subscriptions that are created.
    pub fn sync_subscriptions(
        db: &mut Database,
        manager: &mut ConnectionManager,
        server_url: &str,
        account: &NtfyAccount,
    ) -> (r: Vec<ConnectionPlan>)
        requires
            old(db).wf(),
            old(manager).wf(),
        ensures
            final(db).wf(),
            final(manager).wf(),
            exists|ids: Seq<Seq<char>>|
                (SyncState { db: final(db)@, manager: final(manager)@, plans: plan_views(r@) })
                    == #[trigger] account_applied(
                    SyncState { db: old(db)@, manager: old(manager)@, plans: Seq::empty() },
                    server_url@,
                    account@.subscriptions,
                    ids,
                    account.subscriptions.len() as nat,
                ),
    {
        let mut ids: Vec<String> = Vec::new();
        let mut i: usize = 0;
        while i < account.subscriptions.len()
            invariant
                i <= account.subscriptions.len(),
                ids.len() == i,
            decreases account.subscriptions.len() - i,
        {
            ids.push(fresh_id());
            i = i + 1;
        }
        let ghost names = views(ids@);
        let ghost start = SyncState { db: db@, manager: manager@, plans: Seq::empty() };
        let plans = Self::apply_account(db, manager, server_url, account, &ids);
        assert((SyncState { db: db@, manager: manager@, plans: plan_views(plans@) })
            == account_applied(
            start,
            server_url@,
            account@.subscriptions,
            names,
            account.subscriptions.len() as nat,
        ));
        plans
    }

    /// The subscriptions of the client that the account of the server
    /// `server_url` lists, each with what the client shows of it, in the
    /// order of the account. They are the ones whose backlog is fetched
    /// when the subscriptions of one server are fetched on demand.
    pub fn listed_subscriptions(db: &Database, server_url: &str, account: &NtfyAccount) -> (r: Vec<
        Subscription,
    >)
        requires
            db.wf(),
        ensures
            subscription_views(r@) == db@.listed_known(
                server_url@,
                account@.subscriptions,
                account.subscriptions.len() as nat,
            ),
    {
        let ghost listed = account@.subscriptions;
        let key = normalize_url(server_url);
        let mut out: Vec<Subscription> = Vec::new();
        assert(subscription_views(out@) =~= Seq::empty());
        let mut i: usize = 0;
        while i < account.subscriptions.len()
            invariant
                i <= account.subscriptions.len(),
                db.wf(),
                key@ == normalized(server_url@),
                listed == account@.subscriptions,
                subscription_views(out@) == db@.listed_known(server_url@, listed, i as nat),
            decreases account.subscriptions.len() - i,
        {
            let entry = &account.subscriptions[i];
            assert(listed[i as int] == entry@);
            if urls_match(entry.base_url.as_str(), server_url) {
                match Self::find_topic(db, key, entry.topic.as_str()) {
                    Some(j) => {
                        proof {
                            lemma_topic_row(db@, j as int);
                        }
                        let shown = db.summarize(j);
                        let ghost earlier = subscription_views(out@);
                        let ghost item = shown@;
                        out.push(shown);
                        assert(subscription_views(out@) =~= earlier.push(item));
                    },
                    None => {},
                }
            }
            i = i + 1;
        }
        out
    }

    /// Where the subscription to `topic` on the server kept under `url` is
    /// kept.
    fn find_topic(db: &Database, url: &str, topic: &str) -> (r: Option<usize>)
        ensures
            match r {
                Some(j) => j < db.subscriptions.len() && db@.subscriptions[j as int].server_url
                    == url@ && db@.subscriptions[j as int].topic == topic@,
                None => !db@.has_topic(url@, topic@),
            },
    {
        let mut j: usize = 0;
        while j < db.subscriptions.len()
            invariant
                j <= db.subscriptions.len(),
                forall|b: int|
                    0 <= b < j ==> !((#[trigger] db@.subscriptions[b]).server_url == url@
                        && db@.subscriptions[b].topic == topic@),
            decreases db.subscriptions.len() - j,
        {
            if str_eq(db.subscriptions[j].server_url.as_str(), url) && str_eq(
                db.subscriptions[j].topic.as_str(),
                topic,
            ) {
                assert(db@.subscriptions[j as int].server_url == url@);
                return Some(j);
            }
            j = j + 1;
        }
        None
    }
}

} // verus!
