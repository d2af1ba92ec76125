//! The connection supervisor: which connection is the current one of each
//! subscription, and what a connection's task does next.

use crate::error::{AppError, AppErrorView};
use crate::db::connection::Database;
use crate::models::server_url::{normalize_url, normalized, same_url, urls_match};
use crate::models::settings::{server_views, ServerConfig, ServerConfigView};
use crate::models::subscription::{Subscription, SubscriptionView};
use crate::db::queries::subscriptions::subscription_views;
use crate::services::ntfy_client::{optional_auth, NtfyClient};
use crate::text::{concat2, opt_view, owned, starts_with, str_starts_with};
use vstd::hash_map::StringHashMap;
use vstd::prelude::*;
use vstd::string::*;

verus! {

/// The address of the live stream of a topic: the server's address with
/// the scheme of the stream in place of `https://` or `http://` and
/// without slashes at its end, then the topic and the stream's path. An
/// address with neither scheme is taken for a host to reach securely. So
/// two addresses that name one server give one address of the stream.
pub open spec fn ws_url(server_url: Seq<char>, topic: Seq<char>) -> Seq<char> {
    if starts_with(server_url, "https://"@) {
        "wss://"@ + normalized(server_url.subrange(8, server_url.len() as int)) + "/"@ + topic
            + "/ws"@
    } else if starts_with(server_url, "http://"@) {
        "ws://"@ + normalized(server_url.subrange(7, server_url.len() as int)) + "/"@ + topic
            + "/ws"@
    } else {
        "wss://"@ + normalized(server_url) + "/"@ + topic + "/ws"@
    }
}

/// The first of the servers that `url` names.
pub open spec fn first_matching(servers: Seq<ServerConfigView>, url: Seq<char>) -> Option<
    ServerConfigView,
>
    decreases servers.len(),
{
    if servers.len() == 0 {
        None
    } else if same_url(servers.first().url, url) {
        Some(servers.first())
    } else {
        first_matching(servers.drop_first(), url)
    }
}

/// The header with which a stream to the server that `url` names signs
/// in: that of the first server that the address names, where that server
/// has a user name that is not empty, and a password.
pub open spec fn auth_header_for(servers: Seq<ServerConfigView>, url: Seq<char>) -> Option<
    Seq<char>,
> {
    match first_matching(servers, url) {
        Some(s) => optional_auth(s.username, s.password),
        None => None,
    }
}

/// The supervisor's table: for each subscription the connection that is
/// its current one. A task may go on only while its connection is the
/// current one of its subscription.
pub struct ConnectionManager {
    connections: StringHashMap<u64>,
    next_connection_id: u64,
}

/// The table as a map from subscriptions to their current connections,
/// and the identifier that the next connection gets.
pub struct ConnectionManagerView {
    pub current: Map<Seq<char>, u64>,
    pub next_connection_id: u64,
}

impl View for ConnectionManager {
    type V = ConnectionManagerView;

    closed spec fn view(&self) -> ConnectionManagerView {
        ConnectionManagerView {
            current: self.connections@,
            next_connection_id: self.next_connection_id,
        }
    }
}

/// What it takes to run the connection of a subscription.
#[derive(Debug)]
pub struct ConnectionPlan {
    pub subscription_id: String,
    /// The identifier of the new connection.
    pub connection_id: u64,
    /// The connection that was the current one before, whose task is to be
    /// told to stop.
    pub superseded: Option<u64>,
    pub ws_url: String,
    pub auth_header: Option<String>,
    pub is_muted: bool,
}

/// A plan, as plain values.
pub struct ConnectionPlanView {
    pub subscription_id: Seq<char>,
    pub connection_id: u64,
    pub superseded: Option<u64>,
    pub ws_url: Seq<char>,
    pub auth_header: Option<Seq<char>>,
    pub is_muted: bool,
}

impl View for ConnectionPlan {
    type V = ConnectionPlanView;

    open spec fn view(&self) -> ConnectionPlanView {
        ConnectionPlanView {
            subscription_id: self.subscription_id@,
            connection_id: self.connection_id,
            superseded: self.superseded,
            ws_url: self.ws_url@,
            auth_header: opt_view(self.auth_header),
            is_muted: self.is_muted,
        }
    }
}

/// The views of a list of plans.
pub open spec fn plan_views(s: Seq<ConnectionPlan>) -> Seq<ConnectionPlanView> {
    Seq::new(s.len(), |i: int| s[i]@)
}

/// The words that report that no identifier is left for a connection.
pub open spec fn identifiers_used_up() -> AppErrorView {
    AppErrorView::Connection("No connection identifier is left"@)
}

impl ConnectionManagerView {
    /// No current connection has an identifier that is still to be given
    /// out.
    pub open spec fn wf(self) -> bool {
        forall|k: Seq<char>| #[trigger]
            self.current.contains_key(k) ==> self.current[k] < self.next_connection_id
    }

    /// The current connection of a subscription.
    pub open spec fn current_of(self, subscription_id: Seq<char>) -> Option<u64> {
        if self.current.contains_key(subscription_id) {
            Some(self.current[subscription_id])
        } else {
            None
        }
    }

    /// Whether `connection_id` is the current connection of the
    /// subscription.
    pub open spec fn is_current(self, subscription_id: Seq<char>, connection_id: u64) -> bool {
        self.current_of(subscription_id) == Some(connection_id)
    }

    /// Whether an identifier is left for one more connection.
    pub open spec fn can_connect(self) -> bool {
        self.next_connection_id < u64::MAX
    }

    /// The table after a connection was made for the subscription: the
    /// next identifier is given out and is the subscription's current
    /// connection. Nothing changes where no identifier is left.
    pub open spec fn connected(self, subscription_id: Seq<char>) -> ConnectionManagerView {
        if self.can_connect() {
            ConnectionManagerView {
                current: self.current.insert(subscription_id, self.next_connection_id),
                next_connection_id: (self.next_connection_id + 1) as u64,
            }
        } else {
            self
        }
    }

    /// The table after the subscription was disconnected.
    pub open spec fn disconnected(self, subscription_id: Seq<char>) -> ConnectionManagerView {
        ConnectionManagerView { current: self.current.remove(subscription_id), ..self }
    }

    /// The plan of the connection that `connected` makes.
    pub open spec fn plan(
        self,
        subscription: SubscriptionView,
        servers: Seq<ServerConfigView>,
    ) -> ConnectionPlanView {
        ConnectionPlanView {
            subscription_id: subscription.id,
            connection_id: self.next_connection_id,
            superseded: self.current_of(subscription.id),
            ws_url: ws_url(subscription.server_url, subscription.topic),
            auth_header: auth_header_for(servers, subscription.server_url),
            is_muted: subscription.muted,
        }
    }

    /// The table after a connection was made for each of the
    /// subscriptions, in their order.
    pub open spec fn connected_all(
        self,
        subscriptions: Seq<SubscriptionView>,
    ) -> ConnectionManagerView
        decreases subscriptions.len(),
    {
        if subscriptions.len() == 0 {
            self
        } else {
            self.connected_all(subscriptions.drop_last()).connected(subscriptions.last().id)
        }
    }

    /// The plans of the connections that `connected_all` makes: one for
    /// each subscription for which an identifier was left.
    pub open spec fn plans(
        self,
        subscriptions: Seq<SubscriptionView>,
        servers: Seq<ServerConfigView>,
    ) -> Seq<ConnectionPlanView>
        decreases subscriptions.len(),
    {
        if subscriptions.len() == 0 {
            Seq::empty()
        } else {
            let before = self.connected_all(subscriptions.drop_last());
            let earlier = self.plans(subscriptions.drop_last(), servers);
            if before.can_connect() {
                earlier.push(before.plan(subscriptions.last(), servers))
            } else {
                earlier
            }
        }
    }

    /// The table after every subscription on the server that `url` names
    /// was disconnected.
    pub open spec fn without_server(
        self,
        subscriptions: Seq<SubscriptionView>,
        url: Seq<char>,
    ) -> ConnectionManagerView
        decreases subscriptions.len(),
    {
        if subscriptions.len() == 0 {
            self
        } else {
            let before = self.without_server(subscriptions.drop_last(), url);
            if same_url(subscriptions.last().server_url, url) {
                before.disconnected(subscriptions.last().id)
            } else {
                before
            }
        }
    }

    /// The connections whose tasks are to be told to stop when every
    /// subscription on the server that `url` names is disconnected.
    pub open spec fn stopped_for_server(
        self,
        subscriptions: Seq<SubscriptionView>,
        url: Seq<char>,
    ) -> Seq<u64>
        decreases subscriptions.len(),
    {
        if subscriptions.len() == 0 {
            Seq::empty()
        } else {
            let before = self.without_server(subscriptions.drop_last(), url);
            let earlier = self.stopped_for_server(subscriptions.drop_last(), url);
            if same_url(subscriptions.last().server_url, url) {
                match before.current_of(subscriptions.last().id) {
                    Some(c) => earlier.push(c),
                    None => earlier,
                }
            } else {
                earlier
            }
        }
    }
}

/// Whether one of the subscriptions with the identifier `id` is on the
/// server that `url` names.
pub open spec fn on_server(
    subscriptions: Seq<SubscriptionView>,
    url: Seq<char>,
    id: Seq<char>,
) -> bool {
    exists|i: int|
        0 <= i < subscriptions.len() && (#[trigger] subscriptions[i]).id == id && same_url(
            subscriptions[i].server_url,
            url,
        )
}

/// Disconnecting a server takes out of the table the subscriptions that
/// are on it, all of them and no others, and leaves the rest as it was.
pub proof fn lemma_without_server(
    manager: ConnectionManagerView,
    subscriptions: Seq<SubscriptionView>,
    url: Seq<char>,
)
    ensures
        manager.without_server(subscriptions, url).next_connection_id
            == manager.next_connection_id,
        forall|k: Seq<char>| #[trigger]
            manager.without_server(subscriptions, url).current.contains_key(k) <==> (
            manager.current.contains_key(k) && !on_server(subscriptions, url, k)),
        forall|k: Seq<char>| #[trigger]
            manager.without_server(subscriptions, url).current.contains_key(k)
                ==> manager.without_server(subscriptions, url).current[k] == manager.current[k],
    decreases subscriptions.len(),
{
    if subscriptions.len() > 0 {
        let rest = subscriptions.drop_last();
        let last = subscriptions.last();
        lemma_without_server(manager, rest, url);
        let before = manager.without_server(rest, url);
        let after = manager.without_server(subscriptions, url);
        assert forall|k: Seq<char>| on_server(subscriptions, url, k) == (on_server(rest, url, k)
            || (last.id == k && same_url(last.server_url, url))) by {
            if on_server(rest, url, k) {
                let i = choose|i: int|
                    0 <= i < rest.len() && (#[trigger] rest[i]).id == k && same_url(
                        rest[i].server_url,
                        url,
                    );
                assert(subscriptions[i] == rest[i]);
            }
            if last.id == k && same_url(last.server_url, url) {
                assert(subscriptions[subscriptions.len() - 1] == last);
            }
            if on_server(subscriptions, url, k) {
                let i = choose|i: int|
                    0 <= i < subscriptions.len() && (#[trigger] subscriptions[i]).id == k
                        && same_url(subscriptions[i].server_url, url);
                if i < rest.len() {
                    assert(rest[i] == subscriptions[i]);
                }
            }
        }
        assert forall|k: Seq<char>| #[trigger]
            after.current.contains_key(k) <==> (manager.current.contains_key(k) && !on_server(
                subscriptions,
                url,
                k,
            )) by {
            assert(before.current.contains_key(k) <==> (manager.current.contains_key(k)
                && !on_server(rest, url, k)));
        }
        assert forall|k: Seq<char>| #[trigger]
            after.current.contains_key(k) implies after.current[k] == manager.current[k] by {
            assert(before.current.contains_key(k));
        }
    }
}

impl ConnectionManager {
    /// Whether the table keeps its rule.
    pub open spec fn wf(&self) -> bool {
        self@.wf()
    }

    /// An empty table. The first connection gets the identifier 1.
    pub fn new() -> (r: ConnectionManager)
        ensures
            r.wf(),
            r@.current == Map::<Seq<char>, u64>::empty(),
            r@.next_connection_id == 1,
    {
        ConnectionManager { connections: StringHashMap::new(), next_connection_id: 1 }
    }

    /// The current connection of a subscription.
    pub fn current_connection(&self, subscription_id: &str) -> (r: Option<u64>)
        ensures
            r == self@.current_of(subscription_id@),
    {
        match self.connections.get(subscription_id) {
            Some(id) => Some(*id),
            None => None,
        }
    }

    /// Whether `connection_id` is the current connection of the
    /// subscription. A task asks this before every attempt to connect, and
    /// stops where the answer is no.
    pub fn is_current(&self, subscription_id: &str, connection_id: u64) -> (r: bool)
        ensures
            r == self@.is_current(subscription_id@, connection_id),
    {
        match self.current_connection(subscription_id) {
            Some(c) => c == connection_id,
            None => false,
        }
    }

    /// Makes a connection for the subscription the current one: it gets
    /// the next identifier, and the connection that was the current one
    /// before is handed back so that its task can be told to stop. The
    /// plan says where the stream is and how to sign in.
    pub fn connect(
        &mut self,
        subscription: &Subscription,
        servers: &Vec<ServerConfig>,
    ) -> (r: Result<
        ConnectionPlan,
        AppError,
    >)
        requires
            old(self).wf(),
        ensures
            final(self).wf(),
            final(self)@ == old(self)@.connected(subscription@.id),
            match r {
                Ok(plan) => old(self)@.can_connect() && plan@ == old(self)@.plan(
                    subscription@,
                    server_views(servers@),
                ),
                Err(e) => !old(self)@.can_connect() && e@ == identifiers_used_up(),
            },
    {
        if self.next_connection_id == u64::MAX {
            return Err(AppError::Connection(owned("No connection identifier is left")));
        }
        let connection_id = self.next_connection_id;
        let superseded = self.current_connection(subscription.id.as_str());
        self.connections.insert(subscription.id.clone(), connection_id);
        self.next_connection_id = connection_id + 1;
        let ws_url = Self::stream_url(subscription);
        Ok(
            ConnectionPlan {
                subscription_id: subscription.id.clone(),
                connection_id,
                superseded,
                ws_url,
                auth_header: Self::get_auth_header(servers, subscription.server_url.as_str()),
                is_muted: subscription.muted,
            },
        )
    }

    /// Takes the subscription out of the table and hands back the
    /// connection that was its current one, so that its task can be told
    /// to stop. Nothing happens where the subscription has none.
    pub fn disconnect(&mut self, subscription_id: &str) -> (r: Option<u64>)
        requires
            old(self).wf(),
        ensures
            final(self).wf(),
            final(self)@ == old(self)@.disconnected(subscription_id@),
            r == old(self)@.current_of(subscription_id@),
    {
        let r = self.current_connection(subscription_id);
        self.connections.remove(subscription_id);
        r
    }

    /// Disconnects every kept subscription that is on the server that
    /// `server_url` names, and hands back the connections whose tasks are
    /// to be told to stop. The subscriptions are read from the records.
    pub fn disconnect_server(&mut self, db: &Database, server_url: &str) -> (r: Vec<u64>)
        requires
            old(self).wf(),
        ensures
            final(self).wf(),
            final(self)@ == old(self)@.without_server(db@.summaries(), server_url@),
            r@ == old(self)@.stopped_for_server(db@.summaries(), server_url@),
            forall|i: int|
                0 <= i < db@.subscriptions.len() && same_url(
                    (#[trigger] db@.subscriptions[i]).server_url,
                    server_url@,
                ) ==> final(self)@.current_of(db@.subscriptions[i].id) is None,
            forall|k: Seq<char>|
                !on_server(db@.summaries(), server_url@, k) ==> final(self)@.current_of(k)
                    == old(self)@.current_of(k),
    {
        let ghost start = self@;
        let ghost subs = db@.summaries();
        let mut stopped: Vec<u64> = Vec::new();
        let mut i: usize = 0;
        assert(subs.subrange(0, 0) =~= Seq::empty());
        while i < db.subscriptions.len()
            invariant
                i <= db.subscriptions.len(),
                self.wf(),
                subs == db@.summaries(),
                self@ == start.without_server(subs.subrange(0, i as int), server_url@),
                stopped@ == start.stopped_for_server(subs.subrange(0, i as int), server_url@),
            decreases db.subscriptions.len() - i,
        {
            let row = &db.subscriptions[i];
            proof {
                assert(db@.subscriptions[i as int] == row@);
                assert(subs.subrange(0, i + 1).drop_last() =~= subs.subrange(0, i as int));
                assert(subs.subrange(0, i + 1).last().id == row@.id);
                assert(subs.subrange(0, i + 1).last().server_url == row@.server_url);
            }
            if urls_match(row.server_url.as_str(), server_url) {
                match self.disconnect(row.id.as_str()) {
                    Some(c) => {
                        stopped.push(c);
                    },
                    None => {},
                }
            }
            i = i + 1;
        }
        proof {
            assert(subs.subrange(0, i as int) =~= subs);
            lemma_without_server(start, subs, server_url@);
            assert forall|k: int|
                0 <= k < db@.subscriptions.len() && same_url(
                    (#[trigger] db@.subscriptions[k]).server_url,
                    server_url@,
                ) implies self@.current_of(db@.subscriptions[k].id) is None by {
                assert(subs[k].id == db@.subscriptions[k].id);
                assert(subs[k].server_url == db@.subscriptions[k].server_url);
                assert(on_server(subs, server_url@, db@.subscriptions[k].id));
            }
            assert forall|k: Seq<char>| !on_server(subs, server_url@, k) implies self@.current_of(
                k,
            ) == start.current_of(k) by {
                if start.current.contains_key(k) {
                    assert(self@.current.contains_key(k));
                }
            }
        }
        stopped
    }

    /// Makes a connection for each of the subscriptions, and hands back
    /// their plans. A subscription for which no identifier is left is
    /// passed over.
    pub fn connect_all(
        &mut self,
        subscriptions: &Vec<Subscription>,
        servers: &Vec<ServerConfig>,
    ) -> (r:
        Vec<ConnectionPlan>)
        requires
            old(self).wf(),
        ensures
            final(self).wf(),
            final(self)@ == old(self)@.connected_all(subscription_views(subscriptions@)),
            plan_views(r@) == old(self)@.plans(
                subscription_views(subscriptions@),
                server_views(servers@),
            ),
    {
        let ghost start = self@;
        let ghost subs = subscription_views(subscriptions@);
        let mut plans: Vec<ConnectionPlan> = Vec::new();
        let mut i: usize = 0;
        assert(subs.subrange(0, 0) =~= Seq::empty());
        assert(plan_views(plans@) =~= Seq::empty());
        while i < subscriptions.len()
            invariant
                i <= subscriptions.len(),
                self.wf(),
                subs == subscription_views(subscriptions@),
                self@ == start.connected_all(subs.subrange(0, i as int)),
                plan_views(plans@) == start.plans(subs.subrange(0, i as int), server_views(servers@)),
            decreases subscriptions.len() - i,
        {
            let sub = &subscriptions[i];
            proof {
                assert(subs.subrange(0, i + 1).drop_last() =~= subs.subrange(0, i as int));
                assert(subs.subrange(0, i + 1).last() == sub@);
            }
            let ghost earlier = plan_views(plans@);
            match self.connect(sub, servers) {
                Ok(plan) => {
                    let ghost p = plan@;
                    plans.push(plan);
                    assert(plan_views(plans@) =~= earlier.push(p));
                },
                Err(_) => {},
            }
            i = i + 1;
        }
        assert(subs.subrange(0, i as int) =~= subs);
        plans
    }

    /// The address of the live stream of the subscription's topic.
    fn stream_url(subscription: &Subscription) -> (r: String)
        ensures
            r@ == ws_url(subscription@.server_url, subscription@.topic),
    {
        let base = subscription.server_url.as_str();
        let topic = subscription.topic.as_str();
        let n: usize = base.unicode_len();
        proof {
            reveal_strlit("https://");
            reveal_strlit("http://");
        }
        let mut out = if str_starts_with(base, "https://") {
            concat2("wss://", normalize_url(base.substring_char(8, n)))
        } else if str_starts_with(base, "http://") {
            concat2("ws://", normalize_url(base.substring_char(7, n)))
        } else {
            concat2("wss://", normalize_url(base))
        };
        out.append("/");
        out.append(topic);
        out.append("/ws");
        out
    }

    /// The address of the live stream of the subscription's topic.
    pub fn build_ws_url(subscription: &Subscription) -> (r: Result<String, AppError>)
        ensures
            r is Ok,
            r->Ok_0@ == ws_url(subscription@.server_url, subscription@.topic),
    {
        Ok(Self::stream_url(subscription))
    }

    /// The header with which a stream to the server that `server_url`
    /// names signs in.
    pub fn get_auth_header(servers: &Vec<ServerConfig>, server_url: &str) -> (r: Option<String>)
        ensures
            opt_view(r) == auth_header_for(server_views(servers@), server_url@),
    {
        let ghost all = server_views(servers@);
        let mut i: usize = 0;
        assert(all.subrange(0, all.len() as int) =~= all);
        while i < servers.len()
            invariant
                i <= servers.len(),
                all == server_views(servers@),
                first_matching(all, server_url@) == first_matching(
                    all.subrange(i as int, all.len() as int),
                    server_url@,
                ),
            decreases servers.len() - i,
        {
            let server = &servers[i];
            proof {
                let rest = all.subrange(i as int, all.len() as int);
                assert(rest.first() == server@);
                assert(rest.drop_first() =~= all.subrange(i + 1, all.len() as int));
            }
            if server.url_matches(server_url) {
                return match (&server.username, &server.password) {
                    (Some(u), Some(p)) => NtfyClient::optional_auth_header(
                        Some(u.as_str()),
                        Some(p.as_str()),
                    ),
                    _ => None,
                };
            }
            i = i + 1;
        }
        None
    }
}

} // verus!
