//! Adding and removing subscriptions.

use crate::db::connection::{Database, DatabaseView};
use crate::error::{AppError, AppErrorView};
use crate::ids::fresh_id;
use crate::models::address::url_parse;
use crate::models::subscription::{CreateSubscription, Subscription, SubscriptionView};
use crate::services::connection_manager::{
    identifiers_used_up, ConnectionManager, ConnectionManagerView, ConnectionPlan,
    ConnectionPlanView,
};
use vstd::prelude::*;

verus! {

/// The plain values of the result of adding a subscription.
pub open spec fn addition_view(r: Result<(Subscription, ConnectionPlan), AppError>) -> Result<
    (SubscriptionView, ConnectionPlanView),
    AppErrorView,
> {
    match r {
        Ok((s, p)) => Ok((s@, p@)),
        Err(e) => Err(e@),
    }
}

/// The records and the table after the subscription that `created` holds
/// was connected, and what the one who asked is told: the subscription
/// with the plan of its connection, or why it could not be added.
pub open spec fn addition(
    db: DatabaseView,
    manager: ConnectionManagerView,
    created: Result<SubscriptionView, AppErrorView>,
) -> (ConnectionManagerView, Result<(SubscriptionView, ConnectionPlanView), AppErrorView>) {
    match created {
        Ok(sub) => if manager.can_connect() {
            (manager.connected(sub.id), Ok((sub, manager.plan(sub, db.servers))))
        } else {
            (manager, Err(identifiers_used_up()))
        },
        Err(e) => (manager, Err(e)),
    }
}

/// Adds the subscription `subscription` under the identifier `id`, and
/// makes a connection for it.
pub fn add_subscription_with_id(
    db: &mut Database,
    manager: &mut ConnectionManager,
    subscription: CreateSubscription,
    id: String,
) -> (r: Result<(Subscription, ConnectionPlan), AppError>)
    requires
        old(db).wf(),
        old(manager).wf(),
    ensures
        final(db).wf(),
        final(manager).wf(),
        final(db)@ == old(db)@.creation(subscription@, url_parse(subscription@.server_url), id@).0,
        (final(manager)@, addition_view(r)) == addition(
            final(db)@,
            old(manager)@,
            old(db)@.creation(subscription@, url_parse(subscription@.server_url), id@).1,
        ),
{
    let sub = match db.create_subscription_with_id(subscription, id) {
        Ok(sub) => sub,
        Err(e) => {
            return Err(e);
        },
    };
    match manager.connect(&sub, &db.servers) {
        Ok(plan) => Ok((sub, plan)),
        Err(e) => Err(e),
    }
}

/// Adds the subscription `subscription` under an identifier made up for
/// it, and makes a connection for it.
pub fn add_subscription(
    db: &mut Database,
    manager: &mut ConnectionManager,
    subscription: CreateSubscription,
) -> (r: Result<(Subscription, ConnectionPlan), AppError>)
    requires
        old(db).wf(),
        old(manager).wf(),
    ensures
        final(db).wf(),
        final(manager).wf(),
        exists|id: Seq<char>|
            final(db)@ == (#[trigger] old(db)@.creation(
                subscription@,
                url_parse(subscription@.server_url),
                id,
            )).0 && (final(manager)@, addition_view(r)) == addition(
                final(db)@,
                old(manager)@,
                old(db)@.creation(subscription@, url_parse(subscription@.server_url), id).1,
            ),
{
    let id = fresh_id();
    let ghost chosen = id@;
    let ghost before = db@;
    let ghost request = subscription@;
    let r = add_subscription_with_id(db, manager, subscription, id);
    assert(db@ == before.creation(request, url_parse(request.server_url), chosen).0);
    r
}

/// Removes the subscription `id`: its stream is disconnected first, and
/// the connection whose task is to be told to stop is handed back; then
/// the subscription goes, and with it its notifications.
pub fn remove_subscription(db: &mut Database, manager: &mut ConnectionManager, id: &str) -> (r:
    Result<Option<u64>, AppError>)
    requires
        old(db).wf(),
        old(manager).wf(),
    ensures
        final(db).wf(),
        final(manager).wf(),
        final(db)@ == old(db)@.without_subscription(id@),
        final(manager)@ == old(manager)@.disconnected(id@),
        r is Ok,
        r->Ok_0 == old(manager)@.current_of(id@),
{
    let stopped = manager.disconnect(id);
    db.delete_subscription(id)?;
    Ok(stopped)
}

} // verus!
