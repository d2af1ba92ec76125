//! Changing settings and servers.

use crate::db::connection::Database;
use crate::db::queries::settings::bool_setting;
use crate::error::AppError;
use crate::models::settings::{NotificationDisplayMethod, ThemeMode};
use crate::models::server_url::same_url;
use crate::services::connection_manager::{on_server, ConnectionManager};
use vstd::prelude::*;

verus! {

/// Sets the theme.
pub fn set_theme(db: &mut Database, theme: ThemeMode) -> (r: Result<(), AppError>)
    requires
        old(db).wf(),
    ensures
        final(db).wf(),
        final(db)@ == old(db)@.with_setting("theme"@, theme.setting()),
        r is Ok,
{
    db.set_setting("theme", theme.as_setting())
}

/// Sets how notifications are shown.
pub fn set_notification_method(db: &mut Database, method: NotificationDisplayMethod) -> (r: Result<
    (),
    AppError,
>)
    requires
        old(db).wf(),
    ensures
        final(db).wf(),
        final(db)@ == old(db)@.with_setting("notification_method"@, method.setting()),
        r is Ok,
{
    db.set_setting("notification_method", method.as_setting())
}

/// Turns the switch `key` on or off.
pub fn set_switch(db: &mut Database, key: &str, enabled: bool) -> (r: Result<(), AppError>)
    requires
        old(db).wf(),
    ensures
        final(db).wf(),
        final(db)@ == old(db)@.with_setting(
            key@,
            if enabled {
                "true"@
            } else {
                "false"@
            },
        ),
        r is Ok,
{
    db.set_setting(key, bool_setting(enabled))
}

/// Removes the server that `url` names. The streams of the subscriptions
/// that the records hold on it are disconnected first: the connections
/// whose tasks are to be told to stop are handed back, and none of those
/// subscriptions has a tracked connection any more. Then the server goes,
/// and with it its subscriptions and their notifications.
pub fn remove_server(db: &mut Database, manager: &mut ConnectionManager, url: &str) -> (r: Result<
    Vec<u64>,
    AppError,
>)
    requires
        old(db).wf(),
        old(manager).wf(),
    ensures
        final(db).wf(),
        final(manager).wf(),
        final(db)@ == old(db)@.without_server(url@),
        final(manager)@ == old(manager)@.without_server(old(db)@.summaries(), url@),
        r is Ok,
        r->Ok_0@ == old(manager)@.stopped_for_server(old(db)@.summaries(), url@),
        forall|i: int|
            0 <= i < old(db)@.subscriptions.len() && same_url(
                (#[trigger] old(db)@.subscriptions[i]).server_url,
                url@,
            ) ==> final(manager)@.current_of(old(db)@.subscriptions[i].id) is None,
        forall|k: Seq<char>|
            !on_server(old(db)@.summaries(), url@, k) ==> final(manager)@.current_of(k)
                == old(manager)@.current_of(k),
{
    let stopped = manager.disconnect_server(db, url);
    db.remove_server(url)?;
    Ok(stopped)
}

} // verus!
