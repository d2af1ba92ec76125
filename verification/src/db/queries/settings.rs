//! Operations on settings.

use crate::db::connection::{Database, DatabaseView};
use crate::db::models::{setting_rows, SettingRow};
use crate::error::AppError;
use crate::models::settings::{
    clone_servers, AppSettings, AppSettingsView, NotificationDisplayMethod, NotificationSettings,
    ThemeMode,
};
use crate::seqs::{lemma_filter_from, lemma_filter_pairwise, pairwise};
use crate::text::{owned, str_eq};
use vstd::prelude::*;

verus! {

/// Every setting but the one of `key`.
pub open spec fn other_setting(key: Seq<char>) -> spec_fn((Seq<char>, Seq<char>)) -> bool {
    |s: (Seq<char>, Seq<char>)| s.0 != key
}

impl DatabaseView {
    /// Whether `key` has a setting.
    pub open spec fn has_setting(self, key: Seq<char>) -> bool {
        exists|i: int| 0 <= i < self.settings.len() && (#[trigger] self.settings[i]).0 == key
    }

    /// The value that is set for `key`.
    pub open spec fn setting(self, key: Seq<char>) -> Option<Seq<char>> {
        if self.has_setting(key) {
            Some(
                self.settings[choose|i: int|
                    0 <= i < self.settings.len() && (#[trigger] self.settings[i]).0 == key].1,
            )
        } else {
            None
        }
    }

    /// The text that is set for `key`, and `default` where nothing is set.
    pub open spec fn setting_string(self, key: Seq<char>, default: Seq<char>) -> Seq<char> {
        match self.setting(key) {
            Some(v) => v,
            None => default,
        }
    }

    /// The switch that is set for `key`: on exactly if the value is the
    /// word `true`, and `default` where nothing is set.
    pub open spec fn setting_bool(self, key: Seq<char>, default: bool) -> bool {
        match self.setting(key) {
            Some(v) => v == "true"@,
            None => default,
        }
    }

    /// The records with `value` set for `key`, in place of what was set.
    pub open spec fn with_setting(self, key: Seq<char>, value: Seq<char>) -> DatabaseView {
        DatabaseView {
            settings: self.settings.filter(other_setting(key)).push((key, value)),
            ..self
        }
    }

    /// The settings of the application as the records hold them.
    pub open spec fn app_settings(self) -> AppSettingsView {
        AppSettingsView {
            theme: ThemeMode::of_setting(self.setting_string("theme"@, "system"@)),
            servers: self.servers,
            default_server: self.default_server(),
            minimize_to_tray: self.setting_bool("minimize_to_tray"@, true),
            start_minimized: self.setting_bool("start_minimized"@, false),
            notification_method: NotificationDisplayMethod::of_setting(
                self.setting_string("notification_method"@, "native"@),
            ),
            notification_force_display: self.setting_bool("notification_force_display"@, false),
            notification_show_actions: self.setting_bool("notification_show_actions"@, true),
            notification_show_images: self.setting_bool("notification_show_images"@, true),
            notification_sound: self.setting_bool("notification_sound"@, true),
            compact_view: self.setting_bool("compact_view"@, false),
            expand_new_messages: self.setting_bool("expand_new_messages"@, true),
            delete_local_only: self.setting_bool("delete_local_only"@, true),
            favorites_enabled: self.setting_bool("favorites_enabled"@, false),
        }
    }
}

/// The word under which a switch is kept as a setting.
pub fn bool_setting(enabled: bool) -> (r: &'static str)
    ensures
        r@ == if enabled {
            "true"@
        } else {
            "false"@
        },
{
    if enabled {
        "true"
    } else {
        "false"
    }
}

impl Database {
    /// The value that is set for `key`.
    fn get_setting(&self, key: &str) -> (r: Option<&str>)
        requires
            self.wf(),
        ensures
            match r {
                Some(v) => self@.setting(key@) == Some(v@),
                None => self@.setting(key@) is None,
            },
    {
        let mut i: usize = 0;
        while i < self.settings.len()
            invariant
                i <= self.settings.len(),
                self.wf(),
                forall|j: int| 0 <= j < i ==> (#[trigger] self@.settings[j]).0 != key@,
            decreases self.settings.len() - i,
        {
            if str_eq(self.settings[i].key.as_str(), key) {
                proof {
                    assert(self@.settings[i as int] == self.settings[i as int]@);
                    let k = choose|k: int|
                        0 <= k < self@.settings.len() && (#[trigger] self@.settings[k]).0 == key@;
                    if i < k {
                        assert(self@.settings[i as int].0 != self@.settings[k].0);
                    }
                }
                return Some(self.settings[i].value.as_str());
            }
            i = i + 1;
        }
        None
    }

    /// The text that is set for `key`, and `default` where nothing is set.
    pub fn get_setting_string(&self, key: &str, default: &str) -> (r: Result<String, AppError>)
        requires
            self.wf(),
        ensures
            r is Ok,
            r->Ok_0@ == self@.setting_string(key@, default@),
    {
        match self.get_setting(key) {
            Some(v) => Ok(owned(v)),
            None => Ok(owned(default)),
        }
    }

    /// The switch that is set for `key`, and `default` where nothing is
    /// set.
    pub fn get_setting_bool(&self, key: &str, default: bool) -> (r: Result<bool, AppError>)
        requires
            self.wf(),
        ensures
            r == Ok::<bool, AppError>(self@.setting_bool(key@, default)),
    {
        match self.get_setting(key) {
            Some(v) => Ok(str_eq(v, "true")),
            None => Ok(default),
        }
    }

    /// Sets `value` for `key`, in place of what was set.
    pub fn set_setting(&mut self, key: &str, value: &str) -> (r: Result<(), AppError>)
        requires
            old(self).wf(),
        ensures
            final(self).wf(),
            final(self)@ == old(self)@.with_setting(key@, value@),
            r is Ok,
    {
        let ghost before = self@;
        let ghost keep = other_setting(key@);
        let mut out: Vec<SettingRow> = Vec::new();
        let mut i: usize = 0;
        assert(before.settings.subrange(0, 0) =~= Seq::empty());
        assert(Seq::<(Seq<char>, Seq<char>)>::empty().filter(keep) =~= Seq::empty()) by {
            reveal(Seq::filter);
        }
        while i < self.settings.len()
            invariant
                i <= self.settings.len(),
                self@ == before,
                keep == other_setting(key@),
                setting_rows(out@) == before.settings.subrange(0, i as int).filter(keep),
            decreases self.settings.len() - i,
        {
            let row = &self.settings[i];
            let hit = str_eq(row.key.as_str(), key);
            proof {
                broadcast use Seq::lemma_filter_push;

                assert(before.settings[i as int] == row@);
                assert(before.settings.subrange(0, i + 1) =~= before.settings.subrange(
                    0,
                    i as int,
                ).push(row@));
                assert(keep(row@) == !hit);
            }
            if !hit {
                let ghost prev = setting_rows(out@);
                out.push(row.clone());
                assert(setting_rows(out@) =~= prev.push(row@));
            }
            i = i + 1;
        }
        assert(before.settings.subrange(0, i as int) =~= before.settings);
        let ghost kept = setting_rows(out@);
        out.push(SettingRow { key: owned(key), value: owned(value) });
        self.settings = out;
        proof {
            assert(self@.settings =~= kept.push((key@, value@)));
            assert(self@.servers == before.servers);
            assert(self@.subscriptions == before.subscriptions);
            assert(self@.notifications == before.notifications);
            let distinct_keys = |a: (Seq<char>, Seq<char>), b: (Seq<char>, Seq<char>)| a.0 != b.0;
            assert(pairwise(before.settings, distinct_keys));
            lemma_filter_pairwise(before.settings, keep, distinct_keys);
            assert forall|a: int, b: int| 0 <= a < b < self@.settings.len() implies (
            #[trigger] self@.settings[a]).0 != (#[trigger] self@.settings[b]).0 by {
                if b < kept.len() {
                    assert(distinct_keys(kept[a], kept[b]));
                } else {
                    lemma_filter_from(before.settings, keep, a);
                }
            }
        }
        Ok(())
    }

    /// The settings that decide how a notification is shown.
    pub fn get_notification_settings(&self) -> (r: Result<NotificationSettings, AppError>)
        requires
            self.wf(),
        ensures
            r == Ok::<NotificationSettings, AppError>(
                self@.app_settings().notification_settings(),
            ),
    {
        let method = match self.get_setting("notification_method") {
            Some(v) => NotificationDisplayMethod::from_setting(v),
            None => NotificationDisplayMethod::from_setting("native"),
        };
        Ok(
            NotificationSettings {
                notification_method: method,
                notification_force_display: self.switch("notification_force_display", false),
                notification_show_actions: self.switch("notification_show_actions", true),
                notification_show_images: self.switch("notification_show_images", true),
                notification_sound: self.switch("notification_sound", true),
            },
        )
    }

    /// The switch that is set for `key`, and `default` where nothing is
    /// set.
    pub(crate) fn switch(&self, key: &str, default: bool) -> (r: bool)
        requires
            self.wf(),
        ensures
            r == self@.setting_bool(key@, default),
    {
        match self.get_setting(key) {
            Some(v) => str_eq(v, "true"),
            None => default,
        }
    }

    /// Whether the application starts minimized.
    pub fn get_start_minimized(&self) -> (r: Result<bool, AppError>)
        requires
            self.wf(),
        ensures
            r == Ok::<bool, AppError>(self@.app_settings().start_minimized),
    {
        Ok(self.switch("start_minimized", false))
    }

    /// Whether closing the window minimizes the application to the tray.
    pub fn get_minimize_to_tray(&self) -> (r: Result<bool, AppError>)
        requires
            self.wf(),
        ensures
            r == Ok::<bool, AppError>(self@.app_settings().minimize_to_tray),
    {
        Ok(self.switch("minimize_to_tray", true))
    }

    /// Whether deleting a notification leaves the server's copy alone.
    pub fn get_delete_local_only(&self) -> (r: Result<bool, AppError>)
        requires
            self.wf(),
        ensures
            r == Ok::<bool, AppError>(self@.app_settings().delete_local_only),
    {
        Ok(self.switch("delete_local_only", true))
    }

    /// The settings of the application.
    pub fn get_settings(&self) -> (r: Result<AppSettings, AppError>)
        requires
            self.wf(),
        ensures
            r is Ok,
            r->Ok_0@ == self@.app_settings(),
    {
        let theme = match self.get_setting("theme") {
            Some(v) => ThemeMode::from_setting(v),
            None => ThemeMode::from_setting("system"),
        };
        let method = match self.get_setting("notification_method") {
            Some(v) => NotificationDisplayMethod::from_setting(v),
            None => NotificationDisplayMethod::from_setting("native"),
        };
        let default_server = self.default_server_url();
        Ok(
            AppSettings {
                theme,
                servers: clone_servers(&self.servers),
                default_server,
                minimize_to_tray: self.switch("minimize_to_tray", true),
                start_minimized: self.switch("start_minimized", false),
                notification_method: method,
                notification_force_display: self.switch("notification_force_display", false),
                notification_show_actions: self.switch("notification_show_actions", true),
                notification_show_images: self.switch("notification_show_images", true),
                notification_sound: self.switch("notification_sound", true),
                compact_view: self.switch("compact_view", false),
                expand_new_messages: self.switch("expand_new_messages", true),
                delete_local_only: self.switch("delete_local_only", true),
                favorites_enabled: self.switch("favorites_enabled", false),
            },
        )
    }
}

} // verus!
