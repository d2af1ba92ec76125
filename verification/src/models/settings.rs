//! Settings of the application, and the servers it is configured with.

use crate::error::{AppError, AppErrorView};
use crate::models::address::{address_verdict, check_address, parse_url, url_parse, verdict_view};
use crate::models::server_url::{normalize_url, normalized, same_url, urls_match};
use crate::text::{clone_opt, opt_view, owned, str_eq};
use vstd::prelude::*;
use vstd::string::*;

verus! {

/// The colour scheme of the application.
#[derive(Debug, Clone, Copy, PartialEq, Eq, Structural)]
pub enum ThemeMode {
    Light,
    Dark,
    System,
}

impl Default for ThemeMode {
    fn default() -> (r: ThemeMode)
        ensures
            r == ThemeMode::System,
    {
        ThemeMode::System
    }
}

impl ThemeMode {
    /// The word under which the theme is kept as a setting.
    pub open spec fn setting(self) -> Seq<char> {
        match self {
            ThemeMode::Light => "light"@,
            ThemeMode::Dark => "dark"@,
            ThemeMode::System => "system"@,
        }
    }

    /// The theme that a kept word stands for: any word but `light` and
    /// `dark` stands for the system's theme.
    pub open spec fn of_setting(word: Seq<char>) -> ThemeMode {
        if word == "light"@ {
            ThemeMode::Light
        } else if word == "dark"@ {
            ThemeMode::Dark
        } else {
            ThemeMode::System
        }
    }

    /// The word under which the theme is kept as a setting.
    pub fn as_setting(self) -> (r: &'static str)
        ensures
            r@ == self.setting(),
    {
        match self {
            ThemeMode::Light => "light",
            ThemeMode::Dark => "dark",
            ThemeMode::System => "system",
        }
    }

    /// The theme that a kept word stands for.
    pub fn from_setting(word: &str) -> (r: ThemeMode)
        ensures
            r == ThemeMode::of_setting(word@),
    {
        if str_eq(word, "light") {
            ThemeMode::Light
        } else if str_eq(word, "dark") {
            ThemeMode::Dark
        } else {
            ThemeMode::System
        }
    }
}

/// How notifications are shown on the desktop.
#[derive(Debug, Clone, Copy, PartialEq, Eq, Structural)]
pub enum NotificationDisplayMethod {
    /// The notifications of the platform.
    Native,
    /// Notifications of Windows with buttons and forced display.
    WindowsEnhanced,
}

impl Default for NotificationDisplayMethod {
    fn default() -> (r: NotificationDisplayMethod)
        ensures
            r == NotificationDisplayMethod::Native,
    {
        NotificationDisplayMethod::Native
    }
}

impl NotificationDisplayMethod {
    /// The word under which the method is kept as a setting.
    pub open spec fn setting(self) -> Seq<char> {
        match self {
            NotificationDisplayMethod::Native => "native"@,
            NotificationDisplayMethod::WindowsEnhanced => "windows_enhanced"@,
        }
    }

    /// The method that a kept word stands for: any word but
    /// `windows_enhanced` stands for the platform's notifications.
    pub open spec fn of_setting(word: Seq<char>) -> NotificationDisplayMethod {
        if word == "windows_enhanced"@ {
            NotificationDisplayMethod::WindowsEnhanced
        } else {
            NotificationDisplayMethod::Native
        }
    }

    /// The word under which the method is kept as a setting.
    pub fn as_setting(self) -> (r: &'static str)
        ensures
            r@ == self.setting(),
    {
        match self {
            NotificationDisplayMethod::Native => "native",
            NotificationDisplayMethod::WindowsEnhanced => "windows_enhanced",
        }
    }

    /// The method that a kept word stands for.
    pub fn from_setting(word: &str) -> (r: NotificationDisplayMethod)
        ensures
            r == NotificationDisplayMethod::of_setting(word@),
    {
        if str_eq(word, "windows_enhanced") {
            NotificationDisplayMethod::WindowsEnhanced
        } else {
            NotificationDisplayMethod::Native
        }
    }
}

/// A server that the client is configured with.
#[derive(Debug)]
pub struct ServerConfig {
    pub url: String,
    pub username: Option<String>,
    pub password: Option<String>,
    pub is_default: bool,
}

/// A configured server, as plain values.
pub struct ServerConfigView {
    pub url: Seq<char>,
    pub username: Option<Seq<char>>,
    pub password: Option<Seq<char>>,
    pub is_default: bool,
}

impl View for ServerConfig {
    type V = ServerConfigView;

    open spec fn view(&self) -> ServerConfigView {
        ServerConfigView {
            url: self.url@,
            username: opt_view(self.username),
            password: opt_view(self.password),
            is_default: self.is_default,
        }
    }
}

impl Clone for ServerConfig {
    fn clone(&self) -> (r: ServerConfig)
        ensures
            r@ == self@,
    {
        ServerConfig {
            url: self.url.clone(),
            username: clone_opt(&self.username),
            password: clone_opt(&self.password),
            is_default: self.is_default,
        }
    }
}

impl ServerConfigView {
    /// The user name and password to sign in with: both must be there, and
    /// the user name not empty.
    pub open spec fn credentials(self) -> Option<(Seq<char>, Seq<char>)> {
        match (self.username, self.password) {
            (Some(u), Some(p)) => if u.len() > 0 {
                Some((u, p))
            } else {
                None
            },
            _ => None,
        }
    }

    /// The verdict on a server whose address parsed as `parsed`.
    pub open spec fn verdict(self, parsed: Result<(Seq<char>, bool), Seq<char>>) -> Result<
        (),
        AppErrorView,
    > {
        address_verdict(self.url, parsed, "Invalid URL: "@, "URL"@)
    }
}

/// The plain values of a pair of credentials.
pub open spec fn credentials_view(c: Option<(&str, &str)>) -> Option<(Seq<char>, Seq<char>)> {
    match c {
        Some((u, p)) => Some((u@, p@)),
        None => None,
    }
}

impl ServerConfig {
    /// Checks the server's address.
    pub fn validate(&self) -> (r: Result<(), AppError>)
        ensures
            verdict_view(r) == self@.verdict(url_parse(self@.url)),
    {
        let parsed = parse_url(self.url.as_str());
        check_address(self.url.as_str(), &parsed, "Invalid URL: ", "URL")
    }

    /// The server's address in the form that identifies the server.
    pub fn normalized_url(&self) -> (r: &str)
        ensures
            r@ == normalized(self@.url),
    {
        normalize_url(self.url.as_str())
    }

    /// Whether `other` names this server.
    pub fn url_matches(&self, other: &str) -> (r: bool)
        ensures
            r == same_url(self@.url, other@),
    {
        urls_match(self.url.as_str(), other)
    }

    /// The user name and password to sign in with, where the server has
    /// both and the user name is not empty.
    pub fn credentials(&self) -> (r: Option<(&str, &str)>)
        ensures
            credentials_view(r) == self@.credentials(),
    {
        match (&self.username, &self.password) {
            (Some(u), Some(p)) => {
                if u.as_str().unicode_len() > 0 {
                    Some((u.as_str(), p.as_str()))
                } else {
                    None
                }
            },
            _ => None,
        }
    }
}

/// The views of a list of servers.
pub open spec fn server_views(s: Seq<ServerConfig>) -> Seq<ServerConfigView> {
    Seq::new(s.len(), |i: int| s[i]@)
}

/// A copy of a list of servers.
pub fn clone_servers(v: &Vec<ServerConfig>) -> (r: Vec<ServerConfig>)
    ensures
        server_views(r@) == server_views(v@),
{
    let mut out: Vec<ServerConfig> = Vec::new();
    let mut i: usize = 0;
    while i < v.len()
        invariant
            i <= v.len(),
            out.len() == i,
            forall|j: int| 0 <= j < i ==> out[j]@ == v[j]@,
        decreases v.len() - i,
    {
        out.push(v[i].clone());
        i = i + 1;
    }
    assert(server_views(out@) =~= server_views(v@));
    out
}

/// The settings of the application.
#[derive(Debug)]
pub struct AppSettings {
    pub theme: ThemeMode,
    pub servers: Vec<ServerConfig>,
    /// The address of the server that new subscriptions go to.
    pub default_server: String,
    pub minimize_to_tray: bool,
    pub start_minimized: bool,
    pub notification_method: NotificationDisplayMethod,
    pub notification_force_display: bool,
    pub notification_show_actions: bool,
    pub notification_show_images: bool,
    pub notification_sound: bool,
    pub compact_view: bool,
    pub expand_new_messages: bool,
    pub delete_local_only: bool,
    pub favorites_enabled: bool,
}

/// The settings, as plain values.
pub struct AppSettingsView {
    pub theme: ThemeMode,
    pub servers: Seq<ServerConfigView>,
    pub default_server: Seq<char>,
    pub minimize_to_tray: bool,
    pub start_minimized: bool,
    pub notification_method: NotificationDisplayMethod,
    pub notification_force_display: bool,
    pub notification_show_actions: bool,
    pub notification_show_images: bool,
    pub notification_sound: bool,
    pub compact_view: bool,
    pub expand_new_messages: bool,
    pub delete_local_only: bool,
    pub favorites_enabled: bool,
}

impl View for AppSettings {
    type V = AppSettingsView;

    open spec fn view(&self) -> AppSettingsView {
        AppSettingsView {
            theme: self.theme,
            servers: server_views(self.servers@),
            default_server: self.default_server@,
            minimize_to_tray: self.minimize_to_tray,
            start_minimized: self.start_minimized,
            notification_method: self.notification_method,
            notification_force_display: self.notification_force_display,
            notification_show_actions: self.notification_show_actions,
            notification_show_images: self.notification_show_images,
            notification_sound: self.notification_sound,
            compact_view: self.compact_view,
            expand_new_messages: self.expand_new_messages,
            delete_local_only: self.delete_local_only,
            favorites_enabled: self.favorites_enabled,
        }
    }
}

/// The settings that decide how a notification is shown.
#[derive(Debug, Clone, Copy, PartialEq, Eq, Structural)]
pub struct NotificationSettings {
    pub notification_method: NotificationDisplayMethod,
    pub notification_force_display: bool,
    pub notification_show_actions: bool,
    pub notification_show_images: bool,
    pub notification_sound: bool,
}

impl AppSettingsView {
    /// The part of the settings that decides how a notification is shown.
    pub open spec fn notification_settings(self) -> NotificationSettings {
        NotificationSettings {
            notification_method: self.notification_method,
            notification_force_display: self.notification_force_display,
            notification_show_actions: self.notification_show_actions,
            notification_show_images: self.notification_show_images,
            notification_sound: self.notification_sound,
        }
    }
}

/// The address of the public server that a new installation starts with.
pub open spec fn default_server_url() -> Seq<char> {
    "https://ntfy.sh"@
}

/// The settings of a new installation: the system's theme, the public
/// server as the only and default server, without credentials.
pub open spec fn default_settings() -> AppSettingsView {
    AppSettingsView {
        theme: ThemeMode::System,
        servers: seq![
            ServerConfigView {
                url: default_server_url(),
                username: None,
                password: None,
                is_default: true,
            },
        ],
        default_server: default_server_url(),
        minimize_to_tray: true,
        start_minimized: false,
        notification_method: NotificationDisplayMethod::Native,
        notification_force_display: false,
        notification_show_actions: true,
        notification_show_images: true,
        notification_sound: true,
        compact_view: false,
        expand_new_messages: true,
        delete_local_only: true,
        favorites_enabled: false,
    }
}

/// The value of a switch that is on unless it was turned off.
pub fn default_true() -> (r: bool)
    ensures
        r,
{
    true
}

impl Default for AppSettings {
    fn default() -> (r: AppSettings)
        ensures
            r@ == default_settings(),
    {
        let mut servers: Vec<ServerConfig> = Vec::new();
        servers.push(
            ServerConfig {
                url: owned("https://ntfy.sh"),
                username: None,
                password: None,
                is_default: true,
            },
        );
        let r = AppSettings {
            theme: ThemeMode::System,
            servers,
            default_server: owned("https://ntfy.sh"),
            minimize_to_tray: default_true(),
            start_minimized: false,
            notification_method: NotificationDisplayMethod::Native,
            notification_force_display: false,
            notification_show_actions: default_true(),
            notification_show_images: default_true(),
            notification_sound: default_true(),
            compact_view: false,
            expand_new_messages: default_true(),
            delete_local_only: default_true(),
            favorites_enabled: false,
        };
        assert(r@.servers =~= default_settings().servers);
        r
    }
}

} // verus!
