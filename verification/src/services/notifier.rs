//! The notification sink: what becomes of a message that a stream
//! delivered, and what the desktop shows of it.

use crate::db::connection::Database;
use crate::ids::fresh_id;
use crate::models::notification::{
    Notification, NotificationActionView, NotificationView, NtfyMessage, Priority,
};
use crate::models::settings::{NotificationDisplayMethod, NotificationSettings};
use crate::services::connection_manager::ConnectionManager;
use crate::services::markdown::{sanitize_for_notification, sanitized};
use crate::text::owned;
use vstd::prelude::*;
use vstd::string::*;

verus! {

/// A message that was kept as a notification.
#[derive(Debug)]
pub struct Delivery {
    /// The notification, which the user interface is told of as new.
    pub notification: Notification,
    /// Whether the desktop shows it: not for a muted subscription.
    pub show: bool,
}

/// The sound of a notification of Windows.
#[derive(Debug, Clone, Copy, PartialEq, Eq, Structural)]
pub enum ToastSound {
    Default,
    /// The louder sound, for urgent notifications.
    Sms,
}

/// A notification as the platform shows it.
#[derive(Debug)]
pub struct NativeToast {
    pub title: String,
    pub body: String,
    /// Whether it plays the default sound.
    pub sound: bool,
}

/// A notification as Windows shows it.
#[derive(Debug)]
pub struct WinrtToast {
    pub title: String,
    pub text: String,
    /// Whether it is shown even when the user asked not to be disturbed.
    pub force_display: bool,
    /// Whether it stays longer.
    pub long_duration: bool,
    pub sound: Option<ToastSound>,
    /// Its buttons: a label and the address that it opens.
    pub buttons: Vec<(String, String)>,
    /// Whether an image is to be fetched for it.
    pub wants_image: bool,
}

/// What the desktop shows.
#[derive(Debug)]
pub enum Toast {
    Native(NativeToast),
    Winrt(WinrtToast),
}

/// The title of a notification that has none.
pub open spec fn untitled() -> Seq<char> {
    "New notification"@
}

/// The most buttons that Windows shows.
pub const MAX_BUTTONS: usize = 3;

/// The buttons that Windows shows, out of the first `n` buttons of a
/// notification: those that open an address.
pub open spec fn buttons_of(actions: Seq<NotificationActionView>, n: nat) -> Seq<
    (Seq<char>, Seq<char>),
>
    decreases n,
{
    if n == 0 {
        Seq::empty()
    } else {
        let earlier = buttons_of(actions, (n - 1) as nat);
        match actions[n - 1].url {
            Some(url) => earlier.push((actions[n - 1].label, url)),
            None => earlier,
        }
    }
}

/// The views of a list of buttons of Windows.
pub open spec fn button_views(s: Seq<(String, String)>) -> Seq<(Seq<char>, Seq<char>)> {
    Seq::new(s.len(), |i: int| (s[i].0@, s[i].1@))
}

/// The sound with which Windows shows a notification of a priority: the
/// louder one from high priority on, the default one for the default
/// priority, none below that or where sound is switched off.
pub open spec fn winrt_sound(priority: Priority, enabled: bool) -> Option<ToastSound> {
    if !enabled {
        None
    } else if priority.spec_level() >= 4 {
        Some(ToastSound::Sms)
    } else if priority.spec_level() >= 3 {
        Some(ToastSound::Default)
    } else {
        None
    }
}

/// Whether a notification is shown as Windows shows it: where that was
/// chosen and the platform is Windows.
pub open spec fn uses_winrt(settings: Option<NotificationSettings>, on_windows: bool) -> bool {
    on_windows && settings is Some && settings->0.notification_method
        == NotificationDisplayMethod::WindowsEnhanced
}

/// Whether `toast` is the notification as the platform shows it. Its
/// title is the plain text of the notification's title, and a stock title
/// where it has none; its body is the plain text of the message, so that
/// no markup shows on the desktop. It plays a sound
/// from the default priority on, unless sound is switched off; where the
/// settings are not known, sound is on.
pub open spec fn is_native_toast(
    toast: NativeToast,
    notification: NotificationView,
    settings: Option<NotificationSettings>,
) -> bool {
    &&& toast.title@ == if notification.title.len() == 0 {
        untitled()
    } else {
        sanitized(notification.title)
    }
    &&& toast.body@ == sanitized(notification.message)
    &&& toast.sound == ((match settings {
        Some(s) => s.notification_sound,
        None => true,
    }) && notification.priority.spec_level() >= 3)
}

/// Whether `toast` is the notification as Windows shows it. Title and
/// text are plain text. It is shown by force where that is switched on,
/// stays longer from high priority on, and has the sound of its priority.
/// Where buttons are switched on it has, of the first three buttons of the
/// notification, those that open an address.
pub open spec fn is_winrt_toast(
    toast: WinrtToast,
    notification: NotificationView,
    settings: NotificationSettings,
) -> bool {
    &&& toast.title@ == sanitized(
        if notification.title.len() == 0 {
            untitled()
        } else {
            notification.title
        },
    )
    &&& toast.text@ == sanitized(notification.message)
    &&& toast.force_display == settings.notification_force_display
    &&& toast.long_duration == (notification.priority.spec_level() >= 4)
    &&& toast.sound == winrt_sound(notification.priority, settings.notification_sound)
    &&& button_views(toast.buttons@) == if settings.notification_show_actions {
        buttons_of(
            notification.actions,
            if notification.actions.len() < MAX_BUTTONS {
                notification.actions.len()
            } else {
                MAX_BUTTONS as nat
            },
        )
    } else {
        Seq::empty()
    }
    &&& toast.wants_image == settings.notification_show_images
}

/// The settings that a reference to settings holds.
pub open spec fn settings_of(settings: Option<&NotificationSettings>) -> Option<
    NotificationSettings,
> {
    match settings {
        Some(s) => Some(*s),
        None => None,
    }
}

impl ConnectionManager {
    /// Takes in a message that the stream of the subscription
    /// `subscription_id` delivered: it is received into the records, under
    /// the identifiers given, and where it is kept the user interface is to
    /// be told, and the desktop shows it unless the subscription is muted.
    /// A message that is not kept, as one that was received before, has no
    /// effect at all.
    pub fn handle_notification_with_ids(
        db: &mut Database,
        subscription_id: &str,
        ntfy_msg: NtfyMessage,
        is_muted: bool,
        id: String,
        attachment_id: String,
    ) -> (r: Option<Delivery>)
        requires
            old(db).wf(),
        ensures
            final(db).wf(),
            final(db)@ == old(db)@.with_delivery(
                subscription_id@,
                ntfy_msg@,
                id@,
                attachment_id@,
            ),
            match r {
                Some(d) => old(db)@.delivers(subscription_id@, ntfy_msg@, id@) && d.notification@
                    == ntfy_msg@.to_notification(subscription_id@, id@, attachment_id@) && d.show
                    == !is_muted,
                None => !old(db)@.delivers(subscription_id@, ntfy_msg@, id@),
            },
    {
        match db.deliver(subscription_id, &ntfy_msg, id, attachment_id) {
            Some(notification) => Some(Delivery { notification, show: !is_muted }),
            None => None,
        }
    }

    /// Takes in a message that the stream of the subscription
    /// `subscription_id` delivered, under identifiers made up for it.
    pub fn handle_notification(
        db: &mut Database,
        subscription_id: &str,
        ntfy_msg: NtfyMessage,
        is_muted: bool,
    ) -> (r: Option<Delivery>)
        requires
            old(db).wf(),
        ensures
            final(db).wf(),
            exists|id: Seq<char>, attachment_id: Seq<char>|
                final(db)@ == #[trigger] old(db)@.with_delivery(
                    subscription_id@,
                    ntfy_msg@,
                    id,
                    attachment_id,
                ) && (r is Some <==> old(db)@.delivers(subscription_id@, ntfy_msg@, id)) && (r
                    is Some ==> r->0.show == !is_muted && r->0.notification@
                    == ntfy_msg@.to_notification(subscription_id@, id, attachment_id)),
    {
        let id = fresh_id();
        let attachment_id = fresh_id();
        let ghost before = db@;
        let ghost m = ntfy_msg@;
        let ghost chosen = id@;
        let ghost attached = attachment_id@;
        let r = Self::handle_notification_with_ids(
            db,
            subscription_id,
            ntfy_msg,
            is_muted,
            id,
            attachment_id,
        );
        assert(db@ == before.with_delivery(subscription_id@, m, chosen, attached));
        r
    }

    /// The notification as the platform shows it.
    pub fn native_toast(notification: &Notification, settings: Option<&NotificationSettings>) -> (r:
        NativeToast)
        ensures
            is_native_toast(r, notification@, settings_of(settings)),
    {
        let title = if notification.title.as_str().unicode_len() == 0 {
            owned("New notification")
        } else {
            sanitize_for_notification(notification.title.as_str())
        };
        let sound_enabled = match settings {
            Some(s) => s.notification_sound,
            None => true,
        };
        NativeToast {
            title,
            body: sanitize_for_notification(notification.message.as_str()),
            sound: sound_enabled && notification.priority.level() >= 3,
        }
    }

    /// The notification as Windows shows it.
    pub fn winrt_toast(notification: &Notification, settings: &NotificationSettings) -> (r:
        WinrtToast)
        ensures
            is_winrt_toast(r, notification@, *settings),
    {
        let title = if notification.title.as_str().unicode_len() == 0 {
            sanitize_for_notification("New notification")
        } else {
            sanitize_for_notification(notification.title.as_str())
        };
        let level = notification.priority.level();
        let sound = if !settings.notification_sound {
            None
        } else if level >= 4 {
            Some(ToastSound::Sms)
        } else if level >= 3 {
            Some(ToastSound::Default)
        } else {
            None
        };
        let mut buttons: Vec<(String, String)> = Vec::new();
        assert(button_views(buttons@) =~= Seq::empty());
        if settings.notification_show_actions {
            let ghost all = notification@.actions;
            let mut i: usize = 0;
            while i < notification.actions.len() && i < MAX_BUTTONS
                invariant
                    i <= notification.actions.len(),
                    i <= MAX_BUTTONS,
                    all == notification@.actions,
                    button_views(buttons@) == buttons_of(all, i as nat),
                decreases notification.actions.len() - i,
            {
                let action = &notification.actions[i];
                assert(all[i as int] == action@);
                match &action.url {
                    Some(url) => {
                        let ghost earlier = button_views(buttons@);
                        buttons.push((action.label.clone(), url.clone()));
                        assert(button_views(buttons@) =~= earlier.push((action@.label, url@)));
                    },
                    None => {},
                }
                i = i + 1;
            }
        }
        WinrtToast {
            title,
            text: sanitize_for_notification(notification.message.as_str()),
            force_display: settings.notification_force_display,
            long_duration: level >= 4,
            sound,
            buttons,
            wants_image: settings.notification_show_images,
        }
    }

    /// What the desktop shows of a notification: the notification of
    /// Windows where that was chosen and the platform is Windows, and the
    /// platform's own otherwise, also where the settings are not known.
    pub fn show_notification(
        notification: &Notification,
        settings: Option<&NotificationSettings>,
        on_windows: bool,
    ) -> (r: Toast)
        ensures
            match r {
                Toast::Winrt(t) => uses_winrt(settings_of(settings), on_windows) && is_winrt_toast(
                    t,
                    notification@,
                    settings_of(settings)->0,
                ),
                Toast::Native(t) => !uses_winrt(settings_of(settings), on_windows)
                    && is_native_toast(t, notification@, settings_of(settings)),
            },
    {
        match settings {
            Some(s) => {
                if on_windows && s.notification_method
                    == NotificationDisplayMethod::WindowsEnhanced {
                    Toast::Winrt(Self::winrt_toast(notification, s))
                } else {
                    Toast::Native(Self::native_toast(notification, settings))
                }
            },
            None => Toast::Native(Self::native_toast(notification, None)),
        }
    }
}

} // verus!
