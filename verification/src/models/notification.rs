//! Stored notifications, and the messages of the wire protocol that they
//! are made from.

use crate::ids::fresh_id;
use crate::text::{clone_opt, clone_strings, opt_view, owned, str_eq, views};
use vstd::prelude::*;
use vstd::std_specs::convert::FromSpecImpl;

verus! {

/// The urgency of a notification, on the server's scale from 1 to 5.
#[derive(Debug, Clone, Copy, PartialEq, Eq, Structural)]
pub enum Priority {
    Min,
    Low,
    Default,
    High,
    Max,
}

impl Priority {
    /// The priority that a number of the wire protocol stands for; any
    /// number outside 1 to 5 stands for the default.
    pub open spec fn of_level(value: int) -> Priority {
        if value == 1 {
            Priority::Min
        } else if value == 2 {
            Priority::Low
        } else if value == 4 {
            Priority::High
        } else if value == 5 {
            Priority::Max
        } else {
            Priority::Default
        }
    }

    /// The number of this priority, from 1 to 5.
    pub open spec fn spec_level(self) -> int {
        match self {
            Priority::Min => 1,
            Priority::Low => 2,
            Priority::Default => 3,
            Priority::High => 4,
            Priority::Max => 5,
        }
    }

    /// The number of this priority, from 1 to 5.
    pub fn level(self) -> (r: u8)
        ensures
            r == self.spec_level(),
            Priority::of_level(r as int) == self,
    {
        match self {
            Priority::Min => 1,
            Priority::Low => 2,
            Priority::Default => 3,
            Priority::High => 4,
            Priority::Max => 5,
        }
    }
}

impl Default for Priority {
    fn default() -> (r: Priority)
        ensures
            r == Priority::Default,
    {
        Priority::Default
    }
}

impl From<i8> for Priority {
    fn from(value: i8) -> (r: Priority) {
        if value == 1 {
            Priority::Min
        } else if value == 2 {
            Priority::Low
        } else if value == 4 {
            Priority::High
        } else if value == 5 {
            Priority::Max
        } else {
            Priority::Default
        }
    }
}

impl FromSpecImpl<i8> for Priority {
    open spec fn obeys_from_spec() -> bool {
        true
    }

    open spec fn from_spec(value: i8) -> Priority {
        Priority::of_level(value as int)
    }
}

/// A button attached to a notification.
#[derive(Debug)]
pub struct NotificationAction {
    pub id: String,
    pub label: String,
    pub url: Option<String>,
    pub method: Option<String>,
    pub clear: bool,
}

/// A button, as plain values.
pub struct NotificationActionView {
    pub id: Seq<char>,
    pub label: Seq<char>,
    pub url: Option<Seq<char>>,
    pub method: Option<Seq<char>>,
    pub clear: bool,
}

impl View for NotificationAction {
    type V = NotificationActionView;

    open spec fn view(&self) -> NotificationActionView {
        NotificationActionView {
            id: self.id@,
            label: self.label@,
            url: opt_view(self.url),
            method: opt_view(self.method),
            clear: self.clear,
        }
    }
}

impl Clone for NotificationAction {
    fn clone(&self) -> (r: NotificationAction)
        ensures
            r@ == self@,
    {
        NotificationAction {
            id: self.id.clone(),
            label: self.label.clone(),
            url: clone_opt(&self.url),
            method: clone_opt(&self.method),
            clear: self.clear,
        }
    }
}

/// A file attached to a notification.
#[derive(Debug)]
pub struct Attachment {
    pub id: String,
    pub name: String,
    pub attachment_type: String,
    pub url: String,
    pub size: Option<i64>,
}

/// An attached file, as plain values.
pub struct AttachmentView {
    pub id: Seq<char>,
    pub name: Seq<char>,
    pub attachment_type: Seq<char>,
    pub url: Seq<char>,
    pub size: Option<i64>,
}

impl View for Attachment {
    type V = AttachmentView;

    open spec fn view(&self) -> AttachmentView {
        AttachmentView {
            id: self.id@,
            name: self.name@,
            attachment_type: self.attachment_type@,
            url: self.url@,
            size: self.size,
        }
    }
}

impl Clone for Attachment {
    fn clone(&self) -> (r: Attachment)
        ensures
            r@ == self@,
    {
        Attachment {
            id: self.id.clone(),
            name: self.name.clone(),
            attachment_type: self.attachment_type.clone(),
            url: self.url.clone(),
            size: self.size,
        }
    }
}

/// The views of a list of buttons.
pub open spec fn action_views(s: Seq<NotificationAction>) -> Seq<NotificationActionView> {
    Seq::new(s.len(), |i: int| s[i]@)
}

/// The views of a list of attached files.
pub open spec fn attachment_views(s: Seq<Attachment>) -> Seq<AttachmentView> {
    Seq::new(s.len(), |i: int| s[i]@)
}

/// A notification as the client keeps it.
#[derive(Debug)]
pub struct Notification {
    pub id: String,
    /// The identifier of the subscription that received it.
    pub topic_id: String,
    pub title: String,
    pub message: String,
    pub priority: Priority,
    pub tags: Vec<String>,
    /// Milliseconds since the epoch.
    pub timestamp: i64,
    pub actions: Vec<NotificationAction>,
    pub attachments: Vec<Attachment>,
    pub read: bool,
    pub is_expanded: bool,
    pub favorite: bool,
}

/// A notification, as plain values.
pub struct NotificationView {
    pub id: Seq<char>,
    pub topic_id: Seq<char>,
    pub title: Seq<char>,
    pub message: Seq<char>,
    pub priority: Priority,
    pub tags: Seq<Seq<char>>,
    pub timestamp: int,
    pub actions: Seq<NotificationActionView>,
    pub attachments: Seq<AttachmentView>,
    pub read: bool,
    pub is_expanded: bool,
    pub favorite: bool,
}

impl View for Notification {
    type V = NotificationView;

    open spec fn view(&self) -> NotificationView {
        NotificationView {
            id: self.id@,
            topic_id: self.topic_id@,
            title: self.title@,
            message: self.message@,
            priority: self.priority,
            tags: views(self.tags@),
            timestamp: self.timestamp as int,
            actions: action_views(self.actions@),
            attachments: attachment_views(self.attachments@),
            read: self.read,
            is_expanded: self.is_expanded,
            favorite: self.favorite,
        }
    }
}

/// A copy of a list of buttons.
pub fn clone_actions(v: &Vec<NotificationAction>) -> (r: Vec<NotificationAction>)
    ensures
        action_views(r@) == action_views(v@),
{
    let mut out: Vec<NotificationAction> = Vec::new();
    let mut i: usize = 0;
    while i < v.len()
        invariant
            i <= v.len(),
            out.len() == i,
            forall|j: int| 0 <= j < i ==> out[j]@ == v[j]@,
        decreases v.len() - i,
    {
        out.push(v[i].clone());
        i = i + 1;
    }
    assert(action_views(out@) =~= action_views(v@));
    out
}

/// A copy of a list of attached files.
pub fn clone_attachments(v: &Vec<Attachment>) -> (r: Vec<Attachment>)
    ensures
        attachment_views(r@) == attachment_views(v@),
{
    let mut out: Vec<Attachment> = Vec::new();
    let mut i: usize = 0;
    while i < v.len()
        invariant
            i <= v.len(),
            out.len() == i,
            forall|j: int| 0 <= j < i ==> out[j]@ == v[j]@,
        decreases v.len() - i,
    {
        out.push(v[i].clone());
        i = i + 1;
    }
    assert(attachment_views(out@) =~= attachment_views(v@));
    out
}

impl Clone for Notification {
    fn clone(&self) -> (r: Notification)
        ensures
            r@ == self@,
    {
        Notification {
            id: self.id.clone(),
            topic_id: self.topic_id.clone(),
            title: self.title.clone(),
            message: self.message.clone(),
            priority: self.priority,
            tags: clone_strings(&self.tags),
            timestamp: self.timestamp,
            actions: clone_actions(&self.actions),
            attachments: clone_attachments(&self.attachments),
            read: self.read,
            is_expanded: self.is_expanded,
            favorite: self.favorite,
        }
    }
}

/// A button of a message of the wire protocol.
#[derive(Debug)]
pub struct NtfyAction {
    pub id: String,
    pub action: String,
    pub label: String,
    pub url: Option<String>,
    pub method: Option<String>,
    pub clear: Option<bool>,
}

/// A button of a wire message, as plain values.
pub struct NtfyActionView {
    pub id: Seq<char>,
    pub action: Seq<char>,
    pub label: Seq<char>,
    pub url: Option<Seq<char>>,
    pub method: Option<Seq<char>>,
    pub clear: Option<bool>,
}

impl View for NtfyAction {
    type V = NtfyActionView;

    open spec fn view(&self) -> NtfyActionView {
        NtfyActionView {
            id: self.id@,
            action: self.action@,
            label: self.label@,
            url: opt_view(self.url),
            method: opt_view(self.method),
            clear: self.clear,
        }
    }
}

impl NtfyActionView {
    /// The stored button that this button of a wire message becomes: one
    /// that does not say whether it clears the notification does not.
    pub open spec fn to_action(self) -> NotificationActionView {
        NotificationActionView {
            id: self.id,
            label: self.label,
            url: self.url,
            method: self.method,
            clear: match self.clear {
                Some(c) => c,
                None => false,
            },
        }
    }
}

impl Clone for NtfyAction {
    fn clone(&self) -> (r: NtfyAction)
        ensures
            r@ == self@,
    {
        NtfyAction {
            id: self.id.clone(),
            action: self.action.clone(),
            label: self.label.clone(),
            url: clone_opt(&self.url),
            method: clone_opt(&self.method),
            clear: self.clear,
        }
    }
}

impl NotificationAction {
    /// The stored button for a button of a wire message.
    pub fn from_ntfy(action: &NtfyAction) -> (r: NotificationAction)
        ensures
            r@ == action@.to_action(),
    {
        NotificationAction {
            id: action.id.clone(),
            label: action.label.clone(),
            url: clone_opt(&action.url),
            method: clone_opt(&action.method),
            clear: match action.clear {
                Some(c) => c,
                None => false,
            },
        }
    }
}

/// The file attached to a message of the wire protocol.
#[derive(Debug)]
pub struct NtfyAttachment {
    pub name: String,
    pub mime_type: Option<String>,
    pub url: String,
    pub size: Option<i64>,
}

/// The file attached to a wire message, as plain values.
pub struct NtfyAttachmentView {
    pub name: Seq<char>,
    pub mime_type: Option<Seq<char>>,
    pub url: Seq<char>,
    pub size: Option<i64>,
}

impl View for NtfyAttachment {
    type V = NtfyAttachmentView;

    open spec fn view(&self) -> NtfyAttachmentView {
        NtfyAttachmentView {
            name: self.name@,
            mime_type: opt_view(self.mime_type),
            url: self.url@,
            size: self.size,
        }
    }
}

impl NtfyAttachmentView {
    /// The stored file, under the identifier `id`: a file of unstated
    /// type is taken for arbitrary bytes.
    pub open spec fn to_attachment(self, id: Seq<char>) -> AttachmentView {
        AttachmentView {
            id,
            name: self.name,
            attachment_type: match self.mime_type {
                Some(t) => t,
                None => "application/octet-stream"@,
            },
            url: self.url,
            size: self.size,
        }
    }
}

impl Clone for NtfyAttachment {
    fn clone(&self) -> (r: NtfyAttachment)
        ensures
            r@ == self@,
    {
        NtfyAttachment {
            name: self.name.clone(),
            mime_type: clone_opt(&self.mime_type),
            url: self.url.clone(),
            size: self.size,
        }
    }
}

impl Attachment {
    /// The stored file for the file of a wire message, under the
    /// identifier `id`.
    pub fn from_ntfy(attachment: &NtfyAttachment, id: String) -> (r: Attachment)
        ensures
            r@ == attachment@.to_attachment(id@),
    {
        Attachment {
            id,
            name: attachment.name.clone(),
            attachment_type: match &attachment.mime_type {
                Some(t) => t.clone(),
                None => owned("application/octet-stream"),
            },
            url: attachment.url.clone(),
            size: attachment.size,
        }
    }
}

/// The views of a list of buttons of wire messages.
pub open spec fn ntfy_action_views(s: Seq<NtfyAction>) -> Seq<NtfyActionView> {
    Seq::new(s.len(), |i: int| s[i]@)
}

/// A message as the server sends it, on the live stream and in answer to a
/// request for the backlog.
#[derive(Debug)]
pub struct NtfyMessage {
    /// The server's own identifier of the message.
    pub id: String,
    /// Seconds since the epoch.
    pub time: i64,
    pub event: String,
    pub topic: String,
    pub message: Option<String>,
    pub title: Option<String>,
    pub priority: Option<i8>,
    pub tags: Option<Vec<String>>,
    pub click: Option<String>,
    pub actions: Option<Vec<NtfyAction>>,
    pub attachment: Option<NtfyAttachment>,
}

/// A wire message, as plain values.
pub struct NtfyMessageView {
    pub id: Seq<char>,
    pub time: int,
    pub event: Seq<char>,
    pub topic: Seq<char>,
    pub message: Option<Seq<char>>,
    pub title: Option<Seq<char>>,
    pub priority: Option<i8>,
    pub tags: Option<Seq<Seq<char>>>,
    pub click: Option<Seq<char>>,
    pub actions: Option<Seq<NtfyActionView>>,
    pub attachment: Option<NtfyAttachmentView>,
}

impl View for NtfyMessage {
    type V = NtfyMessageView;

    open spec fn view(&self) -> NtfyMessageView {
        NtfyMessageView {
            id: self.id@,
            time: self.time as int,
            event: self.event@,
            topic: self.topic@,
            message: opt_view(self.message),
            title: opt_view(self.title),
            priority: self.priority,
            tags: match self.tags {
                Some(t) => Some(views(t@)),
                None => None,
            },
            click: opt_view(self.click),
            actions: match self.actions {
                Some(a) => Some(ntfy_action_views(a@)),
                None => None,
            },
            attachment: match self.attachment {
                Some(a) => Some(a@),
                None => None,
            },
        }
    }
}

/// The largest time in seconds that has a time in milliseconds.
pub const MAX_MESSAGE_TIME: i64 = 9_223_372_036_854_775;

impl NtfyMessageView {
    /// Whether the message's time, given in seconds, can be kept in
    /// milliseconds.
    pub open spec fn time_in_range(self) -> bool {
        -MAX_MESSAGE_TIME <= self.time <= MAX_MESSAGE_TIME
    }

    /// Whether this is a message that a user published, and no frame of the
    /// protocol's own (an acknowledgement, a keepalive).
    pub open spec fn is_user_message(self) -> bool {
        self.event == "message"@
    }

    /// The notification that the subscription `topic_id` keeps for this
    /// message, under the identifier `id`, its attached file under
    /// `attachment_id`. What the message leaves out is empty, its priority
    /// the default; the time goes from seconds to milliseconds; the
    /// notification is unread, collapsed and no favorite.
    pub open spec fn to_notification(
        self,
        topic_id: Seq<char>,
        id: Seq<char>,
        attachment_id: Seq<char>,
    ) -> NotificationView {
        NotificationView {
            id,
            topic_id,
            title: match self.title {
                Some(t) => t,
                None => Seq::empty(),
            },
            message: match self.message {
                Some(m) => m,
                None => Seq::empty(),
            },
            priority: match self.priority {
                Some(p) => Priority::of_level(p as int),
                None => Priority::Default,
            },
            tags: match self.tags {
                Some(t) => t,
                None => Seq::empty(),
            },
            timestamp: self.time * 1000,
            actions: match self.actions {
                Some(a) => Seq::new(a.len(), |i: int| a[i].to_action()),
                None => Seq::empty(),
            },
            attachments: match self.attachment {
                Some(a) => seq![a.to_attachment(attachment_id)],
                None => Seq::empty(),
            },
            read: false,
            is_expanded: false,
            favorite: false,
        }
    }
}

/// The identifier under which a notification keeps its first attached
/// file, and the empty text where it has none.
pub open spec fn first_attachment_id(n: NotificationView) -> Seq<char> {
    if n.attachments.len() > 0 {
        n.attachments[0].id
    } else {
        Seq::empty()
    }
}

/// A copy of a list of buttons of wire messages.
pub fn clone_ntfy_actions(v: &Vec<NtfyAction>) -> (r: Vec<NtfyAction>)
    ensures
        ntfy_action_views(r@) == ntfy_action_views(v@),
{
    let mut out: Vec<NtfyAction> = Vec::new();
    let mut i: usize = 0;
    while i < v.len()
        invariant
            i <= v.len(),
            out.len() == i,
            forall|j: int| 0 <= j < i ==> out[j]@ == v[j]@,
        decreases v.len() - i,
    {
        out.push(v[i].clone());
        i = i + 1;
    }
    assert(ntfy_action_views(out@) =~= ntfy_action_views(v@));
    out
}

impl Clone for NtfyMessage {
    fn clone(&self) -> (r: NtfyMessage)
        ensures
            r@ == self@,
    {
        NtfyMessage {
            id: self.id.clone(),
            time: self.time,
            event: self.event.clone(),
            topic: self.topic.clone(),
            message: clone_opt(&self.message),
            title: clone_opt(&self.title),
            priority: self.priority,
            tags: match &self.tags {
                Some(t) => Some(clone_strings(t)),
                None => None,
            },
            click: clone_opt(&self.click),
            actions: match &self.actions {
                Some(a) => Some(clone_ntfy_actions(a)),
                None => None,
            },
            attachment: match &self.attachment {
                Some(a) => Some(a.clone()),
                None => None,
            },
        }
    }
}

impl NtfyMessage {
    /// The server's identifier of the message, by which duplicates are
    /// recognized.
    pub fn ntfy_id(&self) -> (r: &str)
        ensures
            r@ == self@.id,
    {
        self.id.as_str()
    }

    /// Whether this is a message that a user published.
    pub fn is_user_message(&self) -> (r: bool)
        ensures
            r == self@.is_user_message(),
    {
        str_eq(self.event.as_str(), "message")
    }

    /// Whether the message's time can be kept in milliseconds.
    pub fn time_in_range(&self) -> (r: bool)
        ensures
            r == self@.time_in_range(),
    {
        -MAX_MESSAGE_TIME <= self.time && self.time <= MAX_MESSAGE_TIME
    }

    /// The notification that the subscription `topic_id` keeps for this
    /// message, under the identifiers given.
    pub fn into_notification_with_ids(
        self,
        topic_id: String,
        id: String,
        attachment_id: String,
    ) -> (r: Notification)
        requires
            self@.time_in_range(),
        ensures
            r@ == self@.to_notification(topic_id@, id@, attachment_id@),
    {
        let mut actions: Vec<NotificationAction> = Vec::new();
        if let Some(list) = &self.actions {
            let mut i: usize = 0;
            while i < list.len()
                invariant
                    i <= list.len(),
                    actions.len() == i,
                    forall|j: int| 0 <= j < i ==> actions[j]@ == list[j]@.to_action(),
                decreases list.len() - i,
            {
                actions.push(NotificationAction::from_ntfy(&list[i]));
                i = i + 1;
            }
        }
        let mut attachments: Vec<Attachment> = Vec::new();
        if let Some(a) = &self.attachment {
            attachments.push(Attachment::from_ntfy(a, attachment_id));
        }
        let r = Notification {
            id,
            topic_id,
            title: match &self.title {
                Some(t) => t.clone(),
                None => String::new(),
            },
            message: match &self.message {
                Some(m) => m.clone(),
                None => String::new(),
            },
            priority: match self.priority {
                Some(p) => Priority::from(p),
                None => Priority::Default,
            },
            tags: match &self.tags {
                Some(t) => clone_strings(t),
                None => Vec::new(),
            },
            timestamp: self.time * 1000,
            actions,
            attachments,
            read: false,
            is_expanded: false,
            favorite: false,
        };
        proof {
            let want = self@.to_notification(topic_id@, id@, attachment_id@);
            assert(r@.actions =~= want.actions);
            assert(r@.attachments =~= want.attachments);
            assert(r@.tags =~= want.tags);
        }
        r
    }

    /// The notification that the subscription `topic_id` keeps for this
    /// message, under identifiers made up for it and for its attached file.
    pub fn into_notification(self, topic_id: String) -> (r: Notification)
        requires
            self@.time_in_range(),
        ensures
            r@ == self@.to_notification(topic_id@, r@.id, first_attachment_id(r@)),
    {
        let id = fresh_id();
        let attachment_id = fresh_id();
        self.into_notification_with_ids(topic_id, id, attachment_id)
    }
}

} // verus!
