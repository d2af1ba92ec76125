//! The records of the wire protocol, read from JSON values.

use crate::json::{
    boolean_of, integer_of, is_null, items_of, json_boolean, json_integer, json_is_null,
    json_items, json_member, json_text, member, text_of,
};
use crate::models::notification::{
    ntfy_action_views, NtfyAction, NtfyActionView, NtfyAttachment, NtfyAttachmentView,
    NtfyMessage, NtfyMessageView,
};
use crate::text::{opt_view, owned, views};
use serde_json::Value;
use vstd::prelude::*;

verus! {

/// A member that must be there and be a string.
pub open spec fn required_text(record: Value, key: Seq<char>) -> Option<Seq<char>> {
    match json_member(record, key) {
        Some(m) => json_text(m),
        None => None,
    }
}

/// A member that must be there and be an integer.
pub open spec fn required_integer(record: Value, key: Seq<char>) -> Option<i64> {
    match json_member(record, key) {
        Some(m) => json_integer(m),
        None => None,
    }
}

/// The member `key` where it is there and not `null`.
pub open spec fn present(record: Value, key: Seq<char>) -> Option<Value> {
    match json_member(record, key) {
        Some(m) => if json_is_null(m) {
            None
        } else {
            Some(m)
        },
        None => None,
    }
}

/// A member that may be left out, and must be a string where it is there:
/// `None` where it is something else, `Some(None)` where it is left out.
pub open spec fn optional_text(record: Value, key: Seq<char>) -> Option<Option<Seq<char>>> {
    match present(record, key) {
        Some(m) => match json_text(m) {
            Some(t) => Some(Some(t)),
            None => None,
        },
        None => Some(None),
    }
}

/// A member that may be left out, and must be a string where it is there,
/// `null` not being one: `None` where it is something else, and the empty
/// text where it is left out.
pub open spec fn defaulted_text(record: Value, key: Seq<char>) -> Option<Seq<char>> {
    match json_member(record, key) {
        Some(m) => json_text(m),
        None => Some(Seq::empty()),
    }
}

/// A member that may be left out, and must be an integer where it is there.
pub open spec fn optional_integer(record: Value, key: Seq<char>) -> Option<Option<i64>> {
    match present(record, key) {
        Some(m) => match json_integer(m) {
            Some(n) => Some(Some(n)),
            None => None,
        },
        None => Some(None),
    }
}

/// A member that may be left out, and must be an integer of 8 bits with a
/// sign where it is there.
pub open spec fn optional_small_integer(record: Value, key: Seq<char>) -> Option<Option<i8>> {
    match optional_integer(record, key) {
        Some(Some(n)) => if i8::MIN <= n <= i8::MAX {
            Some(Some(n as i8))
        } else {
            None
        },
        Some(None) => Some(None),
        None => None,
    }
}

/// A member that may be left out, and must be a boolean where it is there.
pub open spec fn optional_boolean(record: Value, key: Seq<char>) -> Option<Option<bool>> {
    match present(record, key) {
        Some(m) => match json_boolean(m) {
            Some(b) => Some(Some(b)),
            None => None,
        },
        None => Some(None),
    }
}

/// The texts of a list of values that are all strings.
pub open spec fn texts_of(items: Seq<Value>) -> Option<Seq<Seq<char>>> {
    if forall|i: int| 0 <= i < items.len() ==> json_text(#[trigger] items[i]) is Some {
        Some(Seq::new(items.len(), |i: int| json_text(items[i])->0))
    } else {
        None
    }
}

/// A member that may be left out, and must be an array of strings where it
/// is there.
pub open spec fn optional_texts(record: Value, key: Seq<char>) -> Option<Option<Seq<Seq<char>>>> {
    match present(record, key) {
        Some(m) => match json_items(m) {
            Some(items) => match texts_of(items) {
                Some(t) => Some(Some(t)),
                None => None,
            },
            None => None,
        },
        None => Some(None),
    }
}

/// The button that a JSON value denotes: an object with the strings `id`
/// and `label`, and, where they are there, the strings `action`, `url` and
/// `method` and the boolean `clear`. A button that does not say what kind
/// of action it is has the empty kind.
pub open spec fn action_of_json(value: Value) -> Option<NtfyActionView> {
    match (
        required_text(value, "id"@),
        defaulted_text(value, "action"@),
        required_text(value, "label"@),
        optional_text(value, "url"@),
        optional_text(value, "method"@),
        optional_boolean(value, "clear"@),
    ) {
        (Some(id), Some(action), Some(label), Some(url), Some(method), Some(clear)) => Some(
            NtfyActionView { id, action, label, url, method, clear },
        ),
        _ => None,
    }
}

/// The buttons of a list of values that all denote buttons.
pub open spec fn actions_of(items: Seq<Value>) -> Option<Seq<NtfyActionView>> {
    if forall|i: int| 0 <= i < items.len() ==> action_of_json(#[trigger] items[i]) is Some {
        Some(Seq::new(items.len(), |i: int| action_of_json(items[i])->0))
    } else {
        None
    }
}

/// A member that may be left out, and must be an array of buttons where it
/// is there.
pub open spec fn optional_actions(record: Value, key: Seq<char>) -> Option<
    Option<Seq<NtfyActionView>>,
> {
    match present(record, key) {
        Some(m) => match json_items(m) {
            Some(items) => match actions_of(items) {
                Some(a) => Some(Some(a)),
                None => None,
            },
            None => None,
        },
        None => Some(None),
    }
}

/// The attached file that a JSON value denotes: an object with the strings
/// `name` and `url` and, where they are there, the string `type` and the
/// integer `size`.
pub open spec fn attachment_of_json(value: Value) -> Option<NtfyAttachmentView> {
    match (
        required_text(value, "name"@),
        optional_text(value, "type"@),
        required_text(value, "url"@),
        optional_integer(value, "size"@),
    ) {
        (Some(name), Some(mime_type), Some(url), Some(size)) => Some(
            NtfyAttachmentView { name, mime_type, url, size },
        ),
        _ => None,
    }
}

/// A member that may be left out, and must be an attached file where it is
/// there.
pub open spec fn optional_attachment(record: Value, key: Seq<char>) -> Option<
    Option<NtfyAttachmentView>,
> {
    match present(record, key) {
        Some(m) => match attachment_of_json(m) {
            Some(a) => Some(Some(a)),
            None => None,
        },
        None => Some(None),
    }
}

/// The message that a JSON value denotes, and `None` where it denotes
/// none. A message is an object with the string `id`, the integer `time`
/// and the string `event`. It may have the strings `topic`, `message`,
/// `title` and `click`, the small integer `priority`, the array of strings
/// `tags`, the array of buttons `actions` and the attached file
/// `attachment`; a member that is there and of another kind makes the
/// record malformed. A message without a topic has the empty topic. In
/// place of a member that may be missing, `null` is taken for missing;
/// the topic, though, must be a string where it is there.
pub open spec fn message_of_json(value: Value) -> Option<NtfyMessageView> {
    match (
        required_text(value, "id"@),
        required_integer(value, "time"@),
        required_text(value, "event"@),
        defaulted_text(value, "topic"@),
        optional_text(value, "message"@),
        optional_text(value, "title"@),
        optional_small_integer(value, "priority"@),
        optional_texts(value, "tags"@),
        optional_text(value, "click"@),
        optional_actions(value, "actions"@),
        optional_attachment(value, "attachment"@),
    ) {
        (
            Some(id),
            Some(time),
            Some(event),
            Some(topic),
            Some(message),
            Some(title),
            Some(priority),
            Some(tags),
            Some(click),
            Some(actions),
            Some(attachment),
        ) => Some(
            NtfyMessageView {
                id,
                time: time as int,
                event,
                topic,
                message,
                title,
                priority,
                tags,
                click,
                actions,
                attachment,
            },
        ),
        _ => None,
    }
}

/// The plain values of an optional message.
pub open spec fn opt_message(o: Option<NtfyMessage>) -> Option<NtfyMessageView> {
    match o {
        Some(m) => Some(m@),
        None => None,
    }
}

/// The plain values of a member that may be left out.
pub open spec fn opt_opt_view(o: Option<Option<String>>) -> Option<Option<Seq<char>>> {
    match o {
        Some(inner) => Some(opt_view(inner)),
        None => None,
    }
}

/// The member `key` where it is there and not `null`.
fn read_present<'a>(record: &'a Value, key: &str) -> (r: Option<&'a Value>)
    ensures
        match r {
            Some(m) => present(*record, key@) == Some(*m),
            None => present(*record, key@) is None,
        },
{
    match member(record, key) {
        Some(m) => if is_null(m) {
            None
        } else {
            Some(m)
        },
        None => None,
    }
}

/// A member that must be there and be a string.
pub fn read_required_text(record: &Value, key: &str) -> (r: Option<String>)
    ensures
        opt_view(r) == required_text(*record, key@),
{
    match member(record, key) {
        Some(m) => match text_of(m) {
            Some(t) => Some(owned(t)),
            None => None,
        },
        None => None,
    }
}

/// A member that must be there and be an integer.
pub fn read_required_integer(record: &Value, key: &str) -> (r: Option<i64>)
    ensures
        r == required_integer(*record, key@),
{
    match member(record, key) {
        Some(m) => integer_of(m),
        None => None,
    }
}

/// A member that may be left out, and must be a string where it is there.
pub fn read_optional_text(record: &Value, key: &str) -> (r: Option<Option<String>>)
    ensures
        opt_opt_view(r) == optional_text(*record, key@),
{
    match read_present(record, key) {
        Some(m) => match text_of(m) {
            Some(t) => Some(Some(owned(t))),
            None => None,
        },
        None => Some(None),
    }
}

/// A member that may be left out, and must be a string where it is there.
pub fn read_defaulted_text(record: &Value, key: &str) -> (r: Option<String>)
    ensures
        opt_view(r) == defaulted_text(*record, key@),
{
    match member(record, key) {
        Some(m) => match text_of(m) {
            Some(t) => Some(owned(t)),
            None => None,
        },
        None => Some(String::new()),
    }
}

/// A member that may be left out, and must be an integer where it is there.
pub fn read_optional_integer(record: &Value, key: &str) -> (r: Option<Option<i64>>)
    ensures
        r == optional_integer(*record, key@),
{
    match read_present(record, key) {
        Some(m) => match integer_of(m) {
            Some(n) => Some(Some(n)),
            None => None,
        },
        None => Some(None),
    }
}

/// A member that may be left out, and must be a small integer where it is
/// there.
pub fn read_optional_small_integer(record: &Value, key: &str) -> (r: Option<Option<i8>>)
    ensures
        r == optional_small_integer(*record, key@),
{
    match read_optional_integer(record, key) {
        Some(Some(n)) => if -128 <= n && n <= 127 {
            Some(Some(n as i8))
        } else {
            None
        },
        Some(None) => Some(None),
        None => None,
    }
}

/// A member that may be left out, and must be a boolean where it is there.
pub fn read_optional_boolean(record: &Value, key: &str) -> (r: Option<Option<bool>>)
    ensures
        r == optional_boolean(*record, key@),
{
    match read_present(record, key) {
        Some(m) => match boolean_of(m) {
            Some(b) => Some(Some(b)),
            None => None,
        },
        None => Some(None),
    }
}

/// A member that may be left out, and must be an array of strings where it
/// is there.
#[verifier::loop_isolation(false)]
pub fn read_optional_texts(record: &Value, key: &str) -> (r: Option<Option<Vec<String>>>)
    ensures
        match r {
            Some(Some(t)) => optional_texts(*record, key@) == Some(Some(views(t@))),
            Some(None) => optional_texts(*record, key@) == Some(None::<Seq<Seq<char>>>),
            None => optional_texts(*record, key@) is None,
        },
{
    let m = match read_present(record, key) {
        Some(m) => m,
        None => {
            return Some(None);
        },
    };
    let items = match items_of(m) {
        Some(items) => items,
        None => {
            return None;
        },
    };
    let mut out: Vec<String> = Vec::new();
    let mut i: usize = 0;
    while i < items.len()
        invariant
            i <= items.len(),
            out.len() == i,
            forall|j: int| 0 <= j < i ==> json_text(#[trigger] items@[j]) == Some(out[j]@),
        decreases items.len() - i,
    {
        match text_of(&items[i]) {
            Some(t) => {
                out.push(owned(t));
            },
            None => {
                assert(json_text(items@[i as int]) is None);
                return None;
            },
        }
        i = i + 1;
    }
    assert(views(out@) =~= texts_of(items@)->0);
    Some(Some(out))
}

/// The button that a JSON value denotes.
pub fn read_action(value: &Value) -> (r: Option<NtfyAction>)
    ensures
        match r {
            Some(a) => action_of_json(*value) == Some(a@),
            None => action_of_json(*value) is None,
        },
{
    let id = read_required_text(value, "id");
    let action = read_defaulted_text(value, "action");
    let label = read_required_text(value, "label");
    let url = read_optional_text(value, "url");
    let method = read_optional_text(value, "method");
    let clear = read_optional_boolean(value, "clear");
    match (id, action, label, url, method, clear) {
        (Some(id), Some(action), Some(label), Some(url), Some(method), Some(clear)) => Some(
            NtfyAction { id, action, label, url, method, clear },
        ),
        _ => None,
    }
}

/// A member that may be left out, and must be an array of buttons where it
/// is there.
#[verifier::loop_isolation(false)]
pub fn read_optional_actions(record: &Value, key: &str) -> (r: Option<Option<Vec<NtfyAction>>>)
    ensures
        match r {
            Some(Some(a)) => optional_actions(*record, key@) == Some(Some(ntfy_action_views(a@))),
            Some(None) => optional_actions(*record, key@) == Some(None::<Seq<NtfyActionView>>),
            None => optional_actions(*record, key@) is None,
        },
{
    let m = match read_present(record, key) {
        Some(m) => m,
        None => {
            return Some(None);
        },
    };
    let items = match items_of(m) {
        Some(items) => items,
        None => {
            return None;
        },
    };
    let mut out: Vec<NtfyAction> = Vec::new();
    let mut i: usize = 0;
    while i < items.len()
        invariant
            i <= items.len(),
            out.len() == i,
            forall|j: int| 0 <= j < i ==> action_of_json(#[trigger] items@[j]) == Some(out[j]@),
        decreases items.len() - i,
    {
        match read_action(&items[i]) {
            Some(a) => {
                out.push(a);
            },
            None => {
                assert(action_of_json(items@[i as int]) is None);
                return None;
            },
        }
        i = i + 1;
    }
    assert(ntfy_action_views(out@) =~= actions_of(items@)->0);
    Some(Some(out))
}

/// The attached file that a JSON value denotes.
pub fn read_attachment(value: &Value) -> (r: Option<NtfyAttachment>)
    ensures
        match r {
            Some(a) => attachment_of_json(*value) == Some(a@),
            None => attachment_of_json(*value) is None,
        },
{
    let name = read_required_text(value, "name");
    let mime_type = read_optional_text(value, "type");
    let url = read_required_text(value, "url");
    let size = read_optional_integer(value, "size");
    match (name, mime_type, url, size) {
        (Some(name), Some(mime_type), Some(url), Some(size)) => Some(
            NtfyAttachment { name, mime_type, url, size },
        ),
        _ => None,
    }
}

/// A member that may be left out, and must be an attached file where it is
/// there.
pub fn read_optional_attachment(record: &Value, key: &str) -> (r: Option<Option<NtfyAttachment>>)
    ensures
        match r {
            Some(Some(a)) => optional_attachment(*record, key@) == Some(Some(a@)),
            Some(None) => optional_attachment(*record, key@) == Some(None::<NtfyAttachmentView>),
            None => optional_attachment(*record, key@) is None,
        },
{
    match read_present(record, key) {
        Some(m) => match read_attachment(m) {
            Some(a) => Some(Some(a)),
            None => None,
        },
        None => Some(None),
    }
}

/// The message that a JSON value denotes, and `None` where it denotes
/// none.
pub fn read_message(value: &Value) -> (r: Option<NtfyMessage>)
    ensures
        opt_message(r) == message_of_json(*value),
{
    let id = read_required_text(value, "id");
    let time = read_required_integer(value, "time");
    let event = read_required_text(value, "event");
    let topic = read_defaulted_text(value, "topic");
    let message = read_optional_text(value, "message");
    let title = read_optional_text(value, "title");
    let priority = read_optional_small_integer(value, "priority");
    let tags = read_optional_texts(value, "tags");
    let click = read_optional_text(value, "click");
    let actions = read_optional_actions(value, "actions");
    let attachment = read_optional_attachment(value, "attachment");
    match (id, time, event, topic, message, title, priority, tags, click, actions, attachment) {
        (
            Some(id),
            Some(time),
            Some(event),
            Some(topic),
            Some(message),
            Some(title),
            Some(priority),
            Some(tags),
            Some(click),
            Some(actions),
            Some(attachment),
        ) => Some(
            NtfyMessage {
                id,
                time,
                event,
                topic,
                message,
                title,
                priority,
                tags,
                click,
                actions,
                attachment,
            },
        ),
        _ => None,
    }
}

} // verus!
