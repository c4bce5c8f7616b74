//! What the relay reads of a message.
use serde_json::Value;
use vstd::prelude::*;

use crate::json::{as_array, as_bool, as_str, contents, field, json_of, member, object_keys, Json};

verus! {

/// What stands under a key where one kind of value is looked for.
pub enum Slot<T> {
    /// The key is missing.
    Missing,
    /// The value is of another kind.
    Other,
    /// The value is of the kind looked for.
    Is(T),
}

/// The parts of a message that decide what is done with it. The payload is not among them: the
/// relay passes it on unread.
pub struct Message {
    /// The keys of the object, or nothing where the message is no object.
    pub keys: Option<Vec<String>>,
    /// `type`, where it is a text.
    pub kind: Option<String>,
    /// `name`, where it is a text.
    pub name: Option<String>,
    /// `server_token`, where it is a text.
    pub server_token: Option<String>,
    /// `token`.
    pub token: Slot<String>,
    /// `to`, each item given where it is a text.
    pub to: Slot<Vec<Option<String>>>,
    /// `broadcast`.
    pub broadcast: Slot<bool>,
}

/// The content of a [`Message`].
pub struct MessageView {
    pub keys: Option<Set<Seq<char>>>,
    pub kind: Option<Seq<char>>,
    pub name: Option<Seq<char>>,
    pub server_token: Option<Seq<char>>,
    pub token: Slot<Seq<char>>,
    pub to: Slot<Seq<Option<Seq<char>>>>,
    pub broadcast: Slot<bool>,
}

impl View for Message {
    type V = MessageView;

    open spec fn view(&self) -> MessageView {
        MessageView {
            keys: match self.keys {
                Some(keys) => Some(keys.deep_view().to_set()),
                None => None,
            },
            kind: self.kind.deep_view(),
            name: self.name.deep_view(),
            server_token: self.server_token.deep_view(),
            token: match self.token {
                Slot::Missing => Slot::Missing,
                Slot::Other => Slot::Other,
                Slot::Is(text) => Slot::Is(text@),
            },
            to: match self.to {
                Slot::Missing => Slot::Missing,
                Slot::Other => Slot::Other,
                Slot::Is(items) => Slot::Is(items.deep_view()),
            },
            broadcast: self.broadcast,
        }
    }
}

impl Message {
    /// No key is listed twice.
    pub open spec fn wf(self) -> bool {
        self.keys matches Some(keys) ==> keys.deep_view().no_duplicates()
    }
}

/// The characters of a JSON text.
pub open spec fn text_of(json: Json) -> Option<Seq<char>> {
    match json {
        Json::Text(text) => Some(text),
        _ => None,
    }
}

/// The member under a key, where it is a text.
pub open spec fn text_member(json: Json, key: Seq<char>) -> Option<Seq<char>> {
    match member(json, key) {
        Some(item) => text_of(item),
        None => None,
    }
}

/// The member under a key, looked at as a text.
pub open spec fn text_slot(json: Json, key: Seq<char>) -> Slot<Seq<char>> {
    match member(json, key) {
        None => Slot::Missing,
        Some(Json::Text(text)) => Slot::Is(text),
        Some(_) => Slot::Other,
    }
}

/// The member under a key, looked at as a list.
pub open spec fn list_slot(json: Json, key: Seq<char>) -> Slot<Seq<Option<Seq<char>>>> {
    match member(json, key) {
        None => Slot::Missing,
        Some(Json::Array(items)) => Slot::Is(items.map_values(|item: Json| text_of(item))),
        Some(_) => Slot::Other,
    }
}

/// The member under a key, looked at as a boolean.
pub open spec fn bool_slot(json: Json, key: Seq<char>) -> Slot<bool> {
    match member(json, key) {
        None => Slot::Missing,
        Some(Json::Bool(b)) => Slot::Is(b),
        Some(_) => Slot::Other,
    }
}

/// What the relay reads of a JSON value.
pub open spec fn message_of(json: Json) -> MessageView {
    MessageView {
        keys: match json {
            Json::Object(members) => Some(members.dom()),
            _ => None,
        },
        kind: text_member(json, "type"@),
        name: text_member(json, "name"@),
        server_token: text_member(json, "server_token"@),
        token: text_slot(json, "token"@),
        to: list_slot(json, "to"@),
        broadcast: bool_slot(json, "broadcast"@),
    }
}

fn read_text(value: &Value, key: &str) -> (text: Option<String>)
    ensures
        text.deep_view() == text_member(json_of(*value), key@),
{
    match field(value, key) {
        Some(item) => match as_str(item) {
            Some(text) => Some(text.to_owned()),
            None => None,
        },
        None => None,
    }
}

fn read_text_slot(value: &Value, key: &str) -> (slot: Slot<String>)
    ensures
        match slot {
            Slot::Missing => text_slot(json_of(*value), key@) is Missing,
            Slot::Other => text_slot(json_of(*value), key@) is Other,
            Slot::Is(text) => text_slot(json_of(*value), key@) == Slot::Is(text@),
        },
{
    match field(value, key) {
        Some(item) => match as_str(item) {
            Some(text) => Slot::Is(text.to_owned()),
            None => Slot::Other,
        },
        None => Slot::Missing,
    }
}

fn read_list_slot(value: &Value, key: &str) -> (slot: Slot<Vec<Option<String>>>)
    ensures
        match slot {
            Slot::Missing => list_slot(json_of(*value), key@) is Missing,
            Slot::Other => list_slot(json_of(*value), key@) is Other,
            Slot::Is(items) => list_slot(json_of(*value), key@) == Slot::Is(items.deep_view()),
        },
{
    let item = match field(value, key) {
        Some(item) => item,
        None => return Slot::Missing,
    };
    let list = match as_array(item) {
        Some(list) => list,
        None => return Slot::Other,
    };
    let mut items: Vec<Option<String>> = Vec::new();
    let mut i: usize = 0;
    while i < list.len()
        invariant
            i <= list@.len(),
            items@.len() == i,
            forall|k: int|
                0 <= k < i ==> (#[trigger] items@[k]).deep_view() == text_of(json_of(list@[k])),
        decreases list@.len() - i,
    {
        let text: Option<String> = match as_str(&list[i]) {
            Some(text) => Some(text.to_owned()),
            None => None,
        };
        items.push(text);
        i += 1;
    }
    assert(items.deep_view() =~= contents(list@).map_values(|item: Json| text_of(item)));
    Slot::Is(items)
}

fn read_bool_slot(value: &Value, key: &str) -> (slot: Slot<bool>)
    ensures
        slot == bool_slot(json_of(*value), key@),
{
    match field(value, key) {
        Some(item) => match as_bool(item) {
            Some(b) => Slot::Is(b),
            None => Slot::Other,
        },
        None => Slot::Missing,
    }
}

/// Reads of a JSON value what the relay needs to know.
pub fn read_message(value: &Value) -> (message: Message)
    ensures
        message.wf(),
        message@ == message_of(json_of(*value)),
{
    Message {
        keys: object_keys(value),
        kind: read_text(value, "type"),
        name: read_text(value, "name"),
        server_token: read_text(value, "server_token"),
        token: read_text_slot(value, "token"),
        to: read_list_slot(value, "to"),
        broadcast: read_bool_slot(value, "broadcast"),
    }
}

} // verus!
