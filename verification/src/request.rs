//! From a message to what it asks for, or to the error that it is answered with.
use vstd::prelude::*;

use crate::limits::MAX_CONNECTIONS;
use crate::message::{Message, MessageView, Slot};
use crate::secret::same_secret;
use crate::text::{is_name, one_of, same_text, valid_name};

verus! {

/// The errors that the relay answers with.
#[derive(Clone, Copy, Debug, PartialEq, Eq, Structural)]
pub enum RelayError {
    BadJson,
    AlreadyRegistered,
    Unauthorized,
    InvalidRegistration,
    InvalidName,
    NameTaken,
    RegisterFirst,
    InvalidMessage,
    UserUnavailable,
    UnknownType,
}

impl RelayError {
    /// The words that stand for the error on the wire.
    pub open spec fn words(self) -> Seq<char> {
        match self {
            RelayError::BadJson => "bad json"@,
            RelayError::AlreadyRegistered => "already registered"@,
            RelayError::Unauthorized => "unauthorized"@,
            RelayError::InvalidRegistration => "invalid registration"@,
            RelayError::InvalidName => "invalid name"@,
            RelayError::NameTaken => "name taken"@,
            RelayError::RegisterFirst => "register first"@,
            RelayError::InvalidMessage => "invalid message"@,
            RelayError::UserUnavailable => "user unavailable"@,
            RelayError::UnknownType => "unknown type"@,
        }
    }

    /// The words that stand for the error on the wire.
    pub fn text(self) -> (text: &'static str)
        ensures
            text@ == self.words(),
    {
        match self {
            RelayError::BadJson => "bad json",
            RelayError::AlreadyRegistered => "already registered",
            RelayError::Unauthorized => "unauthorized",
            RelayError::InvalidRegistration => "invalid registration",
            RelayError::InvalidName => "invalid name",
            RelayError::NameTaken => "name taken",
            RelayError::RegisterFirst => "register first",
            RelayError::InvalidMessage => "invalid message",
            RelayError::UserUnavailable => "user unavailable",
            RelayError::UnknownType => "unknown type",
        }
    }
}

/// Whom a message is for.
pub enum Audience {
    /// Every registered connection.
    Everyone,
    /// The connections registered under these names, and the sender.
    Names(Vec<String>),
}

/// The content of an [`Audience`].
pub enum AudienceView {
    Everyone,
    Names(Seq<Seq<char>>),
}

impl View for Audience {
    type V = AudienceView;

    open spec fn view(&self) -> AudienceView {
        match self {
            Audience::Everyone => AudienceView::Everyone,
            Audience::Names(names) => AudienceView::Names(names.deep_view()),
        }
    }
}

/// What a message asks for.
pub enum Request {
    /// Nothing that can be done: answer with an error and read on.
    Refuse(RelayError),
    /// Nothing that can be done: answer with an error and close the connection.
    Dismiss(RelayError),
    /// To register a name, with the token of the name where the peer holds one.
    Register { name: String, token: Option<String> },
    /// To pass the message on.
    Route(Audience),
    /// To list the registered names.
    Users,
    /// To answer.
    Ping,
}

/// The content of a [`Request`].
pub enum RequestView {
    Refuse(RelayError),
    Dismiss(RelayError),
    Register { name: Seq<char>, token: Option<Seq<char>> },
    Route(AudienceView),
    Users,
    Ping,
}

impl View for Request {
    type V = RequestView;

    open spec fn view(&self) -> RequestView {
        match self {
            Request::Refuse(error) => RequestView::Refuse(*error),
            Request::Dismiss(error) => RequestView::Dismiss(*error),
            Request::Register { name, token } => RequestView::Register {
                name: name@,
                token: token.deep_view(),
            },
            Request::Route(audience) => RequestView::Route(audience@),
            Request::Users => RequestView::Users,
            Request::Ping => RequestView::Ping,
        }
    }
}

/// The keys that a registration can have. `server_token` is among them only where the server
/// asks for one.
pub open spec fn registration_keys(admission: bool) -> Set<Seq<char>> {
    if admission {
        set!["type"@, "name"@, "token"@, "server_token"@]
    } else {
        set!["type"@, "name"@, "token"@]
    }
}

/// The keys that a message to be passed on can have.
pub open spec fn routing_keys() -> Set<Seq<char>> {
    set!["type"@, "payload"@, "to"@, "broadcast"@]
}

/// The peer shows the secret that the server asks for, if it asks for one.
pub open spec fn is_admitted(message: MessageView, auth_token: Option<Seq<char>>) -> bool {
    auth_token is Some ==> message.server_token == auth_token
}

/// A registration has no key that it cannot have, and its token, if there is one, is a text.
pub open spec fn is_registration(message: MessageView, admission: bool) -> bool {
    &&& message.keys matches Some(keys) && keys.subset_of(registration_keys(admission))
    &&& message.token !is Other
}

/// What a registration asks for.
pub open spec fn registration_of(
    message: MessageView,
    registered: bool,
    auth_token: Option<Seq<char>>,
) -> RequestView {
    if registered {
        RequestView::Refuse(RelayError::AlreadyRegistered)
    } else if !is_admitted(message, auth_token) {
        RequestView::Dismiss(RelayError::Unauthorized)
    } else if !is_registration(message, auth_token is Some) {
        RequestView::Refuse(RelayError::InvalidRegistration)
    } else {
        match message.name {
            Some(name) => if is_name(name) {
                RequestView::Register {
                    name,
                    token: match message.token {
                        Slot::Is(token) => Some(token),
                        _ => None,
                    },
                }
            } else {
                RequestView::Refuse(RelayError::InvalidName)
            },
            None => RequestView::Refuse(RelayError::InvalidName),
        }
    }
}

/// The items of `to` are 1 to 64 names.
pub open spec fn is_recipient_list(items: Seq<Option<Seq<char>>>) -> bool {
    &&& 1 <= items.len() <= MAX_CONNECTIONS
    &&& forall|i: int|
        0 <= i < items.len() ==> (#[trigger] items[i] matches Some(name) && is_name(name))
}

/// A message to be passed on has a payload, no key that it cannot have, and says in exactly one
/// of two ways whom it is for: in `to`, or by `broadcast` being true.
pub open spec fn is_routable(message: MessageView) -> bool {
    &&& message.keys matches Some(keys) && keys.subset_of(routing_keys()) && keys.contains(
        "payload"@,
    )
    &&& message.broadcast !is Other
    &&& message.to !is Other
    &&& (message.broadcast == Slot::Is(true)) != (message.to is Is)
    &&& message.to matches Slot::Is(items) ==> is_recipient_list(items)
}

/// The names in `to`.
pub open spec fn recipients(items: Seq<Option<Seq<char>>>) -> Seq<Seq<char>> {
    items.map_values(|item: Option<Seq<char>>| item->0)
}

/// Whom a routable message is for.
pub open spec fn audience_of(message: MessageView) -> AudienceView {
    match message.to {
        Slot::Is(items) => AudienceView::Names(recipients(items)),
        _ => AudienceView::Everyone,
    }
}

/// A message has one key only, which is `type` where its kind is known.
pub open spec fn is_bare(message: MessageView) -> bool {
    message.keys matches Some(keys) && keys.len() == 1
}

/// What a message asks for, on a connection that is registered or not, of a server that asks
/// for a secret or not.
pub open spec fn request_of(
    message: MessageView,
    registered: bool,
    auth_token: Option<Seq<char>>,
) -> RequestView {
    if message.kind == Some("register"@) {
        registration_of(message, registered, auth_token)
    } else if message.kind == Some("msg"@) {
        if !registered {
            RequestView::Refuse(RelayError::RegisterFirst)
        } else if !is_routable(message) {
            RequestView::Refuse(RelayError::InvalidMessage)
        } else {
            RequestView::Route(audience_of(message))
        }
    } else if message.kind == Some("users"@) {
        if !is_bare(message) {
            RequestView::Refuse(RelayError::InvalidMessage)
        } else if !registered {
            RequestView::Refuse(RelayError::RegisterFirst)
        } else {
            RequestView::Users
        }
    } else if message.kind == Some("ping"@) && registered {
        if !is_bare(message) {
            RequestView::Refuse(RelayError::InvalidMessage)
        } else {
            RequestView::Ping
        }
    } else {
        RequestView::Refuse(RelayError::UnknownType)
    }
}

fn kind_is(message: &Message, kind: &str) -> (is: bool)
    ensures
        is == (message@.kind == Some(kind@)),
{
    match &message.kind {
        Some(text) => same_text(text.as_str(), kind),
        None => false,
    }
}

/// Whether all keys of a message are among those in a list.
fn keys_among(message: &Message, list: &[&str]) -> (among: bool)
    ensures
        among == (message@.keys matches Some(keys) && forall|key: Seq<char>|
            #[trigger] keys.contains(key) ==> exists|i: int|
                0 <= i < list@.len() && #[trigger] list@[i]@ == key),
{
    let keys = match &message.keys {
        Some(keys) => keys,
        None => return false,
    };
    let mut i: usize = 0;
    while i < keys.len()
        invariant
            i <= keys@.len(),
            message.keys == Some(*keys),
            forall|k: int|
                0 <= k < i ==> exists|j: int|
                    0 <= j < list@.len() && #[trigger] list@[j]@ == #[trigger] keys@[k]@,
        decreases keys@.len() - i,
    {
        if !one_of(keys[i].as_str(), list) {
            proof {
                assert(keys.deep_view()[i as int] == keys@[i as int]@);
                assert(message@.keys->0.contains(keys@[i as int]@));
            }
            return false;
        }
        i += 1;
    }
    proof {
        assert forall|key: Seq<char>| #[trigger] message@.keys->0.contains(key) implies exists|j: int|
            0 <= j < list@.len() && #[trigger] list@[j]@ == key by {
            let k = keys.deep_view().index_of(key);
            assert(keys@[k]@ == key);
        }
    }
    true
}

fn has_key(message: &Message, key: &str) -> (has: bool)
    ensures
        has == (message@.keys matches Some(keys) && keys.contains(key@)),
{
    let keys = match &message.keys {
        Some(keys) => keys,
        None => return false,
    };
    let mut i: usize = 0;
    while i < keys.len()
        invariant
            i <= keys@.len(),
            message.keys == Some(*keys),
            forall|k: int| 0 <= k < i ==> keys@[k]@ != key@,
        decreases keys@.len() - i,
    {
        if same_text(keys[i].as_str(), key) {
            assert(keys.deep_view()[i as int] == key@);
            return true;
        }
        i += 1;
    }
    false
}

fn has_one_key(message: &Message) -> (one: bool)
    requires
        message.wf(),
    ensures
        one == is_bare(message@),
{
    match &message.keys {
        Some(keys) => {
            proof {
                keys.deep_view().unique_seq_to_set();
            }
            keys.len() == 1
        },
        None => false,
    }
}

fn check_admission(message: &Message, auth_token: &Option<String>) -> (admitted: bool)
    ensures
        admitted == is_admitted(message@, auth_token.deep_view()),
{
    match auth_token {
        Some(expected) => match &message.server_token {
            Some(shown) => same_secret(shown.as_str(), expected.as_str()),
            None => false,
        },
        None => true,
    }
}

fn check_registration(message: &Message, admission: bool) -> (valid: bool)
    ensures
        valid == is_registration(message@, admission),
{
    let known: bool = if admission {
        let list: [&str; 4] = ["type", "name", "token", "server_token"];
        let among = keys_among(message, list.as_slice());
        proof {
            lemma_list_is_set4("type", "name", "token", "server_token", list@);
        }
        among
    } else {
        let list: [&str; 3] = ["type", "name", "token"];
        let among = keys_among(message, list.as_slice());
        proof {
            lemma_list_is_set3("type", "name", "token", list@);
        }
        among
    };
    let token_fits: bool = match &message.token {
        Slot::Other => false,
        _ => true,
    };
    known && token_fits
}

proof fn lemma_list_is_set4(a: &str, b: &str, c: &str, d: &str, list: Seq<&str>)
    requires
        list == seq![a, b, c, d],
    ensures
        forall|key: Seq<char>|
            #![auto]
            set![a@, b@, c@, d@].contains(key) == exists|i: int|
                0 <= i < list.len() && list[i]@ == key,
{
    assert forall|key: Seq<char>|
        #![auto]
        set![a@, b@, c@, d@].contains(key) implies exists|i: int|
        0 <= i < list.len() && list[i]@ == key by {
        assert(list[0]@ == key || list[1]@ == key || list[2]@ == key || list[3]@ == key);
    }
}

proof fn lemma_list_is_set3(a: &str, b: &str, c: &str, list: Seq<&str>)
    requires
        list == seq![a, b, c],
    ensures
        forall|key: Seq<char>|
            #![auto]
            set![a@, b@, c@].contains(key) == exists|i: int|
                0 <= i < list.len() && list[i]@ == key,
{
    assert forall|key: Seq<char>|
        #![auto]
        set![a@, b@, c@].contains(key) implies exists|i: int|
        0 <= i < list.len() && list[i]@ == key by {
        assert(list[0]@ == key || list[1]@ == key || list[2]@ == key);
    }
}

/// The names in `to`, if they are 1 to 64 valid names.
fn read_recipients(items: &Vec<Option<String>>) -> (names: Option<Vec<String>>)
    ensures
        match names {
            Some(names) => is_recipient_list(items.deep_view()) && names.deep_view() == recipients(
                items.deep_view(),
            ),
            None => !is_recipient_list(items.deep_view()),
        },
{
    if items.len() == 0 || items.len() > MAX_CONNECTIONS {
        return None;
    }
    let mut names: Vec<String> = Vec::new();
    let mut i: usize = 0;
    while i < items.len()
        invariant
            i <= items@.len(),
            names@.len() == i,
            forall|k: int|
                0 <= k < i ==> (items@[k].deep_view() == Some((#[trigger] names@[k])@) && is_name(
                    names@[k]@,
                )),
        decreases items@.len() - i,
    {
        match &items[i] {
            Some(name) => {
                if !valid_name(name.as_str()) {
                    assert(items.deep_view()[i as int] == Some(name@));
                    return None;
                }
                names.push(name.clone());
            },
            None => {
                assert(items.deep_view()[i as int] is None);
                return None;
            },
        }
        i += 1;
    }
    proof {
        let view = items.deep_view();
        assert forall|k: int| 0 <= k < view.len() implies (#[trigger] view[k] matches Some(name)
            && is_name(name)) by {
            assert(items@[k].deep_view() == Some(names@[k]@));
        }
        assert forall|k: int| 0 <= k < view.len() implies names.deep_view()[k]
            == #[trigger] recipients(view)[k] by {
            assert(items@[k].deep_view() == Some(names@[k]@));
        }
        assert(names.deep_view() =~= recipients(view));
    }
    Some(names)
}

/// Whom a message is for, if it can be passed on.
fn read_audience(message: &Message) -> (audience: Option<Audience>)
    ensures
        match audience {
            Some(audience) => is_routable(message@) && audience@ == audience_of(message@),
            None => !is_routable(message@),
        },
{
    let list: [&str; 4] = ["type", "payload", "to", "broadcast"];
    let known: bool = keys_among(message, list.as_slice());
    proof {
        lemma_list_is_set4("type", "payload", "to", "broadcast", list@);
    }
    if !known || !has_key(message, "payload") {
        return None;
    }
    let all: bool = match &message.broadcast {
        Slot::Other => return None,
        Slot::Missing => false,
        Slot::Is(all) => *all,
    };
    match &message.to {
        Slot::Other => None,
        Slot::Missing => if all {
            Some(Audience::Everyone)
        } else {
            None
        },
        Slot::Is(items) => if all {
            None
        } else {
            match read_recipients(items) {
                Some(names) => Some(Audience::Names(names)),
                None => None,
            }
        },
    }
}

fn decide_registration(
    message: &Message,
    registered: bool,
    auth_token: &Option<String>,
) -> (request: Request)
    ensures
        request@ == registration_of(message@, registered, auth_token.deep_view()),
{
    if registered {
        return Request::Refuse(RelayError::AlreadyRegistered);
    }
    if !check_admission(message, auth_token) {
        return Request::Dismiss(RelayError::Unauthorized);
    }
    if !check_registration(message, auth_token.is_some()) {
        return Request::Refuse(RelayError::InvalidRegistration);
    }
    match &message.name {
        Some(name) => if valid_name(name.as_str()) {
            let token: Option<String> = match &message.token {
                Slot::Is(token) => Some(token.clone()),
                _ => None,
            };
            Request::Register { name: name.clone(), token }
        } else {
            Request::Refuse(RelayError::InvalidName)
        },
        None => Request::Refuse(RelayError::InvalidName),
    }
}

/// Decides what a message asks for. `registered` says whether the connection has registered a
/// name, `auth_token` is the secret that the server asks a registration for, if it does.
pub fn decide(message: &Message, registered: bool, auth_token: &Option<String>) -> (request: Request)
    requires
        message.wf(),
    ensures
        request@ == request_of(message@, registered, auth_token.deep_view()),
{
    if kind_is(message, "register") {
        decide_registration(message, registered, auth_token)
    } else if kind_is(message, "msg") {
        if !registered {
            return Request::Refuse(RelayError::RegisterFirst);
        }
        match read_audience(message) {
            Some(audience) => Request::Route(audience),
            None => Request::Refuse(RelayError::InvalidMessage),
        }
    } else if kind_is(message, "users") {
        if !has_one_key(message) {
            Request::Refuse(RelayError::InvalidMessage)
        } else if !registered {
            Request::Refuse(RelayError::RegisterFirst)
        } else {
            Request::Users
        }
    } else if kind_is(message, "ping") && registered {
        if !has_one_key(message) {
            Request::Refuse(RelayError::InvalidMessage)
        } else {
            Request::Ping
        }
    } else {
        Request::Refuse(RelayError::UnknownType)
    }
}

} // verus!
