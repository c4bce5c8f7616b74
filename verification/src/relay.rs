//! What the relay does with a line from a connection, and when a connection goes.
use serde_json::Value;
use std::sync::Arc;
use vstd::prelude::*;

use crate::json::{
    json_of, json_text, parse_value, parsed_json, reads_back, set_field, set_text, text_list,
    text_list_value, typed_json, typed_object, value_text, with_member, Json,
};
use crate::limits::{IDLE_TIMEOUT, REGISTRATION_TIMEOUT, TOKEN_TTL};
use crate::message::{message_of, read_message};
use crate::registry::{
    broadcast, broadcasted, displaced_closed, granted, live_tokens, may_claim, owns, Claim, Registry,
    RegistryView, TokenView,
};
use crate::request::{decide, request_of, Audience, AudienceView, RelayError, Request, RequestView};
use crate::secret::{is_token, token};
use crate::session::{answered, deliver, delivered, reply, Session};
use crate::text::same_text;

verus! {

/// A connection: the session that reaches it, and the name that it registered.
pub struct Connection {
    pub session: Session,
    pub name: Option<String>,
}

impl Connection {
    /// A connection that has not registered a name.
    pub fn new(session: Session) -> (connection: Connection)
        ensures
            connection.session == session,
            connection.name is None,
    {
        Connection { session, name: None }
    }

    /// How long the peer can take for its next line, in seconds: less for one that has not
    /// registered.
    pub fn idle_timeout(&self) -> (seconds: u64)
        ensures
            seconds == if self.name is Some {
                IDLE_TIMEOUT
            } else {
                REGISTRATION_TIMEOUT
            },
    {
        if self.name.is_some() {
            IDLE_TIMEOUT
        } else {
            REGISTRATION_TIMEOUT
        }
    }
}

/// What is done with the lines that still wait when a connection goes.
#[derive(Clone, Copy, Debug, PartialEq, Eq, Structural)]
pub enum Farewell {
    /// They are dropped.
    Abort,
    /// They are written, as far as the peer takes them in time.
    Drain,
}

/// Decides what is done with the lines that still wait: a connection that was told to close, or
/// that nothing can be written to any more, is cut off.
pub fn farewell(told_to_close: bool, writer_finished: bool) -> (farewell: Farewell)
    ensures
        farewell == if told_to_close || writer_finished {
            Farewell::Abort
        } else {
            Farewell::Drain
        },
{
    if told_to_close || writer_finished {
        Farewell::Abort
    } else {
        Farewell::Drain
    }
}

/// What became of a line.
pub struct Step {
    /// Whether the connection stays open.
    pub open: bool,
    /// The session that lost its name to this connection. It was told to close.
    pub displaced: Option<Session>,
}

/// The error that a connection is answered with.
pub open spec fn error_json(error: RelayError) -> Json {
    with_member(typed_json("error"@), "error"@, Json::Text(error.words()))
}

/// The answer to a registration: the name, and the token that claims it again.
pub open spec fn welcome_json(user: Seq<char>, token: Seq<char>) -> Json {
    with_member(
        with_member(typed_json("welcome"@), "user"@, Json::Text(user)),
        "token"@,
        Json::Text(token),
    )
}

/// The news that a name has been registered.
pub open spec fn joined_json(user: Seq<char>) -> Json {
    with_member(typed_json("joined"@), "user"@, Json::Text(user))
}

/// The news that the connection of a name has gone.
pub open spec fn left_json(user: Seq<char>) -> Json {
    with_member(typed_json("left"@), "user"@, Json::Text(user))
}

/// The list of the registered names.
pub open spec fn users_json(names: Seq<Seq<char>>) -> Json {
    with_member(typed_json("users"@), "users"@, text_list(names))
}

/// A message with the name of its sender.
pub open spec fn stamped_json(json: Json, from: Seq<char>) -> Json {
    with_member(json, "from"@, Json::Text(from))
}

/// The line on which a JSON value goes out, and which reads back as the value.
pub open spec fn is_line_of(line: Seq<char>, json: Json) -> bool {
    line == json_text(json) && !line.contains('\n') && reads_back(json)
}

fn error_value(error: RelayError) -> (value: Value)
    ensures
        json_of(value) == error_json(error),
{
    let mut value = typed_object("error");
    set_text(&mut value, "error", error.text());
    value
}

fn welcome_value(user: &str, token: &str) -> (value: Value)
    ensures
        json_of(value) == welcome_json(user@, token@),
{
    let mut value = typed_object("welcome");
    set_text(&mut value, "user", user);
    set_text(&mut value, "token", token);
    value
}

fn joined_line(user: &str) -> (line: Arc<String>)
    ensures
        is_line_of(line@, joined_json(user@)),
{
    let mut value = typed_object("joined");
    set_text(&mut value, "user", user);
    Arc::new(value_text(&value))
}

fn left_line(user: &str) -> (line: Arc<String>)
    ensures
        is_line_of(line@, left_json(user@)),
{
    let mut value = typed_object("left");
    set_text(&mut value, "user", user);
    Arc::new(value_text(&value))
}

fn users_value(names: &Vec<String>) -> (value: Value)
    ensures
        json_of(value) == users_json(names.deep_view()),
{
    let mut value = typed_object("users");
    set_field(&mut value, "users", text_list_value(names));
    value
}

fn stamped_line(message: Value, from: &str) -> (line: Arc<String>)
    requires
        json_of(message) is Object,
    ensures
        is_line_of(line@, stamped_json(json_of(message), from@)),
{
    let mut message = message;
    set_text(&mut message, "from", from);
    Arc::new(value_text(&message))
}

/// A connection was answered, and nothing else about it changed.
pub open spec fn told(before: Connection, after: Connection, json: Json, queued: bool) -> bool {
    answered(before.session, after.session, json, queued) && after.name == before.name
}

/// A request was refused: the connection was answered with an error, the registry is as it was,
/// and the connection stays open if there was room for the answer.
pub open spec fn refused(
    before: RegistryView,
    after: RegistryView,
    was: Connection,
    is: Connection,
    error: RelayError,
    step: Step,
) -> bool {
    &&& after == before
    &&& told(was, is, error_json(error), step.open)
    &&& step.displaced is None
}

/// A connection was dismissed: it was answered with an error if there was room for that, and is
/// closed. The registry is as it was.
pub open spec fn dismissed(
    before: RegistryView,
    after: RegistryView,
    was: Connection,
    is: Connection,
    error: RelayError,
    step: Step,
) -> bool {
    &&& after == before
    &&& exists|queued: bool| told(was, is, error_json(error), queued)
    &&& !step.open
    &&& step.displaced is None
}

/// A connection asked for a name. It was answered that the name is taken, or it was given the
/// name and welcomed, and all connections were told of it if there was room for the welcome.
pub open spec fn registered(
    before: RegistryView,
    after: RegistryView,
    was: Connection,
    is: Connection,
    name: Seq<char>,
    shown: Option<Seq<char>>,
    fresh: Seq<char>,
    now: u64,
    step: Step,
) -> bool {
    if !may_claim(live_tokens(before.tokens, now), name, shown) {
        &&& after.users == before.users
        &&& after.tokens == live_tokens(before.tokens, now)
        &&& told(was, is, error_json(RelayError::NameTaken), step.open)
        &&& step.displaced is None
    } else {
        &&& is.name.deep_view() == Some(name)
        &&& answered(was.session, is.session, welcome_json(name, fresh), step.open)
        &&& displaced_closed(before.users, name, step.displaced)
        &&& exists|mid: RegistryView|
            {
                &&& #[trigger] granted(before, mid, name, was.session, fresh, now)
                &&& after.tokens == mid.tokens
                &&& if step.open {
                    &&& is_line_of(json_text(joined_json(name)), joined_json(name))
                    &&& broadcasted(mid.users, after.users, json_text(joined_json(name)))
                } else {
                    after.users == mid.users
                }
            }
    }
}

/// A connection asked for a name, for which a token was drawn.
pub open spec fn registered_afresh(
    before: RegistryView,
    after: RegistryView,
    was: Connection,
    is: Connection,
    name: Seq<char>,
    shown: Option<Seq<char>>,
    now: u64,
    step: Step,
) -> bool {
    exists|fresh: Seq<char>|
        is_token(fresh) && #[trigger] registered(
            before,
            after,
            was,
            is,
            name,
            shown,
            fresh,
            now,
            step,
        )
}

/// A message from a sender goes to the connection of a name: to all of them, or to those of the
/// sender and of the names that it is addressed to.
pub open spec fn is_addressed(audience: AudienceView, from: Seq<char>, name: Seq<char>) -> bool {
    match audience {
        AudienceView::Everyone => true,
        AudienceView::Names(names) => name == from || names.contains(name),
    }
}

/// All the names in a list have a connection.
pub open spec fn are_present(names: Seq<Seq<char>>, users: Map<Seq<char>, Session>) -> bool {
    forall|i: int| 0 <= i < names.len() ==> users.contains_key(#[trigger] names[i])
}

/// All the names that a message is addressed to have a connection.
pub open spec fn is_reachable(audience: AudienceView, users: Map<Seq<char>, Session>) -> bool {
    match audience {
        AudienceView::Everyone => true,
        AudienceView::Names(names) => are_present(names, users),
    }
}

/// A line was handed once to each session that it is addressed to, and to no other.
pub open spec fn passed_on(
    before: Map<Seq<char>, Session>,
    after: Map<Seq<char>, Session>,
    audience: AudienceView,
    from: Seq<char>,
    line: Seq<char>,
) -> bool {
    &&& after.dom() == before.dom()
    &&& forall|name: Seq<char>| #[trigger]
        before.contains_key(name) ==> if is_addressed(audience, from, name) {
            delivered(before[name], after[name], line)
        } else {
            after[name] == before[name]
        }
}

/// A connection asked to pass on a line. It was dismissed if it is not the one registered under
/// its name, refused if somebody whom the line is for is not there, and obeyed otherwise.
pub open spec fn routed(
    before: RegistryView,
    after: RegistryView,
    was: Connection,
    is: Connection,
    audience: AudienceView,
    line: Seq<char>,
    step: Step,
) -> bool {
    let from = was.name->0@;
    if !owns(before.users, from, was.session) {
        dismissed(before, after, was, is, RelayError::RegisterFirst, step)
    } else if !is_reachable(audience, before.users) {
        refused(before, after, was, is, RelayError::UserUnavailable, step)
    } else {
        &&& after.tokens == before.tokens
        &&& passed_on(before.users, after.users, audience, from, line)
        &&& is == was
        &&& step.open
        &&& step.displaced is None
    }
}

/// A connection asked for the registered names. It was closed if it is not the one registered
/// under its name, and told all the names, in some order, otherwise.
pub open spec fn users_told(
    users: Map<Seq<char>, Session>,
    was: Connection,
    is: Connection,
    open: bool,
) -> bool {
    if !owns(users, was.name->0@, was.session) {
        is == was && !open
    } else {
        exists|names: Seq<Seq<char>>|
            {
                &&& names.no_duplicates()
                &&& names.to_set() == users.dom()
                &&& #[trigger] told(was, is, users_json(names), open)
            }
    }
}

/// A connection asked for a sign of life. It was closed if it is not the one registered under
/// its name, and answered otherwise.
pub open spec fn ponged(
    users: Map<Seq<char>, Session>,
    was: Connection,
    is: Connection,
    open: bool,
) -> bool {
    if !owns(users, was.name->0@, was.session) {
        is == was && !open
    } else {
        told(was, is, typed_json("pong"@), open)
    }
}

/// A message came in on a connection, or a line that holds none. What was done depends on what the
/// message says, whether the connection is registered, and the secret that the server asks for.
pub open spec fn obeyed(
    before: RegistryView,
    after: RegistryView,
    was: Connection,
    is: Connection,
    auth_token: Option<Seq<char>>,
    read: Option<Json>,
    now: u64,
    step: Step,
) -> bool {
    match read {
        None => refused(before, after, was, is, RelayError::BadJson, step),
        Some(json) => match request_of(message_of(json), was.name is Some, auth_token) {
            RequestView::Refuse(error) => refused(before, after, was, is, error, step),
            RequestView::Dismiss(error) => dismissed(before, after, was, is, error, step),
            RequestView::Register { name, token } => registered_afresh(
                before,
                after,
                was,
                is,
                name,
                token,
                now,
                step,
            ),
            RequestView::Route(audience) => {
                let stamped = stamped_json(json, was.name->0@);
                &&& is_line_of(json_text(stamped), stamped)
                &&& routed(before, after, was, is, audience, json_text(stamped), step)
            },
            RequestView::Users => {
                &&& after == before
                &&& users_told(before.users, was, is, step.open)
                &&& step.displaced is None
            },
            RequestView::Ping => {
                &&& after == before
                &&& ponged(before.users, was, is, step.open)
                &&& step.displaced is None
            },
        },
    }
}

/// A line came in on a connection, and what it holds was obeyed.
pub open spec fn handled(
    before: RegistryView,
    after: RegistryView,
    was: Connection,
    is: Connection,
    auth_token: Option<Seq<char>>,
    line: Seq<char>,
    now: u64,
    step: Step,
) -> bool {
    obeyed(before, after, was, is, auth_token, parsed_json(line), now, step)
}

/// What a value holds, if there is one.
pub open spec fn content_of(read: Option<Value>) -> Option<Json> {
    match read {
        Some(value) => Some(json_of(value)),
        None => None,
    }
}

/// The tokens, with the time set at which the one of a name expires.
pub open spec fn expiring(
    tokens: Map<Seq<char>, TokenView>,
    name: Seq<char>,
    until: u64,
) -> Map<Seq<char>, TokenView> {
    if tokens.contains_key(name) {
        tokens.insert(name, TokenView { value: tokens[name].value, expires: Some(until) })
    } else {
        tokens
    }
}

/// A connection has gone. If it was the one registered under its name, the name has no connection
/// any more, stays reserved for a while, and the others were told; `gone` is the name then.
pub open spec fn disconnected(
    before: RegistryView,
    after: RegistryView,
    was: Connection,
    is: Connection,
    now: u64,
    gone: Option<Seq<char>>,
) -> bool {
    &&& is.session == was.session
    &&& is.name is None
    &&& if was.name is Some && owns(before.users, was.name->0@, was.session) {
        let name = was.name->0@;
        &&& gone == Some(name)
        &&& after.tokens == expiring(before.tokens, name, (now + TOKEN_TTL) as u64)
        &&& is_line_of(json_text(left_json(name)), left_json(name))
        &&& broadcasted(before.users.remove(name), after.users, json_text(left_json(name)))
    } else {
        gone is None && after == before
    }
}

/// Answers a connection with an error. Returns whether there was room for it.
pub fn refuse(connection: &mut Connection, error: RelayError) -> (queued: bool)
    ensures
        told(*old(connection), *final(connection), error_json(error), queued),
{
    let value = error_value(error);
    reply(&mut connection.session, &value)
}

/// Registers a connection under a name. `shown` is the token of the name that the peer holds,
/// `fresh` the one that it is given.
pub fn register(
    registry: &mut Registry,
    connection: &mut Connection,
    name: String,
    shown: &Option<String>,
    fresh: String,
    now: u64,
) -> (step: Step)
    requires
        old(registry).wf(),
    ensures
        final(registry).wf(),
        registered(
            old(registry)@,
            final(registry)@,
            *old(connection),
            *final(connection),
            name@,
            shown.deep_view(),
            fresh@,
            now,
            step,
        ),
{
    let welcome = welcome_value(name.as_str(), fresh.as_str());
    match registry.claim(name.as_str(), shown, fresh, &connection.session, now) {
        Claim::Refused => {
            let open = refuse(connection, RelayError::NameTaken);
            Step { open, displaced: None }
        },
        Claim::Granted { displaced } => {
            let ghost mid = registry@;
            let open = reply(&mut connection.session, &welcome);
            if open {
                broadcast(registry, joined_line(name.as_str()));
            }
            connection.name = Some(name);
            assert(granted(old(registry)@, mid, name@, old(connection).session, fresh@, now));
            Step { open, displaced }
        },
    }
}

/// Whether all the names in a list have a connection.
fn all_present(registry: &Registry, names: &Vec<String>) -> (present: bool)
    requires
        registry.wf(),
    ensures
        present == are_present(names.deep_view(), registry@.users),
{
    let mut i: usize = 0;
    while i < names.len()
        invariant
            i <= names@.len(),
            forall|k: int| 0 <= k < i ==> registry@.users.contains_key((#[trigger] names@[k])@),
        decreases names@.len() - i,
    {
        if !registry.users.contains_key(names[i].as_str()) {
            assert(!registry@.users.contains_key(names.deep_view()[i as int]));
            return false;
        }
        i += 1;
    }
    true
}

/// Whether a message from a sender goes to the connection of a name.
fn addressed(audience: &Audience, from: &str, name: &str) -> (yes: bool)
    ensures
        yes == is_addressed(audience@, from@, name@),
{
    let names = match audience {
        Audience::Everyone => return true,
        Audience::Names(names) => names,
    };
    if same_text(name, from) {
        return true;
    }
    let mut i: usize = 0;
    while i < names.len()
        invariant
            audience == Audience::Names(*names),
            i <= names@.len(),
            forall|k: int| 0 <= k < i ==> (#[trigger] names@[k])@ != name@,
        decreases names@.len() - i,
    {
        if same_text(names[i].as_str(), name) {
            assert(names.deep_view()[i as int] == name@);
            return true;
        }
        i += 1;
    }
    assert(!names.deep_view().contains(name@));
    false
}

/// Hands a line to each session that it is addressed to.
fn pass_on(registry: &mut Registry, audience: &Audience, from: &str, line: Arc<String>)
    requires
        old(registry).wf(),
    ensures
        final(registry).wf(),
        final(registry)@.tokens == old(registry)@.tokens,
        passed_on(old(registry)@.users, final(registry)@.users, audience@, from@, line@),
{
    let ghost before = registry.users@;
    let ghost names = registry.users.names();
    proof {
        registry.users.lemma_names();
    }
    let mut i: usize = 0;
    while i < registry.users.len()
        invariant
            registry.wf(),
            registry.tokens == old(registry).tokens,
            registry.users.names() == names,
            names.no_duplicates(),
            i <= names.len(),
            registry.users@.dom() == before.dom(),
            before.dom() == names.to_set(),
            forall|k: int|
                0 <= k < i ==> if is_addressed(audience@, from@, #[trigger] names[k]) {
                    delivered(before[names[k]], registry.users@[names[k]], line@)
                } else {
                    registry.users@[names[k]] == before[names[k]]
                },
            forall|k: int|
                i <= k < names.len() ==> registry.users@[#[trigger] names[k]] == before[names[k]],
        decreases names.len() - i,
    {
        let ghost mid = registry.users@;
        if addressed(audience, from, registry.users.name_at(i).as_str()) {
            deliver(registry.users.at_mut(i), line.clone());
            proof {
                assert(names.contains(names[i as int]));
                assert(registry.users@.dom() =~= mid.dom());
            }
        }
        i += 1;
    }
    proof {
        assert forall|name: Seq<char>| #[trigger] before.contains_key(name) implies if is_addressed(
            audience@,
            from@,
            name,
        ) {
            delivered(before[name], registry.users@[name], line@)
        } else {
            registry.users@[name] == before[name]
        } by {
            let k = names.index_of(name);
            assert(names.contains(name));
            assert(names[k] == name);
        }
    }
}

/// Passes a line on for a registered connection.
pub fn route(
    registry: &mut Registry,
    connection: &mut Connection,
    audience: &Audience,
    line: Arc<String>,
) -> (step: Step)
    requires
        old(registry).wf(),
        old(connection).name is Some,
    ensures
        final(registry).wf(),
        routed(
            old(registry)@,
            final(registry)@,
            *old(connection),
            *final(connection),
            audience@,
            line@,
            step,
        ),
{
    let from: String = match &connection.name {
        Some(name) => name.clone(),
        None => String::new(),
    };
    if !registry.is_owner(from.as_str(), &connection.session) {
        let queued = refuse(connection, RelayError::RegisterFirst);
        assert(told(*old(connection), *connection, error_json(RelayError::RegisterFirst), queued));
        return Step { open: false, displaced: None };
    }
    let reachable: bool = match audience {
        Audience::Everyone => true,
        Audience::Names(names) => all_present(registry, names),
    };
    if !reachable {
        let open = refuse(connection, RelayError::UserUnavailable);
        return Step { open, displaced: None };
    }
    pass_on(registry, audience, from.as_str(), line);
    Step { open: true, displaced: None }
}

/// The registered names, in the order in which they stand in the registry.
fn registered_names(registry: &Registry) -> (names: Vec<String>)
    requires
        registry.wf(),
    ensures
        names.deep_view().no_duplicates(),
        names.deep_view().to_set() == registry@.users.dom(),
{
    let mut names: Vec<String> = Vec::new();
    let mut i: usize = 0;
    while i < registry.users.len()
        invariant
            registry.wf(),
            i <= registry.users.names().len(),
            names@.len() == i,
            forall|k: int| 0 <= k < i ==> (#[trigger] names@[k])@ == registry.users.names()[k],
        decreases registry.users.names().len() - i,
    {
        names.push(registry.users.name_at(i).clone());
        i += 1;
    }
    proof {
        assert(names.deep_view() =~= registry.users.names());
        registry.users.lemma_names();
    }
    names
}

/// Tells a registered connection the registered names. Returns whether it stays open.
pub fn list_users(registry: &Registry, connection: &mut Connection) -> (open: bool)
    requires
        registry.wf(),
        old(connection).name is Some,
    ensures
        users_told(registry@.users, *old(connection), *final(connection), open),
{
    if !is_active(registry, connection) {
        return false;
    }
    let names = registered_names(registry);
    let value = users_value(&names);
    let open = reply(&mut connection.session, &value);
    assert(told(*old(connection), *connection, users_json(names.deep_view()), open));
    open
}

/// Gives a registered connection a sign of life. Returns whether it stays open.
pub fn ping(registry: &Registry, connection: &mut Connection) -> (open: bool)
    requires
        registry.wf(),
        old(connection).name is Some,
    ensures
        ponged(registry@.users, *old(connection), *final(connection), open),
{
    if !is_active(registry, connection) {
        return false;
    }
    let value = typed_object("pong");
    reply(&mut connection.session, &value)
}

/// Whether a connection is the one registered under its name.
fn is_active(registry: &Registry, connection: &Connection) -> (active: bool)
    requires
        registry.wf(),
    ensures
        active == (connection.name is Some && owns(
            registry@.users,
            connection.name->0@,
            connection.session,
        )),
{
    match &connection.name {
        Some(name) => registry.is_owner(name.as_str(), &connection.session),
        None => false,
    }
}

/// Reads the message on a line: nothing where the line is not JSON.
pub fn read_line(line: &str) -> (read: Option<Value>)
    ensures
        content_of(read) == parsed_json(line@),
{
    match parse_value(line) {
        Ok(value) => Some(value),
        Err(_) => None,
    }
}

/// Does what a message from a connection asks for; there is none where a line was not JSON.
/// `auth_token` is the secret that the server asks a registration for, if it does; `now` the time
/// in nanoseconds from the start of the relay.
pub fn obey(
    registry: &mut Registry,
    connection: &mut Connection,
    auth_token: &Option<String>,
    read: Option<Value>,
    now: u64,
) -> (step: Step)
    requires
        old(registry).wf(),
    ensures
        final(registry).wf(),
        obeyed(
            old(registry)@,
            final(registry)@,
            *old(connection),
            *final(connection),
            auth_token.deep_view(),
            content_of(read),
            now,
            step,
        ),
{
    let value = match read {
        Some(value) => value,
        None => {
            let open = refuse(connection, RelayError::BadJson);
            return Step { open, displaced: None };
        },
    };
    let message = read_message(&value);
    match decide(&message, connection.name.is_some(), auth_token) {
        Request::Refuse(error) => {
            let open = refuse(connection, error);
            Step { open, displaced: None }
        },
        Request::Dismiss(error) => {
            let queued = refuse(connection, error);
            assert(told(*old(connection), *connection, error_json(error), queued));
            Step { open: false, displaced: None }
        },
        Request::Register { name, token: shown } => {
            let fresh = token();
            register(registry, connection, name, &shown, fresh, now)
        },
        Request::Route(audience) => {
            let stamped = match &connection.name {
                Some(from) => stamped_line(value, from.as_str()),
                None => Arc::new(String::new()),
            };
            route(registry, connection, &audience, stamped)
        },
        Request::Users => {
            let open = list_users(registry, connection);
            Step { open, displaced: None }
        },
        Request::Ping => {
            let open = ping(registry, connection);
            Step { open, displaced: None }
        },
    }
}

/// Does what a line from a connection asks for.
pub fn handle_line(
    registry: &mut Registry,
    connection: &mut Connection,
    auth_token: &Option<String>,
    line: &str,
    now: u64,
) -> (step: Step)
    requires
        old(registry).wf(),
    ensures
        final(registry).wf(),
        handled(
            old(registry)@,
            final(registry)@,
            *old(connection),
            *final(connection),
            auth_token.deep_view(),
            line@,
            now,
            step,
        ),
{
    obey(registry, connection, auth_token, read_line(line), now)
}

/// Takes a connection that has gone out of the registry. Returns its name if it was the one
/// registered under it.
pub fn disconnect(registry: &mut Registry, connection: &mut Connection, now: u64) -> (gone: Option<
    String,
>)
    requires
        old(registry).wf(),
        now + TOKEN_TTL <= u64::MAX,
    ensures
        final(registry).wf(),
        disconnected(
            old(registry)@,
            final(registry)@,
            *old(connection),
            *final(connection),
            now,
            gone.deep_view(),
        ),
{
    let name = match connection.name.take() {
        Some(name) => name,
        None => return None,
    };
    if !registry.is_owner(name.as_str(), &connection.session) {
        return None;
    }
    let _ = registry.users.remove(name.as_str());
    proof {
        registry.tokens.lemma_names();
    }
    if let Some(i) = registry.tokens.find(name.as_str()) {
        let record = registry.tokens.at_mut(i);
        record.expires = Some(now + TOKEN_TTL);
    }
    assert(registry@.tokens =~= expiring(old(registry)@.tokens, name@, (now + TOKEN_TTL) as u64));
    broadcast(registry, left_line(name.as_str()));
    Some(name)
}

} // verus!
