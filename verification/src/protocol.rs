//! What a peer can rely on: which answer each request gets, and what everybody else sees of it.
use vstd::prelude::*;

use crate::json::{json_of, json_text, member, parsed_json, typed_json, Json};
use crate::laws::{law_own_words_are_plain, lemma_claim, lemma_drawn, lemma_room};
use crate::limits::{
    IDLE_TIMEOUT, MAX_CONNECTIONS, MAX_LINE, MAX_NAME, MAX_TOKENS, REGISTRATION_TIMEOUT,
    TLS_TIMEOUT, TOKEN_TTL, TX_BUFFER, WRITE_TIMEOUT,
};
use crate::message::{message_of, text_of, Slot};
use crate::registry::{
    broadcasted, granted, is_oldest, live_tokens, may_claim, Registry, RegistryView, TokenView,
};
use crate::relay::{
    content_of, disconnected, error_json, farewell, handled, joined_json, left_json, obeyed,
    registered, routed, told, users_json, welcome_json, Connection, Farewell, Step,
};
use crate::request::{is_bare, recipients, request_of, AudienceView, RelayError, RequestView};
use crate::secret::{hex_digit, hex_digits, is_token, law_token_shape, token_text};
use crate::session::{answered, closed, delivered, is_twin, watch_of, Session};
use crate::text::{in_class, is_name, CharClass};

verus! {

/// A name that can be registered: 1 to 32 ASCII letters, digits, hyphens or underscores.
pub open spec fn can_be_registered(text: Seq<char>) -> bool {
    &&& 1 <= text.len() <= 32
    &&& forall|i: int| #![trigger text[i]]
        0 <= i < text.len() ==> {
            ||| 'a' <= text[i] <= 'z'
            ||| 'A' <= text[i] <= 'Z'
            ||| '0' <= text[i] <= '9'
            ||| text[i] == '-'
            ||| text[i] == '_'
        }
}

/// A text is a name exactly if it can be registered.
pub proof fn law_names(text: Seq<char>)
    ensures
        is_name(text) <==> can_be_registered(text),
{
    if can_be_registered(text) {
        assert forall|i: int| 0 <= i < text.len() implies in_class(
            CharClass::Name,
            #[trigger] text[i],
        ) by {}
    }
    if is_name(text) {
        assert forall|i: int| 0 <= i < text.len() implies ('a' <= #[trigger] text[i] <= 'z'
            || 'A' <= text[i] <= 'Z' || '0' <= text[i] <= '9' || text[i] == '-' || text[i] == '_') by {
            assert(in_class(CharClass::Name, text[i]));
        }
    }
}

/// The words of the protocol are different from each other.
proof fn lemma_words()
    ensures
        "register"@ != "msg"@,
        "register"@ != "users"@,
        "register"@ != "ping"@,
        "msg"@ != "users"@,
        "msg"@ != "ping"@,
        "users"@ != "ping"@,
        "type"@ != "name"@,
        "type"@ != "token"@,
        "type"@ != "server_token"@,
        "type"@ != "payload"@,
        "type"@ != "to"@,
        "type"@ != "broadcast"@,
        "type"@ != "from"@,
        "type"@ != "user"@,
        "type"@ != "users"@,
        "type"@ != "error"@,
        "user"@ != "token"@,
        "name"@ != "token"@,
        "name"@ != "server_token"@,
        "token"@ != "server_token"@,
        "payload"@ != "to"@,
        "payload"@ != "broadcast"@,
        "to"@ != "broadcast"@,
{
    reveal_strlit("register");
    reveal_strlit("msg");
    reveal_strlit("users");
    reveal_strlit("ping");
    reveal_strlit("type");
    reveal_strlit("name");
    reveal_strlit("token");
    reveal_strlit("server_token");
    reveal_strlit("payload");
    reveal_strlit("to");
    reveal_strlit("broadcast");
    reveal_strlit("from");
    reveal_strlit("user");
    reveal_strlit("error");
    assert("register"@.len() == 8);
    assert("msg"@.len() == 3);
    assert("users"@.len() == 5);
    assert("ping"@.len() == 4);
    assert("type"@[0] == 't');
    assert("name"@[0] == 'n');
    assert("token"@[1] == 'o');
    assert("type"@[1] == 'y');
    assert("from"@[0] == 'f');
    assert("user"@[0] == 'u');
    assert("users"@[0] == 'u');
    assert("token"@[0] == 't');
    assert("error"@[0] == 'e');
    assert("server_token"@.len() == 12);
    assert("payload"@.len() == 7);
    assert("to"@.len() == 2);
    assert("broadcast"@.len() == 9);
}

/// A value is an object with a member under a key.
pub open spec fn has(json: Json, key: Seq<char>, item: Json) -> bool {
    json matches Json::Object(members) && members.contains_pair(key, item)
}

/// A value is an object without a member under a key.
pub open spec fn lacks(json: Json, key: Seq<char>) -> bool {
    json matches Json::Object(members) && !members.contains_key(key)
}

/// All keys of an object are among `type`, `name` and `token`, and `server_token` where the server
/// asks for a secret.
pub open spec fn has_registration_keys(json: Json, guarded: bool) -> bool {
    json matches Json::Object(members) && forall|key: Seq<char>| #[trigger]
        members.contains_key(key) ==> {
            ||| key == "type"@
            ||| key == "name"@
            ||| key == "token"@
            ||| guarded && key == "server_token"@
        }
}

/// A message registers a name, with or without the token of the name, and shows the secret where
/// the server has one.
pub open spec fn registers(
    json: Json,
    auth_token: Option<Seq<char>>,
    name: Seq<char>,
    token: Option<Seq<char>>,
) -> bool {
    &&& has(json, "type"@, Json::Text("register"@))
    &&& has(json, "name"@, Json::Text(name))
    &&& can_be_registered(name)
    &&& auth_token is Some ==> has(json, "server_token"@, Json::Text(auth_token->0))
    &&& token is Some ==> has(json, "token"@, Json::Text(token->0))
    &&& token is None ==> lacks(json, "token"@)
    &&& has_registration_keys(json, auth_token is Some)
}

/// A connection without a name is registered under the name that its message gives, with the token
/// that it gives, whether or not the server asks for a secret; and no other message registers one.
pub proof fn law_registration_is_read(
    json: Json,
    auth_token: Option<Seq<char>>,
    name: Seq<char>,
    token: Option<Seq<char>>,
)
    ensures
        registers(json, auth_token, name, token) <==> request_of(
            message_of(json),
            false,
            auth_token,
        ) == (RequestView::Register { name, token }),
{
    lemma_words();
    law_names(name);
}

/// What becomes of a registration that registers nothing. A connection that has a name is told so.
/// One that does not show the secret is dismissed. A key that does not belong there, or a token
/// that is no text, makes the registration invalid; and all that is left to be wrong is the name.
pub proof fn law_registration_is_refused(
    json: Json,
    registered: bool,
    auth_token: Option<Seq<char>>,
)
    requires
        has(json, "type"@, Json::Text("register"@)),
    ensures
        ({
            let request = request_of(message_of(json), registered, auth_token);
            let shows_secret = auth_token is Some ==> has(
                json,
                "server_token"@,
                Json::Text(auth_token->0),
            );
            let token_fits = lacks(json, "token"@) || exists|token: Seq<char>| #[trigger]
                has(json, "token"@, Json::Text(token));
            let name_fits = exists|name: Seq<char>|
                has(json, "name"@, Json::Text(name)) && #[trigger] can_be_registered(name);
            let keys_fit = has_registration_keys(json, auth_token is Some);
            &&& request == RequestView::Refuse(RelayError::AlreadyRegistered) <==> registered
            &&& request == RequestView::Dismiss(RelayError::Unauthorized) <==> !registered
                && !shows_secret
            &&& request == RequestView::Refuse(RelayError::InvalidRegistration) <==> !registered
                && shows_secret && !(keys_fit && token_fits)
            &&& request == RequestView::Refuse(RelayError::InvalidName) <==> !registered
                && shows_secret && keys_fit && token_fits && !name_fits
            &&& request is Register <==> !registered && shows_secret && keys_fit && token_fits
                && name_fits
        }),
{
    lemma_words();
    if let Some(Json::Text(name)) = member(json, "name"@) {
        law_names(name);
        assert(has(json, "name"@, Json::Text(name)));
    }
    if let Some(Json::Text(token)) = member(json, "token"@) {
        assert(has(json, "token"@, Json::Text(token)));
    }
}

/// All keys of an object are among `type`, `payload`, `to` and `broadcast`, and `payload` is there.
pub open spec fn has_routing_keys(json: Json) -> bool {
    &&& json matches Json::Object(members) && forall|key: Seq<char>| #[trigger]
        members.contains_key(key) ==> {
            ||| key == "type"@
            ||| key == "payload"@
            ||| key == "to"@
            ||| key == "broadcast"@
        }
    &&& !lacks(json, "payload"@)
}

/// A message goes to everyone: `broadcast` is true, and there is no `to`.
pub open spec fn goes_to_all(json: Json) -> bool {
    &&& has(json, "type"@, Json::Text("msg"@))
    &&& has_routing_keys(json)
    &&& has(json, "broadcast"@, Json::Bool(true))
    &&& lacks(json, "to"@)
}

/// A message goes to names: `to` is the list of them, 1 to 64, all valid, and `broadcast` is false
/// if it is there.
pub open spec fn goes_to(json: Json, names: Seq<Seq<char>>) -> bool {
    &&& has(json, "type"@, Json::Text("msg"@))
    &&& has_routing_keys(json)
    &&& lacks(json, "broadcast"@) || has(json, "broadcast"@, Json::Bool(false))
    &&& 1 <= names.len() <= 64
    &&& forall|i: int| 0 <= i < names.len() ==> can_be_registered(#[trigger] names[i])
    &&& exists|items: Seq<Json>|
        {
            &&& #[trigger] has(json, "to"@, Json::Array(items))
            &&& items.len() == names.len()
            &&& forall|i: int| 0 <= i < items.len() ==> #[trigger] items[i] == Json::Text(names[i])
        }
}

/// A registered connection's message is passed on to everyone exactly if it goes to everyone.
pub proof fn law_message_to_all_is_read(json: Json, auth_token: Option<Seq<char>>)
    ensures
        goes_to_all(json) <==> request_of(message_of(json), true, auth_token) == RequestView::Route(
            AudienceView::Everyone,
        ),
{
    lemma_words();
}

/// A registered connection's message is passed on to names exactly if it goes to them: to all of
/// them, in their order, each as often as it is given.
pub proof fn law_message_to_names_is_read(
    json: Json,
    auth_token: Option<Seq<char>>,
    names: Seq<Seq<char>>,
)
    ensures
        goes_to(json, names) <==> request_of(message_of(json), true, auth_token)
            == RequestView::Route(AudienceView::Names(names)),
{
    lemma_words();
    if goes_to(json, names) {
        let items = choose|items: Seq<Json>|
            {
                &&& #[trigger] has(json, "to"@, Json::Array(items))
                &&& items.len() == names.len()
                &&& forall|i: int|
                    0 <= i < items.len() ==> #[trigger] items[i] == Json::Text(names[i])
            };
        let read = items.map_values(|item: Json| text_of(item));
        assert forall|i: int| 0 <= i < read.len() implies (#[trigger] read[i] matches Some(name)
            && is_name(name)) by {
            assert(items[i] == Json::Text(names[i]));
            law_names(names[i]);
        }
        assert(recipients(read) =~= names) by {
            assert forall|i: int| 0 <= i < names.len() implies recipients(read)[i]
                == #[trigger] names[i] by {
                assert(items[i] == Json::Text(names[i]));
            }
        }
        assert(message_of(json).to == Slot::Is(read));
    }
    if request_of(message_of(json), true, auth_token) == RequestView::Route(
        AudienceView::Names(names),
    ) {
        let items = member(json, "to"@)->0->Array_0;
        let read = items.map_values(|item: Json| text_of(item));
        assert(message_of(json).to == Slot::Is(read));
        assert(names == recipients(read));
        assert forall|i: int| 0 <= i < items.len() implies #[trigger] items[i] == Json::Text(
            names[i],
        ) by {
            assert(read[i] is Some);
        }
        assert forall|i: int| 0 <= i < names.len() implies can_be_registered(
            #[trigger] names[i],
        ) by {
            assert(read[i] is Some);
            law_names(names[i]);
        }
        assert(has(json, "to"@, Json::Array(items)));
    }
}

/// What becomes of a message that is not passed on: the connection has to register first, and then
/// the message has to go to everyone or to names.
pub proof fn law_message_is_refused(
    json: Json,
    registered: bool,
    auth_token: Option<Seq<char>>,
)
    requires
        has(json, "type"@, Json::Text("msg"@)),
    ensures
        ({
            let request = request_of(message_of(json), registered, auth_token);
            let goes_somewhere = goes_to_all(json) || exists|names: Seq<Seq<char>>|
                goes_to(json, names);
            &&& request == RequestView::Refuse(RelayError::RegisterFirst) <==> !registered
            &&& request == RequestView::Refuse(RelayError::InvalidMessage) <==> registered
                && !goes_somewhere
            &&& request is Route <==> registered && goes_somewhere
        }),
{
    lemma_words();
    law_message_to_all_is_read(json, auth_token);
    match request_of(message_of(json), true, auth_token) {
        RequestView::Route(AudienceView::Names(names)) => {
            law_message_to_names_is_read(json, auth_token, names);
        },
        _ => {},
    }
    if exists|names: Seq<Seq<char>>| goes_to(json, names) {
        let names = choose|names: Seq<Seq<char>>| goes_to(json, names);
        law_message_to_names_is_read(json, auth_token, names);
    }
}

/// An object that has a type and nothing else.
pub open spec fn bare(kind: Seq<char>) -> Json {
    Json::Object(map!["type"@ => Json::Text(kind)])
}

/// An object has finitely many members.
pub open spec fn is_finite(json: Json) -> bool {
    json matches Json::Object(members) ==> members.dom().finite()
}

proof fn lemma_bare(json: Json, kind: Seq<char>)
    requires
        is_finite(json),
        has(json, "type"@, Json::Text(kind)),
    ensures
        is_bare(message_of(json)) <==> json == bare(kind),
{
    let members = json->Object_0;
    if members.dom().len() == 1 {
        assert forall|key: Seq<char>| #[trigger] members.contains_key(key) implies key == "type"@ by {
            vstd::set_lib::lemma_len_subset(set!["type"@, key], members.dom());
        }
        assert(members =~= map!["type"@ => Json::Text(kind)]);
    }
    if json == bare(kind) {
        assert(members.dom() =~= set!["type"@]);
    }
}

/// The names are listed for, and a sign of life is given to, a registered connection that asks for
/// it with a type and nothing else. What is more than that makes the message invalid. Who has not
/// registered is told so when asking for the names, and that there is no such type when asking for
/// a sign of life.
pub proof fn law_bare_requests(json: Json, registered: bool, auth_token: Option<Seq<char>>)
    requires
        is_finite(json),
    ensures
        ({
            let request = request_of(message_of(json), registered, auth_token);
            &&& request == RequestView::Users <==> registered && json == bare("users"@)
            &&& request == RequestView::Ping <==> registered && json == bare("ping"@)
            &&& has(json, "type"@, Json::Text("users"@)) && json != bare("users"@) ==> request
                == RequestView::Refuse(RelayError::InvalidMessage)
            &&& !registered && json == bare("users"@) ==> request == RequestView::Refuse(
                RelayError::RegisterFirst,
            )
            &&& registered && has(json, "type"@, Json::Text("ping"@)) && json != bare("ping"@)
                ==> request == RequestView::Refuse(RelayError::InvalidMessage)
        }),
{
    lemma_words();
    assert(has(bare("users"@), "type"@, Json::Text("users"@)));
    assert(has(bare("ping"@), "type"@, Json::Text("ping"@)));
    if let Some(Json::Text(kind)) = member(json, "type"@) {
        assert(has(json, "type"@, Json::Text(kind)));
        lemma_bare(json, kind);
    }
}

/// There are four types, and one of them only for who has registered. Every other message, and
/// everything that is no object or has no type, is of an unknown one.
pub proof fn law_unknown_type(json: Json, registered: bool, auth_token: Option<Seq<char>>)
    ensures
        request_of(message_of(json), registered, auth_token) == RequestView::Refuse(
            RelayError::UnknownType,
        ) <==> !{
            ||| has(json, "type"@, Json::Text("register"@))
            ||| has(json, "type"@, Json::Text("msg"@))
            ||| has(json, "type"@, Json::Text("users"@))
            ||| registered && has(json, "type"@, Json::Text("ping"@))
        },
{
    lemma_words();
}

/// Two sessions belong to one connection: they write to one queue, and close it by one signal.
pub open spec fn same_peer(a: Session, b: Session) -> bool {
    a.channel() == b.channel() && watch_of(a.shutdown) == watch_of(b.shutdown)
}

/// A session gets a line: the line is offered to its queue once, and where it is not taken, and
/// only there, the connection is told to close, once.
pub open spec fn gets(before: Session, after: Session, line: Seq<char>) -> bool {
    &&& same_peer(after, before)
    &&& {
        ||| {
            &&& after.offers() == before.offers().push((line, true))
            &&& after.signals() == before.signals()
        }
        ||| {
            &&& after.offers() == before.offers().push((line, false))
            &&& after.signals() == before.signals().push(true)
        }
    }
}

/// Handing a line to a session is that the session gets it.
pub proof fn law_delivery(before: Session, after: Session, line: Seq<char>)
    ensures
        delivered(before, after, line) <==> gets(before, after, line),
{
}

/// Telling a connection to close is one signal, and nothing is put into its queue.
pub proof fn law_closing(before: Session, after: Session)
    ensures
        closed(before, after) <==> {
            &&& same_peer(after, before)
            &&& after.offers() == before.offers()
            &&& after.signals() == before.signals().push(true)
        },
{
}

/// A twin reaches the same connection, and nothing has been done through it.
pub proof fn law_twin(twin: Session, session: Session)
    ensures
        is_twin(twin, session) <==> {
            &&& same_peer(twin, session)
            &&& twin.offers().len() == 0
            &&& twin.signals().len() == 0
        },
{
    if twin.offers().len() == 0 && twin.signals().len() == 0 {
        assert(twin.offers() =~= Seq::<(Seq<char>, bool)>::empty());
        assert(twin.signals() =~= Seq::<bool>::empty());
    }
}

/// A line to everyone is a line that everyone gets; nobody is added or lost.
pub proof fn law_everyone_gets(
    before: Map<Seq<char>, Session>,
    after: Map<Seq<char>, Session>,
    line: Seq<char>,
)
    ensures
        broadcasted(before, after, line) <==> {
            &&& forall|name: Seq<char>|
                #![trigger before.contains_key(name)]
                #![trigger after.contains_key(name)]
                before.contains_key(name) <==> after.contains_key(name)
            &&& forall|name: Seq<char>| #[trigger]
                before.contains_key(name) ==> gets(before[name], after[name], line)
        },
{
    if broadcasted(before, after, line) {
        assert forall|name: Seq<char>|
            #![trigger before.contains_key(name)]
            #![trigger after.contains_key(name)]
            before.contains_key(name) <==> after.contains_key(name) by {
            assert(before.dom().contains(name) == after.dom().contains(name));
        }
    } else if forall|name: Seq<char>|
        #![trigger before.contains_key(name)]
        #![trigger after.contains_key(name)]
        before.contains_key(name) <==> after.contains_key(name) {
        assert(after.dom() =~= before.dom()) by {
            assert forall|name: Seq<char>| after.dom().contains(name) == before.dom().contains(
                name,
            ) by {
                assert(after.contains_key(name) == before.contains_key(name));
            }
        }
    }
}

/// An answer is one line, which is offered to the queue once, with the outcome that is reported,
/// and without a signal. The line is the text of the value.
pub proof fn law_answer(before: Session, after: Session, json: Json, queued: bool)
    requires
        answered(before, after, json, queued),
    ensures
        same_peer(after, before),
        after.offers() == before.offers().push((json_text(json), queued)),
        after.signals() == before.signals(),
        !json_text(json).contains('\n'),
{
}

/// A connection is sent an answer: a single line that reads back as the answer is offered to its
/// queue, once. Nothing else about the connection changes.
pub open spec fn is_sent(was: Connection, is: Connection, json: Json, queued: bool) -> bool {
    &&& is.name == was.name
    &&& same_peer(is.session, was.session)
    &&& is.session.offers() == was.session.offers().push((json_text(json), queued))
    &&& is.session.signals() == was.session.signals()
    &&& !json_text(json).contains('\n')
    &&& parsed_json(json_text(json)) == Some(json)
}

/// The answer that says what is wrong.
pub open spec fn error(words: Seq<char>) -> Json {
    Json::Object(map!["type"@ => Json::Text("error"@), "error"@ => Json::Text(words)])
}

/// The answer to who has been given a name.
pub open spec fn welcome(user: Seq<char>, token: Seq<char>) -> Json {
    Json::Object(
        map![
            "type"@ => Json::Text("welcome"@),
            "user"@ => Json::Text(user),
            "token"@ => Json::Text(token),
        ],
    )
}

/// The news of a name: that it has `joined`, or that it has `left`.
pub open spec fn news(kind: Seq<char>, user: Seq<char>) -> Json {
    Json::Object(map!["type"@ => Json::Text(kind), "user"@ => Json::Text(user)])
}

/// The list of the names that are there.
pub open spec fn listing(items: Seq<Json>) -> Json {
    Json::Object(map!["type"@ => Json::Text("users"@), "users"@ => Json::Array(items)])
}

/// The words for what is wrong.
pub open spec fn reason_words(reason: RelayError) -> Seq<char> {
    match reason {
        RelayError::BadJson => "bad json"@,
        RelayError::AlreadyRegistered => "already registered"@,
        RelayError::Unauthorized => "unauthorized"@,
        RelayError::InvalidRegistration => "invalid registration"@,
        RelayError::InvalidName => "invalid name"@,
        RelayError::NameTaken => "name taken"@,
        RelayError::RegisterFirst => "register first"@,
        RelayError::InvalidMessage => "invalid message"@,
        RelayError::UserUnavailable => "user unavailable"@,
        RelayError::UnknownType => "unknown type"@,
    }
}

/// Telling a connection what is wrong is to send it the words for that.
pub proof fn law_error_is_sent(was: Connection, is: Connection, reason: RelayError, queued: bool)
    requires
        told(was, is, error_json(reason), queued),
    ensures
        is_sent(was, is, error(reason_words(reason)), queued),
{
    law_own_words_are_plain(reason, seq![], seq![], seq![]);
    assert(error_json(reason) == error(reason_words(reason)));
}

/// A request is refused: the connection is sent an error, and stays open if there was room for it.
/// Nothing changes for anybody else.
pub open spec fn is_refused(
    before: RegistryView,
    after: RegistryView,
    was: Connection,
    is: Connection,
    step: Step,
    words: Seq<char>,
) -> bool {
    &&& after == before
    &&& is_sent(was, is, error(words), step.open)
    &&& step.displaced is None
}

/// A connection is dismissed: it is sent an error, and is closed whether or not there was room for
/// it. Nothing changes for anybody else.
pub open spec fn is_dismissed(
    before: RegistryView,
    after: RegistryView,
    was: Connection,
    is: Connection,
    step: Step,
    words: Seq<char>,
) -> bool {
    &&& after == before
    &&& exists|queued: bool| is_sent(was, is, error(words), queued)
    &&& !step.open
    &&& step.displaced is None
}

/// A line is obeyed for what it holds.
pub proof fn law_line_is_read(
    before: RegistryView,
    after: RegistryView,
    was: Connection,
    is: Connection,
    auth_token: Option<Seq<char>>,
    line: Seq<char>,
    now: u64,
    step: Step,
)
    ensures
        handled(before, after, was, is, auth_token, line, now, step) <==> obeyed(
            before,
            after,
            was,
            is,
            auth_token,
            parsed_json(line),
            now,
            step,
        ),
{
}

/// A line that is no JSON is answered with that, and the connection stays open.
pub proof fn law_bad_json(
    before: RegistryView,
    after: RegistryView,
    was: Connection,
    is: Connection,
    auth_token: Option<Seq<char>>,
    now: u64,
    step: Step,
)
    requires
        obeyed(before, after, was, is, auth_token, None, now, step),
    ensures
        is_refused(before, after, was, is, step, "bad json"@),
{
    law_error_is_sent(was, is, RelayError::BadJson, step.open);
}

/// How each request that cannot be met is answered, and when the connection is closed for it.
pub proof fn law_refusals_are_answered(
    before: RegistryView,
    after: RegistryView,
    was: Connection,
    is: Connection,
    auth_token: Option<Seq<char>>,
    json: Json,
    now: u64,
    step: Step,
)
    requires
        obeyed(before, after, was, is, auth_token, Some(json), now, step),
    ensures
        match request_of(message_of(json), was.name is Some, auth_token) {
            RequestView::Refuse(reason) => is_refused(
                before,
                after,
                was,
                is,
                step,
                reason_words(reason),
            ),
            RequestView::Dismiss(reason) => reason == RelayError::Unauthorized && is_dismissed(
                before,
                after,
                was,
                is,
                step,
                "unauthorized"@,
            ),
            _ => true,
        },
{
    match request_of(message_of(json), was.name is Some, auth_token) {
        RequestView::Refuse(reason) => {
            law_error_is_sent(was, is, reason, step.open);
        },
        RequestView::Dismiss(reason) => {
            let queued = choose|queued: bool| told(was, is, error_json(reason), queued);
            law_error_is_sent(was, is, reason, queued);
        },
        _ => {},
    }
}

/// A connection is the one that is registered under a name.
pub open spec fn holds(users: Map<Seq<char>, Session>, name: Seq<char>, session: Session) -> bool {
    users.contains_key(name) && users[name].channel() == session.channel()
}

/// The line of a message that is passed on: the message as it came, with the name of the sender.
pub open spec fn stamped(json: Json, from: Seq<char>) -> Seq<char> {
    json_text(Json::Object(json->Object_0.insert("from"@, Json::Text(from))))
}

/// What a message brings about for everybody: each of some names gets a line, and all else about
/// the registry and the sender stays as it is. The connection stays open.
pub open spec fn only_these_get(
    before: RegistryView,
    after: RegistryView,
    was: Connection,
    is: Connection,
    step: Step,
    names: Set<Seq<char>>,
    line: Seq<char>,
) -> bool {
    &&& forall|name: Seq<char>| #[trigger]
        after.users.contains_key(name) <==> before.users.contains_key(name)
    &&& forall|name: Seq<char>| #[trigger]
        before.users.contains_key(name) ==> if names.contains(name) {
            gets(before.users[name], after.users[name], line)
        } else {
            after.users[name] == before.users[name]
        }
    &&& after.tokens == before.tokens
    &&& is == was
    &&& step.open
    &&& step.displaced is None
}

/// A line that a registered connection passes on reaches those whom it is for, and the sender,
/// once each; if one of them is not there, nobody gets it and the sender is told; and a connection
/// that is not the one registered under its name is dismissed.
pub proof fn law_passing_on(
    before: RegistryView,
    after: RegistryView,
    was: Connection,
    is: Connection,
    audience: AudienceView,
    line: Seq<char>,
    step: Step,
    from: Seq<char>,
)
    requires
        routed(before, after, was, is, audience, line, step),
        was.name.deep_view() == Some(from),
    ensures
        !holds(before.users, from, was.session) ==> is_dismissed(
            before,
            after,
            was,
            is,
            step,
            "register first"@,
        ),
        holds(before.users, from, was.session) ==> match audience {
            AudienceView::Everyone => only_these_get(
                before,
                after,
                was,
                is,
                step,
                before.users.dom(),
                line,
            ),
            AudienceView::Names(names) => if exists|i: int|
                0 <= i < names.len() && !before.users.contains_key(#[trigger] names[i]) {
                is_refused(before, after, was, is, step, "user unavailable"@)
            } else {
                only_these_get(
                    before,
                    after,
                    was,
                    is,
                    step,
                    Set::new(|name: Seq<char>| name == from || names.contains(name)),
                    line,
                )
            },
        },
{
    if !holds(before.users, from, was.session) {
        let queued = choose|queued: bool|
            told(was, is, error_json(RelayError::RegisterFirst), queued);
        law_error_is_sent(was, is, RelayError::RegisterFirst, queued);
    } else if told(was, is, error_json(RelayError::UserUnavailable), step.open) {
        law_error_is_sent(was, is, RelayError::UserUnavailable, step.open);
    }
    assert(after.users.dom() == before.users.dom());
    assert forall|name: Seq<char>| #[trigger]
        after.users.contains_key(name) <==> before.users.contains_key(name) by {
        assert(after.users.dom().contains(name) == before.users.dom().contains(name));
    }
}

/// A message to everyone from a connection that is registered under its name reaches every
/// registered connection, the sender's too, however many there are. It is never answered with an
/// error, and the sender stays open.
pub proof fn law_message_reaches_all(
    before: RegistryView,
    after: RegistryView,
    was: Connection,
    is: Connection,
    auth_token: Option<Seq<char>>,
    json: Json,
    now: u64,
    step: Step,
    from: Seq<char>,
)
    requires
        obeyed(before, after, was, is, auth_token, Some(json), now, step),
        was.name.deep_view() == Some(from),
        holds(before.users, from, was.session),
        goes_to_all(json),
    ensures
        only_these_get(
            before,
            after,
            was,
            is,
            step,
            before.users.dom(),
            stamped(json, from),
        ),
        forall|name: Seq<char>| #[trigger]
            before.users.contains_key(name) ==> gets(
                before.users[name],
                after.users[name],
                stamped(json, from),
            ),
        !stamped(json, from).contains('\n'),
{
    law_message_to_all_is_read(json, auth_token);
    assert forall|name: Seq<char>| #[trigger]
        after.users.contains_key(name) <==> before.users.contains_key(name) by {
        assert(after.users.dom().contains(name) == before.users.dom().contains(name));
    }
}

/// A message to names from a connection that is registered under its name reaches, if all these
/// names are there, the connection of each of them and the sender's own, once each, and nobody
/// else. If one is not there, nobody gets it, and the sender is told.
pub proof fn law_message_reaches_names(
    before: RegistryView,
    after: RegistryView,
    was: Connection,
    is: Connection,
    auth_token: Option<Seq<char>>,
    json: Json,
    now: u64,
    step: Step,
    from: Seq<char>,
    names: Seq<Seq<char>>,
)
    requires
        obeyed(before, after, was, is, auth_token, Some(json), now, step),
        was.name.deep_view() == Some(from),
        holds(before.users, from, was.session),
        goes_to(json, names),
    ensures
        (forall|i: int| 0 <= i < names.len() ==> before.users.contains_key(#[trigger] names[i]))
            ==> {
            &&& only_these_get(
                before,
                after,
                was,
                is,
                step,
                Set::new(|name: Seq<char>| name == from || names.contains(name)),
                stamped(json, from),
            )
            &&& gets(before.users[from], after.users[from], stamped(json, from))
            &&& forall|i: int|
                0 <= i < names.len() ==> gets(
                    before.users[#[trigger] names[i]],
                    after.users[names[i]],
                    stamped(json, from),
                )
            &&& !stamped(json, from).contains('\n')
        },
        (exists|i: int| 0 <= i < names.len() && !before.users.contains_key(#[trigger] names[i]))
            ==> is_refused(before, after, was, is, step, "user unavailable"@),
{
    law_message_to_names_is_read(json, auth_token, names);
    if forall|i: int| 0 <= i < names.len() ==> before.users.contains_key(#[trigger] names[i]) {
        assert forall|name: Seq<char>| #[trigger]
            after.users.contains_key(name) <==> before.users.contains_key(name) by {
            assert(after.users.dom().contains(name) == before.users.dom().contains(name));
        }
        assert forall|i: int| 0 <= i < names.len() implies gets(
            before.users[#[trigger] names[i]],
            after.users[names[i]],
            stamped(json, from),
        ) by {
            assert(names.contains(names[i]));
            assert(before.users.contains_key(names[i]));
        }
    } else {
        law_error_is_sent(was, is, RelayError::UserUnavailable, step.open);
    }
}

/// Who has lost the name, and asks for something under it, is closed: a message is answered with
/// an error first. Nothing changes for anybody else.
pub proof fn law_loser_is_closed(
    before: RegistryView,
    after: RegistryView,
    was: Connection,
    is: Connection,
    auth_token: Option<Seq<char>>,
    json: Json,
    now: u64,
    step: Step,
    from: Seq<char>,
    names: Seq<Seq<char>>,
)
    requires
        obeyed(before, after, was, is, auth_token, Some(json), now, step),
        was.name.deep_view() == Some(from),
        !holds(before.users, from, was.session),
        is_finite(json),
    ensures
        goes_to_all(json) || goes_to(json, names) ==> is_dismissed(
            before,
            after,
            was,
            is,
            step,
            "register first"@,
        ),
        json == bare("users"@) || json == bare("ping"@) ==> after == before && is == was
            && !step.open && step.displaced is None,
{
    law_message_to_all_is_read(json, auth_token);
    law_message_to_names_is_read(json, auth_token, names);
    law_bare_requests(json, true, auth_token);
    if goes_to_all(json) || goes_to(json, names) {
        let queued = choose|queued: bool|
            told(was, is, error_json(RelayError::RegisterFirst), queued);
        law_error_is_sent(was, is, RelayError::RegisterFirst, queued);
    }
}

/// A list holds the names that are there as texts, each of them, once, and nothing else.
pub open spec fn lists(items: Seq<Json>, users: Map<Seq<char>, Session>) -> bool {
    &&& forall|i: int|
        0 <= i < items.len() ==> (#[trigger] items[i] matches Json::Text(name)
            && users.contains_key(name))
    &&& forall|name: Seq<char>| #[trigger]
        users.contains_key(name) ==> items.contains(Json::Text(name))
    &&& forall|i: int, j: int|
        0 <= i < j < items.len() ==> #[trigger] items[i] != #[trigger] items[j]
}

/// Who is registered under a name and asks for the names is sent all of them, in some order. The
/// connection stays open if there was room for the answer, and nothing else changes.
pub proof fn law_names_are_listed(
    before: RegistryView,
    after: RegistryView,
    was: Connection,
    is: Connection,
    auth_token: Option<Seq<char>>,
    now: u64,
    step: Step,
    from: Seq<char>,
) -> (items: Seq<Json>)
    requires
        obeyed(before, after, was, is, auth_token, Some(bare("users"@)), now, step),
        was.name.deep_view() == Some(from),
        holds(before.users, from, was.session),
    ensures
        is_sent(was, is, listing(items), step.open),
        lists(items, before.users),
        after == before,
        step.displaced is None,
{
    law_bare_requests(bare("users"@), true, auth_token);
    let names = choose|names: Seq<Seq<char>>|
        {
            &&& names.no_duplicates()
            &&& names.to_set() == before.users.dom()
            &&& #[trigger] told(was, is, users_json(names), step.open)
        };
    let items = names.map_values(|text: Seq<char>| Json::Text(text));
    law_own_words_are_plain(RelayError::BadJson, seq![], seq![], names);
    assert(users_json(names) == listing(items));
    assert forall|i: int| 0 <= i < items.len() implies (#[trigger] items[i] matches Json::Text(name)
        && before.users.contains_key(name)) by {
        assert(names.to_set().contains(names[i]));
    }
    assert forall|name: Seq<char>| #[trigger]
        before.users.contains_key(name) implies items.contains(Json::Text(name)) by {
        assert(names.to_set().contains(name));
        let i = names.index_of(name);
        assert(items[i] == Json::Text(name));
    }
    items
}

/// Who is registered under a name and asks for a sign of life is given one. The connection stays
/// open if there was room for it, and nothing else changes.
pub proof fn law_ping_is_answered(
    before: RegistryView,
    after: RegistryView,
    was: Connection,
    is: Connection,
    auth_token: Option<Seq<char>>,
    now: u64,
    step: Step,
    from: Seq<char>,
)
    requires
        obeyed(before, after, was, is, auth_token, Some(bare("ping"@)), now, step),
        was.name.deep_view() == Some(from),
        holds(before.users, from, was.session),
    ensures
        is_sent(was, is, bare("pong"@), step.open),
        after == before,
        step.displaced is None,
{
    law_bare_requests(bare("ping"@), true, auth_token);
    law_own_words_are_plain(RelayError::BadJson, seq![], seq![], seq![]);
    assert(typed_json("pong"@) == bare("pong"@));
}

/// A name is reserved at a time: it has a token, whose time has not come.
pub open spec fn is_reserved(tokens: Map<Seq<char>, TokenView>, name: Seq<char>, now: u64) -> bool {
    tokens.contains_key(name) && (tokens[name].expires is Some ==> now < tokens[name].expires->0)
}

/// The names that are reserved at a time.
pub open spec fn reserved_names(tokens: Map<Seq<char>, TokenView>, now: u64) -> Set<Seq<char>> {
    Set::new(|name: Seq<char>| is_reserved(tokens, name, now))
}

/// Whoever asks can have a name: nobody has reserved it, or the token that is shown is its token.
pub open spec fn can_have(
    tokens: Map<Seq<char>, TokenView>,
    name: Seq<char>,
    shown: Option<Seq<char>>,
    now: u64,
) -> bool {
    !is_reserved(tokens, name, now) || shown == Some(tokens[name].value)
}

/// A name was not given: the connection is told that it is taken, and has no name. The tokens whose
/// time has come are dropped, and nothing else changes.
pub open spec fn is_withheld(
    before: RegistryView,
    after: RegistryView,
    was: Connection,
    is: Connection,
    now: u64,
    step: Step,
) -> bool {
    &&& is_sent(was, is, error("name taken"@), step.open)
    &&& step.displaced is None
    &&& after.users == before.users
    &&& forall|name: Seq<char>| #[trigger]
        after.tokens.contains_key(name) <==> is_reserved(before.tokens, name, now)
    &&& forall|name: Seq<char>| #[trigger]
        after.tokens.contains_key(name) ==> after.tokens[name] == before.tokens[name]
}

/// A token had to make room: the table was full of reserved names, the name was not among them, and
/// of those whose token expires none expires sooner.
pub open spec fn makes_room(
    tokens: Map<Seq<char>, TokenView>,
    name: Seq<char>,
    dropped: Seq<char>,
    now: u64,
) -> bool {
    &&& !is_reserved(tokens, name, now)
    &&& reserved_names(tokens, now).len() == 1024
    &&& is_reserved(tokens, dropped, now)
    &&& tokens[dropped].expires is Some
    &&& forall|other: Seq<char>| #[trigger]
        is_reserved(tokens, other, now) && tokens[other].expires is Some
            ==> tokens[dropped].expires->0 <= tokens[other].expires->0
}

/// What becomes of the tokens when a name is given: the name has the fresh one, which does not
/// expire; those whose time has come are dropped; the others are kept as they are, but for one
/// where room has to be made and one of them expires.
pub open spec fn tokens_follow(
    before: Map<Seq<char>, TokenView>,
    after: Map<Seq<char>, TokenView>,
    name: Seq<char>,
    fresh: Seq<char>,
    now: u64,
) -> bool {
    &&& after.contains_pair(name, TokenView { value: fresh, expires: None })
    &&& forall|other: Seq<char>| #[trigger]
        after.contains_key(other) && other != name ==> is_reserved(before, other, now)
            && after[other] == before[other]
    &&& forall|other: Seq<char>| #[trigger]
        is_reserved(before, other, now) && other != name && !after.contains_key(other)
            ==> makes_room(before, name, other, now)
    &&& forall|other: Seq<char>, another: Seq<char>| #[trigger]
        is_reserved(before, other, now) && other != name && !after.contains_key(other)
            && #[trigger] is_reserved(before, another, now) && another != name && another != other
            ==> after.contains_key(another)
    &&& (exists|other: Seq<char>| #[trigger] makes_room(before, name, other, now)) ==> exists|
        other: Seq<char>,
    | #[trigger]
        makes_room(before, name, other, now) && !after.contains_key(other)
}

/// What becomes of the sessions when a name is given: the connection stands under the name, and all
/// other names stand as before. If there was room for the welcome, everyone gets the news, who has
/// been given the name too; if there was none, nobody does.
pub open spec fn users_follow(
    before: Map<Seq<char>, Session>,
    after: Map<Seq<char>, Session>,
    name: Seq<char>,
    session: Session,
    open: bool,
) -> bool {
    let line = json_text(news("joined"@, name));
    &&& forall|other: Seq<char>| #[trigger]
        after.contains_key(other) <==> before.contains_key(other) || other == name
    &&& forall|other: Seq<char>| #[trigger]
        before.contains_key(other) && other != name ==> if open {
            gets(before[other], after[other], line)
        } else {
            after[other] == before[other]
        }
    &&& same_peer(after[name], session)
    &&& if open {
        &&& after[name].offers().len() == 1
        &&& after[name].offers()[0].0 == line
        &&& after[name].signals() == if after[name].offers()[0].1 {
            seq![]
        } else {
            seq![true]
        }
        &&& !line.contains('\n')
        &&& parsed_json(line) == Some(news("joined"@, name))
    } else {
        &&& after[name].offers().len() == 0
        &&& after[name].signals().len() == 0
    }
}

/// A name was given: the connection has it and is sent a welcome with the fresh token, and who had
/// the name before is told to close.
pub open spec fn is_given(
    before: RegistryView,
    after: RegistryView,
    was: Connection,
    is: Connection,
    name: Seq<char>,
    fresh: Seq<char>,
    now: u64,
    step: Step,
) -> bool {
    let line = json_text(welcome(name, fresh));
    &&& is.name.deep_view() == Some(name)
    &&& same_peer(is.session, was.session)
    &&& is.session.offers() == was.session.offers().push((line, step.open))
    &&& is.session.signals() == was.session.signals()
    &&& !line.contains('\n')
    &&& parsed_json(line) == Some(welcome(name, fresh))
    &&& step.displaced is Some <==> before.users.contains_key(name)
    &&& step.displaced matches Some(former) ==> {
        &&& same_peer(former, before.users[name])
        &&& former.offers() == before.users[name].offers()
        &&& former.signals() == before.users[name].signals().push(true)
    }
    &&& users_follow(before.users, after.users, name, was.session, step.open)
    &&& tokens_follow(before.tokens, after.tokens, name, fresh, now)
}

pub(crate) proof fn lemma_reserved(tokens: Map<Seq<char>, TokenView>, now: u64)
    ensures
        forall|name: Seq<char>| #[trigger]
            live_tokens(tokens, now).contains_key(name) <==> is_reserved(tokens, name, now),
        live_tokens(tokens, now).dom() == reserved_names(tokens, now),
        forall|name: Seq<char>| #[trigger]
            is_reserved(tokens, name, now) ==> live_tokens(tokens, now)[name] == tokens[name],
{
    assert(live_tokens(tokens, now).dom() =~= reserved_names(tokens, now));
}

pub(crate) proof fn lemma_tokens_follow(
    before: RegistryView,
    after: RegistryView,
    name: Seq<char>,
    session: Session,
    fresh: Seq<char>,
    now: u64,
)
    requires
        granted(before, after, name, session, fresh, now),
    ensures
        tokens_follow(before.tokens, after.tokens, name, fresh, now),
{
    let live = live_tokens(before.tokens, now);
    lemma_reserved(before.tokens, now);
    let kept = lemma_room(before, after, name, session, fresh, now);
    assert forall|other: Seq<char>| #[trigger] is_oldest(live, other) implies makes_room(
        before.tokens,
        name,
        other,
        now,
    ) || live.contains_key(name) || live.len() != 1024 by {
        assert forall|another: Seq<char>| #[trigger]
            is_reserved(before.tokens, another, now) && before.tokens[another].expires
                is Some implies before.tokens[other].expires->0
            <= before.tokens[another].expires->0 by {
            assert(live.contains_key(another));
        }
    }
    assert forall|other: Seq<char>| #[trigger]
        makes_room(before.tokens, name, other, now) implies is_oldest(live, other) by {
        assert forall|another: Seq<char>| #[trigger]
            live.contains_key(another) && live[another].expires is Some implies live[other].expires->0
            <= live[another].expires->0 by {
            assert(is_reserved(before.tokens, another, now));
        }
    }
    assert forall|other: Seq<char>| #[trigger]
        is_reserved(before.tokens, other, now) && other != name && !after.tokens.contains_key(
            other,
        ) implies makes_room(before.tokens, name, other, now) by {
        assert(live.contains_key(other));
        assert(!kept.contains_key(other));
        assert(is_oldest(live, other));
    }
    if exists|other: Seq<char>| #[trigger] makes_room(before.tokens, name, other, now) {
        let other = choose|other: Seq<char>| #[trigger] makes_room(before.tokens, name, other, now);
        assert(is_oldest(live, other));
        assert(!live.contains_key(name));
        let oldest = choose|oldest: Seq<char>| #[trigger]
            is_oldest(live, oldest) && kept == live.remove(oldest);
        assert(makes_room(before.tokens, name, oldest, now));
        assert(!after.tokens.contains_key(oldest));
    }
}

/// One wins: whoever asks for a name that nobody has reserved, or shows the token that it is
/// reserved with, is given it, and nobody else is.
pub proof fn law_name_is_given_or_withheld(
    before: RegistryView,
    after: RegistryView,
    was: Connection,
    is: Connection,
    name: Seq<char>,
    shown: Option<Seq<char>>,
    fresh: Seq<char>,
    now: u64,
    step: Step,
)
    requires
        registered(before, after, was, is, name, shown, fresh, now, step),
    ensures
        if can_have(before.tokens, name, shown, now) {
            is_given(before, after, was, is, name, fresh, now, step)
        } else {
            is_withheld(before, after, was, is, now, step)
        },
{
    lemma_words();
    lemma_reserved(before.tokens, now);
    law_own_words_are_plain(RelayError::NameTaken, name, fresh, seq![]);
    if may_claim(live_tokens(before.tokens, now), name, shown) {
        assert(can_have(before.tokens, name, shown, now)) by {
            assert(live_tokens(before.tokens, now).contains_key(name) <==> is_reserved(
                before.tokens,
                name,
                now,
            ));
        }
        let mid = lemma_claim(before, after, was, is, name, shown, fresh, now, step);
        lemma_tokens_follow(before, mid, name, was.session, fresh, now);
        assert(welcome_json(name, fresh) == welcome(name, fresh));
        assert(joined_json(name) == news("joined"@, name));
        assert forall|other: Seq<char>| #[trigger]
            after.users.contains_key(other) <==> before.users.contains_key(other) || other == name by {
            assert(after.users.dom().contains(other) == mid.users.dom().contains(other));
        }
        assert(mid.users.contains_key(name));
        if step.open {
            assert(gets(mid.users[name], after.users[name], json_text(news("joined"@, name))));
            assert forall|other: Seq<char>| #[trigger]
                before.users.contains_key(other) && other != name implies gets(
                before.users[other],
                after.users[other],
                json_text(news("joined"@, name)),
            ) by {
                assert(mid.users.contains_key(other));
            }
        }
    } else {
        assert(!can_have(before.tokens, name, shown, now)) by {
            assert(live_tokens(before.tokens, now).contains_key(name));
        }
        law_error_is_sent(was, is, RelayError::NameTaken, step.open);
    }
}

/// A token as it is drawn: 32 lower-case hexadecimal digits.
pub open spec fn looks_drawn(text: Seq<char>) -> bool {
    &&& text.len() == 32
    &&& forall|i: int| #![trigger text[i]]
        0 <= i < text.len() ==> '0' <= text[i] <= '9' || 'a' <= text[i] <= 'f'
}

/// Who registers a name that nobody has reserved, or shows the token that it is reserved with, is
/// given the name and a token that was drawn for it. Anybody else is told that it is taken. This is
/// so on a server that asks for a secret as well as on one that does not.
pub proof fn law_registration_is_answered(
    before: RegistryView,
    after: RegistryView,
    was: Connection,
    is: Connection,
    auth_token: Option<Seq<char>>,
    json: Json,
    now: u64,
    step: Step,
    name: Seq<char>,
    shown: Option<Seq<char>>,
) -> (fresh: Seq<char>)
    requires
        obeyed(before, after, was, is, auth_token, Some(json), now, step),
        was.name is None,
        registers(json, auth_token, name, shown),
    ensures
        looks_drawn(fresh),
        if can_have(before.tokens, name, shown, now) {
            is_given(before, after, was, is, name, fresh, now, step)
        } else {
            is_withheld(before, after, was, is, now, step)
        },
{
    law_registration_is_read(json, auth_token, name, shown);
    let fresh = lemma_drawn(before, after, was, is, name, shown, now, step);
    law_name_is_given_or_withheld(before, after, was, is, name, shown, fresh, now, step);
    let n = choose|n: u128| fresh == #[trigger] token_text(n);
    law_token_shape(n);
    fresh
}

/// When the connection registered under a name goes, the name has no connection any more, and
/// everybody else, however many there are, gets the news. The name stays reserved with the token
/// that it has for ten minutes. A connection that is not registered leaves no trace.
pub proof fn law_leaving(
    before: RegistryView,
    after: RegistryView,
    was: Connection,
    is: Connection,
    now: u64,
    gone: Option<Seq<char>>,
)
    requires
        disconnected(before, after, was, is, now, gone),
        now + 600_000_000_000 <= u64::MAX,
    ensures
        is.session == was.session,
        is.name is None,
        was.name is None ==> gone is None && after == before,
        was.name.deep_view() matches Some(name) ==> if !holds(before.users, name, was.session) {
            gone is None && after == before
        } else {
            let line = json_text(news("left"@, name));
            &&& gone == Some(name)
            &&& forall|other: Seq<char>| #[trigger]
                after.users.contains_key(other) <==> before.users.contains_key(other) && other
                    != name
            &&& forall|other: Seq<char>| #[trigger]
                before.users.contains_key(other) && other != name ==> gets(
                    before.users[other],
                    after.users[other],
                    line,
                )
            &&& !line.contains('\n')
            &&& parsed_json(line) == Some(news("left"@, name))
            &&& forall|other: Seq<char>| #[trigger]
                after.tokens.contains_key(other) <==> before.tokens.contains_key(other)
            &&& forall|other: Seq<char>| #[trigger]
                before.tokens.contains_key(other) && other != name ==> after.tokens[other]
                    == before.tokens[other]
            &&& before.tokens.contains_key(name) ==> after.tokens[name] == (TokenView {
                value: before.tokens[name].value,
                expires: Some((now + 600_000_000_000) as u64),
            })
        },
{
    lemma_words();
    if let Some(name) = was.name.deep_view() {
        if holds(before.users, name, was.session) {
            law_own_words_are_plain(RelayError::BadJson, name, seq![], seq![]);
            assert(left_json(name) == news("left"@, name));
            let rest = before.users.remove(name);
            assert forall|other: Seq<char>| #[trigger]
                after.users.contains_key(other) <==> before.users.contains_key(other) && other
                    != name by {
                assert(after.users.dom().contains(other) == rest.dom().contains(other));
            }
            assert forall|other: Seq<char>| #[trigger]
                before.users.contains_key(other) && other != name implies gets(
                before.users[other],
                after.users[other],
                json_text(news("left"@, name)),
            ) by {
                assert(rest.contains_key(other));
            }
        }
    }
}

/// The registry holds what its tables hold.
pub proof fn law_registry_content(registry: Registry, name: Seq<char>)
    ensures
        registry@.users == registry.users@,
        registry@.tokens.contains_key(name) <==> registry.tokens@.contains_key(name),
        registry.tokens@.contains_key(name) ==> registry@.tokens[name].value
            == registry.tokens@[name].value@ && registry@.tokens[name].expires
            == registry.tokens@[name].expires,
{
}

/// What was read holds what the value holds.
pub proof fn law_read_content(value: serde_json::Value)
    ensures
        content_of(Some(value)) == Some(json_of(value)),
        content_of(None) == None::<Json>,
{
}

/// The number that a hexadecimal text stands for, the highest digit first.
pub open spec fn number_of(text: Seq<char>) -> int
    decreases text.len(),
{
    if text.len() == 0 {
        0
    } else {
        let last = text.last();
        16 * number_of(text.drop_last()) + if last <= '9' {
            last as int - '0' as int
        } else {
            last as int - 'a' as int + 10
        }
    }
}

proof fn lemma_number_of(n: int, width: nat)
    requires
        0 <= n,
    ensures
        number_of(hex_digits(n, width)) == n % (vstd::arithmetic::power::pow(16, width) as int),
    decreases width,
{
    vstd::arithmetic::power::lemma_pow0(16);
    if width > 0 {
        let rest = (width - 1) as nat;
        let p = vstd::arithmetic::power::pow(16, rest);
        lemma_number_of(n / 16, rest);
        let front = hex_digits(n / 16, rest);
        assert(hex_digits(n, width).drop_last() =~= front);
        assert(hex_digits(n, width).last() == hex_digit(n % 16));
        reveal(vstd::arithmetic::power::pow);
        vstd::arithmetic::power::lemma_pow_positive(16, rest);
        vstd::arithmetic::div_mod::lemma_breakdown(n, 16, p);
    } else {
        assert(n % 1 == 0);
    }
}

/// A text of digits stands for the number that it was made of, as far as there are digits for it,
/// and a token for the whole of its number.
pub proof fn law_digits_stand_for_number(n: u128, width: nat)
    ensures
        number_of(hex_digits(n as int, width)) == n as int % (vstd::arithmetic::power::pow(
            16,
            width,
        ) as int),
        number_of(token_text(n)) == n,
{
    lemma_number_of(n as int, width);
    lemma_number_of(n as int, 32);
    assert(vstd::arithmetic::power::pow(16, 32) == u128::MAX + 1) by {
        reveal_with_fuel(vstd::arithmetic::power::pow, 33);
    }
    assert(n as int % (u128::MAX + 1) == n);
}

/// What is drawn for a name is a token of 32 digits, and every number is the number of one.
pub proof fn law_drawn_tokens(text: Seq<char>, n: u128)
    ensures
        is_token(text) ==> looks_drawn(text),
        is_token(token_text(n)),
{
    if is_token(text) {
        let m = choose|m: u128| text == #[trigger] token_text(m);
        law_token_shape(m);
    }
}

/// The limits of the protocol.
pub proof fn law_limits()
    ensures
        MAX_LINE == 256 * 1024,
        TX_BUFFER == 8,
        MAX_CONNECTIONS == 64,
        MAX_TOKENS == 1024,
        MAX_NAME == 32,
        TOKEN_TTL == 10 * 60 * 1_000_000_000,
        WRITE_TIMEOUT == 10,
        TLS_TIMEOUT == 10,
        REGISTRATION_TIMEOUT == 10,
        IDLE_TIMEOUT == 5 * 60,
{
}

/// A connection is given ten seconds for its next line before it has registered, and five minutes
/// after that.
pub proof fn law_waiting(connection: Connection, seconds: u64)
    requires
        call_ensures(Connection::idle_timeout, (&connection,), seconds),
    ensures
        connection.name is None ==> seconds == 10,
        connection.name is Some ==> seconds == 300,
{
}

/// What still waits for a connection is written to it exactly if it was not told to close and can
/// still be written to.
pub proof fn law_farewell(told_to_close: bool, writer_finished: bool, how: Farewell)
    requires
        call_ensures(farewell, (told_to_close, writer_finished), how),
    ensures
        how == Farewell::Drain <==> !told_to_close && !writer_finished,
        how == Farewell::Abort <==> told_to_close || writer_finished,
{
}

} // verus!
