//! What a call of each operation comes to.
use serde_json::Value;
use std::sync::Arc;
use vstd::prelude::*;

use crate::json::{is_plain, json_of, json_text, parsed_json};
use crate::message::{message_of, read_message, Message};
use crate::protocol::{
    can_be_registered, can_have, error, gets, holds, is_reserved, is_sent,
    law_digits_stand_for_number, law_drawn_tokens, law_error_is_sent, law_everyone_gets, law_names,
    lemma_reserved, lemma_tokens_follow, looks_drawn, number_of, reason_words, same_peer,
    tokens_follow, users_follow,
};
use crate::registry::{broadcast, live_tokens, Claim, Registry};
use crate::relay::{
    disconnect, disconnected, handle_line, list_users, obey, obeyed, ping, ponged,
    read_line, refuse, register, registered, route, routed, users_told, Connection, Step,
};
use crate::request::{decide, request_of, Audience, AudienceView, RelayError, Request, RequestView};
use crate::secret::{hex_text, same_secret, token, token_text};
use crate::session::{close, deliver, reply, same_connection, twin, Session};
use crate::table::NameTable;
use crate::text::{in_class, is_word, same_text, valid_name, CharClass};

verus! {

/// A line is obeyed for what it holds.
pub proof fn law_handle_line(
    registry: &mut Registry,
    connection: &mut Connection,
    auth_token: &Option<String>,
    line: &str,
    now: u64,
    step: Step,
)
    requires
        call_ensures(handle_line, (registry, connection, auth_token, line, now), step),
    ensures
        final(registry).wf(),
        obeyed(
            old(registry)@,
            final(registry)@,
            *old(connection),
            *final(connection),
            auth_token.deep_view(),
            parsed_json(line@),
            now,
            step,
        ),
{
}

/// What was read of a line is obeyed.
pub proof fn law_obey(
    registry: &mut Registry,
    connection: &mut Connection,
    auth_token: &Option<String>,
    read: Option<Value>,
    now: u64,
    step: Step,
)
    requires
        call_ensures(obey, (registry, connection, auth_token, read, now), step),
    ensures
        final(registry).wf(),
        obeyed(
            old(registry)@,
            final(registry)@,
            *old(connection),
            *final(connection),
            auth_token.deep_view(),
            match read {
                Some(value) => Some(json_of(value)),
                None => None,
            },
            now,
            step,
        ),
{
}

/// A line is read as what it stands for.
pub proof fn law_read_line(line: &str, read: Option<Value>)
    requires
        call_ensures(read_line, (line,), read),
    ensures
        read is Some <==> parsed_json(line@) is Some,
        read is Some ==> parsed_json(line@) == Some(json_of(read->0)),
{
}

/// A name is given to whoever can have it, and withheld from whoever cannot.
pub proof fn law_register(
    registry: &mut Registry,
    connection: &mut Connection,
    name: String,
    shown: &Option<String>,
    fresh: String,
    now: u64,
    step: Step,
)
    requires
        call_ensures(register, (registry, connection, name, shown, fresh, now), step),
    ensures
        final(registry).wf(),
        registered(
            old(registry)@,
            final(registry)@,
            *old(connection),
            *final(connection),
            name@,
            shown.deep_view(),
            fresh@,
            now,
            step,
        ),
{
}

/// A line is passed on to those whom it is for.
pub proof fn law_route(
    registry: &mut Registry,
    connection: &mut Connection,
    audience: &Audience,
    line: Arc<String>,
    step: Step,
)
    requires
        call_ensures(route, (registry, connection, audience, line), step),
    ensures
        final(registry).wf(),
        routed(
            old(registry)@,
            final(registry)@,
            *old(connection),
            *final(connection),
            audience@,
            line@,
            step,
        ),
{
}

/// The names are listed, and a sign of life is given.
pub proof fn law_list_users_and_ping(registry: &Registry, connection: &mut Connection, open: bool)
    ensures
        call_ensures(list_users, (registry, connection), open) ==> users_told(
            registry@.users,
            *old(connection),
            *final(connection),
            open,
        ),
        call_ensures(ping, (registry, connection), open) ==> ponged(
            registry@.users,
            *old(connection),
            *final(connection),
            open,
        ),
{
}

/// A connection that goes is taken out.
pub proof fn law_disconnect(
    registry: &mut Registry,
    connection: &mut Connection,
    now: u64,
    gone: Option<String>,
)
    requires
        call_ensures(disconnect, (registry, connection, now), gone),
    ensures
        final(registry).wf(),
        disconnected(
            old(registry)@,
            final(registry)@,
            *old(connection),
            *final(connection),
            now,
            gone.deep_view(),
        ),
{
}

/// A connection that is refused something is sent the words for it.
pub proof fn law_refuse(connection: &mut Connection, reason: RelayError, queued: bool)
    requires
        call_ensures(refuse, (connection, reason), queued),
    ensures
        is_sent(*old(connection), *final(connection), error(reason_words(reason)), queued),
{
    law_error_is_sent(*old(connection), *final(connection), reason, queued);
}

/// A session that is handed a line gets it.
pub proof fn law_deliver(session: &mut Session, line: Arc<String>)
    requires
        call_ensures(deliver, (session, line), ()),
    ensures
        gets(*old(session), *final(session), line@),
{
}

/// Everyone gets a line to everyone, and nothing else in the registry changes.
pub proof fn law_line_to_everyone(registry: &mut Registry, line: Arc<String>, name: Seq<char>)
    requires
        call_ensures(broadcast, (registry, line), ()),
    ensures
        final(registry).wf(),
        final(registry)@.tokens == old(registry)@.tokens,
        final(registry)@.users.contains_key(name) <==> old(registry)@.users.contains_key(name),
        old(registry)@.users.contains_key(name) ==> gets(
            old(registry)@.users[name],
            final(registry)@.users[name],
            line@,
        ),
{
    law_everyone_gets(old(registry)@.users, final(registry)@.users, line@);
}

/// An answer is the text of a value on a line of its own, offered to the queue once; whether it was
/// taken is what is reported.
pub proof fn law_reply(session: &mut Session, message: &Value, queued: bool)
    requires
        call_ensures(reply, (session, message), queued),
    ensures
        same_peer(*final(session), *old(session)),
        final(session).offers() == old(session).offers().push(
            (json_text(json_of(*message)), queued),
        ),
        final(session).signals() == old(session).signals(),
        !json_text(json_of(*message)).contains('\n'),
        is_plain(json_of(*message), 127) ==> parsed_json(json_text(json_of(*message))) == Some(
            json_of(*message),
        ),
{
}

/// A connection that is told to close is given one signal, and nothing else.
pub proof fn law_close(session: &mut Session)
    requires
        call_ensures(close, (session,), ()),
    ensures
        same_peer(*final(session), *old(session)),
        final(session).offers() == old(session).offers(),
        final(session).signals() == old(session).signals().push(true),
{
}

/// A twin is for the same connection, and sessions are for the same connection if they write to the
/// same queue.
pub proof fn law_twins(session: &Session, other: Session, a: &Session, b: &Session, same: bool)
    requires
        call_ensures(twin, (session,), other),
        call_ensures(same_connection, (a, b), same),
    ensures
        same_peer(other, *session),
        other.offers().len() == 0,
        other.signals().len() == 0,
        same <==> a.channel() == b.channel(),
{
}

/// Nobody is registered in a new registry.
pub proof fn law_new_registry(registry: Registry, name: Seq<char>)
    requires
        call_ensures(Registry::new, (), registry),
    ensures
        registry.wf(),
        !registry@.users.contains_key(name),
        !registry@.tokens.contains_key(name),
{
}

/// A new connection has no name.
pub proof fn law_new_connection(session: Session, connection: Connection)
    requires
        call_ensures(Connection::new, (session,), connection),
    ensures
        connection.session == session,
        connection.name is None,
{
}

/// A claim is granted to whoever can have the name, and to nobody else. The connection then stands
/// under the name, and who stood there is told to close.
pub proof fn law_claim(
    registry: &mut Registry,
    name: &str,
    shown: &Option<String>,
    fresh: String,
    session: &Session,
    now: u64,
    claim: Claim,
)
    requires
        call_ensures(Registry::claim, (registry, name, shown, fresh, session, now), claim),
    ensures
        final(registry).wf(),
        claim is Granted <==> can_have(old(registry)@.tokens, name@, shown.deep_view(), now),
        claim matches Claim::Granted { displaced } ==> {
            let before = old(registry)@;
            let after = final(registry)@;
            &&& tokens_follow(before.tokens, after.tokens, name@, fresh@, now)
            &&& users_follow(before.users, after.users, name@, *session, false)
            &&& displaced is Some <==> before.users.contains_key(name@)
            &&& displaced matches Some(former) ==> {
                &&& same_peer(former, before.users[name@])
                &&& former.offers() == before.users[name@].offers()
                &&& former.signals() == before.users[name@].signals().push(true)
            }
        },
        claim is Refused ==> {
            let before = old(registry)@;
            let after = final(registry)@;
            &&& after.users == before.users
            &&& forall|other: Seq<char>| #[trigger]
                after.tokens.contains_key(other) <==> is_reserved(before.tokens, other, now)
            &&& forall|other: Seq<char>| #[trigger]
                after.tokens.contains_key(other) ==> after.tokens[other] == before.tokens[other]
        },
{
    lemma_reserved(old(registry)@.tokens, now);
    assert(live_tokens(old(registry)@.tokens, now).contains_key(name@) <==> is_reserved(
        old(registry)@.tokens,
        name@,
        now,
    ));
    if claim is Granted {
        lemma_tokens_follow(old(registry)@, final(registry)@, name@, *session, fresh@, now);
    }
}

/// Who owns a name is the connection that stands under it.
pub proof fn law_owner(registry: &Registry, name: &str, session: &Session, owner: bool)
    requires
        call_ensures(Registry::is_owner, (registry, name, session), owner),
    ensures
        owner <==> holds(registry@.users, name@, *session),
{
}

/// What is filed under a name is what is found there, and filing it changes nothing else.
pub proof fn law_table_insert<V>(
    table: &mut NameTable<V>,
    name: String,
    value: V,
    previous: Option<V>,
    other: Seq<char>,
)
    requires
        call_ensures(NameTable::<V>::insert, (table, name, value), previous),
    ensures
        final(table).wf(),
        final(table)@.contains_pair(name@, value),
        other != name@ ==> (final(table)@.contains_key(other) <==> old(table)@.contains_key(other)),
        other != name@ && old(table)@.contains_key(other) ==> final(table)@[other] == old(
            table,
        )@[other],
        previous is Some <==> old(table)@.contains_key(name@),
        previous is Some ==> previous->0 == old(table)@[name@],
{
}

/// What is taken out under a name is not there any more, and taking it out changes nothing else.
pub proof fn law_table_remove<V>(
    table: &mut NameTable<V>,
    name: &str,
    removed: Option<V>,
    other: Seq<char>,
)
    requires
        call_ensures(NameTable::<V>::remove, (table, name), removed),
    ensures
        final(table).wf(),
        !final(table)@.contains_key(name@),
        other != name@ ==> (final(table)@.contains_key(other) <==> old(table)@.contains_key(other)),
        other != name@ && old(table)@.contains_key(other) ==> final(table)@[other] == old(
            table,
        )@[other],
        removed is Some <==> old(table)@.contains_key(name@),
        removed is Some ==> removed->0 == old(table)@[name@],
{
}

/// What a table says it holds is what it holds.
pub proof fn law_table_lookup<V>(
    table: &NameTable<V>,
    name: &str,
    found: bool,
    value: Option<&V>,
    n: usize,
)
    requires
        call_ensures(NameTable::<V>::contains_key, (table, name), found),
        call_ensures(NameTable::<V>::get, (table, name), value),
        call_ensures(NameTable::<V>::len, (table,), n),
    ensures
        found <==> table@.contains_key(name@),
        value is Some <==> table@.contains_key(name@),
        value is Some ==> *value->0 == table@[name@],
        n == table@.len(),
{
}

/// A text can be registered as a name if it has 1 to 32 ASCII letters, digits, hyphens or
/// underscores.
pub proof fn law_valid_name(name: &str, valid: bool)
    requires
        call_ensures(valid_name, (name,), valid),
    ensures
        valid <==> can_be_registered(name@),
{
    law_names(name@);
}

/// Texts are the same if they have the same characters, and so are secrets.
pub proof fn law_same_texts(a: &str, b: &str, same: bool)
    ensures
        call_ensures(same_text, (a, b), same) ==> (same <==> a@ == b@),
        call_ensures(same_secret, (a, b), same) ==> (same <==> a@ == b@),
{
}

/// A character is of a class.
pub open spec fn fits(class: CharClass, c: char) -> bool {
    match class {
        CharClass::HexDigit => '0' <= c <= '9' || 'a' <= c <= 'f' || 'A' <= c <= 'F',
        _ => {
            ||| '0' <= c <= '9'
            ||| 'a' <= c <= 'z'
            ||| 'A' <= c <= 'Z'
            ||| c == '_'
            ||| c == '-'
            ||| class == CharClass::Interface && c == '.'
        },
    }
}

/// A word has a number of characters within bounds, and all of them are of a class.
pub proof fn law_word(text: &str, class: CharClass, shortest: usize, longest: usize, word: bool)
    requires
        call_ensures(is_word, (text, class, shortest, longest), word),
    ensures
        word <==> {
            &&& shortest <= text@.len() <= longest
            &&& forall|i: int| 0 <= i < text@.len() ==> fits(class, #[trigger] text@[i])
        },
{
    assert forall|i: int| 0 <= i < text@.len() implies (fits(class, #[trigger] text@[i])
        <==> in_class(class, text@[i])) by {}
    if word {
        assert forall|i: int| 0 <= i < text@.len() implies fits(class, #[trigger] text@[i]) by {
            assert(in_class(class, text@[i]));
        }
    } else if shortest <= text@.len() <= longest {
        let i = choose|i: int|
            0 <= i < text@.len() && !in_class(class, #[trigger] text@[i]);
        assert(!fits(class, text@[i]));
    }
}

/// A token is 32 lower-case hexadecimal digits, and the text of a number stands for it.
pub proof fn law_tokens(text: String, n: u128, digits: String)
    requires
        call_ensures(token, (), text),
        call_ensures(hex_text, (n, 32), digits),
    ensures
        looks_drawn(text@),
        looks_drawn(digits@),
        number_of(digits@) == n,
{
    law_drawn_tokens(text@, n);
    assert(digits@ == token_text(n));
    law_drawn_tokens(digits@, n);
    law_digits_stand_for_number(n, 32);
}

/// What a message asks for is what its value asks for.
pub proof fn law_decision(
    value: &Value,
    message: Message,
    registered: bool,
    auth_token: &Option<String>,
    request: Request,
)
    requires
        call_ensures(read_message, (value,), message),
        call_ensures(decide, (&message, registered, auth_token), request),
    ensures
        ({
            let asked = request_of(message_of(json_of(*value)), registered, auth_token.deep_view());
            match request {
                Request::Refuse(reason) => asked == RequestView::Refuse(reason),
                Request::Dismiss(reason) => asked == RequestView::Dismiss(reason),
                Request::Register { name, token } => asked == (RequestView::Register {
                    name: name@,
                    token: token.deep_view(),
                }),
                Request::Route(Audience::Everyone) => asked == RequestView::Route(
                    AudienceView::Everyone,
                ),
                Request::Route(Audience::Names(names)) => asked == RequestView::Route(
                    AudienceView::Names(names.deep_view()),
                ),
                Request::Users => asked == RequestView::Users,
                Request::Ping => asked == RequestView::Ping,
            }
        }),
{
}

/// The words for what is wrong are those of the protocol.
pub proof fn law_words(reason: RelayError, text: &'static str)
    requires
        call_ensures(RelayError::text, (reason,), text),
    ensures
        text@ == reason_words(reason),
{
}

} // verus!
