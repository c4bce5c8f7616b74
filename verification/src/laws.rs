//! What holds of the relay as a whole.
use vstd::prelude::*;
use vstd::utf8::{encode_utf8, is_ascii_chars, is_ascii_chars_encode_utf8};

use crate::bind::{padded, INTERFACE_ROOM};
use crate::json::{is_plain, json_text, member, parsed_json, typed_json, Json, MAX_DEPTH};
use crate::limits::{MAX_CONNECTIONS, MAX_TOKENS, TOKEN_TTL};
use crate::message::{message_of, MessageView, Slot};
use crate::registry::{
    broadcasted, granted, is_expired, is_oldest, live_tokens, may_claim, owns, room_made,
    RegistryView, TokenView,
};
use crate::relay::{
    disconnected, dismissed, error_json, handled, is_addressed, is_line_of, is_reachable,
    joined_json, left_json, obeyed, registered, registered_afresh, routed, stamped_json,
    users_json, welcome_json, Connection, Step,
};
use crate::request::{
    is_recipient_list, is_routable, recipients, registration_keys, request_of, routing_keys,
    AudienceView, RelayError, RequestView,
};
use crate::secret::is_token;
use crate::session::{answered, closed, delivered, same_ends, Session};
use crate::settings::{
    config_setting, is_auth_token, is_interface, is_private, EnvView, Settings,
};
use crate::text::{in_class, is_name, CharClass};

verus! {

/// A name has a connection exactly if it has a token that does not expire, and there are finitely
/// many names.
pub open spec fn is_linked(registry: RegistryView) -> bool {
    &&& registry.users.dom().finite()
    &&& registry.tokens.dom().finite()
    &&& forall|name: Seq<char>|
        #![trigger registry.users.contains_key(name)]
        #![trigger registry.tokens.contains_key(name)]
        registry.users.contains_key(name) <==> registry.tokens.contains_key(name)
            && registry.tokens[name].expires is None
}

proof fn lemma_live_tokens(tokens: Map<Seq<char>, TokenView>, now: u64)
    requires
        tokens.dom().finite(),
    ensures
        live_tokens(tokens, now).submap_of(tokens),
        live_tokens(tokens, now).dom().finite(),
        live_tokens(tokens, now).len() <= tokens.len(),
{
    let live = live_tokens(tokens, now);
    assert(live.dom().subset_of(tokens.dom()));
    vstd::set_lib::lemma_set_subset_finite(tokens.dom(), live.dom());
    vstd::set_lib::lemma_len_subset(live.dom(), tokens.dom());
}

/// The tokens that were kept when a name was given away.
pub(crate) proof fn lemma_room(
    before: RegistryView,
    after: RegistryView,
    name: Seq<char>,
    session: Session,
    fresh: Seq<char>,
    now: u64,
) -> (kept: Map<Seq<char>, TokenView>)
    requires
        granted(before, after, name, session, fresh, now),
    ensures
        room_made(live_tokens(before.tokens, now), kept, name),
        kept.submap_of(live_tokens(before.tokens, now)),
        after.tokens == kept.insert(name, TokenView { value: fresh, expires: None }),
{
    let live = live_tokens(before.tokens, now);
    choose|kept: Map<Seq<char>, TokenView>|
        {
            &&& #[trigger] room_made(live, kept, name)
            &&& after.tokens == kept.insert(name, TokenView { value: fresh, expires: None })
        }
}

/// The registry after a name was given away, and before the others were told.
pub(crate) proof fn lemma_claim(
    before: RegistryView,
    after: RegistryView,
    was: Connection,
    is: Connection,
    name: Seq<char>,
    shown: Option<Seq<char>>,
    fresh: Seq<char>,
    now: u64,
    step: Step,
) -> (mid: RegistryView)
    requires
        registered(before, after, was, is, name, shown, fresh, now, step),
        may_claim(live_tokens(before.tokens, now), name, shown),
    ensures
        granted(before, mid, name, was.session, fresh, now),
        after.tokens == mid.tokens,
        after.users.dom() == mid.users.dom(),
        if step.open {
            &&& is_line_of(json_text(joined_json(name)), joined_json(name))
            &&& broadcasted(mid.users, after.users, json_text(joined_json(name)))
        } else {
            after.users == mid.users
        },
{
    choose|mid: RegistryView|
        {
            &&& #[trigger] granted(before, mid, name, was.session, fresh, now)
            &&& after.tokens == mid.tokens
            &&& if step.open {
                &&& is_line_of(json_text(joined_json(name)), joined_json(name))
                &&& broadcasted(mid.users, after.users, json_text(joined_json(name)))
            } else {
                after.users == mid.users
            }
        }
}

/// The token that was drawn for a name that a line asked for.
pub(crate) proof fn lemma_drawn(
    before: RegistryView,
    after: RegistryView,
    was: Connection,
    is: Connection,
    name: Seq<char>,
    shown: Option<Seq<char>>,
    now: u64,
    step: Step,
) -> (fresh: Seq<char>)
    requires
        registered_afresh(before, after, was, is, name, shown, now, step),
    ensures
        is_token(fresh),
        registered(before, after, was, is, name, shown, fresh, now, step),
{
    choose|fresh: Seq<char>|
        is_token(fresh) && #[trigger] registered(
            before,
            after,
            was,
            is,
            name,
            shown,
            fresh,
            now,
            step,
        )
}

proof fn lemma_granted_linked(
    before: RegistryView,
    after: RegistryView,
    name: Seq<char>,
    session: Session,
    fresh: Seq<char>,
    now: u64,
)
    requires
        is_linked(before),
        granted(before, after, name, session, fresh, now),
    ensures
        is_linked(after),
{
    let live = live_tokens(before.tokens, now);
    lemma_live_tokens(before.tokens, now);
    let kept = lemma_room(before, after, name, session, fresh, now);
    assert(kept.submap_of(live));
    assert forall|other: Seq<char>| live.contains_key(other) && live[other].expires
        is None implies #[trigger] kept.contains_key(other) by {}
    vstd::set_lib::lemma_set_subset_finite(live.dom(), kept.dom());
}

proof fn lemma_same_names_linked(before: RegistryView, after: RegistryView)
    requires
        is_linked(before),
        after.users.dom() == before.users.dom(),
        after.tokens == before.tokens,
    ensures
        is_linked(after),
{
    assert forall|name: Seq<char>|
        after.users.contains_key(name) <==> before.users.contains_key(name) by {
        assert(after.users.dom().contains(name) == before.users.dom().contains(name));
    }
}

proof fn lemma_registered_linked(
    before: RegistryView,
    after: RegistryView,
    was: Connection,
    is: Connection,
    name: Seq<char>,
    shown: Option<Seq<char>>,
    fresh: Seq<char>,
    now: u64,
    step: Step,
)
    requires
        is_linked(before),
        registered(before, after, was, is, name, shown, fresh, now, step),
    ensures
        is_linked(after),
{
    if may_claim(live_tokens(before.tokens, now), name, shown) {
        let mid = lemma_claim(before, after, was, is, name, shown, fresh, now, step);
        lemma_granted_linked(before, mid, name, was.session, fresh, now);
        lemma_same_names_linked(mid, after);
    } else {
        lemma_live_tokens(before.tokens, now);
    }
}

/// Every name that has a connection or a token is a valid one.
pub open spec fn has_valid_names(registry: RegistryView) -> bool {
    &&& forall|name: Seq<char>| #[trigger] registry.users.contains_key(name) ==> is_name(name)
    &&& forall|name: Seq<char>| #[trigger] registry.tokens.contains_key(name) ==> is_name(name)
}

/// A registry in good order: a name has a connection exactly if it has a token that does not
/// expire, and all names are valid.
pub open spec fn is_consistent(registry: RegistryView) -> bool {
    is_linked(registry) && has_valid_names(registry)
}

proof fn lemma_registered_names(
    before: RegistryView,
    after: RegistryView,
    was: Connection,
    is: Connection,
    name: Seq<char>,
    shown: Option<Seq<char>>,
    fresh: Seq<char>,
    now: u64,
    step: Step,
)
    requires
        registered(before, after, was, is, name, shown, fresh, now, step),
    ensures
        forall|other: Seq<char>| #[trigger]
            after.users.contains_key(other) ==> other == name || before.users.contains_key(other),
        forall|other: Seq<char>| #[trigger]
            after.tokens.contains_key(other) ==> other == name || before.tokens.contains_key(other),
{
    let live = live_tokens(before.tokens, now);
    if may_claim(live, name, shown) {
        let mid = lemma_claim(before, after, was, is, name, shown, fresh, now, step);
        let kept = lemma_room(before, mid, name, was.session, fresh, now);
        assert(kept.submap_of(live));
        assert forall|other: Seq<char>| #[trigger]
            after.tokens.contains_key(other) && other != name implies before.tokens.contains_key(
            other,
        ) by {
            assert(kept.contains_key(other));
            assert(kept.dom().contains(other));
            assert(live.contains_key(other));
        }
        assert forall|other: Seq<char>| #[trigger]
            after.users.contains_key(other) && other != name implies before.users.contains_key(
            other,
        ) by {
            assert(after.users.dom().contains(other));
            assert(mid.users.dom().contains(other));
        }
    }
}

/// Whatever a line asks for, the registry stays in good order.
pub proof fn law_line_keeps_consistent(
    before: RegistryView,
    after: RegistryView,
    was: Connection,
    is: Connection,
    auth_token: Option<Seq<char>>,
    line: Seq<char>,
    now: u64,
    step: Step,
)
    requires
        is_consistent(before),
        handled(before, after, was, is, auth_token, line, now, step),
    ensures
        is_consistent(after),
{
    match parsed_json(line) {
        None => {},
        Some(json) => match request_of(message_of(json), was.name is Some, auth_token) {
            RequestView::Register { name, token } => {
                let fresh = lemma_drawn(before, after, was, is, name, token, now, step);
                law_admission(message_of(json), was.name is Some, auth_token, name, token);
                lemma_registered_linked(before, after, was, is, name, token, fresh, now, step);
                lemma_registered_names(before, after, was, is, name, token, fresh, now, step);
            },
            RequestView::Route(audience) => {
                lemma_same_names_linked(before, after);
            },
            _ => {},
        },
    }
}

/// When a connection goes, the registry stays in good order.
pub proof fn law_disconnect_keeps_consistent(
    before: RegistryView,
    after: RegistryView,
    was: Connection,
    is: Connection,
    now: u64,
    gone: Option<Seq<char>>,
)
    requires
        is_consistent(before),
        disconnected(before, after, was, is, now, gone),
    ensures
        is_consistent(after),
{
    if was.name is Some && owns(before.users, was.name->0@, was.session) {
        let name = was.name->0@;
        assert forall|other: Seq<char>|
            after.users.contains_key(other) <==> before.users.remove(name).contains_key(other) by {
            assert(after.users.dom().contains(other) == before.users.remove(name).dom().contains(
                other,
            ));
        }
    }
}

proof fn lemma_oldest_exists(tokens: Map<Seq<char>, TokenView>, some: Seq<char>)
    requires
        tokens.dom().finite(),
        tokens.contains_key(some),
        tokens[some].expires is Some,
    ensures
        exists|name: Seq<char>| #[trigger] is_oldest(tokens, name),
    decreases tokens[some].expires->0,
{
    if !is_oldest(tokens, some) {
        let sooner = choose|other: Seq<char>| #[trigger]
            tokens.contains_key(other) && tokens[other].expires is Some && tokens[other].expires->0
                < tokens[some].expires->0;
        lemma_oldest_exists(tokens, sooner);
    }
}

proof fn lemma_granted_bounded(
    before: RegistryView,
    after: RegistryView,
    name: Seq<char>,
    session: Session,
    fresh: Seq<char>,
    now: u64,
)
    requires
        is_linked(before),
        before.tokens.len() <= MAX_TOKENS,
        before.users.len() < MAX_TOKENS,
        granted(before, after, name, session, fresh, now),
    ensures
        after.tokens.len() <= MAX_TOKENS,
{
    let live = live_tokens(before.tokens, now);
    lemma_live_tokens(before.tokens, now);
    let kept = lemma_room(before, after, name, session, fresh, now);
    if !live.contains_key(name) && live.len() == MAX_TOKENS {
        if forall|other: Seq<char>| #[trigger] live.contains_key(other) ==> live[other].expires is None {
            assert(live.dom().subset_of(before.users.dom()));
            vstd::set_lib::lemma_len_subset(live.dom(), before.users.dom());
            assert(false);
        }
        let some = choose|other: Seq<char>| #[trigger]
            live.contains_key(other) && live[other].expires is Some;
        lemma_oldest_exists(live, some);
    }
}

proof fn lemma_line_bounded(
    before: RegistryView,
    after: RegistryView,
    was: Connection,
    is: Connection,
    auth_token: Option<Seq<char>>,
    line: Seq<char>,
    now: u64,
    step: Step,
)
    requires
        is_linked(before),
        before.tokens.len() <= MAX_TOKENS,
        before.users.len() < MAX_TOKENS,
        handled(before, after, was, is, auth_token, line, now, step),
    ensures
        after.tokens.len() <= MAX_TOKENS,
{
    lemma_live_tokens(before.tokens, now);
    match parsed_json(line) {
        None => {},
        Some(json) => match request_of(message_of(json), was.name is Some, auth_token) {
            RequestView::Register { name, token } => {
                let fresh = lemma_drawn(before, after, was, is, name, token, now, step);
                if may_claim(live_tokens(before.tokens, now), name, token) {
                    let mid = lemma_claim(before, after, was, is, name, token, fresh, now, step);
                    lemma_granted_bounded(before, mid, name, was.session, fresh, now);
                }
            },
            _ => {},
        },
    }
}

/// When a connection goes, no token is added.
pub proof fn law_disconnect_adds_no_token(
    before: RegistryView,
    after: RegistryView,
    was: Connection,
    is: Connection,
    now: u64,
    gone: Option<Seq<char>>,
)
    requires
        disconnected(before, after, was, is, now, gone),
    ensures
        after.tokens.dom() == before.tokens.dom(),
{
    assert(after.tokens.dom() =~= before.tokens.dom());
}

/// The registry, and the connections that are being served, each under a number of its own.
pub struct RelayState {
    pub registry: RegistryView,
    pub connections: Map<int, Connection>,
}

/// Nobody is connected, and no name has a connection or a token.
pub open spec fn is_start(state: RelayState) -> bool {
    &&& state.registry.users == Map::<Seq<char>, Session>::empty()
    &&& state.registry.tokens == Map::<Seq<char>, TokenView>::empty()
    &&& state.connections == Map::<int, Connection>::empty()
}

/// There is room for a connection, and one comes. It has no name yet.
pub open spec fn comes(before: RelayState, after: RelayState, id: int) -> bool {
    &&& before.connections.len() < MAX_CONNECTIONS
    &&& !before.connections.contains_key(id)
    &&& after.registry == before.registry
    &&& after.connections.contains_key(id)
    &&& after.connections == before.connections.insert(id, after.connections[id])
    &&& after.connections[id].name is None
}

/// A line comes in on a connection, and is handled.
pub open spec fn speaks(
    before: RelayState,
    after: RelayState,
    id: int,
    auth_token: Option<Seq<char>>,
    line: Seq<char>,
    now: u64,
    step: Step,
) -> bool {
    &&& before.connections.contains_key(id)
    &&& after.connections.contains_key(id)
    &&& after.connections == before.connections.insert(id, after.connections[id])
    &&& handled(
        before.registry,
        after.registry,
        before.connections[id],
        after.connections[id],
        auth_token,
        line,
        now,
        step,
    )
}

/// A connection goes, and is not served any more.
pub open spec fn goes(
    before: RelayState,
    after: RelayState,
    id: int,
    left: Connection,
    now: u64,
    gone: Option<Seq<char>>,
) -> bool {
    &&& before.connections.contains_key(id)
    &&& after.connections == before.connections.remove(id)
    &&& disconnected(
        before.registry,
        after.registry,
        before.connections[id],
        left,
        now,
        gone,
    )
}

/// One state comes of another at a time: a connection comes, a line comes in, or a connection goes.
pub open spec fn follows(before: RelayState, after: RelayState, now: u64) -> bool {
    ||| exists|id: int| #[trigger] comes(before, after, id)
    ||| exists|id: int, auth_token: Option<Seq<char>>, line: Seq<char>, step: Step| #[trigger]
        speaks(before, after, id, auth_token, line, now, step)
    ||| exists|id: int, left: Connection, gone: Option<Seq<char>>| #[trigger]
        goes(before, after, id, left, now, gone)
}

/// State `i` came of the one before it, at its time.
pub open spec fn is_step(states: Seq<RelayState>, times: Seq<u64>, i: int) -> bool {
    follows(states[i - 1], states[i], times[i])
}

/// The states that a relay goes through from its start. `times[i]` is when state `i` came of the
/// one before it.
pub open spec fn is_history(states: Seq<RelayState>, times: Seq<u64>) -> bool {
    &&& states.len() > 0
    &&& times.len() == states.len()
    &&& is_start(states[0])
    &&& forall|i: int| 0 < i < states.len() ==> #[trigger] is_step(states, times, i)
}

/// A connection that is being served is the one registered under a name, and knows it.
pub open spec fn serves(state: RelayState, id: int, name: Seq<char>) -> bool {
    &&& state.connections.contains_key(id)
    &&& state.connections[id].name.deep_view() == Some(name)
    &&& owns(state.registry.users, name, state.connections[id].session)
}

/// Every name that has a connection has one that is being served.
pub open spec fn are_served(state: RelayState) -> bool {
    forall|name: Seq<char>| #[trigger]
        state.registry.users.contains_key(name) ==> exists|id: int| #[trigger]
            serves(state, id, name)
}

/// What holds of a relay at any moment: the registry is in good order, no more connections are
/// served than there is room for, every name that has a connection has one of these, and the
/// tokens are no more than fit.
pub open spec fn is_sound(state: RelayState) -> bool {
    &&& is_consistent(state.registry)
    &&& state.connections.dom().finite()
    &&& state.connections.len() <= MAX_CONNECTIONS
    &&& are_served(state)
    &&& state.registry.tokens.len() <= MAX_TOKENS
}

/// No more names have a connection than there are connections: a connection has one name.
pub proof fn law_one_name_each(state: RelayState)
    requires
        state.registry.users.dom().finite(),
        state.connections.dom().finite(),
        are_served(state),
    ensures
        state.registry.users.len() <= state.connections.len(),
{
    let names = state.registry.users.dom();
    let server = |name: Seq<char>| choose|id: int| serves(state, id, name);
    assert forall|name: Seq<char>| names.contains(name) implies serves(
        state,
        #[trigger] server(name),
        name,
    ) by {
        assert(state.registry.users.contains_key(name));
    }
    assert(vstd::relations::injective_on(server, names));
    vstd::set_lib::lemma_map_size(names, names.map(server), server);
    assert(names.map(server).subset_of(state.connections.dom()));
    vstd::set_lib::lemma_len_subset(names.map(server), state.connections.dom());
}

proof fn lemma_line_keeps_channel(
    before: RegistryView,
    after: RegistryView,
    was: Connection,
    is: Connection,
    auth_token: Option<Seq<char>>,
    line: Seq<char>,
    now: u64,
    step: Step,
)
    requires
        handled(before, after, was, is, auth_token, line, now, step),
    ensures
        is.session.channel() == was.session.channel(),
{
}

proof fn lemma_changed_name_is_own(
    before: RegistryView,
    after: RegistryView,
    was: Connection,
    is: Connection,
    auth_token: Option<Seq<char>>,
    line: Seq<char>,
    now: u64,
    step: Step,
    name: Seq<char>,
)
    requires
        handled(before, after, was, is, auth_token, line, now, step),
        after.users.contains_key(name),
        !(before.users.contains_key(name) && after.users[name].channel()
            == before.users[name].channel()),
    ensures
        is.name.deep_view() == Some(name),
        owns(after.users, name, is.session),
{
    match parsed_json(line) {
        None => {},
        Some(json) => match request_of(message_of(json), was.name is Some, auth_token) {
            RequestView::Register { name: own, token } => {
                let fresh = lemma_drawn(before, after, was, is, own, token, now, step);
                if may_claim(live_tokens(before.tokens, now), own, token) {
                    law_winner_owns_name(before, after, was, is, own, token, fresh, now, step);
                    let mid = lemma_claim(before, after, was, is, own, token, fresh, now, step);
                    assert(after.users.dom().contains(name));
                    assert(mid.users.dom().contains(name));
                    assert(mid.users.contains_key(name));
                }
            },
            RequestView::Route(audience) => {
                assert(after.users.dom().contains(name));
                assert(before.users.dom().contains(name));
                assert(before.users.contains_key(name));
            },
            _ => {},
        },
    }
}

proof fn lemma_speaks_served(
    before: RelayState,
    after: RelayState,
    id: int,
    auth_token: Option<Seq<char>>,
    line: Seq<char>,
    now: u64,
    step: Step,
)
    requires
        are_served(before),
        speaks(before, after, id, auth_token, line, now, step),
    ensures
        are_served(after),
{
    let was = before.connections[id];
    let is = after.connections[id];
    assert forall|name: Seq<char>| #[trigger]
        after.registry.users.contains_key(name) implies exists|k: int| #[trigger]
        serves(after, k, name) by {
        if before.registry.users.contains_key(name) && after.registry.users[name].channel()
            == before.registry.users[name].channel() {
            let k = choose|k: int| serves(before, k, name);
            lemma_line_keeps_channel(
                before.registry,
                after.registry,
                was,
                is,
                auth_token,
                line,
                now,
                step,
            );
            if k == id {
                law_name_is_kept(
                    before.registry,
                    after.registry,
                    was,
                    is,
                    auth_token,
                    line,
                    now,
                    step,
                );
            }
            assert(serves(after, k, name));
        } else {
            lemma_changed_name_is_own(
                before.registry,
                after.registry,
                was,
                is,
                auth_token,
                line,
                now,
                step,
                name,
            );
            assert(serves(after, id, name));
        }
    }
}

proof fn lemma_goes_served(
    before: RelayState,
    after: RelayState,
    id: int,
    left: Connection,
    now: u64,
    gone: Option<Seq<char>>,
)
    requires
        are_served(before),
        goes(before, after, id, left, now, gone),
    ensures
        are_served(after),
{
    let was = before.connections[id];
    assert forall|name: Seq<char>| #[trigger]
        after.registry.users.contains_key(name) implies exists|k: int| #[trigger]
        serves(after, k, name) by {
        assert(after.registry.users.dom().contains(name));
        assert(before.registry.users.contains_key(name));
        let k = choose|k: int| serves(before, k, name);
        if was.name is Some && owns(before.registry.users, was.name->0@, was.session) {
            let own = was.name->0@;
            assert(before.registry.users.remove(own).contains_key(name));
        }
        assert(k != id);
        assert(serves(after, k, name));
    }
}

/// Whatever happens next, a relay stays as it has to be.
pub proof fn law_stays_sound(before: RelayState, after: RelayState, now: u64)
    requires
        is_sound(before),
        follows(before, after, now),
    ensures
        is_sound(after),
{
    law_one_name_each(before);
    if exists|id: int| #[trigger] comes(before, after, id) {
        let id = choose|id: int| #[trigger] comes(before, after, id);
        assert forall|name: Seq<char>| #[trigger]
            after.registry.users.contains_key(name) implies exists|k: int| #[trigger]
            serves(after, k, name) by {
            let k = choose|k: int| serves(before, k, name);
            assert(serves(after, k, name));
        }
    } else if exists|id: int, auth_token: Option<Seq<char>>, line: Seq<char>, step: Step| #[trigger]
        speaks(before, after, id, auth_token, line, now, step) {
        let (id, auth_token, line, step) = choose|
            id: int,
            auth_token: Option<Seq<char>>,
            line: Seq<char>,
            step: Step,
        | #[trigger]
            speaks(before, after, id, auth_token, line, now, step);
        let was = before.connections[id];
        let is = after.connections[id];
        law_line_keeps_consistent(
            before.registry,
            after.registry,
            was,
            is,
            auth_token,
            line,
            now,
            step,
        );
        lemma_line_bounded(before.registry, after.registry, was, is, auth_token, line, now, step);
        lemma_speaks_served(before, after, id, auth_token, line, now, step);
        assert(after.connections.dom() =~= before.connections.dom());
    } else {
        let (id, left, gone) = choose|id: int, left: Connection, gone: Option<Seq<char>>| #[trigger]
            goes(before, after, id, left, now, gone);
        let was = before.connections[id];
        law_disconnect_keeps_consistent(before.registry, after.registry, was, left, now, gone);
        law_disconnect_adds_no_token(before.registry, after.registry, was, left, now, gone);
        lemma_goes_served(before, after, id, left, now, gone);
    }
}

/// At every moment of its life a relay has at most 64 live names and at most 1024 tokens; every
/// name is valid; and a name has a connection exactly if it has a token that does not expire. The
/// one thing that this rests on is that no more than 64 connections are served at a time.
pub proof fn law_every_state(states: Seq<RelayState>, times: Seq<u64>, at: int)
    requires
        is_history(states, times),
        0 <= at < states.len(),
    ensures
        is_sound(states[at]),
        states[at].registry.users.len() <= states[at].connections.len() <= MAX_CONNECTIONS,
        states[at].registry.tokens.len() <= MAX_TOKENS,
        forall|name: Seq<char>| #[trigger]
            states[at].registry.users.contains_key(name) ==> is_name(name)
                && states[at].registry.tokens.contains_key(name),
        forall|name: Seq<char>| #[trigger]
            states[at].registry.tokens.contains_key(name) ==> is_name(name) && (
            states[at].registry.tokens[name].expires is None
                <==> states[at].registry.users.contains_key(name)),
    decreases at,
{
    if at > 0 {
        law_every_state(states, times, at - 1);
        assert(is_step(states, times, at));
        law_stays_sound(states[at - 1], states[at], times[at]);
    }
    law_one_name_each(states[at]);
}

/// Of those who claim a name, one wins: as the registry then stands, the name is for whoever shows
/// the token that the winner was given, at whatever time, and for nobody else. A token that the
/// name had before is worth nothing any more.
pub proof fn law_one_winner(
    before: RegistryView,
    after: RegistryView,
    was: Connection,
    is: Connection,
    name: Seq<char>,
    shown: Option<Seq<char>>,
    fresh: Seq<char>,
    now: u64,
    step: Step,
    later: u64,
    other: Option<Seq<char>>,
)
    requires
        registered(before, after, was, is, name, shown, fresh, now, step),
        may_claim(live_tokens(before.tokens, now), name, shown),
    ensures
        may_claim(live_tokens(after.tokens, later), name, other) <==> other == Some(fresh),
{
    assert(after.tokens.contains_key(name) && after.tokens[name] == (TokenView {
        value: fresh,
        expires: None,
    }));
}

/// Who is given a name is the connection registered under it.
pub proof fn law_winner_owns_name(
    before: RegistryView,
    after: RegistryView,
    was: Connection,
    is: Connection,
    name: Seq<char>,
    shown: Option<Seq<char>>,
    fresh: Seq<char>,
    now: u64,
    step: Step,
)
    requires
        registered(before, after, was, is, name, shown, fresh, now, step),
        may_claim(live_tokens(before.tokens, now), name, shown),
    ensures
        owns(after.users, name, is.session),
        is.name.deep_view() == Some(name),
{
    let mid = lemma_claim(before, after, was, is, name, shown, fresh, now, step);
    assert(mid.users.contains_key(name));
    assert(mid.users.dom().contains(name));
    assert(after.users.dom().contains(name));
}

/// Who loses a name to another connection is told to close, can do nothing under that name any
/// more, and takes nothing from the winner by going.
pub proof fn law_loser_is_cut_off(
    before: RegistryView,
    after: RegistryView,
    was: Connection,
    is: Connection,
    name: Seq<char>,
    shown: Option<Seq<char>>,
    fresh: Seq<char>,
    now: u64,
    step: Step,
    loser: Connection,
)
    requires
        registered(before, after, was, is, name, shown, fresh, now, step),
        may_claim(live_tokens(before.tokens, now), name, shown),
        loser.name.deep_view() == Some(name),
        owns(before.users, name, loser.session),
        loser.session.channel() != was.session.channel(),
    ensures
        step.displaced matches Some(session) && closed(before.users[name], session)
            && session.channel() == loser.session.channel(),
        !owns(after.users, name, loser.session),
        forall|next: RegistryView, then: Connection, audience: AudienceView, line: Seq<char>, s: Step|
            #[trigger] routed(after, next, loser, then, audience, line, s) ==> dismissed(
                after,
                next,
                loser,
                then,
                RelayError::RegisterFirst,
                s,
            ),
        forall|next: RegistryView, then: Connection, at: u64, gone: Option<Seq<char>>| #[trigger]
            disconnected(after, next, loser, then, at, gone) ==> next == after && gone is None,
{
    law_winner_owns_name(before, after, was, is, name, shown, fresh, now, step);
    assert(after.users[name].channel() == was.session.channel());
}

/// When the connection of a name goes, the name is reserved for ten minutes for whoever shows its
/// token, and free after that, as the registry then stands.
pub proof fn law_reserved_for_ten_minutes(
    before: RegistryView,
    after: RegistryView,
    was: Connection,
    is: Connection,
    now: u64,
    name: Seq<char>,
    later: u64,
    shown: Option<Seq<char>>,
)
    requires
        is_linked(before),
        now + TOKEN_TTL <= u64::MAX,
        disconnected(before, after, was, is, now, Some(name)),
    ensures
        later < now + TOKEN_TTL ==> (may_claim(live_tokens(after.tokens, later), name, shown) <==> shown
            == Some(before.tokens[name].value)),
        later >= now + TOKEN_TTL ==> may_claim(live_tokens(after.tokens, later), name, shown),
        !after.users.contains_key(name),
{
    assert(before.users.contains_key(name));
    assert(before.tokens.contains_key(name));
    assert(after.users.dom() == before.users.remove(name).dom());
    assert(!before.users.remove(name).dom().contains(name));
}

/// A line claims a name for a connection that has none, and shows the token of the name.
pub open spec fn claims(
    line: Seq<char>,
    was: Connection,
    auth_token: Option<Seq<char>>,
    name: Seq<char>,
    value: Seq<char>,
) -> bool {
    &&& was.name is None
    &&& parsed_json(line) is Some
    &&& request_of(message_of(parsed_json(line)->0), false, auth_token) == (RequestView::Register {
        name,
        token: Some(value),
    })
}

/// The table of tokens is full, and none in it expires before the one of a name, which is dropped.
pub open spec fn evicts(
    before: RegistryView,
    after: RegistryView,
    now: u64,
    name: Seq<char>,
) -> bool {
    &&& live_tokens(before.tokens, now).len() == MAX_TOKENS
    &&& is_oldest(live_tokens(before.tokens, now), name)
    &&& !after.tokens.contains_key(name)
}

/// Whatever a line asks for, a token whose time has not come stays as it is, unless the line claims
/// its name and shows the token, or the token is the one that makes room in a full table.
pub proof fn law_line_spares_token(
    before: RegistryView,
    after: RegistryView,
    was: Connection,
    is: Connection,
    auth_token: Option<Seq<char>>,
    line: Seq<char>,
    now: u64,
    step: Step,
    name: Seq<char>,
)
    requires
        handled(before, after, was, is, auth_token, line, now, step),
        live_tokens(before.tokens, now).contains_key(name),
    ensures
        ({
            ||| after.tokens.contains_pair(name, before.tokens[name])
            ||| {
                &&& claims(line, was, auth_token, name, before.tokens[name].value)
                &&& is.name.deep_view() == Some(name)
                &&& owns(after.users, name, is.session)
            }
            ||| evicts(before, after, now, name)
        }),
{
    let live = live_tokens(before.tokens, now);
    match parsed_json(line) {
        None => {},
        Some(json) => match request_of(message_of(json), was.name is Some, auth_token) {
            RequestView::Register { name: own, token } => {
                law_admission(message_of(json), was.name is Some, auth_token, own, token);
                let fresh = lemma_drawn(before, after, was, is, own, token, now, step);
                if may_claim(live, own, token) {
                    let mid = lemma_claim(before, after, was, is, own, token, fresh, now, step);
                    let kept = lemma_room(before, mid, own, was.session, fresh, now);
                    if own == name {
                        law_winner_owns_name(before, after, was, is, own, token, fresh, now, step);
                    }
                }
            },
            _ => {},
        },
    }
}

/// When a connection goes, every token stays as it is but the one of its own name.
pub proof fn law_disconnect_spares_token(
    before: RegistryView,
    after: RegistryView,
    was: Connection,
    is: Connection,
    now: u64,
    gone: Option<Seq<char>>,
    name: Seq<char>,
)
    requires
        disconnected(before, after, was, is, now, gone),
        before.tokens.contains_key(name),
        gone != Some(name),
    ensures
        after.tokens.contains_pair(name, before.tokens[name]),
{
}

/// A connection claims a name, and shows its token.
pub open spec fn is_reclaimed(
    before: RelayState,
    after: RelayState,
    now: u64,
    name: Seq<char>,
) -> bool {
    exists|id: int, auth_token: Option<Seq<char>>, line: Seq<char>, step: Step|
        {
            &&& #[trigger] speaks(before, after, id, auth_token, line, now, step)
            &&& claims(
                line,
                before.connections[id],
                auth_token,
                name,
                before.registry.tokens[name].value,
            )
            &&& serves(after, id, name)
        }
}

/// The connection of a name goes.
pub open spec fn is_left(
    before: RelayState,
    after: RelayState,
    now: u64,
    name: Seq<char>,
) -> bool {
    exists|id: int, left: Connection| #[trigger] goes(before, after, id, left, now, Some(name))
}

/// In the step to state `i`, a name was reclaimed.
pub open spec fn reclaimed_at(
    states: Seq<RelayState>,
    times: Seq<u64>,
    i: int,
    name: Seq<char>,
) -> bool {
    is_reclaimed(states[i - 1], states[i], times[i], name)
}

/// In the step to state `i`, the connection of a name has gone.
pub open spec fn left_at(
    states: Seq<RelayState>,
    times: Seq<u64>,
    i: int,
    name: Seq<char>,
) -> bool {
    is_left(states[i - 1], states[i], times[i], name)
}

/// In the step to state `i`, the token of a name had to make room.
pub open spec fn evicted_at(
    states: Seq<RelayState>,
    times: Seq<u64>,
    i: int,
    name: Seq<char>,
) -> bool {
    evicts(states[i - 1].registry, states[i].registry, times[i], name)
}

/// The token of a name was as given, and in the step to state `i` the name was reclaimed or left, or
/// the token had to make room.
pub open spec fn changed_at(
    states: Seq<RelayState>,
    times: Seq<u64>,
    i: int,
    name: Seq<char>,
    record: TokenView,
) -> bool {
    &&& states[i - 1].registry.tokens.contains_pair(name, record)
    &&& {
        ||| reclaimed_at(states, times, i, name)
        ||| left_at(states, times, i, name)
        ||| evicted_at(states, times, i, name)
    }
}

proof fn lemma_step_spares_token(
    before: RelayState,
    after: RelayState,
    now: u64,
    name: Seq<char>,
    record: TokenView,
)
    requires
        follows(before, after, now),
        before.registry.tokens.contains_pair(name, record),
        !is_expired(record, now),
    ensures
        ({
            ||| after.registry.tokens.contains_pair(name, record)
            ||| is_reclaimed(before, after, now, name)
            ||| is_left(before, after, now, name)
            ||| evicts(before.registry, after.registry, now, name)
        }),
{
    if exists|id: int| #[trigger] comes(before, after, id) {
    } else if exists|id: int, auth_token: Option<Seq<char>>, line: Seq<char>, step: Step| #[trigger]
        speaks(before, after, id, auth_token, line, now, step) {
        let (id, auth_token, line, step) = choose|
            id: int,
            auth_token: Option<Seq<char>>,
            line: Seq<char>,
            step: Step,
        | #[trigger]
            speaks(before, after, id, auth_token, line, now, step);
        law_line_spares_token(
            before.registry,
            after.registry,
            before.connections[id],
            after.connections[id],
            auth_token,
            line,
            now,
            step,
            name,
        );
    } else {
        let (id, left, gone) = choose|id: int, left: Connection, gone: Option<Seq<char>>| #[trigger]
            goes(before, after, id, left, now, gone);
        if gone != Some(name) {
            law_disconnect_spares_token(
                before.registry,
                after.registry,
                before.connections[id],
                left,
                now,
                gone,
                name,
            );
        }
    }
}

/// From one state to a later one the token of a name stays as it is, unless the name is reclaimed
/// or left or the token has to make room, as long as its time has not come.
proof fn lemma_token_lasts(
    states: Seq<RelayState>,
    times: Seq<u64>,
    from: int,
    at: int,
    name: Seq<char>,
    record: TokenView,
)
    requires
        is_history(states, times),
        0 <= from <= at < states.len(),
        states[from].registry.tokens.contains_pair(name, record),
        forall|i: int| from < i <= at ==> !is_expired(record, #[trigger] times[i]),
    ensures
        states[at].registry.tokens.contains_pair(name, record) || exists|i: int|
            from < i <= at && #[trigger] changed_at(states, times, i, name, record),
    decreases at - from,
{
    if from < at {
        lemma_token_lasts(states, times, from, at - 1, name, record);
        if states[at - 1].registry.tokens.contains_pair(name, record) {
            assert(!is_expired(record, times[at]));
            assert(is_step(states, times, at));
            lemma_step_spares_token(states[at - 1], states[at], times[at], name, record);
            assert(states[at].registry.tokens.contains_pair(name, record) || changed_at(
                states,
                times,
                at,
                name,
                record,
            ));
        }
    }
}

/// Whoever has won a name keeps it, whatever others do and however long it takes: as long as nobody
/// has shown the token of the name and its connection has not gone, the name is for whoever shows
/// that token, and for nobody else.
pub proof fn law_live_name_lasts(
    states: Seq<RelayState>,
    times: Seq<u64>,
    from: int,
    at: int,
    name: Seq<char>,
    later: u64,
    shown: Option<Seq<char>>,
)
    requires
        is_history(states, times),
        0 <= from <= at < states.len(),
        states[from].registry.users.contains_key(name),
        forall|i: int| from < i <= at ==> !#[trigger] reclaimed_at(states, times, i, name),
        forall|i: int| from < i <= at ==> !#[trigger] left_at(states, times, i, name),
    ensures
        states[at].registry.users.contains_key(name),
        states[at].registry.tokens.contains_pair(name, states[from].registry.tokens[name]),
        may_claim(live_tokens(states[at].registry.tokens, later), name, shown) <==> shown == Some(
            states[from].registry.tokens[name].value,
        ),
{
    law_every_state(states, times, from);
    law_every_state(states, times, at);
    let record = states[from].registry.tokens[name];
    lemma_token_lasts(states, times, from, at, name, record);
    if !states[at].registry.tokens.contains_pair(name, record) {
        let i = choose|i: int|
            from < i <= at && #[trigger] changed_at(states, times, i, name, record);
        assert(evicted_at(states, times, i, name));
        assert(false);
    }
}

/// A name whose connection has gone stays reserved for ten minutes, whatever others do: as long as
/// nobody has shown the token of the name and the token has not had to make room in a full table,
/// the name is for whoever shows that token, and for nobody else. Once the ten minutes are over it
/// is free.
pub proof fn law_reservation_lasts(
    states: Seq<RelayState>,
    times: Seq<u64>,
    left: int,
    at: int,
    name: Seq<char>,
    later: u64,
    shown: Option<Seq<char>>,
)
    requires
        is_history(states, times),
        0 < left <= at < states.len(),
        left_at(states, times, left, name),
        times[left] + TOKEN_TTL <= u64::MAX,
        forall|i: int| left < i <= at ==> #[trigger] times[i] < times[left] + TOKEN_TTL,
        forall|i: int| left < i <= at ==> !#[trigger] reclaimed_at(states, times, i, name),
        forall|i: int| left < i <= at ==> !#[trigger] evicted_at(states, times, i, name),
    ensures
        !states[at].registry.users.contains_key(name),
        later < times[left] + TOKEN_TTL ==> (may_claim(
            live_tokens(states[at].registry.tokens, later),
            name,
            shown,
        ) <==> shown == Some(states[left - 1].registry.tokens[name].value)),
        later >= times[left] + TOKEN_TTL ==> may_claim(
            live_tokens(states[at].registry.tokens, later),
            name,
            shown,
        ),
{
    law_every_state(states, times, left - 1);
    law_every_state(states, times, at);
    let value = states[left - 1].registry.tokens[name].value;
    let record = TokenView { value, expires: Some((times[left] + TOKEN_TTL) as u64) };
    assert(states[left].registry.tokens.contains_pair(name, record));
    lemma_token_lasts(states, times, left, at, name, record);
    if !states[at].registry.tokens.contains_pair(name, record) {
        let i = choose|i: int|
            left < i <= at && #[trigger] changed_at(states, times, i, name, record);
        law_every_state(states, times, i - 1);
        assert(left_at(states, times, i, name));
        assert(states[i - 1].registry.users.contains_key(name));
        assert(false);
    }
}

/// A registered connection that goes can come back, whatever others did meanwhile: within ten
/// minutes the token that the name had while it was registered claims the name, and nothing else
/// does. That nobody else has shown the token, and that it has not had to make room in a full
/// table, is all that this rests on.
pub proof fn law_reclaim(
    states: Seq<RelayState>,
    times: Seq<u64>,
    won: int,
    left: int,
    at: int,
    name: Seq<char>,
    later: u64,
    shown: Option<Seq<char>>,
)
    requires
        is_history(states, times),
        0 <= won < left <= at < states.len(),
        states[won].registry.users.contains_key(name),
        forall|i: int| won < i < left ==> !#[trigger] left_at(states, times, i, name),
        left_at(states, times, left, name),
        times[left] + TOKEN_TTL <= u64::MAX,
        forall|i: int| left < i <= at ==> #[trigger] times[i] < times[left] + TOKEN_TTL,
        later < times[left] + TOKEN_TTL,
        forall|i: int| won < i <= at ==> !#[trigger] reclaimed_at(states, times, i, name),
        forall|i: int| left < i <= at ==> !#[trigger] evicted_at(states, times, i, name),
    ensures
        may_claim(live_tokens(states[at].registry.tokens, later), name, shown) <==> shown == Some(
            states[won].registry.tokens[name].value,
        ),
{
    law_live_name_lasts(states, times, won, left - 1, name, later, shown);
    law_reservation_lasts(states, times, left, at, name, later, shown);
}

/// Making room for a name takes no token from a name that has a connection.
pub proof fn law_live_names_are_spared(
    before: RegistryView,
    after: RegistryView,
    was: Connection,
    is: Connection,
    name: Seq<char>,
    shown: Option<Seq<char>>,
    fresh: Seq<char>,
    now: u64,
    step: Step,
    other: Seq<char>,
)
    requires
        is_linked(before),
        registered(before, after, was, is, name, shown, fresh, now, step),
        before.users.contains_key(other),
        other != name,
    ensures
        after.tokens.contains_pair(other, before.tokens[other]),
        after.users.contains_key(other),
{
    let live = live_tokens(before.tokens, now);
    assert(before.tokens.contains_key(other));
    assert(live.contains_pair(other, before.tokens[other]));
    if may_claim(live, name, shown) {
        let mid = lemma_claim(before, after, was, is, name, shown, fresh, now, step);
        assert(mid.users.dom().contains(other));
        assert(after.users.dom().contains(other));
    }
}

/// A connection keeps its name until it goes: no line gives a registered connection another one,
/// or takes the one it has.
pub proof fn law_name_is_kept(
    before: RegistryView,
    after: RegistryView,
    was: Connection,
    is: Connection,
    auth_token: Option<Seq<char>>,
    line: Seq<char>,
    now: u64,
    step: Step,
)
    requires
        was.name is Some,
        handled(before, after, was, is, auth_token, line, now, step),
    ensures
        is.name == was.name,
{
}

/// No line offered to the queue through a session has a line feed in it.
pub open spec fn has_single_lines(session: Session) -> bool {
    forall|i: int|
        0 <= i < session.offers().len() ==> !(#[trigger] session.offers()[i]).0.contains('\n')
}

/// No line offered to the queue through any registered session has a line feed in it.
pub open spec fn all_have_single_lines(users: Map<Seq<char>, Session>) -> bool {
    forall|name: Seq<char>| #[trigger] users.contains_key(name) ==> has_single_lines(users[name])
}

proof fn lemma_broadcast_single_lines(
    before: Map<Seq<char>, Session>,
    after: Map<Seq<char>, Session>,
    line: Seq<char>,
)
    requires
        all_have_single_lines(before),
        broadcasted(before, after, line),
        !line.contains('\n'),
    ensures
        all_have_single_lines(after),
{
    assert forall|name: Seq<char>| #[trigger] after.contains_key(name) implies has_single_lines(
        after[name],
    ) by {
        assert(after.dom().contains(name));
        assert(before.contains_key(name));
        assert(delivered(before[name], after[name], line));
    }
}

proof fn lemma_registered_single_lines(
    before: RegistryView,
    after: RegistryView,
    was: Connection,
    is: Connection,
    name: Seq<char>,
    shown: Option<Seq<char>>,
    fresh: Seq<char>,
    now: u64,
    step: Step,
)
    requires
        all_have_single_lines(before.users),
        registered(before, after, was, is, name, shown, fresh, now, step),
    ensures
        all_have_single_lines(after.users),
{
    if may_claim(live_tokens(before.tokens, now), name, shown) {
        let line = json_text(joined_json(name));
        let mid = lemma_claim(before, after, was, is, name, shown, fresh, now, step);
        assert(all_have_single_lines(mid.users)) by {
            assert forall|other: Seq<char>| #[trigger]
                mid.users.contains_key(other) implies has_single_lines(mid.users[other]) by {
                if other != name {
                    assert(before.users.contains_key(other));
                }
            }
        }
        if step.open {
            lemma_broadcast_single_lines(mid.users, after.users, line);
        }
    }
}

/// Everything that the relay queues is one line: what a line from a peer brings about puts no
/// line feed into any queue.
pub proof fn law_one_line_each(
    before: RegistryView,
    after: RegistryView,
    was: Connection,
    is: Connection,
    auth_token: Option<Seq<char>>,
    line: Seq<char>,
    now: u64,
    step: Step,
)
    requires
        handled(before, after, was, is, auth_token, line, now, step),
        has_single_lines(was.session),
        all_have_single_lines(before.users),
    ensures
        has_single_lines(is.session),
        all_have_single_lines(after.users),
{
    match parsed_json(line) {
        None => {},
        Some(json) => match request_of(message_of(json), was.name is Some, auth_token) {
            RequestView::Register { name, token } => {
                let fresh = lemma_drawn(before, after, was, is, name, token, now, step);
                lemma_registered_single_lines(before, after, was, is, name, token, fresh, now, step);
            },
            RequestView::Route(audience) => {
                assert forall|name: Seq<char>| #[trigger]
                    after.users.contains_key(name) implies has_single_lines(after.users[name]) by {
                    assert(after.users.dom().contains(name));
                    assert(before.users.contains_key(name));
                }
            },
            _ => {},
        },
    }
}

/// When a connection goes, no line feed is put into any queue either.
pub proof fn law_one_line_each_on_disconnect(
    before: RegistryView,
    after: RegistryView,
    was: Connection,
    is: Connection,
    now: u64,
    gone: Option<Seq<char>>,
)
    requires
        disconnected(before, after, was, is, now, gone),
        all_have_single_lines(before.users),
    ensures
        all_have_single_lines(after.users),
{
    if was.name is Some && owns(before.users, was.name->0@, was.session) {
        let name = was.name->0@;
        assert(all_have_single_lines(before.users.remove(name))) by {
            assert forall|other: Seq<char>| #[trigger]
                before.users.remove(name).contains_key(other) implies has_single_lines(
                before.users.remove(name)[other],
            ) by {
                assert(before.users.contains_key(other));
            }
        }
        lemma_broadcast_single_lines(
            before.users.remove(name),
            after.users,
            json_text(left_json(name)),
        );
    }
}

/// If somebody whom a message is addressed to is not there, nobody gets it.
pub proof fn law_all_or_nothing(
    before: RegistryView,
    after: RegistryView,
    was: Connection,
    is: Connection,
    names: Seq<Seq<char>>,
    missing: Seq<char>,
    line: Seq<char>,
    step: Step,
)
    requires
        routed(before, after, was, is, AudienceView::Names(names), line, step),
        names.contains(missing),
        !before.users.contains_key(missing),
    ensures
        after == before,
{
    let i = names.index_of(missing);
    assert(!before.users.contains_key(names[i]));
}

/// A message that is passed on is handed once to its sender and once to each name that it is
/// addressed to, however often the name is given, and to nobody else.
pub proof fn law_one_copy_each(
    before: RegistryView,
    after: RegistryView,
    was: Connection,
    is: Connection,
    audience: AudienceView,
    line: Seq<char>,
    step: Step,
    name: Seq<char>,
)
    requires
        routed(before, after, was, is, audience, line, step),
        owns(before.users, was.name->0@, was.session),
        is_reachable(audience, before.users),
        before.users.contains_key(name),
    ensures
        delivered(before.users[was.name->0@], after.users[was.name->0@], line),
        is_addressed(audience, was.name->0@, name) ==> delivered(
            before.users[name],
            after.users[name],
            line,
        ) && after.users[name].offers().len() == before.users[name].offers().len() + 1,
        !is_addressed(audience, was.name->0@, name) ==> after.users[name] == before.users[name],
{
}

/// One slow peer does not keep a line from another. `alone` is what becomes of a session that is
/// handed a line by itself. A line to everyone does nothing else to that session, and can do this
/// to it whatever becomes of the line for the others; and where the queue takes the line in both
/// cases or in neither, the session is offered the same lines and given the same signals.
pub proof fn law_slow_peer_is_alone(
    before: Map<Seq<char>, Session>,
    after: Map<Seq<char>, Session>,
    line: Seq<char>,
    name: Seq<char>,
    alone: Session,
)
    requires
        broadcasted(before, after, line),
        before.contains_key(name),
        delivered(before[name], alone, line),
    ensures
        after.contains_key(name),
        delivered(before[name], after[name], line),
        broadcasted(before, after.insert(name, alone), line),
        alone.offers().last() == after[name].offers().last() ==> same_ends(after[name], alone)
            && after[name].offers() == alone.offers() && after[name].signals() == alone.signals(),
{
    assert(after.dom().contains(name));
    assert(after.insert(name, alone).dom() =~= before.dom());
}

/// All see the lines that go to everyone in the same order: of two such lines every session is
/// offered the first one first, after all that it was offered before, and nothing in between.
/// Where both are taken, the session is not told to close.
pub proof fn law_same_order_for_all(
    before: Map<Seq<char>, Session>,
    middle: Map<Seq<char>, Session>,
    after: Map<Seq<char>, Session>,
    first: Seq<char>,
    second: Seq<char>,
    name: Seq<char>,
)
    requires
        broadcasted(before, middle, first),
        broadcasted(middle, after, second),
        before.contains_key(name),
    ensures
        after.contains_key(name),
        same_ends(after[name], before[name]),
        after[name].offers() == before[name].offers().push(
            (first, middle[name].offers().last().1),
        ).push((second, after[name].offers().last().1)),
        middle[name].offers().last().1 && after[name].offers().last().1 ==> after[name].signals()
            == before[name].signals(),
{
    assert(middle.dom().contains(name));
    assert(middle.contains_key(name));
    assert(after.dom().contains(name));
}

/// What a connection is answered is a single line that reads back as the answer, if that is plain.
pub proof fn law_answer_reads_back(before: Session, after: Session, json: Json, queued: bool)
    requires
        answered(before, after, json, queued),
        is_plain(json, MAX_DEPTH as nat),
    ensures
        after.offers().last().1 == queued,
        !after.offers().last().0.contains('\n'),
        parsed_json(after.offers().last().0) == Some(json),
{
}

/// All that the relay says of its own accord is plain: an error, a welcome, who has joined or left,
/// who is there, and a sign of life.
pub proof fn law_own_words_are_plain(
    error: RelayError,
    user: Seq<char>,
    token: Seq<char>,
    names: Seq<Seq<char>>,
)
    ensures
        is_plain(error_json(error), MAX_DEPTH as nat),
        is_plain(welcome_json(user, token), MAX_DEPTH as nat),
        is_plain(joined_json(user), MAX_DEPTH as nat),
        is_plain(left_json(user), MAX_DEPTH as nat),
        is_plain(users_json(names), MAX_DEPTH as nat),
        is_plain(typed_json("pong"@), MAX_DEPTH as nat),
{
    reveal_with_fuel(is_plain, 3);
}

/// A message that is passed on is a single line that reads back as it was stamped, with the payload
/// that came, if the message is plain.
pub proof fn law_message_reads_back(
    before: RegistryView,
    after: RegistryView,
    was: Connection,
    is: Connection,
    auth_token: Option<Seq<char>>,
    json: Json,
    now: u64,
    step: Step,
    audience: AudienceView,
)
    requires
        obeyed(before, after, was, is, auth_token, Some(json), now, step),
        was.name is Some,
        request_of(message_of(json), true, auth_token) == RequestView::Route(audience),
        is_plain(json, MAX_DEPTH as nat),
    ensures
        routed(
            before,
            after,
            was,
            is,
            audience,
            json_text(stamped_json(json, was.name->0@)),
            step,
        ),
        !json_text(stamped_json(json, was.name->0@)).contains('\n'),
        parsed_json(json_text(stamped_json(json, was.name->0@))) == Some(
            stamped_json(json, was.name->0@),
        ),
        member(stamped_json(json, was.name->0@), "payload"@) == member(json, "payload"@),
{
    law_sender_is_stamped(json, auth_token, audience, was.name->0@, "payload"@);
    lemma_stamped_plain(json, was.name->0@, MAX_DEPTH as nat);
}

proof fn lemma_stamped_plain(json: Json, from: Seq<char>, depth: nat)
    requires
        is_plain(json, depth),
    ensures
        is_plain(stamped_json(json, from), depth),
{
    if let Json::Object(members) = json {
        let stamped = members.insert("from"@, Json::Text(from));
        assert forall|key: Seq<char>| #[trigger] stamped.contains_key(key) implies is_plain(
            stamped[key],
            (depth - 1) as nat,
        ) by {
            if key != "from"@ {
                assert(members.contains_key(key));
            }
        }
    }
}

/// The sender's name on a message that is passed on is the relay's word: the message as it came
/// has no `from`, and the one that goes out has the name of its sender there. All else is as it
/// came, the payload too, and nothing is there but the fields that route it.
pub proof fn law_sender_is_stamped(
    json: Json,
    auth_token: Option<Seq<char>>,
    audience: AudienceView,
    from: Seq<char>,
    key: Seq<char>,
)
    requires
        request_of(message_of(json), true, auth_token) == RequestView::Route(audience),
    ensures
        member(json, "from"@) is None,
        member(stamped_json(json, from), "from"@) == Some(Json::Text(from)),
        key != "from"@ ==> member(stamped_json(json, from), key) == member(json, key),
        member(json, "payload"@) is Some,
        member(stamped_json(json, from), "payload"@) == member(json, "payload"@),
        member(json, key) is Some ==> routing_keys().contains(key),
{
    reveal_strlit("from");
    reveal_strlit("payload");
    reveal_strlit("type");
    reveal_strlit("to");
    reveal_strlit("broadcast");
    assert("from"@[0] == 'f');
    assert("payload"@[0] == 'p');
    assert("type"@[0] == 't');
    assert("to"@[0] == 't');
    assert("broadcast"@[0] == 'b');
    assert(is_routable(message_of(json)));
    assert(!routing_keys().contains("from"@));
}

/// A message that is passed on says in exactly one of two ways whom it is for: by `broadcast`
/// being true, or by 1 to 64 valid names.
pub proof fn law_route_is_explicit(
    message: MessageView,
    auth_token: Option<Seq<char>>,
    audience: AudienceView,
)
    requires
        request_of(message, true, auth_token) == RequestView::Route(audience),
    ensures
        match audience {
            AudienceView::Everyone => message.broadcast == Slot::Is(true) && message.to is Missing,
            AudienceView::Names(names) => {
                &&& message.broadcast != Slot::Is(true)
                &&& message.to matches Slot::Is(items) && names == recipients(items)
                &&& 1 <= names.len() <= MAX_CONNECTIONS
                &&& are_names(names)
            },
        },
{
    if let Slot::Is(items) = message.to {
        assert(is_recipient_list(items));
        let names = recipients(items);
        assert forall|i: int| 0 <= i < names.len() implies is_name(#[trigger] names[i]) by {
            assert(items[i] is Some);
        }
    }
}

/// All texts in a list are names.
pub open spec fn are_names(names: Seq<Seq<char>>) -> bool {
    forall|i: int| 0 <= i < names.len() ==> is_name(#[trigger] names[i])
}

/// A server that asks for a secret registers nobody who does not show it; one that does not ask
/// for it registers nobody who shows one. Only valid names are registered.
pub proof fn law_admission(
    message: MessageView,
    registered: bool,
    auth_token: Option<Seq<char>>,
    name: Seq<char>,
    token: Option<Seq<char>>,
)
    requires
        request_of(message, registered, auth_token) == (RequestView::Register { name, token }),
    ensures
        !registered,
        auth_token is Some ==> message.server_token == auth_token,
        auth_token is None ==> (message.keys matches Some(keys) && !keys.contains("server_token"@)),
        is_name(name),
        message.name == Some(name),
{
    reveal_strlit("server_token");
    reveal_strlit("type");
    reveal_strlit("name");
    reveal_strlit("token");
    assert("server_token"@.len() == 12);
    assert("type"@.len() == 4);
    assert("name"@.len() == 4);
    assert("token"@.len() == 5);
    assert(!registration_keys(false).contains("server_token"@));
}

/// A connection that has not registered can register, and nothing else.
pub proof fn law_register_first(message: MessageView, auth_token: Option<Seq<char>>)
    ensures
        match request_of(message, false, auth_token) {
            RequestView::Register { .. } => true,
            RequestView::Refuse(_) => true,
            RequestView::Dismiss(error) => error == RelayError::Unauthorized,
            _ => false,
        },
{
}

/// A relay without a secret listens on the own host only, unless the operator has asked for a
/// VPN as the only way in or has said in so many words that nothing guards it.
pub proof fn law_no_open_relay_by_accident(settings: Settings)
    requires
        config_setting(settings) is Ok,
        config_setting(settings)->Ok_0.auth_token is None,
    ensures
        settings.addr is Some,
        settings.require_auth_token@ == EnvView::Present("false"@),
        ({
            ||| settings.addr->0.spec_is_loopback()
            ||| config_setting(settings)->Ok_0.ingress is Some
            ||| settings.allow_unauthenticated_non_loopback@ == EnvView::Present("true"@)
        }),
{
    reveal_strlit("true");
    reveal_strlit("false");
    assert("true"@.len() == 4);
    assert("false"@.len() == 5);
}

/// A relay with a secret has one of 64 hexadecimal digits.
pub proof fn law_secret_shape(settings: Settings)
    requires
        config_setting(settings) is Ok,
    ensures
        config_setting(settings)->Ok_0.auth_token matches Some(token) ==> is_auth_token(token),
{
}

/// Without TLS the relay listens on the own host only.
pub proof fn law_tls_off_host(settings: Settings)
    requires
        config_setting(settings) is Ok,
        config_setting(settings)->Ok_0.tls is None,
    ensures
        settings.addr matches Some(addr) && addr.spec_is_loopback(),
{
}

/// A VPN as the only way in has a valid interface and a specific listener off the own host; with
/// a gateway, listener and gateway are private addresses of one family.
pub proof fn law_vpn_settings(settings: Settings)
    requires
        config_setting(settings) is Ok,
        config_setting(settings)->Ok_0.ingress is Some,
    ensures
        settings.vpn_only@ == EnvView::Present("true"@),
        settings.addr is Some,
        !settings.addr->0.spec_is_loopback(),
        !settings.addr->0.spec_is_unspecified(),
        is_interface(config_setting(settings)->Ok_0.ingress->0.interface),
        config_setting(settings)->Ok_0.ingress->0.gateway matches Some(gateway) ==> {
            &&& is_private(gateway)
            &&& is_private(settings.addr->0)
            &&& (gateway is V4) == (settings.addr->0 is V4)
        },
        config_setting(settings)->Ok_0.tls is Some,
{
    reveal_strlit("true");
    reveal_strlit("false");
    assert("true"@.len() == 4);
    assert("false"@.len() == 5);
}

/// The name of an interface fits into a request to the system: every character of it is there,
/// and a zero ends it.
pub proof fn law_interface_fits(name: Seq<char>, i: int)
    requires
        is_interface(name),
        0 <= i < INTERFACE_ROOM,
    ensures
        padded(encode_utf8(name)).len() == INTERFACE_ROOM,
        i < name.len() ==> padded(encode_utf8(name))[i] == name[i] as u8,
        i >= name.len() ==> padded(encode_utf8(name))[i] == 0,
        name.len() < INTERFACE_ROOM,
{
    assert(is_ascii_chars(name)) by {
        assert forall|k: int| 0 <= k < name.len() implies '\0' <= #[trigger] name[k] <= '\u{7f}' by {
            assert(in_class(CharClass::Interface, name[k]));
        }
    }
    is_ascii_chars_encode_utf8(name);
}

} // verus!
