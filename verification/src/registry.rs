//! Who is registered, and which names are reserved for whom.
use std::sync::Arc;
use vstd::prelude::*;

use crate::limits::MAX_TOKENS;
use crate::secret::same_secret;
use crate::session::{close, closed, deliver, delivered, is_twin, same_connection, twin, Session};
use crate::table::NameTable;

verus! {

/// The token of a name.
pub struct TokenRecord {
    /// The token that claims the name.
    pub value: String,
    /// When the name becomes free, in nanoseconds from the start of the relay; nothing while the
    /// name has a connection.
    pub expires: Option<u64>,
}

/// The content of a [`TokenRecord`].
pub struct TokenView {
    pub value: Seq<char>,
    pub expires: Option<u64>,
}

impl View for TokenRecord {
    type V = TokenView;

    open spec fn view(&self) -> TokenView {
        TokenView { value: self.value@, expires: self.expires }
    }
}

/// The names that have a connection, and the names that have a token.
pub struct Registry {
    pub users: NameTable<Session>,
    pub tokens: NameTable<TokenRecord>,
}

/// The content of a [`Registry`].
#[verifier::ext_equal]
pub struct RegistryView {
    pub users: Map<Seq<char>, Session>,
    pub tokens: Map<Seq<char>, TokenView>,
}

impl View for Registry {
    type V = RegistryView;

    open spec fn view(&self) -> RegistryView {
        RegistryView {
            users: self.users@,
            tokens: self.tokens@.map_values(|record: TokenRecord| record@),
        }
    }
}

/// The time of a token has come.
pub open spec fn is_expired(token: TokenView, now: u64) -> bool {
    token.expires matches Some(until) && until <= now
}

/// The tokens whose time has not come.
pub open spec fn live_tokens(tokens: Map<Seq<char>, TokenView>, now: u64) -> Map<
    Seq<char>,
    TokenView,
> {
    Map::new(
        |name: Seq<char>| tokens.contains_key(name) && !is_expired(tokens[name], now),
        |name: Seq<char>| tokens[name],
    )
}

/// A name can be claimed if it has no token, or by whoever shows its token.
pub open spec fn may_claim(
    tokens: Map<Seq<char>, TokenView>,
    name: Seq<char>,
    shown: Option<Seq<char>>,
) -> bool {
    tokens.contains_key(name) ==> shown == Some(tokens[name].value)
}

/// A name whose token expires, and before which no other one does.
pub open spec fn is_oldest(tokens: Map<Seq<char>, TokenView>, name: Seq<char>) -> bool {
    &&& tokens.contains_key(name)
    &&& tokens[name].expires is Some
    &&& forall|other: Seq<char>| #[trigger]
        tokens.contains_key(other) && tokens[other].expires is Some ==> tokens[name].expires->0
            <= tokens[other].expires->0
}

/// Room was made for the token of a name: where the name is new and the table is full, a token
/// that expires first is gone. Where none expires, all stay.
pub open spec fn room_made(
    before: Map<Seq<char>, TokenView>,
    after: Map<Seq<char>, TokenView>,
    name: Seq<char>,
) -> bool {
    if before.contains_key(name) || before.len() != MAX_TOKENS {
        after == before
    } else {
        ||| exists|oldest: Seq<char>| #[trigger]
            is_oldest(before, oldest) && after == before.remove(oldest)
        ||| (forall|other: Seq<char>| !#[trigger] is_oldest(before, other)) && after == before
    }
}

/// A name was given to a connection: its session stands under the name, and the name has a fresh
/// token that does not expire.
pub open spec fn granted(
    before: RegistryView,
    after: RegistryView,
    name: Seq<char>,
    session: Session,
    fresh: Seq<char>,
    now: u64,
) -> bool {
    &&& after.users.contains_key(name)
    &&& is_twin(after.users[name], session)
    &&& after.users == before.users.insert(name, after.users[name])
    &&& exists|kept: Map<Seq<char>, TokenView>|
        {
            &&& #[trigger] room_made(live_tokens(before.tokens, now), kept, name)
            &&& after.tokens == kept.insert(name, TokenView { value: fresh, expires: None })
        }
}

/// Each of the sessions was handed a line.
pub open spec fn broadcasted(
    before: Map<Seq<char>, Session>,
    after: Map<Seq<char>, Session>,
    line: Seq<char>,
) -> bool {
    &&& after.dom() == before.dom()
    &&& forall|name: Seq<char>| #[trigger]
        before.contains_key(name) ==> delivered(before[name], after[name], line)
}

/// The connection of a session is the one registered under a name.
pub open spec fn owns(users: Map<Seq<char>, Session>, name: Seq<char>, session: Session) -> bool {
    users.contains_key(name) && users[name].channel() == session.channel()
}

/// The answer to a claim.
pub enum Claim {
    /// The name is reserved for somebody else.
    Refused,
    /// The name was given, and taken from the session that had it. That one was told to close.
    Granted { displaced: Option<Session> },
}

/// The session that a claim takes the name from, if there is one, was told to close.
pub open spec fn displaced_closed(
    users: Map<Seq<char>, Session>,
    name: Seq<char>,
    displaced: Option<Session>,
) -> bool {
    match displaced {
        Some(session) => users.contains_key(name) && closed(users[name], session),
        None => !users.contains_key(name),
    }
}

impl Registry {
    /// Both tables are well formed.
    pub open spec fn wf(self) -> bool {
        self.users.wf() && self.tokens.wf()
    }

    /// A registry with no names.
    pub fn new() -> (registry: Registry)
        ensures
            registry.wf(),
            registry@.users == Map::<Seq<char>, Session>::empty(),
            registry@.tokens == Map::<Seq<char>, TokenView>::empty(),
    {
        let registry = Registry { users: NameTable::new(), tokens: NameTable::new() };
        assert(registry@.tokens =~= Map::<Seq<char>, TokenView>::empty());
        registry
    }

    /// Drops the tokens whose time has come.
    fn drop_expired(&mut self, now: u64)
        requires
            old(self).wf(),
        ensures
            final(self).wf(),
            final(self).users == old(self).users,
            final(self)@.tokens == live_tokens(old(self)@.tokens, now),
    {
        let ghost before = self.tokens@;
        let mut i: usize = 0;
        while i < self.tokens.len()
            invariant
                self.wf(),
                self.users == old(self).users,
                i <= self.tokens.names().len(),
                self.tokens@.submap_of(before),
                forall|name: Seq<char>|
                    before.contains_key(name) && !#[trigger] self.tokens@.contains_key(name)
                        ==> is_expired(before[name]@, now),
                forall|k: int|
                    0 <= k < i ==> !is_expired(
                        self.tokens@[#[trigger] self.tokens.names()[k]]@,
                        now,
                    ),
            decreases self.tokens.names().len() - i,
        {
            let expired: bool = match self.tokens.at(i).expires {
                Some(until) => until <= now,
                None => false,
            };
            if expired {
                let _ = self.tokens.remove_at(i);
            } else {
                i += 1;
            }
        }
        proof {
            self.tokens.lemma_names();
            assert(self@.tokens =~= live_tokens(old(self)@.tokens, now)) by {
                assert forall|name: Seq<char>| #[trigger]
                    self.tokens@.contains_key(name) implies !is_expired(self.tokens@[name]@, now) by {
                    let k = self.tokens.names().index_of(name);
                    assert(self.tokens.names().contains(name));
                    assert(self.tokens.names()[k] == name);
                }
            }
        }
    }

    /// The position of a token that expires, and before which no other one does.
    fn find_oldest(&self) -> (found: Option<usize>)
        requires
            self.wf(),
        ensures
            match found {
                Some(i) => i < self.tokens.names().len() && is_oldest(
                    self@.tokens,
                    self.tokens.names()[i as int],
                ),
                None => forall|name: Seq<char>| !#[trigger] is_oldest(self@.tokens, name),
            },
    {
        let mut best: Option<(usize, u64)> = None;
        let mut i: usize = 0;
        while i < self.tokens.len()
            invariant
                self.wf(),
                i <= self.tokens.names().len(),
                match best {
                    Some((at, until)) => at < i && self.tokens@[self.tokens.names()[at as int]].expires
                        == Some(until),
                    None => true,
                },
                forall|k: int|
                    0 <= k < i && self.tokens@[#[trigger] self.tokens.names()[k]].expires is Some
                        ==> (best matches Some((_, until)) && until
                        <= self.tokens@[self.tokens.names()[k]].expires->0),
            decreases self.tokens.names().len() - i,
        {
            if let Some(until) = self.tokens.at(i).expires {
                let sooner: bool = match best {
                    Some((_, least)) => until < least,
                    None => true,
                };
                if sooner {
                    best = Some((i, until));
                }
            }
            i += 1;
        }
        proof {
            self.tokens.lemma_names();
            assert forall|name: Seq<char>| #[trigger]
                self@.tokens.contains_key(name) && self@.tokens[name].expires is Some implies (
            best matches Some((_, until)) && until <= self@.tokens[name].expires->0) by {
                let k = self.tokens.names().index_of(name);
                assert(self.tokens.names().contains(name));
                assert(self.tokens.names()[k] == name);
            }
        }
        match best {
            Some((at, _)) => {
                assert(self.tokens.names().contains(self.tokens.names()[at as int]));
                Some(at)
            },
            None => None,
        }
    }

    /// Makes room for the token of a name.
    fn make_room(&mut self, name: &str)
        requires
            old(self).wf(),
        ensures
            final(self).wf(),
            final(self).users == old(self).users,
            room_made(old(self)@.tokens, final(self)@.tokens, name@),
    {
        assert(self@.tokens.dom() =~= self.tokens@.dom());
        if !self.tokens.contains_key(name) && self.tokens.len() == MAX_TOKENS {
            if let Some(i) = self.find_oldest() {
                let _ = self.tokens.remove_at(i);
                assert(self@.tokens =~= old(self)@.tokens.remove(old(self).tokens.names()[i as int]));
            }
        }
    }

    /// Whether a name can be claimed with the token that is shown.
    fn check_claim(&self, name: &str, shown: &Option<String>) -> (may: bool)
        requires
            self.wf(),
        ensures
            may == may_claim(self@.tokens, name@, shown.deep_view()),
    {
        match self.tokens.get(name) {
            Some(record) => match shown {
                Some(token) => same_secret(record.value.as_str(), token.as_str()),
                None => false,
            },
            None => true,
        }
    }

    /// Claims a name for the connection of a session, at a time. `shown` is the token that the
    /// peer holds, `fresh` the one that the name has from now on.
    pub fn claim(
        &mut self,
        name: &str,
        shown: &Option<String>,
        fresh: String,
        session: &Session,
        now: u64,
    ) -> (claim: Claim)
        requires
            old(self).wf(),
        ensures
            final(self).wf(),
            match claim {
                Claim::Refused => {
                    &&& !may_claim(live_tokens(old(self)@.tokens, now), name@, shown.deep_view())
                    &&& final(self)@.users == old(self)@.users
                    &&& final(self)@.tokens == live_tokens(old(self)@.tokens, now)
                },
                Claim::Granted { displaced } => {
                    &&& may_claim(live_tokens(old(self)@.tokens, now), name@, shown.deep_view())
                    &&& granted(old(self)@, final(self)@, name@, *session, fresh@, now)
                    &&& displaced_closed(old(self)@.users, name@, displaced)
                },
            },
    {
        self.drop_expired(now);
        if !self.check_claim(name, shown) {
            return Claim::Refused;
        }
        self.make_room(name);
        let ghost kept = self@.tokens;
        let record = TokenRecord { value: fresh, expires: None };
        let _ = self.tokens.insert(name.to_owned(), record);
        assert(self@.tokens =~= kept.insert(name@, record@));
        let mut displaced = self.users.insert(name.to_owned(), twin(session));
        if let Some(former) = &mut displaced {
            close(former);
        }
        assert(room_made(live_tokens(old(self)@.tokens, now), kept, name@));
        Claim::Granted { displaced }
    }

    /// Whether the connection of a session is the one registered under a name.
    pub fn is_owner(&self, name: &str, session: &Session) -> (owner: bool)
        requires
            self.wf(),
        ensures
            owner == owns(self@.users, name@, *session),
    {
        match self.users.get(name) {
            Some(registered) => same_connection(registered, session),
            None => false,
        }
    }
}

/// Hands a line to every registered connection.
pub fn broadcast(registry: &mut Registry, line: Arc<String>)
    requires
        old(registry).wf(),
    ensures
        final(registry).wf(),
        final(registry)@.tokens == old(registry)@.tokens,
        broadcasted(old(registry)@.users, final(registry)@.users, line@),
{
    let ghost before = registry.users@;
    let ghost names = registry.users.names();
    proof {
        registry.users.lemma_names();
    }
    let mut i: usize = 0;
    while i < registry.users.len()
        invariant
            registry.wf(),
            registry.tokens == old(registry).tokens,
            registry.users.names() == names,
            names.no_duplicates(),
            i <= names.len(),
            registry.users@.dom() == before.dom(),
            before.dom() == names.to_set(),
            forall|k: int|
                0 <= k < i ==> delivered(
                    before[#[trigger] names[k]],
                    registry.users@[names[k]],
                    line@,
                ),
            forall|k: int|
                i <= k < names.len() ==> registry.users@[#[trigger] names[k]] == before[names[k]],
        decreases names.len() - i,
    {
        let ghost mid = registry.users@;
        deliver(registry.users.at_mut(i), line.clone());
        proof {
            assert(names.contains(names[i as int]));
            assert(registry.users@.dom() =~= mid.dom());
        }
        i += 1;
    }
    proof {
        assert forall|name: Seq<char>| #[trigger] before.contains_key(name) implies delivered(
            before[name],
            registry.users@[name],
            line@,
        ) by {
            let k = names.index_of(name);
            assert(names.contains(name));
            assert(names[k] == name);
        }
    }
}

} // verus!
