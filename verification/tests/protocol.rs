use chat_relay::json::MAX_DEPTH;
use chat_relay::limits::{MAX_CONNECTIONS, MAX_TOKENS, TOKEN_TTL, TX_BUFFER};
use chat_relay::registry::{broadcast, Claim, Registry};
use chat_relay::relay::{
    disconnect, farewell, handle_line, obey, read_line, register, Connection, Farewell, Step,
};
use chat_relay::session::{deliver, reply, same_connection, twin, Session};
use chat_relay::text::valid_name;
use serde_json::Value;
use std::sync::Arc;
use tokio::sync::mpsc;
use tokio::sync::watch;

const SECRET: &str = "00112233445566778899aabbccddeeff00112233445566778899aabbccddeeff";

struct Peer {
    connection: Connection,
    lines: mpsc::Receiver<Arc<String>>,
    closed: watch::Receiver<bool>,
}

fn peer_with(room: usize) -> Peer {
    let (tx, lines) = mpsc::channel(room);
    let (shutdown, closed) = watch::channel(false);
    Peer {
        connection: Connection::new(Session { tx, shutdown }),
        lines,
        closed,
    }
}

fn peer() -> Peer {
    peer_with(TX_BUFFER)
}

fn say(registry: &mut Registry, from: &mut Peer, line: &str) -> Step {
    handle_line(registry, &mut from.connection, &None, line, 0)
}

fn say_at(registry: &mut Registry, from: &mut Peer, line: &str, now: u64) -> Step {
    handle_line(registry, &mut from.connection, &None, line, now)
}

fn say_to_guarded(registry: &mut Registry, from: &mut Peer, line: &str) -> Step {
    handle_line(
        registry,
        &mut from.connection,
        &Some(SECRET.to_string()),
        line,
        0,
    )
}

fn next_line(of: &mut Peer) -> String {
    of.lines.try_recv().expect("a line").to_string()
}

fn next(of: &mut Peer) -> Value {
    serde_json::from_str(&next_line(of)).expect("JSON")
}

fn nothing(of: &mut Peer) -> bool {
    of.lines.try_recv().is_err()
}

fn drain(of: &mut Peer) {
    while of.lines.try_recv().is_ok() {}
}

fn error_of(of: &mut Peer) -> String {
    let answer = next(of);
    assert_eq!(answer["type"], "error");
    assert_eq!(answer.as_object().unwrap().len(), 2);
    answer["error"].as_str().unwrap().to_string()
}

fn joined(registry: &mut Registry, name: &str) -> Peer {
    let mut new = peer();
    let step = say(
        registry,
        &mut new,
        &format!("{{\"type\":\"register\",\"name\":\"{name}\"}}"),
    );
    assert!(step.open);
    new
}

fn token_of(of: &mut Peer) -> String {
    let welcome = next(of);
    assert_eq!(welcome["type"], "welcome");
    welcome["token"].as_str().unwrap().to_string()
}

#[test]
fn slow_recipient_does_not_block_others() {
    let (slow_tx, _slow_rx) = mpsc::channel(1);
    let (slow_shutdown, slow_closed) = watch::channel(false);
    let (fast_tx, mut fast_rx) = mpsc::channel(2);
    let (fast_shutdown, _fast_closed) = watch::channel(false);
    let mut registry = Registry::new();
    registry.users.insert(
        "slow".into(),
        Session {
            tx: slow_tx,
            shutdown: slow_shutdown,
        },
    );
    registry.users.insert(
        "fast".into(),
        Session {
            tx: fast_tx,
            shutdown: fast_shutdown,
        },
    );
    broadcast(&mut registry, Arc::new("first".into()));
    broadcast(&mut registry, Arc::new("second".into()));
    assert!(*slow_closed.borrow());
    assert_eq!(fast_rx.try_recv().unwrap().as_str(), "first");
    assert_eq!(fast_rx.try_recv().unwrap().as_str(), "second");
}

#[test]
fn delivery_fills_the_queue_and_then_closes() {
    let mut one = peer_with(1);
    deliver(&mut one.connection.session, Arc::new("a".to_string()));
    assert!(!*one.closed.borrow());
    deliver(&mut one.connection.session, Arc::new("b".to_string()));
    assert!(*one.closed.borrow());
    assert_eq!(next_line(&mut one), "a");
    assert!(nothing(&mut one));
}

#[test]
fn a_reply_is_compact_json_on_one_line() {
    let mut one = peer_with(1);
    let value: Value = serde_json::from_str("{ \"b\" : \"x\\ny\", \"a\" : [1, 2.5, null] }").unwrap();
    assert!(reply(&mut one.connection.session, &value));
    assert!(!reply(&mut one.connection.session, &value));
    assert!(!*one.closed.borrow());
    assert_eq!(next_line(&mut one), "{\"a\":[1,2.5,null],\"b\":\"x\\ny\"}");
}

#[test]
fn a_reply_reads_back_as_the_value() {
    let mut text = String::from("plain \" \\ / \u{7f} \u{2028} \u{1f600}");
    for code in 0..32u8 {
        text.push(char::from(code));
    }
    let mut members = serde_json::Map::new();
    members.insert(text.clone(), Value::from(text));
    members.insert(
        "numbers".to_string(),
        Value::from(vec![
            Value::from(0),
            Value::from(-1),
            Value::from(i64::MIN),
            Value::from(u64::MAX),
        ]),
    );
    members.insert("none".to_string(), Value::Null);
    members.insert("no".to_string(), Value::Bool(false));
    members.insert("empty".to_string(), Value::Object(serde_json::Map::new()));
    let value = Value::Object(members);
    let mut one = peer_with(1);
    assert!(reply(&mut one.connection.session, &value));
    let line = next_line(&mut one);
    assert!(!line.contains('\n'));
    assert_eq!(serde_json::from_str::<Value>(&line).unwrap(), value);
    assert_eq!(read_line(&line), Some(value));
}

#[test]
fn only_so_much_nesting_is_read() {
    let nested = |depth: usize| "[".repeat(depth) + &"]".repeat(depth);
    let deepest = nested(MAX_DEPTH as usize);
    let value = read_line(&deepest).unwrap();
    let mut one = peer_with(2);
    assert!(reply(&mut one.connection.session, &value));
    assert_eq!(next_line(&mut one), deepest);
    assert_eq!(read_line(&nested(MAX_DEPTH as usize + 1)), None);
    let deeper = Value::from(vec![value]);
    assert!(reply(&mut one.connection.session, &deeper));
    assert_eq!(read_line(&next_line(&mut one)), None);
}

#[test]
fn fractions_are_told_from_whole_numbers() {
    for number in [1.0, -0.0, 2.5, 1e16, 1e17, 1e300, -1e-300, 9007199254740993.0] {
        let mut one = peer_with(1);
        assert!(reply(&mut one.connection.session, &Value::from(number)));
        let line = next_line(&mut one);
        assert!(line.contains('.') || line.contains('e'), "{line}");
    }
}

#[test]
fn all_see_lines_in_the_same_order() {
    let mut registry = Registry::new();
    let mut peers: Vec<Peer> = ["ann", "ben", "cid"]
        .iter()
        .map(|name| joined(&mut registry, name))
        .collect();
    for one in &mut peers {
        drain(one);
    }
    broadcast(&mut registry, Arc::new("a".to_string()));
    broadcast(&mut registry, Arc::new("b".to_string()));
    for one in &mut peers {
        assert_eq!(next_line(one), "a");
        assert_eq!(next_line(one), "b");
        assert!(nothing(one));
        assert!(!*one.closed.borrow());
    }
}

#[test]
fn a_full_or_closed_queue_changes_nothing_for_others() {
    let mut registry = Registry::new();
    let mut well = joined(&mut registry, "well");
    let full = joined(&mut registry, "full");
    let gone = joined(&mut registry, "gone");
    drain(&mut well);
    for _ in 0..TX_BUFFER {
        let _ = full.connection.session.tx.try_send(Arc::new("x".to_string()));
    }
    drop(gone.lines);
    broadcast(&mut registry, Arc::new("a".to_string()));
    assert_eq!(next_line(&mut well), "a");
    assert!(nothing(&mut well));
    assert!(!*well.closed.borrow());
    assert!(*full.closed.borrow());
    assert!(*gone.closed.borrow());
}

#[test]
fn a_full_relay_keeps_its_registry_in_order() {
    let mut registry = Registry::new();
    let mut peers: Vec<Peer> = (0..MAX_CONNECTIONS).map(|_| peer()).collect();
    let mut known: Vec<String> = Vec::new();
    for round in 0..40u64 {
        for (i, one) in peers.iter_mut().enumerate() {
            let odd = round % 2 == 1 && i % 3 == 0;
            let name = if odd { format!("bad name {i}") } else { format!("n{round}_{i}") };
            let line = format!("{{\"type\":\"register\",\"name\":\"{name}\"}}");
            say_at(&mut registry, one, &line, round);
            drain(one);
            if one.connection.name.is_some() {
                known.push(name);
            }
        }
        let live = registry.users.len();
        assert!(live <= peers.len());
        assert!(registry.tokens.len() <= MAX_TOKENS);
        for i in 0..live {
            let name = registry.users.name_at(i);
            assert!(valid_name(name));
            assert!(registry.tokens.get(name).unwrap().expires.is_none());
        }
        for i in 0..registry.tokens.len() {
            let name = registry.tokens.name_at(i);
            assert!(valid_name(name));
            let unlimited = registry.tokens.at(i).expires.is_none();
            assert_eq!(unlimited, registry.users.contains_key(name));
        }
        for one in &mut peers {
            disconnect(&mut registry, &mut one.connection, round);
            drain(one);
        }
        assert_eq!(registry.users.len(), 0);
    }
    assert!(known.len() > MAX_TOKENS);
    assert_eq!(registry.tokens.len(), MAX_TOKENS);
}

#[test]
fn what_is_read_is_obeyed() {
    let mut registry = Registry::new();
    let mut one = peer();
    assert_eq!(read_line("{"), None);
    assert!(obey(&mut registry, &mut one.connection, &None, None, 0).open);
    assert_eq!(error_of(&mut one), "bad json");
    let read = read_line("{\"type\":\"register\",\"name\":\"ann\"}");
    assert!(obey(&mut registry, &mut one.connection, &None, read, 0).open);
    assert_eq!(next(&mut one)["user"], "ann");
    assert!(registry.users.contains_key("ann"));
}

#[test]
fn twins_share_a_connection() {
    let mut one = peer();
    let two = peer();
    let mut other = twin(&one.connection.session);
    assert!(same_connection(&one.connection.session, &other));
    assert!(!same_connection(&two.connection.session, &other));
    deliver(&mut other, Arc::new("through the twin".to_string()));
    assert_eq!(next_line(&mut one), "through the twin");
}

#[test]
fn bad_json_leaves_the_connection_open() {
    let mut registry = Registry::new();
    let mut one = peer();
    assert!(say(&mut registry, &mut one, "{\"type\":").open);
    assert_eq!(error_of(&mut one), "bad json");
}

#[test]
fn no_room_for_an_answer_closes() {
    let mut registry = Registry::new();
    let mut one = peer_with(1);
    assert!(say(&mut registry, &mut one, "x").open);
    assert!(!say(&mut registry, &mut one, "x").open);
}

#[test]
fn unknown_types_are_refused() {
    let mut registry = Registry::new();
    let mut one = peer();
    for line in [
        "{\"type\":\"dance\"}",
        "{\"type\":7}",
        "{}",
        "[1]",
        "\"register\"",
        "null",
        "{\"type\":\"ping\"}",
    ] {
        assert!(say(&mut registry, &mut one, line).open);
        assert_eq!(error_of(&mut one), "unknown type");
    }
}

#[test]
fn registration_is_welcomed_and_announced() {
    let mut registry = Registry::new();
    let mut alice = peer();
    let step = say(&mut registry, &mut alice, "{\"type\":\"register\",\"name\":\"alice\"}");
    assert!(step.open && step.displaced.is_none());
    assert_eq!(alice.connection.name.as_deref(), Some("alice"));
    let welcome = next(&mut alice);
    assert_eq!(welcome["type"], "welcome");
    assert_eq!(welcome["user"], "alice");
    assert_eq!(welcome.as_object().unwrap().len(), 3);
    let token = welcome["token"].as_str().unwrap();
    assert_eq!(token.len(), 32);
    assert!(token
        .bytes()
        .all(|b| b.is_ascii_digit() || (b'a'..=b'f').contains(&b)));
    assert_eq!(next_line(&mut alice), "{\"type\":\"joined\",\"user\":\"alice\"}");

    let mut bob = joined(&mut registry, "bob");
    assert_eq!(next_line(&mut alice), "{\"type\":\"joined\",\"user\":\"bob\"}");
    assert_ne!(token_of(&mut bob), token);
}

#[test]
fn registering_twice_is_refused() {
    let mut registry = Registry::new();
    let mut alice = joined(&mut registry, "alice");
    drain(&mut alice);
    assert!(say(&mut registry, &mut alice, "{\"type\":\"register\",\"name\":\"bob\"}").open);
    assert_eq!(error_of(&mut alice), "already registered");
    assert_eq!(alice.connection.name.as_deref(), Some("alice"));
}

#[test]
fn a_guarded_relay_asks_for_the_secret() {
    let mut registry = Registry::new();
    for line in [
        "{\"type\":\"register\",\"name\":\"alice\"}",
        "{\"type\":\"register\",\"name\":\"alice\",\"server_token\":\"nope\"}",
        "{\"type\":\"register\",\"name\":\"alice\",\"server_token\":1}",
    ] {
        let mut alice = peer();
        assert!(!say_to_guarded(&mut registry, &mut alice, line).open);
        assert_eq!(error_of(&mut alice), "unauthorized");
        assert!(alice.connection.name.is_none());
    }
    let mut alice = peer();
    let line = format!("{{\"type\":\"register\",\"name\":\"alice\",\"server_token\":\"{SECRET}\"}}");
    assert!(say_to_guarded(&mut registry, &mut alice, &line).open);
    assert_eq!(next(&mut alice)["type"], "welcome");
    let mut bob = peer();
    let line = "{\"type\":\"register\",\"name\":\"bob\",\"server_token\":\"x\"}";
    assert!(say(&mut registry, &mut bob, line).open);
    assert_eq!(error_of(&mut bob), "invalid registration");
}

#[test]
fn malformed_registrations_are_refused() {
    let mut registry = Registry::new();
    let mut one = peer();
    for line in [
        "{\"type\":\"register\",\"name\":\"alice\",\"extra\":1}",
        "{\"type\":\"register\",\"name\":\"alice\",\"token\":1}",
        "{\"type\":\"register\",\"name\":\"alice\",\"token\":null}",
    ] {
        assert!(say(&mut registry, &mut one, line).open);
        assert_eq!(error_of(&mut one), "invalid registration");
    }
    for line in [
        "{\"type\":\"register\"}",
        "{\"type\":\"register\",\"name\":3}",
        "{\"type\":\"register\",\"name\":\"\"}",
        "{\"type\":\"register\",\"name\":\"a b\"}",
        "{\"type\":\"register\",\"name\":\"\u{e9}\"}",
        "{\"type\":\"register\",\"name\":\"aaaaaaaaaaaaaaaaaaaaaaaaaaaaaaaaa\"}",
    ] {
        assert!(say(&mut registry, &mut one, line).open);
        assert_eq!(error_of(&mut one), "invalid name");
    }
    assert!(one.connection.name.is_none());
}

#[test]
fn a_taken_name_needs_its_token() {
    let mut registry = Registry::new();
    let mut alice = joined(&mut registry, "alice");
    let token = token_of(&mut alice);
    drain(&mut alice);
    let mut thief = peer();
    assert!(say(&mut registry, &mut thief, "{\"type\":\"register\",\"name\":\"alice\"}").open);
    assert_eq!(error_of(&mut thief), "name taken");
    assert!(
        say(
            &mut registry,
            &mut thief,
            "{\"type\":\"register\",\"name\":\"alice\",\"token\":\"0\"}"
        )
        .open
    );
    assert_eq!(error_of(&mut thief), "name taken");
    assert!(nothing(&mut alice));

    let mut back = peer();
    let line = format!("{{\"type\":\"register\",\"name\":\"alice\",\"token\":\"{token}\"}}");
    let step = say(&mut registry, &mut back, &line);
    assert!(step.open && step.displaced.is_some());
    assert!(*alice.closed.borrow());
    assert!(nothing(&mut alice));
    let rotated = token_of(&mut back);
    assert_ne!(rotated, token);

    let mut again = peer();
    assert!(say(&mut registry, &mut again, &line).open);
    assert_eq!(error_of(&mut again), "name taken");
}

#[test]
fn a_displaced_connection_can_do_nothing() {
    let mut registry = Registry::new();
    let mut alice = joined(&mut registry, "alice");
    let token = token_of(&mut alice);
    drain(&mut alice);
    let mut back = peer();
    let line = format!("{{\"type\":\"register\",\"name\":\"alice\",\"token\":\"{token}\"}}");
    assert!(say(&mut registry, &mut back, &line).open);
    drain(&mut back);

    let step = say(
        &mut registry,
        &mut alice,
        "{\"type\":\"msg\",\"payload\":1,\"broadcast\":true}",
    );
    assert!(!step.open);
    assert_eq!(error_of(&mut alice), "register first");
    assert!(!say(&mut registry, &mut alice, "{\"type\":\"users\"}").open);
    assert!(!say(&mut registry, &mut alice, "{\"type\":\"ping\"}").open);
    assert!(nothing(&mut alice));
    assert!(disconnect(&mut registry, &mut alice.connection, 5).is_none());
    assert!(nothing(&mut back));
    assert!(say(&mut registry, &mut back, "{\"type\":\"ping\"}").open);
    assert_eq!(next_line(&mut back), "{\"type\":\"pong\"}");
}

#[test]
fn a_name_is_reserved_for_ten_minutes() {
    let line = "{\"type\":\"register\",\"name\":\"alice\"}";
    let mut registry = Registry::new();
    let mut alice = joined(&mut registry, "alice");
    let token = token_of(&mut alice);
    let mut bob = joined(&mut registry, "bob");
    drain(&mut bob);
    assert_eq!(
        disconnect(&mut registry, &mut alice.connection, 100).as_deref(),
        Some("alice")
    );
    assert!(alice.connection.name.is_none());
    assert_eq!(next_line(&mut bob), "{\"type\":\"left\",\"user\":\"alice\"}");
    assert!(nothing(&mut bob));

    let mut thief = peer();
    assert!(say_at(&mut registry, &mut thief, line, 99 + TOKEN_TTL).open);
    assert_eq!(error_of(&mut thief), "name taken");
    let mut back = peer();
    let mine = format!("{{\"type\":\"register\",\"name\":\"alice\",\"token\":\"{token}\"}}");
    assert!(say_at(&mut registry, &mut back, &mine, 99 + TOKEN_TTL).open);
    assert_eq!(next(&mut back)["type"], "welcome");

    let _ = disconnect(&mut registry, &mut back.connection, 1000);
    let mut late = peer();
    assert!(say_at(&mut registry, &mut late, line, 1000 + TOKEN_TTL).open);
    assert_eq!(next(&mut late)["type"], "welcome");
}

#[test]
fn a_reservation_outlasts_what_others_do() {
    let mut registry = Registry::new();
    let mut alice = joined(&mut registry, "alice");
    let mut carol = joined(&mut registry, "carol");
    let alices = token_of(&mut alice);
    let carols = token_of(&mut carol);
    assert!(disconnect(&mut registry, &mut alice.connection, 100).is_some());
    for round in 0..20u64 {
        let now = 100 + round * (TOKEN_TTL / 21);
        for name in ["alice", "carol"] {
            let mut thief = peer();
            for token in ["", ",\"token\":\"wrong\""] {
                let line = format!("{{\"type\":\"register\",\"name\":\"{name}\"{token}}}");
                assert!(say_at(&mut registry, &mut thief, &line, now).open);
                assert_eq!(error_of(&mut thief), "name taken");
            }
        }
        for i in 0..10 {
            let mut other = peer();
            let line = format!("{{\"type\":\"register\",\"name\":\"n{round}_{i}\"}}");
            assert!(say_at(&mut registry, &mut other, &line, now).open);
            assert!(disconnect(&mut registry, &mut other.connection, now).is_some());
            drain(&mut carol);
        }
    }
    assert!(!*carol.closed.borrow());
    for (name, token) in [("alice", alices), ("carol", carols)] {
        let mut back = peer();
        let line =
            format!("{{\"type\":\"register\",\"name\":\"{name}\",\"token\":\"{token}\"}}");
        assert!(say_at(&mut registry, &mut back, &line, 99 + TOKEN_TTL).open);
        assert_eq!(next(&mut back)["user"], name);
    }
    assert!(*carol.closed.borrow());
}

#[test]
fn a_welcome_that_finds_no_room_is_not_announced() {
    let mut registry = Registry::new();
    let mut bob = joined(&mut registry, "bob");
    drain(&mut bob);
    let mut alice = peer_with(1);
    assert!(say(&mut registry, &mut alice, "x").open);
    let step = say(&mut registry, &mut alice, "{\"type\":\"register\",\"name\":\"alice\"}");
    assert!(!step.open);
    assert_eq!(alice.connection.name.as_deref(), Some("alice"));
    assert!(nothing(&mut bob));
    assert_eq!(
        disconnect(&mut registry, &mut alice.connection, 0).as_deref(),
        Some("alice")
    );
    assert_eq!(next_line(&mut bob), "{\"type\":\"left\",\"user\":\"alice\"}");
}

#[test]
fn the_oldest_reservation_makes_room() {
    let mut registry = Registry::new();
    let session = peer().connection.session;
    for i in 0..MAX_TOKENS {
        let mut connection = Connection::new(twin(&session));
        let step = register(
            &mut registry,
            &mut connection,
            format!("n{i}"),
            &None,
            format!("t{i}"),
            0,
        );
        assert!(step.displaced.is_none());
        let gone_at = if i == 7 { 1 } else { 2 };
        assert!(disconnect(&mut registry, &mut connection, gone_at).is_some());
    }
    assert_eq!(registry.tokens.len(), MAX_TOKENS);
    let claim = registry.claim("new", &None, "fresh".to_string(), &session, 3);
    assert!(matches!(claim, Claim::Granted { displaced: None }));
    assert_eq!(registry.tokens.len(), MAX_TOKENS);
    assert!(!registry.tokens.contains_key("n7"));
    assert!(registry.tokens.contains_key("n6"));
    let claim = registry.claim("n8", &None, "x".to_string(), &session, 3);
    assert!(matches!(claim, Claim::Refused));
    let claim = registry.claim("n8", &Some("t8".to_string()), "x".to_string(), &session, 3);
    assert!(matches!(claim, Claim::Granted { .. }));
    assert_eq!(registry.tokens.len(), MAX_TOKENS);
}

#[test]
fn live_names_keep_their_tokens_when_room_is_made() {
    let mut registry = Registry::new();
    let session = peer().connection.session;
    for i in 0..MAX_TOKENS {
        let claim = registry.claim(&format!("n{i}"), &None, format!("t{i}"), &session, 0);
        assert!(matches!(claim, Claim::Granted { displaced: None }));
    }
    let claim = registry.claim("new", &None, "fresh".to_string(), &session, 0);
    assert!(matches!(claim, Claim::Granted { displaced: None }));
    assert_eq!(registry.tokens.len(), MAX_TOKENS + 1);
}

#[test]
fn direct_messages_reach_sender_and_recipients_once() {
    let mut registry = Registry::new();
    let mut alice = joined(&mut registry, "alice");
    let mut bob = joined(&mut registry, "bob");
    let mut carol = joined(&mut registry, "carol");
    drain(&mut alice);
    drain(&mut bob);
    drain(&mut carol);
    let line = "{\"type\":\"msg\",\"payload\":{\"z\":[1,true],\"a\":null},\"to\":[\"bob\",\"alice\",\"bob\"]}";
    assert!(say(&mut registry, &mut alice, line).open);
    let out = "{\"from\":\"alice\",\"payload\":{\"a\":null,\"z\":[1,true]},\"to\":[\"bob\",\"alice\",\"bob\"],\"type\":\"msg\"}";
    assert_eq!(next_line(&mut alice), out);
    assert_eq!(next_line(&mut bob), out);
    assert!(nothing(&mut alice) && nothing(&mut bob) && nothing(&mut carol));
}

#[test]
fn broadcasts_reach_everyone() {
    let mut registry = Registry::new();
    let mut alice = joined(&mut registry, "alice");
    let mut bob = joined(&mut registry, "bob");
    drain(&mut alice);
    drain(&mut bob);
    assert!(
        say(
            &mut registry,
            &mut bob,
            "{\"type\":\"msg\",\"payload\":null,\"broadcast\":true}"
        )
        .open
    );
    let out = "{\"broadcast\":true,\"from\":\"bob\",\"payload\":null,\"type\":\"msg\"}";
    assert_eq!(next_line(&mut alice), out);
    assert_eq!(next_line(&mut bob), out);
}

#[test]
fn nobody_gets_a_message_that_somebody_cannot_get() {
    let mut registry = Registry::new();
    let mut alice = joined(&mut registry, "alice");
    let mut bob = joined(&mut registry, "bob");
    drain(&mut alice);
    drain(&mut bob);
    let step = say(
        &mut registry,
        &mut alice,
        "{\"type\":\"msg\",\"payload\":1,\"to\":[\"bob\",\"nobody\"]}",
    );
    assert!(step.open);
    assert_eq!(error_of(&mut alice), "user unavailable");
    assert!(nothing(&mut alice) && nothing(&mut bob));
}

#[test]
fn malformed_messages_are_refused() {
    let mut registry = Registry::new();
    let mut alice = joined(&mut registry, "alice");
    drain(&mut alice);
    let many: Vec<String> = vec!["\"alice\"".to_string(); 65];
    let too_many = format!("{{\"type\":\"msg\",\"payload\":1,\"to\":[{}]}}", many.join(","));
    for line in [
        "{\"type\":\"msg\"}",
        "{\"type\":\"msg\",\"payload\":1}",
        "{\"type\":\"msg\",\"payload\":1,\"broadcast\":false}",
        "{\"type\":\"msg\",\"payload\":1,\"broadcast\":1}",
        "{\"type\":\"msg\",\"to\":[\"alice\"]}",
        "{\"type\":\"msg\",\"payload\":1,\"to\":[]}",
        "{\"type\":\"msg\",\"payload\":1,\"to\":\"alice\"}",
        "{\"type\":\"msg\",\"payload\":1,\"to\":[1]}",
        "{\"type\":\"msg\",\"payload\":1,\"to\":[\"a b\"]}",
        "{\"type\":\"msg\",\"payload\":1,\"to\":[\"alice\"],\"broadcast\":true}",
        "{\"type\":\"msg\",\"payload\":1,\"to\":[\"alice\"],\"from\":\"bob\"}",
        too_many.as_str(),
    ] {
        assert!(say(&mut registry, &mut alice, line).open);
        assert_eq!(error_of(&mut alice), "invalid message");
    }
    let limit = format!("{{\"type\":\"msg\",\"payload\":1,\"to\":[{}]}}", many[..64].join(","));
    assert!(say(&mut registry, &mut alice, &limit).open);
    assert_eq!(next(&mut alice)["from"], "alice");
    let both = "{\"type\":\"msg\",\"payload\":1,\"to\":[\"alice\"],\"broadcast\":false}";
    assert!(say(&mut registry, &mut alice, both).open);
    assert_eq!(next(&mut alice)["from"], "alice");
}

#[test]
fn nothing_is_done_before_registration() {
    let mut registry = Registry::new();
    let mut one = peer();
    for line in [
        "{\"type\":\"msg\",\"payload\":1,\"broadcast\":true}",
        "{\"type\":\"msg\"}",
        "{\"type\":\"users\"}",
    ] {
        assert!(say(&mut registry, &mut one, line).open);
        assert_eq!(error_of(&mut one), "register first");
    }
    assert!(say(&mut registry, &mut one, "{\"type\":\"users\",\"x\":1}").open);
    assert_eq!(error_of(&mut one), "invalid message");
}

#[test]
fn users_lists_the_live_names() {
    let mut registry = Registry::new();
    let mut alice = joined(&mut registry, "alice");
    let mut bob = joined(&mut registry, "bob");
    drain(&mut alice);
    assert!(say(&mut registry, &mut alice, "{\"type\":\"users\"}").open);
    let answer = next(&mut alice);
    assert_eq!(answer["type"], "users");
    assert_eq!(answer.as_object().unwrap().len(), 2);
    let mut names: Vec<&str> = answer["users"]
        .as_array()
        .unwrap()
        .iter()
        .map(|name| name.as_str().unwrap())
        .collect();
    names.sort();
    assert_eq!(names, vec!["alice", "bob"]);
    let _ = disconnect(&mut registry, &mut bob.connection, 0);
    drain(&mut alice);
    assert!(say(&mut registry, &mut alice, "{\"type\":\"users\"}").open);
    assert_eq!(next_line(&mut alice), "{\"type\":\"users\",\"users\":[\"alice\"]}");
}

#[test]
fn ping_and_users_take_no_other_fields() {
    let mut registry = Registry::new();
    let mut alice = joined(&mut registry, "alice");
    drain(&mut alice);
    assert!(say(&mut registry, &mut alice, "{\"type\":\"ping\"}").open);
    assert_eq!(next_line(&mut alice), "{\"type\":\"pong\"}");
    for line in ["{\"type\":\"ping\",\"x\":1}", "{\"type\":\"users\",\"x\":1}"] {
        assert!(say(&mut registry, &mut alice, line).open);
        assert_eq!(error_of(&mut alice), "invalid message");
    }
}

#[test]
fn an_unregistered_connection_leaves_no_trace() {
    let mut registry = Registry::new();
    let mut alice = joined(&mut registry, "alice");
    drain(&mut alice);
    let mut one = peer();
    assert!(disconnect(&mut registry, &mut one.connection, 0).is_none());
    assert!(nothing(&mut alice));
}

#[test]
fn waiting_is_shorter_before_registration() {
    let mut registry = Registry::new();
    assert_eq!(peer().connection.idle_timeout(), 10);
    assert_eq!(joined(&mut registry, "alice").connection.idle_timeout(), 300);
}

#[test]
fn only_an_open_connection_is_drained() {
    assert_eq!(farewell(false, false), Farewell::Drain);
    assert_eq!(farewell(true, false), Farewell::Abort);
    assert_eq!(farewell(false, true), Farewell::Abort);
    assert_eq!(farewell(true, true), Farewell::Abort);
}
