use chat_relay::message::{read_message, Message, Slot};
use chat_relay::request::{decide, Audience, RelayError, Request};
use chat_relay::secret::{hex_text, same_secret, token};
use chat_relay::table::NameTable;
use chat_relay::text::{is_word, one_of, same_text, valid_name, CharClass};

#[test]
fn names_are_short_ascii_words() {
    for name in ["a", "Z", "0", "_", "-", "alice-B_9", "abcdefghijklmnopqrstuvwxyz012345"] {
        assert!(valid_name(name));
    }
    for name in [
        "",
        " ",
        "a b",
        "a.b",
        "a@",
        "[",
        "`",
        "{",
        "/",
        ":",
        "\u{e9}",
        "abcdefghijklmnopqrstuvwxyz0123456",
    ] {
        assert!(!valid_name(name));
    }
}

#[test]
fn words_are_bounded_on_both_sides() {
    assert!(is_word("aF09", CharClass::HexDigit, 4, 4));
    assert!(!is_word("aF09", CharClass::HexDigit, 5, 9));
    assert!(!is_word("aF09", CharClass::HexDigit, 0, 3));
    assert!(!is_word("aG09", CharClass::HexDigit, 4, 4));
    assert!(is_word("", CharClass::HexDigit, 0, 0));
}

#[test]
fn texts_compare_by_their_characters() {
    assert!(same_text("", ""));
    assert!(same_text("h\u{e9}", "h\u{e9}"));
    assert!(!same_text("he", "h\u{e9}"));
    assert!(!same_text("ab", "abc"));
    assert!(one_of("b", &["a", "b"]));
    assert!(!one_of("c", &["a", "b"]));
}

#[test]
fn secrets_compare_by_their_characters() {
    assert!(same_secret("abc", "abc"));
    assert!(!same_secret("abc", "abd"));
    assert!(!same_secret("abc", "abcd"));
    assert!(same_secret("", ""));
}

#[test]
fn numbers_print_as_hexadecimal_digits() {
    assert_eq!(hex_text(0, 32), "00000000000000000000000000000000");
    assert_eq!(hex_text(0xdead_beef, 32), "000000000000000000000000deadbeef");
    assert_eq!(hex_text(u128::MAX, 32), "ffffffffffffffffffffffffffffffff");
    assert_eq!(
        hex_text(0x0123_4567_89ab_cdef_0011_2233_4455_6677, 32),
        format!("{:032x}", 0x0123_4567_89ab_cdef_0011_2233_4455_6677u128)
    );
    assert_eq!(hex_text(0x1234, 2), "34");
}

#[test]
fn tokens_are_drawn_afresh() {
    let one = token();
    let two = token();
    assert_eq!(one.len(), 32);
    assert!(one.bytes().all(|b| b.is_ascii_hexdigit() && !b.is_ascii_uppercase()));
    assert_ne!(one, two);
}

#[test]
fn a_table_holds_one_value_per_name() {
    let mut table: NameTable<u32> = NameTable::new();
    assert_eq!(table.len(), 0);
    assert_eq!(table.insert("a".to_string(), 1), None);
    assert_eq!(table.insert("b".to_string(), 2), None);
    assert_eq!(table.insert("a".to_string(), 3), Some(1));
    assert_eq!(table.len(), 2);
    assert_eq!(table.get("a"), Some(&3));
    assert_eq!(table.get("c"), None);
    assert!(table.contains_key("b") && !table.contains_key("c"));
    let at = table.find("b").unwrap();
    assert_eq!(table.name_at(at), "b");
    assert_eq!(*table.at(at), 2);
    *table.at_mut(at) += 5;
    assert_eq!(table.get("b"), Some(&7));
    assert_eq!(table.remove("a"), Some(3));
    assert_eq!(table.remove("a"), None);
    assert_eq!(table.remove_at(0), 7);
    assert_eq!(table.len(), 0);
}

fn bare(kind: &str) -> Message {
    Message {
        keys: Some(vec!["type".to_string()]),
        kind: Some(kind.to_string()),
        name: None,
        server_token: None,
        token: Slot::Missing,
        to: Slot::Missing,
        broadcast: Slot::Missing,
    }
}

#[test]
fn messages_are_decided_without_a_registry() {
    assert!(matches!(decide(&bare("ping"), true, &None), Request::Ping));
    assert!(matches!(decide(&bare("users"), true, &None), Request::Users));
    assert!(matches!(
        decide(&bare("ping"), false, &None),
        Request::Refuse(RelayError::UnknownType)
    ));
    let mut register = bare("register");
    register.keys = Some(vec!["type".to_string(), "name".to_string(), "token".to_string()]);
    register.name = Some("alice".to_string());
    register.token = Slot::Is("t".to_string());
    match decide(&register, false, &None) {
        Request::Register { name, token } => {
            assert_eq!(name, "alice");
            assert_eq!(token.as_deref(), Some("t"));
        }
        _ => panic!("a registration"),
    }
    assert!(matches!(
        decide(&register, false, &Some("secret".to_string())),
        Request::Dismiss(RelayError::Unauthorized)
    ));
    let mut message = bare("msg");
    message.keys = Some(vec!["type".to_string(), "to".to_string(), "payload".to_string()]);
    message.to = Slot::Is(vec![Some("bob".to_string()), Some("bob".to_string())]);
    match decide(&message, true, &None) {
        Request::Route(Audience::Names(names)) => assert_eq!(names, vec!["bob", "bob"]),
        _ => panic!("a route"),
    }
    message.broadcast = Slot::Other;
    assert!(matches!(
        decide(&message, true, &None),
        Request::Refuse(RelayError::InvalidMessage)
    ));
}

#[test]
fn errors_have_words() {
    assert_eq!(RelayError::BadJson.text(), "bad json");
    assert_eq!(RelayError::AlreadyRegistered.text(), "already registered");
    assert_eq!(RelayError::Unauthorized.text(), "unauthorized");
    assert_eq!(RelayError::InvalidRegistration.text(), "invalid registration");
    assert_eq!(RelayError::InvalidName.text(), "invalid name");
    assert_eq!(RelayError::NameTaken.text(), "name taken");
    assert_eq!(RelayError::RegisterFirst.text(), "register first");
    assert_eq!(RelayError::InvalidMessage.text(), "invalid message");
    assert_eq!(RelayError::UserUnavailable.text(), "user unavailable");
    assert_eq!(RelayError::UnknownType.text(), "unknown type");
}

#[test]
fn messages_are_read_from_json() {
    let text = "{\"type\":\"msg\",\"to\":[\"a\",1],\"broadcast\":false,\"token\":7,\"payload\":{}}";
    let value: serde_json::Value = serde_json::from_str(text).unwrap();
    let message = read_message(&value);
    let mut keys = message.keys.expect("keys");
    keys.sort();
    assert_eq!(keys, vec!["broadcast", "payload", "to", "token", "type"]);
    assert_eq!(message.kind.as_deref(), Some("msg"));
    assert!(message.name.is_none() && message.server_token.is_none());
    assert!(matches!(message.token, Slot::Other));
    assert!(matches!(message.broadcast, Slot::Is(false)));
    match message.to {
        Slot::Is(items) => assert_eq!(items, vec![Some("a".to_string()), None]),
        _ => panic!("a list"),
    }
    let message = read_message(&serde_json::Value::Null);
    assert!(message.keys.is_none() && message.kind.is_none());
    assert!(matches!(message.token, Slot::Missing));
    assert!(matches!(message.to, Slot::Missing));
    assert!(matches!(message.broadcast, Slot::Missing));
}
