use cs262::handler::{expect_response, handle, handle_volatile, respond};
use cs262::store::{AccountStore, StoreError};
use cs262::volatile::VolatileStore;
use cs262::wire::{Message, ProtocolError};

#[test]
fn scenario_alice_and_bob() {
    let mut store = VolatileStore::new();
    assert_eq!(store.create("alice").unwrap(), "");
    assert_eq!(store.create("bob").unwrap(), "");
    assert_eq!(store.send("alice", "hi").unwrap(), "");
    assert_eq!(store.send("alice", "yo").unwrap(), "");
    assert_eq!(store.deliver("alice").unwrap(), "hi\nyo\n");
    assert_eq!(store.delete("alice").unwrap(), "");
    assert_eq!(store.delete("bob").unwrap(), "");
}

#[test]
fn send_to_missing_account_fails() {
    let mut store = VolatileStore::new();
    let err = store.send("carol", "hey").unwrap_err();
    assert!(matches!(err, StoreError::NoSuchAccount));
    assert_eq!(err.message(), "account does not exist");
}

#[test]
fn create_twice_is_a_duplicate() {
    let mut store = VolatileStore::new();
    store.create("alice").unwrap();
    let err = store.create("alice").unwrap_err();
    assert!(matches!(err, StoreError::DuplicateAccount));
    assert_eq!(err.message(), "account already exists");
    assert_eq!(store.list("").unwrap(), "alice\n");
}

#[test]
fn create_then_delete_restores_the_store() {
    let mut store = VolatileStore::new();
    store.create("bob").unwrap();
    store.send("bob", "kept").unwrap();
    let before = store.list("").unwrap();
    store.create("alice").unwrap();
    assert_eq!(store.list("").unwrap(), "alice\nbob\n");
    store.delete("alice").unwrap();
    assert_eq!(store.list("").unwrap(), before);
    assert_eq!(store.deliver("bob").unwrap(), "kept\n");
    assert!(matches!(store.send("alice", "x"), Err(StoreError::NoSuchAccount)));
}

#[test]
fn deliver_returns_the_texts_in_order_and_then_nothing() {
    let mut store = VolatileStore::new();
    store.create("n").unwrap();
    for text in ["t1", "t2", "", "t4 with spaces"] {
        store.send("n", text).unwrap();
    }
    assert_eq!(store.deliver("n").unwrap(), "t1\nt2\n\nt4 with spaces\n");
    assert_eq!(store.deliver("n").unwrap(), "");
}

#[test]
fn deliver_of_missing_account_fails() {
    let mut store = VolatileStore::new();
    assert!(matches!(store.deliver("nobody"), Err(StoreError::NoSuchAccount)));
}

#[test]
fn delete_needs_an_empty_queue() {
    let mut store = VolatileStore::new();
    store.create("alice").unwrap();
    store.send("alice", "hi").unwrap();
    let err = store.delete("alice").unwrap_err();
    assert!(matches!(err, StoreError::AccountNotEmpty));
    assert_eq!(err.message(), "account has messages");
    assert_eq!(store.list("").unwrap(), "alice\n");
    store.deliver("alice").unwrap();
    assert_eq!(store.delete("alice").unwrap(), "");
    assert_eq!(store.list("").unwrap(), "");
    assert!(matches!(store.delete("alice"), Err(StoreError::NoSuchAccount)));
}

#[test]
fn list_is_ascending_and_filtered() {
    let mut store = VolatileStore::new();
    for name in ["carol", "alice", "bob", "al", "Zed", "\u{e9}mile"] {
        store.create(name).unwrap();
    }
    assert_eq!(store.list("").unwrap(), "Zed\nal\nalice\nbob\ncarol\n\u{e9}mile\n");
    assert_eq!(store.list("*").unwrap(), store.list("").unwrap());
    assert_eq!(store.list("al*").unwrap(), "al\nalice\n");
    assert_eq!(store.list("?ob").unwrap(), "bob\n");
    assert_eq!(store.list("*l*").unwrap(), "al\nalice\ncarol\n\u{e9}mile\n");
    assert_eq!(store.list("?mile").unwrap(), "\u{e9}mile\n");
    assert_eq!(store.list("a?").unwrap(), "al\n");
    assert_eq!(store.list("zed").unwrap(), "");
}

#[test]
fn sends_to_different_accounts_do_not_interfere() {
    let mut one = VolatileStore::new();
    let mut other = VolatileStore::new();
    for store in [&mut one, &mut other] {
        store.create("a").unwrap();
        store.create("b").unwrap();
    }
    one.send("a", "x").unwrap();
    one.send("b", "y").unwrap();
    other.send("b", "y").unwrap();
    other.send("a", "x").unwrap();
    assert_eq!(one.deliver("a").unwrap(), other.deliver("a").unwrap());
    assert_eq!(one.deliver("b").unwrap(), "y\n");
    assert_eq!(other.deliver("b").unwrap(), "y\n");
}

#[test]
fn interleaved_sends_and_delivers_lose_nothing() {
    let mut store = VolatileStore::new();
    store.create("a").unwrap();
    store.create("b").unwrap();
    let mut delivered = String::new();
    store.send("a", "1").unwrap();
    store.send("b", "x").unwrap();
    store.send("a", "2").unwrap();
    delivered += &store.deliver("a").unwrap();
    store.send("a", "3").unwrap();
    delivered += &store.deliver("b").unwrap();
    delivered += &store.deliver("a").unwrap();
    store.send("a", "4").unwrap();
    delivered += &store.deliver("a").unwrap();
    assert_eq!(delivered, "1\n2\nx\n3\n4\n");
}

#[test]
fn handler_answers_each_request() {
    let mut store = VolatileStore::new();
    let r = handle(&mut store, &Message::Create("alice".to_string())).unwrap();
    assert!(matches!(r, Message::Response(Ok(ref t)) if t.is_empty()));
    let r = handle(&mut store, &Message::Create("alice".to_string())).unwrap();
    assert!(matches!(r, Message::Response(Err(ref t)) if t == "account already exists"));
    let r = handle(&mut store, &Message::Send("alice".to_string(), "hi".to_string())).unwrap();
    assert!(matches!(r, Message::Response(Ok(ref t)) if t.is_empty()));
    let r = handle(&mut store, &Message::Send("carol".to_string(), "hey".to_string())).unwrap();
    assert!(matches!(r, Message::Response(Err(ref t)) if t == "account does not exist"));
    let r = handle(&mut store, &Message::List("".to_string())).unwrap();
    assert!(matches!(r, Message::Response(Ok(ref t)) if t == "alice\n"));
    let r = handle(&mut store, &Message::Delete("alice".to_string())).unwrap();
    assert!(matches!(r, Message::Response(Err(ref t)) if t == "account has messages"));
    let r = handle(&mut store, &Message::Deliver("alice".to_string())).unwrap();
    assert!(matches!(r, Message::Response(Ok(ref t)) if t == "hi\n"));
    let r = handle(&mut store, &Message::Delete("alice".to_string())).unwrap();
    assert!(matches!(r, Message::Response(Ok(ref t)) if t.is_empty()));
}

#[test]
fn handler_rejects_a_response_and_leaves_the_store() {
    let mut store = VolatileStore::new();
    store.create("alice").unwrap();
    let r = handle(&mut store, &Message::Response(Err("x".to_string())));
    assert!(matches!(r, Err(ProtocolError::UnexpectedMessage)));
    let r = handle_volatile(&mut store, &Message::Response(Ok("x".to_string())));
    assert!(matches!(r, Err(ProtocolError::UnexpectedMessage)));
    let r = handle_volatile(&mut store, &Message::List("a*".to_string())).unwrap();
    assert!(matches!(r, Message::Response(Ok(ref t)) if t == "alice\n"));
    assert_eq!(store.list("").unwrap(), "alice\n");
}

#[test]
fn respond_wraps_outcomes() {
    assert!(matches!(respond(Ok("p".to_string())), Message::Response(Ok(ref t)) if t == "p"));
    assert!(matches!(
        respond(Err(StoreError::Storage("disk full".to_string()))),
        Message::Response(Err(ref t)) if t == "disk full"
    ));
}

#[test]
fn expect_response_takes_only_responses() {
    assert_eq!(expect_response(Message::Response(Ok("a".to_string()))), Ok(Ok("a".to_string())));
    assert_eq!(expect_response(Message::Response(Err("b".to_string()))), Ok(Err("b".to_string())));
    assert_eq!(
        expect_response(Message::List("".to_string())),
        Err(ProtocolError::UnexpectedMessage)
    );
}
