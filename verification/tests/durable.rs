use cs262::durable::{
    classify, commit_outcome, create_statement, delete_outcome, delete_statement, delivery,
    find_statement, foreign_keys_statement, insert_outcome, list_outcome, list_statement, listing,
    lookup_outcome, rows_outcome, schema_statement, send_statement, setup_outcome, sort_rows,
    take_after, take_statement,
    DurableStore, Param, Row, SQL_CREATE, SQL_DELETE, SQL_FIND_USER, SQL_FOREIGN_KEYS, SQL_LIST,
    SQL_SCHEMA, SQL_SEND, SQL_TAKE_MESSAGES,
};
use cs262::handler::handle;
use cs262::store::{AccountStore, StoreError};
use cs262::wire::{Message, ProtocolError};

fn memory_store() -> DurableStore {
    let store = DurableStore::connect(":memory:").expect("opens");
    store.create_tables().expect("creates tables");
    store
}

fn row(id: i64, text: &str) -> Row {
    Row { id, text: text.to_string() }
}

#[test]
fn durable_scenario_alice_and_bob() {
    let mut store = memory_store();
    assert_eq!(store.create("alice").unwrap(), "");
    assert_eq!(store.create("bob").unwrap(), "");
    assert_eq!(store.send("alice", "hi").unwrap(), "");
    assert_eq!(store.send("alice", "yo").unwrap(), "");
    assert_eq!(store.deliver("alice").unwrap(), "hi\nyo\n");
    assert_eq!(store.deliver("alice").unwrap(), "");
    assert_eq!(store.delete("alice").unwrap(), "");
    assert_eq!(store.delete("bob").unwrap(), "");
    assert_eq!(store.list("").unwrap(), "");
}

#[test]
fn durable_send_to_missing_account_fails() {
    let mut store = memory_store();
    let err = store.send("carol", "hey").unwrap_err();
    assert!(matches!(err, StoreError::NoSuchAccount));
    assert_eq!(err.message(), "account does not exist");
}

#[test]
fn durable_create_twice_is_a_duplicate() {
    let mut store = memory_store();
    store.create("alice").unwrap();
    let err = store.create("alice").unwrap_err();
    assert!(matches!(err, StoreError::DuplicateAccount));
    assert_eq!(err.message(), "account already exists");
}

#[test]
fn durable_delete_needs_an_empty_queue() {
    let mut store = memory_store();
    store.create("alice").unwrap();
    store.send("alice", "hi").unwrap();
    let err = store.delete("alice").unwrap_err();
    assert!(matches!(err, StoreError::AccountNotEmpty));
    assert_eq!(err.message(), "account has messages");
    store.deliver("alice").unwrap();
    assert_eq!(store.delete("alice").unwrap(), "");
    assert!(matches!(store.delete("alice"), Err(StoreError::NoSuchAccount)));
}

#[test]
fn durable_deliver_of_missing_account_fails() {
    let mut store = memory_store();
    assert!(matches!(store.deliver("nobody"), Err(StoreError::NoSuchAccount)));
}

#[test]
fn durable_list_is_ascending_and_filtered() {
    let mut store = memory_store();
    for name in ["carol", "alice", "bob", "al"] {
        store.create(name).unwrap();
    }
    assert_eq!(store.list("").unwrap(), "al\nalice\nbob\ncarol\n");
    assert_eq!(store.list("*").unwrap(), "al\nalice\nbob\ncarol\n");
    assert_eq!(store.list("al*").unwrap(), "al\nalice\n");
    assert_eq!(store.list("?ob").unwrap(), "bob\n");
    assert_eq!(store.list("zed").unwrap(), "");
}

#[test]
fn durable_queues_are_kept_apart() {
    let mut store = memory_store();
    store.create("alice").unwrap();
    store.create("bob").unwrap();
    store.send("alice", "a1").unwrap();
    store.send("bob", "b1").unwrap();
    store.send("alice", "a2").unwrap();
    assert_eq!(store.deliver("bob").unwrap(), "b1\n");
    store.send("alice", "a3").unwrap();
    assert_eq!(store.deliver("alice").unwrap(), "a1\na2\na3\n");
}

#[test]
fn durable_handler_answers_requests() {
    let mut store = memory_store();
    let created = handle(&mut store, &Message::Create("alice".to_string())).unwrap();
    assert!(matches!(created, Message::Response(Ok(ref text)) if text.is_empty()));
    let again = handle(&mut store, &Message::Create("alice".to_string())).unwrap();
    assert!(matches!(again, Message::Response(Err(ref text)) if text == "account already exists"));
    handle(&mut store, &Message::Send("alice".to_string(), "hi".to_string())).unwrap();
    let delivered = handle(&mut store, &Message::Deliver("alice".to_string())).unwrap();
    assert!(matches!(delivered, Message::Response(Ok(ref text)) if text == "hi\n"));
}

#[test]
fn durable_handler_rejects_a_response() {
    let mut store = memory_store();
    let r = handle(&mut store, &Message::Response(Ok("x".to_string())));
    assert!(matches!(r, Err(ProtocolError::UnexpectedMessage)));
}

#[test]
fn connect_fails_on_a_path_that_cannot_be_opened() {
    let r = DurableStore::connect("/nonexistent-directory/for/sure/chat.sqlite");
    assert!(matches!(r, Err(StoreError::Storage(_))));
}

#[test]
fn classify_knows_the_three_constraints() {
    assert!(matches!(
        classify("UNIQUE constraint failed: users.name".to_string()),
        StoreError::DuplicateAccount
    ));
    assert!(matches!(
        classify("NOT NULL constraint failed: messages.user_id".to_string()),
        StoreError::NoSuchAccount
    ));
    assert!(matches!(
        classify("xx FOREIGN KEY constraint failed yy".to_string()),
        StoreError::AccountNotEmpty
    ));
    match classify("disk I/O error".to_string()) {
        StoreError::Storage(text) => assert_eq!(text, "disk I/O error"),
        other => panic!("wrong error: {:?}", other),
    }
    match classify("UNIQUE constraint failed: users.nam".to_string()) {
        StoreError::Storage(text) => assert_eq!(text, "UNIQUE constraint failed: users.nam"),
        other => panic!("wrong error: {:?}", other),
    }
}

#[test]
fn insert_outcome_maps_success_and_failure() {
    assert_eq!(insert_outcome(Ok(1)).unwrap(), "");
    assert_eq!(insert_outcome(Ok(0)).unwrap(), "");
    assert!(matches!(
        insert_outcome(Err("UNIQUE constraint failed: users.name".to_string())),
        Err(StoreError::DuplicateAccount)
    ));
}

#[test]
fn delete_outcome_reads_zero_rows_as_missing() {
    assert!(matches!(delete_outcome(Ok(0)), Err(StoreError::NoSuchAccount)));
    assert_eq!(delete_outcome(Ok(1)).unwrap(), "");
    assert!(matches!(
        delete_outcome(Err("FOREIGN KEY constraint failed".to_string())),
        Err(StoreError::AccountNotEmpty)
    ));
    assert!(matches!(delete_outcome(Err("boom".to_string())), Err(StoreError::Storage(_))));
}

#[test]
fn lookup_outcome_reads_no_row_as_missing() {
    assert_eq!(lookup_outcome(Ok(Some(7))).unwrap(), 7);
    assert!(matches!(lookup_outcome(Ok(None)), Err(StoreError::NoSuchAccount)));
    assert!(matches!(lookup_outcome(Err("boom".to_string())), Err(StoreError::Storage(_))));
}

#[test]
fn delivery_orders_rows_by_key() {
    let rows = vec![row(5, "third"), row(2, "first"), row(9, "fourth"), row(3, "second")];
    assert_eq!(delivery(rows), "first\nsecond\nthird\nfourth\n");
    assert_eq!(delivery(Vec::new()), "");
}

#[test]
fn sort_rows_is_stable() {
    let rows = vec![row(2, "a"), row(1, "b"), row(2, "c"), row(1, "d")];
    let sorted = sort_rows(rows);
    let got: Vec<(i64, &str)> = sorted.iter().map(|r| (r.id, r.text.as_str())).collect();
    assert_eq!(got, vec![(1, "b"), (1, "d"), (2, "a"), (2, "c")]);
}

#[test]
fn listing_sorts_and_drops_doubles() {
    let rows = vec![row(1, "bob"), row(2, "alice"), row(3, "bob"), row(4, "amy")];
    assert_eq!(listing(&rows, ""), "alice\namy\nbob\n");
    assert_eq!(listing(&rows, "a*"), "alice\namy\n");
}

#[test]
fn list_outcome_lists_rows_and_reads_failures() {
    let rows = vec![row(1, "bob"), row(2, "alice")];
    assert_eq!(list_outcome(Ok(rows), "").unwrap(), "alice\nbob\n");
    assert_eq!(list_outcome(Ok(Vec::new()), "*").unwrap(), "");
    match list_outcome(Err("no such table: users".to_string()), "") {
        Err(StoreError::Storage(text)) => assert_eq!(text, "no such table: users"),
        other => panic!("wrong outcome: {:?}", other),
    }
    assert!(matches!(
        list_outcome(Err("UNIQUE constraint failed: users.name".to_string()), ""),
        Err(StoreError::DuplicateAccount)
    ));
}

#[test]
fn operations_on_a_database_without_tables_report_the_engine() {
    let mut store = DurableStore::connect(":memory:").expect("opens");
    assert!(matches!(store.create("alice"), Err(StoreError::Storage(_))));
    assert!(matches!(store.list(""), Err(StoreError::Storage(_))));
    assert!(matches!(store.deliver("alice"), Err(StoreError::Storage(_))));
    store.create_tables().expect("creates tables");
    store.create_tables().expect("creates tables again");
    assert_eq!(store.create("alice").unwrap(), "");
}

fn texts(params: &[Param]) -> Vec<String> {
    params
        .iter()
        .map(|p| match p {
            Param::Text(text) => format!("text:{}", text),
            Param::Key(key) => format!("key:{}", key),
        })
        .collect()
}

#[test]
fn each_statement_has_its_text_and_its_values_in_order() {
    let s = create_statement("alice");
    assert_eq!(s.sql, SQL_CREATE);
    assert_eq!(texts(&s.params), vec!["text:alice"]);
    let s = send_statement("alice", "hi there");
    assert_eq!(s.sql, SQL_SEND);
    assert_eq!(texts(&s.params), vec!["text:alice", "text:hi there"]);
    let s = find_statement("bob");
    assert_eq!(s.sql, SQL_FIND_USER);
    assert_eq!(texts(&s.params), vec!["text:bob"]);
    let s = take_statement(42);
    assert_eq!(s.sql, SQL_TAKE_MESSAGES);
    assert_eq!(texts(&s.params), vec!["key:42"]);
    let s = delete_statement("bob");
    assert_eq!(s.sql, SQL_DELETE);
    assert_eq!(texts(&s.params), vec!["text:bob"]);
    let s = list_statement();
    assert_eq!(s.sql, SQL_LIST);
    assert!(s.params.is_empty());
    let s = foreign_keys_statement();
    assert_eq!(s.sql, SQL_FOREIGN_KEYS);
    assert!(s.params.is_empty());
    let s = schema_statement();
    assert_eq!(s.sql, SQL_SCHEMA);
    assert!(s.params.is_empty());
}

#[test]
fn the_statements_are_the_ones_of_the_schema() {
    assert_eq!(SQL_CREATE, "INSERT INTO users (name) VALUES (?)");
    assert_eq!(SQL_DELETE, "DELETE FROM users WHERE name = ?");
    assert_eq!(SQL_FIND_USER, "SELECT id FROM users WHERE name = ?");
    assert_eq!(SQL_FOREIGN_KEYS, "PRAGMA foreign_keys = ON;");
    assert!(SQL_TAKE_MESSAGES.starts_with("DELETE FROM messages WHERE user_id = ?"));
    assert!(SQL_SCHEMA.contains("ON DELETE RESTRICT"));
}

#[test]
fn commit_outcome_gives_the_payload_only_after_the_commit() {
    let rows = vec![row(2, "b"), row(1, "a")];
    assert_eq!(commit_outcome(Ok(()), rows).unwrap(), "a\nb\n");
    let rows = vec![row(2, "b"), row(1, "a")];
    match commit_outcome(Err("database is locked".to_string()), rows) {
        Err(StoreError::Storage(text)) => assert_eq!(text, "database is locked"),
        other => panic!("wrong outcome: {:?}", other),
    }
}

#[test]
fn setup_outcome_reads_the_engine_answer() {
    assert!(setup_outcome(Ok(())).is_ok());
    assert!(matches!(setup_outcome(Err("boom".to_string())), Err(StoreError::Storage(_))));
}

#[test]
fn texts_with_quotes_are_values_and_no_statement_text() {
    let mut store = memory_store();
    let name = "x'); DROP TABLE users; --";
    store.create(name).unwrap();
    store.send(name, "it's \"fine\"").unwrap();
    assert_eq!(store.list("").unwrap(), format!("{}\n", name));
    assert_eq!(store.deliver(name).unwrap(), "it's \"fine\"\n");
    assert_eq!(store.delete(name).unwrap(), "");
}

#[test]
fn take_after_asks_for_the_texts_of_the_key_found() {
    let take = take_after(Ok(Some(7))).unwrap();
    assert_eq!(take.sql, SQL_TAKE_MESSAGES);
    assert_eq!(texts(&take.params), vec!["key:7"]);
    assert!(matches!(take_after(Ok(None)), Err(StoreError::NoSuchAccount)));
    assert!(matches!(take_after(Err("boom".to_string())), Err(StoreError::Storage(_))));
}

#[test]
fn rows_outcome_passes_rows_on_and_reads_failures() {
    let rows = rows_outcome(Ok(vec![row(3, "c"), row(1, "a")])).unwrap();
    let got: Vec<(i64, &str)> = rows.iter().map(|r| (r.id, r.text.as_str())).collect();
    assert_eq!(got, vec![(3, "c"), (1, "a")]);
    assert!(matches!(
        rows_outcome(Err("FOREIGN KEY constraint failed".to_string())),
        Err(StoreError::AccountNotEmpty)
    ));
}
