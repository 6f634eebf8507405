//! The durable account store: accounts and pending texts in a relational
//! database that several server processes may open at once. The engine's
//! transactions are the only thing that keeps them consistent.

use vstd::prelude::*;
use crate::listing::{accounts_named, lemma_same_accounts, list_text};
use crate::store::{
    outcome_view, AccountStore, Operation, OutcomeView, StoreError, StoreErrorView,
};
use crate::text::{contains_text, is_substring, join_lines, push_line};
use crate::volatile::VolatileStore;

verus! {

/// The well-known path of the database file.
pub const DATABASE_FILE: &'static str = "chat.sqlite";

/// Switches on the enforcement of references between the tables.
pub const SQL_FOREIGN_KEYS: &'static str = "PRAGMA foreign_keys = ON;";

/// Creates the two tables unless they exist.
pub const SQL_SCHEMA: &'static str = "BEGIN;
        CREATE TABLE IF NOT EXISTS users (
            id INTEGER PRIMARY KEY,
            name TEXT NOT NULL UNIQUE
        );
        CREATE TABLE IF NOT EXISTS messages (
            id INTEGER PRIMARY KEY,
            user_id INTEGER NOT NULL REFERENCES users(id) ON DELETE RESTRICT,
            message TEXT NOT NULL
        );
        COMMIT;";

/// Adds an account.
pub const SQL_CREATE: &'static str = "INSERT INTO users (name) VALUES (?)";

/// Reads the accounts.
pub const SQL_LIST: &'static str = "SELECT id, name FROM users";

/// Queues a text for the account of a given name.
pub const SQL_SEND: &'static str = "INSERT INTO messages (user_id, message)
                VALUES ((SELECT id FROM users WHERE name = ?), ?)";

/// Finds the account of a given name.
pub const SQL_FIND_USER: &'static str = "SELECT id FROM users WHERE name = ?";

/// Takes the queued texts of an account out of the database.
pub const SQL_TAKE_MESSAGES: &'static str =
    "DELETE FROM messages WHERE user_id = ? RETURNING id, message";

/// Removes the account of a given name.
pub const SQL_DELETE: &'static str = "DELETE FROM users WHERE name = ?";

/// `rusqlite::Connection`: a handle on the database, opaque to contracts.
#[verifier::external_type_specification]
#[verifier::external_body]
pub struct ExConnection(rusqlite::Connection);

/// `rusqlite::Transaction`: an open transaction on a connection, opaque to
/// contracts.
#[verifier::external_type_specification]
#[verifier::external_body]
pub struct ExTransaction<'conn>(rusqlite::Transaction<'conn>);

/// `rusqlite::Error`: what the engine reports, opaque to contracts.
#[verifier::external_type_specification]
#[verifier::external_body]
pub struct ExSqliteError(rusqlite::Error);

/// `rusqlite::types::Value`: a statement parameter, opaque to contracts.
#[verifier::external_type_specification]
#[verifier::external_body]
pub struct ExSqliteValue(rusqlite::types::Value);

/// A value for a placeholder of a statement.
#[derive(Debug)]
pub enum Param {
    /// A text: an account's name or a queued text.
    Text(String),
    /// The key of a row.
    Key(i64),
}

/// A [`Param`] in contracts.
pub ghost enum ParamView {
    Text(Seq<char>),
    Key(i64),
}

impl View for Param {
    type V = ParamView;

    open spec fn view(&self) -> ParamView {
        match self {
            Param::Text(text) => ParamView::Text(text@),
            Param::Key(key) => ParamView::Key(*key),
        }
    }
}

/// What is handed to the engine: the text of a statement and the values for
/// its placeholders, in their order.
#[derive(Debug)]
pub struct Statement {
    pub sql: &'static str,
    pub params: Vec<Param>,
}

/// A [`Statement`] in contracts.
pub ghost struct StatementView {
    pub sql: Seq<char>,
    pub params: Seq<ParamView>,
}

impl View for Statement {
    type V = StatementView;

    open spec fn view(&self) -> StatementView {
        StatementView { sql: self.sql@, params: self.params@.map_values(|p: Param| p@) }
    }
}

/// The statement with this text and these values.
pub open spec fn statement(sql: Seq<char>, params: Seq<ParamView>) -> StatementView {
    StatementView { sql, params }
}

/// The statement that switches on the enforcement of references.
pub fn foreign_keys_statement() -> (r: Statement)
    ensures
        r@ == statement(SQL_FOREIGN_KEYS@, Seq::empty()),
{
    let r = Statement { sql: SQL_FOREIGN_KEYS, params: Vec::new() };
    assert(r@.params =~= Seq::empty());
    r
}

/// The statement that creates the two tables unless they exist.
pub fn schema_statement() -> (r: Statement)
    ensures
        r@ == statement(SQL_SCHEMA@, Seq::empty()),
{
    let r = Statement { sql: SQL_SCHEMA, params: Vec::new() };
    assert(r@.params =~= Seq::empty());
    r
}

/// The statement that adds the account `name`.
pub fn create_statement(name: &str) -> (r: Statement)
    ensures
        r@ == statement(SQL_CREATE@, seq![ParamView::Text(name@)]),
{
    let mut params: Vec<Param> = Vec::new();
    params.push(Param::Text(name.to_owned()));
    let r = Statement { sql: SQL_CREATE, params };
    assert(r@.params =~= seq![ParamView::Text(name@)]);
    r
}

/// The statement that reads all accounts.
pub fn list_statement() -> (r: Statement)
    ensures
        r@ == statement(SQL_LIST@, Seq::empty()),
{
    let r = Statement { sql: SQL_LIST, params: Vec::new() };
    assert(r@.params =~= Seq::empty());
    r
}

/// The statement that queues `text` for the account `name`: the name first,
/// then the text.
pub fn send_statement(name: &str, text: &str) -> (r: Statement)
    ensures
        r@ == statement(SQL_SEND@, seq![ParamView::Text(name@), ParamView::Text(text@)]),
{
    let mut params: Vec<Param> = Vec::new();
    params.push(Param::Text(name.to_owned()));
    params.push(Param::Text(text.to_owned()));
    let r = Statement { sql: SQL_SEND, params };
    assert(r@.params =~= seq![ParamView::Text(name@), ParamView::Text(text@)]);
    r
}

/// The statement that finds the key of the account `name`.
pub fn find_statement(name: &str) -> (r: Statement)
    ensures
        r@ == statement(SQL_FIND_USER@, seq![ParamView::Text(name@)]),
{
    let mut params: Vec<Param> = Vec::new();
    params.push(Param::Text(name.to_owned()));
    let r = Statement { sql: SQL_FIND_USER, params };
    assert(r@.params =~= seq![ParamView::Text(name@)]);
    r
}

/// The statement that takes the queued texts of the account with this key
/// out of the database.
pub fn take_statement(key: i64) -> (r: Statement)
    ensures
        r@ == statement(SQL_TAKE_MESSAGES@, seq![ParamView::Key(key)]),
{
    let mut params: Vec<Param> = Vec::new();
    params.push(Param::Key(key));
    let r = Statement { sql: SQL_TAKE_MESSAGES, params };
    assert(r@.params =~= seq![ParamView::Key(key)]);
    r
}

/// The statement that removes the account `name`.
pub fn delete_statement(name: &str) -> (r: Statement)
    ensures
        r@ == statement(SQL_DELETE@, seq![ParamView::Text(name@)]),
{
    let mut params: Vec<Param> = Vec::new();
    params.push(Param::Text(name.to_owned()));
    let r = Statement { sql: SQL_DELETE, params };
    assert(r@.params =~= seq![ParamView::Text(name@)]);
    r
}

/// One row of a query: the row's key and its text.
#[derive(Debug)]
pub struct Row {
    pub id: i64,
    pub text: String,
}

/// Calls `rusqlite::Connection::open` on the path. Nothing is promised of
/// the outcome: it depends on the file system.
#[verifier::external_body]
fn open_connection(path: &str) -> Result<rusqlite::Connection, rusqlite::Error> {
    rusqlite::Connection::open(path)
}

/// Calls `rusqlite::Connection::execute_batch` on the statement's text.
/// Nothing is promised of the outcome: it depends on the database.
#[verifier::external_body]
fn run_batch(conn: &rusqlite::Connection, statement: &Statement) -> Result<(), rusqlite::Error> {
    conn.execute_batch(statement.sql)
}

/// Calls `rusqlite::Connection::prepare_cached` on the statement's text and,
/// on what it returns, `execute` with the statement's values in their order.
/// On success the result is the number of rows that the engine reports as
/// changed. Nothing more is promised: the outcome depends on the database.
#[verifier::external_body]
fn execute(conn: &rusqlite::Connection, statement: &Statement) -> Result<usize, rusqlite::Error> {
    conn.prepare_cached(statement.sql)?.execute(
        rusqlite::params_from_iter(statement.params.iter().map(|p| p.value())),
    )
}

/// Calls `rusqlite::Connection::prepare_cached` on the statement's text and,
/// on what it returns, `query_map` with the statement's values, reading each
/// row's first column as the key and its second as the text. Nothing is
/// promised of the rows or their order: they depend on the database.
#[verifier::external_body]
fn query_rows(conn: &rusqlite::Connection, statement: &Statement) -> Result<
    Vec<Row>,
    rusqlite::Error,
> {
    conn.prepare_cached(statement.sql)?.query_map(
        rusqlite::params_from_iter(statement.params.iter().map(|p| p.value())),
        |row| Ok(Row { id: row.get(0)?, text: row.get(1)? }),
    )?.collect()
}

/// Calls `rusqlite::Connection::prepare_cached` on the statement's text and,
/// on what it returns, `query_row` with the statement's values, reading the
/// first column of the first row as a key, then
/// `rusqlite::OptionalExtension::optional`, which turns "no rows" into
/// `None`. Nothing is promised of the key: it depends on the database.
#[verifier::external_body]
fn query_id(conn: &rusqlite::Connection, statement: &Statement) -> Result<
    Option<i64>,
    rusqlite::Error,
> {
    rusqlite::OptionalExtension::optional(
        conn.prepare_cached(statement.sql)?.query_row(
            rusqlite::params_from_iter(statement.params.iter().map(|p| p.value())),
            |row| row.get(0),
        ),
    )
}

/// Calls `rusqlite::Connection::transaction`. Dropping the transaction
/// without a commit rolls it back.
#[verifier::external_body]
fn begin<'conn>(conn: &'conn mut rusqlite::Connection) -> Result<
    rusqlite::Transaction<'conn>,
    rusqlite::Error,
> {
    conn.transaction()
}

/// The connection that a transaction runs on: `Deref` of
/// `rusqlite::Transaction`.
#[verifier::external_body]
fn connection_of<'a, 'conn>(txn: &'a rusqlite::Transaction<'conn>) -> &'a rusqlite::Connection {
    std::ops::Deref::deref(txn)
}

/// Calls `rusqlite::Transaction::commit`.
#[verifier::external_body]
fn commit<'conn>(txn: rusqlite::Transaction<'conn>) -> Result<(), rusqlite::Error> {
    txn.commit()
}

/// The text of an engine error: `Display` of `rusqlite::Error`.
#[verifier::external_body]
fn error_text(error: &rusqlite::Error) -> String {
    error.to_string()
}

/// A text as a statement parameter: `rusqlite::types::Value::Text`.
#[verifier::external_body]
fn text_param(text: &str) -> rusqlite::types::Value {
    rusqlite::types::Value::Text(text.to_owned())
}

/// A key as a statement parameter: `rusqlite::types::Value::Integer`.
#[verifier::external_body]
fn key_param(key: i64) -> rusqlite::types::Value {
    rusqlite::types::Value::Integer(key)
}

impl Param {
    /// The value as the engine takes it.
    fn value(&self) -> rusqlite::types::Value {
        match self {
            Param::Text(text) => text_param(text.as_str()),
            Param::Key(key) => key_param(*key),
        }
    }
}

/// What the engine says when a name is taken.
pub const UNIQUE_VIOLATION: &'static str = "UNIQUE constraint failed: users.name";

/// What the engine says when a text is sent to an account that is not there.
pub const MISSING_REFERENCE: &'static str = "NOT NULL constraint failed: messages.user_id";

/// What the engine says when an account with queued texts is to go.
pub const RESTRICTED_DELETE: &'static str = "FOREIGN KEY constraint failed";

/// The store error that an engine error's text stands for: a known constraint
/// failure becomes the matching application error, anything else is passed on
/// as it is.
pub open spec fn classify_view(text: Seq<char>) -> StoreErrorView {
    if is_substring(UNIQUE_VIOLATION@, text) {
        StoreErrorView::DuplicateAccount
    } else if is_substring(MISSING_REFERENCE@, text) {
        StoreErrorView::NoSuchAccount
    } else if is_substring(RESTRICTED_DELETE@, text) {
        StoreErrorView::AccountNotEmpty
    } else {
        StoreErrorView::Storage(text)
    }
}

/// Reads the text of an engine error as a store error.
pub fn classify(text: String) -> (r: StoreError)
    ensures
        r@ == classify_view(text@),
{
    if contains_text(text.as_str(), UNIQUE_VIOLATION) {
        StoreError::DuplicateAccount
    } else if contains_text(text.as_str(), MISSING_REFERENCE) {
        StoreError::NoSuchAccount
    } else if contains_text(text.as_str(), RESTRICTED_DELETE) {
        StoreError::AccountNotEmpty
    } else {
        StoreError::Storage(text)
    }
}

/// Whether a store error is how some engine error is read: the error that
/// [`classify_view`] gives for the engine's text.
pub open spec fn engine_failure(e: StoreErrorView) -> bool {
    exists|text: Seq<char>| e == #[trigger] classify_view(text)
}

/// What the engine answered to a statement that changes rows, as contracts
/// see it: the number of rows changed, or the text of the error.
pub open spec fn changed_view(result: Result<usize, String>) -> Result<usize, Seq<char>> {
    match result {
        Ok(n) => Ok(n),
        Err(text) => Err(text@),
    }
}

/// The outcome of `create` and of `send`, given the engine's answer to the
/// insertion: success with an empty payload, or the error it stands for.
pub open spec fn insert_outcome_view(result: Result<usize, Seq<char>>) -> OutcomeView {
    match result {
        Ok(_) => Ok(Seq::empty()),
        Err(text) => Err(classify_view(text)),
    }
}

/// The outcome of `create` and of `send`, given the engine's answer to the
/// insertion.
pub fn insert_outcome(result: Result<usize, String>) -> (r: Result<String, StoreError>)
    ensures
        outcome_view(r) == insert_outcome_view(changed_view(result)),
{
    match result {
        Ok(_) => Ok(String::new()),
        Err(text) => Err(classify(text)),
    }
}

/// The outcome of `delete`, given the engine's answer to the removal: no row
/// gone means that there was no such account.
pub open spec fn delete_outcome_view(result: Result<usize, Seq<char>>) -> OutcomeView {
    match result {
        Ok(n) => if n == 0 {
            Err(StoreErrorView::NoSuchAccount)
        } else {
            Ok(Seq::empty())
        },
        Err(text) => Err(classify_view(text)),
    }
}

/// The outcome of `delete`, given the engine's answer to the removal.
pub fn delete_outcome(result: Result<usize, String>) -> (r: Result<String, StoreError>)
    ensures
        outcome_view(r) == delete_outcome_view(changed_view(result)),
{
    match result {
        Ok(n) => if n == 0 {
            Err(StoreError::NoSuchAccount)
        } else {
            Ok(String::new())
        },
        Err(text) => Err(classify(text)),
    }
}

/// A row in contracts: its key and its text.
pub type RowView = (int, Seq<char>);

/// The rows of a query as contracts see them.
pub open spec fn rows_view(rows: Seq<Row>) -> Seq<RowView> {
    rows.map_values(|row: Row| (row.id as int, row.text@))
}

/// The texts of rows, in the order of the rows.
pub open spec fn row_texts(rows: Seq<RowView>) -> Seq<Seq<char>> {
    rows.map_values(|row: RowView| row.1)
}

/// Whether the keys of the rows never fall from one row to the next.
pub open spec fn keys_ascend(rows: Seq<RowView>) -> bool {
    forall|i: int, j: int| 0 <= i < j < rows.len() ==> rows[i].0 <= rows[j].0
}

/// A row put into a sequence of rows behind the last row whose key is not
/// greater than its own.
pub open spec fn placed(rows: Seq<RowView>, row: RowView) -> Seq<RowView>
    decreases rows.len(),
{
    if rows.len() == 0 {
        seq![row]
    } else if rows.last().0 <= row.0 {
        rows.push(row)
    } else {
        placed(rows.drop_last(), row).push(rows.last())
    }
}

/// The rows in ascending order of their keys; rows with the same key keep
/// their order.
pub open spec fn by_key(rows: Seq<RowView>) -> Seq<RowView>
    decreases rows.len(),
{
    if rows.len() == 0 {
        Seq::empty()
    } else {
        placed(by_key(rows.drop_last()), rows.last())
    }
}

/// Where `placed` puts a row: behind the first `at` rows, if all rows after
/// them have greater keys and the row before has none.
proof fn lemma_placed_at(rows: Seq<RowView>, row: RowView, at: int)
    requires
        0 <= at <= rows.len(),
        forall|k: int| at <= k < rows.len() ==> rows[k].0 > row.0,
        at > 0 ==> rows[at - 1].0 <= row.0,
    ensures
        placed(rows, row) == rows.insert(at, row),
    decreases rows.len(),
{
    if rows.len() == 0 {
        assert(rows.insert(at, row) =~= seq![row]);
    } else if at == rows.len() {
        assert(rows.insert(at, row) =~= rows.push(row));
    } else {
        lemma_placed_at(rows.drop_last(), row, at);
        assert(rows.drop_last().insert(at, row).push(rows.last()) =~= rows.insert(at, row));
    }
}

/// Placing a row keeps ascending keys ascending and adds just that row.
pub proof fn lemma_placed(rows: Seq<RowView>, row: RowView)
    requires
        keys_ascend(rows),
    ensures
        keys_ascend(placed(rows, row)),
        placed(rows, row).to_multiset() == rows.to_multiset().insert(row),
        placed(rows, row).len() == rows.len() + 1,
    decreases rows.len(),
{
    broadcast use vstd::seq_lib::group_to_multiset_ensures;

    let after = placed(rows, row);
    if rows.len() == 0 {
        assert(seq![row] =~= rows.push(row));
    } else if rows.last().0 <= row.0 {
        assert forall|i: int, j: int| 0 <= i < j < after.len() implies after[i].0
            <= after[j].0 by {
            if j == rows.len() {
                assert(rows[i].0 <= rows[rows.len() - 1].0);
            }
        }
    } else {
        let head = rows.drop_last();
        let last = rows.last();
        assert forall|i: int, j: int| 0 <= i < j < head.len() implies head[i].0 <= head[j].0 by {
            assert(rows[i].0 <= rows[j].0);
        }
        lemma_placed(head, row);
        let inner = placed(head, row);
        assert(inner.to_multiset() == head.to_multiset().insert(row));
        assert forall|i: int| 0 <= i < inner.len() implies inner[i].0 <= last.0 by {
            assert(inner.to_multiset().count(inner[i]) > 0);
            if inner[i] != row {
                assert(head.to_multiset().count(inner[i]) > 0);
                assert(head.contains(inner[i]));
                let k = choose|k: int| 0 <= k < head.len() && head[k] == inner[i];
                assert(rows[k].0 <= rows[rows.len() - 1].0);
            }
        }
        assert forall|i: int, j: int| 0 <= i < j < after.len() implies after[i].0
            <= after[j].0 by {
            if j < inner.len() {
                assert(inner[i].0 <= inner[j].0);
            }
        }
        assert(rows =~= head.push(last));
        assert(after.to_multiset() =~= rows.to_multiset().insert(row));
    }
}

/// Ordering by key yields the same rows, each as often as before, with keys
/// that ascend.
pub proof fn lemma_by_key(rows: Seq<RowView>)
    ensures
        keys_ascend(by_key(rows)),
        by_key(rows).to_multiset() == rows.to_multiset(),
        by_key(rows).len() == rows.len(),
    decreases rows.len(),
{
    broadcast use vstd::seq_lib::group_to_multiset_ensures;

    if rows.len() == 0 {
        assert(by_key(rows) =~= rows);
    } else {
        lemma_by_key(rows.drop_last());
        lemma_placed(by_key(rows.drop_last()), rows.last());
        assert(rows =~= rows.drop_last().push(rows.last()));
    }
}

/// Rows whose keys ascend already stay as they are.
pub proof fn lemma_by_key_of_ascending(rows: Seq<RowView>)
    requires
        keys_ascend(rows),
    ensures
        by_key(rows) == rows,
    decreases rows.len(),
{
    if rows.len() > 0 {
        let head = rows.drop_last();
        assert forall|i: int, j: int| 0 <= i < j < head.len() implies head[i].0 <= head[j].0 by {
            assert(rows[i].0 <= rows[j].0);
        }
        lemma_by_key_of_ascending(head);
        if head.len() > 0 {
            assert(rows[head.len() - 1].0 <= rows[rows.len() - 1].0);
        }
        assert(head.push(rows.last()) =~= rows);
    } else {
        assert(by_key(rows) =~= rows);
    }
}

/// The payload of `deliver`, given the rows that left the database: their
/// texts in ascending order of their keys, which is the order of arrival,
/// each followed by a line feed.
pub open spec fn delivery_text(rows: Seq<RowView>) -> Seq<char> {
    join_lines(row_texts(by_key(rows)))
}

/// Brings rows into ascending order of their keys; rows with the same key
/// keep their order.
pub fn sort_rows(rows: Vec<Row>) -> (sorted: Vec<Row>)
    ensures
        rows_view(sorted@) == by_key(rows_view(rows@)),
{
    let ghost all = rows_view(rows@);
    let mut rows = rows;
    let mut rest: Vec<Row> = Vec::new();
    // Take the rows off the end, so that `rest` holds them last row first.
    while rows.len() > 0
        invariant
            rows_view(rows@) + rows_view(rest@).reverse() == all,
        decreases rows.len(),
    {
        let ghost before = rows_view(rows@);
        let ghost taken = rows_view(rest@);
        let row = rows.pop().unwrap();
        rest.push(row);
        assert(rows_view(rows@) =~= before.drop_last());
        assert(rows_view(rest@) =~= taken.push(before.last()));
        assert(rows_view(rows@) + rows_view(rest@).reverse() =~= before + taken.reverse());
    }
    assert(rows_view(rest@).reverse() =~= all);
    let mut sorted: Vec<Row> = Vec::new();
    let ghost mut done: int = 0;
    assert(all.take(0) =~= Seq::<RowView>::empty());
    while rest.len() > 0
        invariant
            0 <= done <= all.len(),
            rest.len() == all.len() - done,
            rows_view(rest@).reverse() == all.skip(done),
            rows_view(sorted@) == by_key(all.take(done)),
        decreases rest.len(),
    {
        let ghost pending = rows_view(rest@);
        let ghost so_far = rows_view(sorted@);
        let row = rest.pop().unwrap();
        proof {
            assert(pending.reverse()[0] == pending[pending.len() - 1]);
            assert((row.id as int, row.text@) == all[done]);
            assert(rows_view(rest@) =~= pending.drop_last());
            assert(rows_view(rest@).reverse() =~= pending.reverse().skip(1));
            assert(all.skip(done).skip(1) =~= all.skip(done + 1));
            assert(all.take(done + 1).drop_last() =~= all.take(done));
        }
        let mut at: usize = sorted.len();
        while at > 0 && sorted[at - 1].id > row.id
            invariant
                at <= sorted.len(),
                so_far == rows_view(sorted@),
                forall|k: int| at <= k < so_far.len() ==> so_far[k].0 > row.id,
            decreases at,
        {
            at -= 1;
        }
        proof {
            lemma_placed_at(so_far, (row.id as int, row.text@), at as int);
        }
        sorted.insert(at, row);
        proof {
            assert(rows_view(sorted@) =~= so_far.insert(at as int, all[done]));
            done = done + 1;
        }
    }
    assert(all.take(done) =~= all);
    sorted
}

/// The payload of `deliver`, given the rows that left the database.
pub fn delivery(rows: Vec<Row>) -> (r: String)
    ensures
        r@ == delivery_text(rows_view(rows@)),
{
    let sorted = sort_rows(rows);
    let ghost texts = row_texts(rows_view(sorted@));
    let mut results = String::new();
    let mut i: usize = 0;
    while i < sorted.len()
        invariant
            i <= sorted.len(),
            texts == row_texts(rows_view(sorted@)),
            results@ == join_lines(texts.take(i as int)),
        decreases sorted.len() - i,
    {
        assert(texts.take(i + 1).drop_last() =~= texts.take(i as int));
        assert(texts.take(i + 1).last() == sorted[i as int].text@);
        push_line(&mut results, sorted[i].text.as_str());
        i += 1;
    }
    assert(texts.take(i as int) =~= texts);
    results
}

/// The payload of `list`, given the rows that hold the account names: the
/// listing of the store that has exactly these accounts.
pub fn listing(rows: &Vec<Row>, filter: &str) -> (r: String)
    ensures
        r@ == list_text(accounts_named(row_texts(rows_view(rows@))), filter@),
{
    let ghost names = row_texts(rows_view(rows@));
    let mut scratch = VolatileStore::new();
    let mut i: usize = 0;
    while i < rows.len()
        invariant
            i <= rows.len(),
            names == row_texts(rows_view(rows@)),
            scratch.wf(),
            scratch@.dom() == accounts_named(names.take(i as int)).dom(),
        decreases rows.len() - i,
    {
        let ghost before = scratch@;
        let _ = scratch.create(rows[i].text.as_str());
        proof {
            let name = rows[i as int].text@;
            let shorter = names.take(i as int);
            let longer = names.take(i + 1);
            assert(names[i as int] == name);
            assert forall|n: Seq<char>|
                longer.contains(n) <==> (shorter.contains(n) || n == name) by {
                if longer.contains(n) {
                    let k = choose|k: int| 0 <= k < longer.len() && longer[k] == n;
                    if k < i {
                        assert(shorter[k] == n);
                    }
                }
                if shorter.contains(n) {
                    let k = choose|k: int| 0 <= k < shorter.len() && shorter[k] == n;
                    assert(longer[k] == n);
                }
                if n == name {
                    assert(longer[i as int] == n);
                }
            }
            assert(scratch@.dom() =~= accounts_named(names.take(i + 1)).dom());
        }
        i += 1;
    }
    proof {
        assert(names.take(i as int) =~= names);
        scratch.lemma_names();
        lemma_same_accounts(scratch@, accounts_named(names));
        assert(list_text(scratch@, filter@) == list_text(accounts_named(names), filter@));
    }
    match scratch.list(filter) {
        Ok(text) => text,
        Err(_) => String::new(),
    }
}

/// What the engine answered to a query for rows, as contracts see it: the
/// rows, or the text of the error.
pub open spec fn rows_answer_view(answer: Result<Vec<Row>, String>) -> Result<
    Seq<RowView>,
    Seq<char>,
> {
    match answer {
        Ok(rows) => Ok(rows_view(rows@)),
        Err(text) => Err(text@),
    }
}

/// The outcome of `list`, given the engine's answer to the query for the
/// accounts: the listing of the store that has exactly the accounts named in
/// the rows, or the error that the engine's failure stands for.
pub open spec fn list_outcome_view(
    answer: Result<Seq<RowView>, Seq<char>>,
    filter: Seq<char>,
) -> OutcomeView {
    match answer {
        Ok(rows) => Ok(list_text(accounts_named(row_texts(rows)), filter)),
        Err(text) => Err(classify_view(text)),
    }
}

/// The outcome of `list`, given the engine's answer to the query for the
/// accounts.
pub fn list_outcome(answer: Result<Vec<Row>, String>, filter: &str) -> (r: Result<
    String,
    StoreError,
>)
    ensures
        outcome_view(r) == list_outcome_view(rows_answer_view(answer), filter@),
{
    match answer {
        Ok(rows) => Ok(listing(&rows, filter)),
        Err(text) => Err(classify(text)),
    }
}

/// What the engine answered to the search for an account, as contracts see
/// it: the account's key if there is one, or the text of the error.
pub open spec fn found_view(result: Result<Option<i64>, String>) -> Result<
    Option<i64>,
    Seq<char>,
> {
    match result {
        Ok(found) => Ok(found),
        Err(text) => Err(text@),
    }
}

/// The account's key, given the engine's answer to the search for it: no row
/// means that there is no such account.
pub open spec fn lookup_outcome_view(result: Result<Option<i64>, Seq<char>>) -> Result<
    i64,
    StoreErrorView,
> {
    match result {
        Ok(Some(key)) => Ok(key),
        Ok(None) => Err(StoreErrorView::NoSuchAccount),
        Err(text) => Err(classify_view(text)),
    }
}

/// The outcome of [`lookup_outcome`], as contracts see it.
pub open spec fn key_view(r: Result<i64, StoreError>) -> Result<i64, StoreErrorView> {
    match r {
        Ok(key) => Ok(key),
        Err(e) => Err(e@),
    }
}

/// The account's key, given the engine's answer to the search for it.
pub fn lookup_outcome(result: Result<Option<i64>, String>) -> (r: Result<i64, StoreError>)
    ensures
        key_view(r) == lookup_outcome_view(found_view(result)),
{
    match result {
        Ok(Some(key)) => Ok(key),
        Ok(None) => Err(StoreError::NoSuchAccount),
        Err(text) => Err(classify(text)),
    }
}

/// What follows the search for an account in `deliver`, given the engine's
/// answer: the statement that takes the texts of the account with the key
/// found, or the error that ends the delivery.
pub open spec fn take_after_view(found: Result<Option<i64>, Seq<char>>) -> Result<
    StatementView,
    StoreErrorView,
> {
    match lookup_outcome_view(found) {
        Ok(key) => Ok(statement(SQL_TAKE_MESSAGES@, seq![ParamView::Key(key)])),
        Err(e) => Err(e),
    }
}

/// The outcome of [`take_after`], as contracts see it.
pub open spec fn next_view(r: Result<Statement, StoreError>) -> Result<
    StatementView,
    StoreErrorView,
> {
    match r {
        Ok(next) => Ok(next@),
        Err(e) => Err(e@),
    }
}

/// What follows the search for an account in `deliver`, given the engine's
/// answer.
pub fn take_after(found: Result<Option<i64>, String>) -> (r: Result<Statement, StoreError>)
    ensures
        next_view(r) == take_after_view(found_view(found)),
{
    match lookup_outcome(found) {
        Ok(key) => Ok(take_statement(key)),
        Err(e) => Err(e),
    }
}

/// The rows that left the database in `deliver`, given the engine's answer to
/// the removal, or the error that ends the delivery.
pub open spec fn taken_view(r: Result<Vec<Row>, StoreError>) -> Result<
    Seq<RowView>,
    StoreErrorView,
> {
    match r {
        Ok(rows) => Ok(rows_view(rows@)),
        Err(e) => Err(e@),
    }
}

/// The rows that left the database in `deliver`, given the engine's answer to
/// the removal: the rows as they came, or the error that the failure stands
/// for.
pub fn rows_outcome(taken: Result<Vec<Row>, String>) -> (r: Result<Vec<Row>, StoreError>)
    ensures
        taken_view(r) == match rows_answer_view(taken) {
            Ok(rows) => Ok::<Seq<RowView>, StoreErrorView>(rows),
            Err(text) => Err::<Seq<RowView>, StoreErrorView>(classify_view(text)),
        },
{
    match taken {
        Ok(rows) => Ok(rows),
        Err(text) => Err(classify(text)),
    }
}

/// What the engine answered to a request that returns nothing, as contracts
/// see it: that it is done, or the text of the error.
pub open spec fn done_view(answer: Result<(), String>) -> Result<(), Seq<char>> {
    match answer {
        Ok(_) => Ok(()),
        Err(text) => Err(text@),
    }
}

/// The outcome of `deliver` once the account's texts have left the database,
/// given the engine's answer to the commit: the payload only if the commit
/// went through, else the error that the failure stands for.
pub open spec fn commit_outcome_view(
    committed: Result<(), Seq<char>>,
    rows: Seq<RowView>,
) -> OutcomeView {
    match committed {
        Ok(_) => Ok(delivery_text(rows)),
        Err(text) => Err(classify_view(text)),
    }
}

/// The outcome of `deliver` once the account's texts have left the database,
/// given the engine's answer to the commit.
pub fn commit_outcome(committed: Result<(), String>, rows: Vec<Row>) -> (r: Result<
    String,
    StoreError,
>)
    ensures
        outcome_view(r) == commit_outcome_view(done_view(committed), rows_view(rows@)),
{
    match committed {
        Ok(_) => Ok(delivery(rows)),
        Err(text) => Err(classify(text)),
    }
}

/// The outcome of `deliver`, given what the engine answered at each step of
/// the transaction: to its beginning, to the search for the account, to the
/// removal of the account's texts, and to the commit. An answer counts only
/// if every step before it succeeded; the first failure is the outcome, and
/// the payload is there only when the commit went through.
pub open spec fn deliver_outcome_view(
    began: Result<(), Seq<char>>,
    found: Result<Option<i64>, Seq<char>>,
    taken: Result<Seq<RowView>, Seq<char>>,
    committed: Result<(), Seq<char>>,
) -> OutcomeView {
    match began {
        Err(text) => Err(classify_view(text)),
        Ok(_) => match lookup_outcome_view(found) {
            Err(e) => Err(e),
            Ok(_) => match taken {
                Err(text) => Err(classify_view(text)),
                Ok(rows) => commit_outcome_view(committed, rows),
            },
        },
    }
}

/// The outcome of a step that sets the database up, as contracts see it.
pub open spec fn setup_view(r: Result<(), StoreError>) -> Result<(), StoreErrorView> {
    match r {
        Ok(_) => Ok(()),
        Err(e) => Err(e@),
    }
}

/// The outcome of a step that sets the database up, given the engine's
/// answer: done, or the error that the failure stands for.
pub open spec fn setup_outcome_view(answer: Result<(), Seq<char>>) -> Result<
    (),
    StoreErrorView,
> {
    match answer {
        Ok(_) => Ok(()),
        Err(text) => Err(classify_view(text)),
    }
}

/// The outcome of a step that sets the database up, given the engine's
/// answer.
pub fn setup_outcome(answer: Result<(), String>) -> (r: Result<(), StoreError>)
    ensures
        setup_view(r) == setup_outcome_view(done_view(answer)),
{
    match answer {
        Ok(_) => Ok(()),
        Err(text) => Err(classify(text)),
    }
}

/// The durable store: one handle on the database.
pub struct DurableStore {
    conn: rusqlite::Connection,
}

/// An engine answer with the error, if any, as its text: a count of rows
/// stays as it is, a failure stays a failure.
fn changed(result: Result<usize, rusqlite::Error>) -> (r: Result<usize, String>)
    ensures
        result matches Ok(n) ==> r == Ok::<usize, String>(n),
        result is Err ==> r is Err,
{
    match result {
        Ok(n) => Ok(n),
        Err(e) => Err(error_text(&e)),
    }
}

/// The store error for an engine error: what [`classify`] makes of its text.
fn storage_error(error: &rusqlite::Error) -> (r: StoreError)
    ensures
        engine_failure(r@),
{
    classify(error_text(error))
}

impl DurableStore {
    /// Opens the database at `path`, creating the file if need be, and
    /// hands the engine [`foreign_keys_statement`], which switches the
    /// enforcement of references on for this handle. Whether that succeeds
    /// is the engine's to say; if it fails, the error is the engine's, read by
    /// [`classify`].
    pub fn connect(path: &str) -> (r: Result<DurableStore, StoreError>)
        ensures
            r matches Err(e) ==> engine_failure(e@),
    {
        let conn = match open_connection(path) {
            Ok(conn) => conn,
            Err(e) => {
                return Err(storage_error(&e));
            },
        };
        let answer = match execute(&conn, &foreign_keys_statement()) {
            Ok(_) => Ok(()),
            Err(e) => Err(error_text(&e)),
        };
        match setup_outcome(answer) {
            Ok(_) => Ok(DurableStore { conn }),
            Err(e) => Err(e),
        }
    }

    /// Hands the engine [`schema_statement`], which creates the two tables
    /// unless they exist already. The outcome is what [`setup_outcome`] makes
    /// of the engine's answer.
    pub fn create_tables(&self) -> (r: Result<(), StoreError>)
        ensures
            exists|answer: Result<(), Seq<char>>|
                setup_view(r) == #[trigger] setup_outcome_view(answer),
            r matches Err(e) ==> engine_failure(e@),
    {
        let answer = match run_batch(&self.conn, &schema_statement()) {
            Ok(_) => Ok(()),
            Err(e) => Err(error_text(&e)),
        };
        setup_outcome(answer)
    }

    /// Makes sure that the database at `path` exists and has its tables. If
    /// opening it or creating the tables fails, the error is the engine's,
    /// read by [`classify`].
    pub fn initialize(path: &str) -> (r: Result<(), StoreError>)
        ensures
            r matches Err(e) ==> engine_failure(e@),
    {
        match Self::connect(path) {
            Ok(store) => store.create_tables(),
            Err(e) => Err(e),
        }
    }
}

/// What the durable store promises of an operation, whatever the database
/// holds and whatever the engine answers: the outcome is what the library
/// makes of the engine's answer.
pub open spec fn durable_allows(op: Operation, outcome: OutcomeView) -> bool {
    match op {
        Operation::Create(_) | Operation::Send(_, _) => exists|answer: Result<usize, Seq<char>>|
            outcome == #[trigger] insert_outcome_view(answer),
        Operation::Delete(_) => exists|answer: Result<usize, Seq<char>>|
            outcome == #[trigger] delete_outcome_view(answer),
        Operation::List(filter) => exists|answer: Result<Seq<RowView>, Seq<char>>|
            outcome == #[trigger] list_outcome_view(answer, filter),
        Operation::Deliver(_) => exists|
            began: Result<(), Seq<char>>,
            found: Result<Option<i64>, Seq<char>>,
            taken: Result<Seq<RowView>, Seq<char>>,
            committed: Result<(), Seq<char>>,
        | outcome == #[trigger] deliver_outcome_view(began, found, taken, committed),
    }
}

/// The durable store keeps nothing in memory that an invariant could speak
/// of. Of each operation it promises [`durable_allows`].
impl AccountStore for DurableStore {
    open spec fn inv(&self) -> bool {
        true
    }

    open spec fn allows(&self, after: &Self, op: Operation, outcome: OutcomeView) -> bool {
        durable_allows(op, outcome)
    }

    /// Hands the engine [`create_statement`]. Whatever the engine answers,
    /// the outcome is what [`insert_outcome`] makes of the answer.
    fn create(&mut self, name: &str) -> (r: Result<String, StoreError>) {
        let answer = changed(execute(&self.conn, &create_statement(name)));
        insert_outcome(answer)
    }

    /// Hands the engine [`list_statement`]. Whatever the engine answers, the
    /// outcome is what [`list_outcome`] makes of the answer: on rows, their
    /// names ascending, each once.
    fn list(&self, filter: &str) -> (r: Result<String, StoreError>) {
        let answer = match query_rows(&self.conn, &list_statement()) {
            Ok(rows) => Ok(rows),
            Err(e) => Err(error_text(&e)),
        };
        list_outcome(answer, filter)
    }

    /// Hands the engine [`send_statement`]. Whatever the engine answers, the
    /// outcome is what [`insert_outcome`] makes of the answer.
    fn send(&mut self, name: &str, text: &str) -> (r: Result<String, StoreError>) {
        let answer = changed(execute(&self.conn, &send_statement(name, text)));
        insert_outcome(answer)
    }

    /// Takes the queued texts of the account `name` out of the database in
    /// one transaction: the transaction begins, the engine is handed
    /// [`find_statement`] and then what [`take_after`] makes of its answer,
    /// and the transaction commits. If any step fails, the steps after it are
    /// not taken and nothing is committed. Whatever the engine answers at
    /// each step, the outcome is that of [`deliver_outcome_view`].
    fn deliver(&mut self, name: &str) -> (r: Result<String, StoreError>) {
        let ghost no_rows = Ok::<Seq<RowView>, Seq<char>>(Seq::empty());
        let ghost fine = Ok::<(), Seq<char>>(());
        let txn = match begin(&mut self.conn) {
            Ok(txn) => txn,
            Err(e) => {
                let text = error_text(&e);
                let ghost began = Err::<(), Seq<char>>(text@);
                let r = Err(classify(text));
                assert(outcome_view(r) == deliver_outcome_view(began, Ok(None), no_rows, fine));
                return r;
            },
        };
        let found = match query_id(connection_of(&txn), &find_statement(name)) {
            Ok(found) => Ok(found),
            Err(e) => Err(error_text(&e)),
        };
        let ghost found_answer = found_view(found);
        let take = match take_after(found) {
            Ok(take) => take,
            Err(e) => {
                let r = Err(e);
                assert(outcome_view(r) == deliver_outcome_view(fine, found_answer, no_rows, fine));
                return r;
            },
        };
        let taken = match query_rows(connection_of(&txn), &take) {
            Ok(rows) => Ok(rows),
            Err(e) => Err(error_text(&e)),
        };
        let ghost taken_answer = rows_answer_view(taken);
        let rows = match rows_outcome(taken) {
            Ok(rows) => rows,
            Err(e) => {
                let r = Err(e);
                assert(outcome_view(r) == deliver_outcome_view(
                    fine,
                    found_answer,
                    taken_answer,
                    fine,
                ));
                return r;
            },
        };
        let committed = match commit(txn) {
            Ok(_) => Ok(()),
            Err(e) => Err(error_text(&e)),
        };
        let ghost committed_answer = done_view(committed);
        let r = commit_outcome(committed, rows);
        assert(outcome_view(r) == deliver_outcome_view(
            fine,
            found_answer,
            taken_answer,
            committed_answer,
        ));
        r
    }

    /// Hands the engine [`delete_statement`]. Whatever the engine answers,
    /// the outcome is what [`delete_outcome`] makes of the answer.
    fn delete(&mut self, name: &str) -> (r: Result<String, StoreError>) {
        let answer = changed(execute(&self.conn, &delete_statement(name)));
        delete_outcome(answer)
    }
}

} // verus!
