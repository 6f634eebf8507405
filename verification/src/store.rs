//! What an account store is, whatever keeps it: a mapping from account names
//! to queues of pending texts, and the five operations on it.

use vstd::prelude::*;
use crate::listing::list_text;
use crate::text::join_lines;

verus! {

/// The state of an account store: each existing account's queue, oldest text
/// first.
pub type Accounts = Map<Seq<char>, Seq<Seq<char>>>;

/// Why a store operation failed.
#[derive(Debug)]
pub enum StoreError {
    /// The account to create exists already.
    DuplicateAccount,
    /// The account named does not exist.
    NoSuchAccount,
    /// The account to delete still has queued texts.
    AccountNotEmpty,
    /// The storage engine failed in a way that is none of the above.
    Storage(String),
}

/// A [`StoreError`] in contracts.
pub ghost enum StoreErrorView {
    DuplicateAccount,
    NoSuchAccount,
    AccountNotEmpty,
    Storage(Seq<char>),
}

impl View for StoreError {
    type V = StoreErrorView;

    open spec fn view(&self) -> StoreErrorView {
        match self {
            StoreError::DuplicateAccount => StoreErrorView::DuplicateAccount,
            StoreError::NoSuchAccount => StoreErrorView::NoSuchAccount,
            StoreError::AccountNotEmpty => StoreErrorView::AccountNotEmpty,
            StoreError::Storage(text) => StoreErrorView::Storage(text@),
        }
    }
}

impl StoreErrorView {
    /// The text by which the error is reported to a client.
    pub open spec fn message(self) -> Seq<char> {
        match self {
            StoreErrorView::DuplicateAccount => "account already exists"@,
            StoreErrorView::NoSuchAccount => "account does not exist"@,
            StoreErrorView::AccountNotEmpty => "account has messages"@,
            StoreErrorView::Storage(text) => text,
        }
    }
}

impl StoreError {
    /// The text by which the error is reported to a client.
    pub fn message(&self) -> (r: String)
        ensures
            r@ == self@.message(),
    {
        match self {
            StoreError::DuplicateAccount => "account already exists".to_owned(),
            StoreError::NoSuchAccount => "account does not exist".to_owned(),
            StoreError::AccountNotEmpty => "account has messages".to_owned(),
            StoreError::Storage(text) => text.clone(),
        }
    }
}

/// The outcome of a store operation in contracts: the success payload or the
/// error.
pub type OutcomeView = Result<Seq<char>, StoreErrorView>;

/// The outcome of an executable store operation, as contracts see it.
pub open spec fn outcome_view(r: Result<String, StoreError>) -> OutcomeView {
    match r {
        Ok(text) => Ok(text@),
        Err(e) => Err(e@),
    }
}

/// `create`: a new account with an empty queue, unless the name is taken.
pub open spec fn create_step(s: Accounts, name: Seq<char>) -> (Accounts, OutcomeView) {
    if s.contains_key(name) {
        (s, Err(StoreErrorView::DuplicateAccount))
    } else {
        (s.insert(name, Seq::empty()), Ok(Seq::empty()))
    }
}

/// `list`: the listing; it never fails, and the store stays as it is.
pub open spec fn list_step(s: Accounts, filter: Seq<char>) -> (Accounts, OutcomeView) {
    (s, Ok(list_text(s, filter)))
}

/// `send`: the text goes to the end of the account's queue, if the account
/// exists.
pub open spec fn send_step(s: Accounts, name: Seq<char>, text: Seq<char>) -> (
    Accounts,
    OutcomeView,
) {
    if s.contains_key(name) {
        (s.insert(name, s[name].push(text)), Ok(Seq::empty()))
    } else {
        (s, Err(StoreErrorView::NoSuchAccount))
    }
}

/// `deliver`: the whole queue leaves the store at once, oldest text first, one
/// text per line.
pub open spec fn deliver_step(s: Accounts, name: Seq<char>) -> (Accounts, OutcomeView) {
    if s.contains_key(name) {
        (s.insert(name, Seq::empty()), Ok(join_lines(s[name])))
    } else {
        (s, Err(StoreErrorView::NoSuchAccount))
    }
}

/// `delete`: the account goes, if it exists and its queue is empty.
pub open spec fn delete_step(s: Accounts, name: Seq<char>) -> (Accounts, OutcomeView) {
    if !s.contains_key(name) {
        (s, Err(StoreErrorView::NoSuchAccount))
    } else if s[name].len() > 0 {
        (s, Err(StoreErrorView::AccountNotEmpty))
    } else {
        (s.remove(name), Ok(Seq::empty()))
    }
}

/// One request to a store.
pub ghost enum Operation {
    Create(Seq<char>),
    List(Seq<char>),
    Send(Seq<char>, Seq<char>),
    Deliver(Seq<char>),
    Delete(Seq<char>),
}

/// The store and the outcome after one operation.
pub open spec fn apply(s: Accounts, op: Operation) -> (Accounts, OutcomeView) {
    match op {
        Operation::Create(name) => create_step(s, name),
        Operation::List(filter) => list_step(s, filter),
        Operation::Send(name, text) => send_step(s, name, text),
        Operation::Deliver(name) => deliver_step(s, name),
        Operation::Delete(name) => delete_step(s, name),
    }
}

/// The capability that every account store offers: the five operations. What
/// an implementation promises of them it says in `allows`; `inv` is what it
/// needs to hold between operations.
pub trait AccountStore: Sized {
    /// The store's invariant.
    spec fn inv(&self) -> bool;

    /// Whether the store may answer the operation with `outcome` and be as
    /// `after` afterwards.
    spec fn allows(&self, after: &Self, op: Operation, outcome: OutcomeView) -> bool;

    /// Creates the account `name` with an empty queue, unless it exists
    /// already.
    fn create(&mut self, name: &str) -> (r: Result<String, StoreError>)
        requires
            old(self).inv(),
        ensures
            final(self).inv(),
            old(self).allows(final(self), Operation::Create(name@), outcome_view(r)),
    ;

    /// Lists the account names that the filter lets through, in ascending
    /// order, each followed by a line feed. The empty filter lists them all.
    fn list(&self, filter: &str) -> (r: Result<String, StoreError>)
        requires
            self.inv(),
        ensures
            self.allows(self, Operation::List(filter@), outcome_view(r)),
    ;

    /// Puts `text` at the end of the queue of the account `name`, if there is
    /// such an account.
    fn send(&mut self, name: &str, text: &str) -> (r: Result<String, StoreError>)
        requires
            old(self).inv(),
        ensures
            final(self).inv(),
            old(self).allows(final(self), Operation::Send(name@, text@), outcome_view(r)),
    ;

    /// Takes every queued text of the account `name` out of the store at
    /// once and returns them oldest first, each followed by a line feed.
    fn deliver(&mut self, name: &str) -> (r: Result<String, StoreError>)
        requires
            old(self).inv(),
        ensures
            final(self).inv(),
            old(self).allows(final(self), Operation::Deliver(name@), outcome_view(r)),
    ;

    /// Removes the account `name`, if it exists and its queue is empty.
    fn delete(&mut self, name: &str) -> (r: Result<String, StoreError>)
        requires
            old(self).inv(),
        ensures
            final(self).inv(),
            old(self).allows(final(self), Operation::Delete(name@), outcome_view(r)),
    ;
}

} // verus!
