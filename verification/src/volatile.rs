//! The volatile account store: accounts kept in memory, in ascending order of
//! their names, for as long as the process lives.

use vstd::prelude::*;
use crate::listing::{enumerates, lemma_sorted_names, matching, sorted_names};
use crate::store::{apply, AccountStore, Accounts, Operation, OutcomeView, StoreError};
use crate::text::{
    ascending, compare_names, join_lines, lemma_name_before_total, lemma_name_before_transitive,
    matches_filter, name_before, push_line, NameOrder,
};

verus! {

/// The texts of a queue as contracts see them.
spec fn texts_view(queue: Seq<String>) -> Seq<Seq<char>> {
    queue.map_values(|t: String| t@)
}

/// One account: its name and its pending texts, oldest first.
struct Account {
    name: String,
    queue: Vec<String>,
}

impl Account {
    /// The account's name.
    spec fn spec_name(&self) -> Seq<char> {
        self.name@
    }

    /// The account's pending texts, oldest first.
    spec fn spec_queue(&self) -> Seq<Seq<char>> {
        texts_view(self.queue@)
    }
}

/// The names of a sequence of accounts, in the order in which they stand.
spec fn names_of(accounts: Seq<Account>) -> Seq<Seq<char>> {
    accounts.map_values(|a: Account| a.spec_name())
}

/// The place of the account called `name`, where there is one.
spec fn position_of(accounts: Seq<Account>, name: Seq<char>) -> int {
    choose|i: int| 0 <= i < accounts.len() && accounts[i].spec_name() == name
}

/// The mapping that a sequence of accounts stands for.
spec fn accounts_map(accounts: Seq<Account>) -> Accounts {
    Map::new(
        |n: Seq<char>| names_of(accounts).contains(n),
        |n: Seq<char>| accounts[position_of(accounts, n)].spec_queue(),
    )
}

/// In an ascending sequence of accounts a name has one place only.
proof fn lemma_position(accounts: Seq<Account>, i: int)
    requires
        ascending(names_of(accounts)),
        0 <= i < accounts.len(),
    ensures
        names_of(accounts).contains(accounts[i].spec_name()),
        position_of(accounts, accounts[i].spec_name()) == i,
        accounts_map(accounts).contains_key(accounts[i].spec_name()),
        accounts_map(accounts)[accounts[i].spec_name()] == accounts[i].spec_queue(),
{
    let names = names_of(accounts);
    let name = accounts[i].spec_name();
    assert(names[i] == name);
    let j = position_of(accounts, name);
    if j < i {
        assert(name_before(names[j], names[i]));
        lemma_name_before_total(name, name);
    } else if i < j {
        assert(name_before(names[i], names[j]));
        lemma_name_before_total(name, name);
    }
}

/// A name that stands in no place is no account.
proof fn lemma_absent(accounts: Seq<Account>, name: Seq<char>)
    requires
        forall|i: int| 0 <= i < accounts.len() ==> accounts[i].spec_name() != name,
    ensures
        !names_of(accounts).contains(name),
        !accounts_map(accounts).contains_key(name),
{
    let names = names_of(accounts);
    if names.contains(name) {
        let k = choose|k: int| 0 <= k < names.len() && names[k] == name;
        assert(accounts[k].spec_name() == name);
    }
}

/// Putting a new account in its place keeps the names ascending and adds
/// the account to the mapping.
proof fn lemma_insert(accounts: Seq<Account>, at: int, account: Account)
    requires
        ascending(names_of(accounts)),
        0 <= at <= accounts.len(),
        forall|i: int|
            0 <= i < at ==> name_before(#[trigger] accounts[i].spec_name(), account.spec_name()),
        forall|i: int|
            at <= i < accounts.len() ==> name_before(
                account.spec_name(),
                #[trigger] accounts[i].spec_name(),
            ),
    ensures
        ascending(names_of(accounts.insert(at, account))),
        accounts_map(accounts.insert(at, account)) == accounts_map(accounts).insert(
            account.spec_name(),
            account.spec_queue(),
        ),
{
    let after = accounts.insert(at, account);
    let names = names_of(accounts);
    let names_after = names_of(after);
    assert forall|i: int, j: int| 0 <= i < j < names_after.len() implies name_before(
        names_after[i],
        names_after[j],
    ) by {
        let oi = if i < at { i } else { i - 1 };
        let oj = if j < at { j } else { j - 1 };
        if i != at && j != at {
            assert(name_before(names[oi], names[oj]));
        } else if i == at {
            assert(after[j] == accounts[oj]);
        } else {
            assert(after[i] == accounts[oi]);
        }
    }
    let left = accounts_map(after);
    let right = accounts_map(accounts).insert(account.spec_name(), account.spec_queue());
    assert forall|n: Seq<char>|
        #![trigger left.dom().contains(n)]
        #![trigger right.dom().contains(n)]
        left.dom().contains(n) == right.dom().contains(n) && (left.dom().contains(n) ==> left[n]
            == right[n]) by {
        if left.contains_key(n) {
            let k = choose|k: int| 0 <= k < names_after.len() && names_after[k] == n;
            lemma_position(after, k);
            if k != at {
                let ok = if k < at { k } else { k - 1 };
                assert(after[k] == accounts[ok]);
                lemma_position(accounts, ok);
                lemma_name_before_total(account.spec_name(), n);
            }
        }
        if right.contains_key(n) {
            if n == account.spec_name() {
                lemma_position(after, at);
            } else {
                let k = choose|k: int| 0 <= k < names.len() && names[k] == n;
                let nk = if k < at { k } else { k + 1 };
                assert(after[nk] == accounts[k]);
                lemma_position(after, nk);
                lemma_position(accounts, k);
            }
        }
    }
    assert(left =~= right);
}

/// Changing one account's queue changes that account's entry in the mapping
/// and nothing else.
proof fn lemma_update(accounts: Seq<Account>, after: Seq<Account>, at: int)
    requires
        ascending(names_of(accounts)),
        0 <= at < accounts.len(),
        after.len() == accounts.len(),
        after[at].spec_name() == accounts[at].spec_name(),
        forall|i: int| 0 <= i < accounts.len() && i != at ==> after[i] == accounts[i],
    ensures
        ascending(names_of(after)),
        accounts_map(after) == accounts_map(accounts).insert(
            accounts[at].spec_name(),
            after[at].spec_queue(),
        ),
{
    let names = names_of(accounts);
    let names_after = names_of(after);
    assert(names_after =~= names);
    let left = accounts_map(after);
    let right = accounts_map(accounts).insert(accounts[at].spec_name(), after[at].spec_queue());
    assert forall|n: Seq<char>|
        #![trigger left.dom().contains(n)]
        #![trigger right.dom().contains(n)]
        left.dom().contains(n) == right.dom().contains(n) && (left.dom().contains(n) ==> left[n]
            == right[n]) by {
        lemma_position(accounts, at);
        if names.contains(n) {
            let k = choose|k: int| 0 <= k < names.len() && names[k] == n;
            lemma_position(after, k);
            lemma_position(accounts, k);
        }
    }
    assert(left =~= right);
}

/// Taking an account out keeps the names ascending and removes the account
/// from the mapping.
proof fn lemma_remove(accounts: Seq<Account>, at: int)
    requires
        ascending(names_of(accounts)),
        0 <= at < accounts.len(),
    ensures
        ascending(names_of(accounts.remove(at))),
        accounts_map(accounts.remove(at)) == accounts_map(accounts).remove(
            accounts[at].spec_name(),
        ),
{
    let after = accounts.remove(at);
    let names = names_of(accounts);
    let names_after = names_of(after);
    let gone = accounts[at].spec_name();
    assert forall|i: int, j: int| 0 <= i < j < names_after.len() implies name_before(
        names_after[i],
        names_after[j],
    ) by {
        let oi = if i < at { i } else { i + 1 };
        let oj = if j < at { j } else { j + 1 };
        assert(name_before(names[oi], names[oj]));
    }
    let left = accounts_map(after);
    let right = accounts_map(accounts).remove(gone);
    assert forall|n: Seq<char>|
        #![trigger left.dom().contains(n)]
        #![trigger right.dom().contains(n)]
        left.dom().contains(n) == right.dom().contains(n) && (left.dom().contains(n) ==> left[n]
            == right[n]) by {
        if left.contains_key(n) {
            let k = choose|k: int| 0 <= k < names_after.len() && names_after[k] == n;
            let ok = if k < at { k } else { k + 1 };
            assert(after[k] == accounts[ok]);
            lemma_position(after, k);
            lemma_position(accounts, ok);
            lemma_position(accounts, at);
        }
        if right.contains_key(n) {
            let k = choose|k: int| 0 <= k < names.len() && names[k] == n;
            lemma_position(accounts, k);
            let nk = if k < at { k } else { k - 1 };
            assert(after[nk] == accounts[k]);
            lemma_position(after, nk);
        }
    }
    assert(left =~= right);
}

/// The volatile store: a single ordered mapping from name to queue.
pub struct VolatileStore {
    accounts: Vec<Account>,
}

impl View for VolatileStore {
    type V = Accounts;

    closed spec fn view(&self) -> Accounts {
        accounts_map(self.accounts@)
    }
}

impl VolatileStore {
    /// The account names in the order in which the store keeps them.
    pub closed spec fn names(&self) -> Seq<Seq<char>> {
        names_of(self.accounts@)
    }

    /// The store's invariant: names ascend, so that no name occurs twice.
    pub closed spec fn wf(&self) -> bool {
        ascending(names_of(self.accounts@))
    }

    /// The names that a well-formed store keeps are its account names in
    /// ascending order.
    pub proof fn lemma_names(&self)
        requires
            self.wf(),
        ensures
            enumerates(self.names(), self@),
            self.names() == sorted_names(self@),
            self@.dom().finite(),
    {
        lemma_sorted_names(self.names(), self@);
        vstd::seq_lib::seq_to_set_is_finite(self.names());
        assert(self@.dom() =~= self.names().to_set());
    }

    /// A store without accounts.
    pub fn new() -> (r: Self)
        ensures
            r.wf(),
            r@ == Map::<Seq<char>, Seq<Seq<char>>>::empty(),
    {
        let r = VolatileStore { accounts: Vec::new() };
        assert(r@ =~= Map::<Seq<char>, Seq<Seq<char>>>::empty());
        r
    }

    /// Finds the place of `name`: where it stands, or where it would have to
    /// be put.
    fn locate(&self, name: &str) -> (r: (bool, usize))
        requires
            self.wf(),
        ensures
            r.1 <= self.accounts.len(),
            r.0 ==> r.1 < self.accounts.len() && self.accounts[r.1 as int].spec_name() == name@,
            !r.0 ==> forall|i: int|
                0 <= i < r.1 ==> name_before(#[trigger] self.accounts[i].spec_name(), name@),
            !r.0 ==> forall|i: int|
                r.1 <= i < self.accounts.len() ==> name_before(
                    name@,
                    #[trigger] self.accounts[i].spec_name(),
                ),
            r.0 == self@.contains_key(name@),
    {
        let mut lo: usize = 0;
        let mut hi: usize = self.accounts.len();
        let ghost names = names_of(self.accounts@);
        while lo < hi
            invariant
                lo <= hi <= self.accounts.len(),
                names == names_of(self.accounts@),
                ascending(names),
                forall|i: int| 0 <= i < lo ==> name_before(#[trigger] names[i], name@),
                forall|i: int| hi <= i < names.len() ==> name_before(name@, #[trigger] names[i]),
            decreases hi - lo,
        {
            let mid: usize = lo + (hi - lo) / 2;
            let here = &self.accounts[mid];
            assert(names[mid as int] == here.spec_name());
            match compare_names(here.name.as_str(), name) {
                NameOrder::Same => {
                    proof {
                        lemma_position(self.accounts@, mid as int);
                    }
                    return (true, mid);
                },
                NameOrder::Before => {
                    assert forall|i: int| 0 <= i < mid + 1 implies name_before(
                        #[trigger] names[i],
                        name@,
                    ) by {
                        if i < mid {
                            assert(name_before(names[i], names[mid as int]));
                            lemma_name_before_transitive(names[i], names[mid as int], name@);
                        }
                    }
                    lo = mid + 1;
                },
                NameOrder::After => {
                    proof {
                        lemma_name_before_total(names[mid as int], name@);
                    }
                    assert forall|i: int| mid <= i < names.len() implies name_before(
                        name@,
                        #[trigger] names[i],
                    ) by {
                        if mid < i {
                            assert(name_before(names[mid as int], names[i]));
                            lemma_name_before_transitive(name@, names[mid as int], names[i]);
                        }
                    }
                    hi = mid;
                },
            }
        }
        proof {
            assert forall|i: int| 0 <= i < self.accounts.len() implies self.accounts[i].spec_name()
                != name@ by {
                assert(names[i] == self.accounts[i].spec_name());
                lemma_name_before_total(names[i], name@);
            }
            lemma_absent(self.accounts@, name@);
            assert forall|i: int| 0 <= i < lo implies name_before(
                #[trigger] self.accounts[i].spec_name(),
                name@,
            ) by {
                assert(names[i] == self.accounts[i].spec_name());
            }
            assert forall|i: int| lo <= i < self.accounts.len() implies name_before(
                name@,
                #[trigger] self.accounts[i].spec_name(),
            ) by {
                assert(names[i] == self.accounts[i].spec_name());
            }
        }
        (false, lo)
    }
}

/// The volatile store does exactly what the operations say: the mapping
/// afterwards and the outcome are those of [`apply`].
impl AccountStore for VolatileStore {
    open spec fn inv(&self) -> bool {
        self.wf()
    }

    open spec fn allows(&self, after: &Self, op: Operation, outcome: OutcomeView) -> bool {
        (after@, outcome) == apply(self@, op)
    }

    /// Puts the new account where its name belongs, unless the name is taken.
    fn create(&mut self, name: &str) -> (r: Result<String, StoreError>) {
        let (found, at) = self.locate(name);
        if found {
            return Err(StoreError::DuplicateAccount);
        }
        let account = Account { name: name.to_owned(), queue: Vec::new() };
        assert(account.spec_queue() =~= Seq::<Seq<char>>::empty());
        proof {
            lemma_insert(self.accounts@, at as int, account);
        }
        self.accounts.insert(at, account);
        Ok(String::new())
    }

    /// Walks the accounts in their order and lists the names that the filter
    /// lets through. It never fails.
    fn list(&self, filter: &str) -> (r: Result<String, StoreError>) {
        let mut results = String::new();
        let ghost names = names_of(self.accounts@);
        let mut i: usize = 0;
        while i < self.accounts.len()
            invariant
                i <= self.accounts.len(),
                names == names_of(self.accounts@),
                results@ == join_lines(matching(names.take(i as int), filter@)),
            decreases self.accounts.len() - i,
        {
            let account = &self.accounts[i];
            assert(names.take(i + 1).drop_last() =~= names.take(i as int));
            assert(names.take(i + 1).last() == account.spec_name());
            if matches_filter(filter, account.name.as_str()) {
                let ghost before = matching(names.take(i as int), filter@);
                assert(before.push(account.spec_name()).drop_last() =~= before);
                push_line(&mut results, account.name.as_str());
            }
            i += 1;
        }
        proof {
            assert(names.take(i as int) =~= names);
            self.lemma_names();
        }
        Ok(results)
    }

    /// Appends the text to the account's queue.
    fn send(&mut self, name: &str, text: &str) -> (r: Result<String, StoreError>) {
        let (found, at) = self.locate(name);
        if !found {
            return Err(StoreError::NoSuchAccount);
        }
        proof {
            lemma_position(self.accounts@, at as int);
        }
        let ghost before = self.accounts@;
        self.accounts[at].queue.push(text.to_owned());
        proof {
            assert(self.accounts@[at as int].spec_queue() =~= before[at as int].spec_queue().push(
                text@,
            ));
            lemma_update(before, self.accounts@, at as int);
        }
        Ok(String::new())
    }

    /// Joins the account's queue into one payload and empties it.
    fn deliver(&mut self, name: &str) -> (r: Result<String, StoreError>) {
        let (found, at) = self.locate(name);
        if !found {
            return Err(StoreError::NoSuchAccount);
        }
        proof {
            lemma_position(self.accounts@, at as int);
        }
        let ghost before = self.accounts@;
        let mut results = String::new();
        let queue = &self.accounts[at].queue;
        let ghost texts = texts_view(queue@);
        let mut i: usize = 0;
        while i < queue.len()
            invariant
                i <= queue.len(),
                texts == texts_view(queue@),
                results@ == join_lines(texts.take(i as int)),
            decreases queue.len() - i,
        {
            assert(texts.take(i + 1).drop_last() =~= texts.take(i as int));
            assert(texts.take(i + 1).last() == queue[i as int]@);
            push_line(&mut results, queue[i].as_str());
            i += 1;
        }
        assert(texts.take(i as int) =~= texts);
        self.accounts[at].queue.clear();
        proof {
            assert(self.accounts@[at as int].spec_queue() =~= Seq::<Seq<char>>::empty());
            lemma_update(before, self.accounts@, at as int);
        }
        Ok(results)
    }

    /// Takes the account out, if its queue is empty.
    fn delete(&mut self, name: &str) -> (r: Result<String, StoreError>) {
        let (found, at) = self.locate(name);
        if !found {
            return Err(StoreError::NoSuchAccount);
        }
        proof {
            lemma_position(self.accounts@, at as int);
        }
        if self.accounts[at].queue.len() > 0 {
            return Err(StoreError::AccountNotEmpty);
        }
        proof {
            lemma_remove(self.accounts@, at as int);
        }
        self.accounts.remove(at);
        Ok(String::new())
    }
}

} // verus!
