//! Listings: the account names of a store in ascending order, and the names
//! among them that a filter lets through.

use vstd::prelude::*;
use crate::store::Accounts;
use crate::text::{
    ascending, filter_matches, join_lines, lemma_name_before_total, lemma_name_before_transitive,
    lemma_empty_filter_is_star, name_before,
};

verus! {

/// Whether `names` lists the accounts of `s`, each once, in ascending order.
pub open spec fn enumerates(names: Seq<Seq<char>>, s: Accounts) -> bool {
    &&& ascending(names)
    &&& forall|n: Seq<char>| names.contains(n) <==> s.contains_key(n)
}

/// The account names of a store in ascending order.
pub open spec fn sorted_names(s: Accounts) -> Seq<Seq<char>> {
    choose|names: Seq<Seq<char>>| enumerates(names, s)
}

/// The names among `names` that a listing filter lets through, in the order
/// in which they stand.
pub open spec fn matching(names: Seq<Seq<char>>, filter: Seq<char>) -> Seq<Seq<char>>
    decreases names.len(),
{
    if names.len() == 0 {
        Seq::empty()
    } else if filter_matches(filter, names.last()) {
        matching(names.drop_last(), filter).push(names.last())
    } else {
        matching(names.drop_last(), filter)
    }
}

/// The listing of a store: the account names that the filter lets through,
/// ascending, each followed by a line feed.
pub open spec fn list_text(s: Accounts, filter: Seq<char>) -> Seq<char> {
    join_lines(matching(sorted_names(s), filter))
}

/// The store that holds an account with an empty queue for each of the names
/// given, and no other account.
pub open spec fn accounts_named(names: Seq<Seq<char>>) -> Accounts {
    Map::new(|n: Seq<char>| names.contains(n), |n: Seq<char>| Seq::empty())
}

/// Without its first name, an ascending list of a store's names lists the
/// store without that account.
proof fn lemma_rest_enumerates(names: Seq<Seq<char>>, s: Accounts)
    requires
        enumerates(names, s),
        names.len() > 0,
    ensures
        enumerates(names.drop_first(), s.remove(names[0])),
{
    let first = names[0];
    let rest = names.drop_first();
    let without = s.remove(first);
    assert(names.contains(first));
    assert forall|n: Seq<char>| rest.contains(n) <==> without.contains_key(n) by {
        if rest.contains(n) {
            let k = choose|k: int| 0 <= k < rest.len() && rest[k] == n;
            assert(names[k + 1] == n);
            assert(name_before(names[0], names[k + 1]));
            lemma_name_before_total(first, n);
            assert(names.contains(n));
        }
        if without.contains_key(n) {
            assert(names.contains(n));
            let k = choose|k: int| 0 <= k < names.len() && names[k] == n;
            assert(rest[k - 1] == n);
        }
    }
    assert forall|a: int, b: int| 0 <= a < b < rest.len() implies name_before(rest[a], rest[b]) by {
        assert(name_before(names[a + 1], names[b + 1]));
    }
}

/// A store has at most one ascending list of its account names.
pub proof fn lemma_enumeration_unique(p: Seq<Seq<char>>, q: Seq<Seq<char>>, s: Accounts)
    requires
        enumerates(p, s),
        enumerates(q, s),
    ensures
        p == q,
    decreases p.len(),
{
    if p.len() == 0 {
        if q.len() > 0 {
            assert(q.contains(q[0]));
            assert(p.contains(q[0]));
        }
        assert(p =~= q);
    } else {
        assert(p.contains(p[0]));
        assert(q.contains(p[0]));
        let j = choose|j: int| 0 <= j < q.len() && q[j] == p[0];
        assert(q.contains(q[0]));
        assert(p.contains(q[0]));
        let i = choose|i: int| 0 <= i < p.len() && p[i] == q[0];
        if i > 0 && j > 0 {
            lemma_name_before_total(p[0], q[0]);
        }
        assert(p[0] == q[0]);
        lemma_rest_enumerates(p, s);
        lemma_rest_enumerates(q, s);
        lemma_enumeration_unique(p.drop_first(), q.drop_first(), s.remove(p[0]));
        assert(p =~= seq![p[0]] + p.drop_first());
        assert(q =~= seq![q[0]] + q.drop_first());
    }
}

/// A name put into an ascending sequence of names at its place.
pub open spec fn with_name(names: Seq<Seq<char>>, name: Seq<char>) -> Seq<Seq<char>>
    decreases names.len(),
{
    if names.len() == 0 {
        seq![name]
    } else if name_before(names.last(), name) {
        names.push(name)
    } else {
        with_name(names.drop_last(), name).push(names.last())
    }
}

/// Putting a new name at its place keeps the names ascending and adds just
/// that name.
pub proof fn lemma_with_name(names: Seq<Seq<char>>, name: Seq<char>)
    requires
        ascending(names),
        !names.contains(name),
    ensures
        ascending(with_name(names, name)),
        forall|n: Seq<char>|
            #![trigger with_name(names, name).contains(n)]
            with_name(names, name).contains(n) <==> names.contains(n) || n == name,
    decreases names.len(),
{
    let after = with_name(names, name);
    if names.len() == 0 {
        assert(after[0] == name);
        assert forall|n: Seq<char>| #![trigger after.contains(n)] after.contains(n) <==> n
            == name by {
            if after.contains(n) {
                let k = choose|k: int| 0 <= k < after.len() && after[k] == n;
            }
        }
    } else {
        let last = names.last();
        let head = names.drop_last();
        assert(names[names.len() - 1] == last);
        assert(names.contains(last));
        if name_before(last, name) {
            assert forall|i: int, j: int| 0 <= i < j < after.len() implies name_before(
                after[i],
                after[j],
            ) by {
                if j == names.len() {
                    if i < names.len() - 1 {
                        assert(name_before(names[i], names[names.len() - 1]));
                        lemma_name_before_transitive(names[i], last, name);
                    }
                } else {
                    assert(name_before(names[i], names[j]));
                }
            }
            assert forall|n: Seq<char>|
                #![trigger after.contains(n)]
                after.contains(n) <==> names.contains(n) || n == name by {
                if after.contains(n) {
                    let k = choose|k: int| 0 <= k < after.len() && after[k] == n;
                    if k < names.len() {
                        assert(names[k] == n);
                    }
                }
                if names.contains(n) {
                    let k = choose|k: int| 0 <= k < names.len() && names[k] == n;
                    assert(after[k] == n);
                }
                if n == name {
                    assert(after[after.len() - 1] == n);
                }
            }
        } else {
            lemma_name_before_total(last, name);
            assert(name_before(name, last));
            assert forall|i: int, j: int| 0 <= i < j < head.len() implies name_before(
                head[i],
                head[j],
            ) by {
                assert(name_before(names[i], names[j]));
            }
            if head.contains(name) {
                let k = choose|k: int| 0 <= k < head.len() && head[k] == name;
                assert(names[k] == name);
            }
            lemma_with_name(head, name);
            let inner = with_name(head, name);
            assert forall|i: int| 0 <= i < inner.len() implies name_before(inner[i], last) by {
                assert(inner.contains(inner[i]));
                if inner[i] != name {
                    assert(head.contains(inner[i]));
                    let k = choose|k: int| 0 <= k < head.len() && head[k] == inner[i];
                    assert(name_before(names[k], names[names.len() - 1]));
                }
            }
            assert forall|i: int, j: int| 0 <= i < j < after.len() implies name_before(
                after[i],
                after[j],
            ) by {
                if j < inner.len() {
                    assert(name_before(inner[i], inner[j]));
                }
            }
            assert forall|n: Seq<char>|
                #![trigger after.contains(n)]
                after.contains(n) <==> names.contains(n) || n == name by {
                if after.contains(n) {
                    let k = choose|k: int| 0 <= k < after.len() && after[k] == n;
                    if k < inner.len() {
                        assert(inner[k] == n);
                        assert(inner.contains(n));
                        if n != name {
                            let h = choose|h: int| 0 <= h < head.len() && head[h] == n;
                            assert(names[h] == n);
                        }
                    }
                }
                if names.contains(n) {
                    let k = choose|k: int| 0 <= k < names.len() && names[k] == n;
                    if k < head.len() {
                        assert(head[k] == n);
                        assert(head.contains(n));
                        assert(inner.contains(n));
                        let h = choose|h: int| 0 <= h < inner.len() && inner[h] == n;
                        assert(after[h] == n);
                    } else {
                        assert(after[after.len() - 1] == n);
                    }
                }
                if n == name {
                    assert(inner.contains(n));
                    let h = choose|h: int| 0 <= h < inner.len() && inner[h] == n;
                    assert(after[h] == n);
                }
            }
        }
    }
}

/// Every store with finitely many accounts has an ascending list of its
/// account names.
pub proof fn lemma_enumeration_exists(s: Accounts)
    requires
        s.dom().finite(),
    ensures
        enumerates(sorted_names(s), s),
    decreases s.dom().len(),
{
    if s.dom().len() == 0 {
        let none = Seq::<Seq<char>>::empty();
        assert forall|n: Seq<char>| none.contains(n) <==> s.contains_key(n) by {
            if s.dom().contains(n) {
                assert(s.dom().len() > 0);
            }
        }
        assert(enumerates(none, s));
    } else {
        let name = s.dom().choose();
        assert(s.dom().contains(name));
        let rest = s.remove(name);
        assert(rest.dom() =~= s.dom().remove(name));
        lemma_enumeration_exists(rest);
        let names = sorted_names(rest);
        lemma_with_name(names, name);
        let all = with_name(names, name);
        assert forall|n: Seq<char>| all.contains(n) <==> s.contains_key(n) by {
            assert(names.contains(n) <==> rest.contains_key(n));
        }
        assert(enumerates(all, s));
    }
}

/// An ascending list of a store's account names is the list of them.
pub proof fn lemma_sorted_names(names: Seq<Seq<char>>, s: Accounts)
    requires
        enumerates(names, s),
    ensures
        sorted_names(s) == names,
{
    lemma_enumeration_unique(sorted_names(s), names, s);
}

/// Stores with the same accounts have the same names in the same order, and
/// so the same listings, whatever their queues hold.
pub proof fn lemma_same_accounts(s: Accounts, t: Accounts)
    requires
        s.dom() == t.dom(),
        s.dom().finite(),
    ensures
        sorted_names(s) == sorted_names(t),
        forall|filter: Seq<char>| #[trigger] list_text(s, filter) == list_text(t, filter),
{
    lemma_enumeration_exists(s);
    let names = sorted_names(s);
    assert forall|n: Seq<char>| names.contains(n) <==> t.contains_key(n) by {
        assert(s.dom().contains(n) == t.dom().contains(n));
    }
    lemma_sorted_names(names, t);
}

/// The names that pass a filter are exactly the names given that the filter
/// matches, and they keep their order.
pub proof fn lemma_matching(names: Seq<Seq<char>>, filter: Seq<char>)
    ensures
        forall|n: Seq<char>|
            #![trigger matching(names, filter).contains(n)]
            #![trigger names.contains(n)]
            matching(names, filter).contains(n) <==> names.contains(n) && filter_matches(
                filter,
                n,
            ),
        ascending(names) ==> ascending(matching(names, filter)),
    decreases names.len(),
{
    let m = matching(names, filter);
    if names.len() > 0 {
        let head = names.drop_last();
        let last = names.last();
        let mh = matching(head, filter);
        lemma_matching(head, filter);
        assert forall|n: Seq<char>|
            #![trigger m.contains(n)]
            #![trigger names.contains(n)]
            m.contains(n) <==> names.contains(n) && filter_matches(filter, n) by {
            if m.contains(n) {
                let k = choose|k: int| 0 <= k < m.len() && m[k] == n;
                if k < mh.len() {
                    assert(mh[k] == n);
                    assert(mh.contains(n));
                    let h = choose|h: int| 0 <= h < head.len() && head[h] == n;
                    assert(names[h] == n);
                } else {
                    assert(n == last);
                    assert(names[names.len() - 1] == n);
                }
            }
            if names.contains(n) && filter_matches(filter, n) {
                let k = choose|k: int| 0 <= k < names.len() && names[k] == n;
                if k < head.len() {
                    assert(head[k] == n);
                    assert(head.contains(n));
                    assert(mh.contains(n));
                    let h = choose|h: int| 0 <= h < mh.len() && mh[h] == n;
                    assert(m[h] == n);
                } else {
                    assert(m[m.len() - 1] == n);
                }
            }
        }
        if ascending(names) {
            assert forall|a: int, b: int| 0 <= a < b < head.len() implies name_before(
                head[a],
                head[b],
            ) by {
                assert(name_before(names[a], names[b]));
            }
            assert forall|a: int, b: int| 0 <= a < b < m.len() implies name_before(m[a], m[b]) by {
                if b < mh.len() {
                    assert(name_before(mh[a], mh[b]));
                } else {
                    assert(m[b] == last);
                    assert(mh[a] == m[a]);
                    assert(mh.contains(m[a]));
                    assert(head.contains(m[a]));
                    let h = choose|h: int| 0 <= h < head.len() && head[h] == m[a];
                    assert(name_before(names[h], names[names.len() - 1]));
                }
            }
        }
    }
}

/// Two filters that let the same names through select the same names.
pub proof fn lemma_same_filter(names: Seq<Seq<char>>, f: Seq<char>, g: Seq<char>)
    requires
        forall|n: Seq<char>| filter_matches(f, n) == filter_matches(g, n),
    ensures
        matching(names, f) == matching(names, g),
    decreases names.len(),
{
    if names.len() > 0 {
        lemma_same_filter(names.drop_last(), f, g);
    }
}

/// A listing holds exactly the existing account names that the filter
/// matches, each once and in ascending order, and the empty filter lists what
/// `*` lists.
pub proof fn lemma_list_exact(s: Accounts, filter: Seq<char>)
    requires
        s.dom().finite(),
    ensures
        forall|n: Seq<char>|
            #![trigger matching(sorted_names(s), filter).contains(n)]
            matching(sorted_names(s), filter).contains(n) <==> s.contains_key(n) && filter_matches(
                filter,
                n,
            ),
        ascending(matching(sorted_names(s), filter)),
        forall|name: Seq<char>| #[trigger] filter_matches(Seq::empty(), name),
        list_text(s, Seq::empty()) == list_text(s, seq!['*']),
{
    lemma_enumeration_exists(s);
    lemma_matching(sorted_names(s), filter);
    lemma_same_filter(sorted_names(s), Seq::empty(), seq!['*']);
    assert forall|name: Seq<char>| #[trigger] filter_matches(Seq::empty(), name) by {
        lemma_empty_filter_is_star(name);
    }
}

} // verus!
