//! What holds of every account store, whatever keeps it: the laws of the
//! five operations, stated over the mapping from names to queues.

use vstd::prelude::*;
use crate::store::{
    apply, create_step, delete_step, deliver_step, send_step, Accounts, Operation, StoreErrorView,
};
use crate::text::join_lines;

verus! {

/// The store after a run of `send`s to one account, in the order given.
pub open spec fn send_all(s: Accounts, name: Seq<char>, texts: Seq<Seq<char>>) -> Accounts
    decreases texts.len(),
{
    if texts.len() == 0 {
        s
    } else {
        send_step(send_all(s, name, texts.drop_last()), name, texts.last()).0
    }
}

/// Creating an account and deleting it again leaves the store as it was.
/// The one store of which this does not hold is left out: where the account
/// exists already with an empty queue, `create` fails and `delete` removes the
/// account that was there before.
pub proof fn lemma_create_then_delete(s: Accounts, name: Seq<char>)
    requires
        !s.contains_key(name) || s[name].len() > 0,
    ensures
        delete_step(create_step(s, name).0, name).0 == s,
        !s.contains_key(name) ==> create_step(s, name).1 is Ok && delete_step(
            create_step(s, name).0,
            name,
        ).1 is Ok,
{
    if !s.contains_key(name) {
        assert(s.insert(name, Seq::empty()).remove(name) =~= s);
    }
}

/// A run of `send`s to an existing account keeps every other account as it
/// was and puts the texts, in the order sent, behind what the queue held.
pub proof fn lemma_send_all(s: Accounts, name: Seq<char>, texts: Seq<Seq<char>>)
    requires
        s.contains_key(name),
    ensures
        send_all(s, name, texts) == s.insert(name, s[name] + texts),
    decreases texts.len(),
{
    if texts.len() == 0 {
        assert(s[name] + texts =~= s[name]);
        assert(s.insert(name, s[name]) =~= s);
    } else {
        let head = texts.drop_last();
        lemma_send_all(s, name, head);
        assert((s[name] + head).push(texts.last()) =~= s[name] + texts);
        assert(s.insert(name, s[name] + head).insert(name, s[name] + texts) =~= s.insert(
            name,
            s[name] + texts,
        ));
    }
}

/// After any run of `send`s to an existing account, `deliver` returns what
/// the queue held before followed by exactly the texts sent, in the order
/// sent, and a second `deliver` right after it returns nothing.
pub proof fn lemma_send_then_deliver(s: Accounts, name: Seq<char>, texts: Seq<Seq<char>>)
    requires
        s.contains_key(name),
    ensures
        deliver_step(send_all(s, name, texts), name).1 == Ok::<Seq<char>, StoreErrorView>(
            join_lines(s[name] + texts),
        ),
        s[name].len() == 0 ==> deliver_step(send_all(s, name, texts), name).1 == Ok::<
            Seq<char>,
            StoreErrorView,
        >(join_lines(texts)),
        deliver_step(deliver_step(send_all(s, name, texts), name).0, name).1 == Ok::<
            Seq<char>,
            StoreErrorView,
        >(Seq::empty()),
{
    lemma_send_all(s, name, texts);
    if s[name].len() == 0 {
        assert(s[name] + texts =~= texts);
    }
}

/// `delete` fails with `AccountNotEmpty` exactly when the account exists and
/// its queue holds a text, and with `NoSuchAccount` exactly when the account
/// does not exist; in every other case it succeeds and the account is gone,
/// all others staying as they were.
pub proof fn lemma_delete_outcome(s: Accounts, name: Seq<char>)
    ensures
        delete_step(s, name).1 == Err::<Seq<char>, StoreErrorView>(
            StoreErrorView::AccountNotEmpty,
        ) <==> s.contains_key(name) && s[name].len() > 0,
        delete_step(s, name).1 == Err::<Seq<char>, StoreErrorView>(StoreErrorView::NoSuchAccount)
            <==> !s.contains_key(name),
        delete_step(s, name).1 is Ok <==> s.contains_key(name) && s[name].len() == 0,
        delete_step(s, name).1 is Ok ==> delete_step(s, name).0 == s.remove(name),
        delete_step(s, name).1 is Err ==> delete_step(s, name).0 == s,
{
}

/// The store after a run of operations, taken one after the other.
pub open spec fn run(s: Accounts, ops: Seq<Operation>) -> Accounts
    decreases ops.len(),
{
    if ops.len() == 0 {
        s
    } else {
        apply(run(s, ops.drop_last()), ops.last()).0
    }
}

/// Whether an operation creates or deletes the account `name`.
pub open spec fn touches_existence(op: Operation, name: Seq<char>) -> bool {
    op == Operation::Create(name) || op == Operation::Delete(name)
}

/// The texts sent to `name` in a run of operations, in the order sent.
pub open spec fn sent_to(ops: Seq<Operation>, name: Seq<char>) -> Seq<Seq<char>>
    decreases ops.len(),
{
    if ops.len() == 0 {
        Seq::empty()
    } else {
        match ops.last() {
            Operation::Send(to, text) if to == name => sent_to(ops.drop_last(), name).push(text),
            _ => sent_to(ops.drop_last(), name),
        }
    }
}

/// The texts that the `deliver`s for `name` took out of the store in a run of
/// operations starting from `s`, in the order in which they left.
pub open spec fn delivered_to(s: Accounts, ops: Seq<Operation>, name: Seq<char>) -> Seq<
    Seq<char>,
>
    decreases ops.len(),
{
    if ops.len() == 0 {
        Seq::empty()
    } else {
        let before = run(s, ops.drop_last());
        match ops.last() {
            Operation::Deliver(to) if to == name && before.contains_key(name) => delivered_to(
                s,
                ops.drop_last(),
                name,
            ) + before[name],
            _ => delivered_to(s, ops.drop_last(), name),
        }
    }
}

/// Sends to different accounts do not interfere: in either order they leave
/// the same store and have the same outcomes.
pub proof fn lemma_sends_commute(
    s: Accounts,
    a: Seq<char>,
    text_a: Seq<char>,
    b: Seq<char>,
    text_b: Seq<char>,
)
    requires
        a != b,
    ensures
        send_step(send_step(s, a, text_a).0, b, text_b).0 == send_step(
            send_step(s, b, text_b).0,
            a,
            text_a,
        ).0,
        send_step(send_step(s, b, text_b).0, a, text_a).1 == send_step(s, a, text_a).1,
        send_step(send_step(s, a, text_a).0, b, text_b).1 == send_step(s, b, text_b).1,
{
    assert(send_step(send_step(s, a, text_a).0, b, text_b).0 =~= send_step(
        send_step(s, b, text_b).0,
        a,
        text_a,
    ).0);
}

/// In whatever order operations on a store follow each other, no text sent to
/// an account is lost, doubled or moved: as long as the account is neither
/// created nor deleted on the way, what its `deliver`s returned, followed by
/// what its queue still holds, is what the queue held at first followed by
/// the texts sent to it, in the order sent.
pub proof fn lemma_nothing_lost(s: Accounts, ops: Seq<Operation>, name: Seq<char>)
    requires
        s.contains_key(name),
        forall|i: int| 0 <= i < ops.len() ==> !touches_existence(#[trigger] ops[i], name),
    ensures
        run(s, ops).contains_key(name),
        delivered_to(s, ops, name) + run(s, ops)[name] == s[name] + sent_to(ops, name),
    decreases ops.len(),
{
    if ops.len() == 0 {
        assert(delivered_to(s, ops, name) + run(s, ops)[name] =~= s[name] + sent_to(ops, name));
    } else {
        let head = ops.drop_last();
        let op = ops.last();
        assert(!touches_existence(ops[ops.len() - 1], name));
        assert forall|i: int| 0 <= i < head.len() implies !touches_existence(
            #[trigger] head[i],
            name,
        ) by {
            assert(head[i] == ops[i]);
        }
        lemma_nothing_lost(s, head, name);
        let before = run(s, head);
        let d = delivered_to(s, head, name);
        let sent = sent_to(head, name);
        assert(d + before[name] == s[name] + sent);
        match op {
            Operation::Send(to, text) => {
                if to == name {
                    assert(d + before[name].push(text) =~= (d + before[name]).push(text));
                    assert((s[name] + sent).push(text) =~= s[name] + sent.push(text));
                }
            },
            Operation::Deliver(to) => {
                if to == name {
                    assert((d + before[name]) + Seq::<Seq<char>>::empty() =~= d + before[name]);
                }
            },
            _ => {},
        }
    }
}

} // verus!
