//! The connection handler: one request in, one response out, against a store.

use vstd::prelude::*;
use crate::store::{
    apply, outcome_view, AccountStore, Accounts, Operation, OutcomeView, StoreError,
};
use crate::volatile::VolatileStore;
use crate::wire::{Message, MessageView, ProtocolError};

verus! {

/// The response that reports a store outcome: the payload on success, the
/// error's text on failure.
pub open spec fn response_of(outcome: OutcomeView) -> MessageView {
    match outcome {
        Ok(text) => MessageView::Response(Ok(text)),
        Err(e) => MessageView::Response(Err(e.message())),
    }
}

/// The store operation that a request asks for; a response asks for none.
pub open spec fn operation_of(request: MessageView) -> Option<Operation> {
    match request {
        MessageView::Create(name) => Some(Operation::Create(name)),
        MessageView::List(filter) => Some(Operation::List(filter)),
        MessageView::Send(name, text) => Some(Operation::Send(name, text)),
        MessageView::Deliver(name) => Some(Operation::Deliver(name)),
        MessageView::Delete(name) => Some(Operation::Delete(name)),
        MessageView::Response(_) => None,
    }
}

/// One turn of the handler over the mapping that a store stands for: the
/// mapping afterwards, and the response to write or the error that ends the
/// connection.
pub open spec fn handle_step(s: Accounts, request: MessageView) -> (
    Accounts,
    Result<MessageView, ProtocolError>,
) {
    match operation_of(request) {
        Some(op) => (apply(s, op).0, Ok(response_of(apply(s, op).1))),
        None => (s, Err(ProtocolError::UnexpectedMessage)),
    }
}

/// The outcome of an executable handler turn, as contracts see it.
pub open spec fn handled_view(r: Result<Message, ProtocolError>) -> Result<
    MessageView,
    ProtocolError,
> {
    match r {
        Ok(m) => Ok(m@),
        Err(e) => Err(e),
    }
}

/// Wraps a store outcome into the response message for the client.
pub fn respond(outcome: Result<String, StoreError>) -> (r: Message)
    ensures
        r@ == response_of(outcome_view(outcome)),
{
    match outcome {
        Ok(text) => Message::Response(Ok(text)),
        Err(e) => Message::Response(Err(e.message())),
    }
}

/// Handles one request against a store: performs the matching operation and
/// reports its outcome as a response. A response arriving as a request is a
/// protocol error and leaves the store untouched.
pub fn handle<S: AccountStore>(store: &mut S, request: &Message) -> (r: Result<
    Message,
    ProtocolError,
>)
    requires
        old(store).inv(),
    ensures
        final(store).inv(),
        match operation_of(request@) {
            Some(op) => exists|outcome: OutcomeView|
                #![trigger old(store).allows(final(store), op, outcome)]
                old(store).allows(final(store), op, outcome) && handled_view(r) == Ok::<
                    MessageView,
                    ProtocolError,
                >(response_of(outcome)),
            None => *final(store) == *old(store) && handled_view(r) == Err::<
                MessageView,
                ProtocolError,
            >(ProtocolError::UnexpectedMessage),
        },
{
    let outcome = match request {
        Message::Create(name) => store.create(name.as_str()),
        Message::List(filter) => store.list(filter.as_str()),
        Message::Send(name, text) => store.send(name.as_str(), text.as_str()),
        Message::Deliver(name) => store.deliver(name.as_str()),
        Message::Delete(name) => store.delete(name.as_str()),
        Message::Response(_) => {
            return Err(ProtocolError::UnexpectedMessage);
        },
    };
    Ok(respond(outcome))
}

/// Handles one request against the volatile store. What the store is
/// afterwards and what is answered are exactly those of [`handle_step`].
pub fn handle_volatile(store: &mut VolatileStore, request: &Message) -> (r: Result<
    Message,
    ProtocolError,
>)
    requires
        old(store).wf(),
    ensures
        final(store).wf(),
        (final(store)@, handled_view(r)) == handle_step(old(store)@, request@),
{
    handle(store, request)
}

/// The client's reading of what came back from the server: the payload or the
/// error text of a response; anything else is a protocol error.
pub open spec fn reply_of(message: MessageView) -> Result<
    Result<Seq<char>, Seq<char>>,
    ProtocolError,
> {
    match message {
        MessageView::Response(outcome) => Ok(outcome),
        _ => Err(ProtocolError::UnexpectedMessage),
    }
}

/// The outcome of [`expect_response`], as contracts see it.
pub open spec fn reply_view(r: Result<Result<String, String>, ProtocolError>) -> Result<
    Result<Seq<char>, Seq<char>>,
    ProtocolError,
> {
    match r {
        Ok(Ok(text)) => Ok(Ok(text@)),
        Ok(Err(text)) => Ok(Err(text@)),
        Err(e) => Err(e),
    }
}

/// Takes the outcome out of a response. A request arriving where a response
/// was expected is a protocol error.
pub fn expect_response(message: Message) -> (r: Result<Result<String, String>, ProtocolError>)
    ensures
        reply_view(r) == reply_of(message@),
{
    match message {
        Message::Response(outcome) => Ok(outcome),
        _ => Err(ProtocolError::UnexpectedMessage),
    }
}

} // verus!
