//! The remote-dispatch protocol: submit, then poll until a terminal state.
//!
//! Expensive proof computation can be delegated to a remote worker over
//! HTTP: the client submits a request, receives a job handle, and queries
//! a status endpoint at a fixed interval until the job is done or has
//! failed. The transport itself (HTTP, sleeping) lives outside this crate;
//! here is the full decision logic as a state machine, stepped once per
//! classified response. The surrounding loop performs each returned action
//! and hands the next event back.

use vstd::prelude::*;

verus! {

/// Seconds to wait between two consecutive status polls.
pub const POLL_INTERVAL_SECS: u64 = 30;

/// A remote response, classified by its tag. Payloads are carried as the
/// text of the response's JSON value.
#[derive(Clone, Debug, PartialEq, Eq)]
pub enum PollResponse {
    /// The job was accepted; the payload is the job handle.
    Started(String),
    /// The job is still running.
    Pending,
    /// The job finished; the payload is the result.
    Done(String),
    /// The remote reported a failure; the payload is its diagnostic.
    RemoteErr(String),
    /// Any tag the protocol does not know, carried verbatim.
    Other(String),
}

/// What the surrounding loop observed: a classified response, or a
/// transport failure (connection error, non-JSON body).
#[derive(Clone, Debug, PartialEq, Eq)]
pub enum DispatchEvent {
    Response(PollResponse),
    TransportFailed(String),
}

/// Why a dispatch failed, kept apart so a caller can tell a transient
/// transport fault from a remote-reported failure.
#[derive(Clone, Debug, PartialEq, Eq)]
pub enum DispatchError {
    /// The transport itself failed.
    Transport(String),
    /// The remote answered with a response the protocol does not allow in
    /// the current state; the offending response is carried whole.
    Protocol(PollResponse),
    /// The remote reported that the computation failed.
    Remote(String),
}

/// The client's state: submitting, waiting on a job handle, or terminal.
#[derive(Clone, Debug, PartialEq, Eq)]
pub enum DispatchState {
    Requesting,
    Pending(String),
    Done(String),
    Failed(DispatchError),
}

/// What the surrounding loop must do next.
#[derive(Clone, Debug, PartialEq, Eq)]
pub enum DispatchAction {
    /// Send the submit request.
    Submit,
    /// Query the status endpoint now, without waiting.
    PollNow,
    /// Wait `POLL_INTERVAL_SECS` seconds, then query the status endpoint.
    SleepThenPoll,
    /// The state is terminal; report the result or the error.
    Stop,
}

/// The full transition table of the dispatch protocol.
///
/// From `Requesting`, a started response carries the job handle and leads
/// to an immediate first poll; a done response is a same-call completion;
/// an error response fails the dispatch. From `Pending`, a pending
/// response keeps waiting (sleep, then poll again), a done response ends
/// the dispatch, and anything else fails it. Terminal states absorb every
/// further event. A transport failure in any active state fails the
/// dispatch.
pub open spec fn spec_step(state: DispatchState, event: DispatchEvent) -> (DispatchState,
    DispatchAction,
) {
    match state {
        DispatchState::Requesting => match event {
            DispatchEvent::Response(resp) => match resp {
                PollResponse::Started(id) => (
                    DispatchState::Pending(id),
                    DispatchAction::PollNow,
                ),
                PollResponse::Done(value) => (DispatchState::Done(value), DispatchAction::Stop),
                PollResponse::RemoteErr(detail) => (
                    DispatchState::Failed(DispatchError::Remote(detail)),
                    DispatchAction::Stop,
                ),
                PollResponse::Pending => (
                    DispatchState::Failed(DispatchError::Protocol(PollResponse::Pending)),
                    DispatchAction::Stop,
                ),
                PollResponse::Other(tag) => (
                    DispatchState::Failed(DispatchError::Protocol(PollResponse::Other(tag))),
                    DispatchAction::Stop,
                ),
            },
            DispatchEvent::TransportFailed(detail) => (
                DispatchState::Failed(DispatchError::Transport(detail)),
                DispatchAction::Stop,
            ),
        },
        DispatchState::Pending(id) => match event {
            DispatchEvent::Response(resp) => match resp {
                PollResponse::Pending => (
                    DispatchState::Pending(id),
                    DispatchAction::SleepThenPoll,
                ),
                PollResponse::Done(value) => (DispatchState::Done(value), DispatchAction::Stop),
                PollResponse::RemoteErr(detail) => (
                    DispatchState::Failed(DispatchError::Remote(detail)),
                    DispatchAction::Stop,
                ),
                PollResponse::Started(handle) => (
                    DispatchState::Failed(DispatchError::Protocol(PollResponse::Started(handle))),
                    DispatchAction::Stop,
                ),
                PollResponse::Other(tag) => (
                    DispatchState::Failed(DispatchError::Protocol(PollResponse::Other(tag))),
                    DispatchAction::Stop,
                ),
            },
            DispatchEvent::TransportFailed(detail) => (
                DispatchState::Failed(DispatchError::Transport(detail)),
                DispatchAction::Stop,
            ),
        },
        DispatchState::Done(value) => (DispatchState::Done(value), DispatchAction::Stop),
        DispatchState::Failed(error) => (DispatchState::Failed(error), DispatchAction::Stop),
    }
}

/// True of the two states a dispatch can end in.
pub open spec fn spec_terminal(state: DispatchState) -> bool {
    state is Done || state is Failed
}

/// The state a fresh dispatch starts in; the loop's first action is to
/// submit the request.
pub fn initial_state() -> (s: DispatchState)
    ensures
        s == DispatchState::Requesting,
{
    DispatchState::Requesting
}

/// Step the machine once on an observed event.
pub fn dispatch_step(state: DispatchState, event: DispatchEvent) -> (r: (
    DispatchState,
    DispatchAction,
))
    ensures
        r == spec_step(state, event),
{
    match state {
        DispatchState::Requesting => match event {
            DispatchEvent::Response(resp) => match resp {
                PollResponse::Started(id) => (
                    DispatchState::Pending(id),
                    DispatchAction::PollNow,
                ),
                PollResponse::Done(value) => (DispatchState::Done(value), DispatchAction::Stop),
                PollResponse::RemoteErr(detail) => (
                    DispatchState::Failed(DispatchError::Remote(detail)),
                    DispatchAction::Stop,
                ),
                PollResponse::Pending => (
                    DispatchState::Failed(DispatchError::Protocol(PollResponse::Pending)),
                    DispatchAction::Stop,
                ),
                PollResponse::Other(tag) => (
                    DispatchState::Failed(DispatchError::Protocol(PollResponse::Other(tag))),
                    DispatchAction::Stop,
                ),
            },
            DispatchEvent::TransportFailed(detail) => (
                DispatchState::Failed(DispatchError::Transport(detail)),
                DispatchAction::Stop,
            ),
        },
        DispatchState::Pending(id) => match event {
            DispatchEvent::Response(resp) => match resp {
                PollResponse::Pending => (
                    DispatchState::Pending(id),
                    DispatchAction::SleepThenPoll,
                ),
                PollResponse::Done(value) => (DispatchState::Done(value), DispatchAction::Stop),
                PollResponse::RemoteErr(detail) => (
                    DispatchState::Failed(DispatchError::Remote(detail)),
                    DispatchAction::Stop,
                ),
                PollResponse::Started(handle) => (
                    DispatchState::Failed(DispatchError::Protocol(PollResponse::Started(handle))),
                    DispatchAction::Stop,
                ),
                PollResponse::Other(tag) => (
                    DispatchState::Failed(DispatchError::Protocol(PollResponse::Other(tag))),
                    DispatchAction::Stop,
                ),
            },
            DispatchEvent::TransportFailed(detail) => (
                DispatchState::Failed(DispatchError::Transport(detail)),
                DispatchAction::Stop,
            ),
        },
        DispatchState::Done(value) => (DispatchState::Done(value), DispatchAction::Stop),
        DispatchState::Failed(error) => (DispatchState::Failed(error), DispatchAction::Stop),
    }
}

/// Report whether the dispatch has reached a terminal state.
pub fn is_terminal(state: &DispatchState) -> (r: bool)
    ensures
        r == spec_terminal(*state),
{
    match state {
        DispatchState::Done(_) => true,
        DispatchState::Failed(_) => true,
        _ => false,
    }
}

/// A terminal state absorbs every further event, and asks the loop to
/// stop: once done or failed, a dispatch's outcome never changes.
pub proof fn lemma_terminal_absorbs(state: DispatchState, event: DispatchEvent)
    requires
        spec_terminal(state),
    ensures
        spec_step(state, event).0 == state,
        spec_step(state, event).1 == DispatchAction::Stop,
{
}

/// The machine asks for a poll only while it is waiting on a job, and
/// never asks to wait before the first poll of a job: the immediate poll
/// follows acceptance, and the sleeping poll follows a pending answer.
pub proof fn lemma_poll_only_while_pending(state: DispatchState, event: DispatchEvent)
    ensures
        spec_step(state, event).1 == DispatchAction::PollNow ==> state is Requesting && spec_step(
            state,
            event,
        ).0 is Pending,
        spec_step(state, event).1 == DispatchAction::SleepThenPoll ==> state is Pending
            && spec_step(state, event).0 == state,
{
}

} // verus!
