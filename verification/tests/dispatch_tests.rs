use sector_marshal::dispatch::dispatch_step;
use sector_marshal::dispatch::initial_state;
use sector_marshal::dispatch::is_terminal;
use sector_marshal::dispatch::DispatchAction;
use sector_marshal::dispatch::DispatchError;
use sector_marshal::dispatch::DispatchEvent;
use sector_marshal::dispatch::DispatchState;
use sector_marshal::dispatch::PollResponse;
use sector_marshal::dispatch::POLL_INTERVAL_SECS;

fn response(r: PollResponse) -> DispatchEvent {
    DispatchEvent::Response(r)
}

#[test]
fn submit_then_two_polls_with_a_sleep_between() {
    // The remote accepts the job, reports pending once, then done.
    let state = initial_state();
    assert!(!is_terminal(&state));
    let mut polls = 0;
    let mut slept_between_polls = false;

    let (state, action) = dispatch_step(state, response(PollResponse::Started("job-1".into())));
    assert_eq!(state, DispatchState::Pending("job-1".into()));
    assert_eq!(action, DispatchAction::PollNow);
    polls += 1; // first status query, issued without waiting

    let (state, action) = dispatch_step(state, response(PollResponse::Pending));
    assert_eq!(state, DispatchState::Pending("job-1".into()));
    assert_eq!(action, DispatchAction::SleepThenPoll);
    slept_between_polls = true; // the loop waits the full interval here
    polls += 1; // second status query

    let (state, action) = dispatch_step(
        state,
        response(PollResponse::Done("{\"value\":42}".into())),
    );
    assert_eq!(action, DispatchAction::Stop);
    assert_eq!(state, DispatchState::Done("{\"value\":42}".into()));
    assert!(is_terminal(&state));
    assert_eq!(polls, 2);
    assert!(slept_between_polls);
    assert_eq!(POLL_INTERVAL_SECS, 30);
}

#[test]
fn remote_error_at_submit_fails_without_polling() {
    let state = initial_state();
    let (state, action) = dispatch_step(
        state,
        response(PollResponse::RemoteErr("bad input".into())),
    );
    assert_eq!(action, DispatchAction::Stop);
    assert_eq!(
        state,
        DispatchState::Failed(DispatchError::Remote("bad input".into()))
    );
    assert!(is_terminal(&state));
}

#[test]
fn same_call_completion_at_submit() {
    let (state, action) = dispatch_step(
        initial_state(),
        response(PollResponse::Done("{\"ok\":true}".into())),
    );
    assert_eq!(state, DispatchState::Done("{\"ok\":true}".into()));
    assert_eq!(action, DispatchAction::Stop);
}

#[test]
fn pending_answer_to_a_submit_is_a_protocol_violation() {
    let (state, action) = dispatch_step(initial_state(), response(PollResponse::Pending));
    assert_eq!(
        state,
        DispatchState::Failed(DispatchError::Protocol(PollResponse::Pending))
    );
    assert_eq!(action, DispatchAction::Stop);
}

#[test]
fn started_answer_to_a_poll_is_a_protocol_violation() {
    let state = DispatchState::Pending("job-9".into());
    let (state, action) = dispatch_step(state, response(PollResponse::Started("job-9".into())));
    assert_eq!(
        state,
        DispatchState::Failed(DispatchError::Protocol(PollResponse::Started(
            "job-9".into()
        )))
    );
    assert_eq!(action, DispatchAction::Stop);
}

#[test]
fn unknown_tag_while_pending_fails_the_dispatch() {
    let state = DispatchState::Pending("job-2".into());
    let (state, _) = dispatch_step(state, response(PollResponse::Other("Cancelled".into())));
    assert_eq!(
        state,
        DispatchState::Failed(DispatchError::Protocol(PollResponse::Other(
            "Cancelled".into()
        )))
    );
}

#[test]
fn transport_failure_fails_the_dispatch() {
    let (state, action) = dispatch_step(
        initial_state(),
        DispatchEvent::TransportFailed("connection refused".into()),
    );
    assert_eq!(
        state,
        DispatchState::Failed(DispatchError::Transport("connection refused".into()))
    );
    assert_eq!(action, DispatchAction::Stop);

    let pending = DispatchState::Pending("job-3".into());
    let (state, _) = dispatch_step(pending, DispatchEvent::TransportFailed("timed out".into()));
    assert_eq!(
        state,
        DispatchState::Failed(DispatchError::Transport("timed out".into()))
    );
}

#[test]
fn terminal_states_absorb_further_events() {
    let done = DispatchState::Done("{\"value\":1}".into());
    let (state, action) = dispatch_step(done.clone(), response(PollResponse::Pending));
    assert_eq!(state, done);
    assert_eq!(action, DispatchAction::Stop);

    let failed = DispatchState::Failed(DispatchError::Remote("oops".into()));
    let (state, action) = dispatch_step(
        failed.clone(),
        response(PollResponse::Done("{\"value\":2}".into())),
    );
    assert_eq!(state, failed);
    assert_eq!(action, DispatchAction::Stop);
}
