use participant_registry::outcome::Status;
use participant_registry::request::{RequestEvent, RequestState};

const STATES: [RequestState; 7] = [
    RequestState::Received,
    RequestState::Authorizing,
    RequestState::Forbidden,
    RequestState::Authorized,
    RequestState::Executing,
    RequestState::Succeeded,
    RequestState::Failed,
];

const EVENTS: [RequestEvent; 6] = [
    RequestEvent::ClaimsPresented,
    RequestEvent::Denied,
    RequestEvent::Allowed,
    RequestEvent::Started,
    RequestEvent::Completed,
    RequestEvent::Errored,
];

#[test]
fn a_refused_request_ends_after_authorization() {
    let s = RequestState::Received;
    let s = s.advance(RequestEvent::ClaimsPresented).unwrap();
    assert_eq!(s, RequestState::Authorizing);
    let s = s.advance(RequestEvent::Denied).unwrap();
    assert_eq!(s, RequestState::Forbidden);
    assert!(s.terminal());
}

#[test]
fn an_allowed_request_runs_to_success_or_failure() {
    let s = RequestState::Received.advance(RequestEvent::ClaimsPresented).unwrap();
    let s = s.advance(RequestEvent::Allowed).unwrap();
    assert_eq!(s, RequestState::Authorized);
    let s = s.advance(RequestEvent::Started).unwrap();
    assert_eq!(s, RequestState::Executing);
    assert!(!s.terminal());
    assert_eq!(s.advance(RequestEvent::Completed), Some(RequestState::Succeeded));
    assert_eq!(s.advance(RequestEvent::Errored), Some(RequestState::Failed));
}

#[test]
fn terminal_states_accept_no_event() {
    for state in [RequestState::Forbidden, RequestState::Succeeded, RequestState::Failed] {
        assert!(state.terminal());
        for event in EVENTS {
            assert_eq!(state.advance(event), None);
        }
    }
}

#[test]
fn exactly_six_transitions_exist() {
    let mut count = 0;
    for state in STATES {
        for event in EVENTS {
            if let Some(next) = state.advance(event) {
                count += 1;
                assert_ne!(next, state);
                assert_ne!(next, RequestState::Received);
            }
        }
    }
    assert_eq!(count, 6);
}

#[test]
fn execution_cannot_start_without_authorization() {
    assert_eq!(RequestState::Received.advance(RequestEvent::Started), None);
    assert_eq!(RequestState::Authorizing.advance(RequestEvent::Started), None);
    assert_eq!(RequestState::Received.advance(RequestEvent::Allowed), None);
    assert_eq!(RequestState::Authorized.advance(RequestEvent::Completed), None);
}

#[test]
fn every_status_has_its_terminal_state() {
    assert_eq!(RequestState::of_status(Status::Success), RequestState::Succeeded);
    assert_eq!(RequestState::of_status(Status::Forbidden), RequestState::Forbidden);
    assert_eq!(RequestState::of_status(Status::NotFound), RequestState::Failed);
    assert_eq!(RequestState::of_status(Status::InternalFailure), RequestState::Failed);
}

#[test]
fn traces_run_from_received_to_the_end() {
    assert_eq!(
        RequestState::trace(Status::Forbidden),
        [RequestState::Received, RequestState::Authorizing, RequestState::Forbidden]
    );
    assert_eq!(
        RequestState::trace(Status::Success),
        [
            RequestState::Received,
            RequestState::Authorizing,
            RequestState::Authorized,
            RequestState::Executing,
            RequestState::Succeeded
        ]
    );
    for status in [Status::NotFound, Status::InternalFailure] {
        let trace = RequestState::trace(status);
        assert_eq!(trace.len(), 5);
        assert_eq!(trace[4], RequestState::Failed);
    }
    for status in [Status::Success, Status::Forbidden, Status::NotFound, Status::InternalFailure] {
        let trace = RequestState::trace(status);
        for pair in trace.windows(2) {
            assert!(EVENTS.iter().any(|e| pair[0].advance(*e) == Some(pair[1])));
        }
        assert!(trace[trace.len() - 1].terminal());
    }
}
