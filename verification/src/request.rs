use vstd::prelude::*;
use crate::outcome::Status;

verus! {

/// Where a request stands. Each request runs on its own, from `Received`
/// to one of the three terminal states, and never back.
#[derive(Clone, Copy, Debug, PartialEq, Eq, Structural)]
pub enum RequestState {
    Received,
    Authorizing,
    Forbidden,
    Authorized,
    Executing,
    Succeeded,
    Failed,
}

/// What moves a request on.
#[derive(Clone, Copy, Debug, PartialEq, Eq, Structural)]
pub enum RequestEvent {
    /// The claims were handed to the scope resolver.
    ClaimsPresented,
    /// The resolver denied the operation.
    Denied,
    /// The resolver allowed the operation.
    Allowed,
    /// The operation was handed to the record store.
    Started,
    /// The operation was carried out.
    Completed,
    /// The operation failed.
    Errored,
}

impl RequestState {
    /// Whether the request is over.
    pub open spec fn is_terminal(self) -> bool {
        self == RequestState::Forbidden || self == RequestState::Succeeded || self
            == RequestState::Failed
    }

    /// How far the request has come: the number of steps from `Received`.
    pub open spec fn stage(self) -> nat {
        match self {
            RequestState::Received => 0,
            RequestState::Authorizing => 1,
            RequestState::Forbidden => 2,
            RequestState::Authorized => 2,
            RequestState::Executing => 3,
            RequestState::Succeeded => 4,
            RequestState::Failed => 4,
        }
    }

    /// The state that an event leads to, or `None` where the event cannot
    /// happen in this state.
    pub open spec fn successor(self, event: RequestEvent) -> Option<RequestState> {
        match (self, event) {
            (RequestState::Received, RequestEvent::ClaimsPresented) => Some(
                RequestState::Authorizing,
            ),
            (RequestState::Authorizing, RequestEvent::Denied) => Some(RequestState::Forbidden),
            (RequestState::Authorizing, RequestEvent::Allowed) => Some(RequestState::Authorized),
            (RequestState::Authorized, RequestEvent::Started) => Some(RequestState::Executing),
            (RequestState::Executing, RequestEvent::Completed) => Some(RequestState::Succeeded),
            (RequestState::Executing, RequestEvent::Errored) => Some(RequestState::Failed),
            _ => None,
        }
    }

    /// The terminal state behind a status: a refusal ends in `Forbidden`, a
    /// success in `Succeeded`, and a record not found or an internal failure
    /// in `Failed`.
    pub open spec fn behind(status: Status) -> RequestState {
        match status {
            Status::Success => RequestState::Succeeded,
            Status::Forbidden => RequestState::Forbidden,
            Status::NotFound => RequestState::Failed,
            Status::InternalFailure => RequestState::Failed,
        }
    }

    /// Whether the request is over.
    pub fn terminal(self) -> (over: bool)
        ensures
            over == self.is_terminal(),
    {
        match self {
            RequestState::Forbidden | RequestState::Succeeded | RequestState::Failed => true,
            _ => false,
        }
    }

    /// Moves the request on by one event, or refuses the event.
    pub fn advance(self, event: RequestEvent) -> (next: Option<RequestState>)
        ensures
            next == self.successor(event),
    {
        match (self, event) {
            (RequestState::Received, RequestEvent::ClaimsPresented) => Some(
                RequestState::Authorizing,
            ),
            (RequestState::Authorizing, RequestEvent::Denied) => Some(RequestState::Forbidden),
            (RequestState::Authorizing, RequestEvent::Allowed) => Some(RequestState::Authorized),
            (RequestState::Authorized, RequestEvent::Started) => Some(RequestState::Executing),
            (RequestState::Executing, RequestEvent::Completed) => Some(RequestState::Succeeded),
            (RequestState::Executing, RequestEvent::Errored) => Some(RequestState::Failed),
            _ => None,
        }
    }

    /// The state in which a request with the given status ended.
    pub fn of_status(status: Status) -> (state: RequestState)
        ensures
            state == RequestState::behind(status),
            state.is_terminal(),
    {
        match status {
            Status::Success => RequestState::Succeeded,
            Status::Forbidden => RequestState::Forbidden,
            Status::NotFound | Status::InternalFailure => RequestState::Failed,
        }
    }

    /// The states that a request with the given status passed through,
    /// from `Received` to its end.
    pub open spec fn run_to(status: Status) -> Seq<RequestState> {
        match status {
            Status::Forbidden => seq![
                RequestState::Received,
                RequestState::Authorizing,
                RequestState::Forbidden,
            ],
            Status::Success => seq![
                RequestState::Received,
                RequestState::Authorizing,
                RequestState::Authorized,
                RequestState::Executing,
                RequestState::Succeeded,
            ],
            _ => seq![
                RequestState::Received,
                RequestState::Authorizing,
                RequestState::Authorized,
                RequestState::Executing,
                RequestState::Failed,
            ],
        }
    }

    /// The states that a request with the given status passed through.
    pub fn trace(status: Status) -> (states: Vec<RequestState>)
        ensures
            states@ == RequestState::run_to(status),
    {
        let mut states: Vec<RequestState> = Vec::new();
        states.push(RequestState::Received);
        states.push(RequestState::Authorizing);
        match status {
            Status::Forbidden => {
                states.push(RequestState::Forbidden);
            },
            _ => {
                states.push(RequestState::Authorized);
                states.push(RequestState::Executing);
                states.push(RequestState::of_status(status));
            },
        }
        assert(states@ =~= RequestState::run_to(status));
        states
    }

    /// The run behind a status starts at `Received`, takes one legal step
    /// at a time, and ends in the terminal state of that status.
    pub proof fn runs_are_legal(status: Status, i: int)
        requires
            0 <= i < RequestState::run_to(status).len() - 1,
        ensures
            RequestState::run_to(status)[0] == RequestState::Received,
            RequestState::run_to(status).last() == RequestState::behind(status),
            exists|event: RequestEvent| #[trigger]
                RequestState::run_to(status)[i].successor(event) == Some(
                    RequestState::run_to(status)[i + 1],
                ),
    {
        let run = RequestState::run_to(status);
        let event = match run[i + 1] {
            RequestState::Authorizing => RequestEvent::ClaimsPresented,
            RequestState::Forbidden => RequestEvent::Denied,
            RequestState::Authorized => RequestEvent::Allowed,
            RequestState::Executing => RequestEvent::Started,
            RequestState::Succeeded => RequestEvent::Completed,
            _ => RequestEvent::Errored,
        };
        assert(run[i].successor(event) == Some(run[i + 1]));
    }

    /// Every step takes a request forward: no event leads back, or leaves
    /// the request where it was.
    pub proof fn steps_go_forward(self, event: RequestEvent)
        ensures
            self.successor(event) matches Some(next) ==> next.stage() > self.stage(),
    {
    }

    /// A request that is over stays as it is: no event moves it.
    pub proof fn terminal_states_are_final(self, event: RequestEvent)
        requires
            self.is_terminal(),
        ensures
            self.successor(event) is None,
    {
    }

    /// A request that is not over can always move on.
    pub proof fn other_states_move_on(self)
        requires
            !self.is_terminal(),
        ensures
            exists|event: RequestEvent| #[trigger] self.successor(event) is Some,
    {
        match self {
            RequestState::Received => {
                assert(self.successor(RequestEvent::ClaimsPresented) is Some);
            },
            RequestState::Authorizing => {
                assert(self.successor(RequestEvent::Denied) is Some);
            },
            RequestState::Authorized => {
                assert(self.successor(RequestEvent::Started) is Some);
            },
            _ => {
                assert(self.successor(RequestEvent::Completed) is Some);
            },
        }
    }

    /// A refusal is reached without the record store ever being started.
    pub proof fn refusal_comes_before_execution(self, event: RequestEvent)
        requires
            self.successor(event) == Some(RequestState::Forbidden),
        ensures
            self == RequestState::Authorizing,
            self.stage() < RequestState::Executing.stage(),
    {
    }
}

} // verus!
