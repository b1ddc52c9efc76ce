//! The proxy as a state machine.
//!
//! Handling a request alternates between deciding and waiting: for the
//! chain to report a balance, for the backend to answer. The deciding is
//! done here, one step at a time. Whoever drives the machine hands it what
//! happened and carries out what it asks for.
//!
//! The machine holds on to the request while the balance is looked up and
//! gives it out again, as it came in, only to be forwarded. It looks into
//! neither the request nor the backend's response: both are values of a
//! type of the driver's choosing, `R` and `T` below.

use crate::policy::{
    admission, admit_locally, is_key, validate_account_requirements, verdict_of, Admission,
    AdmissionView, Claim, ClaimView, RequestHead, Verdict,
};
use crate::polkadot::{balance, balance_of, AccountLookup};
use crate::reason::{reason_text, BackendFailure, DenyReason};
use crate::reply::{accepted, accepted_reply, bad_request_reply, denial, Reply, ReplyView};
use vstd::prelude::*;
use vstd::string::*;

verus! {

/// What the proxy is configured with.
#[derive(Debug, Clone, PartialEq, Eq)]
pub struct Settings {
    /// The endpoint of the chain node that is asked for balances.
    pub chain_rpc: String,
    /// The least free balance that an account must hold.
    pub token_min: u128,
}

/// How forwarding a request to the backend ended.
#[derive(Debug, Clone, PartialEq, Eq)]
pub enum ForwardOutcome<T> {
    /// No connection to the backend could be set up.
    ConnectFailed,
    /// The request could not be sent over the connection.
    SendFailed,
    /// The backend answered.
    Responded(T),
}

/// Where the handling of a request stands.
#[derive(Debug, Clone, PartialEq, Eq)]
pub enum Stage<R> {
    /// Nothing has been decided yet.
    Idle,
    /// The chain has been asked for the balance of the account. The request
    /// is kept until the balance is known.
    AwaitingBalance(R),
    /// The request has been given out to be forwarded.
    AwaitingBackend,
    /// The client has its answer.
    Done,
}

/// What happened.
#[derive(Debug, Clone, PartialEq, Eq)]
pub enum Event<R, T> {
    /// A request came in: what the policy reads of it, and the request.
    Request(RequestHead, R),
    /// The query for the account's entry came back.
    Balance(AccountLookup),
    /// Forwarding to the backend ended.
    Backend(ForwardOutcome<T>),
}

/// What is to be done next.
#[derive(Debug, Clone, PartialEq, Eq)]
pub enum Action<R, T> {
    /// Ask the chain for the entry of this account.
    QueryBalance(Claim),
    /// Send this request to the backend.
    Forward(R),
    /// Send this response to the client.
    Respond(Reply),
    /// Send the backend's response to the client.
    Relay(T),
    /// The event does not belong to the stage: nothing is to be done.
    Ignore,
}

/// What an `Action` stands for.
pub ghost enum ActionView<R, T> {
    QueryBalance(ClaimView),
    Forward(R),
    Respond(ReplyView),
    Relay(T),
    Ignore,
}

impl<R, T> View for Action<R, T> {
    type V = ActionView<R, T>;

    open spec fn view(&self) -> ActionView<R, T> {
        match self {
            Action::QueryBalance(claim) => ActionView::QueryBalance(claim@),
            Action::Forward(request) => ActionView::Forward(*request),
            Action::Respond(reply) => ActionView::Respond(reply@),
            Action::Relay(response) => ActionView::Relay(*response),
            Action::Ignore => ActionView::Ignore,
        }
    }
}

/// The response that tells a client why its request is denied.
pub open spec fn refusal(reason: DenyReason, settings: Settings) -> ReplyView {
    bad_request_reply(reason_text(reason, settings.chain_rpc@))
}

/// What comes of forwarding: the backend's response, untouched, or the
/// reason for which the request is denied after all.
pub open spec fn forwarded<T>(outcome: ForwardOutcome<T>) -> Result<T, DenyReason> {
    match outcome {
        ForwardOutcome::ConnectFailed => Err(DenyReason::BackendUnavailable(BackendFailure::Connect)),
        ForwardOutcome::SendFailed => Err(DenyReason::BackendUnavailable(BackendFailure::Send)),
        ForwardOutcome::Responded(response) => Ok(response),
    }
}

/// The step that `request` takes out of `Idle`, given what the local checks
/// made of it.
pub open spec fn step_on_admission<R, T>(admission: AdmissionView, request: R, settings: Settings) -> (
    Stage<R>,
    ActionView<R, T>,
) {
    match admission {
        AdmissionView::Preflight => (Stage::Done, ActionView::Respond(accepted_reply())),
        AdmissionView::Denied(reason) => (Stage::Done, ActionView::Respond(refusal(reason, settings))),
        AdmissionView::Pending(claim) => (
            Stage::AwaitingBalance(request),
            ActionView::QueryBalance(claim),
        ),
    }
}

/// The step that `request` takes out of `AwaitingBalance`, given the verdict
/// on the balance.
pub open spec fn step_on_verdict<R, T>(verdict: Verdict, request: R, settings: Settings) -> (
    Stage<R>,
    ActionView<R, T>,
) {
    match verdict {
        Verdict::Approved => (Stage::AwaitingBackend, ActionView::Forward(request)),
        Verdict::Denied(reason) => (Stage::Done, ActionView::Respond(refusal(reason, settings))),
    }
}

/// The step out of `AwaitingBackend`, given what came of forwarding.
pub open spec fn step_on_answer<R, T>(answer: Result<T, DenyReason>, settings: Settings) -> (
    Stage<R>,
    ActionView<R, T>,
) {
    match answer {
        Ok(response) => (Stage::Done, ActionView::Relay(response)),
        Err(reason) => (Stage::Done, ActionView::Respond(refusal(reason, settings))),
    }
}

/// The next stage and what is to be done, for a stage and an event. `key`
/// is what the address of the request decodes to, for a request that gets
/// as far as having one.
pub open spec fn step<R, T>(
    stage: Stage<R>,
    event: Event<R, T>,
    settings: Settings,
    key: Option<Seq<u8>>,
) -> (Stage<R>, ActionView<R, T>) {
    match (stage, event) {
        (Stage::Idle, Event::Request(head, request)) => step_on_admission(
            admission(head, key),
            request,
            settings,
        ),
        (Stage::AwaitingBalance(request), Event::Balance(lookup)) => step_on_verdict(
            verdict_of(balance_of(lookup), settings.token_min),
            request,
            settings,
        ),
        (Stage::AwaitingBackend, Event::Backend(outcome)) => step_on_answer(
            forwarded(outcome),
            settings,
        ),
        _ => (stage, ActionView::Ignore),
    }
}

/// Decides what comes of forwarding: the backend's response is handed on
/// as it is, whatever its status; a connection that could not be set up or
/// a request that could not be sent denies the request.
pub fn proxy_request<T>(outcome: ForwardOutcome<T>) -> (res: Result<T, DenyReason>)
    ensures
        res == forwarded(outcome),
{
    match outcome {
        ForwardOutcome::ConnectFailed => Err(DenyReason::BackendUnavailable(BackendFailure::Connect)),
        ForwardOutcome::SendFailed => Err(DenyReason::BackendUnavailable(BackendFailure::Send)),
        ForwardOutcome::Responded(response) => Ok(response),
    }
}

/// Takes the step out of `Idle` for a request of which the local checks
/// have made `admitted`: a preflight and a denial are answered, and a
/// request that passed is kept while the chain is asked for the balance.
pub fn proxy_admitted<R, T>(admitted: Admission, request: R, settings: &Settings) -> (next: (
    Stage<R>,
    Action<R, T>,
))
    ensures
        (next.0, next.1@) == step_on_admission::<R, T>(admitted@, request, *settings),
{
    match admitted {
        Admission::Preflight => (Stage::Done, Action::Respond(accepted())),
        Admission::Denied(reason) => (
            Stage::Done,
            Action::Respond(denial(&reason, settings.chain_rpc.as_str())),
        ),
        Admission::Pending(claim) => (Stage::AwaitingBalance(request), Action::QueryBalance(claim)),
    }
}

/// Takes one step in the handling of a request.
///
/// A request is checked locally and either answered or, where every local
/// check has passed, kept while the chain is asked for the balance of its
/// account. The balance then decides between a denial and giving the
/// request out to be forwarded, and what comes of forwarding decides the
/// answer. An event that does not belong to the stage changes nothing.
///
/// Whether an address decodes is up to the address formats that the running
/// process accepts, so the step is stated for the key that the address
/// decoded to, whichever that was.
pub fn proxy<R, T>(stage: Stage<R>, event: Event<R, T>, settings: &Settings) -> (next: (
    Stage<R>,
    Action<R, T>,
))
    ensures
        exists|key: Option<Seq<u8>>|
            is_key(key) && (next.0, next.1@) == #[trigger] step(stage, event, *settings, key),
{
    let chain_rpc = settings.chain_rpc.as_str();
    match (stage, event) {
        (Stage::Idle, Event::Request(head, request)) => {
            let admitted = admit_locally(&head);
            let ghost key = choose|key: Option<Seq<u8>>|
                is_key(key) && admitted@ == #[trigger] admission(head, key);
            let next = proxy_admitted(admitted, request, settings);
            assert((next.0, next.1@) == step(
                Stage::Idle,
                Event::<R, T>::Request(head, request),
                *settings,
                key,
            ));
            next
        },
        (Stage::AwaitingBalance(request), Event::Balance(lookup)) => {
            let next = match validate_account_requirements(balance(lookup), settings.token_min) {
                Verdict::Approved => (Stage::AwaitingBackend, Action::Forward(request)),
                Verdict::Denied(reason) => (Stage::Done, Action::Respond(denial(&reason, chain_rpc))),
            };
            assert((next.0, next.1@) == step(
                Stage::AwaitingBalance(request),
                Event::<R, T>::Balance(lookup),
                *settings,
                None,
            ));
            next
        },
        (Stage::AwaitingBackend, Event::Backend(outcome)) => {
            let next = match proxy_request(outcome) {
                Ok(response) => (Stage::Done, Action::Relay(response)),
                Err(reason) => (Stage::Done, Action::Respond(denial(&reason, chain_rpc))),
            };
            assert((next.0, next.1@) == step(
                Stage::<R>::AwaitingBackend,
                Event::Backend(outcome),
                *settings,
                None,
            ));
            next
        },
        (stage, event) => {
            assert((stage, ActionView::<R, T>::Ignore) == step(stage, event, *settings, None));
            (stage, Action::Ignore)
        },
    }
}

} // verus!
