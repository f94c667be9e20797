//! How a refused change-feed request is answered: the HTTP status and the outcome counted.
use vstd::prelude::*;

use crate::apply_sql::{persistence_error_text, RunnerWebhookPersistenceError};
use crate::metrics::WebhookOutcome;
use crate::routing::{routing_error_text, RunnerWebhookRoutingError};
use crate::webhook_payload::{payload_error_text, RunnerWebhookPayloadError};

verus! {

/// Why a change-feed request was refused.
#[derive(Debug)]
pub enum RunnerIngressRequestError {
    Payload(RunnerWebhookPayloadError),
    Routing(RunnerWebhookRoutingError),
    Persistence(RunnerWebhookPersistenceError),
}

/// The status a refused request is answered with: 404 for a mapping the runner does not
/// know, 400 for any other fault of the request, 500 when its rows could not be stored.
pub open spec fn ingress_status(e: RunnerIngressRequestError) -> u16 {
    match e {
        RunnerIngressRequestError::Routing(RunnerWebhookRoutingError::UnknownMapping { .. }) => 404,
        RunnerIngressRequestError::Payload(_) => 400,
        RunnerIngressRequestError::Routing(_) => 400,
        RunnerIngressRequestError::Persistence(_) => 500,
    }
}

/// The outcome counted for a refused request: the request's fault, or the runner's.
pub open spec fn ingress_outcome(e: RunnerIngressRequestError) -> WebhookOutcome {
    match e {
        RunnerIngressRequestError::Persistence(_) => WebhookOutcome::InternalError,
        _ => WebhookOutcome::BadRequest,
    }
}

impl RunnerIngressRequestError {
    pub fn status_code(&self) -> (r: u16)
        ensures
            r == ingress_status(*self),
    {
        match self {
            RunnerIngressRequestError::Routing(RunnerWebhookRoutingError::UnknownMapping { .. }) => 404,
            RunnerIngressRequestError::Payload(_) => 400,
            RunnerIngressRequestError::Routing(_) => 400,
            RunnerIngressRequestError::Persistence(_) => 500,
        }
    }

    pub fn outcome(&self) -> (r: WebhookOutcome)
        ensures
            r == ingress_outcome(*self),
    {
        match self {
            RunnerIngressRequestError::Persistence(_) => WebhookOutcome::InternalError,
            _ => WebhookOutcome::BadRequest,
        }
    }
}

/// The outcome counted for a request, whether it was accepted or refused.
pub fn request_outcome(result: &Result<(), RunnerIngressRequestError>) -> (r: WebhookOutcome)
    ensures
        match result {
            Ok(()) => r == WebhookOutcome::Accepted,
            Err(e) => r == ingress_outcome(*e),
        },
{
    match result {
        Ok(()) => WebhookOutcome::Accepted,
        Err(e) => e.outcome(),
    }
}

/// A refused request is answered with a client error exactly when it is counted as a bad
/// request, and with a server error exactly when it is counted as an internal error.
pub proof fn lemma_refusal_status_matches_outcome(e: RunnerIngressRequestError)
    ensures
        (400 <= ingress_status(e) < 500) <==> ingress_outcome(e) == WebhookOutcome::BadRequest,
        (500 <= ingress_status(e) < 600) <==> ingress_outcome(e) == WebhookOutcome::InternalError,
        ingress_outcome(e) != WebhookOutcome::Accepted,
{
}

/// The message of a refused request: that of its cause.
pub open spec fn ingress_error_text(e: &RunnerIngressRequestError) -> Seq<char> {
    match e {
        RunnerIngressRequestError::Payload(x) => payload_error_text(x),
        RunnerIngressRequestError::Routing(x) => routing_error_text(x@),
        RunnerIngressRequestError::Persistence(x) => persistence_error_text(x),
    }
}

impl RunnerIngressRequestError {
    /// The error's message.
    pub fn render(&self) -> (r: String)
        ensures
            r@ == ingress_error_text(self),
    {
        match self {
            RunnerIngressRequestError::Payload(x) => x.render(),
            RunnerIngressRequestError::Routing(x) => x.render(),
            RunnerIngressRequestError::Persistence(x) => x.render(),
        }
    }
}

} // verus!
