//! The responder: the capability that answers an inbound greeting.

use crate::protocol::{GreetRequest, GreetResponse, Greeting};
use vstd::prelude::*;
use vstd::string::StringExecFns;

verus! {

/// Text of the answer that [`GreetService`] gives to every greeting.
pub const REPLY_TEXT: &'static str = "Hello Back!! R27";

/// Why a responder produced no answer.
#[derive(Debug)]
pub struct ServiceError {
    pub reason: String,
}

/// What a responder's outcome says to the node: its answer, or nothing.
pub open spec fn outcome_view(outcome: Result<GreetResponse, ServiceError>) -> Option<Greeting> {
    match outcome {
        Ok(response) => Some(response@),
        Err(_) => None,
    }
}

/// One operation: from a greeting to its answer, or a failure.
///
/// A node hands every inbound greeting to one responder. A responder may say
/// for itself, in [`Responder::answers`], which outcomes it gives for which
/// greeting; it need not give the same outcome twice. One that does not say
/// so may give any outcome. What the node then does is decided from the
/// outcome alone.
pub trait Responder {
    /// Whether this responder may give `outcome` for `request`: an answer,
    /// or `None` for a failure.
    open spec fn answers(&self, request: Greeting, outcome: Option<Greeting>) -> bool {
        true
    }

    /// Answers `request`, or fails.
    fn respond(&mut self, request: GreetRequest) -> (outcome: Result<GreetResponse, ServiceError>)
        ensures
            old(self).answers(request@, outcome_view(outcome)),
    ;
}

/// The answer of [`GreetService`] to a greeting: the fixed text and the
/// address that the greeting carried.
pub open spec fn reply_to(request: Greeting) -> Greeting {
    Greeting { message: REPLY_TEXT@, address: request.address }
}

/// The responder of this node. It is always ready and never fails.
#[derive(Debug)]
pub struct GreetService;

impl Clone for GreetService {
    fn clone(&self) -> GreetService {
        GreetService
    }
}

impl GreetService {
    /// The service is ready at once.
    pub fn poll_ready(&mut self) -> (ready: Result<(), ServiceError>)
        ensures
            ready is Ok,
    {
        Ok(())
    }

    /// Answers a greeting.
    pub fn call(&mut self, req: GreetRequest) -> (answer: Result<GreetResponse, ServiceError>)
        ensures
            answer matches Ok(response) && response@ == reply_to(req@),
    {
        Ok(GreetResponse { message: String::from_str(REPLY_TEXT), address: req.address })
    }
}

impl Responder for GreetService {
    /// The service gives one outcome for a greeting: its reply.
    open spec fn answers(&self, request: Greeting, outcome: Option<Greeting>) -> bool {
        outcome == Some(reply_to(request))
    }

    fn respond(&mut self, request: GreetRequest) -> (outcome: Result<GreetResponse, ServiceError>) {
        self.call(request)
    }
}

} // verus!
