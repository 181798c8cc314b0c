//! Asking a human a question, abstracted away from any one host.
//!
//! This is the in-band counterpart to a gate. A gate lets an *outside observer*
//! interrupt a run it did not plan; an interlocutor lets the plan itself request
//! a value it cannot compute: "which of these three projects did you mean",
//! "approve this before I post it". The `ask` control step is the only caller.
//!
//! Hosts differ wildly in what "ask a human" means: a TTY prompt, a workbench
//! modal, a protocol round trip, or nothing at all in CI. A plan that runs
//! against one runs against the others, because the plan declares what happens
//! when nobody answers rather than assuming a human is present.

use crate::pipeline::gate::{StepPath, StepPathView};
use crate::text::texts;
use crate::value::{Data, Json};
use vstd::prelude::*;

verus! {

/// A question put to a human.
#[derive(Debug)]
pub struct AskRequest {
    /// Where the asking step sits in the plan, for display and logging.
    pub path: StepPath,
    /// Plan-call nesting; empty at the top level.
    pub call_stack: Vec<String>,
    /// The rendered question. Templates are already resolved.
    pub prompt: String,
    /// JSON Schema the answer must conform to: always an object with
    /// primitive-typed properties. Hosts that can render a form should build it
    /// from this; hosts that take raw text should show it so the human knows the
    /// shape.
    pub schema: Data,
}

/// The model of an [`AskRequest`].
pub struct AskRequestView {
    pub path: StepPathView,
    pub call_stack: Seq<Seq<char>>,
    pub prompt: Seq<char>,
    pub schema: Json,
}

impl AskRequest {
    pub open spec fn view(&self) -> AskRequestView {
        AskRequestView {
            path: self.path@,
            call_stack: texts(self.call_stack@),
            prompt: self.prompt@,
            schema: self.schema@,
        }
    }
}

/// How a human responded, or didn't.
#[derive(Debug)]
pub enum AskOutcome {
    /// An answer. The pipeline validates it against the request's schema, so an
    /// implementation may return unvalidated input.
    Answered(Data),
    /// A human was reachable and refused to answer. Distinct from `Unavailable`
    /// because it carries intent: someone said no.
    Declined,
    /// Nobody could be asked. Carries a short reason for the run log.
    Unavailable(String),
}

/// The model of an [`AskOutcome`].
pub enum AskOutcomeView {
    Answered(Json),
    Declined,
    Unavailable(Seq<char>),
}

impl AskOutcome {
    pub open spec fn view(&self) -> AskOutcomeView {
        match self {
            AskOutcome::Answered(v) => AskOutcomeView::Answered(v@),
            AskOutcome::Declined => AskOutcomeView::Declined,
            AskOutcome::Unavailable(why) => AskOutcomeView::Unavailable(why@),
        }
    }
}

/// An interlocutor that always declines to be reachable. It exists so tests and
/// headless callers can be explicit instead of relying on there being none.
pub struct Unavailable;

impl Unavailable {
    /// Nobody answers.
    pub fn ask(&self, _request: &AskRequest) -> (r: AskOutcome)
        ensures
            r@ == AskOutcomeView::Unavailable("no interlocutor is installed"@),
    {
        AskOutcome::Unavailable("no interlocutor is installed".to_owned())
    }
}

/// What comes of a question in a run that has no interlocutor.
pub fn nobody() -> (r: AskOutcome)
    ensures
        r@ == AskOutcomeView::Unavailable("this run has no way to reach a human"@),
{
    AskOutcome::Unavailable("this run has no way to reach a human".to_owned())
}

} // verus!
