//! Execution gating: an optional hook consulted before every real tool
//! dispatch, registry tools, `plan__*` steps, `plan_and_execute`, and every
//! call inside decide branches and map/reduce bodies, at any plan nesting
//! depth. It lets an interactive caller pause a run for confirmation, skip a
//! call by injecting its result, or abort.
//!
//! A gate is not consulted for control-step evaluation: `exit` gates,
//! `decide` gates, and map/reduce orchestration are read-only engine
//! computation with no external effect; their side effects are the body calls,
//! which are gated.

use crate::pipeline::plan::copy_option;
use crate::pipeline::record::text_view;
use crate::text::{cat2, cat3};
use crate::value::{Data, Json};
use vstd::prelude::*;

verus! {

/// Where a tool call sits in the plan. Its text has the bus-source syntax:
/// "E3", "E3/then", "E3/do.2", "E3/do.2/E10".
#[derive(Debug, PartialEq)]
pub struct StepPath {
    /// Top-level step id ("E3").
    pub step: String,
    /// Body location for calls inside decide/map/reduce: "then", "else",
    /// "do.2". Nesting appends: an `agent` step's round inside a map body is
    /// "do.2/agent.3".
    pub body: Option<String>,
    /// Innermost leaf: the body step id when the body is a step list ("E10"),
    /// or the tool name for a call an `agent` step chose.
    pub body_step: Option<String>,
}

/// The model of a [`StepPath`].
pub struct StepPathView {
    pub step: Seq<char>,
    pub body: Option<Seq<char>>,
    pub body_step: Option<Seq<char>>,
}

/// A text followed by a slash and a part, where there is one.
pub open spec fn slashed(s: Seq<char>, part: Option<Seq<char>>) -> Seq<char> {
    match part {
        Some(p) => s + "/"@ + p,
        None => s,
    }
}

/// A part followed by a slash, where there is one.
pub open spec fn leading(part: Option<Seq<char>>) -> Seq<char> {
    match part {
        Some(p) => p + "/"@,
        None => Seq::empty(),
    }
}

/// A path in the bus-source syntax.
pub open spec fn path_text(p: StepPathView) -> Seq<char> {
    slashed(slashed(p.step, p.body), p.body_step)
}

/// The path of a call one level deeper.
pub open spec fn nested_path(
    p: StepPathView,
    segment: Seq<char>,
    leaf: Option<Seq<char>>,
) -> StepPathView {
    StepPathView {
        step: p.step,
        body: Some(leading(p.body) + leading(p.body_step) + segment),
        body_step: leaf,
    }
}

pub open spec fn slice_view(o: Option<&str>) -> Option<Seq<char>> {
    match o {
        Some(s) => Some(s@),
        None => None,
    }
}

impl StepPath {
    pub open spec fn view(&self) -> StepPathView {
        StepPathView {
            step: self.step@,
            body: text_view(self.body),
            body_step: text_view(self.body_step),
        }
    }

    /// The path of a top-level step.
    pub fn top(step: &str) -> (r: StepPath)
        ensures
            r@ == (StepPathView { step: step@, body: None, body_step: None }),
    {
        StepPath { step: step.to_owned(), body: None, body_step: None }
    }

    /// The path of a call in a body.
    pub fn in_body(step: &str, body: &str, body_step: Option<&str>) -> (r: StepPath)
        ensures
            r@ == (StepPathView {
                step: step@,
                body: Some(body@),
                body_step: slice_view(body_step),
            }),
    {
        StepPath {
            step: step.to_owned(),
            body: Some(body.to_owned()),
            body_step: match body_step {
                Some(s) => Some(s.to_owned()),
                None => None,
            },
        }
    }

    /// A call one level deeper than `self`: whatever body location `self`
    /// already carries is kept and `segment` appended, so an `agent` step
    /// running inside a map body reports "E1/do.2/agent.3/t__search" instead of
    /// collapsing onto "E1/agent.3/t__search" (which every item of a concurrent
    /// map would share).
    pub fn nested(&self, segment: &str, leaf: Option<&str>) -> (r: StepPath)
        ensures
            r@ == nested_path(self@, segment@, slice_view(leaf)),
    {
        let first = lead(&self.body);
        let second = lead(&self.body_step);
        StepPath {
            step: self.step.clone(),
            body: Some(cat3(first.as_str(), second.as_str(), segment)),
            body_step: match leaf {
                Some(s) => Some(s.to_owned()),
                None => None,
            },
        }
    }

    /// The path in the bus-source syntax.
    pub fn text(&self) -> (r: String)
        ensures
            r@ == path_text(self@),
    {
        let mut out = self.step.clone();
        if let Some(body) = &self.body {
            out = cat3(out.as_str(), "/", body.as_str());
        }
        if let Some(leaf) = &self.body_step {
            out = cat3(out.as_str(), "/", leaf.as_str());
        }
        out
    }

    /// A copy of the path.
    pub fn copy(&self) -> (r: StepPath)
        ensures
            r@ == self@,
    {
        StepPath {
            step: self.step.clone(),
            body: copy_option(&self.body),
            body_step: copy_option(&self.body_step),
        }
    }
}

impl Clone for StepPath {
    fn clone(&self) -> (r: StepPath)
        ensures
            r@ == self@,
    {
        self.copy()
    }
}

fn lead(part: &Option<String>) -> (r: String)
    ensures
        r@ == leading(text_view(*part)),
{
    match part {
        Some(p) => cat2(p.as_str(), "/"),
        None => {
            let empty = String::new();
            assert(empty@ =~= Seq::<char>::empty());
            empty
        },
    }
}

/// Nesting keeps the location it started from: the deeper path's text is the
/// outer path's text, the segment and the leaf, with slashes between them.
pub proof fn nesting_extends_the_path(p: StepPathView, segment: Seq<char>, leaf: Option<Seq<char>>)
    ensures
        path_text(nested_path(p, segment, leaf)) == slashed(
            path_text(p) + "/"@ + segment,
            leaf,
        ),
{
    let deeper = nested_path(p, segment, leaf);
    assert(slashed(p.step, deeper.body) =~= path_text(p) + "/"@ + segment);
}

/// What a gate says of a call before it is made.
#[derive(Debug)]
pub enum GateDecision {
    /// Make the call.
    Proceed,
    /// Do not call the tool; `result` becomes the step's value exactly as if
    /// the tool had returned it (downstream templates render against it).
    Skip { result: Data },
    /// End the run now: no replan, no solver, no error summary.
    Abort,
}

/// How a gate resolves a failed tool call.
#[derive(Debug)]
pub enum ErrorDecision {
    /// The step fails exactly as without a gate.
    Fail,
    /// Substitute `result` and continue exactly as if the tool had returned
    /// it. The replacement never enters the replan loop.
    Replace { result: Data },
    /// End the run now (same semantics as [`GateDecision::Abort`]).
    Abort,
}

/// The model of a [`GateDecision`].
pub enum GateDecisionView {
    Proceed,
    Skip(Json),
    Abort,
}

/// The model of an [`ErrorDecision`].
pub enum ErrorDecisionView {
    Fail,
    Replace(Json),
    Abort,
}

impl GateDecision {
    pub open spec fn view(&self) -> GateDecisionView {
        match self {
            GateDecision::Proceed => GateDecisionView::Proceed,
            GateDecision::Skip { result } => GateDecisionView::Skip(result@),
            GateDecision::Abort => GateDecisionView::Abort,
        }
    }
}

impl ErrorDecision {
    pub open spec fn view(&self) -> ErrorDecisionView {
        match self {
            ErrorDecision::Fail => ErrorDecisionView::Fail,
            ErrorDecision::Replace { result } => ErrorDecisionView::Replace(result@),
            ErrorDecision::Abort => ErrorDecisionView::Abort,
        }
    }
}

} // verus!
