//! The tool abstraction shared by the agent loop and the plan pipeline.

use crate::pipeline::record::data_view;
use crate::text::{cat2, lists, texts};
use crate::value::{Data, Json};
use vstd::prelude::*;

verus! {

/// A tool as seen by the model: namespaced name, description, and schemas.
#[derive(Debug)]
pub struct ToolDef {
    /// Namespaced: `github__search_issues`, `user__git_log`, ...
    pub name: String,
    pub description: String,
    /// JSON Schema for the input.
    pub input_schema: Data,
    /// JSON Schema for the output, when the source declares one.
    pub output_schema: Option<Data>,
    /// Example output, when available (feeds plan validation).
    pub output_example: Option<Data>,
    /// True when the source annotates the tool as read-only.
    pub read_only: Option<bool>,
}

/// The result of invoking a tool. `is_error` results flow back to the model
/// (agent loop) or onto the bus (pipeline) rather than failing the run.
#[derive(Debug)]
pub struct ToolOutcome {
    pub result: Data,
    pub is_error: bool,
}

/// Why a tool could not be invoked.
#[derive(Debug, PartialEq)]
pub enum ToolError {
    Unknown(String),
    Transport(String),
}

/// The model of a [`ToolDef`].
pub struct ToolDefView {
    pub name: Seq<char>,
    pub description: Seq<char>,
    pub input_schema: Json,
    pub output_schema: Option<Json>,
    pub output_example: Option<Json>,
    pub read_only: Option<bool>,
}

/// The model of a [`ToolOutcome`].
pub struct ToolOutcomeView {
    pub result: Json,
    pub is_error: bool,
}

/// The model of a [`ToolError`].
pub enum ToolErrorView {
    Unknown(Seq<char>),
    Transport(Seq<char>),
}

impl ToolDef {
    pub open spec fn view(&self) -> ToolDefView {
        ToolDefView {
            name: self.name@,
            description: self.description@,
            input_schema: self.input_schema@,
            output_schema: data_view(self.output_schema),
            output_example: data_view(self.output_example),
            read_only: self.read_only,
        }
    }

    /// A copy of the definition.
    pub fn copy(&self) -> (r: ToolDef)
        ensures
            r@ == self@,
    {
        ToolDef {
            name: self.name.clone(),
            description: self.description.clone(),
            input_schema: self.input_schema.copy(),
            output_schema: copy_data_option(&self.output_schema),
            output_example: copy_data_option(&self.output_example),
            read_only: self.read_only,
        }
    }
}

impl Clone for ToolDef {
    fn clone(&self) -> (r: ToolDef)
        ensures
            r@ == self@,
    {
        self.copy()
    }
}

/// A copy of an optional value.
pub fn copy_data_option(o: &Option<Data>) -> (r: Option<Data>)
    ensures
        data_view(r) == data_view(*o),
{
    match o {
        Some(v) => Some(v.copy()),
        None => None,
    }
}

pub open spec fn tools_view(s: Seq<ToolDef>) -> Seq<ToolDefView> {
    Seq::new(s.len(), |i: int| s[i]@)
}

impl ToolOutcome {
    pub open spec fn view(&self) -> ToolOutcomeView {
        ToolOutcomeView { result: self.result@, is_error: self.is_error }
    }
}

/// What an error of a tool says.
pub open spec fn tool_error_text(e: ToolErrorView) -> Seq<char> {
    match e {
        ToolErrorView::Unknown(name) => "unknown tool: "@ + name,
        ToolErrorView::Transport(why) => "tool transport failed: "@ + why,
    }
}

impl ToolError {
    pub open spec fn view(&self) -> ToolErrorView {
        match self {
            ToolError::Unknown(name) => ToolErrorView::Unknown(name@),
            ToolError::Transport(why) => ToolErrorView::Transport(why@),
        }
    }

    /// What the error says.
    pub fn message(&self) -> (r: String)
        ensures
            r@ == tool_error_text(self@),
    {
        match self {
            ToolError::Unknown(name) => cat2("unknown tool: ", name.as_str()),
            ToolError::Transport(why) => cat2("tool transport failed: ", why.as_str()),
        }
    }
}

// ── Hiding tools ─────────────────────────────────────────────────────────

/// A fixed set of tool names hidden from a catalog and refused on invocation,
/// to scope a tool out of one surface without removing it from the shared
/// catalog.
#[derive(Debug)]
pub struct Exclusion {
    pub hidden: Vec<String>,
}

impl Exclusion {
    /// The names that are hidden.
    pub open spec fn view(&self) -> Seq<Seq<char>> {
        texts(self.hidden@)
    }

    /// Hides some names.
    pub fn new(hidden: Vec<String>) -> (r: Exclusion)
        ensures
            r@ == texts(hidden@),
    {
        Exclusion { hidden }
    }

    /// The tools that are not hidden, in order.
    pub fn visible(&self, defs: &Vec<ToolDef>) -> (r: Vec<ToolDef>)
        ensures
            tools_view(r@) == tools_view(defs@).filter(
                |d: ToolDefView| !self@.contains(d.name),
            ),
    {
        let ghost all = tools_view(defs@);
        let ghost keep = |d: ToolDefView| !self@.contains(d.name);
        let mut out: Vec<ToolDef> = Vec::new();
        let mut i: usize = 0;
        proof {
            reveal(Seq::filter);
            assert(all.take(0) =~= Seq::<ToolDefView>::empty());
            assert(tools_view(out@) =~= all.take(0).filter(keep));
        }
        while i < defs.len()
            invariant
                i <= defs@.len(),
                all == tools_view(defs@),
                keep == (|d: ToolDefView| !self@.contains(d.name)),
                tools_view(out@) == all.take(i as int).filter(keep),
            decreases defs.len() - i,
        {
            let ghost before = out@;
            proof {
                reveal(Seq::filter);
                assert(all.take(i + 1).drop_last() =~= all.take(i as int));
                assert(all.take(i + 1).last() == defs@[i as int]@);
            }
            if !lists(&self.hidden, defs[i].name.as_str()) {
                out.push(defs[i].copy());
                assert(tools_view(out@) =~= tools_view(before).push(defs@[i as int]@));
            }
            i += 1;
        }
        assert(all.take(i as int) =~= all);
        out
    }

    /// Why a tool is refused, if it is hidden.
    pub fn refusal(&self, name: &str) -> (r: Option<ToolError>)
        ensures
            match r {
                Some(e) => self@.contains(name@) && e@ == ToolErrorView::Unknown(name@),
                None => !self@.contains(name@),
            },
    {
        if lists(&self.hidden, name) {
            Some(ToolError::Unknown(name.to_owned()))
        } else {
            None
        }
    }
}

/// What a hidden tool is: neither listed nor invoked.
pub proof fn a_hidden_tool_is_never_listed(defs: Seq<ToolDefView>, hidden: Seq<Seq<char>>, i: int)
    requires
        0 <= i < defs.filter(|d: ToolDefView| !hidden.contains(d.name)).len(),
    ensures
        !hidden.contains(defs.filter(|d: ToolDefView| !hidden.contains(d.name))[i].name),
{
    broadcast use vstd::seq_lib::group_filter_ensures;

}

// ── Trying registries in turn ────────────────────────────────────────────

/// What becomes of a call once one of several registries answered it: another
/// registry is tried exactly where this one does not know the tool.
pub fn falls_through(answer: &Result<ToolOutcome, ToolError>) -> (r: bool)
    ensures
        r == (answer matches Err(e) && e is Unknown),
{
    match answer {
        Err(ToolError::Unknown(_)) => true,
        _ => false,
    }
}

} // verus!
