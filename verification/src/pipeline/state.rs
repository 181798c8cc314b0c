//! Run state and the control-flow bus.

use crate::pipeline::plan::{
    number_in_id, plan_view, step_number, Plan, SolverData, SolverDataView, Step, StepView,
};
use crate::text::{cat2, decimal, numeral};
use crate::value::{lookup, Entries, Fields};
use vstd::prelude::*;

verus! {

#[derive(Debug, Clone, Copy, PartialEq, Eq, Structural)]
pub enum BusKind {
    /// Plan defect or tool failure: replan-eligible.
    Error,
    /// The plan was fine but the data ran out: degrade to solver, never replan.
    EmptyData,
    Info,
}

/// A note from one part of a run to the next.
#[derive(Debug, PartialEq)]
pub struct BusEntry {
    pub source: String,
    pub kind: BusKind,
    pub content: String,
}

/// Where a run stands.
#[derive(Debug, PartialEq)]
pub struct RunState {
    pub query: String,
    pub plan: Plan,
    /// Step id → result.
    pub results: Fields,
    pub bus: Vec<BusEntry>,
    pub plan_attempts: u32,
    pub solver_data: SolverData,
    /// Steps executed inside the bodies of control steps.
    pub branch_steps_executed: usize,
}

/// The model of a [`BusEntry`].
pub struct BusEntryView {
    pub source: Seq<char>,
    pub kind: BusKind,
    pub content: Seq<char>,
}

/// The model of a [`RunState`].
pub struct RunStateView {
    pub query: Seq<char>,
    pub plan: Seq<StepView>,
    pub results: Entries,
    pub bus: Seq<BusEntryView>,
    pub plan_attempts: int,
    pub solver_data: SolverDataView,
    pub branch_steps_executed: int,
}

impl BusEntry {
    pub open spec fn view(&self) -> BusEntryView {
        BusEntryView { source: self.source@, kind: self.kind, content: self.content@ }
    }
}

pub open spec fn bus_view(s: Seq<BusEntry>) -> Seq<BusEntryView> {
    Seq::new(s.len(), |i: int| s[i]@)
}

impl RunState {
    pub open spec fn view(&self) -> RunStateView {
        RunStateView {
            query: self.query@,
            plan: plan_view(self.plan@),
            results: self.results@,
            bus: bus_view(self.bus@),
            plan_attempts: self.plan_attempts as int,
            solver_data: self.solver_data@,
            branch_steps_executed: self.branch_steps_executed as int,
        }
    }
}

/// The state before anything happened, for a query.
pub open spec fn fresh_state(query: Seq<char>) -> RunStateView {
    RunStateView {
        query,
        plan: Seq::empty(),
        results: Entries::empty(),
        bus: Seq::empty(),
        plan_attempts: 0,
        solver_data: crate::pipeline::plan::empty_solver_data(),
        branch_steps_executed: 0,
    }
}

impl Default for RunState {
    fn default() -> (r: RunState)
        ensures
            r@ == fresh_state(Seq::empty()),
    {
        let query = String::new();
        let plan: Plan = Vec::new();
        let bus: Vec<BusEntry> = Vec::new();
        assert(query@ =~= Seq::<char>::empty());
        assert(plan_view(plan@) =~= Seq::<StepView>::empty());
        assert(bus_view(bus@) =~= Seq::<BusEntryView>::empty());
        RunState {
            query,
            plan,
            results: Fields::new(),
            bus,
            plan_attempts: 0,
            solver_data: SolverData::default(),
            branch_steps_executed: 0,
        }
    }
}

/// Whether a step has a result.
pub open spec fn has_run(step: StepView, results: Entries) -> bool {
    lookup(results, step.id) is Some
}

/// The steps with results, in the plan's order.
pub open spec fn executed(plan: Seq<StepView>, results: Entries) -> Seq<StepView> {
    plan.filter(|step: StepView| has_run(step, results))
}

/// One more than the greatest number among the ids of executed steps; zero
/// where none has one.
pub open spec fn next_number(plan: Seq<StepView>, results: Entries) -> int
    decreases plan.len(),
{
    if plan.len() == 0 {
        0
    } else {
        let before = next_number(plan.drop_last(), results);
        match number_in_id(plan.last().id) {
            Some(n) => if has_run(plan.last(), results) && n + 1 > before {
                n + 1
            } else {
                before
            },
            None => before,
        }
    }
}

/// The position of the first step from `i` on without a result.
pub open spec fn pending_from(plan: Seq<StepView>, results: Entries, i: int) -> Option<int>
    decreases plan.len() - i,
{
    if i < 0 || i >= plan.len() {
        None
    } else if !has_run(plan[i], results) {
        Some(i)
    } else {
        pending_from(plan, results, i + 1)
    }
}

/// How many results there are besides the `input` root, with the steps run in
/// bodies.
pub open spec fn count_executed(s: RunStateView) -> int {
    s.results.len() - (if lookup(s.results, "input"@) is Some { 1int } else { 0int })
        + s.branch_steps_executed
}

/// The position of the last error among the first `n` entries of the bus.
pub open spec fn last_error_before(bus: Seq<BusEntryView>, n: int) -> Option<int>
    decreases n,
{
    if n <= 0 || n > bus.len() {
        None
    } else if bus[n - 1].kind == BusKind::Error {
        Some(n - 1)
    } else {
        last_error_before(bus, n - 1)
    }
}

impl RunState {
    /// Steps that have already executed (present in results): preserved across
    /// replans so the planner continues instead of restarting.
    pub fn executed_steps(&self) -> (r: Plan)
        ensures
            plan_view(r@) == executed(self@.plan, self@.results),
    {
        let ghost steps = self@.plan;
        let ghost keep = |step: StepView| has_run(step, self@.results);
        let mut out: Plan = Vec::new();
        let mut i: usize = 0;
        proof {
            assert(steps.take(0) =~= Seq::<StepView>::empty());
            reveal(Seq::filter);
            assert(plan_view(out@) =~= steps.take(0).filter(keep));
        }
        while i < self.plan.len()
            invariant
                i <= self.plan@.len(),
                steps == self@.plan,
                keep == (|step: StepView| has_run(step, self@.results)),
                plan_view(out@) == steps.take(i as int).filter(keep),
            decreases self.plan.len() - i,
        {
            let step = &self.plan[i];
            let ghost before = out@;
            proof {
                reveal(Seq::filter);
                assert(steps.take(i + 1).drop_last() =~= steps.take(i as int));
                assert(steps.take(i + 1).last() == step@);
            }
            if self.results.contains_key(step.id.as_str()) {
                out.push(step.copy());
                assert(plan_view(out@) =~= plan_view(before).push(step@));
            }
            i += 1;
        }
        assert(steps.take(i as int) =~= steps);
        out
    }

    /// The id after the last executed one in the E sequence.
    pub fn next_step_id(&self) -> (r: String)
        ensures
            r@ == "E"@ + numeral(next_number(self@.plan, self@.results) as nat),
    {
        let ghost steps = self@.plan;
        let mut next: u64 = 0;
        let mut i: usize = 0;
        while i < self.plan.len()
            invariant
                i <= self.plan@.len(),
                steps == self@.plan,
                next <= u32::MAX + 1,
                next == next_number(steps.take(i as int), self@.results),
            decreases self.plan.len() - i,
        {
            let step = &self.plan[i];
            proof {
                assert(steps.take(i + 1).drop_last() =~= steps.take(i as int));
                assert(steps.take(i + 1).last() == step@);
            }
            if let Some(n) = step_number(step.id.as_str()) {
                if self.results.contains_key(step.id.as_str()) && n as u64 + 1 > next {
                    next = n as u64 + 1;
                }
            }
            i += 1;
        }
        assert(steps.take(i as int) =~= steps);
        cat2("E", decimal(next).as_str())
    }

    /// Where the first step without a result stands, if any remains.
    pub fn next_pending(&self) -> (r: Option<usize>)
        ensures
            match r {
                Some(i) => i < self.plan@.len() && pending_from(self@.plan, self@.results, 0)
                    == Some(i as int),
                None => pending_from(self@.plan, self@.results, 0) is None,
            },
    {
        let mut i: usize = 0;
        while i < self.plan.len()
            invariant
                i <= self.plan@.len(),
                pending_from(self@.plan, self@.results, 0) == pending_from(
                    self@.plan,
                    self@.results,
                    i as int,
                ),
            decreases self.plan.len() - i,
        {
            if !self.results.contains_key(self.plan[i].id.as_str()) {
                return Some(i);
            }
            i += 1;
        }
        None
    }

    /// The step after the last executed one, if any remain.
    pub fn next_pending_step(&self) -> (r: Option<&Step>)
        ensures
            match (r, pending_from(self@.plan, self@.results, 0)) {
                (Some(step), Some(i)) => 0 <= i < self@.plan.len() && step@ == self@.plan[i],
                (None, None) => true,
                _ => false,
            },
    {
        match self.next_pending() {
            Some(i) => Some(&self.plan[i]),
            None => None,
        }
    }

    /// Number of executed steps (excludes the `input` root).
    pub fn steps_executed(&self) -> (r: usize)
        requires
            count_executed(self@) <= usize::MAX,
        ensures
            r == count_executed(self@),
    {
        let recorded: usize = if self.results.contains_key("input") {
            self.results.len() - 1
        } else {
            self.results.len()
        };
        recorded + self.branch_steps_executed
    }

    /// The last error on the bus.
    pub fn last_error(&self) -> (r: Option<&BusEntry>)
        ensures
            match (r, last_error_before(self@.bus, self@.bus.len() as int)) {
                (Some(entry), Some(i)) => 0 <= i < self@.bus.len() && entry@ == self@.bus[i],
                (None, None) => true,
                _ => false,
            },
    {
        let mut n: usize = self.bus.len();
        while n > 0
            invariant
                n <= self.bus@.len(),
                last_error_before(self@.bus, self@.bus.len() as int) == last_error_before(
                    self@.bus,
                    n as int,
                ),
            decreases n,
        {
            if self.bus[n - 1].kind == BusKind::Error {
                return Some(&self.bus[n - 1]);
            }
            n -= 1;
        }
        None
    }

    /// Puts an entry on the bus.
    pub fn push_bus(&mut self, source: &str, kind: BusKind, content: &str)
        ensures
            final(self)@ == (RunStateView {
                bus: old(self)@.bus.push(
                    BusEntryView { source: source@, kind, content: content@ },
                ),
                ..old(self)@
            }),
    {
        let ghost before = self.bus@;
        self.bus.push(BusEntry { source: source.to_owned(), kind, content: content.to_owned() });
        assert(bus_view(self.bus@) =~= bus_view(before).push(
            BusEntryView { source: source@, kind, content: content@ },
        ));
    }
}

} // verus!
