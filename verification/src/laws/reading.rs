//! Reading records: what is accepted, and what is refused.

use crate::laws::gating::names_choice;
use crate::pipeline::condition::condition_of;
use crate::pipeline::plan::step_of;
use crate::pipeline::record::{
    choice_problem, entries_problem, is_strict, lemma_field_fits, lemma_rule_for, missing_from,
    op_names, record_problem, records_problem, rule_for, rules_of, Record,
};
use crate::value::{lookup, Entries, Json, Num};
use vstd::prelude::*;

verus! {

/// Whether a value names one of the operators of a condition.
pub open spec fn names_an_operator(v: Json) -> bool {
    ||| names_choice(Some(v), "eq"@)
    ||| names_choice(Some(v), "ne"@)
    ||| names_choice(Some(v), "gt"@)
    ||| names_choice(Some(v), "lt"@)
    ||| names_choice(Some(v), "gte"@)
    ||| names_choice(Some(v), "lte"@)
    ||| names_choice(Some(v), "empty"@)
    ||| names_choice(Some(v), "not_empty"@)
    ||| names_choice(Some(v), "contains"@)
}

/// Whether some values are steps.
pub open spec fn is_plan(items: Seq<Json>) -> bool {
    forall|i: int| 0 <= i < items.len() ==> step_of(#[trigger] items[i]) is Ok
}

proof fn lemma_chosen_object(v: Json)
    ensures
        v matches Json::Object(e) && e.len() == 1 && e[0].1 is Null ==> v == Json::Object(
            seq![(v->Object_0[0].0, Json::Null)],
        ),
{
    if let Json::Object(e) = v {
        if e.len() == 1 && e[0].1 is Null {
            assert(e =~= seq![(e[0].0, Json::Null)]);
        }
    }
}

proof fn lemma_chosen_op(v: Json)
    requires
        choice_problem(v, op_names()) is None,
    ensures
        names_an_operator(v),
{
    lemma_chosen_object(v);
    let names = op_names();
    let name = crate::pipeline::record::chosen(v);
    assert(names.contains(name));
    let i = choose|i: int| 0 <= i < names.len() && names[i] == name;
    assert(0 <= i < 9);
}

proof fn lemma_chosen_two(v: Json, a: Seq<char>, b: Seq<char>)
    requires
        choice_problem(v, seq![a, b]) is None,
    ensures
        names_choice(Some(v), a) || names_choice(Some(v), b),
{
    lemma_chosen_object(v);
    let names = seq![a, b];
    let name = crate::pipeline::record::chosen(v);
    assert(names.contains(name));
    let i = choose|i: int| 0 <= i < names.len() && names[i] == name;
    assert(0 <= i < 2);
}

proof fn lemma_read_plan(items: Seq<Json>, n: int)
    requires
        0 <= n <= items.len(),
        records_problem(items, Record::Step, "struct Step"@, n) is None,
    ensures
        forall|i: int| 0 <= i < n ==> step_of(#[trigger] items[i]) is Ok,
    decreases n,
{
    if n > 0 {
        lemma_read_plan(items, n - 1);
    }
}

proof fn lemma_entry_known(e: Entries, record: Record, n: int, k: int)
    requires
        0 <= k < n <= e.len(),
        is_strict(record),
        entries_problem(e, record, n) is None,
    ensures
        rule_for(rules_of(record), e[k].0, 0) is Some,
    decreases n,
{
    if k < n - 1 {
        lemma_entry_known(e, record, n - 1, k);
    }
}

/// A condition is read only where what it must have is there, each field holds what it
/// may, and nothing else is there.
pub proof fn a_condition_is_read_only_whole(e: Entries)
    requires
        record_problem(e, Record::Condition) is None,
    ensures
        lookup(e, "value"@) is Some,
        lookup(e, "op"@) is Some,
        lookup(e, "op"@) matches Some(v) ==> (names_an_operator(v)),
        forall|k: int|
            0 <= k < e.len() ==> (#[trigger] e[k]).0 == "value"@ || e[k].0 == "op"@ || e[k].0
                == "to"@,
{
    reveal_strlit("value");
    reveal_strlit("op");
    reveal_strlit("to");
    assert("value"@.len() != "op"@.len());
    assert("value"@.len() != "to"@.len());
    assert("op"@[0] != "to"@[0]);
    let rules = rules_of(Record::Condition);
    reveal_with_fuel(rule_for, 4);
    reveal_with_fuel(missing_from, 4);
    assert(rule_for(rules, "value"@, 0) == Some(0int));
    assert(rule_for(rules, "op"@, 0) == Some(1int));
    assert(rule_for(rules, "to"@, 0) == Some(2int));
    lemma_field_fits(e, Record::Condition, "op"@);
    if let Some(v) = lookup(e, "op"@) {
        lemma_chosen_op(v);
    }
    assert forall|k: int| 0 <= k < e.len() implies (#[trigger] e[k]).0 == "value"@ || e[k].0
        == "op"@ || e[k].0 == "to"@ by {
        lemma_entry_known(e, Record::Condition, e.len() as int, k);
        lemma_rule_for(rules, e[k].0, 0);
    }
}

/// A step is read only where what it must have is there, each field holds what it
/// may.
pub proof fn a_step_is_read_only_whole(e: Entries)
    requires
        record_problem(e, Record::Step) is None,
    ensures
        lookup(e, "id"@) is Some,
        lookup(e, "toolName"@) is Some || lookup(e, "tool_name"@) is Some,
        lookup(e, "input"@) is Some,
        lookup(e, "id"@) matches Some(v) ==> (v is Text),
        lookup(e, "toolName"@) matches Some(v) ==> (v is Text),
        lookup(e, "tool_name"@) matches Some(v) ==> (v is Text),
        lookup(e, "input"@) matches Some(v) ==> (v is Object),
        lookup(e, "reasoning"@) matches Some(v) ==> (v is Text || v is Null),
{
    reveal_strlit("id");
    reveal_strlit("toolName");
    reveal_strlit("tool_name");
    reveal_strlit("input");
    reveal_strlit("reasoning");
    assert("id"@.len() != "toolName"@.len());
    assert("id"@.len() != "tool_name"@.len());
    assert("id"@.len() != "input"@.len());
    assert("id"@.len() != "reasoning"@.len());
    assert("toolName"@.len() != "tool_name"@.len());
    assert("toolName"@.len() != "input"@.len());
    assert("toolName"@.len() != "reasoning"@.len());
    assert("tool_name"@.len() != "input"@.len());
    assert("tool_name"@[0] != "reasoning"@[0]);
    assert("input"@.len() != "reasoning"@.len());
    let rules = rules_of(Record::Step);
    reveal_with_fuel(rule_for, 5);
    reveal_with_fuel(missing_from, 5);
    assert(rule_for(rules, "id"@, 0) == Some(0int));
    assert(rule_for(rules, "toolName"@, 0) == Some(1int));
    assert(rule_for(rules, "tool_name"@, 0) == Some(1int));
    assert(rule_for(rules, "input"@, 0) == Some(2int));
    assert(rule_for(rules, "reasoning"@, 0) == Some(3int));
    lemma_field_fits(e, Record::Step, "id"@);
    lemma_field_fits(e, Record::Step, "toolName"@);
    lemma_field_fits(e, Record::Step, "tool_name"@);
    lemma_field_fits(e, Record::Step, "input"@);
    lemma_field_fits(e, Record::Step, "reasoning"@);
}

/// The solver's data is read only where what it must have is there, each field holds what it
/// may.
pub proof fn solver_data_is_read_only_whole(e: Entries)
    requires
        record_problem(e, Record::Solver) is None,
    ensures
        lookup(e, "queryToAnswer"@) matches Some(v) ==> (v is Text),
        lookup(e, "query_to_answer"@) matches Some(v) ==> (v is Text),
        lookup(e, "systemPrompt"@) matches Some(v) ==> (v is Text || v is Null),
        lookup(e, "system_prompt"@) matches Some(v) ==> (v is Text || v is Null),
        lookup(e, "data"@) matches Some(v) ==> (v is Object),
{
    reveal_strlit("queryToAnswer");
    reveal_strlit("query_to_answer");
    reveal_strlit("systemPrompt");
    reveal_strlit("system_prompt");
    reveal_strlit("data");
    assert("queryToAnswer"@.len() != "query_to_answer"@.len());
    assert("queryToAnswer"@.len() != "systemPrompt"@.len());
    assert("queryToAnswer"@[0] != "system_prompt"@[0]);
    assert("queryToAnswer"@.len() != "data"@.len());
    assert("query_to_answer"@.len() != "systemPrompt"@.len());
    assert("query_to_answer"@.len() != "system_prompt"@.len());
    assert("query_to_answer"@.len() != "data"@.len());
    assert("systemPrompt"@.len() != "system_prompt"@.len());
    assert("systemPrompt"@.len() != "data"@.len());
    assert("system_prompt"@.len() != "data"@.len());
    let rules = rules_of(Record::Solver);
    reveal_with_fuel(rule_for, 4);
    reveal_with_fuel(missing_from, 4);
    assert(rule_for(rules, "queryToAnswer"@, 0) == Some(0int));
    assert(rule_for(rules, "query_to_answer"@, 0) == Some(0int));
    assert(rule_for(rules, "systemPrompt"@, 0) == Some(1int));
    assert(rule_for(rules, "system_prompt"@, 0) == Some(1int));
    assert(rule_for(rules, "data"@, 0) == Some(2int));
    lemma_field_fits(e, Record::Solver, "queryToAnswer"@);
    lemma_field_fits(e, Record::Solver, "query_to_answer"@);
    lemma_field_fits(e, Record::Solver, "systemPrompt"@);
    lemma_field_fits(e, Record::Solver, "system_prompt"@);
    lemma_field_fits(e, Record::Solver, "data"@);
}

/// A planner's output is read only where what it must have is there, each field holds what it
/// may.
pub proof fn a_planners_output_is_read_only_whole(e: Entries)
    requires
        record_problem(e, Record::PlannerOutput) is None,
    ensures
        lookup(e, "plan"@) is Some,
        lookup(e, "solverData"@) is Some,
        lookup(e, "plan"@) matches Some(v) ==> (v is List && is_plan(v->List_0)),
        lookup(e, "solverData"@) matches Some(v) ==> (v is Object || v is List),
{
    reveal_strlit("plan");
    reveal_strlit("solverData");
    assert("plan"@.len() != "solverData"@.len());
    let rules = rules_of(Record::PlannerOutput);
    reveal_with_fuel(rule_for, 3);
    reveal_with_fuel(missing_from, 3);
    assert(rule_for(rules, "plan"@, 0) == Some(0int));
    assert(rule_for(rules, "solverData"@, 0) == Some(1int));
    lemma_field_fits(e, Record::PlannerOutput, "plan"@);
    if let Some(v) = lookup(e, "plan"@) {
        lemma_read_plan(v->List_0, v->List_0.len() as int);
    }
    lemma_field_fits(e, Record::PlannerOutput, "solverData"@);
}

/// A call is read only where what it must have is there, each field holds what it
/// may, and nothing else is there.
pub proof fn a_call_is_read_only_whole(e: Entries)
    requires
        record_problem(e, Record::Call) is None,
    ensures
        lookup(e, "toolName"@) is Some || lookup(e, "tool_name"@) is Some,
        lookup(e, "input"@) is Some,
        lookup(e, "toolName"@) matches Some(v) ==> (v is Text),
        lookup(e, "tool_name"@) matches Some(v) ==> (v is Text),
        lookup(e, "input"@) matches Some(v) ==> (v is Object),
        lookup(e, "reasoning"@) matches Some(v) ==> (v is Text || v is Null),
        forall|k: int|
            0 <= k < e.len() ==> (#[trigger] e[k]).0 == "toolName"@ || e[k].0 == "tool_name"@
                || e[k].0 == "input"@ || e[k].0 == "reasoning"@,
{
    reveal_strlit("toolName");
    reveal_strlit("tool_name");
    reveal_strlit("input");
    reveal_strlit("reasoning");
    assert("toolName"@.len() != "tool_name"@.len());
    assert("toolName"@.len() != "input"@.len());
    assert("toolName"@.len() != "reasoning"@.len());
    assert("tool_name"@.len() != "input"@.len());
    assert("tool_name"@[0] != "reasoning"@[0]);
    assert("input"@.len() != "reasoning"@.len());
    let rules = rules_of(Record::Call);
    reveal_with_fuel(rule_for, 4);
    reveal_with_fuel(missing_from, 4);
    assert(rule_for(rules, "toolName"@, 0) == Some(0int));
    assert(rule_for(rules, "tool_name"@, 0) == Some(0int));
    assert(rule_for(rules, "input"@, 0) == Some(1int));
    assert(rule_for(rules, "reasoning"@, 0) == Some(2int));
    lemma_field_fits(e, Record::Call, "toolName"@);
    lemma_field_fits(e, Record::Call, "tool_name"@);
    lemma_field_fits(e, Record::Call, "input"@);
    lemma_field_fits(e, Record::Call, "reasoning"@);
    assert forall|k: int| 0 <= k < e.len() implies (#[trigger] e[k]).0 == "toolName"@ || e[k].0
        == "tool_name"@ || e[k].0 == "input"@ || e[k].0 == "reasoning"@ by {
        lemma_entry_known(e, Record::Call, e.len() as int, k);
        lemma_rule_for(rules, e[k].0, 0);
    }
}

/// An exit is read only where what it must have is there, each field holds what it
/// may, and nothing else is there.
pub proof fn an_exit_is_read_only_whole(e: Entries)
    requires
        record_problem(e, Record::Exit) is None,
    ensures
        lookup(e, "status"@) is Some,
        lookup(e, "when"@) matches Some(v) ==> (v is Null || condition_of(v) is Ok),
        lookup(e, "infer"@) matches Some(v) ==> (v is Text || v is Null),
        lookup(e, "status"@) matches Some(v) ==> (names_choice(Some(v), "success"@)
            || names_choice(Some(v), "error"@)),
        lookup(e, "message"@) matches Some(v) ==> (v is Text || v is Null),
        lookup(e, "output"@) matches Some(v) ==> (v is Object || v is Null),
        lookup(e, "model"@) matches Some(v) ==> (v is Text || v is Null),
        forall|k: int|
            0 <= k < e.len() ==> (#[trigger] e[k]).0 == "when"@ || e[k].0 == "infer"@ || e[k].0
                == "status"@ || e[k].0 == "message"@ || e[k].0 == "output"@ || e[k].0 == "model"@,
{
    reveal_strlit("when");
    reveal_strlit("infer");
    reveal_strlit("status");
    reveal_strlit("message");
    reveal_strlit("output");
    reveal_strlit("model");
    assert("when"@.len() != "infer"@.len());
    assert("when"@.len() != "status"@.len());
    assert("when"@.len() != "message"@.len());
    assert("when"@.len() != "output"@.len());
    assert("when"@.len() != "model"@.len());
    assert("infer"@.len() != "status"@.len());
    assert("infer"@.len() != "message"@.len());
    assert("infer"@.len() != "output"@.len());
    assert("infer"@[0] != "model"@[0]);
    assert("status"@.len() != "message"@.len());
    assert("status"@[0] != "output"@[0]);
    assert("status"@.len() != "model"@.len());
    assert("message"@.len() != "output"@.len());
    assert("message"@.len() != "model"@.len());
    assert("output"@.len() != "model"@.len());
    let rules = rules_of(Record::Exit);
    reveal_with_fuel(rule_for, 7);
    reveal_with_fuel(missing_from, 7);
    assert(rule_for(rules, "when"@, 0) == Some(0int));
    assert(rule_for(rules, "infer"@, 0) == Some(1int));
    assert(rule_for(rules, "status"@, 0) == Some(2int));
    assert(rule_for(rules, "message"@, 0) == Some(3int));
    assert(rule_for(rules, "output"@, 0) == Some(4int));
    assert(rule_for(rules, "model"@, 0) == Some(5int));
    lemma_field_fits(e, Record::Exit, "when"@);
    lemma_field_fits(e, Record::Exit, "infer"@);
    lemma_field_fits(e, Record::Exit, "status"@);
    if let Some(v) = lookup(e, "status"@) {
        lemma_chosen_two(v, "success"@, "error"@);
    }
    lemma_field_fits(e, Record::Exit, "message"@);
    lemma_field_fits(e, Record::Exit, "output"@);
    lemma_field_fits(e, Record::Exit, "model"@);
    assert forall|k: int| 0 <= k < e.len() implies (#[trigger] e[k]).0 == "when"@ || e[k].0
        == "infer"@ || e[k].0 == "status"@ || e[k].0 == "message"@ || e[k].0 == "output"@
        || e[k].0 == "model"@ by {
        lemma_entry_known(e, Record::Exit, e.len() as int, k);
        lemma_rule_for(rules, e[k].0, 0);
    }
}

/// A decision is read only where what it must have is there, each field holds what it
/// may, and nothing else is there.
pub proof fn a_decision_is_read_only_whole(e: Entries)
    requires
        record_problem(e, Record::Decide) is None,
    ensures
        lookup(e, "then"@) is Some,
        lookup(e, "infer"@) matches Some(v) ==> (v is Text || v is Null),
        lookup(e, "model"@) matches Some(v) ==> (v is Text || v is Null),
        forall|k: int|
            0 <= k < e.len() ==> (#[trigger] e[k]).0 == "if"@ || e[k].0 == "infer"@ || e[k].0
                == "model"@ || e[k].0 == "then"@ || e[k].0 == "else"@,
{
    reveal_strlit("if");
    reveal_strlit("infer");
    reveal_strlit("model");
    reveal_strlit("then");
    reveal_strlit("else");
    assert("if"@.len() != "infer"@.len());
    assert("if"@.len() != "model"@.len());
    assert("if"@.len() != "then"@.len());
    assert("if"@.len() != "else"@.len());
    assert("infer"@[0] != "model"@[0]);
    assert("infer"@.len() != "then"@.len());
    assert("infer"@.len() != "else"@.len());
    assert("model"@.len() != "then"@.len());
    assert("model"@.len() != "else"@.len());
    assert("then"@[0] != "else"@[0]);
    let rules = rules_of(Record::Decide);
    reveal_with_fuel(rule_for, 6);
    reveal_with_fuel(missing_from, 6);
    assert(rule_for(rules, "if"@, 0) == Some(0int));
    assert(rule_for(rules, "infer"@, 0) == Some(1int));
    assert(rule_for(rules, "model"@, 0) == Some(2int));
    assert(rule_for(rules, "then"@, 0) == Some(3int));
    assert(rule_for(rules, "else"@, 0) == Some(4int));
    lemma_field_fits(e, Record::Decide, "infer"@);
    lemma_field_fits(e, Record::Decide, "model"@);
    assert forall|k: int| 0 <= k < e.len() implies (#[trigger] e[k]).0 == "if"@ || e[k].0
        == "infer"@ || e[k].0 == "model"@ || e[k].0 == "then"@ || e[k].0 == "else"@ by {
        lemma_entry_known(e, Record::Decide, e.len() as int, k);
        lemma_rule_for(rules, e[k].0, 0);
    }
}

/// A map is read only where what it must have is there, each field holds what it
/// may, and nothing else is there.
pub proof fn a_map_is_read_only_whole(e: Entries)
    requires
        record_problem(e, Record::Iterate) is None,
    ensures
        lookup(e, "over"@) is Some,
        lookup(e, "do"@) is Some,
        lookup(e, "concurrency"@) matches Some(v) ==> (
            v matches Json::Num(Num::Int(n)) && 0 <= n <= usize::MAX
        ),
        forall|k: int|
            0 <= k < e.len() ==> (#[trigger] e[k]).0 == "over"@ || e[k].0 == "do"@ || e[k].0
                == "concurrency"@,
{
    reveal_strlit("over");
    reveal_strlit("do");
    reveal_strlit("concurrency");
    assert("over"@.len() != "do"@.len());
    assert("over"@.len() != "concurrency"@.len());
    assert("do"@.len() != "concurrency"@.len());
    let rules = rules_of(Record::Iterate);
    reveal_with_fuel(rule_for, 4);
    reveal_with_fuel(missing_from, 4);
    assert(rule_for(rules, "over"@, 0) == Some(0int));
    assert(rule_for(rules, "do"@, 0) == Some(1int));
    assert(rule_for(rules, "concurrency"@, 0) == Some(2int));
    lemma_field_fits(e, Record::Iterate, "concurrency"@);
    assert forall|k: int| 0 <= k < e.len() implies (#[trigger] e[k]).0 == "over"@ || e[k].0
        == "do"@ || e[k].0 == "concurrency"@ by {
        lemma_entry_known(e, Record::Iterate, e.len() as int, k);
        lemma_rule_for(rules, e[k].0, 0);
    }
}

/// A fold is read only where what it must have is there, each field holds what it
/// may, and nothing else is there.
pub proof fn a_fold_is_read_only_whole(e: Entries)
    requires
        record_problem(e, Record::Fold) is None,
    ensures
        lookup(e, "over"@) is Some,
        lookup(e, "do"@) is Some,
        forall|k: int|
            0 <= k < e.len() ==> (#[trigger] e[k]).0 == "over"@ || e[k].0 == "do"@ || e[k].0
                == "initial"@,
{
    reveal_strlit("over");
    reveal_strlit("do");
    reveal_strlit("initial");
    assert("over"@.len() != "do"@.len());
    assert("over"@.len() != "initial"@.len());
    assert("do"@.len() != "initial"@.len());
    let rules = rules_of(Record::Fold);
    reveal_with_fuel(rule_for, 4);
    reveal_with_fuel(missing_from, 4);
    assert(rule_for(rules, "over"@, 0) == Some(0int));
    assert(rule_for(rules, "do"@, 0) == Some(1int));
    assert(rule_for(rules, "initial"@, 0) == Some(2int));
    assert forall|k: int| 0 <= k < e.len() implies (#[trigger] e[k]).0 == "over"@ || e[k].0
        == "do"@ || e[k].0 == "initial"@ by {
        lemma_entry_known(e, Record::Fold, e.len() as int, k);
        lemma_rule_for(rules, e[k].0, 0);
    }
}

/// A filter is read only where what it must have is there, each field holds what it
/// may, and nothing else is there.
pub proof fn a_filter_is_read_only_whole(e: Entries)
    requires
        record_problem(e, Record::Filter) is None,
    ensures
        lookup(e, "over"@) is Some,
        lookup(e, "infer"@) matches Some(v) ==> (v is Text || v is Null),
        lookup(e, "model"@) matches Some(v) ==> (v is Text || v is Null),
        lookup(e, "concurrency"@) matches Some(v) ==> (
            v matches Json::Num(Num::Int(n)) && 0 <= n <= usize::MAX
        ),
        forall|k: int|
            0 <= k < e.len() ==> (#[trigger] e[k]).0 == "over"@ || e[k].0 == "where"@ || e[k].0
                == "infer"@ || e[k].0 == "model"@ || e[k].0 == "concurrency"@,
{
    reveal_strlit("over");
    reveal_strlit("where");
    reveal_strlit("infer");
    reveal_strlit("model");
    reveal_strlit("concurrency");
    assert("over"@.len() != "where"@.len());
    assert("over"@.len() != "infer"@.len());
    assert("over"@.len() != "model"@.len());
    assert("over"@.len() != "concurrency"@.len());
    assert("where"@[0] != "infer"@[0]);
    assert("where"@[0] != "model"@[0]);
    assert("where"@.len() != "concurrency"@.len());
    assert("infer"@[0] != "model"@[0]);
    assert("infer"@.len() != "concurrency"@.len());
    assert("model"@.len() != "concurrency"@.len());
    let rules = rules_of(Record::Filter);
    reveal_with_fuel(rule_for, 6);
    reveal_with_fuel(missing_from, 6);
    assert(rule_for(rules, "over"@, 0) == Some(0int));
    assert(rule_for(rules, "where"@, 0) == Some(1int));
    assert(rule_for(rules, "infer"@, 0) == Some(2int));
    assert(rule_for(rules, "model"@, 0) == Some(3int));
    assert(rule_for(rules, "concurrency"@, 0) == Some(4int));
    lemma_field_fits(e, Record::Filter, "infer"@);
    lemma_field_fits(e, Record::Filter, "model"@);
    lemma_field_fits(e, Record::Filter, "concurrency"@);
    assert forall|k: int| 0 <= k < e.len() implies (#[trigger] e[k]).0 == "over"@ || e[k].0
        == "where"@ || e[k].0 == "infer"@ || e[k].0 == "model"@ || e[k].0 == "concurrency"@ by {
        lemma_entry_known(e, Record::Filter, e.len() as int, k);
        lemma_rule_for(rules, e[k].0, 0);
    }
}

/// A question is read only where what it must have is there, each field holds what it
/// may, and nothing else is there.
pub proof fn a_question_is_read_only_whole(e: Entries)
    requires
        record_problem(e, Record::Ask) is None,
    ensures
        lookup(e, "prompt"@) is Some,
        lookup(e, "outputSchema"@) is Some || lookup(e, "output_schema"@) is Some,
        lookup(e, "prompt"@) matches Some(v) ==> (v is Text),
        lookup(e, "whenUnanswered"@) matches Some(v) ==> (names_choice(Some(v), "fail"@)
            || names_choice(Some(v), "default"@)),
        lookup(e, "when_unanswered"@) matches Some(v) ==> (names_choice(Some(v), "fail"@)
            || names_choice(Some(v), "default"@)),
        forall|k: int|
            0 <= k < e.len() ==> (#[trigger] e[k]).0 == "prompt"@ || e[k].0 == "outputSchema"@
                || e[k].0 == "output_schema"@ || e[k].0 == "whenUnanswered"@ || e[k].0
                == "when_unanswered"@ || e[k].0 == "default"@,
{
    reveal_strlit("prompt");
    reveal_strlit("outputSchema");
    reveal_strlit("output_schema");
    reveal_strlit("whenUnanswered");
    reveal_strlit("when_unanswered");
    reveal_strlit("default");
    assert("prompt"@.len() != "outputSchema"@.len());
    assert("prompt"@.len() != "output_schema"@.len());
    assert("prompt"@.len() != "whenUnanswered"@.len());
    assert("prompt"@.len() != "when_unanswered"@.len());
    assert("prompt"@.len() != "default"@.len());
    assert("outputSchema"@.len() != "output_schema"@.len());
    assert("outputSchema"@.len() != "whenUnanswered"@.len());
    assert("outputSchema"@.len() != "when_unanswered"@.len());
    assert("outputSchema"@.len() != "default"@.len());
    assert("output_schema"@.len() != "whenUnanswered"@.len());
    assert("output_schema"@.len() != "when_unanswered"@.len());
    assert("output_schema"@.len() != "default"@.len());
    assert("whenUnanswered"@.len() != "when_unanswered"@.len());
    assert("whenUnanswered"@.len() != "default"@.len());
    assert("when_unanswered"@.len() != "default"@.len());
    let rules = rules_of(Record::Ask);
    reveal_with_fuel(rule_for, 5);
    reveal_with_fuel(missing_from, 5);
    assert(rule_for(rules, "prompt"@, 0) == Some(0int));
    assert(rule_for(rules, "outputSchema"@, 0) == Some(1int));
    assert(rule_for(rules, "output_schema"@, 0) == Some(1int));
    assert(rule_for(rules, "whenUnanswered"@, 0) == Some(2int));
    assert(rule_for(rules, "when_unanswered"@, 0) == Some(2int));
    assert(rule_for(rules, "default"@, 0) == Some(3int));
    lemma_field_fits(e, Record::Ask, "prompt"@);
    lemma_field_fits(e, Record::Ask, "whenUnanswered"@);
    if let Some(v) = lookup(e, "whenUnanswered"@) {
        lemma_chosen_two(v, "fail"@, "default"@);
    }
    lemma_field_fits(e, Record::Ask, "when_unanswered"@);
    if let Some(v) = lookup(e, "when_unanswered"@) {
        lemma_chosen_two(v, "fail"@, "default"@);
    }
    assert forall|k: int| 0 <= k < e.len() implies (#[trigger] e[k]).0 == "prompt"@ || e[k].0
        == "outputSchema"@ || e[k].0 == "output_schema"@ || e[k].0 == "whenUnanswered"@ || e[k].0
        == "when_unanswered"@ || e[k].0 == "default"@ by {
        lemma_entry_known(e, Record::Ask, e.len() as int, k);
        lemma_rule_for(rules, e[k].0, 0);
    }
}

/// An agent is read only where what it must have is there, each field holds what it
/// may, and nothing else is there.
pub proof fn an_agent_is_read_only_whole(e: Entries)
    requires
        record_problem(e, Record::Agent) is None,
    ensures
        lookup(e, "prompt"@) is Some,
        lookup(e, "outputSchema"@) is Some || lookup(e, "output_schema"@) is Some,
        lookup(e, "prompt"@) matches Some(v) ==> (v is Text),
        lookup(e, "model"@) matches Some(v) ==> (v is Text || v is Null),
        lookup(e, "systemPrompt"@) matches Some(v) ==> (v is Text || v is Null),
        lookup(e, "system_prompt"@) matches Some(v) ==> (v is Text || v is Null),
        lookup(e, "maxIterations"@) matches Some(v) ==> (
            v matches Json::Num(Num::Int(n)) && 0 <= n <= u32::MAX
        ),
        lookup(e, "max_iterations"@) matches Some(v) ==> (
            v matches Json::Num(Num::Int(n)) && 0 <= n <= u32::MAX
        ),
        lookup(e, "tools"@) matches Some(v) ==> (v is List || v is Null),
        forall|k: int|
            0 <= k < e.len() ==> (#[trigger] e[k]).0 == "prompt"@ || e[k].0 == "model"@ || e[k].0
                == "systemPrompt"@ || e[k].0 == "system_prompt"@ || e[k].0 == "maxIterations"@
                || e[k].0 == "max_iterations"@ || e[k].0 == "tools"@ || e[k].0 == "outputSchema"@
                || e[k].0 == "output_schema"@,
{
    reveal_strlit("prompt");
    reveal_strlit("model");
    reveal_strlit("systemPrompt");
    reveal_strlit("system_prompt");
    reveal_strlit("maxIterations");
    reveal_strlit("max_iterations");
    reveal_strlit("tools");
    reveal_strlit("outputSchema");
    reveal_strlit("output_schema");
    assert("prompt"@.len() != "model"@.len());
    assert("prompt"@.len() != "systemPrompt"@.len());
    assert("prompt"@.len() != "system_prompt"@.len());
    assert("prompt"@.len() != "maxIterations"@.len());
    assert("prompt"@.len() != "max_iterations"@.len());
    assert("prompt"@.len() != "tools"@.len());
    assert("prompt"@.len() != "outputSchema"@.len());
    assert("prompt"@.len() != "output_schema"@.len());
    assert("model"@.len() != "systemPrompt"@.len());
    assert("model"@.len() != "system_prompt"@.len());
    assert("model"@.len() != "maxIterations"@.len());
    assert("model"@.len() != "max_iterations"@.len());
    assert("model"@[0] != "tools"@[0]);
    assert("model"@.len() != "outputSchema"@.len());
    assert("model"@.len() != "output_schema"@.len());
    assert("systemPrompt"@.len() != "system_prompt"@.len());
    assert("systemPrompt"@.len() != "maxIterations"@.len());
    assert("systemPrompt"@.len() != "max_iterations"@.len());
    assert("systemPrompt"@.len() != "tools"@.len());
    assert("systemPrompt"@[0] != "outputSchema"@[0]);
    assert("systemPrompt"@.len() != "output_schema"@.len());
    assert("system_prompt"@[0] != "maxIterations"@[0]);
    assert("system_prompt"@.len() != "max_iterations"@.len());
    assert("system_prompt"@.len() != "tools"@.len());
    assert("system_prompt"@.len() != "outputSchema"@.len());
    assert("system_prompt"@[0] != "output_schema"@[0]);
    assert("maxIterations"@.len() != "max_iterations"@.len());
    assert("maxIterations"@.len() != "tools"@.len());
    assert("maxIterations"@.len() != "outputSchema"@.len());
    assert("maxIterations"@[0] != "output_schema"@[0]);
    assert("max_iterations"@.len() != "tools"@.len());
    assert("max_iterations"@.len() != "outputSchema"@.len());
    assert("max_iterations"@.len() != "output_schema"@.len());
    assert("tools"@.len() != "outputSchema"@.len());
    assert("tools"@.len() != "output_schema"@.len());
    assert("outputSchema"@.len() != "output_schema"@.len());
    let rules = rules_of(Record::Agent);
    reveal_with_fuel(rule_for, 7);
    reveal_with_fuel(missing_from, 7);
    assert(rule_for(rules, "prompt"@, 0) == Some(0int));
    assert(rule_for(rules, "model"@, 0) == Some(1int));
    assert(rule_for(rules, "systemPrompt"@, 0) == Some(2int));
    assert(rule_for(rules, "system_prompt"@, 0) == Some(2int));
    assert(rule_for(rules, "maxIterations"@, 0) == Some(3int));
    assert(rule_for(rules, "max_iterations"@, 0) == Some(3int));
    assert(rule_for(rules, "tools"@, 0) == Some(4int));
    assert(rule_for(rules, "outputSchema"@, 0) == Some(5int));
    assert(rule_for(rules, "output_schema"@, 0) == Some(5int));
    lemma_field_fits(e, Record::Agent, "prompt"@);
    lemma_field_fits(e, Record::Agent, "model"@);
    lemma_field_fits(e, Record::Agent, "systemPrompt"@);
    lemma_field_fits(e, Record::Agent, "system_prompt"@);
    lemma_field_fits(e, Record::Agent, "maxIterations"@);
    lemma_field_fits(e, Record::Agent, "max_iterations"@);
    lemma_field_fits(e, Record::Agent, "tools"@);
    assert forall|k: int| 0 <= k < e.len() implies (#[trigger] e[k]).0 == "prompt"@ || e[k].0
        == "model"@ || e[k].0 == "systemPrompt"@ || e[k].0 == "system_prompt"@ || e[k].0
        == "maxIterations"@ || e[k].0 == "max_iterations"@ || e[k].0 == "tools"@ || e[k].0
        == "outputSchema"@ || e[k].0 == "output_schema"@ by {
        lemma_entry_known(e, Record::Agent, e.len() as int, k);
        lemma_rule_for(rules, e[k].0, 0);
    }
}

/// A document is read only where what it must have is there, each field holds what it
/// may, and nothing else is there.
pub proof fn a_document_is_read_only_whole(e: Entries)
    requires
        record_problem(e, Record::Document) is None,
    ensures
        lookup(e, "identifier"@) is Some,
        lookup(e, "name"@) is Some,
        lookup(e, "description"@) is Some,
        lookup(e, "steps"@) is Some,
        lookup(e, "identifier"@) matches Some(v) ==> (v is Text),
        lookup(e, "name"@) matches Some(v) ==> (v is Text),
        lookup(e, "description"@) matches Some(v) ==> (v is Text),
        lookup(e, "exemplars"@) matches Some(v) ==> (v is List),
        lookup(e, "requires_servers"@) matches Some(v) ==> (v is List),
        lookup(e, "steps"@) matches Some(v) ==> (v is List && is_plan(v->List_0)),
        lookup(e, "solver"@) matches Some(v) ==> (v is Null || v is Object || v is List),
        lookup(e, "output"@) matches Some(v) ==> (v is Object || v is Null),
        forall|k: int|
            0 <= k < e.len() ==> (#[trigger] e[k]).0 == "identifier"@ || e[k].0 == "name"@
                || e[k].0 == "description"@ || e[k].0 == "exemplars"@ || e[k].0
                == "requires_servers"@ || e[k].0 == "input_schema"@ || e[k].0 == "steps"@
                || e[k].0 == "solver"@ || e[k].0 == "output"@,
{
    reveal_strlit("identifier");
    reveal_strlit("name");
    reveal_strlit("description");
    reveal_strlit("exemplars");
    reveal_strlit("requires_servers");
    reveal_strlit("input_schema");
    reveal_strlit("steps");
    reveal_strlit("solver");
    reveal_strlit("output");
    assert("identifier"@.len() != "name"@.len());
    assert("identifier"@.len() != "description"@.len());
    assert("identifier"@.len() != "exemplars"@.len());
    assert("identifier"@.len() != "requires_servers"@.len());
    assert("identifier"@.len() != "input_schema"@.len());
    assert("identifier"@.len() != "steps"@.len());
    assert("identifier"@.len() != "solver"@.len());
    assert("identifier"@.len() != "output"@.len());
    assert("name"@.len() != "description"@.len());
    assert("name"@.len() != "exemplars"@.len());
    assert("name"@.len() != "requires_servers"@.len());
    assert("name"@.len() != "input_schema"@.len());
    assert("name"@.len() != "steps"@.len());
    assert("name"@.len() != "solver"@.len());
    assert("name"@.len() != "output"@.len());
    assert("description"@.len() != "exemplars"@.len());
    assert("description"@.len() != "requires_servers"@.len());
    assert("description"@.len() != "input_schema"@.len());
    assert("description"@.len() != "steps"@.len());
    assert("description"@.len() != "solver"@.len());
    assert("description"@.len() != "output"@.len());
    assert("exemplars"@.len() != "requires_servers"@.len());
    assert("exemplars"@.len() != "input_schema"@.len());
    assert("exemplars"@.len() != "steps"@.len());
    assert("exemplars"@.len() != "solver"@.len());
    assert("exemplars"@.len() != "output"@.len());
    assert("requires_servers"@.len() != "input_schema"@.len());
    assert("requires_servers"@.len() != "steps"@.len());
    assert("requires_servers"@.len() != "solver"@.len());
    assert("requires_servers"@.len() != "output"@.len());
    assert("input_schema"@.len() != "steps"@.len());
    assert("input_schema"@.len() != "solver"@.len());
    assert("input_schema"@.len() != "output"@.len());
    assert("steps"@.len() != "solver"@.len());
    assert("steps"@.len() != "output"@.len());
    assert("solver"@[0] != "output"@[0]);
    let rules = rules_of(Record::Document);
    reveal_with_fuel(rule_for, 10);
    reveal_with_fuel(missing_from, 10);
    assert(rule_for(rules, "identifier"@, 0) == Some(0int));
    assert(rule_for(rules, "name"@, 0) == Some(1int));
    assert(rule_for(rules, "description"@, 0) == Some(2int));
    assert(rule_for(rules, "exemplars"@, 0) == Some(3int));
    assert(rule_for(rules, "requires_servers"@, 0) == Some(4int));
    assert(rule_for(rules, "input_schema"@, 0) == Some(5int));
    assert(rule_for(rules, "steps"@, 0) == Some(6int));
    assert(rule_for(rules, "solver"@, 0) == Some(7int));
    assert(rule_for(rules, "output"@, 0) == Some(8int));
    lemma_field_fits(e, Record::Document, "identifier"@);
    lemma_field_fits(e, Record::Document, "name"@);
    lemma_field_fits(e, Record::Document, "description"@);
    lemma_field_fits(e, Record::Document, "exemplars"@);
    lemma_field_fits(e, Record::Document, "requires_servers"@);
    lemma_field_fits(e, Record::Document, "steps"@);
    if let Some(v) = lookup(e, "steps"@) {
        lemma_read_plan(v->List_0, v->List_0.len() as int);
    }
    lemma_field_fits(e, Record::Document, "solver"@);
    lemma_field_fits(e, Record::Document, "output"@);
    assert forall|k: int| 0 <= k < e.len() implies (#[trigger] e[k]).0 == "identifier"@ || e[k].0
        == "name"@ || e[k].0 == "description"@ || e[k].0 == "exemplars"@ || e[k].0
        == "requires_servers"@ || e[k].0 == "input_schema"@ || e[k].0 == "steps"@ || e[k].0
        == "solver"@ || e[k].0 == "output"@ by {
        lemma_entry_known(e, Record::Document, e.len() as int, k);
        lemma_rule_for(rules, e[k].0, 0);
    }
}

/// An outline is read only where what it must have is there, each field holds what it
/// may.
pub proof fn an_outline_is_read_only_whole(e: Entries)
    requires
        record_problem(e, Record::Outline) is None,
    ensures
        lookup(e, "items"@) is Some,
        lookup(e, "items"@) matches Some(v) ==> (v is List),
        lookup(e, "queryToAnswer"@) matches Some(v) ==> (v is Text),
        lookup(e, "systemPrompt"@) matches Some(v) ==> (v is Text || v is Null),
{
    reveal_strlit("items");
    reveal_strlit("queryToAnswer");
    reveal_strlit("systemPrompt");
    assert("items"@.len() != "queryToAnswer"@.len());
    assert("items"@.len() != "systemPrompt"@.len());
    assert("queryToAnswer"@.len() != "systemPrompt"@.len());
    let rules = rules_of(Record::Outline);
    reveal_with_fuel(rule_for, 4);
    reveal_with_fuel(missing_from, 4);
    assert(rule_for(rules, "items"@, 0) == Some(0int));
    assert(rule_for(rules, "queryToAnswer"@, 0) == Some(1int));
    assert(rule_for(rules, "systemPrompt"@, 0) == Some(2int));
    lemma_field_fits(e, Record::Outline, "items"@);
    lemma_field_fits(e, Record::Outline, "queryToAnswer"@);
    lemma_field_fits(e, Record::Outline, "systemPrompt"@);
}

/// A stage is read only where what it must have is there, each field holds what it
/// may.
pub proof fn a_stage_is_read_only_whole(e: Entries)
    requires
        record_problem(e, Record::Stage) is None,
    ensures
        lookup(e, "summary"@) is Some,
        lookup(e, "summary"@) matches Some(v) ==> (v is Text),
        lookup(e, "expectedTool"@) matches Some(v) ==> (v is Text || v is Null),
{
    reveal_strlit("summary");
    reveal_strlit("expectedTool");
    assert("summary"@.len() != "expectedTool"@.len());
    let rules = rules_of(Record::Stage);
    reveal_with_fuel(rule_for, 3);
    reveal_with_fuel(missing_from, 3);
    assert(rule_for(rules, "summary"@, 0) == Some(0int));
    assert(rule_for(rules, "expectedTool"@, 0) == Some(1int));
    lemma_field_fits(e, Record::Stage, "summary"@);
    lemma_field_fits(e, Record::Stage, "expectedTool"@);
}

/// A step draft is read only where what it must have is there, each field holds what it
/// may.
pub proof fn a_step_draft_is_read_only_whole(e: Entries)
    requires
        record_problem(e, Record::StepDraft) is None,
    ensures
        lookup(e, "step"@) matches Some(v) ==> (v is Null || step_of(v) is Ok),
        lookup(e, "planComplete"@) matches Some(v) ==> (v is Bool),
{
    reveal_strlit("step");
    reveal_strlit("planComplete");
    assert("step"@.len() != "planComplete"@.len());
    let rules = rules_of(Record::StepDraft);
    reveal_with_fuel(rule_for, 3);
    reveal_with_fuel(missing_from, 3);
    assert(rule_for(rules, "step"@, 0) == Some(0int));
    assert(rule_for(rules, "planComplete"@, 0) == Some(1int));
    lemma_field_fits(e, Record::StepDraft, "step"@);
    lemma_field_fits(e, Record::StepDraft, "planComplete"@);
}

/// A verdict is read only where what it must have is there, each field holds what it
/// may.
pub proof fn a_verdict_is_read_only_whole(e: Entries)
    requires
        record_problem(e, Record::Verdict) is None,
    ensures
        lookup(e, "verdict"@) is Some,
        lookup(e, "reason"@) is Some,
        lookup(e, "verdict"@) matches Some(v) ==> (v is Bool),
        lookup(e, "reason"@) matches Some(v) ==> (v is Text),
{
    reveal_strlit("verdict");
    reveal_strlit("reason");
    assert("verdict"@.len() != "reason"@.len());
    let rules = rules_of(Record::Verdict);
    reveal_with_fuel(rule_for, 3);
    reveal_with_fuel(missing_from, 3);
    assert(rule_for(rules, "verdict"@, 0) == Some(0int));
    assert(rule_for(rules, "reason"@, 0) == Some(1int));
    lemma_field_fits(e, Record::Verdict, "verdict"@);
    lemma_field_fits(e, Record::Verdict, "reason"@);
}

} // verus!
