//! The control steps as they are described to a planner: prompt surface, and the
//! catalog from which an authoring agent learns that a control step exists and
//! what its input looks like.

use crate::tools::{tools_view, ToolDef, ToolDefView};
use crate::value::{
    list1, list2, list3, list9, obj1, obj2, obj3, obj4, obj5, obj6, object, Data, Json, Num,
};
use vstd::prelude::*;

verus! {

/// Reserved step tool names.
pub const AGENT_TOOL: &'static str = "agent";

pub const ASK_TOOL: &'static str = "ask";

pub const EXIT_TOOL: &'static str = "exit";

pub const DECIDE_TOOL: &'static str = "decide";

pub const FILTER_TOOL: &'static str = "filter";

pub const MAP_TOOL: &'static str = "map";

pub const REDUCE_TOOL: &'static str = "reduce";

/// A field that is only described.
pub open spec fn noted_field(description: Seq<char>) -> Json {
    Json::Object(object(seq![("description"@, Json::Text(description))]))
}

fn note_field(description: &str) -> (r: Data)
    ensures
        r@ == noted_field(description@),
{
    obj1("description", Data::text(description))
}

/// A field of a type.
pub open spec fn typed_field(kind: Seq<char>, description: Seq<char>) -> Json {
    Json::Object(
        object(seq![("type"@, Json::Text(kind)), ("description"@, Json::Text(description))]),
    )
}

fn type_field(kind: &str, description: &str) -> (r: Data)
    ensures
        r@ == typed_field(kind@, description@),
{
    obj2("type", Data::text(kind), "description", Data::text(description))
}

/// The schema of a condition.
pub open spec fn condition_schema(value: Seq<char>) -> Json {
    Json::Object(
        object(
            seq![
                ("type"@, Json::Text("object"@)),
                ("required"@, Json::List(seq![Json::Text("value"@), Json::Text("op"@)])),
                (
                    "properties"@,
                    Json::Object(
                        object(
                            seq![
                                ("value"@, noted_field(value)),
                                (
                                    "op"@,
                                    Json::Object(
                                        object(
                                            seq![
                                                ("type"@, Json::Text("string"@)),
                                                (
                                                    "enum"@,
                                                    Json::List(
                                                        seq![
                                                            Json::Text("eq"@),
                                                            Json::Text("ne"@),
                                                            Json::Text("gt"@),
                                                            Json::Text("lt"@),
                                                            Json::Text("gte"@),
                                                            Json::Text("lte"@),
                                                            Json::Text("empty"@),
                                                            Json::Text("not_empty"@),
                                                            Json::Text("contains"@),
                                                        ],
                                                    ),
                                                ),
                                            ],
                                        ),
                                    ),
                                ),
                                (
                                    "to"@,
                                    noted_field("Comparison operand (omit for empty/not_empty)"@),
                                ),
                            ],
                        ),
                    ),
                ),
            ],
        ),
    )
}

fn write_condition_schema(value: &str) -> (r: Data)
    ensures
        r@ == condition_schema(value@),
{
    obj3(
        "type",
        Data::text("object"),
        "required",
        list2(Data::text("value"), Data::text("op")),
        "properties",
        obj3(
            "value",
            note_field(value),
            "op",
            obj2(
                "type",
                Data::text("string"),
                "enum",
                list9(
                    Data::text("eq"),
                    Data::text("ne"),
                    Data::text("gt"),
                    Data::text("lt"),
                    Data::text("gte"),
                    Data::text("lte"),
                    Data::text("empty"),
                    Data::text("not_empty"),
                    Data::text("contains"),
                ),
            ),
            "to",
            note_field("Comparison operand (omit for empty/not_empty)"),
        ),
    )
}

/// What a body's tool may be.
pub open spec fn tool_name_doc(allow_exit: bool) -> Seq<char> {
    if allow_exit {
        "Exact tool name; may be plan__* for a multi-step body, or exit (ends the WHOLE plan from inside the branch). Never decide, map, or reduce."@
    } else {
        "Exact tool name; may be plan__* for a multi-step body. Never exit, decide, map, or reduce."@
    }
}

/// The schema of a body.
pub open spec fn body_shape(allow_exit: bool) -> Json {
    Json::Object(
        object(
            seq![
                (
                    "oneOf"@,
                    Json::List(
                        seq![
                            Json::Object(
                                object(
                                    seq![
                                        ("type"@, Json::Text("object"@)),
                                        (
                                            "required"@,
                                            Json::List(
                                                seq![Json::Text("toolName"@), Json::Text("input"@)],
                                            ),
                                        ),
                                        (
                                            "properties"@,
                                            Json::Object(
                                                object(
                                                    seq![
                                                        (
                                                            "toolName"@,
                                                            typed_field(
                                                                "string"@,
                                                                tool_name_doc(allow_exit),
                                                            ),
                                                        ),
                                                        (
                                                            "input"@,
                                                            Json::Object(
                                                                object(
                                                                    seq![
                                                                        (
                                                                            "type"@,
                                                                            Json::Text("object"@),
                                                                        ),
                                                                    ],
                                                                ),
                                                            ),
                                                        ),
                                                    ],
                                                ),
                                            ),
                                        ),
                                    ],
                                ),
                            ),
                            Json::Object(
                                object(
                                    seq![
                                        ("type"@, Json::Text("array"@)),
                                        (
                                            "items"@,
                                            Json::Object(
                                                object(
                                                    seq![
                                                        ("type"@, Json::Text("object"@)),
                                                        (
                                                            "required"@,
                                                            Json::List(
                                                                seq![
                                                                    Json::Text("id"@),
                                                                    Json::Text("toolName"@),
                                                                    Json::Text("input"@),
                                                                ],
                                                            ),
                                                        ),
                                                        (
                                                            "properties"@,
                                                            Json::Object(
                                                                object(
                                                                    seq![
                                                                        (
                                                                            "id"@,
                                                                            typed_field(
                                                                                "string"@,
                                                                                "Identifier (letters, digits, _) unique across the whole plan; visible only inside this body."@,
                                                                            ),
                                                                        ),
                                                                        (
                                                                            "toolName"@,
                                                                            Json::Object(
                                                                                object(
                                                                                    seq![
                                                                                        (
                                                                                            "type"@,
                                                                                            Json::Text("string"@),
                                                                                        ),
                                                                                    ],
                                                                                ),
                                                                            ),
                                                                        ),
                                                                        (
                                                                            "input"@,
                                                                            Json::Object(
                                                                                object(
                                                                                    seq![
                                                                                        (
                                                                                            "type"@,
                                                                                            Json::Text("object"@),
                                                                                        ),
                                                                                    ],
                                                                                ),
                                                                            ),
                                                                        ),
                                                                    ],
                                                                ),
                                                            ),
                                                        ),
                                                    ],
                                                ),
                                            ),
                                        ),
                                    ],
                                ),
                            ),
                        ],
                    ),
                ),
            ],
        ),
    )
}

/// The body schema shared by the decide/map/reduce descriptions. `allow_exit`
/// mirrors the validator: decide branches may hold `exit` steps, iteration
/// bodies may not.
pub fn body_schema(allow_exit: bool) -> (r: Data)
    ensures
        r@ == body_shape(allow_exit),
{
    let doc = if allow_exit {
        "Exact tool name; may be plan__* for a multi-step body, or exit (ends the WHOLE plan from inside the branch). Never decide, map, or reduce."
    } else {
        "Exact tool name; may be plan__* for a multi-step body. Never exit, decide, map, or reduce."
    };
    obj1(
        "oneOf",
        list2(
            obj3(
                "type",
                Data::text("object"),
                "required",
                list2(Data::text("toolName"), Data::text("input")),
                "properties",
                obj2(
                    "toolName",
                    type_field("string", doc),
                    "input",
                    obj1("type", Data::text("object")),
                ),
            ),
            obj2(
                "type",
                Data::text("array"),
                "items",
                obj3(
                    "type",
                    Data::text("object"),
                    "required",
                    list3(Data::text("id"), Data::text("toolName"), Data::text("input")),
                    "properties",
                    obj3(
                        "id",
                        type_field(
                            "string",
                            "Identifier (letters, digits, _) unique across the whole plan; visible only inside this body.",
                        ),
                        "toolName",
                        obj1("type", Data::text("string")),
                        "input",
                        obj1("type", Data::text("object")),
                    ),
                ),
            ),
        ),
    )
}

/// The exit step as described to the planner.
pub open spec fn exit_tool() -> ToolDefView {
    ToolDefView {
        name: EXIT_TOOL@,
        description: "End the plan early with a success or error state. Use it instead of fabricating results: exit success when there is legitimately nothing to do (e.g. a search returned nothing actionable), exit error to assert a failure condition. Gate it with `when` (a logical comparison) or `infer` (a yes/no question judged against prior results); omit both to exit unconditionally. When its gate does not fire, the plan continues."@,
        input_schema: Json::Object(
            object(
                seq![
                    ("type"@, Json::Text("object"@)),
                    ("required"@, Json::List(seq![Json::Text("status"@)])),
                    (
                        "properties"@,
                        Json::Object(
                            object(
                                seq![
                                    (
                                        "status"@,
                                        Json::Object(
                                            object(
                                                seq![
                                                    ("type"@, Json::Text("string"@)),
                                                    (
                                                        "enum"@,
                                                        Json::List(
                                                            seq![
                                                                Json::Text("success"@),
                                                                Json::Text("error"@),
                                                            ],
                                                        ),
                                                    ),
                                                ],
                                            ),
                                        ),
                                    ),
                                    (
                                        "message"@,
                                        typed_field(
                                            "string"@,
                                            "Shown as the plan's answer / error message. May use templates."@,
                                        ),
                                    ),
                                    (
                                        "when"@,
                                        condition_schema(
                                            "Usually a template like {{E0.issues.length}}"@,
                                        ),
                                    ),
                                    (
                                        "infer"@,
                                        typed_field(
                                            "string"@,
                                            "A yes/no question about prior results; exits when the answer is yes."@,
                                        ),
                                    ),
                                ],
                            ),
                        ),
                    ),
                ],
            ),
        ),
        output_schema: None,
        output_example: Some(
            Json::Object(
                object(
                    seq![
                        ("passed"@, Json::Bool(true)),
                        ("verdict"@, Json::Bool(false)),
                        ("reason"@, Json::Text("…"@)),
                    ],
                ),
            ),
        ),
        read_only: Some(true),
    }
}

/// The exit step as described to the planner.
pub fn exit_tool_def() -> (r: ToolDef)
    ensures
        r@ == exit_tool(),
{
    ToolDef {
        name: EXIT_TOOL.to_owned(),
        description: "End the plan early with a success or error state. Use it instead of fabricating results: exit success when there is legitimately nothing to do (e.g. a search returned nothing actionable), exit error to assert a failure condition. Gate it with `when` (a logical comparison) or `infer` (a yes/no question judged against prior results); omit both to exit unconditionally. When its gate does not fire, the plan continues.".to_owned(),
        input_schema: obj3(
            "type",
            Data::text("object"),
            "required",
            list1(Data::text("status")),
            "properties",
            obj4(
                "status",
                obj2(
                    "type",
                    Data::text("string"),
                    "enum",
                    list2(Data::text("success"), Data::text("error")),
                ),
                "message",
                type_field(
                    "string",
                    "Shown as the plan's answer / error message. May use templates.",
                ),
                "when",
                write_condition_schema("Usually a template like {{E0.issues.length}}"),
                "infer",
                type_field(
                    "string",
                    "A yes/no question about prior results; exits when the answer is yes.",
                ),
            ),
        ),
        output_schema: None,
        output_example: Some(
            obj3(
                "passed",
                Data::Bool(true),
                "verdict",
                Data::Bool(false),
                "reason",
                Data::text("…"),
            ),
        ),
        read_only: Some(true),
    }
}

/// The decide step as described to the planner.
pub open spec fn decide_tool() -> ToolDefView {
    ToolDefView {
        name: DECIDE_TOOL@,
        description: "Fork the plan on a condition: run `then` when it holds, otherwise `else` (or continue if `else` is omitted). Use it when the correct next call depends on a prior result — e.g. update an existing record vs. create a new one. Gate it with exactly one of `if` (a logical comparison) or `infer` (a yes/no question judged against prior results). A branch is a single tool call or a list of steps; branches may contain `agent`, `ask`, `filter` and `exit` steps (a fired exit ends the WHOLE plan) but not `decide`, `map`, or `reduce` — call a plan (plan__*) for nested control flow. Later steps reference this step's id: {{Ex.result}} is the chosen branch's output, {{Ex.branch}} which side ran."@,
        input_schema: Json::Object(
            object(
                seq![
                    ("type"@, Json::Text("object"@)),
                    ("required"@, Json::List(seq![Json::Text("then"@)])),
                    (
                        "properties"@,
                        Json::Object(
                            object(
                                seq![
                                    (
                                        "if"@,
                                        condition_schema(
                                            "Usually a template like {{E0.issues.length}}"@,
                                        ),
                                    ),
                                    (
                                        "infer"@,
                                        typed_field(
                                            "string"@,
                                            "A yes/no question about prior results; runs `then` on yes."@,
                                        ),
                                    ),
                                    ("then"@, body_shape(true)),
                                    ("else"@, body_shape(true)),
                                ],
                            ),
                        ),
                    ),
                ],
            ),
        ),
        output_schema: None,
        output_example: Some(
            Json::Object(
                object(
                    seq![
                        ("branch"@, Json::Text("then"@)),
                        ("verdict"@, Json::Bool(true)),
                        ("reason"@, Json::Text("…"@)),
                        ("result"@, Json::Object(object(seq![("…"@, Json::Text("…"@))]))),
                    ],
                ),
            ),
        ),
        read_only: None,
    }
}

/// The decide step as described to the planner.
pub fn decide_tool_def() -> (r: ToolDef)
    ensures
        r@ == decide_tool(),
{
    ToolDef {
        name: DECIDE_TOOL.to_owned(),
        description: "Fork the plan on a condition: run `then` when it holds, otherwise `else` (or continue if `else` is omitted). Use it when the correct next call depends on a prior result — e.g. update an existing record vs. create a new one. Gate it with exactly one of `if` (a logical comparison) or `infer` (a yes/no question judged against prior results). A branch is a single tool call or a list of steps; branches may contain `agent`, `ask`, `filter` and `exit` steps (a fired exit ends the WHOLE plan) but not `decide`, `map`, or `reduce` — call a plan (plan__*) for nested control flow. Later steps reference this step's id: {{Ex.result}} is the chosen branch's output, {{Ex.branch}} which side ran.".to_owned(),
        input_schema: obj3(
            "type",
            Data::text("object"),
            "required",
            list1(Data::text("then")),
            "properties",
            obj4(
                "if",
                write_condition_schema("Usually a template like {{E0.issues.length}}"),
                "infer",
                type_field("string", "A yes/no question about prior results; runs `then` on yes."),
                "then",
                body_schema(true),
                "else",
                body_schema(true),
            ),
        ),
        output_schema: None,
        output_example: Some(
            obj4(
                "branch",
                Data::text("then"),
                "verdict",
                Data::Bool(true),
                "reason",
                Data::text("…"),
                "result",
                obj1("…", Data::text("…")),
            ),
        ),
        read_only: None,
    }
}

/// The map step as described to the planner.
pub open spec fn map_tool() -> ToolDefView {
    ToolDefView {
        name: MAP_TOOL@,
        description: "Run the same body once per item of a list. `over` must produce an array (usually a template like {{E0.issues}}); the body (`do`) runs once per element with {{item}} (the element) and {{index}} (0-based) available alongside earlier step results. Per-item results are collected in input order: later steps reference {{Ex.results}} for the list and {{Ex.count}} for how many ran. Set `concurrency` above 1 only when the per-item calls are independent. The body may contain `agent`, `ask` and `filter` steps, but not `exit`, `decide`, `map`, or `reduce` — call a plan (plan__*) for nested control flow."@,
        input_schema: Json::Object(
            object(
                seq![
                    ("type"@, Json::Text("object"@)),
                    ("required"@, Json::List(seq![Json::Text("over"@), Json::Text("do"@)])),
                    (
                        "properties"@,
                        Json::Object(
                            object(
                                seq![
                                    (
                                        "over"@,
                                        noted_field(
                                            "The list to iterate — usually a template like {{E0.issues}} that resolves to an array."@,
                                        ),
                                    ),
                                    ("do"@, body_shape(false)),
                                    (
                                        "concurrency"@,
                                        Json::Object(
                                            object(
                                                seq![
                                                    ("type"@, Json::Text("integer"@)),
                                                    ("minimum"@, Json::Num(Num::Int(1))),
                                                    (
                                                        "description"@,
                                                        Json::Text(
                                                            "Maximum items in flight; 1 (default) runs items one at a time."@,
                                                        ),
                                                    ),
                                                ],
                                            ),
                                        ),
                                    ),
                                ],
                            ),
                        ),
                    ),
                ],
            ),
        ),
        output_schema: None,
        output_example: Some(
            Json::Object(
                object(
                    seq![
                        ("count"@, Json::Num(Num::Int(3))),
                        (
                            "results"@,
                            Json::List(
                                seq![
                                    Json::Object(object(seq![("…"@, Json::Text("…"@))])),
                                    Json::Object(object(seq![("…"@, Json::Text("…"@))])),
                                    Json::Object(object(seq![("…"@, Json::Text("…"@))])),
                                ],
                            ),
                        ),
                    ],
                ),
            ),
        ),
        read_only: None,
    }
}

/// The map step as described to the planner.
pub fn map_tool_def() -> (r: ToolDef)
    ensures
        r@ == map_tool(),
{
    ToolDef {
        name: MAP_TOOL.to_owned(),
        description: "Run the same body once per item of a list. `over` must produce an array (usually a template like {{E0.issues}}); the body (`do`) runs once per element with {{item}} (the element) and {{index}} (0-based) available alongside earlier step results. Per-item results are collected in input order: later steps reference {{Ex.results}} for the list and {{Ex.count}} for how many ran. Set `concurrency` above 1 only when the per-item calls are independent. The body may contain `agent`, `ask` and `filter` steps, but not `exit`, `decide`, `map`, or `reduce` — call a plan (plan__*) for nested control flow.".to_owned(),
        input_schema: obj3(
            "type",
            Data::text("object"),
            "required",
            list2(Data::text("over"), Data::text("do")),
            "properties",
            obj3(
                "over",
                note_field(
                    "The list to iterate — usually a template like {{E0.issues}} that resolves to an array.",
                ),
                "do",
                body_schema(false),
                "concurrency",
                obj3(
                    "type",
                    Data::text("integer"),
                    "minimum",
                    Data::count(1),
                    "description",
                    Data::text("Maximum items in flight; 1 (default) runs items one at a time."),
                ),
            ),
        ),
        output_schema: None,
        output_example: Some(
            obj2(
                "count",
                Data::count(3),
                "results",
                list3(
                    obj1("…", Data::text("…")),
                    obj1("…", Data::text("…")),
                    obj1("…", Data::text("…")),
                ),
            ),
        ),
        read_only: None,
    }
}

/// The reduce step as described to the planner.
pub open spec fn reduce_tool() -> ToolDefView {
    ToolDefView {
        name: REDUCE_TOOL@,
        description: "Fold a list into a single value. `over` must produce an array; the body (`do`) runs once per element in order with {{accumulator}} (the running value, starting at `initial`), {{item}}, and {{index}} available, and each run's result becomes the next {{accumulator}}. Later steps reference {{Ex.result}} for the final value. Always sequential — each iteration depends on the previous; for independent per-item work use `map` (optionally concurrent) and reduce over its results. The body may contain `agent`, `ask` and `filter` steps, but not `exit`, `decide`, `map`, or `reduce` — call a plan (plan__*) for nested control flow."@,
        input_schema: Json::Object(
            object(
                seq![
                    ("type"@, Json::Text("object"@)),
                    ("required"@, Json::List(seq![Json::Text("over"@), Json::Text("do"@)])),
                    (
                        "properties"@,
                        Json::Object(
                            object(
                                seq![
                                    (
                                        "over"@,
                                        noted_field(
                                            "The list to fold — usually a template like {{E1.results}} that resolves to an array."@,
                                        ),
                                    ),
                                    ("do"@, body_shape(false)),
                                    (
                                        "initial"@,
                                        noted_field(
                                            "Starting accumulator value (any JSON; may use templates). Defaults to null."@,
                                        ),
                                    ),
                                ],
                            ),
                        ),
                    ),
                ],
            ),
        ),
        output_schema: None,
        output_example: Some(
            Json::Object(
                object(
                    seq![
                        ("count"@, Json::Num(Num::Int(3))),
                        ("result"@, Json::Object(object(seq![("…"@, Json::Text("…"@))]))),
                    ],
                ),
            ),
        ),
        read_only: None,
    }
}

/// The reduce step as described to the planner.
pub fn reduce_tool_def() -> (r: ToolDef)
    ensures
        r@ == reduce_tool(),
{
    ToolDef {
        name: REDUCE_TOOL.to_owned(),
        description: "Fold a list into a single value. `over` must produce an array; the body (`do`) runs once per element in order with {{accumulator}} (the running value, starting at `initial`), {{item}}, and {{index}} available, and each run's result becomes the next {{accumulator}}. Later steps reference {{Ex.result}} for the final value. Always sequential — each iteration depends on the previous; for independent per-item work use `map` (optionally concurrent) and reduce over its results. The body may contain `agent`, `ask` and `filter` steps, but not `exit`, `decide`, `map`, or `reduce` — call a plan (plan__*) for nested control flow.".to_owned(),
        input_schema: obj3(
            "type",
            Data::text("object"),
            "required",
            list2(Data::text("over"), Data::text("do")),
            "properties",
            obj3(
                "over",
                note_field(
                    "The list to fold — usually a template like {{E1.results}} that resolves to an array.",
                ),
                "do",
                body_schema(false),
                "initial",
                note_field(
                    "Starting accumulator value (any JSON; may use templates). Defaults to null.",
                ),
            ),
        ),
        output_schema: None,
        output_example: Some(obj2("count", Data::count(3), "result", obj1("…", Data::text("…")))),
        read_only: None,
    }
}

/// The filter step as described to the planner.
pub open spec fn filter_tool() -> ToolDefView {
    ToolDefView {
        name: FILTER_TOOL@,
        description: "Partition a list with a per-item gate. `over` must produce an array (usually a template like {{E0.issues}}); its gate — exactly one of `where` (a logical condition) or `infer` (a yes/no question judged per item) — is evaluated once per element with {{item}} and {{index}} available. Later steps reference {{Ex.items}} (elements that passed, input order) with {{Ex.count}}, and {{Ex.dropped}} (elements that did not) with {{Ex.dropped_count}}. Use it to select before iterating — e.g. filter a changed-file list to non-deleted entries, then map over {{Ex.items}} — instead of mapping over entries a later call cannot handle. `infer` costs one judge call per item (set `concurrency` to run them in parallel); prefer `where` whenever a field comparison can decide. Unlike other control steps, `filter` may appear inside `decide`/`map`/`reduce` bodies; its {{item}}/{{index}} shadow the enclosing body's inside that gate."@,
        input_schema: Json::Object(
            object(
                seq![
                    ("type"@, Json::Text("object"@)),
                    ("required"@, Json::List(seq![Json::Text("over"@)])),
                    (
                        "properties"@,
                        Json::Object(
                            object(
                                seq![
                                    (
                                        "over"@,
                                        noted_field(
                                            "The list to partition — usually a template like {{E0.issues}} that resolves to an array."@,
                                        ),
                                    ),
                                    (
                                        "where"@,
                                        condition_schema(
                                            "Usually a template about the current element, like {{item.status}}"@,
                                        ),
                                    ),
                                    (
                                        "infer"@,
                                        typed_field(
                                            "string"@,
                                            "A yes/no question about {{item}}; the element is kept on yes. One judge call per item."@,
                                        ),
                                    ),
                                    (
                                        "model"@,
                                        typed_field(
                                            "string"@,
                                            "Model for `infer` verdicts (a named model or role); defaults to the judge role."@,
                                        ),
                                    ),
                                    (
                                        "concurrency"@,
                                        Json::Object(
                                            object(
                                                seq![
                                                    ("type"@, Json::Text("integer"@)),
                                                    ("minimum"@, Json::Num(Num::Int(1))),
                                                    (
                                                        "description"@,
                                                        Json::Text(
                                                            "Maximum `infer` verdicts in flight; 1 (default) evaluates one at a time."@,
                                                        ),
                                                    ),
                                                ],
                                            ),
                                        ),
                                    ),
                                ],
                            ),
                        ),
                    ),
                ],
            ),
        ),
        output_schema: None,
        output_example: Some(
            Json::Object(
                object(
                    seq![
                        ("count"@, Json::Num(Num::Int(2))),
                        (
                            "items"@,
                            Json::List(
                                seq![
                                    Json::Object(object(seq![("…"@, Json::Text("…"@))])),
                                    Json::Object(object(seq![("…"@, Json::Text("…"@))])),
                                ],
                            ),
                        ),
                        (
                            "dropped"@,
                            Json::List(seq![Json::Object(object(seq![("…"@, Json::Text("…"@))]))]),
                        ),
                        ("dropped_count"@, Json::Num(Num::Int(1))),
                    ],
                ),
            ),
        ),
        read_only: Some(true),
    }
}

/// The filter step as described to the planner.
pub fn filter_tool_def() -> (r: ToolDef)
    ensures
        r@ == filter_tool(),
{
    ToolDef {
        name: FILTER_TOOL.to_owned(),
        description: "Partition a list with a per-item gate. `over` must produce an array (usually a template like {{E0.issues}}); its gate — exactly one of `where` (a logical condition) or `infer` (a yes/no question judged per item) — is evaluated once per element with {{item}} and {{index}} available. Later steps reference {{Ex.items}} (elements that passed, input order) with {{Ex.count}}, and {{Ex.dropped}} (elements that did not) with {{Ex.dropped_count}}. Use it to select before iterating — e.g. filter a changed-file list to non-deleted entries, then map over {{Ex.items}} — instead of mapping over entries a later call cannot handle. `infer` costs one judge call per item (set `concurrency` to run them in parallel); prefer `where` whenever a field comparison can decide. Unlike other control steps, `filter` may appear inside `decide`/`map`/`reduce` bodies; its {{item}}/{{index}} shadow the enclosing body's inside that gate.".to_owned(),
        input_schema: obj3(
            "type",
            Data::text("object"),
            "required",
            list1(Data::text("over")),
            "properties",
            obj5(
                "over",
                note_field(
                    "The list to partition — usually a template like {{E0.issues}} that resolves to an array.",
                ),
                "where",
                write_condition_schema(
                    "Usually a template about the current element, like {{item.status}}",
                ),
                "infer",
                type_field(
                    "string",
                    "A yes/no question about {{item}}; the element is kept on yes. One judge call per item.",
                ),
                "model",
                type_field(
                    "string",
                    "Model for `infer` verdicts (a named model or role); defaults to the judge role.",
                ),
                "concurrency",
                obj3(
                    "type",
                    Data::text("integer"),
                    "minimum",
                    Data::count(1),
                    "description",
                    Data::text(
                        "Maximum `infer` verdicts in flight; 1 (default) evaluates one at a time.",
                    ),
                ),
            ),
        ),
        output_schema: None,
        output_example: Some(
            obj4(
                "count",
                Data::count(2),
                "items",
                list2(obj1("…", Data::text("…")), obj1("…", Data::text("…"))),
                "dropped",
                list1(obj1("…", Data::text("…"))),
                "dropped_count",
                Data::count(1),
            ),
        ),
        read_only: Some(true),
    }
}

/// The ask step as described to the planner.
pub open spec fn ask_tool() -> ToolDefView {
    ToolDefView {
        name: ASK_TOOL@,
        description: "Ask the human running the plan a question and bind their answer to this step. Use ONLY for a value the plan cannot compute or look up — a choice between options only the user can make, a confirmation before an irreversible action, a missing detail. Never use it for something a tool could fetch or an `infer` gate could judge. The answer conforms to outputSchema, which must be a flat object of primitive fields. Declare whenUnanswered so the plan still behaves when it runs somewhere with no human (CI, a headless client)."@,
        input_schema: Json::Object(
            object(
                seq![
                    ("type"@, Json::Text("object"@)),
                    (
                        "required"@,
                        Json::List(seq![Json::Text("prompt"@), Json::Text("outputSchema"@)]),
                    ),
                    (
                        "properties"@,
                        Json::Object(
                            object(
                                seq![
                                    (
                                        "prompt"@,
                                        typed_field(
                                            "string"@,
                                            "The question, as the user will see it. May use templates like {{E0.candidates}}."@,
                                        ),
                                    ),
                                    (
                                        "outputSchema"@,
                                        noted_field(
                                            "JSON Schema for the answer. Must be type object whose properties are all primitives (string, number, integer, boolean) or string enums — no nested objects or arrays. Give every property a description: it is the field label the user sees."@,
                                        ),
                                    ),
                                    (
                                        "whenUnanswered"@,
                                        Json::Object(
                                            object(
                                                seq![
                                                    ("type"@, Json::Text("string"@)),
                                                    (
                                                        "enum"@,
                                                        Json::List(
                                                            seq![
                                                                Json::Text("fail"@),
                                                                Json::Text("default"@),
                                                            ],
                                                        ),
                                                    ),
                                                    (
                                                        "description"@,
                                                        Json::Text(
                                                            "What to do when nobody can answer (headless run, client without elicitation support, user declined). 'fail' (the default) fails the step; 'default' falls back to the `default` value."@,
                                                        ),
                                                    ),
                                                ],
                                            ),
                                        ),
                                    ),
                                    (
                                        "default"@,
                                        noted_field(
                                            "The fallback answer used when whenUnanswered is 'default'. Must conform to outputSchema. May use templates."@,
                                        ),
                                    ),
                                ],
                            ),
                        ),
                    ),
                ],
            ),
        ),
        output_schema: None,
        output_example: Some(
            Json::Object(
                object(
                    seq![
                        (
                            "answer"@,
                            Json::Object(object(seq![("repo"@, Json::Text("tylerdavis/graph"@))])),
                        ),
                        ("answered"@, Json::Bool(true)),
                    ],
                ),
            ),
        ),
        read_only: None,
    }
}

/// The ask step as described to the planner.
pub fn ask_tool_def() -> (r: ToolDef)
    ensures
        r@ == ask_tool(),
{
    ToolDef {
        name: ASK_TOOL.to_owned(),
        description: "Ask the human running the plan a question and bind their answer to this step. Use ONLY for a value the plan cannot compute or look up — a choice between options only the user can make, a confirmation before an irreversible action, a missing detail. Never use it for something a tool could fetch or an `infer` gate could judge. The answer conforms to outputSchema, which must be a flat object of primitive fields. Declare whenUnanswered so the plan still behaves when it runs somewhere with no human (CI, a headless client).".to_owned(),
        input_schema: obj3(
            "type",
            Data::text("object"),
            "required",
            list2(Data::text("prompt"), Data::text("outputSchema")),
            "properties",
            obj4(
                "prompt",
                type_field(
                    "string",
                    "The question, as the user will see it. May use templates like {{E0.candidates}}.",
                ),
                "outputSchema",
                note_field(
                    "JSON Schema for the answer. Must be type object whose properties are all primitives (string, number, integer, boolean) or string enums — no nested objects or arrays. Give every property a description: it is the field label the user sees.",
                ),
                "whenUnanswered",
                obj3(
                    "type",
                    Data::text("string"),
                    "enum",
                    list2(Data::text("fail"), Data::text("default")),
                    "description",
                    Data::text(
                        "What to do when nobody can answer (headless run, client without elicitation support, user declined). 'fail' (the default) fails the step; 'default' falls back to the `default` value.",
                    ),
                ),
                "default",
                note_field(
                    "The fallback answer used when whenUnanswered is 'default'. Must conform to outputSchema. May use templates.",
                ),
            ),
        ),
        output_schema: None,
        output_example: Some(
            obj2(
                "answer",
                obj1("repo", Data::text("tylerdavis/graph")),
                "answered",
                Data::Bool(true),
            ),
        ),
        read_only: None,
    }
}

/// The agent step as described to the planner.
pub open spec fn agent_tool() -> ToolDefView {
    ToolDefView {
        name: AGENT_TOOL@,
        description: "Run a tool-calling loop that calls tools and reasons over results to produce structured output. Use when the task requires multiple rounds of tool use and reasoning — when WHICH tool to call next depends on what an earlier call returned. Returns output conforming to outputSchema, or final: false when the round budget ran out first. plan_and_execute is not available as a tool."@,
        input_schema: Json::Object(
            object(
                seq![
                    ("type"@, Json::Text("object"@)),
                    (
                        "required"@,
                        Json::List(seq![Json::Text("prompt"@), Json::Text("outputSchema"@)]),
                    ),
                    (
                        "properties"@,
                        Json::Object(
                            object(
                                seq![
                                    (
                                        "prompt"@,
                                        typed_field(
                                            "string"@,
                                            "The task description. May use templates like {{E0.results}}."@,
                                        ),
                                    ),
                                    (
                                        "model"@,
                                        typed_field(
                                            "string"@,
                                            "Model role or named model. Defaults to chat role."@,
                                        ),
                                    ),
                                    (
                                        "systemPrompt"@,
                                        typed_field(
                                            "string"@,
                                            "Extra system prompt guidance. May use templates like the prompt."@,
                                        ),
                                    ),
                                    (
                                        "maxIterations"@,
                                        Json::Object(
                                            object(
                                                seq![
                                                    ("type"@, Json::Text("integer"@)),
                                                    ("minimum"@, Json::Num(Num::Int(1))),
                                                    (
                                                        "description"@,
                                                        Json::Text(
                                                            "Maximum inference rounds — every round is one model call, including the one that produces the final answer. Default: 8."@,
                                                        ),
                                                    ),
                                                ],
                                            ),
                                        ),
                                    ),
                                    (
                                        "tools"@,
                                        Json::Object(
                                            object(
                                                seq![
                                                    ("type"@, Json::Text("array"@)),
                                                    (
                                                        "items"@,
                                                        Json::Object(
                                                            object(
                                                                seq![
                                                                    (
                                                                        "type"@,
                                                                        Json::Text("string"@),
                                                                    ),
                                                                ],
                                                            ),
                                                        ),
                                                    ),
                                                    ("minItems"@, Json::Num(Num::Int(1))),
                                                    (
                                                        "description"@,
                                                        Json::Text(
                                                            "Tool names or wildcard patterns (e.g. linear__*) to expose. Every pattern must resolve to at least one tool. Omit for all available tools; an empty list is an error, not 'no tools'."@,
                                                        ),
                                                    ),
                                                ],
                                            ),
                                        ),
                                    ),
                                    (
                                        "outputSchema"@,
                                        noted_field(
                                            "JSON Schema for the agent's structured output. Must be type object."@,
                                        ),
                                    ),
                                ],
                            ),
                        ),
                    ),
                ],
            ),
        ),
        output_schema: None,
        output_example: Some(
            Json::Object(
                object(
                    seq![
                        (
                            "output"@,
                            Json::Object(
                                object(
                                    seq![
                                        (
                                            "classifications"@,
                                            Json::List(
                                                seq![
                                                    Json::Object(
                                                        object(
                                                            seq![
                                                                ("issue_id"@, Json::Text("123"@)),
                                                                ("severity"@, Json::Text("high"@)),
                                                                ("reason"@, Json::Text("…"@)),
                                                            ],
                                                        ),
                                                    ),
                                                ],
                                            ),
                                        ),
                                    ],
                                ),
                            ),
                        ),
                        ("iterations"@, Json::Num(Num::Int(3))),
                        (
                            "tools_called"@,
                            Json::List(
                                seq![
                                    Json::Object(
                                        object(
                                            seq![
                                                ("tool"@, Json::Text("linear__list_issues"@)),
                                                ("round"@, Json::Num(Num::Int(1))),
                                            ],
                                        ),
                                    ),
                                ],
                            ),
                        ),
                        ("final"@, Json::Bool(true)),
                    ],
                ),
            ),
        ),
        read_only: None,
    }
}

/// The agent step as described to the planner.
pub fn agent_tool_def() -> (r: ToolDef)
    ensures
        r@ == agent_tool(),
{
    ToolDef {
        name: AGENT_TOOL.to_owned(),
        description: "Run a tool-calling loop that calls tools and reasons over results to produce structured output. Use when the task requires multiple rounds of tool use and reasoning — when WHICH tool to call next depends on what an earlier call returned. Returns output conforming to outputSchema, or final: false when the round budget ran out first. plan_and_execute is not available as a tool.".to_owned(),
        input_schema: obj3(
            "type",
            Data::text("object"),
            "required",
            list2(Data::text("prompt"), Data::text("outputSchema")),
            "properties",
            obj6(
                "prompt",
                type_field(
                    "string",
                    "The task description. May use templates like {{E0.results}}.",
                ),
                "model",
                type_field("string", "Model role or named model. Defaults to chat role."),
                "systemPrompt",
                type_field(
                    "string",
                    "Extra system prompt guidance. May use templates like the prompt.",
                ),
                "maxIterations",
                obj3(
                    "type",
                    Data::text("integer"),
                    "minimum",
                    Data::count(1),
                    "description",
                    Data::text(
                        "Maximum inference rounds — every round is one model call, including the one that produces the final answer. Default: 8.",
                    ),
                ),
                "tools",
                obj4(
                    "type",
                    Data::text("array"),
                    "items",
                    obj1("type", Data::text("string")),
                    "minItems",
                    Data::count(1),
                    "description",
                    Data::text(
                        "Tool names or wildcard patterns (e.g. linear__*) to expose. Every pattern must resolve to at least one tool. Omit for all available tools; an empty list is an error, not 'no tools'.",
                    ),
                ),
                "outputSchema",
                note_field("JSON Schema for the agent's structured output. Must be type object."),
            ),
        ),
        output_schema: None,
        output_example: Some(
            obj4(
                "output",
                obj1(
                    "classifications",
                    list1(
                        obj3(
                            "issue_id",
                            Data::text("123"),
                            "severity",
                            Data::text("high"),
                            "reason",
                            Data::text("…"),
                        ),
                    ),
                ),
                "iterations",
                Data::count(3),
                "tools_called",
                list1(obj2("tool", Data::text("linear__list_issues"), "round", Data::count(1))),
                "final",
                Data::Bool(true),
            ),
        ),
        read_only: None,
    }
}

/// Every control step, as described to the planner.
pub open spec fn control_tools() -> Seq<ToolDefView> {
    seq![
        agent_tool(),
        ask_tool(),
        exit_tool(),
        decide_tool(),
        filter_tool(),
        map_tool(),
        reduce_tool(),
    ]
}

/// Every control step, as described to the planner.
pub fn control_step_defs() -> (r: Vec<ToolDef>)
    ensures
        tools_view(r@) == control_tools(),
{
    let defs = vec![
        agent_tool_def(),
        ask_tool_def(),
        exit_tool_def(),
        decide_tool_def(),
        filter_tool_def(),
        map_tool_def(),
        reduce_tool_def(),
    ];
    assert(tools_view(defs@) =~= control_tools());
    defs
}

/// Every described control step is recognised as one.
pub proof fn every_described_control_step_is_one(i: int)
    requires
        0 <= i < control_tools().len(),
    ensures
        crate::pipeline::engine::is_control(control_tools()[i].name),
{
}

} // verus!
