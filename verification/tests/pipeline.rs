//! Whole runs over a scripted model and scripted tools: the library decides,
//! and the small driver below performs what it asks for.

use graph_core::chat::{
    ChatMessage, ChatRequest, ChatResponse, StopReason, ToolCall, Usage,
};
use graph_core::json::{from_serde, to_serde};
use graph_core::pipeline::agent_loop;
use graph_core::pipeline::ask;
use graph_core::pipeline::authoring::validate_plan;
use graph_core::pipeline::calls::{
    begin_plan_call, begin_planner_call, end_plan_call, end_planner_call, enter, PlanStart,
};
use graph_core::pipeline::catalog;
use graph_core::pipeline::condition::{judge_system, settle_gate, GateResult, GateStep, Verdict};
use graph_core::pipeline::decision;
use graph_core::pipeline::doc::{validate_doc, Finish, PlanDoc};
use graph_core::pipeline::engine::{
    after_call, after_error_gate, after_gate, begin_dispatch, choose_move, outcome_of_registry,
    record_call, record_control, record_exit, report_control, report_exit, CallOutcome,
    DispatchError, DispatchMove, ExecutionEnd, Move, Report, Route,
};
use graph_core::pipeline::exit::{evaluate, settle_exit, ExitEval, ExitStatus, ExitStep, PlanExit};
use graph_core::pipeline::filter;
use graph_core::pipeline::gate::{ErrorDecision, GateDecision, StepPath};
use graph_core::pipeline::interlocutor::{nobody, AskOutcome, AskRequest};
use graph_core::pipeline::iterate;
use graph_core::pipeline::outline::{begin_draft, open_draft, DraftNext, PlanOutline, StepDraft};
use graph_core::pipeline::plan::{Plan, PlannerOutput, SolverData, Step};
use graph_core::pipeline::planner::{begin_planning, Surroundings};
use graph_core::pipeline::resolve::resolve_tools;
use graph_core::pipeline::run::{
    adopt_plan, begin_attempt, begin_explicit, check_attempt, conclude_explicit, conclude_planned,
    Conclusion, PipelineError, PipelineOutcome,
};
use graph_core::pipeline::run_body::{
    after_body_call, after_body_control, after_body_exit, begin_body, end_body, next_in_body,
    BodyError, BodyMove, BodyRun, BodyStep, BodyWork, StepFail,
};
use graph_core::pipeline::solver::{
    begin_error_summary, begin_solve, end_error_summary, end_solve,
};
use graph_core::pipeline::state::{BusEntry, BusKind, RunState};
use graph_core::store::ToolShape;
use graph_core::tools::{ToolDef, ToolError, ToolOutcome};
use graph_core::value::{Data, Fields};
use serde_json::Value;
use std::collections::BTreeMap;
use std::sync::{Arc, Mutex};

/// What YAML text holds, as JSON.
fn parse_yaml(text: &str) -> Result<Data, String> {
    serde_yaml::from_str::<serde_json::Value>(text).map(from_serde).map_err(|e| e.to_string())
}

type Object = serde_json::Map<String, Value>;

// ── Values ───────────────────────────────────────────────────────────────

fn json(text: &str) -> Value {
    serde_json::from_str(text).unwrap()
}

fn value<T: serde::Serialize>(v: &T) -> Value {
    serde_json::to_value(v).unwrap()
}

/// A JSON text with `"@@n"` standing for the nth value.
fn fill(text: &str, values: &[Value]) -> Value {
    fn put(v: Value, values: &[Value]) -> Value {
        match v {
            Value::String(s) => match s.strip_prefix("@@") {
                Some(n) => values[n.parse::<usize>().unwrap()].clone(),
                None => Value::String(s),
            },
            Value::Array(items) => {
                Value::Array(items.into_iter().map(|item| put(item, values)).collect())
            }
            Value::Object(map) => {
                Value::Object(map.into_iter().map(|(k, v)| (k, put(v, values))).collect())
            }
            other => other,
        }
    }
    put(json(text), values)
}

fn data(v: &Value) -> Data {
    from_serde(v.clone())
}

fn plain(d: &Data) -> Value {
    to_serde(d)
}

fn plain_fields(fields: &Fields) -> Object {
    match plain(&Data::Object(fields.copy())) {
        Value::Object(map) => map,
        _ => Object::new(),
    }
}

fn fields_of(map: &Object) -> Fields {
    match data(&Value::Object(map.clone())) {
        Data::Object(fields) => fields,
        _ => Fields::new(),
    }
}

trait FromJson: Sized {
    fn from_json(v: &Data) -> Result<Self, String>;
}

impl FromJson for Step {
    fn from_json(v: &Data) -> Result<Self, String> {
        Step::from_value(v)
    }
}

impl FromJson for Plan {
    fn from_json(v: &Data) -> Result<Self, String> {
        match v {
            Data::List(items) => items.iter().map(Step::from_value).collect(),
            _ => Err("not a list of steps".to_string()),
        }
    }
}

impl FromJson for PlannerOutput {
    fn from_json(v: &Data) -> Result<Self, String> {
        PlannerOutput::from_value(v)
    }
}

fn from_value<T: FromJson>(v: Value) -> Result<T, String> {
    T::from_json(&data(&v))
}

fn plan_doc_yaml(yaml: &str) -> PlanDoc {
    let doc = PlanDoc::from_value(&parse_yaml(yaml).unwrap()).unwrap();
    validate_doc(&doc).unwrap();
    doc
}

// ── The scripted world ───────────────────────────────────────────────────

struct ScriptedProvider {
    responses: Mutex<Vec<ChatResponse>>,
    requests: Mutex<Vec<ChatRequest>>,
}

impl ScriptedProvider {
    fn chat(&self, request: ChatRequest) -> Result<ChatResponse, String> {
        self.requests.lock().unwrap().push(request);
        let mut responses = self.responses.lock().unwrap();
        if responses.is_empty() {
            return Err("script exhausted".to_string());
        }
        Ok(responses.remove(0))
    }
}

fn response(content: Option<&str>, structured: Option<Value>) -> ChatResponse {
    ChatResponse {
        content: content.map(|c| c.to_string()),
        tool_calls: vec![],
        structured: structured.map(|v| data(&v)),
        stop_reason: StopReason::EndTurn,
        usage: Usage { input_tokens: 0, output_tokens: 0 },
    }
}

fn structured(value: Value) -> ChatResponse {
    response(None, Some(value))
}

fn text(answer: &str) -> ChatResponse {
    response(Some(answer), None)
}

fn tool_use(id: &str, name: &str, args: Value) -> ChatResponse {
    ChatResponse {
        tool_calls: vec![ToolCall {
            id: id.to_string(),
            name: name.to_string(),
            arguments: data(&args),
        }],
        stop_reason: StopReason::ToolUse,
        ..response(None, None)
    }
}

/// Two tools: `t__search` returns a canned value, `t__issues` echoes its input
/// under `got`.
struct MockRegistry {
    search_result: Value,
    invocations: Mutex<Vec<(String, Value)>>,
    fail_tools: Vec<String>,
}

impl MockRegistry {
    fn tools(&self) -> Vec<ToolDef> {
        ["t__search", "t__issues"]
            .iter()
            .map(|name| ToolDef {
                name: name.to_string(),
                description: "test tool".to_string(),
                input_schema: data(&json(r#"{"type": "object"}"#)),
                output_schema: None,
                output_example: None,
                read_only: Some(true),
            })
            .collect()
    }

    fn invoke(&self, name: &str, input: &Data) -> Result<ToolOutcome, ToolError> {
        let input = plain(input);
        self.invocations
            .lock()
            .unwrap()
            .push((name.to_string(), input.clone()));
        if self.fail_tools.iter().any(|t| t == name) {
            return Ok(ToolOutcome {
                result: data(&json(r#"{"error": "boom"}"#)),
                is_error: true,
            });
        }
        let result = match name {
            "t__search" => self.search_result.clone(),
            "t__issues" => fill(r#"{"got": "@@0"}"#, &[input]),
            other => return Err(ToolError::Unknown(other.to_string())),
        };
        Ok(ToolOutcome { result: data(&result), is_error: false })
    }
}

fn search_registry(values: Value) -> Arc<MockRegistry> {
    Arc::new(MockRegistry {
        search_result: values,
        invocations: Mutex::new(Vec::new()),
        fail_tools: vec![],
    })
}

/// Keeps the observed shapes, and nothing else.
struct ShapeOnlyStore {
    shapes: Mutex<Vec<(String, Value, Value)>>,
}

impl ShapeOnlyStore {
    fn record_tool_shape(&self, tool: &str, schema: &Value, example: &Value) -> Result<(), String> {
        self.shapes
            .lock()
            .unwrap()
            .push((tool.to_string(), schema.clone(), example.clone()));
        Ok(())
    }

    fn tool_shapes(&self) -> Vec<ToolShape> {
        self.shapes
            .lock()
            .unwrap()
            .iter()
            .map(|(tool, schema, example)| ToolShape {
                tool: tool.clone(),
                schema: data(schema),
                example: data(example),
                seen_count: 1,
            })
            .collect()
    }
}

struct GateContext<'a> {
    path: &'a StepPath,
    tool_name: &'a str,
    call_stack: &'a [String],
    scope: &'a Object,
}

trait ExecutionGate {
    fn before_tool(&self, ctx: GateContext<'_>) -> GateDecision;
    fn on_tool_error(&self, _ctx: GateContext<'_>, _error: &Value) -> ErrorDecision {
        ErrorDecision::Fail
    }
}

/// Consumes scripted decisions in order (exhausted: proceed) and records every
/// consultation.
struct ScriptedGate {
    decisions: Mutex<Vec<GateDecision>>,
    seen: Mutex<Vec<(Vec<String>, String, String)>>,
    scopes: Mutex<Vec<Object>>,
}

impl ScriptedGate {
    fn new(decisions: Vec<GateDecision>) -> Arc<Self> {
        Arc::new(Self {
            decisions: Mutex::new(decisions),
            seen: Mutex::new(Vec::new()),
            scopes: Mutex::new(Vec::new()),
        })
    }

    fn paths(&self) -> Vec<String> {
        self.seen.lock().unwrap().iter().map(|(_, path, _)| path.clone()).collect()
    }

    fn tools(&self) -> Vec<String> {
        self.seen.lock().unwrap().iter().map(|(_, _, tool)| tool.clone()).collect()
    }
}

impl ExecutionGate for ScriptedGate {
    fn before_tool(&self, ctx: GateContext<'_>) -> GateDecision {
        self.seen.lock().unwrap().push((
            ctx.call_stack.to_vec(),
            ctx.path.text(),
            ctx.tool_name.to_string(),
        ));
        self.scopes.lock().unwrap().push(ctx.scope.clone());
        let mut decisions = self.decisions.lock().unwrap();
        if decisions.is_empty() {
            GateDecision::Proceed
        } else {
            decisions.remove(0)
        }
    }
}

/// Proceeds before every call and consumes scripted error decisions (exhausted:
/// fail).
struct ErrorGate {
    decisions: Mutex<Vec<ErrorDecision>>,
    errors_seen: Mutex<Vec<(String, Value)>>,
}

impl ErrorGate {
    fn new(decisions: Vec<ErrorDecision>) -> Arc<Self> {
        Arc::new(Self {
            decisions: Mutex::new(decisions),
            errors_seen: Mutex::new(Vec::new()),
        })
    }
}

impl ExecutionGate for ErrorGate {
    fn before_tool(&self, _ctx: GateContext<'_>) -> GateDecision {
        GateDecision::Proceed
    }

    fn on_tool_error(&self, ctx: GateContext<'_>, error: &Value) -> ErrorDecision {
        self.errors_seen.lock().unwrap().push((ctx.path.text(), error.clone()));
        let mut decisions = self.decisions.lock().unwrap();
        if decisions.is_empty() {
            ErrorDecision::Fail
        } else {
            decisions.remove(0)
        }
    }
}

/// Aborts every call of a nested plan.
struct AbortInnerGate {
    error_consults: Mutex<u32>,
}

impl ExecutionGate for AbortInnerGate {
    fn before_tool(&self, ctx: GateContext<'_>) -> GateDecision {
        if ctx.call_stack.is_empty() {
            GateDecision::Proceed
        } else {
            GateDecision::Abort
        }
    }

    fn on_tool_error(&self, _ctx: GateContext<'_>, _error: &Value) -> ErrorDecision {
        *self.error_consults.lock().unwrap() += 1;
        ErrorDecision::Fail
    }
}

/// Records finished steps as (path, tool, result, is_error), and the progress
/// of drafting as (name, detail).
#[derive(Default)]
struct RecordingSink {
    finished: Mutex<Vec<(String, String, Value, bool)>>,
    drafting: Mutex<Vec<(String, Value)>>,
}

impl RecordingSink {
    fn step_finished(&self, path: &str, tool: &str, result: &Data, is_error: bool) {
        self.finished.lock().unwrap().push((
            path.to_string(),
            tool.to_string(),
            plain(result),
            is_error,
        ));
    }

    fn drafting(&self, name: &str, detail: Value) {
        self.drafting.lock().unwrap().push((name.to_string(), detail));
    }
}

/// A scripted human. Records what it was asked.
struct ScriptedHuman {
    outcome: Mutex<Vec<AskOutcome>>,
    asked: Mutex<Vec<AskRequest>>,
}

fn copy_outcome(outcome: &AskOutcome) -> AskOutcome {
    match outcome {
        AskOutcome::Answered(v) => AskOutcome::Answered(v.copy()),
        AskOutcome::Declined => AskOutcome::Declined,
        AskOutcome::Unavailable(why) => AskOutcome::Unavailable(why.clone()),
    }
}

impl ScriptedHuman {
    fn new(outcomes: Vec<AskOutcome>) -> Arc<Self> {
        Arc::new(Self { outcome: Mutex::new(outcomes), asked: Mutex::new(Vec::new()) })
    }

    fn answering(answer: Value) -> Arc<Self> {
        Self::new(vec![AskOutcome::Answered(data(&answer))])
    }

    fn prompts(&self) -> Vec<String> {
        self.asked.lock().unwrap().iter().map(|r| r.prompt.clone()).collect()
    }

    fn ask(&self, request: AskRequest) -> AskOutcome {
        self.asked.lock().unwrap().push(request);
        let mut outcomes = self.outcome.lock().unwrap();
        if outcomes.len() > 1 {
            outcomes.remove(0)
        } else {
            match outcomes.first() {
                Some(outcome) => copy_outcome(outcome),
                None => AskOutcome::Unavailable("script exhausted".to_string()),
            }
        }
    }
}

// ── The driver ───────────────────────────────────────────────────────────

#[derive(Clone)]
struct Pipeline {
    provider: Arc<ScriptedProvider>,
    registry: Arc<MockRegistry>,
    events: Arc<RecordingSink>,
    plans: Arc<Vec<PlanDoc>>,
    call_stack: Vec<String>,
    store: Option<Arc<ShapeOnlyStore>>,
    gate: Option<Arc<dyn ExecutionGate>>,
    interlocutor: Option<Arc<ScriptedHuman>>,
    catalog: Option<Arc<catalog::ToolCatalog>>,
    named: BTreeMap<String, String>,
    max_attempts: u32,
}

fn pipeline(
    responses: Vec<ChatResponse>,
    registry: Arc<MockRegistry>,
    max_attempts: u32,
) -> (Pipeline, Arc<ScriptedProvider>) {
    pipeline_with_named(responses, registry, max_attempts, BTreeMap::new())
}

fn pipeline_with_named(
    responses: Vec<ChatResponse>,
    registry: Arc<MockRegistry>,
    max_attempts: u32,
    named: BTreeMap<String, String>,
) -> (Pipeline, Arc<ScriptedProvider>) {
    let provider = Arc::new(ScriptedProvider {
        responses: Mutex::new(responses),
        requests: Mutex::new(Vec::new()),
    });
    (
        Pipeline {
            provider: provider.clone(),
            registry,
            events: Arc::new(RecordingSink::default()),
            plans: Arc::new(Vec::new()),
            call_stack: Vec::new(),
            store: None,
            gate: None,
            interlocutor: None,
            catalog: None,
            named,
            max_attempts,
        },
        provider,
    )
}

fn named_model(model: &str) -> BTreeMap<String, String> {
    BTreeMap::from([("fast".to_string(), model.to_string())])
}

struct PlanCall {
    result: Value,
    is_error: bool,
}

struct State {
    results: Object,
    bus: Vec<BusEntry>,
    plan_attempts: u32,
    executed: usize,
}

impl State {
    fn steps_executed(&self) -> usize {
        self.executed
    }
}

struct Outcome {
    answer: String,
    structured: Option<Value>,
    state: State,
    degraded: bool,
    exit: Option<PlanExit>,
}

impl std::fmt::Debug for Outcome {
    fn fmt(&self, f: &mut std::fmt::Formatter<'_>) -> std::fmt::Result {
        f.write_str(&self.answer)
    }
}

fn outcome_of(outcome: PipelineOutcome) -> Outcome {
    Outcome {
        answer: outcome.answer,
        structured: outcome.structured.as_ref().map(plain),
        degraded: outcome.degraded,
        exit: outcome.exit,
        state: State {
            results: plain_fields(&outcome.state.results),
            plan_attempts: outcome.state.plan_attempts,
            executed: outcome.state.steps_executed(),
            bus: outcome.state.bus,
        },
    }
}

impl Pipeline {
    fn with_gate(mut self, gate: Arc<dyn ExecutionGate>) -> Self {
        self.gate = Some(gate);
        self
    }

    fn with_interlocutor(mut self, human: Arc<ScriptedHuman>) -> Self {
        self.interlocutor = Some(human);
        self
    }

    fn nested(&self, entering: &str) -> Pipeline {
        let mut child = self.clone();
        child.call_stack = enter(&self.call_stack, entering);
        child
    }

    fn chat(&self, model: &str, mut request: ChatRequest) -> Result<ChatResponse, String> {
        request.model = self.named.get(model).cloned().unwrap_or_else(|| "test".to_string());
        self.provider.chat(request)
    }

    fn get_structured(&self, model: &str, request: ChatRequest) -> Result<Data, String> {
        self.chat(model, request)?
            .structured
            .ok_or_else(|| "no structured output".to_string())
    }

    fn judge(&self, model: &Option<String>, question: String) -> Result<Verdict, String> {
        let request = ChatRequest {
            model: String::new(),
            system: judge_system().to_string(),
            messages: vec![ChatMessage::User { content: question }],
            tools: vec![],
            response_schema: None,
        };
        let model = model.clone().unwrap_or_else(|| "judge".to_string());
        Verdict::from_value(&self.get_structured(&model, request)?)
    }

    fn around(&self) -> Surroundings {
        Surroundings {
            tools: self.registry.tools(),
            plans: self.plans.iter().map(|doc| doc.copy()).collect(),
            call_stack: self.call_stack.clone(),
            shapes: self.store.as_ref().map(|s| s.tool_shapes()).unwrap_or_default(),
            user_context: "test user".to_string(),
            current_date: "2026-07-09".to_string(),
            step_schema: "{}".to_string(),
        }
    }

    fn planner_catalog(&self) -> (String, String) {
        let around = self.around();
        (around.describe_catalog(), around.step_schema)
    }

    fn validate_plan(&self, plan: &Plan) -> Result<(), Vec<String>> {
        validate_plan(plan)
    }

    fn run_planned(&self, query: &str) -> Result<Outcome, PipelineError> {
        self.planned(query).map(outcome_of)
    }

    fn planned(&self, query: &str) -> Result<PipelineOutcome, PipelineError> {
        let mut state = RunState::default();
        state.query = query.to_string();
        loop {
            begin_attempt(&mut state);
            self.events.drafting("planning", Value::Null);
            let request = begin_planning(&self.around(), &state);
            let answer =
                self.get_structured("planner", request).map_err(PipelineError::Llm)?;
            let output = PlannerOutput::from_value(&answer).map_err(PipelineError::Llm)?;
            adopt_plan(&mut state, output);
            let conclusion = match check_attempt(state, self.max_attempts) {
                Ok(checked) => {
                    let mut running = checked;
                    let end = self.execute_all(&mut running);
                    conclude_planned(running, end, self.max_attempts)
                }
                Err(conclusion) => conclusion,
            };
            match conclusion {
                Conclusion::Replan(next) => state = next,
                other => return self.conclude(other),
            }
        }
    }

    fn run_explicit(
        &self,
        query: &str,
        plan: Plan,
        finish: Finish,
        input: Option<Value>,
    ) -> Result<Outcome, PipelineError> {
        self.explicit(query, plan, finish, input.as_ref().map(data)).map(outcome_of)
    }

    fn explicit(
        &self,
        query: &str,
        plan: Plan,
        finish: Finish,
        input: Option<Data>,
    ) -> Result<PipelineOutcome, PipelineError> {
        let mut state = begin_explicit(query, plan, &finish, input, self.catalog.as_deref())?;
        let end = self.execute_all(&mut state);
        self.conclude(conclude_explicit(state, &finish, end))
    }

    fn conclude(&self, conclusion: Conclusion) -> Result<PipelineOutcome, PipelineError> {
        match conclusion {
            Conclusion::Done(outcome) => Ok(outcome),
            Conclusion::Fail(error) => Err(error),
            Conclusion::Solve(state) => {
                let request = begin_solve(&state, "2026-07-09");
                let response = self.chat("solver", request).map_err(PipelineError::Llm)?;
                Ok(end_solve(state, response.content))
            }
            Conclusion::Summarize(state) => {
                let request = begin_error_summary(&state);
                let response = self.chat("solver", request).map_err(PipelineError::Llm)?;
                Ok(end_error_summary(state, response.content))
            }
            Conclusion::Replan(_) => unreachable!("only planned runs replan"),
        }
    }

    fn call_plan(&self, identifier: &str, input: Value) -> PlanCall {
        let call = self.plan_call(identifier, data(&input));
        PlanCall { result: plain(&call.result), is_error: call.is_error }
    }

    fn plan_call(&self, identifier: &str, input: Data) -> CallOutcome {
        match begin_plan_call(&self.plans, &self.call_stack, identifier, input) {
            PlanStart::Refused(call) => call,
            PlanStart::Run { index, query, input } => {
                let doc = self.plans[index].copy();
                let finish = doc.finish();
                let run = self.nested(identifier).explicit(&query, doc.steps, finish, Some(input));
                end_plan_call(identifier, run)
            }
        }
    }

    fn planner_call(&self, input: &Data) -> CallOutcome {
        match begin_planner_call(&self.call_stack, input) {
            Err(call) => call,
            Ok(query) => end_planner_call(self.nested("plan_and_execute").planned(&query)),
        }
    }

    fn execute_all(&self, state: &mut RunState) -> ExecutionEnd {
        loop {
            let ended = match choose_move(state) {
                Move::Completed => return ExecutionEnd::Completed,
                Move::End(end) => return end,
                Move::Control { index } => {
                    let run = self.run_control(index, state);
                    if let Some((result, is_error)) = report_control(&run) {
                        let step = &state.plan[index];
                        self.events.step_finished(&step.id, &step.tool_name, &result, is_error);
                    }
                    record_control(state, index, run)
                }
                Move::Exit { index, rendered } => {
                    let id = state.plan[index].id.clone();
                    let eval = self.evaluate_exit(&id, &rendered);
                    let (result, is_error) = report_exit(&eval);
                    self.events.step_finished(&id, "exit", &result, is_error);
                    record_exit(state, index, eval)
                }
                Move::Call { index, rendered } => {
                    let path = StepPath::top(&state.plan[index].id);
                    let tool = state.plan[index].tool_name.clone();
                    let outcome = self.dispatch(&path, &tool, rendered, &state.results);
                    record_call(state, index, outcome)
                }
            };
            if let Some(end) = ended {
                return end;
            }
        }
    }

    fn evaluate_exit(&self, id: &str, rendered: &Data) -> Result<ExitEval, String> {
        match evaluate(id, rendered) {
            ExitStep::Settled(result) => result,
            ExitStep::Judge { spec, question } => {
                let answer = self.judge(&spec.model, question);
                settle_exit(id, spec, answer)
            }
        }
    }

    fn run_control(&self, index: usize, state: &mut RunState) -> Result<Data, ExecutionEnd> {
        let id = state.plan[index].id.clone();
        let tool = state.plan[index].tool_name.clone();
        let input = state.plan[index].input.copy();
        let path = StepPath::top(&id);
        match tool.as_str() {
            "decide" => self.run_decide(&id, &input, state),
            "map" => self.run_map(&id, &input, state),
            "reduce" => self.run_reduce(&id, &input, state),
            "filter" => {
                let run = self.run_filter(&input, &state.results);
                filter::record_filter(state, &id, run)
            }
            "ask" => {
                let run = self.run_ask(&path, &input, &state.results);
                ask::record_ask(state, &id, run)
            }
            _ => {
                let run = self.run_agent(&path, &input, &state.results);
                agent_loop::record_agent(state, &id, run)
            }
        }
    }

    fn run_decide(
        &self,
        id: &str,
        input: &Fields,
        state: &mut RunState,
    ) -> Result<Data, ExecutionEnd> {
        let fork = decision::begin_decide(id, input, &state.results)?;
        let gate: GateResult = match fork.gate {
            GateStep::Decided(result) => result,
            GateStep::Judge { question } => settle_gate(self.judge(&fork.model, question)),
        };
        match decision::choose_branch(id, &fork.then_, &fork.else_, gate) {
            decision::DecideNext::End(end) => Err(end),
            decision::DecideNext::Through { reason } => {
                Ok(decision::pass_decide(state, id, reason))
            }
            decision::DecideNext::Run { name, branch, verdict, reason } => {
                let label = decision::label_of_branch(&name);
                let work = begin_body(id, &name, &label, branch, state.results.copy());
                let body = self.run_body(work);
                decision::settle_decide(state, id, &name, verdict, reason, body)
            }
        }
    }

    fn run_map(&self, id: &str, input: &Fields, state: &mut RunState) -> Result<Data, ExecutionEnd> {
        let work = iterate::begin_map(id, input, &state.results)?;
        let mut outcomes: Vec<iterate::ItemOutcome> = Vec::new();
        let mut failed = false;
        for (index, item) in work.items.iter().enumerate() {
            if failed {
                outcomes.push(None);
                continue;
            }
            let scope = iterate::scope_of_item(&state.results, item, index);
            let body = self.run_body(begin_body(
                id,
                &iterate::path_of_item(index),
                &iterate::label_of_item(index),
                work.branch.copy(),
                scope,
            ));
            failed = body.is_err();
            outcomes.push(Some(body));
        }
        iterate::settle_map(state, id, outcomes)
    }

    fn run_reduce(
        &self,
        id: &str,
        input: &Fields,
        state: &mut RunState,
    ) -> Result<Data, ExecutionEnd> {
        let mut work = iterate::begin_reduce(id, input, &state.results)?;
        loop {
            match iterate::next_in_fold(&work, &state.results) {
                iterate::FoldNext::Done => return Ok(iterate::settle_reduce(state, id, work)),
                iterate::FoldNext::Bad(message) => {
                    return Err(ExecutionEnd::Failed {
                        step: id.to_string(),
                        tool: "reduce".to_string(),
                        message,
                    })
                }
                iterate::FoldNext::Item { branch, scope } => {
                    let body = self.run_body(begin_body(
                        id,
                        &iterate::path_of_item(work.at),
                        &iterate::label_of_item(work.at),
                        branch,
                        scope,
                    ));
                    work = iterate::fold_item(state, id, work, body)?;
                }
            }
        }
    }

    fn run_filter(&self, input: &Fields, scope: &Fields) -> Result<filter::Partition, StepFail> {
        let work = filter::begin_filter(input, scope)?;
        let mut verdicts: Vec<filter::Kept> = Vec::new();
        let mut failed = false;
        for (index, item) in work.items.iter().enumerate() {
            if failed {
                verdicts.push(None);
                continue;
            }
            let verdict = match filter::judge_item(&work.gate, scope, item, index) {
                filter::VerdictStep::Decided(result) => result,
                filter::VerdictStep::Judge { question } => {
                    filter::settle_item(index, self.judge(&work.model, question))
                }
            };
            failed = verdict.is_err();
            verdicts.push(Some(verdict));
        }
        filter::settle_filter(work.items, verdicts)
    }

    fn run_ask(
        &self,
        path: &StepPath,
        input: &Fields,
        scope: &Fields,
    ) -> Result<ask::AskResult, StepFail> {
        let work = ask::begin_ask(input, scope)?;
        let outcome = match &self.interlocutor {
            Some(human) => human.ask(work.request(path, &self.call_stack)),
            None => nobody(),
        };
        ask::settle_ask(work, scope, outcome)
    }

    fn run_agent(
        &self,
        path: &StepPath,
        input: &Fields,
        scope: &Fields,
    ) -> Result<agent_loop::AgentRun, StepFail> {
        let start = agent_loop::begin_agent(input, scope)?;
        let tools = resolve_tools(&start.patterns, Ok(self.registry.tools()), &self.plans)
            .map_err(StepFail::Failed)?;
        let model = start.model.clone();
        let mut work = agent_loop::enter_agent(start, tools);
        loop {
            let mut next = match agent_loop::next_turn(work) {
                agent_loop::AgentTurn::Over(run) => return Ok(run),
                agent_loop::AgentTurn::Ask { work, request } => {
                    let response = self.chat(&model, request);
                    agent_loop::after_response(work, response)
                }
            };
            work = loop {
                next = match next {
                    agent_loop::AgentNext::Fail(fail) => return Err(fail),
                    agent_loop::AgentNext::Done(run) => return Ok(run),
                    agent_loop::AgentNext::On(work) => break work,
                    agent_loop::AgentNext::Answer { work, text } => {
                        let check = agent_loop::check_answer(&text, &work.output_schema);
                        agent_loop::after_answer(work, &text, check)
                    }
                    agent_loop::AgentNext::Repair { work, value, problem } => {
                        let request = ChatRequest {
                            model: String::new(),
                            system: problem,
                            messages: vec![ChatMessage::User { content: plain(&value).to_string() }],
                            tools: vec![],
                            response_schema: Some(work.output_schema.copy()),
                        };
                        let repaired = self.get_structured("repair", request);
                        agent_loop::after_repair(work, repaired)
                    }
                    agent_loop::AgentNext::Calls { work, calls } => {
                        let outcomes = calls
                            .iter()
                            .map(|call| match agent_loop::refuse_call(&call.name) {
                                Some(refused) => Err(refused),
                                None => {
                                    let at = agent_loop::path_of_call(path, work.round, &call.name);
                                    self.dispatch(&at, &call.name, call.arguments.copy(), scope)
                                }
                            })
                            .collect();
                        agent_loop::after_calls(work, &calls, outcomes)
                    }
                };
            };
        }
    }

    fn run_body(&self, work: BodyWork) -> Result<BodyRun, BodyError> {
        let mut work = work;
        loop {
            let step = match next_in_body(&work) {
                BodyMove::Done => return end_body(work, None),
                BodyMove::Fail(e) => return end_body(work, Some(e)),
                BodyMove::Call { path, tool, rendered } => {
                    let outcome = self.dispatch(&path, &tool, rendered, &work.scope);
                    after_body_call(work, outcome)
                }
                BodyMove::Exit { path, rendered } => {
                    let eval = self.evaluate_exit(&path.text(), &rendered);
                    after_body_exit(work, eval)
                }
                BodyMove::Control { path, tool, input } => {
                    let run = match tool.as_str() {
                        "filter" => {
                            self.run_filter(&input, &work.scope).map(|p| (p.to_value(), 0))
                        }
                        "ask" => {
                            self.run_ask(&path, &input, &work.scope).map(|r| (r.to_value(), 0))
                        }
                        _ => self
                            .run_agent(&path, &input, &work.scope)
                            .map(|r| (r.result.to_value(), r.tool_calls)),
                    };
                    after_body_control(work, run)
                }
            };
            match step {
                BodyStep::On(next) => work = next,
                BodyStep::Over(error) => return Err(error),
            }
        }
    }

    fn dispatch(
        &self,
        path: &StepPath,
        tool: &str,
        rendered: Data,
        scope: &Fields,
    ) -> Result<Data, DispatchError> {
        let gated = self.gate.is_some();
        let plain_scope = plain_fields(scope);
        let context = || GateContext {
            path,
            tool_name: tool,
            call_stack: &self.call_stack,
            scope: &plain_scope,
        };
        let mut stage = begin_dispatch(gated, tool, &rendered);
        loop {
            for report in &stage.reports {
                if let Report::StepFinished { result, is_error } = report {
                    self.events.step_finished(&path.text(), tool, result, *is_error);
                }
            }
            stage = match stage.next {
                DispatchMove::Done(result) => return result,
                DispatchMove::ConsultGate => {
                    let decision = self.gate.as_ref().unwrap().before_tool(context());
                    after_gate(decision, tool, &rendered)
                }
                DispatchMove::Invoke(route) => {
                    let outcome = match route {
                        Route::Plan(identifier) => self.plan_call(&identifier, rendered.copy()),
                        Route::Planner => self.planner_call(&rendered),
                        Route::Registry => {
                            outcome_of_registry(self.registry.invoke(tool, &rendered))
                        }
                    };
                    after_call(gated, outcome)
                }
                DispatchMove::ConsultErrorGate { error } => {
                    let decision =
                        self.gate.as_ref().unwrap().on_tool_error(context(), &plain(&error));
                    after_error_gate(decision, error)
                }
            };
        }
    }

    fn draft_plan(
        &self,
        query: &str,
        existing: Option<&PlannerOutput>,
    ) -> Result<PlannerOutput, PipelineError> {
        self.events.drafting("planning", Value::Null);
        let request = begin_draft(&self.around(), query, existing);
        let copy = ChatRequest {
            model: String::new(),
            system: request.system.clone(),
            messages: request.messages.iter().map(|m| m.copy()).collect(),
            tools: vec![],
            response_schema: None,
        };
        let answer = self.get_structured("planner", copy).map_err(PipelineError::Llm)?;
        let outline = PlanOutline::from_value(&answer).map_err(PipelineError::Llm)?;
        let items = plain(&outline.items_value());
        let mut draft = open_draft(request, outline)?;
        self.events.drafting("draft_outline", items);
        loop {
            let index = draft.plan.len();
            if draft.attempts == 0 {
                self.events.drafting(
                    "draft_step_started",
                    fill(
                        r#"{"index": "@@0", "summary": "@@1"}"#,
                        &[value(&index), value(&draft.summary())],
                    ),
                );
            }
            let answer =
                self.get_structured("planner", draft.request()).map_err(PipelineError::Llm)?;
            let step = StepDraft::from_value(&answer).map_err(PipelineError::Llm)?;
            let (report, next) = draft.take_step(step);
            if let Some(report) = report {
                self.events.drafting(
                    "draft_step_finished",
                    fill(
                        r#"{"index": "@@0", "step": "@@1", "problems": "@@2", "attempt": "@@3"}"#,
                        &[
                            value(&index),
                            plain(&report.step),
                            value(&report.problems),
                            value(&report.attempt),
                        ],
                    ),
                );
            }
            match next {
                DraftNext::Continue(more) => draft = more,
                DraftNext::Complete(output) => return Ok(output),
                DraftNext::Exhausted(error) => return Err(error),
            }
        }
    }
}

fn two_step_plan(ref_path: &str) -> Value {
    fill(r##"{"plan": [{"id": "E0", "toolName": "t__search", "input": {"query": "platform"}}, {"id": "E1", "toolName": "t__issues", "input": {"teamId": "@@0"}}], "solverData": {"queryToAnswer": "how is the sprint going", "data": {"issues": "{{E1}}"}}}"##, &[value(&(format!("{{{{{ref_path}}}}}")))])
}

#[test]
fn planned_happy_path_flows_data_between_steps() {
    let registry = search_registry(json(r##"{"values": [{"id": "team-1"}]}"##));
    let (pipeline, provider) = pipeline(
        vec![
            structured(two_step_plan("E0.values.0.id")),
            text("all good"),
        ],
        registry.clone(),
        2,
    );

    let outcome = pipeline.run_planned("sprint status").unwrap();
    assert_eq!(outcome.answer, "all good");
    assert!(!outcome.degraded);
    assert_eq!(outcome.state.plan_attempts, 1);

    let invocations = registry.invocations.lock().unwrap();
    assert_eq!(invocations[1].0, "t__issues");
    assert_eq!(
        invocations[1].1,
        json(r##"{"teamId": "team-1"}"##),
        "typed dataflow"
    );

    // Solver saw the rendered payload.
    let requests = provider.requests.lock().unwrap();
    let solver_request = requests.last().unwrap();
    assert!(solver_request.messages.iter().any(|m| matches!(
        m, ChatMessage::User { content } if content.contains("team-1")
    )));
}

#[test]
fn bad_path_triggers_replan_with_error_context() {
    let registry = search_registry(json(r##"{"values": [{"id": "team-1"}]}"##));
    let (pipeline, provider) = pipeline(
        vec![
            structured(two_step_plan("E0.values.0.idd")), // typo → BadPath
            structured(two_step_plan("E0.values.0.id")),
            text("recovered"),
        ],
        registry.clone(),
        2,
    );

    let outcome = pipeline.run_planned("sprint status").unwrap();
    assert_eq!(outcome.answer, "recovered");
    assert!(!outcome.degraded);
    assert_eq!(outcome.state.plan_attempts, 2);

    // The second planner call carried the BadPath error with the key digest.
    let requests = provider.requests.lock().unwrap();
    assert!(requests[1].system.contains("no key 'idd'"));
    // E0 executed once only — preserved across the replan.
    let invocations = registry.invocations.lock().unwrap();
    let searches = invocations.iter().filter(|(n, _)| n == "t__search").count();
    assert_eq!(searches, 1, "executed steps must not re-run");
}

#[test]
fn empty_data_goes_to_solver_without_replanning() {
    let registry = search_registry(json(r##"{"values": []}"##));
    let (pipeline, provider) = pipeline(
        vec![
            structured(two_step_plan("E0.values.0.id")),
            text("nothing found"),
        ],
        registry,
        2,
    );

    let outcome = pipeline.run_planned("sprint status").unwrap();
    assert_eq!(outcome.answer, "nothing found");
    assert!(!outcome.degraded);
    assert_eq!(outcome.state.plan_attempts, 1, "EmptyData never replans");

    let requests = provider.requests.lock().unwrap();
    assert!(requests.last().unwrap().system.contains("data ran out"));
}

#[test]
fn exhausted_attempts_degrade_to_error_summary() {
    let registry = Arc::new(MockRegistry {
        search_result: json(r##"{}"##),
        invocations: Mutex::new(Vec::new()),
        fail_tools: vec!["t__search".to_string()],
    });
    let (pipeline, _) = pipeline(
        vec![
            structured(two_step_plan("E0.values.0.id")),
            text("sorry, it failed"),
        ],
        registry,
        1,
    );

    let outcome = pipeline.run_planned("sprint status").unwrap();
    assert!(outcome.degraded);
    assert_eq!(outcome.answer, "sorry, it failed");
}

#[test]
fn explicit_plans_fail_hard_without_replanning() {
    let registry = Arc::new(MockRegistry {
        search_result: json(r##"{}"##),
        invocations: Mutex::new(Vec::new()),
        fail_tools: vec!["t__search".to_string()],
    });
    let (pipeline, provider) = pipeline(vec![], registry, 3);

    let plan: Plan = from_value(json(r##"[{"id": "E0", "toolName": "t__search", "input": {"query": "x"}}]"##))
    .unwrap();
    let err = pipeline
        .run_explicit("q", plan, Finish::Solve(SolverData::default()), None)
        .unwrap_err();
    assert!(matches!(err, PipelineError::StepFailed { .. }));
    assert!(
        provider.requests.lock().unwrap().is_empty(),
        "no LLM calls on hard failure"
    );
}

#[test]
fn explicit_runs_resolve_tools_against_the_catalog_before_any_step() {
    let registry = Arc::new(MockRegistry {
        search_result: json(r##"{"values": []}"##),
        invocations: Mutex::new(Vec::new()),
        fail_tools: vec![],
    });
    let (mut pipeline, provider) = pipeline(vec![], registry.clone(), 1);
    pipeline.catalog = Some(Arc::new(catalog::ToolCatalog {
        mcp_servers: vec!["t".to_string()],
        builtin_tools: vec![],
        user_tools: vec![],
        plans: vec![],
    }));

    // E0 would resolve (server 't' is configured) but E1's server is not —
    // the run must fail before E0 executes, not between E0 and E1.
    let plan: Plan = from_value(json(r##"[{"id": "E0", "toolName": "t__search", "input": {"query": "x"}}, {"id": "E1", "toolName": "ghost__scan", "input": {}}]"##))
    .unwrap();
    let err = pipeline
        .run_explicit("q", plan, Finish::Solve(SolverData::default()), None)
        .unwrap_err();
    assert!(matches!(err, PipelineError::InvalidPlan(_)));
    assert!(err.message().contains("ghost"));
    assert!(
        registry.invocations.lock().unwrap().is_empty(),
        "no step may execute when a later tool cannot resolve"
    );
    assert!(
        provider.requests.lock().unwrap().is_empty(),
        "no LLM spend either"
    );
}

#[test]
fn validate_plan_rejects_workbench_tools_statically() {
    let (pipeline, _) = pipeline(vec![], search_registry(json(r##"{}"##)), 1);

    let plan: Plan = from_value(json(r##"[{"id": "E0", "toolName": "workbench__grep", "input": {}}]"##))
    .unwrap();
    let problems = pipeline.validate_plan(&plan).unwrap_err();
    assert!(problems[0].contains("'workbench__grep'"), "{problems:?}");
    assert!(
        problems[0].contains("not available in the plan runtime"),
        "{problems:?}"
    );

    // The same guard applies inside control-step bodies.
    let body_plan: Plan = from_value(json(r##"[{"id": "E0", "toolName": "t__search", "input": {"query": "x"}}, {"id": "E1", "toolName": "decide", "input": {"if": {"value": "{{E0.count}}", "op": "gt", "to": 0}, "then": {"toolName": "workbench__read_file", "input": {}}}}]"##))
    .unwrap();
    let problems = pipeline.validate_plan(&body_plan).unwrap_err();
    assert!(
        problems
            .iter()
            .any(|p| p.contains("'workbench__read_file'")),
        "{problems:?}"
    );
}

#[test]
fn explicit_plans_render_input_root() {
    let registry = search_registry(json(r##"{"values": [{"id": "t1"}]}"##));
    let (pipeline, _) = pipeline(vec![text("done")], registry.clone(), 1);

    let plan: Plan = from_value(json(r##"[{"id": "E0", "toolName": "t__search", "input": {"query": "{{input.team}}"}}]"##))
    .unwrap();
    let outcome = pipeline
        .run_explicit(
            "q",
            plan,
            Finish::Solve(SolverData::default()),
            Some(json(r##"{"team": "Platform"}"##)),
        )
        .unwrap();
    assert_eq!(outcome.answer, "done");
    let invocations = registry.invocations.lock().unwrap();
    assert_eq!(invocations[0].1, json(r##"{"query": "Platform"}"##));
}

#[test]
fn validation_rejects_forward_references() {
    let registry = search_registry(json(r##"{}"##));
    let (pipeline, _) = pipeline(vec![], registry, 1);

    let plan: Plan = from_value(json(r##"[{"id": "E0", "toolName": "t__search", "input": {"query": "{{E1.values}}"}}, {"id": "E1", "toolName": "t__issues", "input": {}}]"##))
    .unwrap();
    let err = pipeline
        .run_explicit("q", plan, Finish::Solve(SolverData::default()), None)
        .unwrap_err();
    let PipelineError::InvalidPlan(message) = err else {
        panic!("expected InvalidPlan");
    };
    assert!(message.contains("E1"));
}

#[test]
fn render_finish_emits_structured_output_without_llm() {
    let registry = search_registry(json(r##"{"values": [{"id": "team-1"}]}"##));
    let (pipeline, provider) = pipeline(vec![], registry, 1);

    let plan: Plan = from_value(json(r##"[{"id": "E0", "toolName": "t__search", "input": {"query": "x"}}]"##))
    .unwrap();
    let mut output = Object::new();
    output.insert("teams".into(), json(r##""{{E0.values}}""##));
    output.insert("count".into(), json(r##""{{E0.values.length}}""##));
    let outcome = pipeline
        .run_explicit("q", plan, Finish::Render(fields_of(&output)), None)
        .unwrap();
    assert_eq!(
        outcome.structured,
        Some(json(r##"{"teams": [{"id": "team-1"}], "count": 1}"##))
    );
    assert!(provider.requests.lock().unwrap().is_empty(), "no LLM calls");
}

#[test]
fn silent_finish_runs_steps_and_produces_nothing() {
    let registry = search_registry(json(r##"{"ok": true}"##));
    let (pipeline, provider) = pipeline(vec![], registry.clone(), 1);

    let plan: Plan = from_value(json(r##"[{"id": "E0", "toolName": "t__search", "input": {"query": "x"}}]"##))
    .unwrap();
    let outcome = pipeline
        .run_explicit("q", plan, Finish::Silent, None)
        .unwrap();
    assert!(outcome.answer.is_empty());
    assert!(outcome.structured.is_none());
    assert_eq!(registry.invocations.lock().unwrap().len(), 1, "step ran");
    assert!(provider.requests.lock().unwrap().is_empty(), "no LLM calls");
}

#[test]
fn empty_data_is_a_hard_failure_without_a_solver() {
    let registry = search_registry(json(r##"{"values": []}"##));
    let (pipeline, _) = pipeline(vec![], registry, 1);

    let plan: Plan = from_value(json(r##"[{"id": "E0", "toolName": "t__search", "input": {"query": "x"}}, {"id": "E1", "toolName": "t__issues", "input": {"teamId": "{{E0.values.0.id}}"}}]"##))
    .unwrap();
    let err = pipeline
        .run_explicit("q", plan, Finish::Silent, None)
        .unwrap_err();
    assert!(matches!(err, PipelineError::EmptyData { .. }));
}

#[test]
fn shapes_recorded_mid_run_reach_the_next_planning_attempt() {
    let registry = search_registry(json(r##"{"values": [{"id": "team-1"}]}"##));
    let store = Arc::new(ShapeOnlyStore {
        shapes: Mutex::new(Vec::new()),
    });
    let (mut pipeline, provider) = pipeline(
        vec![
            structured(two_step_plan("E0.values.0.idd")), // BadPath → replan
            structured(two_step_plan("E0.values.0.id")),
            text("done"),
        ],
        registry,
        2,
    );
    pipeline.store = Some(store.clone());

    // The pipeline was constructed BEFORE this shape is recorded — under the
    // old construction-time snapshot, no planner prompt would ever see it.
    store
        .record_tool_shape(
            "t__search",
            &json(r##"{"type": "object"}"##),
            &json(r##"{"values": [{"id": "team-1"}]}"##),
        )
        .unwrap();

    pipeline.run_planned("q").unwrap();
    let requests = provider.requests.lock().unwrap();
    assert!(
        requests[0].system.contains("observedOutputShape"),
        "planner prompts must read the shape cache at plan time, not construction time"
    );
    assert!(requests[1].system.contains("observedOutputShape"));
}

fn exit_plan(when_value: &str, status: &str) -> Plan {
    from_value(fill(r##"[{"id": "E0", "toolName": "t__search", "input": {"query": "x"}}, {"id": "E1", "toolName": "exit", "input": {"when": {"value": "@@0", "op": "eq", "to": 0}, "status": "@@1", "message": "gate fired"}}, {"id": "E2", "toolName": "t__issues", "input": {"q": "{{E0.values}}"}}]"##, &[value(&(when_value)), value(&(status))]))
    .unwrap()
}

#[test]
fn exit_success_skips_remaining_steps_and_solver() {
    let registry = search_registry(json(r##"{"values": []}"##));
    let (pipeline, provider) = pipeline(vec![], registry.clone(), 1);
    let outcome = pipeline
        .run_explicit(
            "q",
            exit_plan("{{E0.values.length}}", "success"),
            Finish::Solve(SolverData::default()),
            None,
        )
        .unwrap();
    let exit = outcome.exit.expect("exited");
    assert_eq!(exit.status, ExitStatus::Success);
    assert_eq!(outcome.answer, "gate fired");
    // E2 never ran; solver never called.
    assert_eq!(registry.invocations.lock().unwrap().len(), 1);
    assert!(provider.requests.lock().unwrap().is_empty(), "no LLM calls");
}

#[test]
fn exit_gate_passes_and_plan_continues() {
    let registry = search_registry(json(r##"{"values": [{"id": 1}]}"##));
    let (pipeline, _) = pipeline(vec![text("done")], registry.clone(), 1);
    let outcome = pipeline
        .run_explicit(
            "q",
            exit_plan("{{E0.values.length}}", "success"),
            Finish::Solve(SolverData::default()),
            None,
        )
        .unwrap();
    assert!(outcome.exit.is_none());
    assert_eq!(outcome.answer, "done");
    // Gate result is referenceable.
    assert_eq!(outcome.state.results["E1"]["passed"], json(r##"true"##));
    assert_eq!(
        registry.invocations.lock().unwrap().len(),
        2,
        "E0 and E2 ran"
    );
}

#[test]
fn inferred_exit_uses_judge_verdict() {
    let registry = search_registry(json(r##"{"values": [{"id": 1}]}"##));
    let (pipeline, provider) = pipeline(
        vec![structured(
            json(r##"{"verdict": true, "reason": "clearly blocked"}"##),
        )],
        registry,
        1,
    );
    let plan: Plan = from_value(json(r##"[{"id": "E0", "toolName": "t__search", "input": {"query": "x"}}, {"id": "E1", "toolName": "exit", "input": {"infer": "Is this blocked? {{E0.values}}", "status": "error", "message": "Blocked"}}]"##))
    .unwrap();
    let outcome = pipeline
        .run_explicit("q", plan, Finish::Silent, None)
        .unwrap();
    let exit = outcome.exit.expect("exited");
    assert_eq!(exit.status, ExitStatus::Error);
    assert_eq!(exit.message, "Blocked (clearly blocked)");
    assert_eq!(exit.reason.as_deref(), Some("clearly blocked"));
    // The verdict question included the rendered data.
    let requests = provider.requests.lock().unwrap();
    assert!(matches!(
        &requests[0].messages[0],
        ChatMessage::User { content } if content.contains("\"id\"")
    ));
}

#[test]
fn inferred_exit_model_override_selects_named_model() {
    let registry = search_registry(json(r##"{"values": [{"id": 1}]}"##));
    let (pipeline, provider) = pipeline_with_named(
        vec![structured(json(r##"{"verdict": true, "reason": "ok"}"##))],
        registry,
        1,
        named_model("haiku-fast"),
    );
    let plan: Plan = from_value(json(r##"[{"id": "E0", "toolName": "t__search", "input": {"query": "x"}}, {"id": "E1", "toolName": "exit", "input": {"infer": "Is this blocked? {{E0.values}}", "model": "fast", "status": "error", "message": "Blocked"}}]"##))
    .unwrap();
    pipeline
        .run_explicit("q", plan, Finish::Silent, None)
        .unwrap();
    // The verdict call used the named model, not the judge/default.
    let requests = provider.requests.lock().unwrap();
    assert_eq!(requests[0].model, "haiku-fast");
}

#[test]
fn inferred_decide_model_override_selects_named_model() {
    let registry = search_registry(json(r##"{"values": [{"id": 1}]}"##));
    let (pipeline, provider) = pipeline_with_named(
        vec![structured(json(r##"{"verdict": false, "reason": "no"}"##))],
        registry,
        1,
        named_model("haiku-fast"),
    );
    let plan: Plan = from_value(json(r##"[{"id": "E0", "toolName": "t__search", "input": {"query": "x"}}, {"id": "E1", "toolName": "decide", "input": {"infer": "Is this urgent? {{E0.values}}", "model": "fast", "then": {"toolName": "t__search", "input": {"query": "y"}}}}]"##))
    .unwrap();
    pipeline
        .run_explicit("q", plan, Finish::Silent, None)
        .unwrap();
    let requests = provider.requests.lock().unwrap();
    assert_eq!(requests[0].model, "haiku-fast");
}

#[test]
fn planner_gets_the_exit_tool_and_authored_exits_work() {
    let registry = search_registry(json(r##"{"values": []}"##));
    let (pipeline, provider) = pipeline(
        vec![structured(json(r##"{"plan": [{"id": "E0", "toolName": "t__search", "input": {"query": "x"}}, {"id": "E1", "toolName": "exit", "input": {"when": {"value": "{{E0.values.length}}", "op": "eq", "to": 0}, "status": "success", "message": "nothing to do"}}], "solverData": {"queryToAnswer": "q", "data": {}}}"##))],
        registry,
        1,
    );
    let outcome = pipeline.run_planned("find work").unwrap();
    assert_eq!(outcome.exit.expect("exited").message, "nothing to do");
    // The planner prompt described the exit tool.
    let requests = provider.requests.lock().unwrap();
    assert!(requests[0].system.contains("\"name\":\"exit\""));
}

/// E0 searches, E1 decides on `{{E0.values.length}} gt 0`.
fn decide_plan(then: Value, else_branch: Option<Value>) -> Plan {
    let mut input = fill(r##"{"if": {"value": "{{E0.values.length}}", "op": "gt", "to": 0}, "then": "@@0"}"##, &[value(&(then))]);
    if let Some(else_branch) = else_branch {
        input["else"] = else_branch;
    }
    from_value(fill(r##"[{"id": "E0", "toolName": "t__search", "input": {"query": "x"}}, {"id": "E1", "toolName": "decide", "input": "@@0"}]"##, &[value(&(input))]))
    .unwrap()
}

#[test]
fn decide_then_branch_runs_single_call() {
    let registry = search_registry(json(r##"{"values": [{"id": "team-1"}]}"##));
    let (pipeline, provider) = pipeline(vec![], registry.clone(), 1);
    let plan = decide_plan(
        json(r##"{"toolName": "t__issues", "input": {"q": "{{E0.values.0.id}}"}}"##),
        Some(json(r##"{"toolName": "t__search", "input": {"query": "fallback"}}"##)),
    );
    let outcome = pipeline
        .run_explicit("q", plan, Finish::Silent, None)
        .unwrap();

    let decision = &outcome.state.results["E1"];
    assert_eq!(decision["branch"], json(r##""then""##));
    assert_eq!(decision["verdict"], json(r##"true"##));
    assert_eq!(decision["reason"], json(r##"null"##));
    assert_eq!(
        decision["result"],
        json(r##"{"got": {"q": "team-1"}}"##),
        "typed dataflow into the branch"
    );

    let invocations = registry.invocations.lock().unwrap();
    let searches = invocations.iter().filter(|(n, _)| n == "t__search").count();
    assert_eq!(searches, 1, "else branch never invoked");
    assert_eq!(
        outcome.state.steps_executed(),
        3,
        "E0 + decide + 1 branch call"
    );
    assert!(provider.requests.lock().unwrap().is_empty(), "no LLM calls");
}

#[test]
fn decide_else_branch_runs_and_poisoned_then_is_never_rendered() {
    // E0 finds nothing; `then` indexes into the empty array (EmptyData if
    // rendered) — the exact case `else` exists to handle.
    let registry = search_registry(json(r##"{"values": []}"##));
    let (pipeline, _) = pipeline(vec![], registry.clone(), 1);
    let plan = decide_plan(
        json(r##"{"toolName": "t__issues", "input": {"q": "{{E0.values.0.id}}"}}"##),
        Some(json(r##"{"toolName": "t__issues", "input": {"q": "none"}}"##)),
    );
    let outcome = pipeline
        .run_explicit("q", plan, Finish::Silent, None)
        .unwrap();

    let decision = &outcome.state.results["E1"];
    assert_eq!(decision["branch"], json(r##""else""##));
    assert_eq!(decision["verdict"], json(r##"false"##));
    assert_eq!(decision["result"], json(r##"{"got": {"q": "none"}}"##));
}

#[test]
fn decide_branch_exit_ends_the_plan() {
    let registry = search_registry(json(r##"{"values": [{"id": "team-1"}]}"##));
    let (pipeline, provider) = pipeline(vec![], registry.clone(), 1);
    // Gate fires (1 > 0); the then-branch does one call, then exits the
    // whole plan.
    let plan = decide_plan(
        json(r##"[{"id": "note", "toolName": "t__issues", "input": {"q": "safe"}}, {"id": "bail", "toolName": "exit", "input": {"status": "success", "message": "done early"}}]"##),
        None,
    );
    let outcome = pipeline
        .run_explicit("q", plan, Finish::Silent, None)
        .unwrap();

    let exit = outcome.exit.expect("exited from the branch");
    assert_eq!(exit.status, ExitStatus::Success);
    assert_eq!(exit.message, "done early");
    assert_eq!(exit.step, "E1/then/bail");
    assert!(provider.requests.lock().unwrap().is_empty(), "no LLM calls");
}

#[test]
fn decide_branch_exit_gate_passes_and_branch_continues() {
    let registry = search_registry(json(r##"{"values": [{"id": "team-1"}]}"##));
    let (pipeline, _) = pipeline(vec![], registry.clone(), 1);
    // The branch's exit gate does NOT fire (1 > 100 is false), so the
    // branch continues to its next step and the plan completes normally.
    let plan = decide_plan(
        json(r##"[{"id": "bail", "toolName": "exit", "input": {"when": {"value": "{{E0.values.length}}", "op": "gt", "to": 100}, "status": "error", "message": "too many"}}, {"id": "note", "toolName": "t__issues", "input": {"q": "{{E0.values.0.id}}"}}]"##),
        None,
    );
    let outcome = pipeline
        .run_explicit("q", plan, Finish::Silent, None)
        .unwrap();

    assert!(outcome.exit.is_none(), "gate passed — no exit");
    let decision = &outcome.state.results["E1"];
    assert_eq!(decision["branch"], json(r##""then""##));
    assert_eq!(decision["result"], json(r##"{"got": {"q": "team-1"}}"##));
}

#[test]
fn decide_poisoned_else_is_never_rendered() {
    let registry = search_registry(json(r##"{"values": [{"id": "team-1"}]}"##));
    let (pipeline, _) = pipeline(vec![], registry, 1);
    let plan = decide_plan(
        json(r##"{"toolName": "t__issues", "input": {"q": "safe"}}"##),
        Some(json(r##"{"toolName": "t__issues", "input": {"q": "{{E0.nope.deep}}"}}"##)),
    );
    let outcome = pipeline
        .run_explicit("q", plan, Finish::Silent, None)
        .unwrap();
    assert_eq!(outcome.state.results["E1"]["branch"], json(r##""then""##));
}

#[test]
fn decide_without_else_passes_through() {
    let registry = search_registry(json(r##"{"values": []}"##));
    let (pipeline, _) = pipeline(vec![], registry.clone(), 1);
    let mut plan = decide_plan(
        json(r##"{"toolName": "t__issues", "input": {"q": "{{E0.values.0.id}}"}}"##),
        None,
    );
    plan.push(
        from_value(json(r##"{"id": "E2", "toolName": "t__issues", "input": {"q": "{{E1.verdict}}"}}"##))
        .unwrap(),
    );
    let outcome = pipeline
        .run_explicit("q", plan, Finish::Silent, None)
        .unwrap();

    let decision = &outcome.state.results["E1"];
    assert_eq!(decision["branch"], json(r##"null"##));
    assert_eq!(decision["verdict"], json(r##"false"##));
    assert_eq!(decision["result"], json(r##"null"##));
    // E2 still ran — the plan continued past the decide.
    assert_eq!(outcome.state.results["E2"], json(r##"{"got": {"q": false}}"##));
}

#[test]
fn inferred_decide_uses_judge_verdict() {
    let registry = search_registry(json(r##"{"values": [{"id": 1}]}"##));
    let (pipeline, provider) = pipeline(
        vec![structured(json(r##"{"verdict": true, "reason": "urgent"}"##))],
        registry,
        1,
    );
    let plan: Plan = from_value(json(r##"[{"id": "E0", "toolName": "t__search", "input": {"query": "x"}}, {"id": "E1", "toolName": "decide", "input": {"infer": "Is this urgent? {{E0.values}}", "then": {"toolName": "t__issues", "input": {"q": "escalate"}}}}]"##))
    .unwrap();
    let outcome = pipeline
        .run_explicit("q", plan, Finish::Silent, None)
        .unwrap();

    let decision = &outcome.state.results["E1"];
    assert_eq!(decision["branch"], json(r##""then""##));
    assert_eq!(decision["reason"], json(r##""urgent""##));
    // The verdict question included the rendered data.
    let requests = provider.requests.lock().unwrap();
    assert!(matches!(
        &requests[0].messages[0],
        ChatMessage::User { content } if content.contains("\"id\"")
    ));
}

#[test]
fn inline_branch_steps_flow_data_and_stay_scoped() {
    let registry = search_registry(json(r##"{"values": [{"id": "x1"}]}"##));
    let (pipeline, _) = pipeline(vec![], registry.clone(), 1);
    let plan = decide_plan(
        json(r##"[{"id": "E10", "toolName": "t__search", "input": {"query": "{{E0.values.0.id}}"}}, {"id": "E11", "toolName": "t__issues", "input": {"q": "{{E10.values.0.id}}"}}]"##),
        None,
    );
    let outcome = pipeline
        .run_explicit("q", plan, Finish::Silent, None)
        .unwrap();

    let decision = &outcome.state.results["E1"];
    assert_eq!(
        decision["result"],
        json(r##"{"got": {"q": "x1"}}"##),
        "intra-branch dataflow, last step wins"
    );
    assert!(
        !outcome.state.results.contains_key("E10"),
        "branch ids stay scoped"
    );
    assert!(!outcome.state.results.contains_key("E11"));
    assert_eq!(
        outcome.state.steps_executed(),
        4,
        "E0 + decide + 2 branch steps"
    );
    // The branch's inner search received the outer step's data.
    let invocations = registry.invocations.lock().unwrap();
    assert_eq!(invocations[1].1, json(r##"{"query": "x1"}"##));
}

#[test]
fn decide_branch_calling_plan_surfaces_nested_exit() {
    let inner = plan_doc_yaml(
        r#"
identifier: inner
name: Inner
description: asserts
steps:
  - id: E0
    tool_name: exit
    input: { status: error, message: "inner assertion" }
"#,
    );
    let registry = search_registry(json(r##"{"values": [{"id": 1}]}"##));
    let (mut pipeline, _) = pipeline(vec![], registry, 1);
    pipeline.plans = Arc::new(vec![inner]);
    let plan = decide_plan(json(r##"{"toolName": "plan__inner", "input": {}}"##), None);
    let err = pipeline
        .run_explicit("q", plan, Finish::Silent, None)
        .unwrap_err();
    let PipelineError::StepFailed {
        step,
        tool,
        message,
    } = err
    else {
        panic!("expected StepFailed");
    };
    assert_eq!(step, "E1");
    assert_eq!(tool, "decide");
    assert!(message.contains("inner assertion"), "{message}");
}

#[test]
fn branch_failure_fails_the_decide_step_and_replans_in_planned_mode() {
    let registry = Arc::new(MockRegistry {
        search_result: json(r##"{"values": [{"id": 1}]}"##),
        invocations: Mutex::new(Vec::new()),
        fail_tools: vec!["t__issues".to_string()],
    });
    // Explicit plans: hard failure attributed to the decide step.
    let (pipeline_explicit, _) = pipeline(vec![], registry.clone(), 1);
    let plan = decide_plan(json(r##"{"toolName": "t__issues", "input": {"q": "x"}}"##), None);
    let err = pipeline_explicit
        .run_explicit("q", plan, Finish::Silent, None)
        .unwrap_err();
    let PipelineError::StepFailed {
        step,
        tool,
        message,
    } = err
    else {
        panic!("expected StepFailed");
    };
    assert_eq!((step.as_str(), tool.as_str()), ("E1", "decide"));
    assert!(message.contains("`then` branch"), "{message}");

    // Planned mode: the failure lands on the bus and triggers a replan.
    let decide_step = json(r##"{"id": "E1", "toolName": "decide", "input": {"if": {"value": "{{E0.values.length}}", "op": "gt", "to": 0}, "then": {"toolName": "t__issues", "input": {"q": "x"}}}}"##);
    let (pipeline_planned, provider) = pipeline(
        vec![
            structured(fill(r##"{"plan": [{"id": "E0", "toolName": "t__search", "input": {"query": "x"}}, "@@0"], "solverData": {"queryToAnswer": "q", "data": {}}}"##, &[value(&(decide_step))])),
            structured(json(r##"{"plan": [{"id": "E1", "toolName": "t__search", "input": {"query": "retry"}}], "solverData": {"queryToAnswer": "q", "data": {}}}"##)),
            text("recovered"),
        ],
        registry,
        2,
    );
    let outcome = pipeline_planned.run_planned("q").unwrap();
    assert_eq!(outcome.answer, "recovered");
    assert_eq!(outcome.state.plan_attempts, 2);
    // The replanning prompt carried the branch failure.
    let requests = provider.requests.lock().unwrap();
    assert!(
        requests[1].system.contains("`then` branch"),
        "error context reaches the planner"
    );
}

#[test]
fn empty_data_in_chosen_branch_degrades_normally() {
    // E0 returns an empty list and its gate sends us into a branch whose
    // template needs an element: genuine EmptyData, not a plan defect.
    let registry = search_registry(json(r##"{"values": []}"##));
    let (pipeline, _) = pipeline(vec![], registry, 1);
    let plan: Plan = from_value(json(r##"[{"id": "E0", "toolName": "t__search", "input": {"query": "x"}}, {"id": "E1", "toolName": "decide", "input": {"if": {"value": "{{E0.values.length}}", "op": "eq", "to": 0}, "then": {"toolName": "t__issues", "input": {"q": "{{E0.values.0.id}}"}}}}]"##))
    .unwrap();
    let err = pipeline
        .run_explicit("q", plan, Finish::Silent, None)
        .unwrap_err();
    assert!(matches!(err, PipelineError::EmptyData { .. }));
}

#[test]
fn decide_validation_rejections() {
    let registry = search_registry(json(r##"{}"##));
    let (pipeline, _) = pipeline(vec![], registry, 1);

    let run = |input: Value| {
        let plan: Plan = from_value(fill(r##"[{"id": "E0", "toolName": "t__search", "input": {"query": "x"}}, {"id": "E1", "toolName": "decide", "input": "@@0"}]"##, &[value(&(input))]))
        .unwrap();
        let pipeline = pipeline.clone();
        {
            let err = pipeline
                .run_explicit("q", plan, Finish::Silent, None)
                .unwrap_err();
            let PipelineError::InvalidPlan(message) = err else {
                panic!("expected InvalidPlan");
            };
            message
        }
    };
    let call = json(r##"{"toolName": "t__issues", "input": {}}"##);

    let message = run(fill(r##"{"if": {"value": 1, "op": "eq", "to": 1}, "infer": "both?", "then": "@@0"}"##, &[value(&(call))]));
    assert!(message.contains("mutually exclusive"), "{message}");

    let message = run(fill(r##"{"then": "@@0"}"##, &[value(&(call))]));
    assert!(message.contains("`if` or `infer`"), "{message}");

    let message = run(json(r##"{"if": {"value": 1, "op": "eq", "to": 1}, "then": {"toolName": "decide", "input": {}}}"##));
    assert!(message.contains("cannot nest"), "{message}");

    // Cross-branch reference: else reads a then-branch id.
    let message = run(json(r##"{"if": {"value": 1, "op": "eq", "to": 1}, "then": [{"id": "E10", "toolName": "t__search", "input": {"query": "x"}}], "else": [{"id": "E11", "toolName": "t__issues", "input": {"q": "{{E10.values}}"}}]}"##));
    assert!(message.contains("E10"), "{message}");

    // Forward reference within a branch.
    let message = run(json(r##"{"if": {"value": 1, "op": "eq", "to": 1}, "then": [{"id": "E10", "toolName": "t__search", "input": {"query": "{{E11.values}}"}}, {"id": "E11", "toolName": "t__issues", "input": {"q": "y"}}]}"##));
    assert!(message.contains("E11"), "{message}");

    // Branch step id shadowing a top-level id.
    let message = run(json(r##"{"if": {"value": 1, "op": "eq", "to": 1}, "then": [{"id": "E0", "toolName": "t__search", "input": {"query": "x"}}]}"##));
    assert!(message.contains("collides"), "{message}");
}

#[test]
fn planner_gets_the_decide_tool_and_authored_decides_work() {
    let registry = search_registry(json(r##"{"values": [{"id": "team-1"}]}"##));
    let (pipeline, provider) = pipeline(
        vec![
            structured(json(r##"{"plan": [{"id": "E0", "toolName": "t__search", "input": {"query": "x"}}, {"id": "E1", "toolName": "decide", "input": {"if": {"value": "{{E0.values.length}}", "op": "gt", "to": 0}, "then": {"toolName": "t__issues", "input": {"q": "{{E0.values.0.id}}"}}}}], "solverData": {"queryToAnswer": "q", "data": {"taken": "{{E1.branch}}"}}}"##)),
            text("done"),
        ],
        registry,
        1,
    );
    let outcome = pipeline.run_planned("route it").unwrap();
    assert_eq!(outcome.answer, "done");
    assert_eq!(outcome.state.results["E1"]["branch"], json(r##""then""##));
    let requests = provider.requests.lock().unwrap();
    assert!(requests[0].system.contains("\"name\":\"decide\""));
}

#[test]
fn decide_yaml_doc_round_trips_and_runs() {
    let fork = plan_doc_yaml(
        r#"
identifier: fork
name: Fork
description: forks on search results
steps:
  - id: E0
    tool_name: t__search
    input: { query: "x" }
  - id: E1
    tool_name: decide
    input:
      if: { value: "{{E0.values.length}}", op: gt, to: 0 }
      then:
        tool_name: t__issues
        input: { q: "{{E0.values.0.id}}" }
      else:
        - id: E10
          tool_name: t__search
          input: { query: "fallback" }
        - id: E11
          tool_name: t__issues
          input: { q: "{{E10.values}}" }
output:
  taken: "{{E1.branch}}"
  result: "{{E1.result}}"
"#,
    );
    let registry = search_registry(json(r##"{"values": [{"id": "z9"}]}"##));
    let (mut pipeline, _) = pipeline(vec![], registry, 1);
    pipeline.plans = Arc::new(vec![fork]);
    let call = pipeline.call_plan("fork", json(r##"{}"##));
    assert!(!call.is_error, "{:?}", call.result);
    assert_eq!(call.result["taken"], json(r##""then""##));
    assert_eq!(call.result["result"], json(r##"{"got": {"q": "z9"}}"##));
}

#[test]
fn map_single_call_runs_per_item_with_ordered_results() {
    let registry = search_registry(json(r##"{"values": [{"id": "a"}, {"id": "b"}, {"id": "c"}]}"##));
    let (pipeline, provider) = pipeline(vec![], registry, 1);
    let plan: Plan = from_value(json(r##"[{"id": "E0", "toolName": "t__search", "input": {"query": "x"}}, {"id": "E1", "toolName": "map", "input": {"over": "{{E0.values}}", "do": {"toolName": "t__issues", "input": {"q": "{{item.id}}", "n": "{{index}}"}}}}]"##))
    .unwrap();
    let outcome = pipeline
        .run_explicit("q", plan, Finish::Silent, None)
        .unwrap();

    let map = &outcome.state.results["E1"];
    assert_eq!(map["count"], json(r##"3"##));
    assert_eq!(
        map["results"],
        json(r##"[{"got": {"q": "a", "n": 0}}, {"got": {"q": "b", "n": 1}}, {"got": {"q": "c", "n": 2}}]"##),
        "typed per-item dataflow, input order"
    );
    assert_eq!(outcome.state.steps_executed(), 5, "E0 + map + 3 item calls");
    assert!(provider.requests.lock().unwrap().is_empty(), "no LLM calls");
}

#[test]
fn map_inline_steps_flow_data_and_stay_scoped() {
    let registry = search_registry(json(r##"{"values": [{"id": "x1"}]}"##));
    let (pipeline, _) = pipeline(vec![], registry.clone(), 1);
    let plan: Plan = from_value(json(r##"[{"id": "E0", "toolName": "t__search", "input": {"query": "x"}}, {"id": "E1", "toolName": "map", "input": {"over": "{{E0.values}}", "do": [{"id": "E10", "toolName": "t__search", "input": {"query": "{{item.id}}"}}, {"id": "E11", "toolName": "t__issues", "input": {"q": "{{E10.values.0.id}}"}}]}}]"##))
    .unwrap();
    let outcome = pipeline
        .run_explicit("q", plan, Finish::Silent, None)
        .unwrap();

    let map = &outcome.state.results["E1"];
    assert_eq!(
        map["results"],
        json(r##"[{"got": {"q": "x1"}}]"##),
        "intra-body dataflow, last step wins"
    );
    assert!(
        !outcome.state.results.contains_key("E10"),
        "body ids stay scoped"
    );
    assert!(!outcome.state.results.contains_key("E11"));
    assert_eq!(outcome.state.steps_executed(), 4, "E0 + map + 2 body steps");
    // The body's inner search received the item's data.
    let invocations = registry.invocations.lock().unwrap();
    assert_eq!(invocations[1].1, json(r##"{"query": "x1"}"##));
}

#[test]
fn concurrent_map_completes_all_items_in_order() {
    let values: Vec<Value> = (0..5).map(|n| fill(r##"{"id": "@@0"}"##, &[value(&(format!("v{n}")))])).collect();
    let registry = search_registry(fill(r##"{"values": "@@0"}"##, &[value(&(values))]));
    let (pipeline, _) = pipeline(vec![], registry.clone(), 1);
    let plan: Plan = from_value(json(r##"[{"id": "E0", "toolName": "t__search", "input": {"query": "x"}}, {"id": "E1", "toolName": "map", "input": {"over": "{{E0.values}}", "concurrency": 3, "do": {"toolName": "t__issues", "input": {"q": "{{item.id}}"}}}}]"##))
    .unwrap();
    let outcome = pipeline
        .run_explicit("q", plan, Finish::Silent, None)
        .unwrap();

    let map = &outcome.state.results["E1"];
    assert_eq!(map["count"], json(r##"5"##));
    let expected: Vec<Value> = (0..5)
        .map(|n| fill(r##"{"got": {"q": "@@0"}}"##, &[value(&(format!("v{n}")))]))
        .collect();
    assert_eq!(
        map["results"],
        value(&(expected)),
        "input order regardless of concurrency"
    );
    let issues = registry
        .invocations
        .lock()
        .unwrap()
        .iter()
        .filter(|(n, _)| n == "t__issues")
        .count();
    assert_eq!(issues, 5, "every item ran");
}

#[test]
fn filter_where_partitions_in_input_order() {
    let registry = search_registry(json(r##"{"changes": [{"path": "a.rs", "status": "modified"}, {"path": "b.json", "status": "deleted"}, {"path": "c.md", "status": "added"}]}"##));
    let (pipeline, provider) = pipeline(vec![], registry, 1);
    let plan: Plan = from_value(json(r##"[{"id": "E0", "toolName": "t__search", "input": {"query": "x"}}, {"id": "E1", "toolName": "filter", "input": {"over": "{{E0.changes}}", "where": {"value": "{{item.status}}", "op": "ne", "to": "deleted"}}}]"##))
    .unwrap();
    let outcome = pipeline
        .run_explicit("q", plan, Finish::Silent, None)
        .unwrap();

    let filter = &outcome.state.results["E1"];
    assert_eq!(filter["count"], json(r##"2"##));
    assert_eq!(
        filter["items"],
        json(r##"[{"path": "a.rs", "status": "modified"}, {"path": "c.md", "status": "added"}]"##),
        "kept elements, input order"
    );
    assert_eq!(filter["dropped_count"], json(r##"1"##));
    assert_eq!(
        filter["dropped"],
        json(r##"[{"path": "b.json", "status": "deleted"}]"##),
        "both halves of the partition are addressable"
    );
    assert!(
        provider.requests.lock().unwrap().is_empty(),
        "`where` costs no LLM calls"
    );
}

#[test]
fn filter_infer_judges_each_item() {
    let registry = search_registry(json(r##"{"values": [{"title": "fix the bug"}, {"title": "update readme"}, {"title": "fix the crash"}]}"##));
    let (pipeline, provider) = pipeline(
        vec![
            structured(json(r##"{"verdict": true, "reason": "code change"}"##)),
            structured(json(r##"{"verdict": false, "reason": "docs only"}"##)),
            structured(json(r##"{"verdict": true, "reason": "code change"}"##)),
        ],
        registry,
        1,
    );
    let plan: Plan = from_value(json(r##"[{"id": "E0", "toolName": "t__search", "input": {"query": "x"}}, {"id": "E1", "toolName": "filter", "input": {"over": "{{E0.values}}", "infer": "Is \"{{item.title}}\" a code change?"}}]"##))
    .unwrap();
    let outcome = pipeline
        .run_explicit("q", plan, Finish::Silent, None)
        .unwrap();

    let filter = &outcome.state.results["E1"];
    assert_eq!(filter["count"], json(r##"2"##));
    assert_eq!(
        filter["items"],
        json(r##"[{"title": "fix the bug"}, {"title": "fix the crash"}]"##),
    );
    assert_eq!(filter["dropped"], json(r##"[{"title": "update readme"}]"##));
    // Each verdict saw its own item, rendered.
    let requests = provider.requests.lock().unwrap();
    assert_eq!(requests.len(), 3, "one judge call per item");
    assert!(matches!(
        &requests[1].messages[0],
        ChatMessage::User { content } if content.contains("update readme")
    ));
}

#[test]
fn concurrent_filter_infer_judges_every_item() {
    let values: Vec<Value> = (0..5).map(|n| fill(r##"{"id": "@@0"}"##, &[value(&(format!("v{n}")))])).collect();
    let registry = search_registry(fill(r##"{"values": "@@0"}"##, &[value(&(values))]));
    // Identical verdicts: partition is order-independent under concurrency.
    let verdicts = (0..5)
        .map(|_| structured(json(r##"{"verdict": true, "reason": "keep"}"##)))
        .collect();
    let (pipeline, provider) = pipeline(verdicts, registry, 1);
    let plan: Plan = from_value(json(r##"[{"id": "E0", "toolName": "t__search", "input": {"query": "x"}}, {"id": "E1", "toolName": "filter", "input": {"over": "{{E0.values}}", "infer": "keep {{item.id}}?", "concurrency": 3}}]"##))
    .unwrap();
    let outcome = pipeline
        .run_explicit("q", plan, Finish::Silent, None)
        .unwrap();
    let filter = &outcome.state.results["E1"];
    assert_eq!(filter["count"], json(r##"5"##), "every item judged and kept");
    assert_eq!(filter["dropped_count"], json(r##"0"##));
    let expected: Vec<Value> = (0..5).map(|n| fill(r##"{"id": "@@0"}"##, &[value(&(format!("v{n}")))])).collect();
    assert_eq!(
        filter["items"],
        value(&(expected)),
        "input order regardless of concurrency"
    );
    assert_eq!(provider.requests.lock().unwrap().len(), 5);
}

#[test]
fn filter_infer_model_override_selects_named_model_for_every_verdict() {
    let registry = search_registry(json(r##"{"values": [{"id": "a"}, {"id": "b"}]}"##));
    let (pipeline, provider) = pipeline_with_named(
        vec![
            structured(json(r##"{"verdict": true, "reason": "yes"}"##)),
            structured(json(r##"{"verdict": false, "reason": "no"}"##)),
        ],
        registry,
        1,
        named_model("haiku-fast"),
    );
    let plan: Plan = from_value(json(r##"[{"id": "E0", "toolName": "t__search", "input": {"query": "x"}}, {"id": "E1", "toolName": "filter", "input": {"over": "{{E0.values}}", "infer": "keep {{item.id}}?", "model": "fast"}}]"##))
    .unwrap();
    let outcome = pipeline
        .run_explicit("q", plan, Finish::Silent, None)
        .unwrap();
    assert_eq!(outcome.state.results["E1"]["count"], json(r##"1"##));
    // Every per-item verdict used the named model, not the judge/default.
    let requests = provider.requests.lock().unwrap();
    assert_eq!(requests.len(), 2);
    for request in requests.iter() {
        assert_eq!(request.model, "haiku-fast");
    }
}

#[test]
fn filter_over_empty_list_is_a_value_not_an_error() {
    let registry = search_registry(json(r##"{"values": []}"##));
    let (pipeline, provider) = pipeline(vec![], registry, 1);
    let plan: Plan = from_value(json(r##"[{"id": "E0", "toolName": "t__search", "input": {"query": "x"}}, {"id": "E1", "toolName": "filter", "input": {"over": "{{E0.values}}", "infer": "keep {{item}}?"}}]"##))
    .unwrap();
    let outcome = pipeline
        .run_explicit("q", plan, Finish::Silent, None)
        .unwrap();
    let filter = &outcome.state.results["E1"];
    assert_eq!(filter["count"], json(r##"0"##));
    assert_eq!(filter["items"], json(r##"[]"##));
    assert!(
        provider.requests.lock().unwrap().is_empty(),
        "no items, no judge calls"
    );
}

#[test]
fn filter_where_on_a_missing_field_fails_hard() {
    let registry = search_registry(json(r##"{"values": [{"id": "a"}]}"##));
    let (pipeline, _) = pipeline(vec![], registry, 1);
    let plan: Plan = from_value(json(r##"[{"id": "E0", "toolName": "t__search", "input": {"query": "x"}}, {"id": "E1", "toolName": "filter", "input": {"over": "{{E0.values}}", "where": {"value": "{{item.status}}", "op": "ne", "to": "deleted"}}}]"##))
    .unwrap();
    let err = pipeline
        .run_explicit("q", plan, Finish::Silent, None)
        .unwrap_err();
    match err {
        PipelineError::StepFailed { step, tool, .. } => {
            assert_eq!(step, "E1");
            assert_eq!(tool, "filter");
        }
        other => panic!("expected StepFailed, got {other:?}"),
    }
}

#[test]
fn filter_nested_in_map_body_shadows_the_outer_item() {
    let registry = search_registry(json(r##"{"values": [{"id": "p1", "children": [{"size": 3}, {"size": 0}]}, {"id": "p2", "children": [{"size": 0}]}]}"##));
    let (pipeline, _) = pipeline(vec![], registry, 1);
    // The nested filter's `over` reads the OUTER {{item.children}}; its
    // `where` reads the INNER {{item.size}} — shadowed per candidate.
    let plan: Plan = from_value(json(r##"[{"id": "E0", "toolName": "t__search", "input": {"query": "x"}}, {"id": "E1", "toolName": "map", "input": {"over": "{{E0.values}}", "do": {"toolName": "filter", "input": {"over": "{{item.children}}", "where": {"value": "{{item.size}}", "op": "gt", "to": 0}}}}}]"##))
    .unwrap();
    let outcome = pipeline
        .run_explicit("q", plan, Finish::Silent, None)
        .unwrap();
    let map = &outcome.state.results["E1"];
    assert_eq!(map["count"], json(r##"2"##));
    assert_eq!(map["results"][0]["items"], json(r##"[{"size": 3}]"##));
    assert_eq!(map["results"][0]["dropped"], json(r##"[{"size": 0}]"##));
    assert_eq!(map["results"][1]["count"], json(r##"0"##), "p2 keeps nothing");
}

#[test]
fn filter_in_decide_branch_and_planner_catalog() {
    let registry = search_registry(json(r##"{"values": [{"n": 1}, {"n": 5}]}"##));
    let (pipeline, _) = pipeline(vec![], registry, 1);
    let plan: Plan = from_value(json(r##"[{"id": "E0", "toolName": "t__search", "input": {"query": "x"}}, {"id": "E1", "toolName": "decide", "input": {"if": {"value": "{{E0.values.length}}", "op": "gt", "to": 0}, "then": {"toolName": "filter", "input": {"over": "{{E0.values}}", "where": {"value": "{{item.n}}", "op": "gt", "to": 2}}}}}]"##))
    .unwrap();
    let outcome = pipeline
        .run_explicit("q", plan, Finish::Silent, None)
        .unwrap();
    let decide = &outcome.state.results["E1"];
    assert_eq!(decide["branch"], json(r##""then""##));
    assert_eq!(decide["result"]["items"], json(r##"[{"n": 5}]"##));

    // The planner is offered the filter step alongside its siblings.
    let (tools_text, _) = pipeline.planner_catalog();
    assert!(
        tools_text.contains("\"name\":\"filter\""),
        "planner catalog lists filter"
    );
}

#[test]
fn map_item_failure_fails_the_step_with_index_attribution() {
    let registry = Arc::new(MockRegistry {
        search_result: json(r##"{"values": [{"id": "a"}, {"id": "b"}]}"##),
        invocations: Mutex::new(Vec::new()),
        fail_tools: vec!["t__issues".to_string()],
    });
    let (pipeline, _) = pipeline(vec![], registry.clone(), 1);
    let plan: Plan = from_value(json(r##"[{"id": "E0", "toolName": "t__search", "input": {"query": "x"}}, {"id": "E1", "toolName": "map", "input": {"over": "{{E0.values}}", "do": {"toolName": "t__issues", "input": {"q": "{{item.id}}"}}}}]"##))
    .unwrap();
    let err = pipeline
        .run_explicit("q", plan, Finish::Silent, None)
        .unwrap_err();
    let PipelineError::StepFailed {
        step,
        tool,
        message,
    } = err
    else {
        panic!("expected StepFailed");
    };
    assert_eq!((step.as_str(), tool.as_str()), ("E1", "map"));
    assert!(message.contains("`do` item 0 (t__issues)"), "{message}");
    // The failure halted the iteration — item 1 never started.
    let issues = registry
        .invocations
        .lock()
        .unwrap()
        .iter()
        .filter(|(n, _)| n == "t__issues")
        .count();
    assert_eq!(issues, 1, "remaining items skipped after the failure");
}

#[test]
fn empty_over_continues_with_zero_count() {
    let registry = search_registry(json(r##"{"values": []}"##));
    let (pipeline, _) = pipeline(vec![], registry, 1);
    let plan: Plan = from_value(json(r##"[{"id": "E0", "toolName": "t__search", "input": {"query": "x"}}, {"id": "E1", "toolName": "map", "input": {"over": "{{E0.values}}", "do": {"toolName": "t__issues", "input": {"q": "{{item.id}}"}}}}, {"id": "E2", "toolName": "t__issues", "input": {"q": "{{E1.count}}"}}]"##))
    .unwrap();
    let outcome = pipeline
        .run_explicit("q", plan, Finish::Silent, None)
        .unwrap();
    assert_eq!(
        outcome.state.results["E1"],
        json(r##"{"count": 0, "results": []}"##)
    );
    // The plan continued past the empty map.
    assert_eq!(outcome.state.results["E2"], json(r##"{"got": {"q": 0}}"##));
}

#[test]
fn non_array_over_is_a_plan_defect() {
    let registry = search_registry(json(r##"{"values": [{"id": 1}]}"##));
    let (pipeline, _) = pipeline(vec![], registry, 1);
    let plan: Plan = from_value(json(r##"[{"id": "E0", "toolName": "t__search", "input": {"query": "x"}}, {"id": "E1", "toolName": "map", "input": {"over": "{{E0}}", "do": {"toolName": "t__issues", "input": {"q": "y"}}}}]"##))
    .unwrap();
    let err = pipeline
        .run_explicit("q", plan, Finish::Silent, None)
        .unwrap_err();
    let PipelineError::StepFailed { message, .. } = err else {
        panic!("expected StepFailed");
    };
    assert!(message.contains("must produce an array"), "{message}");
}

#[test]
fn empty_data_in_item_body_degrades_normally() {
    // The item exists but its inner list is empty: genuine EmptyData
    // inside the body, not a plan defect.
    let registry = search_registry(json(r##"{"values": [{"children": []}]}"##));
    let (pipeline, _) = pipeline(vec![], registry, 1);
    let plan: Plan = from_value(json(r##"[{"id": "E0", "toolName": "t__search", "input": {"query": "x"}}, {"id": "E1", "toolName": "map", "input": {"over": "{{E0.values}}", "do": {"toolName": "t__issues", "input": {"q": "{{item.children.0.id}}"}}}}]"##))
    .unwrap();
    let err = pipeline
        .run_explicit("q", plan, Finish::Silent, None)
        .unwrap_err();
    assert!(matches!(err, PipelineError::EmptyData { .. }));
}

#[test]
fn map_body_calling_plan_surfaces_nested_exit() {
    let inner = plan_doc_yaml(
        r#"
identifier: inner
name: Inner
description: asserts
steps:
  - id: E0
    tool_name: exit
    input: { status: error, message: "inner assertion" }
"#,
    );
    let registry = search_registry(json(r##"{"values": [{"id": 1}]}"##));
    let (mut pipeline, _) = pipeline(vec![], registry, 1);
    pipeline.plans = Arc::new(vec![inner]);
    let plan: Plan = from_value(json(r##"[{"id": "E0", "toolName": "t__search", "input": {"query": "x"}}, {"id": "E1", "toolName": "map", "input": {"over": "{{E0.values}}", "do": {"toolName": "plan__inner", "input": {}}}}]"##))
    .unwrap();
    let err = pipeline
        .run_explicit("q", plan, Finish::Silent, None)
        .unwrap_err();
    let PipelineError::StepFailed {
        step,
        tool,
        message,
    } = err
    else {
        panic!("expected StepFailed");
    };
    assert_eq!((step.as_str(), tool.as_str()), ("E1", "map"));
    assert!(message.contains("inner assertion"), "{message}");
}

#[test]
fn reduce_folds_left_threading_the_accumulator() {
    let registry = search_registry(json(r##"{"values": [{"id": "a"}, {"id": "b"}]}"##));
    let (pipeline, _) = pipeline(vec![], registry, 1);
    let plan: Plan = from_value(json(r##"[{"id": "E0", "toolName": "t__search", "input": {"query": "x"}}, {"id": "E1", "toolName": "reduce", "input": {"over": "{{E0.values}}", "initial": {"seen": "none"}, "do": {"toolName": "t__issues", "input": {"a": "{{accumulator}}", "i": "{{item.id}}"}}}}]"##))
    .unwrap();
    let outcome = pipeline
        .run_explicit("q", plan, Finish::Silent, None)
        .unwrap();

    let reduce = &outcome.state.results["E1"];
    assert_eq!(reduce["count"], json(r##"2"##));
    // Second iteration saw the first's result as its accumulator.
    assert_eq!(reduce["result"]["got"]["i"], json(r##""b""##));
    assert_eq!(reduce["result"]["got"]["a"]["got"]["i"], json(r##""a""##));
    assert_eq!(
        reduce["result"]["got"]["a"]["got"]["a"],
        json(r##"{"seen": "none"}"##),
        "first iteration started from `initial`"
    );
    assert_eq!(
        outcome.state.steps_executed(),
        4,
        "E0 + reduce + 2 item calls"
    );
}

#[test]
fn reduce_defaults_initial_to_null_and_empty_over_returns_it() {
    let registry = search_registry(json(r##"{"values": [{"id": "a"}]}"##));
    let (pipeline, _) = pipeline(vec![], registry.clone(), 1);
    let plan: Plan = from_value(json(r##"[{"id": "E0", "toolName": "t__search", "input": {"query": "x"}}, {"id": "E1", "toolName": "reduce", "input": {"over": "{{E0.values}}", "do": {"toolName": "t__issues", "input": {"a": "{{accumulator}}"}}}}]"##))
    .unwrap();
    let outcome = pipeline
        .run_explicit("q", plan, Finish::Silent, None)
        .unwrap();
    assert_eq!(
        outcome.state.results["E1"]["result"]["got"]["a"],
        json(r##"null"##),
        "accumulator starts at null when initial is omitted"
    );

    // Empty list: the result is the initial value untouched.
    let empty_registry = search_registry(json(r##"{"values": []}"##));
    let (empty_pipeline, _) = crate::pipeline(vec![], empty_registry, 1);
    let plan: Plan = from_value(json(r##"[{"id": "E0", "toolName": "t__search", "input": {"query": "x"}}, {"id": "E1", "toolName": "reduce", "input": {"over": "{{E0.values}}", "initial": {"total": 0}, "do": {"toolName": "t__issues", "input": {"a": "{{accumulator}}"}}}}]"##))
    .unwrap();
    let outcome = empty_pipeline
        .run_explicit("q", plan, Finish::Silent, None)
        .unwrap();
    assert_eq!(
        outcome.state.results["E1"],
        json(r##"{"count": 0, "result": {"total": 0}}"##)
    );
}

#[test]
fn iteration_validation_rejections() {
    let registry = search_registry(json(r##"{}"##));
    let (pipeline, _) = pipeline(vec![], registry, 1);

    let run = |steps: Value| {
        let plan: Plan = from_value(steps).unwrap();
        let pipeline = pipeline.clone();
        {
            let err = pipeline
                .run_explicit("q", plan, Finish::Silent, None)
                .unwrap_err();
            let PipelineError::InvalidPlan(message) = err else {
                panic!("expected InvalidPlan");
            };
            message
        }
    };

    // Reduce has no concurrency knob — each iteration reads the previous
    // accumulator.
    let message = run(json(r##"[{"id": "E0", "toolName": "t__search", "input": {"query": "x"}}, {"id": "E1", "toolName": "reduce", "input": {"over": "{{E0.values}}", "concurrency": 2, "do": {"toolName": "t__issues", "input": {"q": "y"}}}}]"##));
    assert!(message.contains("concurrency"), "{message}");

    // Control steps cannot nest: map inside a decide branch…
    let message = run(json(r##"[{"id": "E0", "toolName": "t__search", "input": {"query": "x"}}, {"id": "E1", "toolName": "decide", "input": {"if": {"value": 1, "op": "eq", "to": 1}, "then": {"toolName": "map", "input": {}}}}]"##));
    assert!(message.contains("cannot nest"), "{message}");

    // …and decide inside a map body.
    let message = run(json(r##"[{"id": "E0", "toolName": "t__search", "input": {"query": "x"}}, {"id": "E1", "toolName": "map", "input": {"over": "{{E0.values}}", "do": {"toolName": "decide", "input": {}}}}]"##));
    assert!(message.contains("cannot nest"), "{message}");

    // Pseudo-roots outside their scope.
    let message = run(json(r##"[{"id": "E0", "toolName": "t__search", "input": {"query": "x"}}, {"id": "E1", "toolName": "map", "input": {"over": "{{E0.values}}", "do": {"toolName": "t__issues", "input": {"a": "{{accumulator}}"}}}}]"##));
    assert!(message.contains("reduce body"), "{message}");
}

#[test]
fn planner_gets_the_iteration_tools_and_authored_maps_work() {
    let registry = search_registry(json(r##"{"values": [{"id": "a"}, {"id": "b"}]}"##));
    let (pipeline, provider) = pipeline(
        vec![
            structured(json(r##"{"plan": [{"id": "E0", "toolName": "t__search", "input": {"query": "x"}}, {"id": "E1", "toolName": "map", "input": {"over": "{{E0.values}}", "do": {"toolName": "t__issues", "input": {"q": "{{item.id}}"}}}}], "solverData": {"queryToAnswer": "q", "data": {"mapped": "{{E1.results}}"}}}"##)),
            text("done"),
        ],
        registry,
        1,
    );
    let outcome = pipeline.run_planned("fan out").unwrap();
    assert_eq!(outcome.answer, "done");
    assert_eq!(outcome.state.results["E1"]["count"], json(r##"2"##));
    let requests = provider.requests.lock().unwrap();
    assert!(requests[0].system.contains("\"name\":\"map\""));
    assert!(requests[0].system.contains("\"name\":\"reduce\""));
}

#[test]
fn iteration_yaml_doc_round_trips_and_runs() {
    let fanout = plan_doc_yaml(
        r#"
identifier: fanout
name: Fanout
description: maps then folds
steps:
  - id: E0
    tool_name: t__search
    input: { query: "x" }
  - id: E1
    tool_name: map
    input:
      over: "{{E0.values}}"
      concurrency: 2
      do:
        tool_name: t__issues
        input: { q: "{{item.id}}" }
  - id: E2
    tool_name: reduce
    input:
      over: "{{E1.results}}"
      initial: { first: null }
      do:
        tool_name: t__issues
        input: { accumulator: "{{accumulator}}", item: "{{item}}" }
output:
  mapped: "{{E1.results}}"
  folded: "{{E2.result}}"
"#,
    );
    let registry = search_registry(json(r##"{"values": [{"id": "a"}, {"id": "b"}]}"##));
    let (mut pipeline, _) = pipeline(vec![], registry, 1);
    pipeline.plans = Arc::new(vec![fanout]);
    let call = pipeline.call_plan("fanout", json(r##"{}"##));
    assert!(!call.is_error, "{:?}", call.result);
    assert_eq!(
        call.result["mapped"],
        json(r##"[{"got": {"q": "a"}}, {"got": {"q": "b"}}]"##)
    );
    assert_eq!(
        call.result["folded"]["got"]["item"],
        json(r##"{"got": {"q": "b"}}"##),
        "reduce folded the map's results"
    );
}

#[test]
fn plans_call_plans_with_dataflow() {
    let inner = plan_doc_yaml(
        r#"
identifier: inner
name: Inner
description: fetch and shape
steps:
  - id: E0
    tool_name: t__search
    input: { query: "{{input.q}}" }
output:
  found: "{{E0.values}}"
"#,
    );
    let outer = plan_doc_yaml(
        r#"
identifier: outer
name: Outer
description: composes inner
steps:
  - id: E0
    tool_name: plan__inner
    input: { q: "hello" }
output:
  inner_found: "{{E0.found}}"
"#,
    );
    let registry = search_registry(json(r##"{"values": [{"id": "x"}]}"##));
    let (mut pipeline, _) = pipeline(vec![], registry.clone(), 1);
    pipeline.plans = Arc::new(vec![inner, outer]);

    let call = pipeline.call_plan("outer", json(r##"{}"##));
    assert!(!call.is_error, "{:?}", call.result);
    assert_eq!(call.result, json(r##"{"inner_found": [{"id": "x"}]}"##));
    // inner's step actually ran against the base registry
    assert_eq!(
        registry.invocations.lock().unwrap()[0].1,
        json(r##"{"query": "hello"}"##)
    );
}

#[test]
fn plan_cycles_error_cleanly() {
    let a = plan_doc_yaml(
        r#"
identifier: a
name: A
description: calls b
steps:
  - { id: E0, tool_name: plan__b, input: {} }
"#,
    );
    let b = plan_doc_yaml(
        r#"
identifier: b
name: B
description: calls a
steps:
  - { id: E0, tool_name: plan__a, input: {} }
"#,
    );
    let registry = search_registry(json(r##"{}"##));
    let (mut pipeline, _) = pipeline(vec![], registry, 1);
    pipeline.plans = Arc::new(vec![a, b]);

    let call = pipeline.call_plan("a", json(r##"{}"##));
    assert!(call.is_error);
    let message = call.result.to_string();
    assert!(message.contains("cycle"), "{message}");
    assert!(message.contains("a → b"), "{message}");
}

#[test]
fn exit_inside_nested_plan_surfaces_to_the_caller() {
    let inner = plan_doc_yaml(
        r#"
identifier: inner
name: Inner
description: asserts
steps:
  - id: E0
    tool_name: exit
    input: { status: error, message: "inner assertion" }
"#,
    );
    let outer = plan_doc_yaml(
        r#"
identifier: outer
name: Outer
description: composes
steps:
  - { id: E0, tool_name: plan__inner, input: {} }
"#,
    );
    let registry = search_registry(json(r##"{}"##));
    let (mut pipeline, _) = pipeline(vec![], registry, 1);
    pipeline.plans = Arc::new(vec![inner, outer]);

    // The nested error-exit becomes a failed step in the outer plan —
    // explicit outer plan → hard failure naming the inner assertion.
    let call = pipeline.call_plan("outer", json(r##"{}"##));
    assert!(call.is_error);
    assert!(call.result.to_string().contains("inner assertion"));
}

#[test]
fn gate_proceed_is_transparent() {
    let registry = search_registry(json(r##"{"values": [{"id": "team-1"}]}"##));
    let (pipeline, _) = pipeline(
        vec![
            structured(two_step_plan("E0.values.0.id")),
            text("all good"),
        ],
        registry,
        2,
    );
    let gate = ScriptedGate::new(vec![]);
    let outcome = pipeline
        .with_gate(gate.clone())
        .run_planned("sprint status")
        .unwrap();
    assert_eq!(outcome.answer, "all good");
    assert_eq!(gate.paths(), vec!["E0", "E1"]);
}

#[test]
fn gate_skip_injects_result_downstream() {
    let registry = search_registry(json(r##"{"values": [{"id": "real"}]}"##));
    let (mut pipeline, _) = pipeline(
        vec![structured(two_step_plan("E0.values.0.id")), text("done")],
        registry.clone(),
        2,
    );
    let sink = Arc::new(RecordingSink::default());
    pipeline.events = sink.clone();
    let injected = json(r##"{"values": [{"id": "fake"}]}"##);
    let gate = ScriptedGate::new(vec![GateDecision::Skip {
        result: data(&injected),
    }]);
    let outcome = pipeline
        .with_gate(gate)
        .run_planned("sprint status")
        .unwrap();
    assert_eq!(outcome.state.results["E0"], injected);

    let invocations = registry.invocations.lock().unwrap();
    assert_eq!(invocations.len(), 1, "t__search was skipped");
    assert_eq!(invocations[0].0, "t__issues");
    assert_eq!(
        invocations[0].1,
        json(r##"{"teamId": "fake"}"##),
        "downstream template consumed the injected value"
    );

    let finished = sink.finished.lock().unwrap();
    let e0 = finished.iter().find(|(path, ..)| path == "E0").unwrap();
    assert_eq!(e0.2, injected, "skip still emits a step_finished");
    assert!(!e0.3);
}

#[test]
fn gate_abort_is_hard_and_never_replans() {
    let registry = search_registry(json(r##"{"values": [{"id": "team-1"}]}"##));
    let (pipeline, provider) = pipeline(
        vec![
            structured(two_step_plan("E0.values.0.id")),
            structured(two_step_plan("E0.values.0.id")),
            text("never"),
        ],
        registry.clone(),
        2,
    );
    let gate = ScriptedGate::new(vec![GateDecision::Abort]);
    let err = pipeline
        .with_gate(gate)
        .run_planned("sprint status")
        .unwrap_err();
    let PipelineError::Aborted { step, error, state } = err else {
        panic!("expected Aborted");
    };
    assert_eq!(step, "E0");
    assert!(
        error.is_none(),
        "a pre-dispatch breakpoint abort carries no tool error"
    );
    assert_eq!(state.plan.len(), 2, "partial state carries the plan");
    assert!(registry.invocations.lock().unwrap().is_empty());
    assert_eq!(
        provider.requests.lock().unwrap().len(),
        1,
        "planner only — no replan, no error summary"
    );
}

#[test]
fn gate_fires_inside_decide_branch_and_map_body() {
    let registry = search_registry(json(r##"{"values": [{"id": "a"}, {"id": "b"}]}"##));
    let (pipeline, _) = pipeline(vec![], registry, 1);
    let gate = ScriptedGate::new(vec![]);
    let plan: Plan = from_value(json(r##"[{"id": "E0", "toolName": "t__search", "input": {"query": "x"}}, {"id": "E1", "toolName": "decide", "input": {"if": {"value": "{{E0.values.length}}", "op": "gt", "to": 0}, "then": {"toolName": "t__issues", "input": {"q": "{{E0.values.0.id}}"}}}}, {"id": "E2", "toolName": "map", "input": {"over": "{{E0.values}}", "do": [{"id": "E10", "toolName": "t__issues", "input": {"q": "{{item.id}}"}}]}}]"##))
    .unwrap();
    pipeline
        .with_gate(gate.clone())
        .run_explicit("q", plan, Finish::Silent, None)
        .unwrap();
    assert_eq!(
        gate.paths(),
        vec!["E0", "E1/then", "E2/do.0/E10", "E2/do.1/E10"]
    );
    assert!(
        gate.tools().iter().all(|t| t != "decide" && t != "map"),
        "control steps are never gated"
    );
}

#[test]
fn gate_abort_in_map_skips_remaining_items() {
    let registry = search_registry(json(r##"{"values": [{"id": "a"}, {"id": "b"}, {"id": "c"}]}"##));
    let (pipeline, _) = pipeline(vec![], registry.clone(), 1);
    let gate = ScriptedGate::new(vec![GateDecision::Proceed, GateDecision::Abort]);
    let plan: Plan = from_value(json(r##"[{"id": "E0", "toolName": "t__search", "input": {"query": "x"}}, {"id": "E1", "toolName": "map", "input": {"over": "{{E0.values}}", "do": {"toolName": "t__issues", "input": {"q": "{{item.id}}"}}}}]"##))
    .unwrap();
    let err = pipeline
        .with_gate(gate)
        .run_explicit("q", plan, Finish::Silent, None)
        .unwrap_err();
    let PipelineError::Aborted { step, .. } = err else {
        panic!("expected Aborted");
    };
    assert_eq!(step, "E1");
    let invocations = registry.invocations.lock().unwrap();
    assert!(
        invocations.iter().all(|(name, _)| name != "t__issues"),
        "aborted item never ran; remaining items were skipped"
    );
}

#[test]
fn gate_abort_inside_nested_plan_propagates() {
    let inner = plan_doc_yaml(
        r#"
identifier: inner
name: Inner
description: inner plan
steps:
  - id: E0
    tool_name: t__search
    input: { query: inner }
"#,
    );
    let registry = search_registry(json(r##"{"values": [{"id": 1}]}"##));
    let (mut pipeline, _) = pipeline(vec![], registry, 1);
    pipeline.plans = Arc::new(vec![inner]);
    let gate = ScriptedGate::new(vec![GateDecision::Proceed, GateDecision::Abort]);
    let plan: Plan = from_value(json(r##"[{"id": "E0", "toolName": "plan__inner", "input": {}}]"##))
    .unwrap();
    let err = pipeline
        .with_gate(gate.clone())
        .run_explicit("q", plan, Finish::Silent, None)
        .unwrap_err();
    let PipelineError::Aborted { step, .. } = err else {
        panic!("expected Aborted (not a replannable tool error)");
    };
    assert_eq!(step, "E0");
    let seen = gate.seen.lock().unwrap();
    assert!(seen[0].0.is_empty(), "outer call has an empty call stack");
    assert_eq!(
        seen[1].0,
        vec!["inner".to_string()],
        "inner call carries the plan frame"
    );
}

#[test]
fn step_events_attribute_body_and_control_results() {
    let registry = search_registry(json(r##"{"values": [{"id": "team-1"}]}"##));
    let (mut pipeline, _) = pipeline(vec![], registry, 1);
    let sink = Arc::new(RecordingSink::default());
    pipeline.events = sink.clone();
    let plan = decide_plan(
        json(r##"[{"id": "E10", "toolName": "t__issues", "input": {"q": "{{E0.values.0.id}}"}}]"##),
        None,
    );
    let outcome = pipeline
        .run_explicit("q", plan, Finish::Silent, None)
        .unwrap();
    assert!(
        !outcome.state.results.contains_key("E10"),
        "body results stay scoped"
    );
    let finished = sink.finished.lock().unwrap();
    let body = finished
        .iter()
        .find(|(path, ..)| path == "E1/then/E10")
        .expect("body step event with a scoped path");
    assert_eq!(body.2, json(r##"{"got": {"q": "team-1"}}"##));
    let decide = finished
        .iter()
        .find(|(path, tool, ..)| path == "E1" && tool == "decide")
        .expect("decide aggregate event");
    assert_eq!(decide.2["branch"], json(r##""then""##));
}

#[test]
fn validate_plan_reports_all_problems() {
    let registry = search_registry(json(r##"{}"##));
    let (pipeline, _) = pipeline(vec![], registry, 1);
    let plan: Plan = from_value(json(r##"[{"id": "E0", "toolName": "t__search", "input": {"query": "{{E5.values}}"}}, {"id": "E1", "toolName": "decide", "input": {"then": {"toolName": "t__issues", "input": {}}}}]"##))
    .unwrap();
    let problems = pipeline.validate_plan(&plan).unwrap_err();
    assert!(problems.iter().any(|p| p.contains("E5")), "{problems:?}");
    assert!(
        problems.iter().any(|p| p.contains("`if` or `infer`")),
        "{problems:?}"
    );
}

#[test]
fn gate_sees_top_level_scope() {
    let registry = search_registry(json(r##"{"values": [{"id": "team-1"}]}"##));
    let (pipeline, _) = pipeline(vec![], registry, 1);
    let gate = ScriptedGate::new(vec![]);
    let plan: Plan = from_value(json(r##"[{"id": "E0", "toolName": "t__search", "input": {"query": "x"}}, {"id": "E1", "toolName": "t__issues", "input": {"q": "{{E0.values.0.id}}"}}]"##))
    .unwrap();
    pipeline
        .with_gate(gate.clone())
        .run_explicit("q", plan, Finish::Silent, Some(json(r##"{"team": "core"}"##)))
        .unwrap();
    let scopes = gate.scopes.lock().unwrap();
    assert_eq!(scopes[0].get("input"), Some(&json(r##"{"team": "core"}"##)));
    assert!(!scopes[0].contains_key("E0"), "E0 has not run yet");
    assert_eq!(
        scopes[1].get("E0"),
        Some(&json(r##"{"values": [{"id": "team-1"}]}"##)),
        "the second consult sees the first step's result"
    );
}

#[test]
fn gate_sees_body_scope_pseudo_roots() {
    let registry = search_registry(json(r##"{"values": [{"id": "a"}, {"id": "b"}]}"##));
    let (pipeline, _) = pipeline(vec![], registry, 1);
    let gate = ScriptedGate::new(vec![]);
    let plan: Plan = from_value(json(r##"[{"id": "E0", "toolName": "t__search", "input": {"query": "x"}}, {"id": "E1", "toolName": "reduce", "input": {"over": "{{E0.values}}", "initial": 0, "do": [{"id": "E10", "toolName": "t__issues", "input": {"q": "{{item.id}}"}}, {"id": "E11", "toolName": "t__issues", "input": {"prior": "{{E10.got.q}}"}}]}}]"##))
    .unwrap();
    pipeline
        .with_gate(gate.clone())
        .run_explicit("q", plan, Finish::Silent, None)
        .unwrap();
    let scopes = gate.scopes.lock().unwrap();
    // Consult order: E0, then per item: E1/do.N/E10, E1/do.N/E11.
    let first_body = &scopes[1];
    assert_eq!(first_body.get("item"), Some(&json(r##"{"id": "a"}"##)));
    assert_eq!(first_body.get("index"), Some(&json(r##"0"##)));
    assert_eq!(first_body.get("accumulator"), Some(&json(r##"0"##)));
    assert!(first_body.contains_key("E0"), "base results are layered in");
    let second_body_step = &scopes[2];
    assert_eq!(
        second_body_step.get("E10"),
        Some(&json(r##"{"got": {"q": "a"}}"##)),
        "earlier same-body step results are in scope"
    );
}

#[test]
fn gate_scope_inside_nested_plan_is_the_nested_results() {
    let inner = plan_doc_yaml(
        r#"
identifier: inner
name: Inner
description: inner plan
input_schema:
  type: object
  properties:
    tag: { type: string }
steps:
  - id: E0
    tool_name: t__search
    input: { query: "{{input.tag}}" }
"#,
    );
    let registry = search_registry(json(r##"{"values": []}"##));
    let (mut pipeline, _) = pipeline(vec![], registry, 1);
    pipeline.plans = Arc::new(vec![inner]);
    let gate = ScriptedGate::new(vec![]);
    let plan: Plan = from_value(json(r##"[{"id": "E0", "toolName": "plan__inner", "input": {"tag": "x"}}]"##))
    .unwrap();
    pipeline
        .with_gate(gate.clone())
        .run_explicit("q", plan, Finish::Silent, None)
        .unwrap();
    let seen = gate.seen.lock().unwrap();
    let scopes = gate.scopes.lock().unwrap();
    assert_eq!(seen[1].0, vec!["inner".to_string()]);
    assert_eq!(
        scopes[1].get("input"),
        Some(&json(r##"{"tag": "x"}"##)),
        "nested consult sees the nested plan's own input, not the outer results"
    );
}

#[test]
fn on_tool_error_default_fail_preserves_behavior() {
    let registry = Arc::new(MockRegistry {
        search_result: json(r##"{}"##),
        invocations: Mutex::new(Vec::new()),
        fail_tools: vec!["t__search".to_string()],
    });
    let (pipeline, _) = pipeline(vec![], registry, 1);
    // ScriptedGate implements only before_tool — default on_tool_error.
    let gate = ScriptedGate::new(vec![]);
    let plan: Plan = from_value(json(r##"[{"id": "E0", "toolName": "t__search", "input": {"query": "x"}}]"##))
    .unwrap();
    let err = pipeline
        .with_gate(gate)
        .run_explicit("q", plan, Finish::Silent, None)
        .unwrap_err();
    let PipelineError::StepFailed { step, message, .. } = err else {
        panic!("expected StepFailed");
    };
    assert_eq!(step, "E0");
    assert!(message.contains("boom"), "{message}");
}

#[test]
fn on_tool_error_replace_substitutes_and_continues() {
    let registry = Arc::new(MockRegistry {
        search_result: json(r##"{}"##),
        invocations: Mutex::new(Vec::new()),
        fail_tools: vec!["t__search".to_string()],
    });
    let (mut pipeline, _) = pipeline(vec![], registry.clone(), 1);
    let sink = Arc::new(RecordingSink::default());
    pipeline.events = sink.clone();
    let replacement = json(r##"{"values": [{"id": "patched"}]}"##);
    let gate = ErrorGate::new(vec![ErrorDecision::Replace {
        result: data(&replacement),
    }]);
    let plan: Plan = from_value(json(r##"[{"id": "E0", "toolName": "t__search", "input": {"query": "x"}}, {"id": "E1", "toolName": "t__issues", "input": {"q": "{{E0.values.0.id}}"}}]"##))
    .unwrap();
    let outcome = pipeline
        .with_gate(gate.clone())
        .run_explicit("q", plan, Finish::Silent, None)
        .unwrap();
    assert_eq!(outcome.state.results["E0"], replacement);
    let invocations = registry.invocations.lock().unwrap();
    assert_eq!(
        invocations[1].1,
        json(r##"{"q": "patched"}"##),
        "downstream template consumed the replacement"
    );
    // A gate saw the real error.
    let errors = gate.errors_seen.lock().unwrap();
    assert_eq!(errors[0].0, "E0");
    assert!(errors[0].1.to_string().contains("boom"));
    // Event order: step_finished carries the resolution, not the failure.
    let finished = sink.finished.lock().unwrap();
    let e0 = finished.iter().find(|(p, ..)| p == "E0").unwrap();
    assert_eq!(e0.2, replacement);
    assert!(!e0.3, "resolved step is not an error");
}

#[test]
fn on_tool_error_abort_is_hard() {
    let registry = Arc::new(MockRegistry {
        search_result: json(r##"{}"##),
        invocations: Mutex::new(Vec::new()),
        fail_tools: vec!["t__search".to_string()],
    });
    let (pipeline, provider) = pipeline(
        vec![
            structured(two_step_plan("E0.values.0.id")),
            structured(two_step_plan("E0.values.0.id")),
        ],
        registry,
        2,
    );
    let gate = ErrorGate::new(vec![ErrorDecision::Abort]);
    let err = pipeline
        .with_gate(gate)
        .run_planned("sprint status")
        .unwrap_err();
    let PipelineError::Aborted { step, error, .. } = err else {
        panic!("expected Aborted");
    };
    assert_eq!(step, "E0");
    assert_eq!(
        error.as_ref().map(plain),
        Some(json(r##"{"error": "boom"}"##)),
        "a tool-error abort carries the failing tool's error so the caller can troubleshoot"
    );
    assert_eq!(
        provider.requests.lock().unwrap().len(),
        1,
        "no replan, no error summary"
    );
}

#[test]
fn on_tool_error_replace_in_planned_mode_skips_replan() {
    let registry = Arc::new(MockRegistry {
        search_result: json(r##"{}"##),
        invocations: Mutex::new(Vec::new()),
        fail_tools: vec!["t__search".to_string()],
    });
    let (pipeline, provider) = pipeline(
        vec![structured(two_step_plan("E0.values.0.id")), text("done")],
        registry,
        3,
    );
    let gate = ErrorGate::new(vec![ErrorDecision::Replace {
        result: data(&json(r##"{"values": [{"id": "patched"}]}"##)),
    }]);
    let outcome = pipeline
        .with_gate(gate)
        .run_planned("sprint status")
        .unwrap();
    assert_eq!(outcome.answer, "done");
    assert_eq!(outcome.state.plan_attempts, 1, "no replan happened");
    assert_eq!(
        provider.requests.lock().unwrap().len(),
        2,
        "planner + solver only"
    );
}

#[test]
fn on_tool_error_fires_inside_map_body_but_not_for_nested_aborts() {
    // Inside a map body: the error consult fires with the body path.
    let registry = Arc::new(MockRegistry {
        search_result: json(r##"{"values": [{"id": "a"}]}"##),
        invocations: Mutex::new(Vec::new()),
        fail_tools: vec!["t__issues".to_string()],
    });
    let (pipeline, _) = pipeline(vec![], registry, 1);
    let gate = ErrorGate::new(vec![ErrorDecision::Replace {
        result: data(&json(r##""ok""##)),
    }]);
    let plan: Plan = from_value(json(r##"[{"id": "E0", "toolName": "t__search", "input": {"query": "x"}}, {"id": "E1", "toolName": "map", "input": {"over": "{{E0.values}}", "do": {"toolName": "t__issues", "input": {"q": "{{item.id}}"}}}}]"##))
    .unwrap();
    let outcome = pipeline
        .with_gate(gate.clone())
        .run_explicit("q", plan, Finish::Silent, None)
        .unwrap();
    assert_eq!(outcome.state.results["E1"]["results"][0], json(r##""ok""##));
    assert_eq!(gate.errors_seen.lock().unwrap()[0].0, "E1/do.0");

    // A nested-plan ABORT must not be re-asked as an error.
    let inner = plan_doc_yaml(
        r#"
identifier: inner
name: Inner
description: inner plan
steps:
  - id: E0
    tool_name: t__search
    input: { query: inner }
"#,
    );
    let registry = search_registry(json(r##"{"values": []}"##));
    let (mut nested_pipeline, _) = crate::pipeline(vec![], registry, 1);
    nested_pipeline.plans = Arc::new(vec![inner]);
    // Abort the inner call at its before_tool; outer must propagate the
    // abort without consulting on_tool_error.
    let gate = Arc::new(AbortInnerGate {
        error_consults: Mutex::new(0),
    });
    let plan: Plan = from_value(json(r##"[{"id": "E0", "toolName": "plan__inner", "input": {}}]"##))
    .unwrap();
    let err = nested_pipeline
        .with_gate(gate.clone())
        .run_explicit("q", plan, Finish::Silent, None)
        .unwrap_err();
    assert!(matches!(err, PipelineError::Aborted { .. }));
    assert_eq!(
        *gate.error_consults.lock().unwrap(),
        0,
        "nested aborts are never re-asked as errors"
    );
}

// ── Plan drafting ────────────────────────────────────────────────────────

fn outline_response() -> ChatResponse {
    structured(json(r##"{"items": [{"summary": "find the team", "expectedTool": "t__search"}, {"summary": "fetch its issues", "expectedTool": "t__issues"}], "queryToAnswer": "how is the sprint going"}"##))
}

fn step_draft(step: Value, plan_complete: bool) -> ChatResponse {
    structured(fill(r##"{"step": "@@0", "planComplete": "@@1"}"##, &[value(&(step)), value(&(plan_complete))]))
}

fn search_step(id: &str) -> Value {
    fill(r##"{"id": "@@0", "toolName": "t__search", "input": {"query": "platform"}}"##, &[value(&(id))])
}

fn issues_step(id: &str, reference: &str) -> Value {
    fill(r##"{"id": "@@0", "toolName": "t__issues", "input": {"teamId": "@@1"}}"##, &[value(&(id)), value(&(format!("{{{{{reference}}}}}")))])
}

fn assistant_turns(request: &ChatRequest) -> Vec<String> {
    request
        .messages
        .iter()
        .filter_map(|message| match message {
            ChatMessage::Assistant {
                content: Some(content),
                ..
            } => Some(content.clone()),
            _ => None,
        })
        .collect()
}

#[test]
fn draft_generates_outline_then_steps() {
    let registry = search_registry(json(r##"{"values": []}"##));
    let (pipeline, provider) = pipeline(
        vec![
            outline_response(),
            step_draft(search_step("E0"), false),
            step_draft(issues_step("E1", "E0.values.0.id"), true),
        ],
        registry.clone(),
        1,
    );
    let output = pipeline.draft_plan("sprint status", None).unwrap();

    let ids: Vec<&str> = output.plan.iter().map(|s| s.id.as_str()).collect();
    assert_eq!(ids, ["E0", "E1"]);
    assert_eq!(
        output.solver_data.query_to_answer,
        "how is the sprint going"
    );
    assert!(
        output.solver_data.data.len() > 0,
        "default solver data filled from the plan"
    );
    assert!(
        registry.invocations.lock().unwrap().is_empty(),
        "drafting must not execute"
    );

    let requests = provider.requests.lock().unwrap();
    assert_eq!(requests.len(), 3, "outline + one call per step");
    // The prompt-cache invariant: one byte-identical system prompt.
    assert!(
        requests.iter().all(|r| r.system == requests[0].system),
        "every call must reuse the identical system prompt"
    );
    // The last step call sees the outline and the accepted E0 as
    // Assistant turns in the scratchpad.
    let assistants = assistant_turns(&requests[2]);
    assert_eq!(assistants.len(), 2, "outline + accepted E0");
    assert!(assistants[0].contains("find the team"), "{assistants:?}");
    assert!(assistants[1].contains("t__search"), "{assistants:?}");
}

#[test]
fn draft_retries_invalid_step_with_errors_injected() {
    let registry = search_registry(json(r##"{"values": []}"##));
    let (pipeline, provider) = pipeline(
        vec![
            outline_response(),
            step_draft(search_step("E0"), false),
            step_draft(issues_step("E1", "E9.values"), false), // E9 does not exist
            step_draft(issues_step("E1", "E0.values.0.id"), false),
            step_draft(search_step("E2"), true),
        ],
        registry,
        1,
    );
    let output = pipeline.draft_plan("sprint status", None).unwrap();
    let ids: Vec<&str> = output.plan.iter().map(|s| s.id.as_str()).collect();
    assert_eq!(ids, ["E0", "E1", "E2"]);

    let requests = provider.requests.lock().unwrap();
    assert_eq!(requests.len(), 5, "one retry for the invalid step");
    // The retry request carries the invalid attempt and the problem text.
    let retry = &requests[3];
    let assistants = assistant_turns(retry);
    assert!(
        assistants.iter().any(|turn| turn.contains("E9")),
        "the invalid StepDraft is in the retry tail: {assistants:?}"
    );
    let users: Vec<String> = retry
        .messages
        .iter()
        .filter_map(|message| match message {
            ChatMessage::User { content } => Some(content.clone()),
            _ => None,
        })
        .collect();
    assert!(
        users
            .iter()
            .any(|turn| turn.contains("The step is invalid") && turn.contains("E9")),
        "the validation problem is injected as feedback: {users:?}"
    );
    // After acceptance the failed attempt is dropped from persistent
    // history: the next step call must not carry it.
    let after = assistant_turns(&requests[4]);
    assert!(
        after.iter().all(|turn| !turn.contains("E9")),
        "the retry tail must be discarded on acceptance: {after:?}"
    );
}

#[test]
fn draft_exhausted_retries_returns_valid_partial() {
    let registry = search_registry(json(r##"{"values": []}"##));
    let (pipeline, _) = pipeline(
        vec![
            outline_response(),
            step_draft(search_step("E0"), false),
            step_draft(issues_step("E1", "E9.values"), false),
            step_draft(issues_step("E1", "E8.values"), false),
            step_draft(issues_step("E1", "E7.values"), false),
        ],
        registry,
        1,
    );
    let err = pipeline
        .draft_plan("sprint status", None)
        .unwrap_err();
    let PipelineError::DraftStepExhausted {
        step_id,
        attempts,
        problems,
        partial,
    } = err
    else {
        panic!("expected DraftStepExhausted");
    };
    assert_eq!(step_id, "E1");
    assert_eq!(attempts, 3);
    assert!(problems.iter().any(|p| p.contains("E7")), "{problems:?}");
    let ids: Vec<&str> = partial.plan.iter().map(|s| s.id.as_str()).collect();
    assert_eq!(ids, ["E0"], "the valid prefix is carried out");
    assert_eq!(
        partial.solver_data.query_to_answer,
        "how is the sprint going"
    );
}

#[test]
fn drafting_into_an_existing_plan_carries_it_in_the_system_prompt() {
    let registry = search_registry(json(r##"{"values": []}"##));
    let (pipeline, provider) = pipeline(
        vec![outline_response(), step_draft(search_step("E0"), true)],
        registry,
        1,
    );
    let existing: PlannerOutput = from_value(two_step_plan("E0.values.0.id")).unwrap();
    pipeline
        .draft_plan("also fetch comments", Some(&existing))
        .unwrap();
    let requests = provider.requests.lock().unwrap();
    let system = &requests[0].system;
    assert!(system.contains("Draft Under Revision"), "revision section");
    assert!(system.contains("t__search"), "serialized draft in prompt");
    // There is no caller-supplied feedback slot: steering the planner at a
    // plan it will wholly replace is what the editing commands are for.
    assert!(
        !system.contains("Last Error"),
        "the drafting prompt has no last-error slot: {system}"
    );
    // Constant across the session: the step call sees the same system.
    assert_eq!(requests[0].system, requests[1].system);
}

#[test]
fn draft_accepts_done_early_without_a_step() {
    // One accepted step, then step: null + planComplete → a 1-step plan.
    let registry = search_registry(json(r##"{"values": []}"##));
    let (pipeline, provider) = pipeline(
        vec![
            outline_response(),
            step_draft(search_step("E0"), false),
            structured(json(r##"{"step": null, "planComplete": true}"##)),
        ],
        registry.clone(),
        1,
    );
    let output = pipeline.draft_plan("sprint status", None).unwrap();
    assert_eq!(output.plan.len(), 1);
    assert_eq!(output.plan[0].id, "E0");
    assert_eq!(provider.requests.lock().unwrap().len(), 3);

    // step: null on an EMPTY plan is a defect: retried, never accepted.
    let (empty_pipeline, provider) = crate::pipeline(
        vec![
            outline_response(),
            structured(json(r##"{"step": null, "planComplete": true}"##)),
            step_draft(search_step("E0"), true),
        ],
        registry,
        1,
    );
    let output = empty_pipeline
        .draft_plan("sprint status", None)
        .unwrap();
    assert_eq!(output.plan.len(), 1, "the retry produced the real step");
    assert_eq!(
        provider.requests.lock().unwrap().len(),
        3,
        "outline + rejected null + retry"
    );
}

#[test]
fn draft_emits_progress_events() {
    let registry = search_registry(json(r##"{"values": []}"##));
    let (mut pipeline, _) = pipeline(
        vec![
            outline_response(),
            step_draft(search_step("E0"), false),
            step_draft(issues_step("E1", "E9.values"), false), // invalid → retry
            step_draft(issues_step("E1", "E0.values.0.id"), true),
        ],
        registry,
        1,
    );
    let sink = Arc::new(RecordingSink::default());
    pipeline.events = sink.clone();
    pipeline.draft_plan("sprint status", None).unwrap();

    let events = sink.drafting.lock().unwrap();
    let names: Vec<&str> = events.iter().map(|(name, _)| name.as_str()).collect();
    assert_eq!(
        names,
        vec![
            "planning",
            "draft_outline",
            "draft_step_started",
            "draft_step_finished", // E0 accepted
            "draft_step_started",
            "draft_step_finished", // E1 attempt 1 failed
            "draft_step_finished", // E1 attempt 2 accepted
        ]
    );
    assert_eq!(events[1].1.as_array().unwrap().len(), 2, "outline items");
    // The failed attempt carries non-empty problems and its attempt number.
    let failed = &events[5].1;
    assert!(!failed["problems"].as_array().unwrap().is_empty());
    assert_eq!(failed["attempt"], json(r##"1"##));
    // The accepted retry has empty problems and attempt 2.
    let accepted = &events[6].1;
    assert!(accepted["problems"].as_array().unwrap().is_empty());
    assert_eq!(accepted["attempt"], json(r##"2"##));
    assert_eq!(accepted["step"]["id"], json(r##""E1""##));
}

#[test]
fn draft_force_completes_when_outline_is_covered_and_planner_never_signals_done() {
    // A 2-stage outline, then valid steps that NEVER set planComplete. The
    // loop must cover the outline, allow MAX_OVERFLOW_STEPS extra, then
    // force-close — not grind to the step budget or error.
    let registry = search_registry(json(r##"{"values": []}"##));
    let (pipeline, provider) = pipeline(
        vec![
            outline_response(),
            step_draft(search_step("E0"), false), // stage 1
            step_draft(search_step("E1"), false), // stage 2
            step_draft(search_step("E2"), false), // overflow 1 (closing)
            step_draft(search_step("E3"), false), // overflow 2 (closing)
                                                  // No more responses: the loop must force-close before asking again.
        ],
        registry.clone(),
        1,
    );
    let output = pipeline.draft_plan("sprint status", None).unwrap();

    // 2 stages + MAX_OVERFLOW_STEPS (2) = 4 accepted steps, no more.
    assert!(
        output.plan.len() <= 4,
        "force-close caps the plan at outline + overflow: {}",
        output.plan.len()
    );
    assert_eq!(
        output.plan.len(),
        4,
        "all four scripted steps are accepted before force-close"
    );
    assert!(
        output.solver_data.data.len() > 0,
        "solver data is assembled from the drafted plan"
    );
    assert!(
        registry.invocations.lock().unwrap().is_empty(),
        "drafting must not execute"
    );

    let requests = provider.requests.lock().unwrap();
    // outline + 4 steps = 5; well under the old max_draft_steps (8) + 1 budget.
    assert_eq!(requests.len(), 5, "outline + four steps, then force-close");
    assert!(
        requests.len() < 9,
        "must not grind toward the step budget: {}",
        requests.len()
    );
    // The overflow (closing) calls use the closing wording, not a stale stage.
    let closing_users: Vec<String> = requests[3]
        .messages
        .iter()
        .chain(requests[4].messages.iter())
        .filter_map(|message| match message {
            ChatMessage::User { content } => Some(content.clone()),
            _ => None,
        })
        .collect();
    assert!(
        closing_users
            .iter()
            .any(|turn| turn.contains("Every outline stage now has a step")),
        "closing requests use closing_step_request wording: {closing_users:?}"
    );
}

#[test]
fn draft_rejects_an_empty_outline() {
    let registry = search_registry(json(r##"{"values": []}"##));
    let (pipeline, _) = pipeline(
        vec![structured(json(r##"{"items": [], "queryToAnswer": "q"}"##))],
        registry,
        1,
    );
    let err = pipeline
        .draft_plan("sprint status", None)
        .unwrap_err();
    assert!(matches!(err, PipelineError::InvalidPlan(_)));
    assert!(err.message().contains("outline has no items"));
}

fn agent_step(id: &str, input: Value) -> Value {
    fill(r##"{"id": "@@0", "toolName": "agent", "input": "@@1"}"##, &[value(&(id)), value(&(input))])
}

const OUT_SCHEMA: fn() -> Value = || {
    json(r##"{"type": "object", "required": ["found"], "properties": {"found": {"type": "integer"}}}"##)
};

#[test]
fn agent_calls_a_tool_then_returns_structured_output() {
    let registry = search_registry(json(r##"{"values": [{"id": "team-1"}]}"##));
    let (pipeline, _) = pipeline(
        vec![
            tool_use("c1", "t__search", json(r##"{"query": "x"}"##)),
            text(r#"{"found": 1}"#),
        ],
        registry.clone(),
        1,
    );

    let plan: Plan = from_value(fill(r##"["@@0"]"##, &[value(&(agent_step(
        "E0",
        fill(r##"{"prompt": "find things", "outputSchema": "@@0", "tools": ["t__*"]}"##, &[value(&(OUT_SCHEMA()))])
    )))]))
    .unwrap();

    let outcome = pipeline
        .run_explicit("q", plan, Finish::Silent, None)
        .unwrap();

    let result = &outcome.state.results["E0"];
    assert_eq!(result["output"], json(r##"{"found": 1}"##));
    assert_eq!(result["final"], json(r##"true"##));
    assert_eq!(result["iterations"], json(r##"2"##));
    assert_eq!(result["tools_called"][0]["tool"], "t__search");

    // The tool really ran, through the registry.
    assert_eq!(registry.invocations.lock().unwrap()[0].0, "t__search");
}

/// The agent is told "conform to the output schema provided" — so the schema
/// has to actually be provided. It can reach the model two ways: natively via
/// `response_schema`, or as text the model can read. If neither happens the
/// model is guessing field names, every guess fails validation, and each
/// failure burns a round — which is what an agent that always exhausts its
/// budget looks like from the outside.
#[test]
fn the_final_round_withdraws_tools_and_forces_the_schema() {
    let registry = search_registry(json(r##"{"values": []}"##));
    // Budget of 2: round 1 calls a tool, round 2 is the forced answer round.
    let (pipeline, provider) = pipeline(
        vec![
            tool_use("c1", "t__search", json(r##"{"query": "x"}"##)),
            text(r#"{"found": 0}"#),
        ],
        registry,
        1,
    );

    let plan: Plan = from_value(fill(r##"["@@0"]"##, &[value(&(agent_step(
        "E0",
        fill(r##"{"prompt": "look", "outputSchema": "@@0", "tools": ["t__*"], "maxIterations": 2}"##, &[value(&(OUT_SCHEMA()))])
    )))]))
    .unwrap();

    pipeline
        .run_explicit("q", plan, Finish::Silent, None)
        .unwrap();

    let requests = provider.requests.lock().unwrap();
    assert_eq!(requests.len(), 2);
    assert!(
        !requests[0].tools.is_empty(),
        "ordinary rounds keep their tools"
    );
    assert!(requests[0].response_schema.is_none());

    // The answer round: no tools to reach for, and the provider is told to
    // force the shape rather than hope for it.
    assert!(
        requests[1].tools.is_empty(),
        "the final round must withdraw tools — a forced schema makes them \
         unreachable anyway"
    );
    let forced = requests[1]
        .response_schema
        .as_ref()
        .expect("final round forces the output schema");
    assert_eq!(plain(forced), OUT_SCHEMA());
    // And the model is told, not just silently constrained.
    assert!(requests[1].messages.iter().any(|m| matches!(
        m, ChatMessage::User { content } if content.contains("final turn")
    )));

    // The budget is never named in the system prompt: a number reads as an
    // allowance to spend, and competes with what the plan's own prompt says
    // about how much ground to cover. The final-turn notice is the backstop.
    assert!(
        !requests[0].system.contains("2 round") && !requests[0].system.contains("budget"),
        "the system prompt must not state a round budget:\n{}",
        requests[0].system
    );
}

#[test]
fn a_forced_final_answer_comes_back_final_and_usable() {
    // What the provider returns when the schema is forced: the object arrives
    // in `structured`, already validated, with no text to parse.
    let registry = search_registry(json(r##"{"values": []}"##));
    let forced = structured(json(r##"{"found": 7}"##));
    let (pipeline, _) = pipeline(
        vec![tool_use("c1", "t__search", json(r##"{"query": "x"}"##)), forced],
        registry,
        1,
    );

    let plan: Plan = from_value(fill(r##"["@@0"]"##, &[value(&(agent_step(
        "E0",
        fill(r##"{"prompt": "look", "outputSchema": "@@0", "tools": ["t__*"], "maxIterations": 2}"##, &[value(&(OUT_SCHEMA()))])
    )))]))
    .unwrap();

    let outcome = pipeline
        .run_explicit("q", plan, Finish::Silent, None)
        .unwrap();

    let result = &outcome.state.results["E0"];
    // Previously this shape — budget spent, tools still wanted — returned
    // final:false with an empty object, and every downstream step that
    // touched `output` failed as a bad path.
    assert_eq!(result["final"], json(r##"true"##));
    assert_eq!(result["output"], json(r##"{"found": 7}"##));
    assert_eq!(result["iterations"], json(r##"2"##));
}

#[test]
fn the_agent_shows_the_model_its_output_schema() {
    let registry = search_registry(json(r##"{"values": []}"##));
    let (pipeline, provider) = pipeline(vec![text(r#"{"grobnicate": 1}"#)], registry, 1);

    let plan: Plan = from_value(fill(r##"["@@0"]"##, &[value(&(agent_step(
        "E0",
        json(r##"{"prompt": "do the thing", "outputSchema": {"type": "object", "required": ["grobnicate"], "properties": {"grobnicate": {"type": "integer"}}}}"##)
    )))]))
    .unwrap();

    let _ = pipeline.run_explicit("q", plan, Finish::Silent, None);

    let requests = provider.requests.lock().unwrap();
    let first = requests.first().expect("the agent made a call");
    let sent_as_text = first.system.contains("grobnicate")
        || first.messages.iter().any(|m| {
            matches!(m, ChatMessage::User { content }
                     if content.contains("grobnicate"))
        });
    let sent_natively = first
        .response_schema
        .as_ref()
        .is_some_and(|s| plain(s).to_string().contains("grobnicate"));

    assert!(
        sent_as_text || sent_natively,
        "the agent never showed the model its output schema — it was asked to \
         match a shape it cannot see.\n  system: {}\n  response_schema: {:?}",
        first.system,
        first.response_schema.as_ref(),
    );
}

#[test]
fn agent_prompt_renders_against_prior_step_results() {
    let registry = search_registry(json(r##"{"values": [{"id": "team-7"}]}"##));
    let (pipeline, provider) = pipeline(vec![text(r#"{"found": 0}"#)], registry.clone(), 1);

    let plan: Plan = from_value(fill(r##"[{"id": "E0", "toolName": "t__search", "input": {"query": "x"}}, "@@0"]"##, &[value(&(agent_step(
            "E1",
            fill(r##"{"prompt": "team is {{E0.values.0.id}}", "outputSchema": "@@0"}"##, &[value(&(OUT_SCHEMA()))])
        )))]))
    .unwrap();

    pipeline
        .run_explicit("q", plan, Finish::Silent, None)
        .unwrap();

    let requests = provider.requests.lock().unwrap();
    assert!(
        requests[0].messages.iter().any(|m| matches!(
            m, ChatMessage::User { content } if content.contains("team-7")
        )),
        "prompt must render against prior results"
    );
}

#[test]
fn agent_tool_error_returns_into_the_loop_instead_of_failing_the_step() {
    let registry = Arc::new(MockRegistry {
        search_result: json(r##"{}"##),
        invocations: Mutex::new(Vec::new()),
        fail_tools: vec!["t__search".to_string()],
    });
    let (pipeline, provider) = pipeline(
        vec![
            tool_use("c1", "t__search", json(r##"{"query": "x"}"##)),
            text(r#"{"found": 0}"#),
        ],
        registry.clone(),
        1,
    );

    let plan: Plan = from_value(fill(r##"["@@0"]"##, &[value(&(agent_step(
        "E0",
        fill(r##"{"prompt": "p", "outputSchema": "@@0"}"##, &[value(&(OUT_SCHEMA()))])
    )))]))
    .unwrap();

    let outcome = pipeline
        .run_explicit("q", plan, Finish::Silent, None)
        .unwrap();

    // Step succeeded despite the tool failing...
    assert_eq!(outcome.state.results["E0"]["final"], json(r##"true"##));
    // ...and the agent was told about the failure.
    let requests = provider.requests.lock().unwrap();
    let saw_error = requests[1].messages.iter().any(|m| {
        matches!(
            m,
            ChatMessage::ToolResult { is_error: true, .. }
        )
    });
    assert!(saw_error, "tool error must flow back into the loop");
}

#[test]
fn agent_exhausting_iterations_reports_not_final() {
    let registry = search_registry(json(r##"{}"##));
    let (pipeline, _) = pipeline(
        vec![
            tool_use("c1", "t__search", json(r##"{}"##)),
            tool_use("c2", "t__search", json(r##"{}"##)),
        ],
        registry.clone(),
        1,
    );

    let plan: Plan = from_value(fill(r##"["@@0"]"##, &[value(&(agent_step(
        "E0",
        fill(r##"{"prompt": "p", "outputSchema": "@@0", "maxIterations": 2}"##, &[value(&(OUT_SCHEMA()))])
    )))]))
    .unwrap();

    let outcome = pipeline
        .run_explicit("q", plan, Finish::Silent, None)
        .unwrap();

    let result = &outcome.state.results["E0"];
    assert_eq!(result["final"], json(r##"false"##));
    // Exactly the budget - not budget+1.
    assert_eq!(result["iterations"], json(r##"2"##));
    assert_eq!(result["tools_called"].as_array().unwrap().len(), 2);
}

#[test]
fn agent_pattern_matching_no_tool_fails_the_step() {
    let registry = search_registry(json(r##"{}"##));
    let (pipeline, _) = pipeline(vec![], registry.clone(), 1);

    let plan: Plan = from_value(fill(r##"["@@0"]"##, &[value(&(agent_step(
        "E0",
        fill(r##"{"prompt": "p", "outputSchema": "@@0", "tools": ["ghost__*"]}"##, &[value(&(OUT_SCHEMA()))])
    )))]))
    .unwrap();

    let err = pipeline
        .run_explicit("q", plan, Finish::Silent, None)
        .unwrap_err();
    let text = format!("{err:?}");
    assert!(text.contains("ghost__*"), "{text}");
}

#[test]
fn agent_never_offers_plan_and_execute_to_the_model() {
    let registry = search_registry(json(r##"{}"##));
    let (pipeline, provider) = pipeline(vec![text(r#"{"found": 0}"#)], registry.clone(), 1);

    let plan: Plan = from_value(fill(r##"["@@0"]"##, &[value(&(agent_step(
        "E0",
        fill(r##"{"prompt": "p", "outputSchema": "@@0"}"##, &[value(&(OUT_SCHEMA()))])
    )))]))
    .unwrap();

    pipeline
        .run_explicit("q", plan, Finish::Silent, None)
        .unwrap();

    let requests = provider.requests.lock().unwrap();
    assert!(
        !requests[0]
            .tools
            .iter()
            .any(|t| t.name == "plan_and_execute"),
        "plan_and_execute must never be offered inside an agent"
    );
    assert!(requests[0].tools.iter().any(|t| t.name == "t__search"));
}

#[test]
fn agent_runs_inside_a_map_body_with_item_scope() {
    let registry = search_registry(json(r##"{"values": [{"id": "a"}, {"id": "b"}]}"##));
    let (pipeline, provider) = pipeline(
        vec![text(r#"{"found": 1}"#), text(r#"{"found": 2}"#)],
        registry.clone(),
        1,
    );

    let plan: Plan = from_value(fill(r##"[{"id": "E0", "toolName": "t__search", "input": {}}, {"id": "E1", "toolName": "map", "input": {"over": "{{E0.values}}", "do": {"toolName": "agent", "input": {"prompt": "handle {{item.id}}", "outputSchema": "@@0"}}}}]"##, &[value(&(OUT_SCHEMA()))]))
    .unwrap();

    let outcome = pipeline
        .run_explicit("q", plan, Finish::Silent, None)
        .unwrap();

    let results = &outcome.state.results["E1"]["results"];
    assert_eq!(results[0]["output"], json(r##"{"found": 1}"##));
    assert_eq!(results[1]["output"], json(r##"{"found": 2}"##));

    // {{item}} really reached the agent prompt.
    let requests = provider.requests.lock().unwrap();
    let prompts: Vec<String> = requests
        .iter()
        .flat_map(|r| r.messages.iter())
        .filter_map(|m| match m {
            ChatMessage::User { content } => Some(content.clone()),
            _ => None,
        })
        .collect();
    assert!(
        prompts.iter().any(|p| p.contains("handle a")),
        "{prompts:?}"
    );
    assert!(
        prompts.iter().any(|p| p.contains("handle b")),
        "{prompts:?}"
    );
}

#[test]
fn agent_can_call_a_plan_tool_because_inner_calls_go_through_dispatch() {
    let inner = plan_doc_yaml(
        r#"
identifier: inner
name: Inner
description: fetch and shape
steps:
  - id: E0
    tool_name: t__search
    input: { query: "{{input.q}}" }
output:
  found: "{{E0.values}}"
"#,
    );

    let registry = search_registry(json(r##"{"values": [{"id": "team-9"}]}"##));
    let (mut pipeline, provider) = pipeline(
        vec![
            tool_use("c1", "plan__inner", json(r##"{"q": "x"}"##)),
            text(r#"{"found": 1}"#),
        ],
        registry.clone(),
        1,
    );
    pipeline.plans = Arc::new(vec![inner]);

    let plan: Plan = from_value(fill(r##"["@@0"]"##, &[value(&(agent_step(
        "E0",
        fill(r##"{"prompt": "p", "outputSchema": "@@0", "tools": ["plan__*"]}"##, &[value(&(OUT_SCHEMA()))])
    )))]))
    .unwrap();

    let outcome = pipeline
        .run_explicit("q", plan, Finish::Silent, None)
        .unwrap();

    assert_eq!(outcome.state.results["E0"]["final"], json(r##"true"##));

    // The sub-plan really executed: its step hit the registry...
    assert_eq!(registry.invocations.lock().unwrap()[0].0, "t__search");
    // ...and its rendered output came back to the agent as a tool result,
    // rather than an "unknown tool" error from the registry.
    let requests = provider.requests.lock().unwrap();
    let saw_plan_output = requests[1].messages.iter().any(|m| {
        matches!(
            m,
            ChatMessage::ToolResult { content, is_error: false, .. }
                if plain(content).to_string().contains("team-9")
        )
    });
    assert!(
        saw_plan_output,
        "plan__* result must flow back into the agent loop"
    );

    // plan__* is advertised to the model.
    assert!(requests[0].tools.iter().any(|t| t.name == "plan__inner"));
}

#[test]
fn agent_writes_one_bus_summary_like_its_peer_control_steps() {
    let registry = search_registry(json(r##"{"values": []}"##));
    let (pipeline, _) = pipeline(
        vec![
            tool_use("c1", "t__search", json(r##"{}"##)),
            text(r#"{"found": 0}"#),
        ],
        registry.clone(),
        1,
    );

    let plan: Plan = from_value(fill(r##"["@@0"]"##, &[value(&(agent_step(
        "E0",
        fill(r##"{"prompt": "p", "outputSchema": "@@0"}"##, &[value(&(OUT_SCHEMA()))])
    )))]))
    .unwrap();

    let outcome = pipeline
        .run_explicit("q", plan, Finish::Silent, None)
        .unwrap();

    let entries: Vec<&BusEntry> = outcome
        .state
        .bus
        .iter()
        .filter(|e| e.source == "E0")
        .collect();
    assert_eq!(
        entries.len(),
        1,
        "one summary line, not one per round: {entries:?}"
    );
    assert_eq!(entries[0].kind, BusKind::Info);
    assert!(
        entries[0].content.contains("agent: 2 round(s)"),
        "{}",
        entries[0].content
    );
    assert!(
        entries[0].content.contains("1 tool call"),
        "{}",
        entries[0].content
    );
}

#[test]
fn an_agent_failure_reaches_the_bus_as_a_replan_eligible_error() {
    let registry = search_registry(json(r##"{}"##));
    let (pipeline, _) = pipeline(vec![], registry.clone(), 1);

    let plan: Plan = from_value(fill(r##"["@@0"]"##, &[value(&(agent_step(
        "E0",
        fill(r##"{"prompt": "p", "outputSchema": "@@0", "tools": ["ghost__*"]}"##, &[value(&(OUT_SCHEMA()))])
    )))]))
    .unwrap();

    // run_explicit surfaces the failure directly; run_planned is what
    // consults the bus, so assert the classification the bus would carry.
    let err = pipeline
        .run_explicit("q", plan, Finish::Silent, None)
        .unwrap_err();
    match err {
        PipelineError::StepFailed { tool, .. } => assert_eq!(tool, "agent"),
        other => panic!("expected StepFailed, got {other:?}"),
    }
}

/// Inner calls are dispatched at body depth, so their path has to carry the
/// item that made them. Collapsing onto `E1/agent.N/tool` would make every
/// item of a concurrent map indistinguishable in gates and event streams.
#[test]
fn agent_inner_call_paths_keep_the_body_location() {
    let registry = search_registry(json(r##"{"values": [{"id": "a"}, {"id": "b"}]}"##));
    let (pipeline, _) = pipeline(
        vec![
            tool_use("c1", "t__search", json(r##"{}"##)),
            text(r#"{"found": 1}"#),
            tool_use("c2", "t__search", json(r##"{}"##)),
            text(r#"{"found": 2}"#),
        ],
        registry.clone(),
        1,
    );

    let plan: Plan = from_value(fill(r##"[{"id": "E0", "toolName": "t__search", "input": {}}, {"id": "E1", "toolName": "map", "input": {"over": "{{E0.values}}", "do": {"toolName": "agent", "input": {"prompt": "handle {{item.id}}", "outputSchema": "@@0"}}}}]"##, &[value(&(OUT_SCHEMA()))]))
    .unwrap();

    let gate = ScriptedGate::new(vec![]);
    pipeline
        .with_gate(gate.clone())
        .run_explicit("q", plan, Finish::Silent, None)
        .unwrap();

    let paths = gate.paths();
    assert!(
        paths.contains(&"E1/do.0/agent.1/t__search".to_string()),
        "{paths:?}"
    );
    assert!(
        paths.contains(&"E1/do.1/agent.1/t__search".to_string()),
        "{paths:?}"
    );
}

/// Suppressing `plan_and_execute` from the advertised catalogue is only half
/// the boundary: `dispatch` routes the bare name, so the loop must refuse it
/// even when the model asks for it anyway.
#[test]
fn agent_refuses_plan_and_execute_even_when_the_model_asks_for_it() {
    let registry = search_registry(json(r##"{}"##));
    let (pipeline, provider) = pipeline(
        vec![
            tool_use("c1", "plan_and_execute", json(r##"{"query": "do it all"}"##)),
            text(r#"{"found": 0}"#),
        ],
        registry.clone(),
        1,
    );

    let plan: Plan = from_value(fill(r##"["@@0"]"##, &[value(&(agent_step(
        "E0",
        fill(r##"{"prompt": "p", "outputSchema": "@@0"}"##, &[value(&(OUT_SCHEMA()))])
    )))]))
    .unwrap();

    let outcome = pipeline
        .run_explicit("q", plan, Finish::Silent, None)
        .unwrap();
    assert_eq!(outcome.state.results["E0"]["final"], json(r##"true"##));

    let requests = provider.requests.lock().unwrap();
    // Exactly two rounds: no planner call was made in between.
    assert_eq!(requests.len(), 2, "a nested planner run would add requests");
    let refused = requests[1].messages.iter().any(|m| {
        matches!(
            m,
            ChatMessage::ToolResult { content, is_error: true, .. }
                if plain(content).to_string().contains("not available inside an agent")
        )
    });
    assert!(refused, "the refusal must return into the loop as an error");
}

#[test]
fn gate_abort_inside_an_agent_is_a_hard_stop() {
    let registry = search_registry(json(r##"{}"##));
    let (pipeline, _) = pipeline(
        vec![
            tool_use("c1", "t__search", json(r##"{}"##)),
            text(r#"{"found": 0}"#),
        ],
        registry.clone(),
        1,
    );

    let plan: Plan = from_value(fill(r##"["@@0"]"##, &[value(&(agent_step(
        "E0",
        fill(r##"{"prompt": "p", "outputSchema": "@@0"}"##, &[value(&(OUT_SCHEMA()))])
    )))]))
    .unwrap();

    let err = pipeline
        .with_gate(ScriptedGate::new(vec![GateDecision::Abort]))
        .run_explicit("q", plan, Finish::Silent, None)
        .unwrap_err();
    assert!(
        matches!(err, PipelineError::Aborted { .. }),
        "expected Aborted, got {err:?}"
    );
    // The abort landed before the tool ran, and no further round happened.
    assert!(registry.invocations.lock().unwrap().is_empty());
}

#[test]
fn agent_output_that_misses_the_schema_gets_one_repair_pass() {
    let registry = search_registry(json(r##"{}"##));
    let (pipeline, provider) = pipeline(
        // Round one answers with the right shape but the wrong type; the
        // repair role returns the corrected document.
        vec![text(r#"{"found": "1"}"#), structured(json(r##"{"found": 1}"##))],
        registry.clone(),
        1,
    );

    let plan: Plan = from_value(fill(r##"["@@0"]"##, &[value(&(agent_step(
        "E0",
        fill(r##"{"prompt": "p", "outputSchema": "@@0"}"##, &[value(&(OUT_SCHEMA()))])
    )))]))
    .unwrap();

    let outcome = pipeline
        .run_explicit("q", plan, Finish::Silent, None)
        .unwrap();

    let result = &outcome.state.results["E0"];
    assert_eq!(result["output"], json(r##"{"found": 1}"##), "repaired in place");
    assert_eq!(result["final"], json(r##"true"##));
    // The repair is not a round: one inference round, one repair call.
    assert_eq!(result["iterations"], json(r##"1"##));
    let requests = provider.requests.lock().unwrap();
    assert!(
        requests[1].response_schema.is_some(),
        "the second call must be the structured repair pass"
    );
}

/// Data running out while rendering an agent's prompt is `EmptyData` at any
/// depth: it degrades, and never becomes a replan-eligible tool failure.
#[test]
fn agent_empty_data_in_a_body_prompt_degrades() {
    let registry = search_registry(json(r##"{"values": [{"children": []}]}"##));
    let (pipeline, _) = pipeline(vec![], registry.clone(), 1);

    let plan: Plan = from_value(fill(r##"[{"id": "E0", "toolName": "t__search", "input": {}}, {"id": "E1", "toolName": "map", "input": {"over": "{{E0.values}}", "do": {"toolName": "agent", "input": {"prompt": "handle {{item.children.0.id}}", "outputSchema": "@@0"}}}}]"##, &[value(&(OUT_SCHEMA()))]))
    .unwrap();

    let err = pipeline
        .run_explicit("q", plan, Finish::Silent, None)
        .unwrap_err();
    assert!(
        matches!(err, PipelineError::EmptyData { .. }),
        "expected EmptyData, got {err:?}"
    );
}

#[test]
fn agent_system_prompt_renders_against_the_scope() {
    let registry = search_registry(json(r##"{"values": [{"id": "team-3"}]}"##));
    let (pipeline, provider) = pipeline(vec![text(r#"{"found": 0}"#)], registry.clone(), 1);

    let plan: Plan = from_value(fill(r##"[{"id": "E0", "toolName": "t__search", "input": {}}, "@@0"]"##, &[value(&(agent_step(
            "E1",
            fill(r##"{"prompt": "p", "systemPrompt": "The team is {{E0.values.0.id}}.", "outputSchema": "@@0"}"##, &[value(&(OUT_SCHEMA()))])
        )))]))
    .unwrap();

    pipeline
        .run_explicit("q", plan, Finish::Silent, None)
        .unwrap();

    let requests = provider.requests.lock().unwrap();
    assert!(
        requests[0].system.contains("The team is team-3."),
        "{}",
        requests[0].system
    );
}

#[test]
fn an_explicitly_empty_tool_list_fails_the_step_rather_than_granting_everything() {
    let registry = search_registry(json(r##"{}"##));
    let (pipeline, provider) = pipeline(vec![text(r#"{"found": 0}"#)], registry.clone(), 1);

    let plan: Plan = from_value(fill(r##"["@@0"]"##, &[value(&(agent_step(
        "E0",
        fill(r##"{"prompt": "p", "outputSchema": "@@0", "tools": []}"##, &[value(&(OUT_SCHEMA()))])
    )))]))
    .unwrap();

    let err = pipeline
        .run_explicit("q", plan, Finish::Silent, None)
        .unwrap_err();
    let text = format!("{err:?}");
    assert!(text.contains("`tools` is empty"), "{text}");
    assert!(
        provider.requests.lock().unwrap().is_empty(),
        "no inference may be spent on it"
    );
}

const ASK_SCHEMA: fn() -> Value = || {
    json(r##"{"type": "object", "required": ["repo"], "properties": {"repo": {"type": "string", "description": "Target repo"}}}"##)
};

fn ask_step(id: &str, input: Value) -> Value {
    fill(r##"{"id": "@@0", "toolName": "ask", "input": "@@1"}"##, &[value(&(id)), value(&(input))])
}

#[test]
fn an_answer_becomes_the_step_result_and_flows_downstream() {
    let registry = search_registry(json(r##"{}"##));
    let (pipeline, _) = pipeline(vec![], registry.clone(), 1);
    let human = ScriptedHuman::answering(json(r##"{"repo": "tylerdavis/graph"}"##));
    let pipeline = pipeline.with_interlocutor(human.clone());

    let plan: Plan = from_value(fill(r##"["@@0", {"id": "E1", "toolName": "t__search", "input": {"query": "{{E0.answer.repo}}"}}]"##, &[value(&(ask_step("E0", fill(r##"{"prompt": "Which repo?", "outputSchema": "@@0"}"##, &[value(&(ASK_SCHEMA()))]))))]))
    .unwrap();

    let outcome = pipeline
        .run_explicit("q", plan, Finish::Silent, None)
        .unwrap();
    assert_eq!(
        outcome.state.results["E0"]["answer"]["repo"],
        "tylerdavis/graph"
    );
    assert_eq!(outcome.state.results["E0"]["answered"], json(r##"true"##));
    // The whole point: a human's answer is ordinary step data.
    let calls = registry.invocations.lock().unwrap().clone();
    assert_eq!(calls[0].1["query"], "tylerdavis/graph");
}

#[test]
fn the_question_renders_against_earlier_results() {
    let registry = search_registry(json(r##"{"values": [{"id": "team-1"}]}"##));
    let (pipeline, _) = pipeline(vec![], registry, 1);
    let human = ScriptedHuman::answering(json(r##"{"repo": "x"}"##));
    let pipeline = pipeline.with_interlocutor(human.clone());

    let plan: Plan = from_value(fill(r##"[{"id": "E0", "toolName": "t__search", "input": {"query": "x"}}, "@@0"]"##, &[value(&(ask_step(
            "E1",
            fill(r##"{"prompt": "Pick from {{E0.values}}", "outputSchema": "@@0"}"##, &[value(&(ASK_SCHEMA()))])
        )))]))
    .unwrap();

    pipeline
        .run_explicit("q", plan, Finish::Silent, None)
        .unwrap();
    assert!(
        human.prompts()[0].contains("team-1"),
        "{:?}",
        human.prompts()
    );
}

#[test]
fn with_nobody_to_ask_the_default_declares_what_happens() {
    // The portability invariant: this is the CI run of an interactive plan.
    let registry = search_registry(json(r##"{}"##));
    let (pipeline, _) = pipeline(vec![], registry, 1);

    let plan: Plan = from_value(fill(r##"["@@0"]"##, &[value(&(ask_step(
        "E0",
        fill(r##"{"prompt": "Which repo?", "outputSchema": "@@0", "whenUnanswered": "default", "default": {"repo": "tylerdavis/graph"}}"##, &[value(&(ASK_SCHEMA()))])
    )))]))
    .unwrap();

    // No interlocutor installed at all — the headless shape.
    let outcome = pipeline
        .run_explicit("q", plan, Finish::Silent, None)
        .unwrap();
    assert_eq!(
        outcome.state.results["E0"]["answer"]["repo"],
        "tylerdavis/graph"
    );
    assert_eq!(outcome.state.results["E0"]["answered"], json(r##"false"##));
    assert_eq!(outcome.state.results["E0"]["reason"], "unavailable");
}

#[test]
fn a_declining_human_is_distinguishable_from_an_absent_one() {
    // Both take the `default` path, but a plan can branch on which
    // happened — someone said no, versus nobody was there.
    let registry = search_registry(json(r##"{}"##));
    let (pipeline, _) = pipeline(vec![], registry, 1);
    let human = ScriptedHuman::new(vec![AskOutcome::Declined]);
    let pipeline = pipeline.with_interlocutor(human);

    let plan: Plan = from_value(fill(r##"["@@0"]"##, &[value(&(ask_step(
        "E0",
        fill(r##"{"prompt": "Which repo?", "outputSchema": "@@0", "whenUnanswered": "default", "default": {"repo": "fallback"}}"##, &[value(&(ASK_SCHEMA()))])
    )))]))
    .unwrap();

    let outcome = pipeline
        .run_explicit("q", plan, Finish::Silent, None)
        .unwrap();
    assert_eq!(outcome.state.results["E0"]["reason"], "declined");
}

#[test]
fn the_default_is_rendered_not_taken_literally() {
    let registry = search_registry(json(r##"{}"##));
    let (pipeline, _) = pipeline(vec![], registry, 1);

    let plan: Plan = from_value(fill(r##"["@@0"]"##, &[value(&(ask_step(
        "E0",
        fill(r##"{"prompt": "Which repo?", "outputSchema": "@@0", "whenUnanswered": "default", "default": {"repo": "{{input.repo}}"}}"##, &[value(&(ASK_SCHEMA()))])
    )))]))
    .unwrap();

    let outcome = pipeline
        .run_explicit(
            "q",
            plan,
            Finish::Silent,
            Some(json(r##"{"repo": "from-input"}"##)),
        )
        .unwrap();
    assert_eq!(outcome.state.results["E0"]["answer"]["repo"], "from-input");
}

#[test]
fn an_unanswerable_ask_fails_by_default() {
    // `fail` is the default precisely so that an author who never thought
    // about the headless case finds out, instead of a plan silently
    // proceeding on a value nobody supplied.
    let registry = search_registry(json(r##"{}"##));
    let (pipeline, _) = pipeline(vec![], registry, 1);

    let plan: Plan = from_value(fill(r##"["@@0"]"##, &[value(&(ask_step(
        "E0",
        fill(r##"{"prompt": "Which repo?", "outputSchema": "@@0"}"##, &[value(&(ASK_SCHEMA()))])
    )))]))
    .unwrap();

    let err = pipeline
        .run_explicit("q", plan, Finish::Silent, None)
        .unwrap_err();
    match err {
        PipelineError::StepFailed { tool, message, .. } => {
            assert_eq!(tool, "ask");
            assert!(message.contains("whenUnanswered"), "{message}");
        }
        other => panic!("expected a step failure, got {other:?}"),
    }
}

#[test]
fn an_answer_that_misses_the_schema_fails_rather_than_propagating() {
    // Hosts are not trusted to validate: a hand-typed TTY answer and a
    // partial client form both land here.
    let registry = search_registry(json(r##"{}"##));
    let (pipeline, _) = pipeline(vec![], registry, 1);
    let human = ScriptedHuman::answering(json(r##"{"repo": 12}"##));
    let pipeline = pipeline.with_interlocutor(human);

    let plan: Plan = from_value(fill(r##"["@@0"]"##, &[value(&(ask_step(
        "E0",
        fill(r##"{"prompt": "Which repo?", "outputSchema": "@@0"}"##, &[value(&(ASK_SCHEMA()))])
    )))]))
    .unwrap();

    let err = pipeline
        .run_explicit("q", plan, Finish::Silent, None)
        .unwrap_err();
    let text = format!("{err:?}");
    assert!(text.contains("does not conform"), "{text}");
}

#[test]
fn an_ask_inside_a_map_body_sees_the_item() {
    let registry = search_registry(json(r##"{}"##));
    let (pipeline, _) = pipeline(vec![], registry, 1);
    let human = ScriptedHuman::answering(json(r##"{"repo": "picked"}"##));
    let pipeline = pipeline.with_interlocutor(human.clone());

    let plan: Plan = from_value(fill(r##"[{"id": "E0", "toolName": "map", "input": {"over": ["alpha", "beta"], "do": {"toolName": "ask", "input": {"prompt": "Rename {{item}}?", "outputSchema": "@@0"}}}}]"##, &[value(&(ASK_SCHEMA()))]))
    .unwrap();

    let outcome = pipeline
        .run_explicit("q", plan, Finish::Silent, None)
        .unwrap();
    assert_eq!(outcome.state.results["E0"]["count"], json(r##"2"##));
    assert_eq!(
        human.prompts(),
        vec!["Rename alpha?".to_string(), "Rename beta?".to_string()]
    );
    assert_eq!(
        outcome.state.results["E0"]["results"][0]["answer"]["repo"],
        "picked"
    );
}

#[test]
fn an_exit_gate_can_branch_on_whether_a_human_answered() {
    // The composition that makes `ask` worth having as a step rather than
    // a special case: its result is ordinary data.
    let registry = search_registry(json(r##"{}"##));
    let (pipeline, _) = pipeline(vec![], registry.clone(), 1);

    let plan: Plan = from_value(fill(r##"["@@0", {"id": "E1", "toolName": "exit", "input": {"when": {"value": "{{E0.answered}}", "op": "eq", "to": false}, "status": "success", "message": "nobody approved — nothing to do"}}, {"id": "E2", "toolName": "t__search", "input": {"query": "should not run"}}]"##, &[value(&(ask_step(
            "E0",
            fill(r##"{"prompt": "Approve?", "outputSchema": "@@0", "whenUnanswered": "default", "default": {"repo": "none"}}"##, &[value(&(ASK_SCHEMA()))])
        )))]))
    .unwrap();

    let outcome = pipeline
        .run_explicit("q", plan, Finish::Silent, None)
        .unwrap();
    assert!(outcome.exit.is_some());
    assert!(registry.invocations.lock().unwrap().is_empty());
}
