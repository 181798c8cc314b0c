# graph_core

The core of an assistant that answers questions by running plans of tool calls:
a typed template engine, plan documents and their checks, the execution of plans
with control steps, planning and replanning, incremental drafting, and the agent
loop. The library is written in Verus: every function states what it returns in
its contract, and the contracts are proved.

## What is where

- `src/template/`: the `{{E0.values.0.id}}` dialect. `parser` reads it, `render`
  evaluates it. What is proved of every template stands in `laws` (rendering),
  `renaming`, `braces`, `keeping` and `undoing` (renaming a root), `paths` and
  `rewriting` (writing a template out), and `mentions` (roots and paths).
- `src/pipeline/plan.rs`, `doc.rs`, `file.rs`, `filing.rs`, `authoring.rs`: plans,
  plan documents, the shape of a plan file, and the rules for editing one.
  `written.rs` prints plans as the JSON that a model reads.
- `src/pipeline/engine.rs`, `run.rs`, `run_body.rs`: what a run does next, and how
  it ends.
- `src/pipeline/decision.rs`, `iterate.rs`, `filter.rs`, `ask.rs`, `exit.rs`,
  `agent_loop.rs`: the control steps.
- `src/pipeline/catalog.rs`, `reach.rs`, `naming.rs`: the tools and plans that a
  plan refers to, and the names that goals give.
- `src/pipeline/planner.rs`, `outline.rs`, `solver.rs`, `calls.rs`: asking the
  planner and the solver, drafting step by step, plans that call plans.
- `src/agent.rs`, `src/toolbox.rs`, `src/tools.rs`: the agent loop and its tools.
- `src/format.rs`, `src/migrating.rs`, `src/yaml.rs`, `src/json.rs`: file formats
  and their upgrade, and the outside crates that read and print.
- `src/value.rs`, `src/text.rs`, `src/seqs.rs`, `src/pipeline/record.rs`: values,
  text, and reading records out of objects.
- `tests/`: the tests. `tests/pipeline.rs` runs whole plans over scripted models
  and tools.
- `app/`: what performs the decisions: model calls, tool calls, people, files and
  events.

## How a run is split

The library never waits for anything. A run is a state; the library says what the
next move is, the caller performs it and hands back what came of it, and the
library says what follows. `app/pipeline.rs` is that caller for the real world.

## What is trusted

Numbers, JSON, YAML and JSON Schema come from `serde_json`, `serde_yaml` and
`jsonschema`. Each call into them stands in a small function marked
`external_body`, or under an `assume_specification`, in `value.rs`, `json.rs`,
`yaml.rs`, `condition.rs` or `schema.rs`, with a comment on what its contract
claims. How a misplaced value is called in a message comes from `serde`, in
`pipeline/record.rs`. `text.rs` adds what `String::push` does.
