use graph_core::json::to_serde;
use graph_core::pipeline::control::{
    control_step_defs, AGENT_TOOL, ASK_TOOL, DECIDE_TOOL, EXIT_TOOL, FILTER_TOOL, MAP_TOOL,
    REDUCE_TOOL,
};
use graph_core::pipeline::engine::is_control_step;
use graph_core::pipeline::prompts::{
    closing_step_request, drafting_prompt, outline_request, planner_prompt, step_request,
    DraftingPromptArgs, PlannerPromptArgs, CONTROL_STEP_RULES, PLANNING_RULES, TEMPLATING_RULES,
};
use graph_core::prompts::chat::{chat_system_prompt, UserConfig, DEFAULT_CHAT_PROMPT};

/// The control-step rules carry two deliberate steering behaviors;
/// keep them from being edited away silently.
#[test]
fn control_step_rules_carry_steering_guidance() {
    assert!(
        CONTROL_STEP_RULES.contains("check or assertion"),
        "check-shaped plans must be steered toward explicit gated exits"
    );
    assert!(
        CONTROL_STEP_RULES.contains("per-item inference call"),
        "list inference must be steered toward map with per-item calls"
    );
}

#[test]
fn planner_prompt_includes_control_step_rules() {
    let prompt = planner_prompt(&PlannerPromptArgs {
        current_date: "2026-01-01",
        last_error: None,
        next_step_id: "E0",
        tools: "(no tools available)",
        user_context: "(none)",
        existing_plan: "(none)",
        step_schema: "{}",
    });
    assert!(prompt.contains(CONTROL_STEP_RULES));
    assert!(prompt.contains(PLANNING_RULES));
}

fn drafting_prompt_for(draft: Option<&str>) -> String {
    drafting_prompt(&DraftingPromptArgs {
        current_date: "2026-01-01",
        tools: "(no tools available)",
        user_context: "(none)",
        step_schema: "{}",
        draft,
    })
}

#[test]
fn drafting_prompt_carries_the_shared_sections() {
    let prompt = drafting_prompt_for(None);
    assert!(prompt.contains(CONTROL_STEP_RULES));
    assert!(prompt.contains(PLANNING_RULES));
    assert!(prompt.contains(TEMPLATING_RULES));
    assert!(!prompt.contains("Draft Under Revision"));
}

#[test]
fn drafting_prompt_teaches_the_drafting_protocol() {
    let prompt = drafting_prompt_for(None);
    assert!(
        prompt.contains("is ONE stage"),
        "a control step must be exactly one outline stage"
    );
    assert!(
        prompt.contains("`step: null` with `planComplete: true`"),
        "the done-early convention must be taught"
    );
    assert!(
        prompt.contains("Never re-emit accepted steps"),
        "the correction protocol must be taught"
    );
}

#[test]
fn drafting_prompt_revision_slot_carries_the_draft() {
    let prompt = drafting_prompt_for(Some("{\"plan\": []}"));
    assert!(prompt.contains("Draft Under Revision"));
    assert!(prompt.contains("{\"plan\": []}"));
}

#[test]
fn request_helpers_name_ids_and_stages() {
    assert!(outline_request("do the thing").contains("do the thing"));
    let request = step_request("E2", 3, "fetch the issues");
    assert!(request.contains("step E2"));
    assert!(request.contains("stage 3: fetch the issues"));
    assert!(request.contains("planComplete: true"));
}

#[test]
fn closing_step_request_pushes_the_planner_to_finish() {
    let request = closing_step_request("E5");
    assert!(request.contains("Every outline stage now has a step"));
    assert!(request.contains("planComplete: true"));
    assert!(request.contains("E5"));
}

#[test]
fn override_replaces_base_but_keeps_dynamic_sections() {
    let user = UserConfig {
        name: Some("Tyler".into()),
        context: Some("CEO".into()),
        timezone: None,
    };
    let prompt = chat_system_prompt(&user, "NOW", Some("You are a pirate."));
    assert!(prompt.starts_with("You are a pirate.\n"));
    assert!(!prompt.contains("command-line assistant"));
    assert!(prompt.contains("Current date and time: NOW"));
    assert!(prompt.contains("The user's name is Tyler."));
    assert!(prompt.contains("About the user and their environment:\nCEO"));
}

#[test]
fn default_base_used_when_no_override() {
    let prompt = chat_system_prompt(&UserConfig::default(), "NOW", None);
    assert!(prompt.starts_with(DEFAULT_CHAT_PROMPT));
    assert!(prompt.contains("Current date and time: NOW"));
}

#[test]
fn every_control_step_is_described_in_the_catalog() {
    // The catalog is the only way an authoring agent can learn a control
    // step exists or what its input looks like. A step missing here sends
    // it to read graph's source instead — which is what happened before
    // `control_step_defs` was the single source of truth.
    let described: Vec<String> = control_step_defs().into_iter().map(|d| d.name).collect();
    for name in [
        AGENT_TOOL,
        ASK_TOOL,
        EXIT_TOOL,
        DECIDE_TOOL,
        FILTER_TOOL,
        MAP_TOOL,
        REDUCE_TOOL,
    ] {
        assert!(
            described.iter().any(|d| d == name),
            "control step '{name}' is not in the catalog: {described:?}"
        );
        assert!(
            is_control_step(name),
            "'{name}' is described as a control step but not recognised as one"
        );
    }
    assert_eq!(described.len(), 7, "{described:?}");
}

#[test]
fn control_step_descriptions_carry_a_usable_input_schema() {
    // A description without a schema is not discovery — the agent still
    // has to guess the field names.
    for def in control_step_defs() {
        let schema = to_serde(&def.input_schema);
        assert_eq!(
            schema["type"], "object",
            "{}: input schema is not an object",
            def.name
        );
        assert!(
            schema["properties"]
                .as_object()
                .is_some_and(|p| !p.is_empty()),
            "{}: input schema declares no properties",
            def.name
        );
        assert!(
            !def.description.trim().is_empty(),
            "{}: no description",
            def.name
        );
    }
}

#[test]
fn a_body_bearing_control_step_names_every_step_legal_in_its_body() {
    // These descriptions are prompt surface AND the catalog an agent
    // reads. When `ask` landed they still said "may contain an agent
    // step", which is how a planner learns a legal step is illegal.
    for def in control_step_defs() {
        if ![DECIDE_TOOL, MAP_TOOL, REDUCE_TOOL].contains(&def.name.as_str()) {
            continue;
        }
        for legal in [AGENT_TOOL, ASK_TOOL, FILTER_TOOL] {
            assert!(
                def.description.contains(&format!("`{legal}`")),
                "{}'s description does not mention that `{legal}` is legal in its body",
                def.name
            );
        }
    }
}
