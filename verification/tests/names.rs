use graph_core::pipeline::agent::truncate_for_error;
use graph_core::pipeline::catalog::glob_matches;
use graph_core::pipeline::engine::is_control_step;
use graph_core::pipeline::gate::StepPath;
use graph_core::pipeline::naming::identifier_from;

#[test]
fn identifiers_are_tool_name_safe() {
    assert_eq!(
        identifier_from("Summarize this sprint's progress!"),
        "summarize_this_sprint_s_progress"
    );
    assert_eq!(identifier_from("!!!"), "draft_plan");
}

#[test]
fn glob_matches_wildcards_anywhere() {
    assert!(glob_matches("linear__*", "linear__list_issues"));
    assert!(glob_matches("*", "anything"));
    assert!(glob_matches("*__search", "brave__search"));
    assert!(glob_matches("linear__*_issues", "linear__list_issues"));
    assert!(glob_matches("user__git_log", "user__git_log"));

    // A prefix-only implementation gets all of these wrong.
    assert!(!glob_matches("*__search", "brave__search_web"));
    assert!(!glob_matches("linear__*_issues", "linear__list_teams"));
    assert!(!glob_matches("user__git_log", "user__git_log_extra"));
    assert!(!glob_matches("linear__*", "user__git_log"));
}

#[test]
fn a_control_step_is_never_mistaken_for_an_invokable_tool() {
    for name in [
        "plan_and_execute",
        "plan__report",
        "user__git_log",
        "t__search",
    ] {
        assert!(!is_control_step(name), "'{name}' is not a control step");
    }
}

#[test]
fn nesting_keeps_the_body_location_it_started_from() {
    assert_eq!(
        StepPath::top("E1").nested("agent.3", Some("t__search")).text(),
        "E1/agent.3/t__search"
    );
    // A map body item: the item disambiguator must survive, or every
    // concurrent item reports the same path.
    assert_eq!(
        StepPath::in_body("E1", "do.2", None)
            .nested("agent.1", Some("t__search"))
            .text(),
        "E1/do.2/agent.1/t__search"
    );
    // A step-list branch: the body step id survives too.
    assert_eq!(
        StepPath::in_body("E2", "then", Some("B0"))
            .nested("agent.1", Some("t__search"))
            .text(),
        "E2/then/B0/agent.1/t__search"
    );
}

#[test]
fn parse_failure_message_does_not_dump_the_whole_answer() {
    let long = "x".repeat(5000);
    let message = truncate_for_error(&long);
    assert!(message.chars().count() <= 201, "{}", message.len());
    assert!(message.ends_with('…'));
}
