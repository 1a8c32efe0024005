use serde_json::Value;
use zeroclaw_tools::child_session::agents::{validate_agent, NamedAgent};
use zeroclaw_tools::child_session::artifacts::extract_workspace_paths;
use zeroclaw_tools::child_session::documents::{child_state_name, delegate_json};
use zeroclaw_tools::child_session::registry::{
    ChildSessionError, ChildSessionRegistry, DelegateOutcome,
};
use zeroclaw_tools::child_session::session::{
    ChildSession, ChildSessionCompletion, ChildSessionState, DelegateAgentConfig,
};
use zeroclaw_tools::child_session::tool::{
    parse_bounded_secs, ChildReply, ChildRequest, ChildSessionTool, ChildStart,
};
use zeroclaw_tools::host::time::Timestamp;
use zeroclaw_tools::host::tool::{ToolExecutionContext, ToolOperation, ToolResult};

type Arguments = serde_json::Map<String, Value>;

const WORKSPACE: &str = "/tmp/workspace";

fn at(secs: i64) -> Timestamp {
    Timestamp::at(secs, 0).unwrap()
}

fn args(list: &[(&str, Value)]) -> Arguments {
    let mut args = serde_json::Map::new();
    for (key, value) in list {
        args.insert(key.to_string(), value.clone());
    }
    args
}

fn context(owner: &str) -> Option<ToolExecutionContext> {
    Some(ToolExecutionContext {
        owner_key: Some(owner.to_string()),
        channel_name: Some("feishu".to_string()),
        reply_target: Some("thread-1".to_string()),
    })
}

fn config(model: &str, allowed_tools: &[&str]) -> DelegateAgentConfig {
    DelegateAgentConfig {
        provider: "test-provider".to_string(),
        model: model.to_string(),
        max_depth: 2,
        agentic: true,
        allowed_tools: allowed_tools.iter().map(|name| name.to_string()).collect(),
        max_iterations: 4,
    }
}

fn named(name: &str, config: DelegateAgentConfig) -> NamedAgent {
    NamedAgent {
        name: name.to_string(),
        config,
    }
}

fn sample_agents() -> Vec<NamedAgent> {
    vec![
        named("worker", config("test-model", &["echo_tool"])),
        named("slow", config("slow-model", &["echo_tool"])),
        named("unbounded", config("test-model", &[])),
    ]
}

fn tool() -> ChildSessionTool {
    ChildSessionTool::new(sample_agents())
}

/// A program around the tool; while a call waits, its children end this way.
struct Host {
    allowed: Result<(), String>,
    outcome: Option<DelegateOutcome>,
    requests: Vec<ChildRequest>,
}

impl Host {
    fn new() -> Host {
        Host {
            allowed: Ok(()),
            outcome: None,
            requests: Vec::new(),
        }
    }

    fn answer(&mut self, registry: &mut ChildSessionRegistry, request: ChildRequest) -> ChildReply {
        let reply = match &request {
            ChildRequest::Enforce { .. } => ChildReply::Allowed(self.allowed.clone()),
            ChildRequest::Wait { session_id, .. } => {
                if let Some(outcome) = &self.outcome {
                    registry.finish(session_id, outcome, WORKSPACE, at(30));
                }
                ChildReply::Done
            }
            _ => ChildReply::Done,
        };
        self.requests.push(request);
        reply
    }
}

fn execute(
    host: &mut Host,
    registry: &mut ChildSessionRegistry,
    list: &[(&str, Value)],
    context: Option<ToolExecutionContext>,
) -> ToolResult {
    let tool = tool();
    match tool.execute_with_context(args(list), context).unwrap() {
        ChildStart::Finished(result) => result,
        ChildStart::Running(mut call) => {
            while let Some(request) = call.request() {
                assert!(call.result().is_none());
                let reply = host.answer(registry, request);
                assert!(!call.spawns() || registry.has_room());
                call.advance(&tool, registry, &reply, at(10));
            }
            call.result().unwrap().clone()
        }
    }
}

fn output(result: &ToolResult) -> Value {
    assert!(result.success, "call should succeed: {:?}", result.error);
    serde_json::from_str(&result.output).expect("tool output should be valid JSON")
}

fn failure(result: &ToolResult) -> String {
    assert!(!result.success);
    assert_eq!(result.output, "");
    result.error.clone().unwrap()
}

fn spawn(host: &mut Host, registry: &mut ChildSessionRegistry, agent: &str, owner: &str) -> String {
    spawn_with(
        host,
        registry,
        &[
            ("agent", agent.into()),
            ("prompt", "inspect the codebase and report back".into()),
        ],
        owner,
    )
}

fn spawn_with(
    host: &mut Host,
    registry: &mut ChildSessionRegistry,
    more: &[(&str, Value)],
    owner: &str,
) -> String {
    let mut list = vec![("action", "spawn".into())];
    list.extend(more.iter().cloned());
    let spawned = execute(host, registry, &list, context(owner));
    output(&spawned)["session"]["session_id"].as_str().unwrap().to_string()
}

#[test]
fn child_session_spawn_and_wait_returns_completion_summary() {
    let mut host = Host::new();
    let mut registry = ChildSessionRegistry::default();
    let session_id = spawn(&mut host, &mut registry, "worker", "conversation-a");
    assert_eq!(session_id, "child-000001");
    let seen_contexts: Vec<Option<ToolExecutionContext>> = host
        .requests
        .iter()
        .filter_map(|request| match request {
            ChildRequest::Spawn { caller, .. } => Some(caller.clone()),
            _ => None,
        })
        .collect();
    assert_eq!(
        seen_contexts[0].as_ref().and_then(|caller| caller.owner_key.as_deref()),
        Some("conversation-a")
    );
    assert_eq!(seen_contexts, vec![context("conversation-a")]);
    host.outcome = Some(DelegateOutcome::Finished(ToolResult {
        success: true,
        output: format!("child finished and wrote {WORKSPACE}/out.txt"),
        error: None,
    }));

    let waited = execute(
        &mut host,
        &mut registry,
        &[
            ("action", "wait".into()),
            ("session_id", session_id.as_str().into()),
            ("wait_timeout_secs", 1.into()),
        ],
        context("conversation-a"),
    );
    assert!(waited.success);
    let waited_json = output(&waited);
    assert_eq!(waited_json["session"]["state"], "completed");
    assert!(waited_json["session"]["completion"]["summary"]
        .as_str()
        .unwrap()
        .contains("child finished"));
    assert!(waited_json["session"]["completion"]["artifacts"]
        .as_array()
        .unwrap()
        .iter()
        .any(|path| path.as_str().unwrap().ends_with("/out.txt")));
    assert_eq!(waited_json["session"]["completion"]["success"], true);
    assert_eq!(waited_json["session"]["completion"]["error"], Value::Null);
    assert_eq!(waited_json["session"]["owner_key"], "conversation-a");
    assert_eq!(waited_json["session"]["channel_name"], "feishu");
    assert_eq!(waited_json["session"]["reply_target"], "thread-1");
    assert_eq!(waited_json["session"]["completed_at"], "1970-01-01T00:00:30+00:00");
    assert_eq!(waited_json["session"]["allowed_tools"][0], "echo_tool");
    assert_eq!(waited_json["session"]["max_depth"], 2);
    assert_eq!(waited_json["session"]["max_iterations"], 4);
    assert_eq!(waited_json["session"]["timeout_secs"], 300);
    assert_eq!(
        host.requests.last().unwrap(),
        &ChildRequest::Wait {
            session_id,
            timeout_secs: 1
        }
    );
}

#[test]
fn child_session_reports_timeout_handoff() {
    let mut host = Host::new();
    let mut registry = ChildSessionRegistry::default();
    let session_id = spawn_with(
        &mut host,
        &mut registry,
        &[
            ("agent", "slow".into()),
            ("prompt", "take your time".into()),
            ("timeout_secs", 1.into()),
        ],
        "conversation-a",
    );
    host.outcome = Some(DelegateOutcome::TimedOut);
    let waited = execute(
        &mut host,
        &mut registry,
        &[
            ("action", "wait".into()),
            ("session_id", session_id.as_str().into()),
            ("wait_timeout_secs", 2.into()),
        ],
        context("conversation-a"),
    );
    let waited_json = output(&waited);
    assert_eq!(waited_json["session"]["state"], "timed_out");
    assert!(waited_json["session"]["completion"]["error"]
        .as_str()
        .unwrap()
        .contains("timed out"));
    assert_eq!(
        waited_json["session"]["completion"]["summary"],
        "Child session timed out after 1s"
    );
}

#[test]
fn child_session_rejects_unbounded_agent_configuration() {
    let mut registry = ChildSessionRegistry::default();
    let result = execute(
        &mut Host::new(),
        &mut registry,
        &[
            ("action", "spawn".into()),
            ("agent", "unbounded".into()),
            ("prompt", "this should fail".into()),
        ],
        context("conversation-a"),
    );
    assert!(!result.success);
    assert!(result
        .error
        .as_deref()
        .unwrap_or("")
        .contains("no allowed_tools"));
}

#[test]
fn child_session_denies_foreign_owner_access() {
    let mut host = Host::new();
    let mut registry = ChildSessionRegistry::default();
    let session_id = spawn_with(
        &mut host,
        &mut registry,
        &[("agent", "worker".into()), ("prompt", "run".into())],
        "conversation-a",
    );
    for action in ["status", "wait", "cancel"] {
        let foreign = execute(
            &mut host,
            &mut registry,
            &[("action", action.into()), ("session_id", session_id.as_str().into())],
            context("conversation-b"),
        );
        assert!(!foreign.success);
        assert!(foreign.error.as_deref().unwrap_or("").contains("not found"));
        assert_eq!(failure(&foreign), "child session 'child-000001' not found");
    }
    assert!(registry.get(&session_id).unwrap().is_running());
}

#[test]
fn a_spawn_hands_its_task_over() {
    let mut host = Host::new();
    let mut registry = ChildSessionRegistry::default();
    let result = execute(
        &mut host,
        &mut registry,
        &[
            ("action", "spawn".into()),
            ("agent", " worker ".into()),
            ("prompt", " do it ".into()),
            ("context", "  some context ".into()),
        ],
        context("a"),
    );
    let told = output(&result);
    assert_eq!(told["action"], "spawn");
    assert_eq!(told["session"]["state"], "running");
    assert_eq!(told["session"]["prompt_summary"], "do it");
    assert_eq!(told["session"]["completion"], Value::Null);
    assert_eq!(
        host.requests,
        vec![
            ChildRequest::Enforce {
                operation: ToolOperation::Act,
                name: "child_session.spawn".into()
            },
            ChildRequest::Spawn {
                session_id: "child-000001".into(),
                agent: "worker".into(),
                prompt: "do it".into(),
                context: "some context".into(),
                timeout_secs: 300,
                caller: context("a")
            },
        ]
    );
    let handed = Value::from(delegate_json("worker", "do it", ""));
    assert_eq!(
        handed.to_string(),
        r#"{"agent":"worker","context":"","prompt":"do it"}"#
    );
}

#[test]
fn a_cancelled_child_stays_cancelled() {
    let mut host = Host::new();
    let mut registry = ChildSessionRegistry::default();
    let id = spawn(&mut host, &mut registry, "worker", "a");
    let list = [("action", Value::from("cancel")), ("session_id", id.as_str().into())];
    let cancelled = execute(&mut host, &mut registry, &list, context("a"));
    let told = output(&cancelled);
    assert_eq!(told["session"]["state"], "cancelled");
    assert_eq!(
        told["session"]["completion"]["error"],
        "Child session cancelled by parent request"
    );
    assert_eq!(
        host.requests.last().unwrap(),
        &ChildRequest::Abort {
            session_id: id.clone()
        }
    );
    // Its work ends too late to matter.
    registry.finish(
        &id,
        &DelegateOutcome::Failed { reason: "late".into() },
        WORKSPACE,
        at(99),
    );
    let again = execute(&mut host, &mut registry, &list, context("a"));
    assert_eq!(output(&again)["session"], told["session"]);
    assert!(matches!(
        host.requests.last().unwrap(),
        ChildRequest::Enforce { .. }
    ));
    let waited = execute(
        &mut host,
        &mut registry,
        &[("action", "wait".into()), ("session_id", id.as_str().into())],
        context("a"),
    );
    assert_eq!(output(&waited)["session"], told["session"]);
}

#[test]
fn a_failing_child_keeps_its_error() {
    let mut registry = ChildSessionRegistry::default();
    let ids: Vec<String> = (0..3)
        .map(|_| {
            registry.register(
                "a".into(),
                &None,
                "worker",
                &config("m", &["t"]),
                5,
                "p".into(),
                at(0),
            )
        })
        .collect();
    assert_eq!(ids, vec!["child-000001", "child-000002", "child-000003"]);
    let failed = ToolResult {
        success: false,
        output: "ignored".into(),
        error: Some("delegate failure".into()),
    };
    registry.finish(&ids[0], &DelegateOutcome::Finished(failed), WORKSPACE, at(1));
    let snapshot = registry.get(&ids[0]).unwrap().snapshot();
    assert_eq!(snapshot.state, ChildSessionState::Failed);
    let completion = snapshot.completion.unwrap();
    assert_eq!(completion.summary, "delegate failure");
    assert_eq!(completion.error.as_deref(), Some("delegate failure"));

    let silent = ToolResult {
        success: false,
        output: String::new(),
        error: None,
    };
    registry.finish(&ids[1], &DelegateOutcome::Finished(silent), WORKSPACE, at(1));
    let completion = registry.get(&ids[1]).unwrap().snapshot().completion.unwrap();
    assert_eq!(completion.summary, "child session failed");
    assert_eq!(completion.error, None);

    registry.finish(
        &ids[2],
        &DelegateOutcome::Failed { reason: "lost".into() },
        WORKSPACE,
        at(1),
    );
    let snapshot = registry.get(&ids[2]).unwrap().snapshot();
    assert_eq!(snapshot.state, ChildSessionState::Failed);
    assert_eq!(snapshot.completed_at, Some(at(1)));
    registry.finish("nobody", &DelegateOutcome::TimedOut, WORKSPACE, at(1));
    assert_eq!(
        registry.get_owned("b", &ids[0]).err(),
        Some(ChildSessionError::SessionNotFound {
            session_id: ids[0].clone()
        })
    );
}

#[test]
fn the_end_of_a_child_is_final() {
    let mut child = ChildSession::new(
        "child-000001".into(),
        "a".into(),
        None,
        None,
        "worker".into(),
        &config("m", &["t"]),
        7,
        "p".into(),
        at(0),
    );
    child.set_abort_handle();
    assert_eq!(child.wait_for_completion(), None);
    child.mark_timeout(7, at(1));
    let ended = child.snapshot();
    assert_eq!(child.wait_for_completion().as_ref(), Some(&ended));
    assert_eq!(ended.completion.as_ref().unwrap().error.as_deref(), Some("timed out after 7s"));
    assert!(!child.cancel("too late", at(2)));
    let result = ToolResult {
        success: true,
        output: "too late".into(),
        error: None,
    };
    child.mark_completed(&result, WORKSPACE, at(3));
    child.mark_timeout(9, at(4));
    child.mark_terminal(
        ChildSessionState::Failed,
        ChildSessionCompletion {
            success: false,
            summary: "too late".into(),
            error: None,
            artifacts: Vec::new(),
        },
        at(5),
    );
    assert_eq!(child.snapshot(), ended);
    assert_eq!(child.session_id(), "child-000001");
    assert_eq!(child.owner_key(), "a");
    assert_eq!(child.timeout_secs(), 7);
}

#[test]
fn an_agent_that_went_away_is_not_spawned() {
    let mut registry = ChildSessionRegistry::default();
    let list = [
        ("action", "spawn".into()),
        ("agent", "worker".into()),
        ("prompt", "p".into()),
    ];
    for (agents, message) in [
        (Vec::new(), "Unknown agent 'worker'"),
        (
            vec![named("worker", config("m", &[]))],
            "Agent 'worker' has agentic=true but no allowed_tools, so child sessions would be unbounded",
        ),
    ] {
        let later = ChildSessionTool::new(agents);
        let mut call = match tool().execute_with_context(args(&list), context("a")).unwrap() {
            ChildStart::Running(call) => call,
            ChildStart::Finished(_) => panic!("the call should ask first"),
        };
        while call.request().is_some() {
            call.advance(&later, &mut registry, &ChildReply::Allowed(Ok(())), at(1));
        }
        assert_eq!(failure(call.result().unwrap()), message);
    }
    assert!(registry.get("child-000001").is_none());
}

#[test]
fn child_arguments_are_checked() {
    let mut host = Host::new();
    let mut registry = ChildSessionRegistry::default();
    let id = spawn(&mut host, &mut registry, "worker", "a");
    let cases: Vec<(Vec<(&str, Value)>, &str)> = vec![
        (vec![("action", "spawn".into())], "Missing 'agent' parameter"),
        (
            vec![("action", "spawn".into()), ("agent", "worker".into())],
            "Missing 'prompt' parameter",
        ),
        (
            vec![
                ("action", "spawn".into()),
                ("agent", "worker".into()),
                ("prompt", "p".into()),
                ("timeout_secs", 901.into()),
            ],
            "'timeout_secs' must be between 1 and 900",
        ),
        (
            vec![
                ("action", "spawn".into()),
                ("agent", "nobody".into()),
                ("prompt", "p".into()),
            ],
            "Unknown agent 'nobody'",
        ),
        (
            vec![
                ("action", "wait".into()),
                ("session_id", id.as_str().into()),
                ("wait_timeout_secs", 0.into()),
            ],
            "'wait_timeout_secs' must be between 1 and 300",
        ),
        (
            vec![("action", "wait".into()), ("wait_timeout_secs", "soon".into())],
            "'wait_timeout_secs' must be an integer >= 1",
        ),
        (vec![("action", "status".into())], "Missing 'session_id' parameter"),
        (
            vec![("action", "dance".into())],
            "Unknown action 'dance'. Use spawn/status/wait/cancel.",
        ),
    ];
    for (list, message) in cases {
        let result = execute(&mut host, &mut registry, &list, context("a"));
        assert_eq!(failure(&result), message);
    }
    match tool().execute_with_context(args(&[]), context("a")) {
        Err(message) => assert_eq!(message, "Missing 'action' parameter"),
        Ok(_) => panic!("expected a refusal"),
    }
    let result = execute(&mut host, &mut registry, &[("action", "status".into())], None);
    assert_eq!(failure(&result), "child_session requires a conversation context");
    host.allowed = Err("read-only".into());
    let result = execute(
        &mut host,
        &mut registry,
        &[("action", "cancel".into()), ("session_id", id.as_str().into())],
        context("a"),
    );
    assert_eq!(failure(&result), "read-only");
    assert!(registry.get(&id).unwrap().is_running());
}

#[test]
fn operations_are_named_for_the_policy() {
    let mut host = Host::new();
    let mut registry = ChildSessionRegistry::default();
    let id = spawn(&mut host, &mut registry, "worker", "a");
    for (action, operation) in [
        ("status", ToolOperation::Read),
        ("wait", ToolOperation::Read),
        ("cancel", ToolOperation::Act),
    ] {
        host.requests.clear();
        execute(
            &mut host,
            &mut registry,
            &[("action", action.into()), ("session_id", id.as_str().into())],
            context("a"),
        );
        assert_eq!(
            host.requests[0],
            ChildRequest::Enforce {
                operation,
                name: format!("child_session.{action}")
            }
        );
    }
}

#[test]
fn agents_have_to_be_bounded() {
    let agents = vec![
        named("depth", DelegateAgentConfig { max_depth: 0, ..config("m", &["t"]) }),
        named("loops", DelegateAgentConfig { max_iterations: 0, ..config("m", &["t"]) }),
        named("free", config("m", &[])),
        named("plain", DelegateAgentConfig { agentic: false, ..config("m", &[]) }),
        named("twice", config("first", &["t"])),
        named("twice", config("second", &["t"])),
    ];
    assert_eq!(
        validate_agent(&agents, "depth").unwrap_err(),
        "Agent 'depth' must have max_depth > 0"
    );
    assert_eq!(
        validate_agent(&agents, "loops").unwrap_err(),
        "Agent 'loops' must have max_iterations > 0"
    );
    assert_eq!(
        validate_agent(&agents, "free").unwrap_err(),
        "Agent 'free' has agentic=true but no allowed_tools, so child sessions would be unbounded"
    );
    assert!(validate_agent(&agents, "plain").is_ok());
    assert_eq!(validate_agent(&agents, "twice").unwrap().model, "first");
}

#[test]
fn artifacts_are_paths_of_the_workspace() {
    let found = |text: &str| extract_workspace_paths(text, "/ws");
    assert_eq!(found("wrote `/ws/a.txt`, (\"/ws/b.txt\"); and /tmp/c.txt."), vec!["/ws/a.txt", "/ws/b.txt"]);
    assert_eq!(found("see /ws/a.txt! /ws/a.txt? /ws/a.txt..."), vec!["/ws/a.txt"]);
    assert_eq!(found("'/ws/a.txt.'"), vec!["/ws/a.txt"]);
    assert_eq!(found("x/ws/a"), Vec::<String>::new());
    assert_eq!(found("/wsx"), vec!["/wsx"]);
    let many: Vec<String> = (0..12).map(|n| format!("/ws/{n}")).collect();
    assert_eq!(found(&many.join(" ")), many[..8].to_vec());
}

#[test]
fn seconds_are_bounded() {
    let list = args(&[("a", 5.into()), ("b", 0.into()), ("c", 11.into()), ("d", true.into())]);
    assert_eq!(parse_bounded_secs(&list, "a", 1, 10), Ok(5));
    assert_eq!(parse_bounded_secs(&list, "missing", 1, 10), Ok(1));
    for key in ["b", "c"] {
        assert_eq!(
            parse_bounded_secs(&list, key, 1, 10).unwrap_err(),
            format!("'{key}' must be between 1 and 10")
        );
    }
    assert_eq!(
        parse_bounded_secs(&list, "d", 1, 10).unwrap_err(),
        "'d' must be an integer >= 1"
    );
}

#[test]
fn states_have_names() {
    let names: Vec<&str> = [
        ChildSessionState::Running,
        ChildSessionState::Completed,
        ChildSessionState::Failed,
        ChildSessionState::TimedOut,
        ChildSessionState::Cancelled,
    ]
    .into_iter()
    .map(child_state_name)
    .collect();
    assert_eq!(names, vec!["running", "completed", "failed", "timed_out", "cancelled"]);
}

#[test]
fn the_child_session_tool_describes_itself() {
    let tool = tool();
    assert_eq!(tool.name(), "child_session");
    assert!(tool.description().contains("Actions: spawn, status, wait, cancel."));
    let schema = Value::from(tool.parameters_schema());
    assert_eq!(schema["additionalProperties"], false);
    assert_eq!(schema["properties"]["action"]["enum"][3], "cancel");
    assert_eq!(schema["properties"]["timeout_secs"]["minimum"], 1);
    assert_eq!(schema["properties"].as_object().unwrap().len(), 7);
}
