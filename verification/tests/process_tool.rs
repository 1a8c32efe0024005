use serde_json::Value;
use std::sync::Arc;
use zeroclaw_tools::host::time::Timestamp;
use zeroclaw_tools::host::tool::{
    SecurityPolicy, ToolExecutionContext, ToolOperation, ToolResult,
};
use zeroclaw_tools::process::documents::exit_state_json;
use zeroclaw_tools::process::environment::{
    collect_allowed_shell_env_vars, is_valid_env_var_name,
};
use zeroclaw_tools::process::protocol::{ProcessReply, ProcessRequest};
use zeroclaw_tools::process::tool::{
    parse_offset, summarize_command, ProcessCall, ProcessStart, ProcessTool, RuntimeProfile,
};
use zeroclaw_tools::process_sessions::cleanup::SessionRequest;
use zeroclaw_tools::process_sessions::registry::{
    ProcessSessionRegistry, ProcessSessionRegistryLimits,
};
use zeroclaw_tools::process_sessions::session::{
    ExitStatus, KillReply, ProcessExitState, ProcessProbe, StdinWrite, StreamKind, StreamRead,
};

type Arguments = serde_json::Map<String, Value>;

const SECOND: u128 = 1_000_000_000;

fn at(secs: i64) -> Timestamp {
    Timestamp::at(secs, 0).unwrap()
}

fn args(list: &[(&str, Value)]) -> Arguments {
    let mut args = serde_json::Map::new();
    for (key, value) in list {
        args.insert(key.to_string(), value.clone());
    }
    args
}

fn security() -> Arc<SecurityPolicy> {
    Arc::new(SecurityPolicy {
        workspace_dir: "/workspace".into(),
        shell_env_passthrough: vec!["EXTRA".into(), " PATH ".into(), "1BAD".into()],
    })
}

fn tool(supports_long_running: bool) -> ProcessTool {
    ProcessTool::new(
        security(),
        RuntimeProfile {
            name: "test-runtime".into(),
            supports_long_running,
        },
    )
}

fn context(owner: &str) -> Option<ToolExecutionContext> {
    Some(ToolExecutionContext {
        owner_key: Some(owner.into()),
        channel_name: Some("cli".into()),
        reply_target: Some("stdout".into()),
    })
}

/// A program around the tool whose answers are all in its favour, unless they
/// are changed.
struct Host {
    rate_limited: bool,
    validated: Result<(), String>,
    forbidden: Option<String>,
    budget: bool,
    built: Result<(), String>,
    spawned: Result<bool, String>,
    enforced: Result<(), String>,
    written: StdinWrite,
    probe: ProcessProbe,
    requests: Vec<ProcessRequest>,
}

impl Host {
    fn new() -> Host {
        Host {
            rate_limited: false,
            validated: Ok(()),
            forbidden: None,
            budget: true,
            built: Ok(()),
            spawned: Ok(true),
            enforced: Ok(()),
            written: StdinWrite::Written,
            probe: ProcessProbe::Running,
            requests: Vec::new(),
        }
    }

    fn answer(&mut self, request: ProcessRequest) -> ProcessReply {
        let reply = match &request {
            ProcessRequest::Session(SessionRequest::Probe { .. }) => {
                ProcessReply::Session(KillReply::Probed(self.probe.clone()))
            }
            ProcessRequest::Session(SessionRequest::Kill { .. }) => {
                ProcessReply::Session(KillReply::Killed(Ok(())))
            }
            ProcessRequest::Session(SessionRequest::Wait { .. }) => {
                ProcessReply::Session(KillReply::Waited(Ok(ExitStatus {
                    success: false,
                    code: None,
                })))
            }
            ProcessRequest::RateLimited => ProcessReply::Flag(self.rate_limited),
            ProcessRequest::ValidateCommand { .. } => ProcessReply::Done(self.validated.clone()),
            ProcessRequest::ForbiddenPath { .. } => ProcessReply::Path(self.forbidden.clone()),
            ProcessRequest::RecordAction => ProcessReply::Flag(self.budget),
            ProcessRequest::BuildCommand { .. } => ProcessReply::Done(self.built.clone()),
            ProcessRequest::Spawn { .. } => ProcessReply::Spawned(self.spawned.clone()),
            ProcessRequest::Enforce { .. } => ProcessReply::Done(self.enforced.clone()),
            ProcessRequest::Write { .. } => ProcessReply::Written(self.written.clone()),
        };
        self.requests.push(request);
        reply
    }
}

fn execute_at(
    host: &mut Host,
    tool: &ProcessTool,
    registry: &mut ProcessSessionRegistry,
    args: Arguments,
    context: Option<ToolExecutionContext>,
    now: Timestamp,
) -> ToolResult {
    match tool.execute_with_context(registry, args, context, now).unwrap() {
        ProcessStart::Finished(result) => result,
        ProcessStart::Running(mut call) => {
            while let Some(request) = call.request(tool) {
                assert!(call.result().is_none());
                let reply = host.answer(request);
                call.advance(tool, registry, &reply, now);
            }
            call.result().unwrap().clone()
        }
    }
}

fn execute(
    host: &mut Host,
    registry: &mut ProcessSessionRegistry,
    list: &[(&str, Value)],
    owner: &str,
) -> ToolResult {
    execute_at(host, &tool(true), registry, args(list), context(owner), at(100))
}

fn output(result: &ToolResult) -> Value {
    assert!(result.success, "call should succeed: {:?}", result.error);
    serde_json::from_str(&result.output).expect("tool output should be valid JSON")
}

fn failure(result: &ToolResult) -> String {
    assert!(!result.success);
    assert_eq!(result.output, "");
    result.error.clone().unwrap()
}

fn start(host: &mut Host, registry: &mut ProcessSessionRegistry, owner: &str) -> String {
    start_command(host, registry, "sleep 30", owner)
}

fn start_command(
    host: &mut Host,
    registry: &mut ProcessSessionRegistry,
    command: &str,
    owner: &str,
) -> String {
    let result = execute(
        host,
        registry,
        &[("action", "start".into()), ("command", command.into())],
        owner,
    );
    output(&result)["session"]["session_id"].as_str().unwrap().to_string()
}

fn read(registry: &mut ProcessSessionRegistry, id: &str, text: &str) {
    let read = StreamRead::Data(text.as_bytes().to_vec());
    assert!(registry.stream_read(id, StreamKind::Stdout, &read, at(101)));
}

#[test]
fn process_tool_supports_start_status_poll_write_and_kill() {
    let command = "python3 -c 'import sys,time; print(\"ready\", flush=True); line = sys.stdin.readline().strip(); print(f\"got:{line}\", flush=True); time.sleep(30)'";
    let mut host = Host::new();
    let mut registry = ProcessSessionRegistry::default();
    let started = execute(
        &mut host,
        &mut registry,
        &[
            ("action", "start".into()),
            ("command", command.into()),
        ],
        "conversation-a",
    );
    let start_json = output(&started);
    assert_eq!(start_json["action"], "start");
    assert_eq!(
        start_json["session"]["command_summary"].as_str().unwrap(),
        command.chars().take(119).collect::<String>() + "\u{2026}"
    );
    assert_eq!(start_json["session"]["started_at"], "1970-01-01T00:01:40+00:00");
    assert_eq!(start_json["session"]["completed_at"], Value::Null);
    assert_eq!(start_json["session"]["has_stdin"], true);
    let session_id = start_json["session"]["session_id"].as_str().unwrap().to_string();
    assert_eq!(session_id, "proc-000001");

    read(&mut registry, &session_id, "ready\n");
    let status = execute(
        &mut host,
        &mut registry,
        &[("action", "status".into()), ("session_id", session_id.as_str().into())],
        "conversation-a",
    );
    let status_json = output(&status);
    assert_eq!(status_json["session"]["exit_state"]["state"], "running");
    assert!(status_json["session"]["stdout_total_bytes"].as_u64().unwrap() >= 6);
    assert!(status_json["session"].get("stdout").is_none());

    let first_poll = execute(
        &mut host,
        &mut registry,
        &[
            ("action", "poll".into()),
            ("session_id", session_id.as_str().into()),
            ("stdout_offset", 0.into()),
            ("stderr_offset", 0.into()),
        ],
        "conversation-a",
    );
    let first_poll_json = output(&first_poll);
    assert_eq!(first_poll_json["session"]["stdout"]["content"], "ready\n");
    let stdout_offset = first_poll_json["session"]["stdout"]["next_offset"].as_u64().unwrap();

    let write = execute(
        &mut host,
        &mut registry,
        &[
            ("action", "write".into()),
            ("session_id", session_id.as_str().into()),
            ("input", "ping\n".into()),
        ],
        "conversation-a",
    );
    assert!(write.success, "write should succeed: {:?}", write.error);
    assert_eq!(output(&write)["has_stdin"], true);
    assert_eq!(
        host.requests.last().unwrap(),
        &ProcessRequest::Write {
            session_id: session_id.clone(),
            input: "ping\n".into()
        }
    );

    read(&mut registry, &session_id, "got:ping\n");
    let second_poll = execute(
        &mut host,
        &mut registry,
        &[
            ("action", "poll".into()),
            ("session_id", session_id.as_str().into()),
            ("stdout_offset", stdout_offset.into()),
            ("stderr_offset", 0.into()),
        ],
        "conversation-a",
    );
    let second_poll_json = output(&second_poll);
    assert_eq!(second_poll_json["session"]["stdout"]["content"], "got:ping\n");
    assert_eq!(second_poll_json["session"]["stdout"]["missed_output"], false);
    assert_eq!(second_poll_json["session"]["stderr"]["content"], "");

    let kill = execute(
        &mut host,
        &mut registry,
        &[("action", "kill".into()), ("session_id", session_id.as_str().into())],
        "conversation-a",
    );
    assert!(kill.success, "kill should succeed: {:?}", kill.error);
    let kill_json = output(&kill);
    assert_eq!(kill_json["exit_state"]["state"], "exited");
    assert_eq!(kill_json["exit_state"]["success"], false);
    assert_eq!(kill_json["exit_state"]["code"], Value::Null);
    assert_eq!(kill_json["session_id"], "proc-000001");
    assert_eq!(kill_json["completed_at"], "1970-01-01T00:01:40+00:00");

    let log = execute(
        &mut host,
        &mut registry,
        &[("action", "log".into()), ("session_id", session_id.as_str().into())],
        "conversation-a",
    );
    let log_json = output(&log);
    assert_eq!(log_json["session"]["stdout"]["content"], "ready\ngot:ping\n");
    assert_eq!(log_json["session"]["stdout"]["total_bytes"], 15);
    assert_eq!(log_json["session"]["stdout"]["truncated"], false);
}

#[test]
fn process_tool_rejects_runtime_without_long_running_support() {
    let mut registry = ProcessSessionRegistry::default();
    let result = execute_at(
        &mut Host::new(),
        &tool(false),
        &mut registry,
        args(&[
            ("action", "start".into()),
            ("command", "python3 -c 'print(\"hello\")'".into()),
        ]),
        context("conversation-a"),
        at(0),
    );
    assert!(!result.success);
    assert!(result
        .error
        .as_deref()
        .unwrap_or("")
        .contains("does not support long-running process sessions"));
    assert_eq!(
        failure(&result),
        "Runtime 'test-runtime' does not support long-running process sessions"
    );
}

#[test]
fn process_tool_denies_cross_conversation_access() {
    let mut host = Host::new();
    let mut registry = ProcessSessionRegistry::default();
    let session_id = start_command(
        &mut host,
        &mut registry,
        "python3 -c 'import time; print(\"hello\", flush=True); time.sleep(30)'",
        "conversation-a",
    );
    for action in ["status", "poll", "log", "write", "kill"] {
        let denied = execute(
            &mut host,
            &mut registry,
            &[
                ("action", action.into()),
                ("session_id", session_id.as_str().into()),
                ("input", "x".into()),
            ],
            "conversation-b",
        );
        assert!(!denied.success);
        assert!(denied.error.as_deref().unwrap_or("").contains("not found"));
        let unknown = execute(
            &mut host,
            &mut registry,
            &[
                ("action", action.into()),
                ("session_id", "proc-000009".into()),
                ("input", "x".into()),
            ],
            "conversation-a",
        );
        assert_eq!(failure(&unknown), "process session 'proc-000009' not found");
    }
    assert!(registry.get(&session_id).unwrap().is_running());
}

#[test]
fn process_tool_rejects_start_when_running_session_limit_is_reached() {
    let mut host = Host::new();
    let mut registry = ProcessSessionRegistry::with_limits(
        64 * 1024,
        32 * 1024,
        ProcessSessionRegistryLimits {
            max_running_sessions: 1,
            completed_retention: 60 * SECOND,
            idle_retention: 60 * SECOND,
        },
    );
    start_command(
        &mut host,
        &mut registry,
        "python3 -c 'import time; print(\"first\", flush=True); time.sleep(30)'",
        "conversation-a",
    );
    let second = execute(
        &mut host,
        &mut registry,
        &[
            ("action", "start".into()),
            (
                "command",
                "python3 -c 'import time; print(\"second\", flush=True); time.sleep(30)'".into(),
            ),
        ],
        "conversation-a",
    );
    assert!(!second.success);
    assert!(second
        .error
        .as_deref()
        .unwrap_or("")
        .contains("capacity exceeded"));
}

#[test]
fn a_call_tells_which_session_it_started() {
    let mut host = Host::new();
    let mut registry = ProcessSessionRegistry::default();
    let tool = tool(true);
    let args = args(&[("action", "start".into()), ("command", "ls".into())]);
    match tool.execute_with_context(&mut registry, args, context("a"), at(100)) {
        Ok(ProcessStart::Running(mut call)) => {
            while let Some(request) = call.request(&tool) {
                assert_eq!(call.started_session(), None);
                let reply = host.answer(request);
                call.advance(&tool, &mut registry, &reply, at(100));
            }
            assert_eq!(call.started_session().map(|id| id.as_str()), Some("proc-000001"));
            assert!(registry.get("proc-000001").is_some());
        }
        _ => panic!("a start should ask"),
    }
}

#[test]
fn a_start_asks_in_order() {
    let mut host = Host::new();
    let mut registry = ProcessSessionRegistry::default();
    let result = execute(
        &mut host,
        &mut registry,
        &[
            ("action", "start".into()),
            ("command", " ls ".into()),
            ("approved", true.into()),
        ],
        "a",
    );
    assert!(result.success);
    assert_eq!(
        host.requests,
        vec![
            ProcessRequest::RateLimited,
            ProcessRequest::ValidateCommand {
                command: "ls".into(),
                approved: true
            },
            ProcessRequest::ForbiddenPath {
                command: "ls".into()
            },
            ProcessRequest::RecordAction,
            ProcessRequest::BuildCommand {
                command: "ls".into(),
                workspace_dir: "/workspace".into()
            },
            ProcessRequest::Spawn {
                environment: collect_allowed_shell_env_vars(&security().shell_env_passthrough)
            },
        ]
    );
}

#[test]
fn every_refusal_of_a_start_says_why() {
    let cases: Vec<(Box<dyn Fn(&mut Host)>, &str)> = vec![
        (
            Box::new(|host| host.rate_limited = true),
            "Rate limit exceeded: too many actions in the last hour",
        ),
        (Box::new(|host| host.validated = Err("not allowed".into())), "not allowed"),
        (
            Box::new(|host| host.forbidden = Some("/etc".into())),
            "Path blocked by security policy: /etc",
        ),
        (
            Box::new(|host| host.budget = false),
            "Rate limit exceeded: action budget exhausted",
        ),
        (
            Box::new(|host| host.built = Err("no shell".into())),
            "Failed to build runtime command: no shell",
        ),
        (
            Box::new(|host| host.spawned = Err("no memory".into())),
            "Failed to spawn background process: no memory",
        ),
    ];
    for (change, message) in cases {
        let mut host = Host::new();
        change(&mut host);
        let mut registry = ProcessSessionRegistry::default();
        let result = execute(
            &mut host,
            &mut registry,
            &[("action", "start".into()), ("command", "ls".into())],
            "a",
        );
        assert_eq!(failure(&result), message);
        assert!(registry.session_ids().is_empty());
    }
}

#[test]
fn arguments_are_checked() {
    let mut host = Host::new();
    let mut registry = ProcessSessionRegistry::default();
    let id = start(&mut host, &mut registry, "a");
    let cases: Vec<(Vec<(&str, Value)>, &str)> = vec![
        (vec![("action", "start".into())], "Missing 'command' parameter"),
        (
            vec![("action", "start".into()), ("command", "  ".into())],
            "Missing 'command' parameter",
        ),
        (vec![("action", "log".into())], "Missing 'session_id' parameter"),
        (
            vec![
                ("action", "poll".into()),
                ("session_id", id.as_str().into()),
                ("stdout_offset", "x".into()),
            ],
            "'stdout_offset' must be an integer >= 0",
        ),
        (
            vec![
                ("action", "poll".into()),
                ("session_id", id.as_str().into()),
                ("stderr_offset", (-1).into()),
            ],
            "'stderr_offset' must be an integer >= 0",
        ),
        (
            vec![("action", "write".into()), ("session_id", id.as_str().into())],
            "write action requires non-empty 'input' or close_stdin=true",
        ),
        (
            vec![("action", "dance".into())],
            "Unknown action 'dance'. Use start/status/poll/log/write/kill.",
        ),
    ];
    for (list, message) in cases {
        assert_eq!(failure(&execute(&mut host, &mut registry, &list, "a")), message);
    }
    let tool = tool(true);
    match tool.execute_with_context(&registry, args(&[]), context("a"), at(0)) {
        Err(message) => assert_eq!(message, "Missing 'action' parameter"),
        Ok(_) => panic!("expected a refusal"),
    }
    let result = execute_at(
        &mut host,
        &tool,
        &mut registry,
        args(&[("action", "status".into())]),
        None,
        at(0),
    );
    assert_eq!(failure(&result), "process tool requires a conversation context");
}

#[test]
fn the_policy_is_asked_before_writing_and_killing() {
    let mut host = Host::new();
    let mut registry = ProcessSessionRegistry::default();
    let id = start(&mut host, &mut registry, "a");
    host.enforced = Err("read-only".into());
    for (action, name) in [("write", "process.write"), ("kill", "process.kill")] {
        let result = execute(
            &mut host,
            &mut registry,
            &[
                ("action", action.into()),
                ("session_id", id.as_str().into()),
                ("close_stdin", true.into()),
            ],
            "a",
        );
        assert_eq!(failure(&result), "read-only");
        assert_eq!(
            host.requests.last().unwrap(),
            &ProcessRequest::Enforce {
                operation: ToolOperation::Act,
                name: name.into()
            }
        );
    }
    assert!(registry.get(&id).unwrap().has_stdin());
    assert!(registry.get(&id).unwrap().is_running());
}

#[test]
fn stdin_is_closed_on_request() {
    let mut host = Host::new();
    let mut registry = ProcessSessionRegistry::default();
    let id = start(&mut host, &mut registry, "a");
    let list = [
        ("action", Value::from("write")),
        ("session_id", id.as_str().into()),
        ("input", "last".into()),
        ("close_stdin", true.into()),
    ];
    let closed = execute(&mut host, &mut registry, &list, "a");
    assert_eq!(output(&closed)["has_stdin"], false);
    let again = execute(&mut host, &mut registry, &list, "a");
    assert_eq!(
        failure(&again),
        "process session 'proc-000001' does not expose stdin"
    );
    let only_close = execute(
        &mut host,
        &mut registry,
        &[
            ("action", "write".into()),
            ("session_id", id.as_str().into()),
            ("close_stdin", true.into()),
        ],
        "a",
    );
    assert_eq!(output(&only_close)["action"], "write");
}

#[test]
fn a_failed_write_is_an_error() {
    let mut host = Host::new();
    let mut registry = ProcessSessionRegistry::default();
    let id = start(&mut host, &mut registry, "a");
    host.written = StdinWrite::Failed {
        reason: "broken pipe".into(),
    };
    let result = execute(
        &mut host,
        &mut registry,
        &[
            ("action", "write".into()),
            ("session_id", id.as_str().into()),
            ("input", "x".into()),
        ],
        "a",
    );
    assert_eq!(
        failure(&result),
        "failed to write to process session 'proc-000001': broken pipe"
    );
    host.written = StdinWrite::Closed;
    let result = execute(
        &mut host,
        &mut registry,
        &[
            ("action", "write".into()),
            ("session_id", id.as_str().into()),
            ("input", "x".into()),
        ],
        "a",
    );
    assert_eq!(
        failure(&result),
        "process session 'proc-000001' does not expose stdin"
    );
}

#[test]
fn calls_begin_with_a_clean_up() {
    let mut host = Host::new();
    let mut registry = ProcessSessionRegistry::with_limits(
        16,
        16,
        ProcessSessionRegistryLimits {
            max_running_sessions: 4,
            completed_retention: 10 * SECOND,
            idle_retention: 10 * SECOND,
        },
    );
    let id = start(&mut host, &mut registry, "a");
    let result = execute_at(
        &mut host,
        &tool(true),
        &mut registry,
        args(&[("action", "status".into()), ("session_id", id.as_str().into())]),
        context("a"),
        at(110),
    );
    assert_eq!(failure(&result), "process session 'proc-000001' not found");
    assert!(registry.session_ids().is_empty());
}

#[test]
fn exits_are_told_when_they_are_seen() {
    let mut host = Host::new();
    let mut registry = ProcessSessionRegistry::default();
    let id = start(&mut host, &mut registry, "a");
    host.probe = ProcessProbe::Exited(ExitStatus {
        success: false,
        code: Some(7),
    });
    let result = execute(
        &mut host,
        &mut registry,
        &[("action", "status".into()), ("session_id", id.as_str().into())],
        "a",
    );
    let told = output(&result);
    assert_eq!(told["session"]["exit_state"]["state"], "exited");
    assert_eq!(told["session"]["exit_state"]["code"], 7);
    let killed = execute(
        &mut host,
        &mut registry,
        &[("action", "kill".into()), ("session_id", id.as_str().into())],
        "a",
    );
    assert_eq!(output(&killed)["exit_state"]["code"], 7);
}

#[test]
fn exit_states_are_told_as_json() {
    let running = Value::from(exit_state_json(&ProcessExitState::Running));
    assert_eq!(running.to_string(), r#"{"state":"running"}"#);
    let failed = Value::from(exit_state_json(&ProcessExitState::Failed {
        reason: "lost".into(),
    }));
    assert_eq!(failed["state"], "failed");
    assert_eq!(failed["reason"], "lost");
    let exited = Value::from(exit_state_json(&ProcessExitState::Exited {
        success: true,
        code: Some(-1),
    }));
    assert_eq!(exited["code"], -1);
    assert_eq!(exited["success"], true);
}

#[test]
fn environment_names_are_valid_and_distinct() {
    for name in ["PATH", "_", "a1_B"] {
        assert!(is_valid_env_var_name(name));
    }
    for name in ["", "1A", "A-B", "Ä", "A B"] {
        assert!(!is_valid_env_var_name(name));
    }
    assert_eq!(
        collect_allowed_shell_env_vars(&security().shell_env_passthrough),
        vec![
            "PATH", "HOME", "TERM", "LANG", "LC_ALL", "LC_CTYPE", "USER", "SHELL", "TMPDIR",
            "EXTRA"
        ]
    );
}

#[test]
fn commands_are_summarized() {
    assert_eq!(summarize_command(" ls -l "), "ls -l");
    let long = "x".repeat(121);
    let short = summarize_command(&long);
    assert_eq!(short.chars().count(), 120);
    assert!(short.ends_with("x…"));
    assert_eq!(summarize_command(&"x".repeat(120)), "x".repeat(120));
}

#[test]
fn offsets_default_to_the_beginning() {
    assert_eq!(parse_offset(&args(&[]), "stdout_offset"), Ok(0));
    let list = args(&[("stdout_offset", 12.into()), ("big", u64::MAX.into())]);
    assert_eq!(parse_offset(&list, "stdout_offset"), Ok(12));
    assert_eq!(parse_offset(&list, "big"), Ok(usize::MAX));
    let list = args(&[("x", Value::Null)]);
    assert_eq!(
        parse_offset(&list, "x").unwrap_err(),
        "'x' must be an integer >= 0"
    );
}

#[test]
fn the_process_tool_describes_itself() {
    let tool = tool(true);
    assert_eq!(tool.name(), "process");
    assert!(tool.description().contains("Actions: start, status, poll, log, write, kill."));
    let schema = Value::from(tool.parameters_schema());
    assert_eq!(schema["additionalProperties"], false);
    assert_eq!(schema["properties"]["action"]["enum"][5], "kill");
    assert_eq!(schema["properties"]["stdout_offset"]["minimum"], 0);
    assert_eq!(schema["properties"]["close_stdin"]["default"], false);
    assert_eq!(schema["properties"].as_object().unwrap().len(), 8);
    assert_eq!(schema["required"][0], "action");
}

/// A call, after the policy and the clean-up let it go on.
fn begun(registry: &mut ProcessSessionRegistry, list: &[(&str, Value)]) -> ProcessCall {
    let tool = tool(true);
    let mut host = Host::new();
    match tool.execute_with_context(registry, args(list), context("a"), at(100)) {
        Ok(ProcessStart::Running(mut call)) => {
            let mut looks = 0;
            while let Some(request) = call.request(&tool) {
                let probe = matches!(
                    request,
                    ProcessRequest::Session(SessionRequest::Probe { .. })
                );
                if matches!(request, ProcessRequest::Write { .. }) || (probe && looks == 1) {
                    break;
                }
                if probe {
                    looks += 1;
                }
                let reply = host.answer(request);
                call.advance(&tool, registry, &reply, at(100));
            }
            call
        }
        _ => panic!("the call should ask"),
    }
}

#[test]
fn a_call_outlives_the_listing_of_its_session() {
    let tool = tool(true);
    let mut registry = ProcessSessionRegistry::default();
    let id = start(&mut Host::new(), &mut registry, "a");
    let list = [("action", Value::from("status")), ("session_id", id.as_str().into())];
    let mut call = begun(&mut registry, &list);
    registry.remove(&id);
    let reply = ProcessReply::Session(KillReply::Probed(ProcessProbe::Running));
    call.advance(&tool, &mut registry, &reply, at(101));
    let told = output(call.result().unwrap());
    assert_eq!(told["session"]["session_id"], id.as_str());
    assert_eq!(told["session"]["exit_state"]["state"], "running");
    let result = execute(&mut Host::new(), &mut registry, &list, "a");
    assert_eq!(failure(&result), "process session 'proc-000001' not found");
}

#[test]
fn a_write_that_succeeded_is_told_as_such() {
    let tool = tool(true);
    let mut registry = ProcessSessionRegistry::default();
    let id = start(&mut Host::new(), &mut registry, "a");
    let mut call = begun(
        &mut registry,
        &[
            ("action", "write".into()),
            ("session_id", id.as_str().into()),
            ("input", "x".into()),
        ],
    );
    registry.close_stdin(&id, at(101));
    call.advance(
        &tool,
        &mut registry,
        &ProcessReply::Written(StdinWrite::Written),
        at(102),
    );
    assert_eq!(output(call.result().unwrap())["has_stdin"], false);
}

#[test]
fn two_kills_tell_the_same_end() {
    let tool = tool(true);
    let mut registry = ProcessSessionRegistry::default();
    let id = start(&mut Host::new(), &mut registry, "a");
    let list = [("action", Value::from("kill")), ("session_id", id.as_str().into())];
    let mut first = begun(&mut registry, &list);
    assert_eq!(first.killing(), Some(id.clone()));
    let looked = ProcessReply::Session(KillReply::Probed(ProcessProbe::Running));
    // The clean-up of the second call waits for the first kill already.
    let mut second = match tool.execute_with_context(&registry, args(&list), context("a"), at(100))
    {
        Ok(ProcessStart::Running(call)) => call,
        _ => panic!("the call should ask"),
    };
    let asked = second.request(&tool);
    second.advance(&tool, &mut registry, &looked, at(101));
    assert_eq!(second.request(&tool), asked);
    assert_eq!(second.killing(), None);
    first.advance(&tool, &mut registry, &looked, at(101));
    first.advance(
        &tool,
        &mut registry,
        &ProcessReply::Session(KillReply::Killed(Ok(()))),
        at(102),
    );
    let gone = KillReply::Waited(Ok(ExitStatus {
        success: false,
        code: Some(9),
    }));
    first.advance(&tool, &mut registry, &ProcessReply::Session(gone), at(103));
    second.advance(&tool, &mut registry, &looked, at(104));
    second.advance(&tool, &mut registry, &ProcessReply::Done(Ok(())), at(104));
    let one = output(first.result().unwrap());
    let two = output(second.result().unwrap());
    assert_eq!(one["exit_state"]["code"], 9);
    assert_eq!(two["exit_state"], one["exit_state"]);
    assert_eq!(two["completed_at"], one["completed_at"]);
}
