use serde_json::Value;
use std::collections::{BTreeMap, BTreeSet};
use std::sync::Arc;
use zeroclaw_tools::apply_patch::document::PatchOperation;
use zeroclaw_tools::apply_patch::errors::PatchExecutionError;
use zeroclaw_tools::apply_patch::execution::{PatchExecutionSummary, PatchRun};
use zeroclaw_tools::apply_patch::parse::parse_patch_document;
use zeroclaw_tools::apply_patch::protocol::{FileEntry, HostReply, HostRequest, Resolution};
use zeroclaw_tools::apply_patch::targets::validate_requested_patch_path;
use zeroclaw_tools::apply_patch::tool::{format_patch_summary, ApplyPatchTool, PatchCall};
use zeroclaw_tools::host::tool::{SecurityPolicy, ToolResult};

/// A file system in memory, with a policy around it.
struct Host {
    paths: Vec<String>,
    files: BTreeMap<String, String>,
    directories: BTreeSet<String>,
    links: BTreeMap<String, String>,
    can_act: bool,
    rate_limited: bool,
    budget: bool,
    read_only: bool,
    changes: Vec<String>,
}

impl Host {
    fn new(files: &[(&str, &str)]) -> Host {
        let mut host = Host {
            paths: Vec::new(),
            files: BTreeMap::new(),
            directories: BTreeSet::new(),
            links: BTreeMap::new(),
            can_act: true,
            rate_limited: false,
            budget: true,
            read_only: false,
            changes: Vec::new(),
        };
        for directory in ["", "/workspace", "/workspace/src", "/outside"] {
            host.directories.insert(directory.to_string());
        }
        for (name, text) in files {
            host.files.insert(format!("/workspace/{name}"), text.to_string());
        }
        host
    }

    fn file(&self, name: &str) -> Option<&str> {
        self.files.get(&format!("/workspace/{name}")).map(String::as_str)
    }

    fn id(&mut self, path: String) -> usize {
        self.paths.push(path);
        self.paths.len() - 1
    }

    fn parent(path: &str) -> Option<String> {
        path.rfind('/').map(|at| path[..at].to_string())
    }

    fn resolved(&self, path: &str) -> String {
        for (link, target) in &self.links {
            if path == link {
                return target.clone();
            }
            let inside = format!("{link}/");
            if let Some(rest) = path.strip_prefix(&inside) {
                return format!("{target}/{rest}");
            }
        }
        path.to_string()
    }

    fn entry(&self, path: &str) -> FileEntry {
        if self.files.contains_key(path) {
            FileEntry::File
        } else if self.directories.contains(path) {
            FileEntry::Directory
        } else {
            FileEntry::Missing
        }
    }

    fn answer(&mut self, request: &HostRequest) -> HostReply {
        match request {
            HostRequest::CanAct => HostReply::Flag(self.can_act),
            HostRequest::RateLimited => HostReply::Flag(self.rate_limited),
            HostRequest::RecordAction => HostReply::Flag(self.budget),
            HostRequest::PathAllowed { path } => {
                HostReply::Flag(!path.contains("..") && !path.starts_with('/'))
            }
            HostRequest::Locate { workspace, path } => {
                let full = format!("{workspace}/{path}");
                let parent = Host::parent(&full).map(|parent| self.id(parent));
                HostReply::Place {
                    at: self.id(full),
                    parent,
                }
            }
            HostRequest::ParentOf { at } => {
                let parent = Host::parent(&self.paths[*at]).map(|parent| self.id(parent));
                HostReply::Path(parent)
            }
            HostRequest::Probe { at } => {
                let path = self.resolved(&self.paths[*at]);
                HostReply::Entry(self.entry(&path))
            }
            HostRequest::ProbeLink { at } => {
                if self.links.contains_key(&self.paths[*at]) {
                    return HostReply::Entry(FileEntry::Symlink);
                }
                let path = self.resolved(&self.paths[*at]);
                HostReply::Entry(self.entry(&path))
            }
            HostRequest::Resolve { at } => {
                let path = self.resolved(&self.paths[*at]);
                if self.entry(&path) == FileEntry::Missing {
                    HostReply::Resolved(Resolution::Failed {
                        reason: "no such file".into(),
                    })
                } else if path.starts_with("/workspace") {
                    let at = self.id(path);
                    HostReply::Resolved(Resolution::Allowed { at })
                } else {
                    HostReply::Resolved(Resolution::Denied { display: path })
                }
            }
            HostRequest::Read { at } => HostReply::Text(
                self.files
                    .get(&self.paths[*at])
                    .cloned()
                    .ok_or_else(|| "unreadable".to_string()),
            ),
            HostRequest::CreateDirectories { at } => {
                let mut path = self.paths[*at].clone();
                self.changes.push(format!("mkdir {path}"));
                loop {
                    self.directories.insert(path.clone());
                    match Host::parent(&path) {
                        Some(parent) => path = parent,
                        None => break,
                    }
                }
                HostReply::Done(Ok(()))
            }
            HostRequest::JoinFileName { directory, of } => {
                let name = self.paths[*of].rsplit('/').next().unwrap().to_string();
                let joined = format!("{}/{name}", self.paths[*directory]);
                HostReply::Path(Some(self.id(joined)))
            }
            HostRequest::Write { at, content } => {
                if self.read_only {
                    return HostReply::Done(Err("disk is read-only".into()));
                }
                let path = self.paths[*at].clone();
                self.changes.push(format!("write {path}"));
                self.files.insert(path, content.clone());
                HostReply::Done(Ok(()))
            }
            HostRequest::Remove { at } => {
                if self.read_only {
                    return HostReply::Done(Err("disk is read-only".into()));
                }
                let path = self.paths[*at].clone();
                self.changes.push(format!("remove {path}"));
                self.files.remove(&path);
                HostReply::Done(Ok(()))
            }
        }
    }
}

fn tool() -> ApplyPatchTool {
    ApplyPatchTool::new(Arc::new(SecurityPolicy {
        workspace_dir: "/workspace".into(),
        shell_env_passthrough: Vec::new(),
    }))
}

fn arguments(patch: &str) -> serde_json::Map<String, Value> {
    let mut args = serde_json::Map::new();
    args.insert("patch".to_string(), Value::from(patch));
    args
}

fn execute(host: &mut Host, patch: &str) -> ToolResult {
    match tool().execute(&arguments(patch)).unwrap() {
        PatchCall::Finished(result) => result,
        PatchCall::Running(mut run) => {
            while let Some(request) = run.request() {
                assert!(run.result().is_none());
                let reply = host.answer(&request);
                run.advance(reply);
            }
            run.result().expect("a run that asks for nothing has ended")
        }
    }
}

fn error(host: &mut Host, patch: &str) -> String {
    let result = execute(host, patch);
    assert!(!result.success);
    assert_eq!(result.output, "");
    result.error.unwrap()
}

#[test]
fn apply_patch_tool_applies_multi_file_patch_with_move_and_delete() {
    let mut host = Host::new(&[
        ("src/app.rs", "line one\nold value\nline two\n"),
        ("old.txt", "remove me"),
    ]);
    let patch = "\
*** Begin Patch
*** Add File: notes.txt
+hello
+world
*** Update File: src/app.rs
*** Move to: src/app_v2.rs
@@
 line one
-old value
+new value
 line two
*** Delete File: old.txt
*** End Patch";

    let result = execute(&mut host, patch);
    assert!(result.success, "patch should succeed: {:?}", result.error);
    assert!(result.output.contains("notes.txt"));
    assert!(result.output.contains("src/app.rs -> src/app_v2.rs"));
    assert!(result.output.contains("old.txt"));
    assert_eq!(
        result.output,
        "Applied patch touching 3 paths: notes.txt, src/app.rs -> src/app_v2.rs, old.txt"
    );

    assert_eq!(host.file("notes.txt"), Some("hello\nworld"));
    assert_eq!(
        host.file("src/app_v2.rs"),
        Some("line one\nnew value\nline two\n")
    );
    assert_eq!(host.file("src/app.rs"), None);
    assert_eq!(host.file("old.txt"), None);
}

#[test]
fn apply_patch_tool_handles_realistic_rust_module_refactor() {
    let mut host = Host::new(&[
        (
            "src/lib.rs",
            "mod worker;\n\npub fn run() -> String {\n    worker::handle(\"ready\")\n}\n",
        ),
        (
            "src/worker.rs",
            "pub fn handle(input: &str) -> String {\n    format!(\"handled:{input}\")\n}\n",
        ),
    ]);
    let patch = "\
*** Begin Patch
*** Update File: src/lib.rs
@@
-mod worker;
+mod processor;
 
 pub fn run() -> String {
-    worker::handle(\"ready\")
+    processor::format_status(\"ready\")
 }
*** Update File: src/worker.rs
*** Move to: src/processor.rs
@@
-pub fn handle(input: &str) -> String {
-    format!(\"handled:{input}\")
+pub fn format_status(input: &str) -> String {
+    format!(\"status:{input}\")
 }
*** End Patch";

    let result = execute(&mut host, patch);
    assert!(result.success, "patch should succeed: {:?}", result.error);
    assert!(result.output.contains("src/lib.rs"));
    assert!(result.output.contains("src/worker.rs -> src/processor.rs"));
    assert_eq!(
        host.file("src/lib.rs"),
        Some("mod processor;\n\npub fn run() -> String {\n    processor::format_status(\"ready\")\n}\n")
    );
    assert_eq!(
        host.file("src/processor.rs"),
        Some("pub fn format_status(input: &str) -> String {\n    format!(\"status:{input}\")\n}\n")
    );
    assert_eq!(host.file("src/worker.rs"), None);
}

#[test]
fn apply_patch_tool_rejects_invalid_grammar_without_mutation() {
    let mut host = Host::new(&[("keep.txt", "keep me")]);
    let patch = "\
*** Begin Patch
*** Add File: broken.txt
hello
*** End Patch";

    let result = execute(&mut host, patch);
    assert!(!result.success);
    assert!(result
        .error
        .as_deref()
        .unwrap_or("")
        .contains("add-file hunks must contain only '+' lines"));
    assert_eq!(host.file("keep.txt"), Some("keep me"));
    assert_eq!(host.file("broken.txt"), None);
}

#[test]
fn apply_patch_tool_denies_forbidden_path() {
    let mut host = Host::new(&[]);
    let patch = "\
*** Begin Patch
*** Add File: ../../etc/evil.txt
+nope
*** End Patch";

    let result = execute(&mut host, patch);
    assert!(!result.success);
    assert!(result
        .error
        .as_deref()
        .unwrap_or("")
        .contains("path not allowed by security policy"));
    assert!(host.changes.is_empty());
}

#[test]
fn apply_patch_tool_fails_closed_when_hunk_does_not_match() {
    let mut host = Host::new(&[("sample.txt", "line one\nline two\n")]);
    let patch = "\
*** Begin Patch
*** Update File: sample.txt
@@
 line one
-missing line
+new line
*** End Patch";

    let result = execute(&mut host, patch);
    assert!(!result.success);
    assert!(result
        .error
        .as_deref()
        .unwrap_or("")
        .contains("could not match hunk"));
    assert_eq!(host.file("sample.txt"), Some("line one\nline two\n"));
}

#[test]
fn a_missing_patch_is_refused() {
    let mut args = arguments("x");
    args.insert("patch".to_string(), Value::from(7));
    for args in [serde_json::Map::new(), args] {
        match tool().execute(&args) {
            Err(message) => assert_eq!(message, "Missing 'patch' parameter"),
            Ok(_) => panic!("expected a refusal"),
        }
    }
}

#[test]
fn nothing_changes_unless_every_operation_passes() {
    let mut host = Host::new(&[("a.txt", "a\n")]);
    let message = error(
        &mut host,
        "*** Begin Patch\n*** Add File: new.txt\n+x\n*** Delete File: a.txt\n*** Delete File: gone.txt\n*** End Patch",
    );
    assert_eq!(message, "patch target does not exist: gone.txt");
    assert!(host.changes.is_empty());
}

#[test]
fn policy_answers_stop_a_patch() {
    let patch = "*** Begin Patch\n*** Add File: new.txt\n+x\n*** End Patch";
    let mut host = Host::new(&[]);
    host.can_act = false;
    assert_eq!(error(&mut host, patch), "action blocked: autonomy is read-only");
    let mut host = Host::new(&[]);
    host.rate_limited = true;
    assert_eq!(
        error(&mut host, patch),
        "rate limit exceeded: too many actions in the last hour"
    );
    let mut host = Host::new(&[]);
    host.budget = false;
    assert_eq!(
        error(&mut host, patch),
        "rate limit exceeded: action budget exhausted"
    );
    assert!(host.changes.is_empty());
}

#[test]
fn new_files_get_their_directories() {
    let mut host = Host::new(&[]);
    let result = execute(
        &mut host,
        "*** Begin Patch\n*** Add File: deep/er/file.txt\n+x\n*** End Patch",
    );
    assert_eq!(result.output, "Applied patch touching: deep/er/file.txt");
    assert_eq!(host.file("deep/er/file.txt"), Some("x"));
    assert_eq!(
        host.changes,
        vec!["mkdir /workspace/deep/er", "write /workspace/deep/er/file.txt"]
    );
}

#[test]
fn targets_that_exist_are_not_overwritten() {
    let mut host = Host::new(&[("a.txt", "a\n"), ("b.txt", "b\n")]);
    assert_eq!(
        error(&mut host, "*** Begin Patch\n*** Add File: a.txt\n+x\n*** End Patch"),
        "add-file target already exists: a.txt"
    );
    assert_eq!(
        error(
            &mut host,
            "*** Begin Patch\n*** Update File: a.txt\n*** Move to: b.txt\n@@\n-a\n+c\n*** End Patch"
        ),
        "move destination already exists: b.txt"
    );
    assert_eq!(
        error(&mut host, "*** Begin Patch\n*** Add File: src\n+x\n*** End Patch"),
        "patch target must be a file: src"
    );
    assert_eq!(
        error(&mut host, "*** Begin Patch\n*** Delete File: src\n*** End Patch"),
        "patch target must be a file: src"
    );
    assert!(host.changes.is_empty());
}

#[test]
fn links_are_not_followed() {
    let mut host = Host::new(&[]);
    host.links
        .insert("/workspace/link.txt".into(), "/outside/secret.txt".into());
    host.links.insert("/workspace/linked".into(), "/outside".into());
    assert_eq!(
        error(&mut host, "*** Begin Patch\n*** Delete File: link.txt\n*** End Patch"),
        "refusing to modify through symlink: link.txt"
    );
    assert_eq!(
        error(&mut host, "*** Begin Patch\n*** Add File: linked/new.txt\n+x\n*** End Patch"),
        "resolved path escapes workspace or allowed_roots: /outside"
    );
    host.links.insert("/workspace/inside".into(), "/workspace/src".into());
    assert_eq!(
        error(&mut host, "*** Begin Patch\n*** Add File: inside/new.txt\n+x\n*** End Patch"),
        "refusing to modify through symlink: inside/new.txt"
    );
    assert!(host.changes.is_empty());
}

#[test]
fn failing_writes_and_removals_are_reported() {
    let mut host = Host::new(&[("a.txt", "a\n")]);
    host.read_only = true;
    assert_eq!(
        error(&mut host, "*** Begin Patch\n*** Delete File: a.txt\n*** End Patch"),
        "failed to delete a.txt: disk is read-only"
    );
    assert_eq!(
        error(
            &mut host,
            "*** Begin Patch\n*** Update File: a.txt\n*** Move to: c.txt\n@@\n-a\n+b\n*** End Patch"
        ),
        "failed to write c.txt: disk is read-only"
    );
}

#[test]
fn a_failure_stops_what_would_come_behind_it() {
    let patch = "*** Begin Patch\n*** Delete File: a.txt\n*** Delete File: b.txt\n\
                 *** Delete File: c.txt\n*** End Patch";
    let mut host = Host::new(&[("a.txt", "a\n"), ("b.txt", "b\n"), ("c.txt", "c\n")]);
    let mut run = match tool().execute(&arguments(patch)).unwrap() {
        PatchCall::Running(run) => run,
        PatchCall::Finished(_) => panic!("the patch should be carried out"),
    };
    while let Some(request) = run.request() {
        if matches!(request, HostRequest::Remove { .. }) {
            host.read_only = !host.changes.is_empty();
        }
        let reply = host.answer(&request);
        run.advance(reply);
    }
    let result = run.result().unwrap();
    assert_eq!(result.error.as_deref(), Some("failed to delete b.txt: disk is read-only"));
    assert_eq!(host.changes, vec!["remove /workspace/a.txt".to_string()]);
    assert!(host.file("b.txt").is_some() && host.file("c.txt").is_some());
}

#[test]
fn an_answer_to_another_question_changes_nothing() {
    let document =
        parse_patch_document("*** Begin Patch\n*** Delete File: a.txt\n*** End Patch").unwrap();
    assert!(matches!(document.operations[0], PatchOperation::Delete(_)));
    let mut run = PatchRun::start("/workspace".into(), document);
    run.advance(HostReply::Done(Ok(())));
    assert_eq!(run.request(), Some(HostRequest::CanAct));
    run.advance(HostReply::Flag(true));
    run.advance(HostReply::Path(None));
    assert_eq!(run.request(), Some(HostRequest::RateLimited));
    run.advance(HostReply::Flag(true));
    assert_eq!(run.request(), None);
    let ended = run.result();
    run.advance(HostReply::Flag(false));
    assert_eq!(run.request(), None);
    assert_eq!(run.result(), ended);
}

#[test]
fn every_execution_error_reads_as_a_sentence() {
    let p = || "p".to_string();
    let r = || "r".to_string();
    let cases = vec![
        (PatchExecutionError::ReadOnly, "action blocked: autonomy is read-only"),
        (
            PatchExecutionError::RateLimited,
            "rate limit exceeded: too many actions in the last hour",
        ),
        (
            PatchExecutionError::ActionBudgetExhausted,
            "rate limit exceeded: action budget exhausted",
        ),
        (
            PatchExecutionError::DisallowedPath { path: p() },
            "path not allowed by security policy: p",
        ),
        (
            PatchExecutionError::ResolvedPathDenied { path: p() },
            "resolved path escapes workspace or allowed_roots: p",
        ),
        (
            PatchExecutionError::InvalidPath { path: p(), reason: r() },
            "invalid patch target 'p': r",
        ),
        (
            PatchExecutionError::SymlinkDenied { path: p() },
            "refusing to modify through symlink: p",
        ),
        (PatchExecutionError::NotAFile { path: p() }, "patch target must be a file: p"),
        (
            PatchExecutionError::MissingTarget { path: p() },
            "patch target does not exist: p",
        ),
        (
            PatchExecutionError::TargetExists { path: p() },
            "add-file target already exists: p",
        ),
        (
            PatchExecutionError::MoveDestinationExists { path: p() },
            "move destination already exists: p",
        ),
        (
            PatchExecutionError::ReadFailed { path: p(), reason: r() },
            "failed to read p: r",
        ),
        (
            PatchExecutionError::ResolveFailed { path: p(), reason: r() },
            "failed to resolve path p: r",
        ),
        (
            PatchExecutionError::CreateParentFailed { path: p(), reason: r() },
            "failed to create parent directories for p: r",
        ),
        (
            PatchExecutionError::WriteFailed { path: p(), reason: r() },
            "failed to write p: r",
        ),
        (
            PatchExecutionError::DeleteFailed { path: p(), reason: r() },
            "failed to delete p: r",
        ),
        (
            PatchExecutionError::HunkApplyFailed { path: p(), reason: r() },
            "patch hunk could not be applied to p: r",
        ),
        (
            PatchExecutionError::HunkAmbiguous { path: p(), reason: r() },
            "patch hunk is ambiguous in p: r",
        ),
    ];
    for (error, text) in cases {
        assert_eq!(error.to_text(), text);
    }
}

#[test]
fn summaries_count_what_was_touched() {
    let summary = |list: &[&str]| {
        format_patch_summary(&PatchExecutionSummary {
            affected_paths: list.iter().map(|path| path.to_string()).collect(),
        })
    };
    assert_eq!(summary(&[]), "Applied patch with no file changes.");
    assert_eq!(summary(&["a"]), "Applied patch touching: a");
    assert_eq!(summary(&["a", "b"]), "Applied patch touching 2 paths: a, b");
}

#[test]
fn requested_paths_are_checked_first() {
    assert!(validate_requested_patch_path(true, "a").is_ok());
    assert_eq!(
        validate_requested_patch_path(false, "a").unwrap_err(),
        PatchExecutionError::DisallowedPath { path: "a".into() }
    );
}

#[test]
fn the_patch_tool_describes_itself() {
    let tool = tool();
    assert_eq!(tool.name(), "apply_patch");
    assert!(tool.description().starts_with("Apply a structured multi-file patch"));
    let schema = Value::from(tool.parameters_schema());
    assert_eq!(schema["type"], "object");
    assert_eq!(schema["properties"]["patch"]["type"], "string");
    assert_eq!(schema["required"][0], "patch");
    assert!(schema.get("additionalProperties").is_none());
}
