use zeroclaw_tools::apply_patch::document::{
    AddFileOperation, DeleteFileOperation, PatchDocument, PatchHunk, PatchHunkLine, PatchLineKind,
    PatchOperation, PatchParseError, UpdateFileOperation,
};
use zeroclaw_tools::apply_patch::parse::parse_patch_document;

#[test]
fn parse_valid_multi_file_patch_with_move_and_multi_hunk_update() {
    let input = "\
*** Begin Patch
*** Add File: notes.txt
+hello
+world
*** Update File: src/app.rs
*** Move to: src/app_v2.rs
@@ fn main()
 line one
-old value
+new value
@@
 line two
+line three
*** Delete File: old.txt
*** End Patch";

    let document = parse_patch_document(input).expect("patch should parse");
    assert_eq!(document.operations.len(), 3);

    assert_eq!(
        document.operations[0],
        PatchOperation::Add(AddFileOperation {
            path: "notes.txt".into(),
            lines: vec!["hello".into(), "world".into()],
        })
    );

    let PatchOperation::Update(update) = &document.operations[1] else {
        panic!("expected update operation");
    };
    assert_eq!(update.path, "src/app.rs");
    assert_eq!(update.move_to.as_deref(), Some("src/app_v2.rs"));
    assert_eq!(update.hunks.len(), 2);
    assert_eq!(update.hunks[0].header.as_deref(), Some("fn main()"));
    assert_eq!(
        update.hunks[0].lines,
        vec![
            PatchHunkLine {
                kind: PatchLineKind::Context,
                text: "line one".into(),
            },
            PatchHunkLine {
                kind: PatchLineKind::Remove,
                text: "old value".into(),
            },
            PatchHunkLine {
                kind: PatchLineKind::Add,
                text: "new value".into(),
            },
        ]
    );
    assert_eq!(update.hunks[1].header, None);
    assert_eq!(
        update.hunks[1].lines,
        vec![
            PatchHunkLine {
                kind: PatchLineKind::Context,
                text: "line two".into(),
            },
            PatchHunkLine {
                kind: PatchLineKind::Add,
                text: "line three".into(),
            },
        ]
    );

    assert_eq!(
        document.operations[2],
        PatchOperation::Delete(DeleteFileOperation {
            path: "old.txt".into(),
        })
    );
}

#[test]
fn parse_rejects_missing_begin_marker() {
    let err = parse_patch_document("*** Add File: notes.txt\n+hello\n*** End Patch")
        .expect_err("patch without begin marker must fail");
    assert_eq!(err, PatchParseError::MissingBegin);
}

#[test]
fn parse_rejects_invalid_add_file_grammar_without_mutation_opcodes() {
    let input = "\
*** Begin Patch
*** Add File: notes.txt
hello
*** End Patch";

    let err = parse_patch_document(input).expect_err("invalid add grammar must fail");
    assert_eq!(
        err,
        PatchParseError::InvalidLine {
            line_no: 3,
            message: "add-file hunks must contain only '+' lines".into(),
        }
    );
}

#[test]
fn parse_rejects_unsupported_operation() {
    let input = "\
*** Begin Patch
*** Copy File: from.txt
*** End Patch";

    let err = parse_patch_document(input).expect_err("unsupported op must fail");
    assert_eq!(
        err,
        PatchParseError::UnsupportedOperation {
            line_no: 2,
            operation: "Copy File".into(),
        }
    );
}

#[test]
fn parse_rejects_duplicate_file_operations() {
    let input = "\
*** Begin Patch
*** Update File: src/app.rs
@@
-old
+new
*** Update File: src/app.rs
@@
-again
+again new
*** End Patch";

    let err = parse_patch_document(input).expect_err("duplicate target must fail");
    assert_eq!(
        err,
        PatchParseError::ConflictingPath {
            line_no: 6,
            path: "src/app.rs".into(),
        }
    );
}

#[test]
fn parse_rejects_conflicting_move_destination() {
    let input = "\
*** Begin Patch
*** Update File: src/app.rs
*** Move to: src/app_v2.rs
@@
-old
+new
*** Add File: src/app_v2.rs
+hello
*** End Patch";

    let err = parse_patch_document(input).expect_err("move target conflict must fail");
    assert_eq!(
        err,
        PatchParseError::ConflictingPath {
            line_no: 7,
            path: "src/app_v2.rs".into(),
        }
    );
}

#[test]
fn parse_supports_end_of_file_marker() {
    let input = "\
*** Begin Patch
*** Update File: src/app.rs
@@
 line one
-line two
+line three
*** End of File
*** End Patch";

    let document = parse_patch_document(input).expect("patch with EOF marker should parse");
    let PatchOperation::Update(update) = &document.operations[0] else {
        panic!("expected update operation");
    };
    assert_eq!(update.hunks.len(), 1);
    assert!(update.hunks[0].has_end_of_file_marker);
}

#[test]
fn parse_rejects_missing_end_patch_marker() {
    let input = "\
*** Begin Patch
*** Delete File: old.txt";

    let err = parse_patch_document(input).expect_err("missing end marker must fail");
    assert_eq!(err, PatchParseError::MissingEnd);
}

#[test]
fn parse_rejects_hunk_without_patch_lines() {
    let input = "\
*** Begin Patch
*** Update File: src/app.rs
@@
*** End Patch";

    let err = parse_patch_document(input).expect_err("empty hunk must fail");
    assert_eq!(
        err,
        PatchParseError::InvalidLine {
            line_no: 3,
            message: "patch hunks must contain at least one context/add/remove line".into(),
        }
    );
}

fn error_of(input: &str) -> PatchParseError {
    parse_patch_document(input).expect_err("patch must be refused")
}

fn invalid(line_no: usize, message: &str) -> PatchParseError {
    PatchParseError::InvalidLine {
        line_no,
        message: message.into(),
    }
}

#[test]
fn empty_patch_has_no_operations() {
    let document = parse_patch_document("*** Begin Patch\n*** End Patch\n").unwrap();
    assert!(document.operations.is_empty());
    assert_eq!(error_of(""), PatchParseError::MissingBegin);
    assert_eq!(error_of("*** Begin Patch"), PatchParseError::MissingEnd);
    assert_eq!(error_of(" *** Begin Patch\n*** End Patch"), PatchParseError::MissingBegin);
}

#[test]
fn carriage_returns_at_line_ends_are_dropped() {
    let document =
        parse_patch_document("*** Begin Patch\r\n*** Delete File:  old.txt \r\n*** End Patch\r\n")
            .unwrap();
    assert_eq!(
        document.operations,
        vec![PatchOperation::Delete(DeleteFileOperation {
            path: "old.txt".into()
        })]
    );
}

#[test]
fn only_blank_lines_may_follow_the_end() {
    assert!(parse_patch_document("*** Begin Patch\n*** End Patch\n \t\n\n").is_ok());
    assert_eq!(
        error_of("*** Begin Patch\n*** End Patch\n\nmore"),
        invalid(3, "unexpected trailing content after '*** End Patch'")
    );
}

#[test]
fn every_line_error_names_its_line() {
    assert_eq!(
        error_of("*** Begin Patch\n*** Delete File:   \n*** End Patch"),
        invalid(2, "patch path must not be empty")
    );
    assert_eq!(
        error_of("*** Begin Patch\nloose text\n*** End Patch"),
        invalid(2, "expected patch operation header")
    );
    assert_eq!(
        error_of("*** Begin Patch\n*** Add File: a\n*** End Patch"),
        invalid(2, "add-file operation must contain at least one '+' line")
    );
    assert_eq!(
        error_of("*** Begin Patch\n*** Update File: a\n*** End Patch"),
        invalid(2, "update-file operation must contain at least one hunk")
    );
    assert_eq!(
        error_of("*** Begin Patch\n*** Update File: a\n+x\n*** End Patch"),
        invalid(3, "update-file operation requires a hunk header before patch lines")
    );
    assert_eq!(
        error_of("*** Begin Patch\n*** Update File: a\n@@\n+x\nplain\n*** End Patch"),
        invalid(
            5,
            "update-file hunks must use '@@', ' ', '+', '-', or '*** End of File'"
        )
    );
    assert_eq!(
        error_of("*** Begin Patch\n*** Update File: a\n@@\n@@\n+x\n*** End Patch"),
        invalid(
            3,
            "patch hunks must contain at least one context/add/remove line"
        )
    );
}

#[test]
fn move_headers_are_checked() {
    assert_eq!(
        error_of("*** Begin Patch\n*** Update File: a\n*** Move to: a\n@@\n+x\n*** End Patch"),
        invalid(3, "move target must differ from source path")
    );
    assert_eq!(
        error_of(
            "*** Begin Patch\n*** Update File: a\n*** Move to: b\n*** Move to: c\n@@\n+x\n*** End Patch"
        ),
        invalid(
            4,
            "update-file operation may contain only one '*** Move to:' header"
        )
    );
    assert_eq!(
        error_of("*** Begin Patch\n*** Update File: a\n@@\n+x\n*** Move to: b\n*** End Patch"),
        invalid(5, "'*** Move to:' must appear before any hunks")
    );
    assert_eq!(
        error_of("*** Begin Patch\n*** Update File: a\n*** Move to: \n@@\n+x\n*** End Patch"),
        PatchParseError::InvalidLine {
            line_no: 3,
            message: "patch path must not be empty".into()
        }
    );
}

#[test]
fn end_of_file_markers_are_checked() {
    assert_eq!(
        error_of("*** Begin Patch\n*** Update File: a\n*** End of File\n*** End Patch"),
        invalid(3, "'*** End of File' requires an active hunk")
    );
    assert_eq!(
        error_of(
            "*** Begin Patch\n*** Update File: a\n@@\n+x\n*** End of File\n*** End of File\n*** End Patch"
        ),
        invalid(6, "duplicate '*** End of File' marker in the same hunk")
    );
}

#[test]
fn unsupported_operation_inside_an_update_is_named() {
    assert_eq!(
        error_of("*** Begin Patch\n*** Update File: a\n@@\n+x\n*** Rename File: b\n*** End Patch"),
        PatchParseError::UnsupportedOperation {
            line_no: 5,
            operation: "Rename File".into()
        }
    );
    assert_eq!(
        error_of("*** Begin Patch\n*** Nonsense\n*** End Patch"),
        PatchParseError::UnsupportedOperation {
            line_no: 2,
            operation: "Nonsense".into()
        }
    );
}

#[test]
fn hunk_headers_are_trimmed() {
    let document = parse_patch_document(
        "*** Begin Patch\n*** Update File: a\n@@   fn main()  \n+x\n@@  \n+y\n*** End Patch",
    )
    .unwrap();
    let PatchOperation::Update(update) = &document.operations[0] else {
        panic!("expected update operation");
    };
    assert_eq!(update.hunks[0].header.as_deref(), Some("fn main()"));
    assert_eq!(update.hunks[1].header, None);
    assert!(!update.hunks[0].has_end_of_file_marker);
}

#[test]
fn parse_errors_read_as_sentences() {
    assert_eq!(
        PatchParseError::MissingBegin.to_text(),
        "patch must start with '*** Begin Patch'"
    );
    assert_eq!(
        PatchParseError::MissingEnd.to_text(),
        "patch must end with '*** End Patch'"
    );
    assert_eq!(
        PatchParseError::UnsupportedOperation {
            line_no: 12,
            operation: "Copy File".into()
        }
        .to_text(),
        "line 12: unsupported patch operation 'Copy File'"
    );
    assert_eq!(invalid(3, "oops").to_text(), "line 3: oops");
    assert_eq!(
        PatchParseError::ConflictingPath {
            line_no: 100,
            path: "a/b".into()
        }
        .to_text(),
        "line 100: duplicate or conflicting patch target 'a/b'"
    );
}

/// The text of a patch.
fn rendered(document: &PatchDocument) -> String {
    let mut lines = vec!["*** Begin Patch".to_string()];
    for operation in &document.operations {
        match operation {
            PatchOperation::Add(op) => {
                lines.push(format!("*** Add File: {}", op.path));
                lines.extend(op.lines.iter().map(|line| format!("+{line}")));
            }
            PatchOperation::Delete(op) => lines.push(format!("*** Delete File: {}", op.path)),
            PatchOperation::Update(op) => {
                lines.push(format!("*** Update File: {}", op.path));
                lines.extend(op.move_to.iter().map(|target| format!("*** Move to: {target}")));
                for hunk in &op.hunks {
                    lines.push(match &hunk.header {
                        Some(header) => format!("@@ {header}"),
                        None => "@@".to_string(),
                    });
                    lines.extend(hunk.lines.iter().map(|line| match line.kind {
                        PatchLineKind::Context => format!(" {}", line.text),
                        PatchLineKind::Add => format!("+{}", line.text),
                        PatchLineKind::Remove => format!("-{}", line.text),
                    }));
                    if hunk.has_end_of_file_marker {
                        lines.push("*** End of File".to_string());
                    }
                }
            }
        }
    }
    lines.push("*** End Patch".to_string());
    lines.join("\n")
}

fn hunk_line(kind: PatchLineKind, text: &str) -> PatchHunkLine {
    PatchHunkLine {
        kind,
        text: text.to_string(),
    }
}

#[test]
fn a_patch_that_is_written_out_is_read_back() {
    let empty = PatchDocument {
        operations: Vec::new(),
    };
    assert_eq!(parse_patch_document(&rendered(&empty)).unwrap(), empty);
    let document = PatchDocument {
        operations: vec![
            PatchOperation::Update(UpdateFileOperation {
                path: "a.rs".into(),
                move_to: Some("b.rs".into()),
                hunks: vec![
                    PatchHunk {
                        header: Some("fn main()".into()),
                        lines: vec![
                            hunk_line(PatchLineKind::Context, "*** End Patch"),
                            hunk_line(PatchLineKind::Remove, "@@"),
                            hunk_line(PatchLineKind::Add, ""),
                        ],
                        has_end_of_file_marker: false,
                    },
                    PatchHunk {
                        header: None,
                        lines: vec![hunk_line(PatchLineKind::Add, "a\rb")],
                        has_end_of_file_marker: true,
                    },
                ],
            }),
            PatchOperation::Delete(DeleteFileOperation {
                path: "old one.txt".into(),
            }),
            PatchOperation::Add(AddFileOperation {
                path: "new.txt".into(),
                lines: vec!["".into(), "*** Add File: x".into()],
            }),
        ],
    };
    assert_eq!(parse_patch_document(&rendered(&document)).unwrap(), document);
}
