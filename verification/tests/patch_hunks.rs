use zeroclaw_tools::apply_patch::document::{PatchHunk, PatchHunkLine, PatchLineKind};
use zeroclaw_tools::apply_patch::errors::PatchExecutionError;
use zeroclaw_tools::apply_patch::hunks::{
    apply_hunks_to_text, find_hunk_matches, join_text_lines, split_text_lines,
};

fn hunk(lines: &[&str], has_end_of_file_marker: bool) -> PatchHunk {
    PatchHunk {
        header: None,
        lines: lines
            .iter()
            .map(|line| PatchHunkLine {
                kind: match &line[..1] {
                    "+" => PatchLineKind::Add,
                    "-" => PatchLineKind::Remove,
                    _ => PatchLineKind::Context,
                },
                text: line[1..].to_string(),
            })
            .collect(),
        has_end_of_file_marker,
    }
}

fn texts(list: &[&str]) -> Vec<String> {
    list.iter().map(|text| text.to_string()).collect()
}

#[test]
fn files_are_taken_apart_and_put_together() {
    for text in ["", "\n", "a", "a\n", "a\nb", "a\n\nb\n", "\n\n", "a\r\nb\r\n"] {
        let (lines, line_feed) = split_text_lines(text);
        assert_eq!(join_text_lines(&lines, line_feed), text);
    }
    assert_eq!(split_text_lines(""), (texts(&[""]), false));
    assert_eq!(split_text_lines("a\nb\n"), (texts(&["a", "b"]), true));
    assert_eq!(join_text_lines(&[], true), "\n");
    assert_eq!(join_text_lines(&[], false), "");
}

#[test]
fn matches_are_found_from_a_line_on() {
    let lines = texts(&["a", "b", "a", "b"]);
    let wanted = texts(&["a", "b"]);
    assert_eq!(find_hunk_matches(&lines, &wanted, 0, false), vec![0, 2]);
    assert_eq!(find_hunk_matches(&lines, &wanted, 1, false), vec![2]);
    assert_eq!(find_hunk_matches(&lines, &wanted, 0, true), vec![2]);
    assert_eq!(find_hunk_matches(&lines, &wanted, 99, false), Vec::<usize>::new());
    assert_eq!(
        find_hunk_matches(&wanted, &lines, 0, false),
        Vec::<usize>::new()
    );
    let nothing: Vec<String> = Vec::new();
    assert_eq!(find_hunk_matches(&wanted, &nothing, 0, false), vec![0, 1, 2]);
}

#[test]
fn no_hunk_leaves_a_text_alone() {
    assert_eq!(apply_hunks_to_text("a\nb\n", &[], "f").unwrap(), "a\nb\n");
    let context = [hunk(&[" a", " b"], false), hunk(&[" b"], true)];
    assert_eq!(apply_hunks_to_text("a\nb\n", &context, "f").unwrap(), "a\nb\n");
}

#[test]
fn hunks_are_applied_one_behind_the_other() {
    let hunks = [
        hunk(&[" one", "-two", "+TWO"], false),
        hunk(&[" three", "+three and a half"], false),
    ];
    assert_eq!(
        apply_hunks_to_text("one\ntwo\nthree\nfour", &hunks, "f").unwrap(),
        "one\nTWO\nthree\nthree and a half\nfour"
    );
}

#[test]
fn a_hunk_may_only_match_once() {
    let error = apply_hunks_to_text("a\na\n", &[hunk(&["-a"], false)], "f").unwrap_err();
    assert_eq!(
        error,
        PatchExecutionError::HunkAmbiguous {
            path: "f".into(),
            reason: "matched 2 locations".into()
        }
    );
    assert_eq!(error.to_text(), "patch hunk is ambiguous in f: matched 2 locations");
}

#[test]
fn a_hunk_has_to_match() {
    let error = apply_hunks_to_text("a\n", &[hunk(&["-b", "+c"], false)], "f").unwrap_err();
    assert_eq!(
        error.to_text(),
        "patch hunk could not be applied to f: could not match hunk anchored by 'b'"
    );
    // The second hunk is looked for behind the first only.
    let hunks = [hunk(&["-b"], false), hunk(&["-a"], false)];
    assert!(apply_hunks_to_text("a\nb\n", &hunks, "f").is_err());
}

#[test]
fn added_lines_alone_go_to_the_end_of_the_file() {
    assert_eq!(
        apply_hunks_to_text("a\n", &[hunk(&["+b"], true)], "f").unwrap(),
        "a\nb\n"
    );
    assert_eq!(
        apply_hunks_to_text("a\n", &[hunk(&["+b"], false)], "f").unwrap_err(),
        PatchExecutionError::HunkApplyFailed {
            path: "f".into(),
            reason: "add-only hunks require either context/removal lines or '*** End of File'"
                .into()
        }
    );
}

#[test]
fn the_end_of_file_marker_anchors_a_hunk() {
    assert_eq!(
        apply_hunks_to_text("a\na\n", &[hunk(&["-a", "+b"], true)], "f").unwrap(),
        "a\nb\n"
    );
    assert!(apply_hunks_to_text("a\nb\n", &[hunk(&["-a"], true)], "f").is_err());
}

#[test]
fn removing_every_line_leaves_a_line_feed() {
    assert_eq!(
        apply_hunks_to_text("a\n", &[hunk(&["-a"], false)], "f").unwrap(),
        "\n"
    );
}

fn reversed(hunk: &PatchHunk) -> PatchHunk {
    let mut back = hunk.clone();
    for line in &mut back.lines {
        line.kind = match line.kind {
            PatchLineKind::Context => PatchLineKind::Context,
            PatchLineKind::Add => PatchLineKind::Remove,
            PatchLineKind::Remove => PatchLineKind::Add,
        };
    }
    back
}

#[test]
fn a_reversed_hunk_takes_the_change_back() {
    let text = "a\nb\nc\nb\n";
    let change = hunk(&[" a", "-b", "+x", "+y", " c"], false);
    let out = apply_hunks_to_text(text, &[change.clone()], "f").unwrap();
    assert_eq!(out, "a\nx\ny\nc\nb\n");
    assert_eq!(apply_hunks_to_text(&out, &[reversed(&change)], "f").unwrap(), text);

    let twin = hunk(&["-a", "+b"], false);
    let out = apply_hunks_to_text(text, &[twin.clone()], "f").unwrap();
    assert!(matches!(
        apply_hunks_to_text(&out, &[reversed(&twin)], "f"),
        Err(PatchExecutionError::HunkAmbiguous { .. })
    ));

    let last = hunk(&["-b", "+a"], true);
    let out = apply_hunks_to_text(text, &[last.clone()], "f").unwrap();
    assert_eq!(out, "a\nb\nc\na\n");
    assert_eq!(apply_hunks_to_text(&out, &[reversed(&last)], "f").unwrap(), text);
}
