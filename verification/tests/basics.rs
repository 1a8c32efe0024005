use serde_json::Value;
use zeroclaw_tools::host::json::{
    flag_argument, text_argument, text_or_empty_argument, word_argument, word_or_empty_argument,
};
use zeroclaw_tools::host::time::{exceeded_retention, Timestamp, FIRST_SECOND, LAST_SECOND};
use zeroclaw_tools::host::tool::{owner_of, tool_answer, tool_error, ToolExecutionContext};
use zeroclaw_tools::text::chars::{chars_of, is_white_space, same_text, string_of, trim};
use zeroclaw_tools::text::decimal::{append_decimal, append_padded};
use zeroclaw_tools::text::lines::{clone_texts, holds, join, lines, split};
use zeroclaw_tools::text::summary::summarize_text;
use zeroclaw_tools::text::words::split_whitespace;

fn decimal(n: u64) -> String {
    let mut out = String::new();
    append_decimal(&mut out, n);
    out
}

fn padded(n: u64, width: u64) -> String {
    let mut out = String::from("#");
    append_padded(&mut out, n, width);
    out
}

fn strings(rows: Vec<Vec<char>>) -> Vec<String> {
    rows.into_iter().map(|row| row.into_iter().collect()).collect()
}

#[test]
fn white_space_is_that_of_unicode() {
    for code in 0..=0x10ffff_u32 {
        if let Some(c) = char::from_u32(code) {
            assert_eq!(is_white_space(c), c.is_whitespace(), "U+{code:04X}");
        }
    }
}

#[test]
fn trimming_agrees_with_str() {
    for text in ["", " ", "a", " a ", "\u{3000}a b\u{a0}\n", "\t\r\n", "ä ö "] {
        let chars = chars_of(text);
        assert_eq!(string_of(trim(&chars)), text.trim());
        assert_eq!(string_of(trim(trim(&chars))), text.trim());
    }
}

#[test]
fn lines_agree_with_str() {
    for text in ["", "a", "a\n", "a\r\nb", "\n\n", "a\rb\r", "\r\n", "a\n\r\nb\n"] {
        let expected: Vec<String> = text.lines().map(str::to_string).collect();
        assert_eq!(strings(lines(text)), expected);
        let expected: Vec<String> = text.split('\n').map(str::to_string).collect();
        assert_eq!(split(text, '\n'), expected);
        assert_eq!(join(&split(text, '\n'), "\n"), text);
    }
}

#[test]
fn words_agree_with_str() {
    for text in ["", "  ", "a", " a  b\tc\n", "\u{2003}ä\u{85}b"] {
        let expected: Vec<String> = text.split_whitespace().map(str::to_string).collect();
        assert_eq!(strings(split_whitespace(&chars_of(text))), expected);
    }
}

#[test]
fn numerals_agree_with_format() {
    for n in [0, 7, 10, 99, 100, 123456, 1234567, u64::MAX] {
        assert_eq!(decimal(n), format!("{n}"));
        assert_eq!(padded(n, 6), format!("#{n:06}"));
    }
}

#[test]
fn padded_numerals_of_two_numbers_differ() {
    let all: Vec<String> = (0..2000).chain(999_990..1_000_010).map(|n| padded(n, 6)).collect();
    let distinct: std::collections::BTreeSet<&String> = all.iter().collect();
    assert_eq!(distinct.len(), all.len());
}

#[test]
fn summaries_are_cut_with_an_ellipsis() {
    assert_eq!(summarize_text("  short ", 10), "short");
    assert_eq!(summarize_text("exactly 10", 10), "exactly 10");
    assert_eq!(summarize_text("eleven char", 10), "eleven ch…");
    assert_eq!(summarize_text("äöüß", 3), "äö…");
    assert_eq!(summarize_text("ab", 1), "…");
    assert_eq!(summarize_text("ab", 0), "…");
    assert_eq!(summarize_text("  ", 0), "");
}

#[test]
fn lists_of_strings_are_searched_and_copied() {
    let list = vec!["a".to_string(), "b".to_string()];
    assert!(holds(&list, "b"));
    assert!(!holds(&list, "c"));
    assert_eq!(clone_texts(&list), list);
    assert!(same_text("ä", "ä"));
    assert!(!same_text("a", "ab"));
}

#[test]
fn moments_are_written_as_chrono_writes_them() {
    let text = |secs, nanos| Timestamp::at(secs, nanos).unwrap().to_text();
    assert_eq!(text(0, 0), "1970-01-01T00:00:00+00:00");
    assert_eq!(text(1_431_648_000, 0), "2015-05-15T00:00:00+00:00");
    assert_eq!(text(1_431_648_000, 5_000_000), "2015-05-15T00:00:00.005+00:00");
    assert_eq!(text(-1, 999_999_999), "1969-12-31T23:59:59.999999999+00:00");
}

#[test]
fn moments_have_a_date() {
    assert!(Timestamp::at(FIRST_SECOND, 0).unwrap().to_text().starts_with("-262143-01-01T"));
    assert!(Timestamp::at(LAST_SECOND, 999_999_999)
        .unwrap()
        .to_text()
        .starts_with("+262142-12-31T23:59:59."));
    assert!(Timestamp::at(FIRST_SECOND - 1, 0).is_none());
    assert!(Timestamp::at(LAST_SECOND + 1, 0).is_none());
    assert!(Timestamp::at(0, 1_000_000_000).is_none());
    let utc = |secs, nanos| chrono::DateTime::<chrono::Utc>::from_timestamp(secs, nanos);
    assert!(utc(FIRST_SECOND, 0).is_some());
    assert!(utc(FIRST_SECOND - 1, 0).is_none());
    assert!(utc(LAST_SECOND, 0).is_some());
    assert!(utc(LAST_SECOND + 1, 0).is_none());
}

#[test]
fn moments_count_nanoseconds() {
    assert_eq!(Timestamp::at(2, 5).unwrap().nanos(), 2_000_000_005);
    assert_eq!(Timestamp::at(-2, 5).unwrap().nanos(), -1_999_999_995);
}

#[test]
fn retention_is_over_after_its_time() {
    let at = |secs| Timestamp::at(secs, 0).unwrap();
    assert!(!exceeded_retention(at(10), at(9), 1_000_000_001));
    assert!(exceeded_retention(at(10), at(9), 1_000_000_000));
    assert!(!exceeded_retention(at(9), at(10), 1));
    assert!(exceeded_retention(at(9), at(10), 0));
    assert!(exceeded_retention(at(10), at(10), 0));
    assert!(!exceeded_retention(at(LAST_SECOND), at(FIRST_SECOND), u128::MAX));
}

#[test]
fn arguments_are_told_apart() {
    let mut args = serde_json::Map::new();
    args.insert("text".to_string(), Value::from("  padded "));
    args.insert("blank".to_string(), Value::from("   "));
    args.insert("on".to_string(), Value::from(true));
    args.insert("off".to_string(), Value::from(false));
    args.insert("number".to_string(), Value::from(3));
    assert_eq!(text_argument(&args, "text").as_deref(), Some("  padded "));
    assert_eq!(word_argument(&args, "text").as_deref(), Some("padded"));
    assert_eq!(word_argument(&args, "blank"), None);
    assert_eq!(text_argument(&args, "on"), None);
    assert_eq!(text_argument(&args, "missing"), None);
    assert_eq!(text_or_empty_argument(&args, "missing"), "");
    assert_eq!(word_or_empty_argument(&args, "text"), "padded");
    assert!(flag_argument(&args, "on"));
    assert!(!flag_argument(&args, "off"));
    assert!(!flag_argument(&args, "text"));
    assert!(!flag_argument(&args, "missing"));
}

#[test]
fn outcomes_are_success_or_error() {
    let error = tool_error("no".to_string());
    assert!(!error.success);
    assert_eq!(error.output, "");
    assert_eq!(error.error.as_deref(), Some("no"));
    let answer = tool_answer(Ok("yes".to_string()));
    assert!(answer.success);
    assert_eq!(answer.output, "yes");
    assert_eq!(answer.error, None);
    assert_eq!(tool_answer(Err("no".to_string())), error);
}

#[test]
fn conversations_own_what_they_begin() {
    let context = ToolExecutionContext {
        owner_key: Some("a".to_string()),
        channel_name: None,
        reply_target: None,
    };
    assert_eq!(owner_of(&Some(context)).as_deref(), Some("a"));
    assert_eq!(owner_of(&None), None);
}
