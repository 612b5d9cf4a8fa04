use bifp_core::flag::{Flag, Source};
use bifp_core::store::{is_whitespace, matching_note_prefix, record_line, record_lines, starts_with, FlagStore};
use bifp_core::trit::Trit;

fn flag(trit: Trit, confidence: f64, note: &str, source: Source, ts: &str) -> Flag {
    Flag::new(trit, confidence.to_bits(), note.to_string(), source, ts.to_string())
}

#[test]
fn reconfirm_count_counts_affirms_only() {
    let store = FlagStore::open("flags.jsonl");
    let recalled = vec![
        flag(Trit::Affirm, 0.9, "x:1", Source::Agent, "t1"),
        flag(Trit::Affirm, 0.8, "x:2", Source::Human, "t2"),
        flag(Trit::Reject, 0.5, "x:3", Source::Agent, "t3"),
    ];
    assert_eq!(store.reconfirm_count(&recalled, "x:"), 2);
}

#[test]
fn reconfirm_count_needs_the_prefix() {
    let store = FlagStore::open("flags.jsonl");
    let recalled = vec![
        flag(Trit::Affirm, 0.9, "x:1", Source::Agent, "t1"),
        flag(Trit::Affirm, 0.9, "y:1", Source::Agent, "t2"),
        flag(Trit::Tend, 0.9, "x:2", Source::Agent, "t3"),
    ];
    assert_eq!(store.reconfirm_count(&recalled, "x:"), 1);
    assert_eq!(store.reconfirm_count(&recalled, ""), 2);
    assert_eq!(store.reconfirm_count(&recalled, "x:1 and more"), 0);
    assert_eq!(store.reconfirm_count(&[], "x:"), 0);
}

#[test]
fn open_keeps_the_path() {
    let store = FlagStore::open("/tmp/some/flags.jsonl");
    assert_eq!(store.path(), "/tmp/some/flags.jsonl");
}

#[test]
fn record_line_appends_one_newline() {
    assert_eq!(record_line("{\"trit\":1}"), "{\"trit\":1}\n");
    assert_eq!(record_line(""), "\n");
}

#[test]
fn remembered_line_is_recalled_after_earlier_ones() {
    let mut file = String::new();
    file.push_str(&record_line("{\"note\":\"a\"}"));
    file.push_str(&record_line("{\"note\":\"b\"}"));
    let before = record_lines(&file);
    file.push_str(&record_line("{\"trit\":1,\"note\":\"test:one\"}"));
    let after = record_lines(&file);
    assert_eq!(before, vec!["{\"note\":\"a\"}", "{\"note\":\"b\"}"]);
    assert_eq!(after, vec!["{\"note\":\"a\"}", "{\"note\":\"b\"}", "{\"trit\":1,\"note\":\"test:one\"}"]);
}

#[test]
fn record_lines_skip_blank_lines() {
    assert_eq!(record_lines("a\n\n   \n\tb\n"), vec!["a", "\tb"]);
    assert_eq!(record_lines(" \u{3000}\u{a0}\n x \n"), vec![" x "]);
    assert!(record_lines("").is_empty());
    assert!(record_lines("\n\n\r\n").is_empty());
}

#[test]
fn record_lines_follow_buf_read_lines() {
    assert_eq!(record_lines("a\r\nb\n"), vec!["a", "b"]);
    assert_eq!(record_lines("a\nb"), vec!["a", "b"]);
    assert_eq!(record_lines("a\r\r\nb\r"), vec!["a\r", "b\r"]);
    assert_eq!(record_lines("a\rb\n"), vec!["a\rb"]);
    let text = "one\r\n\ntwo\n  three  \r\n\u{2028}\nfour\r";
    let expected: Vec<&str> = text.lines().filter(|l| !l.trim().is_empty()).collect();
    assert_eq!(record_lines(text), expected);
}

#[test]
fn whitespace_is_unicode_white_space() {
    for c in ['\t', '\n', '\u{b}', '\u{c}', '\r', ' ', '\u{85}', '\u{a0}', '\u{1680}', '\u{2000}', '\u{200a}', '\u{2028}', '\u{2029}', '\u{202f}', '\u{205f}', '\u{3000}'] {
        assert!(is_whitespace(c), "{c:?}");
        assert!(c.is_whitespace());
    }
    for c in ['a', '\u{8}', '\u{e}', '\u{200b}', '\u{feff}', '\u{1f}', '\u{2030}'] {
        assert!(!is_whitespace(c), "{c:?}");
        assert!(!c.is_whitespace());
    }
    for v in 0u32..0x4000 {
        if let Some(c) = char::from_u32(v) {
            assert_eq!(is_whitespace(c), c.is_whitespace(), "{v:#x}");
        }
    }
}

#[test]
fn starts_with_matches_prefixes() {
    assert!(starts_with("test:one", "test:"));
    assert!(starts_with("test:one", ""));
    assert!(starts_with("", ""));
    assert!(!starts_with("te", "test:"));
    assert!(!starts_with("x:1", "y:"));
    assert!(starts_with("\u{e4}bc", "\u{e4}"));
}

#[test]
fn matching_note_prefix_keeps_order() {
    let recalled = vec![
        flag(Trit::Affirm, 0.9, "x:1", Source::Agent, "t1"),
        flag(Trit::Reject, 0.9, "y:1", Source::Human, "t2"),
        flag(Trit::Tend, 0.9, "x:2", Source::Agent, "t3"),
    ];
    let xs = matching_note_prefix(&recalled, "x:");
    assert_eq!(xs.len(), 2);
    assert_eq!(xs[0].note, "x:1");
    assert_eq!(xs[1].note, "x:2");
    assert_eq!(matching_note_prefix(&recalled, "").len(), 3);
    assert!(matching_note_prefix(&recalled, "z").is_empty());
}

#[test]
fn count_grows_by_one_only_for_an_affirm_under_the_prefix() {
    let store = FlagStore::open("flags.jsonl");
    let mut recalled = vec![flag(Trit::Affirm, 0.9, "x:1", Source::Agent, "t1")];
    assert_eq!(store.reconfirm_count(&recalled, "x:"), 1);
    recalled.push(flag(Trit::Reject, 0.9, "x:2", Source::Agent, "t2"));
    assert_eq!(store.reconfirm_count(&recalled, "x:"), 1);
    recalled.push(flag(Trit::Affirm, 0.9, "y:1", Source::Agent, "t3"));
    assert_eq!(store.reconfirm_count(&recalled, "x:"), 1);
    recalled.push(flag(Trit::Affirm, 0.9, "x:3", Source::Human, "t4"));
    assert_eq!(store.reconfirm_count(&recalled, "x:"), 2);
}
