use io_thread_controller::clock::{Duration, Instant};
use io_thread_controller::paths::{base_name_of, is_absolute, join, path_of, split};
use io_thread_controller::text::{
    characters, decimal_text, same_text, strip_suffix, substring, text_at_or_before, trim,
};

#[test]
fn numbers_are_written_in_decimal() {
    for n in [0, 7, 10, 99, 100, 1_234_567_890, u64::MAX] {
        assert_eq!(decimal_text(n), n.to_string());
    }
}

#[test]
fn strings_are_cut_by_characters() {
    let chars = characters("a\u{e4}\u{1f600}z");
    assert_eq!(chars.len(), 4);
    assert_eq!(substring(&chars, 1, 3), "\u{e4}\u{1f600}");
    assert_eq!(substring(&chars, 2, 2), "");
    assert!(same_text("abc", "abc"));
    assert!(!same_text("abc", "abd"));
    assert_eq!(strip_suffix("vm.json", ".json"), Some("vm".to_string()));
    assert_eq!(strip_suffix("vm.jso", ".json"), None);
    assert_eq!(strip_suffix("x", ".json"), None);
}

#[test]
fn white_space_is_trimmed_at_both_ends() {
    for text in ["", " ", "vm", " vm", "vm\n", "\t v m \u{a0}", "\u{3000}x\u{2003}"] {
        assert_eq!(trim(text), text.trim());
    }
}

#[test]
fn dictionary_order_is_that_of_strings() {
    let words = ["", "a", "aa", "ab", "b", "vm", "vm-a", "vm-b", "\u{e4}", "Z"];
    for a in words {
        for b in words {
            assert_eq!(text_at_or_before(a, b), a <= b, "{a} {b}");
        }
    }
}

#[test]
fn paths_are_joined_and_split() {
    assert_eq!(join("/a", "b"), "/a/b");
    assert_eq!(join("/a/", "b"), "/a/b");
    assert_eq!(join("", "b"), "b");
    assert_eq!(join("/a", "/b"), "/b");
    assert_eq!(base_name_of("/a/b.json"), "b.json");
    assert_eq!(base_name_of("b"), "b");
    assert_eq!(base_name_of("/a/"), "");
    assert_eq!(split("//a/./b/../c/"), vec!["a", "b", "..", "c"]);
    assert!(split("/.").is_empty());
    assert_eq!(path_of(&split("//a/b/")), "/a/b");
    assert!(is_absolute("/"));
    assert!(!is_absolute("a/"));
}

#[test]
fn clock_arithmetic_is_checked() {
    let early = Instant::from_nanos(5);
    let late = Instant::from_nanos(12);
    assert_eq!(late.checked_duration_since(early).unwrap().nanos, 7);
    assert!(early.checked_duration_since(late).is_none());
    assert!(early.checked_sub(Duration::from_secs(1)).is_none());
    assert_eq!(
        early.checked_add(Duration::from_millis(1)).unwrap().nanos,
        1_000_005
    );
    assert_eq!(Duration::from_secs(u64::MAX).capped_nanos(), u64::MAX);
    assert_eq!(Duration::from_secs(2).capped_nanos(), 2_000_000_000);
}
