use quick_command::commands::{is_safe_child_name, record_success, remove_history_item};
use quick_command::models::{AppData, HistoryActionKind, HistoryItem};
use quick_command::order::compare_chars;
use quick_command::parser::parse;
use quick_command::paths::{component_count, path_join, starts_with_path};

fn item(id: &str) -> HistoryItem {
    HistoryItem {
        id: id.to_string(),
        display_text: "ls".to_string(),
        executable: "ls".to_string(),
        args: vec![],
        target_path: None,
        action: None,
        executed_at: 1,
    }
}

#[test]
fn deleting_a_fresh_item_restores_the_history() {
    let mut data = AppData::default();
    data.history.push(item("a"));
    data.history.push(item("b"));
    let parsed = parse("ls").unwrap();
    record_success(&mut data, "ls", &parsed, vec![], None, HistoryActionKind::ListDirectory, 9, "new".to_string());
    assert_eq!(data.history.len(), 3);
    assert!(remove_history_item(&mut data, "new"));
    let ids: Vec<&str> = data.history.iter().map(|h| h.id.as_str()).collect();
    assert_eq!(ids, ["a", "b"]);
}

#[test]
fn safe_names_stay_directly_below_the_root() {
    for name in ["example", "my project", ".config", "a.b"] {
        assert!(is_safe_child_name(name));
        let joined = path_join("/work/root", name);
        assert!(starts_with_path(&joined, "/work/root"));
        assert_eq!(component_count(&joined), component_count("/work/root") + 1);
    }
    for name in ["", ".", "..", "-rf", "a/", "a/b", "../x"] {
        assert!(!is_safe_child_name(name));
    }
}

#[test]
fn joins_follow_path_buf_join() {
    assert_eq!(path_join("/a", "b"), "/a/b");
    assert_eq!(path_join("/a/", "b"), "/a/b");
    assert_eq!(path_join("", "b"), "b");
    assert_eq!(path_join("/a", "/b"), "/b");
    assert!(starts_with_path("/a/b/c", "/a/b"));
    assert!(!starts_with_path("/a/bc", "/a/b"));
    assert!(starts_with_path("/a//b/./c", "/a/b"));
}

#[test]
fn strings_compare_by_character_code() {
    let chars = |s: &str| s.chars().collect::<Vec<char>>();
    assert_eq!(compare_chars(&chars("a"), &chars("b")), -1);
    assert_eq!(compare_chars(&chars("b"), &chars("a")), 1);
    assert_eq!(compare_chars(&chars("ab"), &chars("ab")), 0);
    assert_eq!(compare_chars(&chars("ab"), &chars("abc")), -1);
    assert_eq!(compare_chars(&chars("Z"), &chars("a")), -1);
    for (a, b) in [("x", "xy"), ("é", "z"), ("A.txt", "a.txt"), ("", "")] {
        let expected: i8 = if a < b {
            -1
        } else if a > b {
            1
        } else {
            0
        };
        assert_eq!(compare_chars(&chars(a), &chars(b)), expected);
    }
}
