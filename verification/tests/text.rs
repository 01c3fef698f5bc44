use launcher::text::{ends_with, same_text, starts_with};

#[test]
fn same_text_compares_characters() {
    assert!(same_text("", ""));
    assert!(same_text("left", "left"));
    assert!(!same_text("left", "lefT"));
    assert!(!same_text("left", "lef"));
    assert!(!same_text("lef", "left"));
    assert!(!same_text("", "a"));
    assert!(same_text("héllo→", "héllo→"));
    assert!(!same_text("héllo", "hello"));
    // same number of bytes, different number of characters
    assert!(!same_text("é", "ab"));
}

#[test]
fn starts_with_compares_the_front() {
    assert!(starts_with("builtin://tv", "builtin://"));
    assert!(starts_with("builtin://", "builtin://"));
    assert!(!starts_with("builtin:/", "builtin://"));
    assert!(!starts_with("/builtin://tv", "builtin://"));
    assert!(starts_with("anything", ""));
    assert!(starts_with("", ""));
    assert!(!starts_with("", "a"));
    assert!(starts_with("Ünïcode path", "Ünï"));
    assert!(!starts_with("Unicode", "Ün"));
}

#[test]
fn ends_with_compares_the_end() {
    assert!(ends_with("icon.svg", ".svg"));
    assert!(ends_with(".svg", ".svg"));
    assert!(!ends_with("svg", ".svg"));
    assert!(!ends_with("icon.svg ", ".svg"));
    assert!(!ends_with("icon.SVG", ".svg"));
    assert!(ends_with("anything", ""));
    assert!(ends_with("", ""));
    assert!(!ends_with("", "a"));
    assert!(ends_with("grüße", "üße"));
    assert!(!ends_with("gruße", "üße"));
}
