use sup3::seen_directories::{dirname, up_directory, SeenDirectories};

#[test]
fn test_missing() {
    let mut seen = SeenDirectories::new("");
    let missing = seen.add_key("base/first/second/file.txt");
    assert_eq!(
        missing,
        vec!["base".to_string(), "base/first".to_string(), "base/first/second".to_string()]
    );
    let missing = seen.add_key("base/first/second2/pic.jpg");
    assert_eq!(missing, vec!["base/first/second2".to_string()]);
    let missing = seen.add_key("base2/first/second/pic.jpg");
    assert_eq!(
        missing,
        vec!["base2".to_string(), "base2/first".to_string(), "base2/first/second".to_string()]
    );
    let missing = seen.add_key("base3/first3/second3");
    assert_eq!(missing, vec!["base3".to_string(), "base3/first3".to_string()]);
}

#[test]
fn test_missing_prefixed() {
    let mut seen = SeenDirectories::new("base/");
    let missing = seen.add_key("base/first/second/file.txt");
    assert_eq!(missing, vec!["base/first".to_string(), "base/first/second".to_string()]);
    let missing = seen.add_key("base/first/second2/pic.jpg");
    assert_eq!(missing, vec!["base/first/second2".to_string()]);
}

#[test]
fn test_add_key_never_repeats_or_escapes_root() {
    let mut seen = SeenDirectories::new("root/");
    let first = seen.add_key("root/a/b/file");
    assert_eq!(first, vec!["root/a".to_string(), "root/a/b".to_string()]);
    for d in &first {
        assert!(d.len() > "root".len());
        assert!(d.starts_with("root/"));
    }
    let second = seen.add_key("root/a/b/other");
    assert!(second.is_empty());
    let third = seen.add_key("root/a/c/file");
    assert_eq!(third, vec!["root/a/c".to_string()]);
}

#[test]
fn test_add_key_at_root_returns_nothing() {
    let mut seen = SeenDirectories::new("base/");
    let missing = seen.add_key("base/file.txt");
    assert!(missing.is_empty());
}

#[test]
fn test_dirname_and_up_directory() {
    assert_eq!(dirname("a/b/c.txt"), "a/b");
    assert_eq!(dirname("c.txt"), "");
    assert_eq!(dirname("a/b/"), "a/b");
    assert_eq!(up_directory("a/b/c"), "a/b");
    assert_eq!(up_directory("a/b/"), "a");
    assert_eq!(up_directory("a"), "");
    assert_eq!(up_directory(""), "");
}
