use sup3::glob::{as_key_and_glob, glob_has_resursive_wildcard, Glob, GlobOption, Options};
use sup3::uri::Key;

#[test]
fn test_has_recusive_wildcard() {
    assert_eq!(glob_has_resursive_wildcard("test/**"), true);
    assert_eq!(glob_has_resursive_wildcard("test/**/*.txt"), true);
    assert_eq!(glob_has_resursive_wildcard("test/**/*"), true);

    assert_eq!(glob_has_resursive_wildcard("**"), true);
    assert_eq!(glob_has_resursive_wildcard("\\**"), false);
    assert_eq!(glob_has_resursive_wildcard("\\\\**"), true);
    assert_eq!(glob_has_resursive_wildcard("test/**"), true);
    assert_eq!(glob_has_resursive_wildcard("test/\\**"), false);
    assert_eq!(glob_has_resursive_wildcard("test/\\\\**"), true);

    assert_eq!(glob_has_resursive_wildcard("test/*"), false);
}

#[test]
fn test_recursive_wildcard_backslash_runs() {
    // An odd run of backslashes escapes the "**"; an even run spells
    // literal backslashes before a live one.
    assert_eq!(glob_has_resursive_wildcard("test/\\\\\\**"), false);
    assert_eq!(glob_has_resursive_wildcard("test/\\\\\\\\**"), true);
    // A later occurrence counts even when the first is escaped.
    assert_eq!(glob_has_resursive_wildcard("\\***"), true);
    assert_eq!(glob_has_resursive_wildcard("a/\\**/b/**"), true);
}

#[test]
fn test_glob_partition_prefix() {
    let key = Key::new("dir/*.txt".to_string());
    let options = Options { glob: GlobOption::Auto };
    let glob = Glob::new(&key, &options).expect("pattern should be recognized");
    assert_eq!(glob.prefix().as_str(), "dir/");
    assert!(!glob.has_recursive_wildcard());
}

#[test]
fn test_glob_matches_pattern() {
    let key = Key::new("dir/*.txt".to_string());
    let options = Options { glob: GlobOption::Auto };
    let glob = Glob::new(&key, &options).expect("pattern should be recognized");
    assert!(glob.matches("dir/a.txt"));
    assert!(!glob.matches("dir/a.jpg"));
    assert!(!glob.matches("dir/sub/a.txt"));
}

#[test]
fn test_glob_recursive_pattern_matches_any_depth() {
    let key = Key::new("dir/**/*.txt".to_string());
    let options = Options { glob: GlobOption::Auto };
    let glob = Glob::new(&key, &options).expect("pattern should be recognized");
    assert!(glob.has_recursive_wildcard());
    assert!(glob.matches("dir/sub/deeper/a.txt"));
    assert!(!glob.matches("dir/sub/deeper/a.jpg"));
}

#[test]
fn test_glob_off_and_literal_keys() {
    let key = Key::new("dir/*.txt".to_string());
    assert!(Glob::new(&key, &Options { glob: GlobOption::Off }).is_none());
    let literal = Key::new("dir/file.txt".to_string());
    assert!(Glob::new(&literal, &Options { glob: GlobOption::Auto }).is_none());
    assert!(as_key_and_glob(&literal, &Options { glob: GlobOption::On }).is_some());
    let empty = Key::new(String::new());
    assert!(Glob::new(&empty, &Options { glob: GlobOption::Auto }).is_none());
}
