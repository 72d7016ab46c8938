use sup3::cli::{digit_count, longest_file_display_prefix};

fn test_static(filenames: &[&'static str], expected_prefix: &'static str) {
    let owned_iter: Vec<String> = filenames.iter().map(|s| s.to_string()).collect();
    assert_eq!(longest_file_display_prefix(&owned_iter), expected_prefix);
}

#[test]
fn test_longest_file_display_prefix() {
    test_static(
        &["s3://bucket/dir/second/1.ext", "s3://bucket/dir/second/2.ext"],
        "s3://bucket/dir/second/",
    );
    test_static(
        &["s3://bucket/dir/second/1.ext", "s3://otherbucket/dir/second/2.ext"],
        "s3://",
    );
    test_static(
        &["s3://bucket/dir/second/1.ext", "s3://bucket/dir/different/2.ext"],
        "s3://bucket/dir/",
    );
    test_static(
        &["s3://bucket/dir/second/1.ext", "s3://bucket2/dir/second/2.ext"],
        "s3://",
    );
    test_static(
        &["s3://bucket/prog-v0.5.0/1.ext", "s3://bucket/prog-v0.6.0/1.ext"],
        "s3://bucket/",
    );
}

#[test]
fn test_longest_file_display_prefix_edges() {
    let empty: Vec<String> = vec![];
    assert_eq!(longest_file_display_prefix(&empty), "");
    let single = vec!["s3://bucket/dir/file.txt".to_string()];
    assert_eq!(longest_file_display_prefix(&single), "s3://bucket/dir/");
    let no_slash = vec!["abc".to_string(), "abd".to_string()];
    assert_eq!(longest_file_display_prefix(&no_slash), "ab");
}

#[test]
fn test_digit_count() {
    assert_eq!(digit_count(0), 1);
    assert_eq!(digit_count(9), 1);
    assert_eq!(digit_count(10), 2);
    assert_eq!(digit_count(99), 2);
    assert_eq!(digit_count(100), 3);
    assert_eq!(digit_count(12345), 5);
    assert_eq!(digit_count(u64::MAX), 20);
}
