use sup3::uri::{filename, validate_bucket_name, Key, Uri, UriError};

#[test]
fn test_filename() {
    assert_eq!(filename("a/b/c.txt"), Some("c.txt"));
    assert_eq!(filename("c.txt"), Some("c.txt"));
    assert_eq!(filename("a/b/"), None);
    assert_eq!(filename(""), None);
}

#[test]
fn test_key_directory_roundtrip() {
    let key = Key::new("a/b".to_string());
    let dir = key.to_explicit_directory();
    assert!(dir.is_explicitly_directory());
    assert_eq!(dir.as_str(), "a/b/");
    let again = dir.to_explicit_directory();
    assert_eq!(again.as_str(), dir.as_str());
    let empty = Key::new(String::new());
    assert!(empty.is_explicitly_directory());
    assert_eq!(empty.to_explicit_directory().as_str(), "");
}

#[test]
fn test_key_parts() {
    let key = Key::new("a/b/c.txt".to_string());
    assert_eq!(key.basename(), "a/b/");
    assert_eq!(key.basename_key().as_str(), "a/b/");
    assert_eq!(key.filename(), Some("c.txt"));
    assert_eq!(key.as_directory_component(), "c.txt");
    let dir = Key::new("a/b/c/".to_string());
    assert_eq!(dir.as_directory_component(), "c");
    let flat = Key::new("abc".to_string());
    assert_eq!(flat.as_directory_component(), "abc");
    assert_eq!(flat.basename(), "");
    let single = Key::new("dir/".to_string());
    assert_eq!(single.as_directory_component(), "dir");
}

#[test]
fn test_key_push() {
    let mut key = Key::new("dir/".to_string());
    key.push("file.txt");
    assert_eq!(key.as_str(), "dir/file.txt");
}

#[test]
fn test_validate_bucket_name() {
    assert!(validate_bucket_name("abc").is_ok());
    assert!(validate_bucket_name("my.bucket-01").is_ok());
    assert_eq!(
        validate_bucket_name("ab"),
        Err("too short (must be at least 3 characters)")
    );
    assert_eq!(
        validate_bucket_name("aBc"),
        Err("invalid character (valid: [a-z0-9.-])")
    );
    assert_eq!(
        validate_bucket_name("-abc"),
        Err("needs begin and end with a number or character ([a-z0-9])")
    );
    assert_eq!(
        validate_bucket_name("abc-"),
        Err("needs begin and end with a number or character ([a-z0-9])")
    );
}

#[test]
fn test_uri_parse() {
    let uri = Uri::from_str("s3://bucket/some/key.txt").unwrap();
    assert_eq!(uri.bucket, "bucket");
    assert_eq!(uri.key.as_str(), "some/key.txt");
    assert_eq!(uri.to_url_string(), "s3://bucket/some/key.txt");

    let root = Uri::from_str("s3://bucket").unwrap();
    assert_eq!(root.key.as_str(), "");

    let doubled = Uri::from_str("s3://bucket//x").unwrap();
    assert_eq!(doubled.key.as_str(), "x");

    assert!(matches!(Uri::from_str("http://bucket/k"), Err(UriError::InvalidScheme)));
    assert!(matches!(
        Uri::from_str("s3://bucket/k?x=1"),
        Err(UriError::InvalidUrlComponents("query string"))
    ));
    assert!(matches!(
        Uri::from_str("s3://user@bucket/k"),
        Err(UriError::InvalidUrlComponents("username"))
    ));
    assert!(matches!(
        Uri::from_str("s3://bucket/k#frag"),
        Err(UriError::InvalidUrlComponents("fragment"))
    ));
    assert!(matches!(Uri::from_str("s3://ab/k"), Err(UriError::InvalidBucketName(_))));
    assert!(matches!(Uri::from_str("not a url"), Err(UriError::ParseError)));
}

#[test]
fn test_uri_child_directory() {
    let uri = Uri::from_str("s3://bucket/dest/").unwrap();
    let child = uri.child_directory("mydir");
    assert_eq!(child.bucket, "bucket");
    assert_eq!(child.key.as_str(), "dest/mydir/");

    let bare = Uri::from_str("s3://bucket/dest").unwrap();
    let child = bare.child_directory("mydir");
    assert_eq!(child.key.as_str(), "dest/mydir/");

    let root = Uri::from_str("s3://bucket").unwrap();
    let child = root.child_directory("mydir");
    assert_eq!(child.key.as_str(), "mydir/");
}
