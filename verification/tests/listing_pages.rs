use sup3::errors::Error;
use sup3::glob::{GlobOption, Options};
use sup3::listing::{
    is_requested_path_directory, key_matches_requested, ls_directory_prefix,
    ls_directory_redirect, ls_page_items, ls_request_plan, printable_filename,
    recursive_page_items, ListArguments, ListEntry, ListPage, LsItem, RecursiveLister,
    RecursiveStreamItem,
};
use sup3::seen_directories::SeenDirectories;
use sup3::uri::{Key, Uri};

fn plain_args() -> ListArguments {
    ListArguments {
        full_path: false,
        long: false,
        directory: false,
        substring: false,
        recurse: false,
        only_directories: false,
        only_files: false,
        glob_options: Options { glob: GlobOption::Auto },
    }
}

fn entry(key: &str) -> ListEntry {
    ListEntry {
        key: key.to_string(),
        size: 1,
        last_modified: None,
        storage_class: None,
    }
}

fn page(prefixes: &[&str], keys: &[&str]) -> ListPage {
    ListPage {
        files: keys.iter().map(|k| entry(k)).collect(),
        common_prefixes: prefixes.iter().map(|p| p.to_string()).collect(),
        next_continuation_token: None,
    }
}

#[test]
fn test_validate_list_arguments() {
    let mut args = plain_args();
    assert!(args.validate().is_ok());
    args.recurse = true;
    assert!(args.validate().is_ok());
    args.glob_options.glob = GlobOption::On;
    assert_eq!(args.validate(), Err("recurse with glob currently not supported"));
}

#[test]
fn test_key_matches_requested() {
    let args = plain_args();
    let requested = Key::new("dir/file".to_string());
    assert!(key_matches_requested(&requested, "dir/file", &args, None));
    assert!(key_matches_requested(&requested, "dir/file/", &args, None));
    assert!(!key_matches_requested(&requested, "dir/file2", &args, None));

    let dir = Key::new("dir/".to_string());
    assert!(key_matches_requested(&dir, "dir/anything", &args, None));
    assert!(!key_matches_requested(&dir, "other/x", &args, None));

    let mut sub = plain_args();
    sub.substring = true;
    assert!(key_matches_requested(&requested, "anything", &sub, None));

    let mut rec = plain_args();
    rec.recurse = true;
    assert!(key_matches_requested(&requested, "dir/file/below.txt", &rec, None));
    assert!(!key_matches_requested(&requested, "dir/filename.txt", &rec, None));
}

#[test]
fn test_is_requested_path_directory() {
    let requested = Key::new("dir/sub".to_string());
    assert!(is_requested_path_directory(&page(&[], &["dir/sub/file"]), &requested));
    assert!(!is_requested_path_directory(&page(&[], &["dir/subfile"]), &requested));
    assert!(!is_requested_path_directory(&page(&[], &[]), &requested));
}

#[test]
fn test_ls_request_plan() {
    let args = plain_args();
    let key = Key::new("dir/file".to_string());
    let plan = ls_request_plan(&key, &args);
    assert!(plan.glob.is_none());
    assert_eq!(plan.key.as_str(), "dir/file");
    assert_eq!(plan.delimiter, Some('/'));

    let mut rec = plain_args();
    rec.recurse = true;
    assert_eq!(ls_request_plan(&key, &rec).delimiter, None);

    let globbed = Key::new("dir/**".to_string());
    let plan = ls_request_plan(&globbed, &args);
    assert!(plan.glob.is_some());
    assert_eq!(plan.delimiter, None);
}

#[test]
fn test_ls_directory_redirect() {
    let args = plain_args();
    let requested = Key::new("dir".to_string());
    let only_prefix = page(&["dir/"], &[]);
    let redirect = ls_directory_redirect(&args, true, &only_prefix, &requested);
    assert_eq!(redirect.map(|k| k.as_str().to_string()), Some("dir/".to_string()));

    let with_files = page(&["dir/"], &["dirx"]);
    assert!(ls_directory_redirect(&args, true, &with_files, &requested).is_none());
    assert!(ls_directory_redirect(&args, false, &only_prefix, &requested).is_none());
    let mut darg = plain_args();
    darg.directory = true;
    assert!(ls_directory_redirect(&darg, true, &only_prefix, &requested).is_none());
}

#[test]
fn test_ls_directory_prefix() {
    let mut rec = plain_args();
    rec.recurse = true;
    let root = Key::new("dir/sub".to_string());
    let below = page(&[], &["dir/sub/file"]);
    assert_eq!(ls_directory_prefix(&rec, &root, &below).as_str(), "dir/sub/");
    let beside = page(&[], &["dir/subfile"]);
    assert_eq!(ls_directory_prefix(&rec, &root, &beside).as_str(), "dir/");
    let args = plain_args();
    assert_eq!(ls_directory_prefix(&args, &root, &below).as_str(), "dir/");
}

#[test]
fn test_ls_page_items_recursive() {
    let mut args = plain_args();
    args.recurse = true;
    let prefix = Key::new("dir/".to_string());
    let mut seen = SeenDirectories::new("dir/");
    let listing = page(&[], &["dir/a/f1", "dir/a/f2", "dir/f3"]);
    let items = ls_page_items(&args, &listing, &prefix, &mut seen, None);
    let mut names: Vec<String> = Vec::new();
    for item in &items {
        match item {
            LsItem::Directory(d) => names.push(format!("d:{d}")),
            LsItem::File(e) => names.push(format!("f:{}", e.key)),
        }
    }
    assert_eq!(
        names,
        vec![
            "d:dir/a".to_string(),
            "f:dir/a/f1".to_string(),
            "f:dir/a/f2".to_string(),
            "f:dir/f3".to_string(),
        ]
    );
}

#[test]
fn test_ls_page_items_filters() {
    let args = plain_args();
    let prefix = Key::new("dir/".to_string());
    let mut seen = SeenDirectories::new("dir/");
    let listing = page(&["dir/sub/"], &["dir/f1", "other/f2"]);
    let items = ls_page_items(&args, &listing, &prefix, &mut seen, None);
    assert_eq!(items.len(), 2);
    assert!(matches!(&items[0], LsItem::Directory(d) if d == "dir/sub/"));
    assert!(matches!(&items[1], LsItem::File(e) if e.key == "dir/f1"));

    let mut only_dirs = plain_args();
    only_dirs.only_directories = true;
    let mut seen = SeenDirectories::new("dir/");
    let items = ls_page_items(&only_dirs, &listing, &prefix, &mut seen, None);
    assert_eq!(items.len(), 1);
    assert!(matches!(&items[0], LsItem::Directory(_)));

    let mut only_files = plain_args();
    only_files.only_files = true;
    let mut seen = SeenDirectories::new("dir/");
    let items = ls_page_items(&only_files, &listing, &prefix, &mut seen, None);
    assert_eq!(items.len(), 1);
    assert!(matches!(&items[0], LsItem::File(_)));
}

#[test]
fn test_printable_filename() {
    let args = plain_args();
    let prefix = Key::new("dir/".to_string());
    assert_eq!(printable_filename("dir/file.txt", "bucket", &args, &prefix), "file.txt");
    assert_eq!(
        printable_filename("dir/my file.txt", "bucket", &args, &prefix),
        "'my file.txt'"
    );
    let mut full = plain_args();
    full.full_path = true;
    assert_eq!(
        printable_filename("dir/file.txt", "bucket", &full, &prefix),
        "'s3://bucket/dir/file.txt'"
    );
    assert_eq!(printable_filename("/", "bucket", &full, &prefix), "'s3://bucket/'");
}

#[test]
fn test_recursive_page_items() {
    let uri = Uri::from_str("s3://bucket/base").unwrap();
    let mut seen = SeenDirectories::new("base/");
    let keys = vec!["base/a/1.txt".to_string(), "base/a/2.txt".to_string()];
    let (items, token) = recursive_page_items(&keys, None, &uri, &mut seen)
        .unwrap()
        .unwrap();
    assert!(token.is_none());
    assert_eq!(items.len(), 3);
    assert!(matches!(&items[0], RecursiveStreamItem::Directory(k) if k.as_str() == "base/a"));
    assert!(matches!(&items[1], RecursiveStreamItem::File(k) if k.as_str() == "base/a/1.txt"));
    assert!(matches!(&items[2], RecursiveStreamItem::File(k) if k.as_str() == "base/a/2.txt"));

    let empty: Vec<String> = vec![];
    let mut seen = SeenDirectories::new("base/");
    assert!(matches!(
        recursive_page_items(&empty, None, &uri, &mut seen),
        Err(Error::NoSuchKey(_))
    ));
    let mut seen = SeenDirectories::new("base/");
    assert!(matches!(
        recursive_page_items(&empty, Some("tok".to_string()), &uri, &mut seen),
        Ok(None)
    ));
}

#[test]
fn test_recursive_lister() {
    let uri = Uri::from_str("s3://bucket/base").unwrap();
    let mut lister = RecursiveLister::new(&uri);
    assert_eq!(lister.bucket_name(), "bucket");
    assert_eq!(lister.prefix_key().as_str(), "base/");
    assert!(lister.continuation_token().is_none());

    let keys = vec!["base/x/file".to_string()];
    let items = lister
        .consume_page(&keys, Some("next".to_string()))
        .unwrap()
        .unwrap();
    assert_eq!(items.len(), 2);
    assert_eq!(lister.continuation_token().as_deref(), Some("next"));

    let more = vec!["base/x/file2".to_string()];
    let items = lister.consume_page(&more, None).unwrap().unwrap();
    assert_eq!(items.len(), 1);
    assert!(matches!(&items[0], RecursiveStreamItem::File(k) if k.as_str() == "base/x/file2"));
    assert!(lister.continuation_token().is_none());
}
