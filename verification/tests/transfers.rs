use sup3::arguments::{classify_copy_arguments, CopyArgument, CopyPlan, MainResult};
use sup3::errors::{sdk_error, Error, SdkFailureKind};
use sup3::partial_file::partial_file_path;
use sup3::transfer::{
    aggregate_errors, destination_display, directory_local_path, file_download_target,
    get_precheck, resolve_target, should_fall_back_to_listing, upload_object_key,
    upload_task_step, BatchState, ConcurrencyLimiter, LocalName, Target, TargetProbe, TaskTree,
    UploadStep,
};
use sup3::uri::{Key, Uri};

#[test]
fn test_concurrency_limit_never_exceeded() {
    let mut limiter = ConcurrencyLimiter::new(2);
    assert_eq!(limiter.in_flight(), 0);
    assert!(limiter.try_acquire());
    assert!(limiter.try_acquire());
    assert!(!limiter.try_acquire());
    assert_eq!(limiter.in_flight(), 2);
    limiter.release();
    assert_eq!(limiter.in_flight(), 1);
    assert!(limiter.try_acquire());
    assert!(!limiter.try_acquire());

    let mut single = ConcurrencyLimiter::new(1);
    assert!(single.try_acquire());
    assert!(!single.try_acquire());
}

#[test]
fn test_error_count_matches_failed_leaves() {
    let tree = TaskTree::Node(vec![
        TaskTree::Leaf(true),
        TaskTree::Node(vec![TaskTree::Leaf(false), TaskTree::Leaf(true), TaskTree::Leaf(true)]),
        TaskTree::Leaf(false),
        TaskTree::Node(vec![]),
    ]);
    assert_eq!(aggregate_errors(&tree), 3);
    assert_eq!(aggregate_errors(&TaskTree::Leaf(false)), 0);
    assert_eq!(aggregate_errors(&TaskTree::Leaf(true)), 1);
}

#[test]
fn test_batch_state() {
    let mut batch = BatchState::new(false);
    assert!(batch.should_launch_more());
    batch.record_task_result(0);
    assert!(batch.should_launch_more());
    batch.record_task_result(2);
    assert!(!batch.should_launch_more());
    assert_eq!(batch.error_count(), 2);
    assert!(matches!(batch.result(), MainResult::ErrorSomeOperationsFailed));

    let mut tolerant = BatchState::new(true);
    tolerant.record_task_result(1);
    assert!(tolerant.should_launch_more());

    let mut cancelled = BatchState::new(true);
    cancelled.record_task_result(1);
    cancelled.observe_cancellation();
    assert!(!cancelled.should_launch_more());
    assert!(matches!(cancelled.result(), MainResult::Cancelled));
    assert_eq!(cancelled.result().exit_code(), 3);
}

#[test]
fn test_exit_codes() {
    assert_eq!(MainResult::Success.exit_code(), 0);
    assert_eq!(MainResult::ErrorArguments.exit_code(), 1);
    assert_eq!(MainResult::ErrorSomeOperationsFailed.exit_code(), 2);
    assert_eq!(MainResult::Cancelled.exit_code(), 3);
    assert!(matches!(MainResult::from_error_count(0), MainResult::Success));
    assert!(matches!(MainResult::from_error_count(5), MainResult::ErrorSomeOperationsFailed));
}

#[test]
fn test_upload_directory_scenario() {
    // Uploading a directory holding one file with recursion on: the one
    // object's key is the destination prefix, the directory's basename, then
    // the filename.
    let dest = Uri::from_str("s3://bucket/dest/").unwrap();
    assert!(matches!(upload_task_step(true, true), UploadStep::ExpandDirectory));
    let child = dest.child_directory("mydir");
    assert!(matches!(upload_task_step(false, true), UploadStep::TransferFile));
    let key = upload_object_key(&child.key, &LocalName::Name("file.txt".to_string())).unwrap();
    assert_eq!(key.as_str(), "dest/mydir/file.txt");
    assert_eq!(destination_display("bucket", &key), "s3://bucket/dest/mydir/file.txt");

    // The separator is inserted even when the destination key lacks one.
    let bare = Uri::from_str("s3://bucket/dest").unwrap();
    let child = bare.child_directory("mydir");
    let key = upload_object_key(&child.key, &LocalName::Name("file.txt".to_string())).unwrap();
    assert_eq!(key.as_str(), "dest/mydir/file.txt");
}

#[test]
fn test_upload_directory_without_recursion_fails() {
    assert!(matches!(upload_task_step(true, false), UploadStep::RejectDirectory));
}

#[test]
fn test_upload_object_key_errors() {
    let file_key = Key::new("dir/f.txt".to_string());
    let named = upload_object_key(&file_key, &LocalName::Missing).unwrap();
    assert_eq!(named.as_str(), "dir/f.txt");
    let dir_key = Key::new("dir/".to_string());
    assert!(matches!(
        upload_object_key(&dir_key, &LocalName::Missing),
        Err(Error::NoFilename)
    ));
    assert!(matches!(
        upload_object_key(&dir_key, &LocalName::NotUnicode),
        Err(Error::LocalFilenameNotUnicode)
    ));
}

#[test]
fn test_download_missing_key_without_recursion_is_failure() {
    // Downloading a remote prefix with no matching objects and recursion off
    // yields a missing-key failure, not a zero-work success.
    let uri = Uri::from_str("s3://bucket/missing").unwrap();
    let err = Error::NoSuchKey(uri);
    assert!(!should_fall_back_to_listing(&err, false));
    assert!(should_fall_back_to_listing(&err, true));
    let mut batch = BatchState::new(false);
    batch.record_task_result(1);
    assert!(matches!(batch.result(), MainResult::ErrorSomeOperationsFailed));
    assert_eq!(batch.result().exit_code(), 2);
}

#[test]
fn test_get_precheck() {
    let root = Uri::from_str("s3://bucket").unwrap();
    assert!(matches!(get_precheck(&root), Some(Error::NoSuchKey(_))));
    let object = Uri::from_str("s3://bucket/k").unwrap();
    assert!(get_precheck(&object).is_none());
}

#[test]
fn test_resolve_target() {
    let r = resolve_target(TargetProbe::IsDirectory, 1, false, "out").unwrap();
    assert!(matches!(&r.0, Target::Directory(p) if p == "out"));
    assert!(!r.1);
    assert!(resolve_target(TargetProbe::IsOther, 2, false, "out").is_err());
    let r = resolve_target(TargetProbe::IsOther, 1, false, "out").unwrap();
    assert!(matches!(&r.0, Target::File(p) if p == "out"));
    let r = resolve_target(TargetProbe::Missing, 1, true, "out").unwrap();
    assert!(matches!(&r.0, Target::Directory(_)));
    assert!(r.1);
    let r = resolve_target(TargetProbe::Missing, 1, false, "out").unwrap();
    assert!(matches!(&r.0, Target::File(_)));
    assert!(!r.1);
}

#[test]
fn test_target_paths() {
    let dir = Target::Directory("local".to_string());
    let uri = Uri::from_str("s3://bucket/dir/file.txt").unwrap();
    assert_eq!(dir.local_path(&uri).unwrap(), "local/file.txt");
    let file = Target::File("out.bin".to_string());
    assert_eq!(file.local_path(&uri).unwrap(), "out.bin");
    let no_name = Uri::from_str("s3://bucket/dir/").unwrap();
    assert!(matches!(dir.local_path(&no_name), Err(Error::NoFilename)));
    let child = dir.child("sub");
    assert!(matches!(&child, Target::Directory(p) if p == "local/sub"));
}

#[test]
fn test_download_entry_targets() {
    let target = Target::Directory("local".to_string());
    let request = Key::new("dir/".to_string());
    let dir_key = Key::new("dir/a/b".to_string());
    assert_eq!(
        directory_local_path(&target, &request, &dir_key),
        Some("local/a/b".to_string())
    );
    assert_eq!(directory_local_path(&target, &request, &request), None);

    let nested = Key::new("dir/a/b/file.txt".to_string());
    let t = file_download_target(&target, &request, &nested);
    assert!(matches!(&t, Target::Directory(p) if p == "local/a/b"));
    let flat = Key::new("dir/file.txt".to_string());
    let t = file_download_target(&target, &request, &flat);
    assert!(matches!(&t, Target::Directory(p) if p == "local"));
}

#[test]
fn test_partial_file_path() {
    assert_eq!(partial_file_path("out/file.bin"), "out/file.bin.sup3.partial");
}

#[test]
fn test_sdk_error_classification() {
    let e = sdk_error(SdkFailureKind::ServiceError, "denied".to_string());
    assert!(matches!(e, Error::S3SdkError("S3 service error", m) if m == "denied"));
    let e = sdk_error(SdkFailureKind::TimeoutError, "slow".to_string());
    assert!(matches!(e, Error::S3SdkErrorDebug("S3 timeout", m) if m == "slow"));
    let e = sdk_error(SdkFailureKind::DispatchFailure, "x".to_string());
    assert!(matches!(e, Error::S3SdkErrorDebug("S3 dispatch failure", _)));
}

#[test]
fn test_copy_argument_classification() {
    let uri_arg = CopyArgument::from_text("s3://bucket/k").unwrap();
    assert!(matches!(uri_arg, CopyArgument::Uri(_)));
    let local_arg = CopyArgument::from_text("./some/path").unwrap();
    assert!(matches!(local_arg, CopyArgument::LocalFile(p) if p == "./some/path"));
    assert!(CopyArgument::from_text("s3://ab/k").is_err());
}

#[test]
fn test_classify_copy_arguments() {
    let a = Uri::from_str("s3://bucket/a").unwrap();
    let b = Uri::from_str("s3://bucket/b").unwrap();
    let plan = classify_copy_arguments(vec![
        CopyArgument::Uri(a),
        CopyArgument::Uri(b),
        CopyArgument::LocalFile("out".to_string()),
    ])
    .unwrap();
    match plan {
        CopyPlan::Download(uris, to) => {
            assert_eq!(uris.len(), 2);
            assert_eq!(uris[0].key.as_str(), "a");
            assert_eq!(to, "out");
        },
        CopyPlan::Upload(..) => panic!("expected a download plan"),
    }

    let dest = Uri::from_str("s3://bucket/dest").unwrap();
    let plan = classify_copy_arguments(vec![
        CopyArgument::LocalFile("one".to_string()),
        CopyArgument::LocalFile("two".to_string()),
        CopyArgument::Uri(dest),
    ])
    .unwrap();
    match plan {
        CopyPlan::Upload(paths, to) => {
            assert_eq!(paths, vec!["one".to_string(), "two".to_string()]);
            assert_eq!(to.key.as_str(), "dest");
        },
        CopyPlan::Download(..) => panic!("expected an upload plan"),
    }

    let c = Uri::from_str("s3://bucket/c").unwrap();
    let d = Uri::from_str("s3://bucket/d").unwrap();
    assert!(classify_copy_arguments(vec![
        CopyArgument::Uri(c),
        CopyArgument::LocalFile("x".to_string()),
        CopyArgument::LocalFile("y".to_string()),
    ])
    .is_err());
    assert!(classify_copy_arguments(vec![
        CopyArgument::LocalFile("x".to_string()),
        CopyArgument::Uri(d),
        CopyArgument::LocalFile("y".to_string()),
    ])
    .is_err());
    assert!(classify_copy_arguments(vec![]).is_err());
}

#[test]
fn test_validate_bucket_uris() {
    let pure = Uri::from_str("s3://bucket").unwrap();
    let with_key = Uri::from_str("s3://bucket/k").unwrap();
    assert!(sup3::arguments::validate_bucket_uris(&vec![pure]));
    assert!(!sup3::arguments::validate_bucket_uris(&vec![with_key]));
}
