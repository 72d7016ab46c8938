use vstd::prelude::*;

use crate::uri::{parsed_url, spec_bucket_error_message, spec_bucket_name_valid, spec_key_of_path, parts_component_error, Uri, UriError, UrlPartsView};

verus! {

// ---------------------------------------------------------------------------
// The outcome of one top-level command.
// ---------------------------------------------------------------------------

#[derive(Clone, Copy, Debug, PartialEq, Eq, Structural)]
pub enum MainResult {
    Success,
    ErrorArguments,
    ErrorSomeOperationsFailed,
    Cancelled,
}

impl MainResult {
    pub fn from_error_count(count: u32) -> (r: MainResult)
        ensures
            count == 0 ==> r is Success,
            count > 0 ==> r is ErrorSomeOperationsFailed,
    {
        match count {
            0 => MainResult::Success,
            _ => MainResult::ErrorSomeOperationsFailed,
        }
    }

    /// The process exit code each outcome reports.
    pub fn exit_code(&self) -> (r: u8)
        ensures
            self is Success ==> r == 0,
            self is ErrorArguments ==> r == 1,
            self is ErrorSomeOperationsFailed ==> r == 2,
            self is Cancelled ==> r == 3,
    {
        match self {
            MainResult::Success => 0,
            MainResult::ErrorArguments => 1,
            MainResult::ErrorSomeOperationsFailed => 2,
            MainResult::Cancelled => 3,
        }
    }
}

// ---------------------------------------------------------------------------
// Classifying the arguments of a copy command.
// ---------------------------------------------------------------------------

/// Either a remote address or a local path.
#[derive(Debug)]
pub enum CopyArgument {
    Uri(Uri),
    LocalFile(String),
}

/// What classifying address-like text must yield: text the parser rejects
/// outright is a local path; a parsed address is held to the same checks as
/// any other, and a defect in one is an error rather than a local path.
pub open spec fn spec_copy_outcome(p: UrlPartsView, r: Result<CopyArgument, UriError>) -> bool {
    if p.scheme != "s3"@ {
        r matches Err(e) && e is InvalidScheme
    } else {
        match parts_component_error(p) {
            Some(m) => r matches Err(e) && e matches UriError::InvalidUrlComponents(msg) && msg@
                == m,
            None => match p.host {
                None => r matches Err(e) && e is MissingBucket,
                Some(h) => if !spec_bucket_name_valid(h) {
                    r matches Err(e) && e matches UriError::InvalidBucketName(msg) && msg@
                        == spec_bucket_error_message(h)
                } else {
                    r matches Ok(c) && c matches CopyArgument::Uri(u) && u.bucket@ == h && u.key@
                        == spec_key_of_path(p.path)
                },
            },
        }
    }
}

impl CopyArgument {
    /// Classify one copy argument by attempting to parse it as an address.
    pub fn from_text(arg: &str) -> (r: Result<CopyArgument, UriError>)
        ensures
            parsed_url(arg@) is None ==> (r matches Ok(c) && c matches CopyArgument::LocalFile(p)
                && p@ == arg@),
            parsed_url(arg@) matches Some(pv) ==> spec_copy_outcome(pv, r),
    {
        match Uri::from_str(arg) {
            Ok(uri) => Ok(CopyArgument::Uri(uri)),
            Err(UriError::ParseError) => Ok(CopyArgument::LocalFile(arg.to_owned())),
            Err(other) => Err(other),
        }
    }
}

/// The work a copy command resolves to: a download of remote addresses into
/// a local path, or an upload of local paths to a remote address.
#[derive(Debug)]
pub enum CopyPlan {
    Download(Vec<Uri>, String),
    Upload(Vec<String>, Uri),
}

pub open spec fn spec_all_uris(s: Seq<CopyArgument>) -> bool {
    forall|i: int| 0 <= i < s.len() ==> (#[trigger] s[i]) is Uri
}

pub open spec fn spec_all_locals(s: Seq<CopyArgument>) -> bool {
    forall|i: int| 0 <= i < s.len() ==> (#[trigger] s[i]) is LocalFile
}

/// Split copy arguments into sources and destination: remote sources with a
/// final local destination make a download, local sources with a final
/// remote destination an upload; any other mixture is a usage error.
#[verifier::loop_isolation(false)]
pub fn classify_copy_arguments(args: Vec<CopyArgument>) -> (r: Result<CopyPlan, &'static str>)
    ensures
        args@.len() == 0 ==> (r matches Err(m) && m@
            == "cp requires either <S3 URI..> <local path> or <local path..> <S3 URI>"@),
        args@.len() > 0 && args@.last() is LocalFile && spec_all_uris(args@.drop_last()) ==> (
        r matches Ok(p) && p matches CopyPlan::Download(uris, to) && uris@.len() == args@.len() - 1
            && (args@.last() matches CopyArgument::LocalFile(t) && to@ == t@) && (forall|i: int|
            0 <= i < uris@.len() ==> (#[trigger] uris@[i]) == args@[i]->Uri_0)),
        args@.len() > 0 && args@.last() is Uri && spec_all_locals(args@.drop_last()) ==> (
        r matches Ok(p) && p matches CopyPlan::Upload(paths, to) && paths@.len() == args@.len() - 1
            && (args@.last() matches CopyArgument::Uri(t) && to == t) && (forall|i: int|
            0 <= i < paths@.len() ==> (#[trigger] paths@[i]) == args@[i]->LocalFile_0)),
        args@.len() > 0 && args@.last() is LocalFile && !spec_all_uris(args@.drop_last()) ==> (
        r matches Err(m) && m@
            == "cp requires either <S3 URI..> <local path> or <local path..> <S3 URI>"@),
        args@.len() > 0 && args@.last() is Uri && !spec_all_locals(args@.drop_last()) ==> (
        r matches Err(m) && m@
            == "cp requires either <S3 URI..> <local path> or <local path..> <S3 URI>"@),
{
    let ghost adv = args@;
    let n: usize = args.len();
    if n == 0 {
        return Err("cp requires either <S3 URI..> <local path> or <local path..> <S3 URI>");
    }
    let mut rest = args;
    let last = rest.pop().unwrap();
    proof {
        assert(rest@ =~= adv.drop_last());
        assert(adv.last() == last);
    }
    match last {
        CopyArgument::LocalFile(to) => {
            let mut uris: Vec<Uri> = Vec::new();
            let mut i: usize = 0;
            while i < rest.len()
                invariant
                    i <= rest.len(),
                    rest@ == adv.drop_last(),
                    uris@.len() == i,
                    forall|k: int| 0 <= k < i ==> (#[trigger] rest@[k]) is Uri,
                    forall|k: int| 0 <= k < i ==> (#[trigger] uris@[k]) == rest@[k]->Uri_0,
                decreases rest.len() - i,
            {
                match &rest[i] {
                    CopyArgument::Uri(u) => {
                        uris.push(u.clone());
                        proof {
                            assert(uris@[i as int] == rest@[i as int]->Uri_0);
                        }
                    },
                    CopyArgument::LocalFile(_) => {
                        proof {
                            assert(rest@[i as int] is LocalFile);
                        }
                        return Err(
                            "cp requires either <S3 URI..> <local path> or <local path..> <S3 URI>",
                        );
                    },
                }
                i = i + 1;
            }
            proof {
                assert(spec_all_uris(adv.drop_last()));
            }
            Ok(CopyPlan::Download(uris, to))
        },
        CopyArgument::Uri(to) => {
            let mut paths: Vec<String> = Vec::new();
            let mut i: usize = 0;
            while i < rest.len()
                invariant
                    i <= rest.len(),
                    rest@ == adv.drop_last(),
                    paths@.len() == i,
                    forall|k: int| 0 <= k < i ==> (#[trigger] rest@[k]) is LocalFile,
                    forall|k: int| 0 <= k < i ==> (#[trigger] paths@[k]) == rest@[k]->LocalFile_0,
                decreases rest.len() - i,
            {
                match &rest[i] {
                    CopyArgument::LocalFile(p) => {
                        paths.push(p.clone());
                        proof {
                            assert(paths@[i as int] == rest@[i as int]->LocalFile_0);
                        }
                    },
                    CopyArgument::Uri(_) => {
                        proof {
                            assert(rest@[i as int] is Uri);
                        }
                        return Err(
                            "cp requires either <S3 URI..> <local path> or <local path..> <S3 URI>",
                        );
                    },
                }
                i = i + 1;
            }
            proof {
                assert(spec_all_locals(adv.drop_last()));
            }
            Ok(CopyPlan::Upload(paths, to))
        },
    }
}

/// A bucket-creation command takes pure bucket addresses: every key must be
/// empty.
pub fn validate_bucket_uris(uris: &Vec<Uri>) -> (r: bool)
    ensures
        r == (forall|i: int| 0 <= i < uris@.len() ==> (#[trigger] uris@[i]).key@.len() == 0),
{
    let mut i: usize = 0;
    while i < uris.len()
        invariant
            i <= uris.len(),
            forall|k: int| 0 <= k < i ==> (#[trigger] uris@[k]).key@.len() == 0,
        decreases uris.len() - i,
    {
        if !uris[i].key.is_empty() {
            return false;
        }
        i = i + 1;
    }
    true
}

} // verus!
