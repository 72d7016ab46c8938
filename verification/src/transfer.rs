use vstd::prelude::*;

use crate::errors::Error;
use crate::uri::{spec_filename, spec_rfind, Key, Uri};

verus! {

// ---------------------------------------------------------------------------
// Joining local path components.
// ---------------------------------------------------------------------------

/// `b` appended under `a`: a '/' is inserted unless `a` is empty or already
/// ends in one, or `b` already begins with one.
pub open spec fn spec_path_join(a: Seq<char>, b: Seq<char>) -> Seq<char> {
    if b.len() > 0 && b[0] == '/' {
        a + b
    } else if a.len() > 0 && a[a.len() - 1] != '/' {
        a + seq!['/'] + b
    } else {
        a + b
    }
}

pub fn path_join(a: &str, b: &str) -> (r: String)
    ensures
        r@ == spec_path_join(a@, b@),
{
    proof {
        reveal_strlit("/");
    }
    let na: usize = a.unicode_len();
    let nb: usize = b.unicode_len();
    let mut s: String = a.to_owned();
    if !(nb > 0 && b.get_char(0) == '/') && na > 0 && a.get_char(na - 1) != '/' {
        s.append("/");
        proof {
            assert(s@ =~= a@ + seq!['/']);
        }
    }
    s.append(b);
    proof {
        assert(s@ =~= spec_path_join(a@, b@));
    }
    s
}

// ---------------------------------------------------------------------------
// The local destination of a download.
// ---------------------------------------------------------------------------

/// The local destination: a single file, or a directory that files nest
/// under.
#[derive(Debug)]
pub enum Target {
    Directory(String),
    File(String),
}

impl Clone for Target {
    fn clone(&self) -> (r: Self)
        ensures
            r == *self,
    {
        match self {
            Target::Directory(p) => Target::Directory(p.clone()),
            Target::File(p) => Target::File(p.clone()),
        }
    }
}

impl Target {
    pub open spec fn spec_path(&self) -> Seq<char> {
        match self {
            Target::Directory(p) => p@,
            Target::File(p) => p@,
        }
    }

    /// The local path one remote object lands at: the file itself, or the
    /// object's filename under the directory; a directory target needs the
    /// source to supply a filename.
    pub fn local_path(&self, from: &Uri) -> (r: Result<String, Error>)
        ensures
            self matches Target::File(p) ==> (r matches Ok(q) && q@ == p@),
            self matches Target::Directory(p) ==> match spec_filename(from.key@) {
                Some(f) => r matches Ok(q) && q@ == spec_path_join(p@, f),
                None => r matches Err(e) && e is NoFilename,
            },
    {
        match self {
            Target::File(path) => Ok(path.clone()),
            Target::Directory(path) => match from.filename() {
                None => Err(Error::NoFilename),
                Some(f) => Ok(path_join(path.as_str(), f)),
            },
        }
    }

    pub fn path(&self) -> (r: String)
        ensures
            r@ == self.spec_path(),
    {
        match self {
            Target::Directory(p) => p.clone(),
            Target::File(p) => p.clone(),
        }
    }

    /// The nested directory target for a child discovered under this one.
    pub fn child(&self, child_directory: &str) -> (r: Target)
        ensures
            r matches Target::Directory(p) && p@ == spec_path_join(
                self.spec_path(),
                child_directory@,
            ),
    {
        Target::Directory(path_join(self.path().as_str(), child_directory))
    }
}

/// What probing the local destination path found.
#[derive(Clone, Copy, Debug, PartialEq, Eq, Structural)]
pub enum TargetProbe {
    IsDirectory,
    IsOther,
    Missing,
}

/// Choose the local destination once per request: an existing directory is
/// used as one; an existing non-directory can take a single source only; a
/// missing path becomes a directory (to be created) when several sources or
/// recursion call for one, else a file.
pub fn resolve_target(probe: TargetProbe, n_sources: usize, recursive: bool, to: &str) -> (r:
    Result<(Target, bool), &'static str>)
    ensures
        probe is IsDirectory ==> (r matches Ok(p) && p.0 matches Target::Directory(q) && q@ == to@
            && p.1 == false),
        probe is IsOther && n_sources > 1 ==> (r matches Err(m) && m@
            == "multiple uris and destination is not a directory"@),
        probe is IsOther && n_sources <= 1 ==> (r matches Ok(p) && p.0 matches Target::File(q)
            && q@ == to@ && p.1 == false),
        probe is Missing && (n_sources > 1 || recursive) ==> (r matches Ok(p) && p.0 matches
            Target::Directory(q) && q@ == to@ && p.1 == true),
        probe is Missing && !(n_sources > 1 || recursive) ==> (r matches Ok(p) && p.0 matches
            Target::File(q) && q@ == to@ && p.1 == false),
{
    match probe {
        TargetProbe::IsDirectory => Ok((Target::Directory(to.to_owned()), false)),
        TargetProbe::IsOther => {
            if n_sources > 1 {
                Err("multiple uris and destination is not a directory")
            } else {
                Ok((Target::File(to.to_owned()), false))
            }
        },
        TargetProbe::Missing => {
            if n_sources > 1 || recursive {
                Ok((Target::Directory(to.to_owned()), true))
            } else {
                Ok((Target::File(to.to_owned()), false))
            }
        },
    }
}

// ---------------------------------------------------------------------------
// Transfer-wide options.
// ---------------------------------------------------------------------------

/// How many transfers run at once, and whether a failure skips to the next
/// file or stops the batch.
#[derive(Clone, Copy, Debug)]
pub struct OptionsTransfer {
    pub concurrency: u16,
    pub continue_on_error: bool,
}

// ---------------------------------------------------------------------------
// The bounded concurrency budget.
// ---------------------------------------------------------------------------

pub ghost struct ConcurrencyLimiterView {
    pub limit: nat,
    pub in_flight: nat,
}

/// The accounting of leaf-transfer permits: at most `limit` transfers are in
/// flight at any moment, for every limit of one or more. The asynchronous
/// runner enforces the same bound with its semaphore; this type carries the
/// proved statement of the accounting.
pub struct ConcurrencyLimiter {
    limit: usize,
    in_flight: usize,
}

impl View for ConcurrencyLimiter {
    type V = ConcurrencyLimiterView;

    closed spec fn view(&self) -> ConcurrencyLimiterView {
        ConcurrencyLimiterView { limit: self.limit as nat, in_flight: self.in_flight as nat }
    }
}

impl ConcurrencyLimiter {
    #[verifier::type_invariant]
    spec fn wf(self) -> bool {
        self.in_flight <= self.limit && self.limit >= 1
    }

    pub fn new(limit: usize) -> (r: ConcurrencyLimiter)
        requires
            limit >= 1,
        ensures
            r@.limit == limit,
            r@.in_flight == 0,
    {
        ConcurrencyLimiter { limit, in_flight: 0 }
    }

    /// Take one permit if any is free; the bound is never exceeded.
    pub fn try_acquire(&mut self) -> (r: bool)
        ensures
            final(self)@.limit == old(self)@.limit,
            final(self)@.in_flight <= final(self)@.limit,
            r ==> old(self)@.in_flight < old(self)@.limit && final(self)@.in_flight == old(
                self,
            )@.in_flight + 1,
            !r ==> old(self)@.in_flight == old(self)@.limit && final(self)@.in_flight == old(
                self,
            )@.in_flight,
    {
        proof {
            use_type_invariant(&*self);
        }
        if self.in_flight < self.limit {
            self.in_flight = self.in_flight + 1;
            true
        } else {
            false
        }
    }

    /// Return one permit.
    pub fn release(&mut self)
        ensures
            final(self)@.limit == old(self)@.limit,
            final(self)@.in_flight <= final(self)@.limit,
            final(self)@.in_flight == if old(self)@.in_flight > 0 {
                old(self)@.in_flight - 1
            } else {
                0
            },
    {
        proof {
            use_type_invariant(&*self);
        }
        if self.in_flight > 0 {
            self.in_flight = self.in_flight - 1;
        }
    }

    pub fn in_flight(&self) -> (r: usize)
        ensures
            r == self@.in_flight,
            r <= self@.limit,
    {
        proof {
            use_type_invariant(&*self);
        }
        self.in_flight
    }
}

// ---------------------------------------------------------------------------
// Aggregating a batch's outcome.
// ---------------------------------------------------------------------------

pub ghost struct BatchStateView {
    pub error_count: nat,
    pub cancelled: bool,
    pub continue_on_error: bool,
}

/// The bookkeeping of one top-level batch: the running error total, whether
/// cancellation was observed, and the continue-on-error policy.
pub struct BatchState {
    error_count: u32,
    cancelled: bool,
    continue_on_error: bool,
}

impl View for BatchState {
    type V = BatchStateView;

    closed spec fn view(&self) -> BatchStateView {
        BatchStateView {
            error_count: self.error_count as nat,
            cancelled: self.cancelled,
            continue_on_error: self.continue_on_error,
        }
    }
}

impl BatchState {
    pub fn new(continue_on_error: bool) -> (r: BatchState)
        ensures
            r@.error_count == 0,
            !r@.cancelled,
            r@.continue_on_error == continue_on_error,
    {
        BatchState { error_count: 0, cancelled: false, continue_on_error }
    }

    /// Add one finished task's error count to the total: errors are counted,
    /// never dropped.
    pub fn record_task_result(&mut self, errors: u32)
        requires
            old(self)@.error_count + errors <= u32::MAX,
        ensures
            final(self)@.error_count == old(self)@.error_count + errors,
            final(self)@.cancelled == old(self)@.cancelled,
            final(self)@.continue_on_error == old(self)@.continue_on_error,
    {
        self.error_count = self.error_count + errors;
    }

    /// The cancellation signal is idempotent: once set it remains set.
    pub fn observe_cancellation(&mut self)
        ensures
            final(self)@.cancelled,
            final(self)@.error_count == old(self)@.error_count,
            final(self)@.continue_on_error == old(self)@.continue_on_error,
    {
        self.cancelled = true;
    }

    /// Whether another task may be launched: never after cancellation, and
    /// after a failure only under continue-on-error.
    pub fn should_launch_more(&self) -> (r: bool)
        ensures
            r == (!self@.cancelled && (self@.error_count == 0 || self@.continue_on_error)),
    {
        !self.cancelled && (self.error_count == 0 || self.continue_on_error)
    }

    pub fn error_count(&self) -> (r: u32)
        ensures
            r == self@.error_count,
    {
        self.error_count
    }

    /// The batch's outcome: cancellation takes precedence over a plain
    /// failure; otherwise the error total decides.
    pub fn result(&self) -> (r: crate::arguments::MainResult)
        ensures
            self@.cancelled ==> r is Cancelled,
            !self@.cancelled && self@.error_count == 0 ==> r is Success,
            !self@.cancelled && self@.error_count > 0 ==> r is ErrorSomeOperationsFailed,
    {
        if self.cancelled {
            crate::arguments::MainResult::Cancelled
        } else {
            crate::arguments::MainResult::from_error_count(self.error_count)
        }
    }
}

// ---------------------------------------------------------------------------
// The error total of a finished task tree.
// ---------------------------------------------------------------------------

/// The shape of one batch's finished work: a leaf transfer that failed or
/// succeeded, or a parent whose outcome aggregates its children's. The
/// asynchronous runner sums child counts the same way bottom-up; this type
/// carries the proved statement of that total.
#[derive(Debug)]
pub enum TaskTree {
    Leaf(bool),
    Node(Vec<TaskTree>),
}

/// How many leaf transfers in the tree terminated in failure.
pub open spec fn spec_failed_leaves(t: TaskTree) -> nat
    decreases t,
{
    match t {
        TaskTree::Leaf(failed) => if failed {
            1nat
        } else {
            0nat
        },
        TaskTree::Node(children) => spec_failed_leaves_upto(children@, children@.len() as int),
    }
}

pub open spec fn spec_failed_leaves_upto(s: Seq<TaskTree>, n: int) -> nat
    decreases s, n,
{
    if n <= 0 || n > s.len() {
        0nat
    } else {
        spec_failed_leaves_upto(s, n - 1) + spec_failed_leaves(s[n - 1])
    }
}

proof fn lemma_failed_leaves_upto_monotonic(s: Seq<TaskTree>, i: int, j: int)
    requires
        0 <= i <= j <= s.len(),
    ensures
        spec_failed_leaves_upto(s, i) <= spec_failed_leaves_upto(s, j),
    decreases j,
{
    if i < j {
        lemma_failed_leaves_upto_monotonic(s, i, j - 1);
    }
}

/// The error count of a batch equals the number of leaf transfers that
/// terminated in failure, whatever the tree's shape: parents add their
/// children's counts bottom-up and nothing else.
pub fn aggregate_errors(t: &TaskTree) -> (r: u32)
    requires
        spec_failed_leaves(*t) <= u32::MAX,
    ensures
        r == spec_failed_leaves(*t),
    decreases *t,
{
    match t {
        TaskTree::Leaf(failed) => if *failed {
            1
        } else {
            0
        },
        TaskTree::Node(children) => {
            let mut total: u32 = 0;
            let mut i: usize = 0;
            while i < children.len()
                invariant
                    *t is Node,
                    t->Node_0@ == children@,
                    i <= children.len(),
                    total == spec_failed_leaves_upto(children@, i as int),
                    spec_failed_leaves_upto(children@, children@.len() as int) <= u32::MAX,
                decreases children.len() - i,
            {
                proof {
                    lemma_failed_leaves_upto_monotonic(children@, i + 1, children@.len() as int);
                    assert(decreases_to!(*t => t->Node_0@[i as int]));
                    assert(children@[i as int] == t->Node_0@[i as int]);
                }
                let c = aggregate_errors(&children[i]);
                total = total + c;
                i = i + 1;
            }
            total
        },
    }
}

// ---------------------------------------------------------------------------
// Upload decisions.
// ---------------------------------------------------------------------------

/// What one upload task does with its path.
#[derive(Clone, Copy, Debug, PartialEq, Eq, Structural)]
pub enum UploadStep {
    TransferFile,
    ExpandDirectory,
    RejectDirectory,
}

/// A non-directory is transferred; a directory expands into child tasks when
/// recursion is on, and is a failure when it is not.
pub fn upload_task_step(is_directory: bool, recursive: bool) -> (r: UploadStep)
    ensures
        !is_directory ==> r is TransferFile,
        is_directory && recursive ==> r is ExpandDirectory,
        is_directory && !recursive ==> r is RejectDirectory,
{
    if !is_directory {
        UploadStep::TransferFile
    } else if recursive {
        UploadStep::ExpandDirectory
    } else {
        UploadStep::RejectDirectory
    }
}

/// The local filename available for an upload, if any.
#[derive(Debug)]
pub enum LocalName {
    Name(String),
    NotUnicode,
    Missing,
}

/// The object key an upload writes: the destination key itself when it names
/// a file, else the local filename appended to it; without either filename
/// the upload cannot be addressed.
pub fn upload_object_key(key: &Key, local: &LocalName) -> (r: Result<Key, Error>)
    ensures
        spec_filename(key@) is Some ==> (r matches Ok(k) && k@ == key@),
        spec_filename(key@) is None ==> match local {
            LocalName::Name(f) => r matches Ok(k) && k@ == key@ + f@,
            LocalName::Missing => r matches Err(e) && e is NoFilename,
            LocalName::NotUnicode => r matches Err(e) && e is LocalFilenameNotUnicode,
        },
{
    match key.filename() {
        Some(_) => Ok(key.clone()),
        None => match local {
            LocalName::Name(f) => {
                let mut k = key.clone();
                k.push(f.as_str());
                Ok(k)
            },
            LocalName::Missing => Err(Error::NoFilename),
            LocalName::NotUnicode => Err(Error::LocalFilenameNotUnicode),
        },
    }
}

/// Renders the upload destination as scheme://bucket/key.
pub fn destination_display(bucket: &str, key: &Key) -> (r: String)
    ensures
        r@ == "s3://"@ + bucket@ + "/"@ + key@,
{
    let mut s: String = "s3://".to_owned();
    s.append(bucket);
    s.append("/");
    s.append(key.as_str());
    s
}

// ---------------------------------------------------------------------------
// Download decisions.
// ---------------------------------------------------------------------------

/// The store errors on a root-key request, so an empty key is reported as
/// missing before any call is made.
pub fn get_precheck(from: &Uri) -> (r: Option<Error>)
    ensures
        from.key@.len() == 0 ==> (r matches Some(e) && e matches Error::NoSuchKey(u) && u.bucket@
            == from.bucket@ && u.key@ == from.key@),
        from.key@.len() > 0 ==> r is None,
{
    if from.key.is_empty() {
        Some(Error::NoSuchKey(from.clone()))
    } else {
        None
    }
}

/// A missing key on a recursive download is retried as an implicit
/// directory; any other failure, or a missing key without recursion, stands.
pub fn should_fall_back_to_listing(err: &Error, recursive: bool) -> (r: bool)
    ensures
        r == (recursive && err is NoSuchKey),
{
    recursive && matches!(err, Error::NoSuchKey(_))
}

/// The local path a discovered remote directory maps to: the key suffix
/// beyond the request, joined under the target; nothing when no suffix
/// remains.
pub fn directory_local_path(target: &Target, request_key: &Key, dir_key: &Key) -> (r: Option<
    String,
>)
    requires
        request_key@.is_prefix_of(dir_key@),
    ensures
        dir_key@.len() == request_key@.len() ==> r is None,
        dir_key@.len() > request_key@.len() ==> (r matches Some(p) && p@ == spec_path_join(
            target.spec_path(),
            dir_key@.skip(request_key@.len() as int),
        )),
{
    let rl: usize = request_key.as_str().unicode_len();
    let kl: usize = dir_key.as_str().unicode_len();
    if kl == rl {
        return None;
    }
    let additional = dir_key.as_str().substring_char(rl, kl);
    proof {
        assert(additional@ =~= dir_key@.skip(request_key@.len() as int));
    }
    Some(path_join(target.path().as_str(), additional))
}

/// The target a discovered remote file downloads into: nested under the
/// suffix's parent directory when the suffix has one, else the target
/// itself.
pub fn file_download_target(target: &Target, request_key: &Key, file_key: &Key) -> (r: Target)
    requires
        request_key@.is_prefix_of(file_key@),
    ensures
        ({
            let suffix = file_key@.skip(request_key@.len() as int);
            match spec_rfind(suffix, '/') {
                Some(i) => r matches Target::Directory(p) && p@ == spec_path_join(
                    target.spec_path(),
                    suffix.take(i),
                ),
                None => r == *target,
            }
        }),
{
    let rl: usize = request_key.as_str().unicode_len();
    let kl: usize = file_key.as_str().unicode_len();
    let additional = file_key.as_str().substring_char(rl, kl);
    proof {
        assert(additional@ =~= file_key@.skip(request_key@.len() as int));
    }
    let al: usize = additional.unicode_len();
    match crate::uri::rfind_char(additional, '/') {
        Some(i) => {
            proof {
                crate::uri::lemma_rfind(additional@, '/');
            }
            let dir = additional.substring_char(0, i);
            proof {
                assert(dir@ =~= additional@.take(i as int));
            }
            target.child(dir)
        },
        None => target.clone(),
    }
}

} // verus!
