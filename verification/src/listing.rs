use vstd::prelude::*;

use crate::errors::Error;
use crate::glob::{as_key_and_glob, spec_glob_candidate, spec_glob_recognized, spec_has_recursive_wildcard, wax_prefix, wax_residual_match, Glob, GlobView, Options};
use crate::seen_directories::{spec_dirname, spec_missing_chain, SeenDirectories};
use crate::uri::{ends_with_slash, lemma_rfind, rfind_char, spec_basename, spec_is_explicit_directory, spec_to_explicit_directory, starts_with_str, str_eq, strip_trailing_slash, Key, Uri};

verus! {

// ---------------------------------------------------------------------------
// The modelled shape of one page of a flat listing: direct object matches,
// common-prefix groups, and the cursor for the next page.
// ---------------------------------------------------------------------------

pub ghost struct ListEntryView {
    pub key: Seq<char>,
    pub size: int,
    pub last_modified: Option<Seq<char>>,
    pub storage_class: Option<Seq<char>>,
}

/// One object a listing reported: its key and the display metadata.
#[derive(Debug)]
pub struct ListEntry {
    pub key: String,
    pub size: i64,
    pub last_modified: Option<String>,
    pub storage_class: Option<String>,
}

impl View for ListEntry {
    type V = ListEntryView;

    open spec fn view(&self) -> ListEntryView {
        ListEntryView {
            key: self.key@,
            size: self.size as int,
            last_modified: match self.last_modified {
                Some(m) => Some(m@),
                None => None,
            },
            storage_class: match self.storage_class {
                Some(c) => Some(c@),
                None => None,
            },
        }
    }
}

impl DeepView for ListEntry {
    type V = ListEntryView;

    open spec fn deep_view(&self) -> ListEntryView {
        self.view()
    }
}

pub ghost struct ListPageView {
    pub files: Seq<ListEntryView>,
    pub common_prefixes: Seq<Seq<char>>,
    pub next_continuation_token: Option<Seq<char>>,
}

/// One page of a listing, as plain values.
pub struct ListPage {
    pub files: Vec<ListEntry>,
    pub common_prefixes: Vec<String>,
    pub next_continuation_token: Option<String>,
}

impl View for ListPage {
    type V = ListPageView;

    open spec fn view(&self) -> ListPageView {
        ListPageView {
            files: self.files.deep_view(),
            common_prefixes: self.common_prefixes.deep_view(),
            next_continuation_token: match self.next_continuation_token {
                Some(t) => Some(t@),
                None => None,
            },
        }
    }
}

/// The keys of a page's direct object matches.
pub open spec fn spec_file_keys(files: Seq<ListEntryView>) -> Seq<Seq<char>> {
    files.map_values(|e: ListEntryView| e.key)
}

// ---------------------------------------------------------------------------
// Listing options.
// ---------------------------------------------------------------------------

pub struct ListArguments {
    pub full_path: bool,
    pub long: bool,
    pub directory: bool,
    pub substring: bool,
    pub recurse: bool,
    pub only_directories: bool,
    pub only_files: bool,
    pub glob_options: Options,
}

impl ListArguments {
    /// Recursion together with a forced glob is not supported.
    pub fn validate(&self) -> (r: Result<(), &'static str>)
        ensures
            (r is Err) == (self.glob_options.glob is On && self.recurse),
            r matches Err(m) ==> m@ == "recurse with glob currently not supported"@,
    {
        if self.glob_options.is_enabled() && self.recurse {
            Err("recurse with glob currently not supported")
        } else {
            Ok(())
        }
    }
}

// ---------------------------------------------------------------------------
// When a candidate key matches the request.
// ---------------------------------------------------------------------------

pub open spec fn spec_glob_view_opt(glob: Option<&Glob>) -> Option<GlobView> {
    match glob {
        Some(g) => Some(g@),
        None => None,
    }
}

/// A candidate matches when: substring mode accepts everything; the key
/// equals the request; a present glob decides; the request denotes a
/// directory and the key starts with its directory portion; recursion is on
/// and the key extends the request at a '/' boundary; or the key is the
/// request with one trailing '/' added.
pub open spec fn spec_key_matches(
    requested: Seq<char>,
    key: Seq<char>,
    substring: bool,
    recurse: bool,
    glob: Option<GlobView>,
) -> bool {
    if substring {
        true
    } else if requested == key {
        true
    } else {
        match glob {
            Some(g) => wax_residual_match(g.pattern, spec_glob_candidate(key, g.prefix)),
            None => if spec_is_explicit_directory(requested) {
                spec_basename(requested).is_prefix_of(key)
            } else if recurse && requested.is_prefix_of(key) {
                key.len() > requested.len() && key[requested.len() as int] == '/'
            } else {
                ends_with_slash(key) && key.drop_last() == requested
            },
        }
    }
}

pub fn key_matches_requested(
    requested: &Key,
    key: &str,
    args: &ListArguments,
    glob: Option<&Glob>,
) -> (r: bool)
    requires
        glob matches Some(g) ==> g@.prefix.is_prefix_of(key@),
    ensures
        r == spec_key_matches(
            requested@,
            key@,
            args.substring,
            args.recurse,
            spec_glob_view_opt(glob),
        ),
{
    if args.substring {
        return true;
    }
    if str_eq(requested.as_str(), key) {
        return true;
    }
    match glob {
        Some(g) => {
            return g.matches(key);
        },
        None => {},
    }
    if requested.is_explicitly_directory() {
        return starts_with_str(key, requested.basename());
    } else if args.recurse {
        if starts_with_str(key, requested.as_str()) {
            let rl: usize = requested.as_str().unicode_len();
            let kl: usize = key.unicode_len();
            return kl > rl && key.get_char(rl) == '/';
        }
    }
    let kl: usize = key.unicode_len();
    if kl > 0 && key.get_char(kl - 1) == '/' {
        let trimmed = key.substring_char(0, kl - 1);
        proof {
            assert(trimmed@ =~= key@.drop_last());
        }
        if str_eq(trimmed, requested.as_str()) {
            return true;
        }
    }
    false
}

// ---------------------------------------------------------------------------
// Whether the requested path turned out to be a directory.
// ---------------------------------------------------------------------------

/// Some listed object lies strictly below the requested path.
pub open spec fn spec_is_requested_path_directory(
    keys: Seq<Seq<char>>,
    requested: Seq<char>,
) -> bool {
    exists|i: int|
        0 <= i < keys.len() && #[trigger] keys[i].len() > requested.len()
            && requested.is_prefix_of(keys[i]) && keys[i][requested.len() as int] == '/'
}

pub fn is_requested_path_directory(page: &ListPage, requested_path: &Key) -> (r: bool)
    ensures
        r == spec_is_requested_path_directory(spec_file_keys(page@.files), requested_path@),
{
    let rl: usize = requested_path.as_str().unicode_len();
    let mut i: usize = 0;
    while i < page.files.len()
        invariant
            i <= page.files.len(),
            rl == requested_path@.len(),
            forall|j: int|
                0 <= j < i ==> !(#[trigger] spec_file_keys(page@.files)[j].len()
                    > requested_path@.len() && requested_path@.is_prefix_of(
                    spec_file_keys(page@.files)[j],
                ) && spec_file_keys(page@.files)[j][requested_path@.len() as int] == '/'),
        decreases page.files.len() - i,
    {
        let name = page.files[i].key.as_str();
        let nl: usize = name.unicode_len();
        if starts_with_str(name, requested_path.as_str()) && nl > rl && name.get_char(rl) == '/' {
            proof {
                assert(spec_file_keys(page@.files)[i as int] == name@);
            }
            return true;
        }
        proof {
            assert(spec_file_keys(page@.files)[i as int] == name@);
        }
        i = i + 1;
    }
    false
}

// ---------------------------------------------------------------------------
// The free-standing directory portion of a path.
// ---------------------------------------------------------------------------

/// The path truncated just after its final '/'.
pub fn basename(path: &str) -> (r: &str)
    ensures
        r@ == spec_basename(path@),
{
    let _n: usize = path.unicode_len();
    match rfind_char(path, '/') {
        None => path.substring_char(0, 0),
        Some(i) => {
            proof {
                lemma_rfind(path@, '/');
            }
            path.substring_char(0, i + 1)
        },
    }
}

// ---------------------------------------------------------------------------
// Display names.
// ---------------------------------------------------------------------------

/// What quoting a name for the shell yields; depends on the text alone.
pub uninterp spec fn shell_escaped(s: Seq<char>) -> Seq<char>;

/// Relies on shell_escape::unix::escape: quotes a name for shell display.
/// The unix escaper is used on every platform because it alone is a pure
/// function of the text (the top-level escape dispatches on the platform
/// and an environment variable).
#[verifier::external_body]
fn shell_escape_str(s: &str) -> (r: String)
    ensures
        r@ == shell_escaped(s@),
{
    shell_escape::unix::escape(std::borrow::Cow::from(s)).into_owned()
}

/// The name a key displays as before quoting: the full address in full-path
/// mode (a bare "/" key renders as the bucket root), otherwise the key with
/// the directory prefix stripped.
pub open spec fn spec_display_name(
    key: Seq<char>,
    bucket: Seq<char>,
    full_path: bool,
    directory_prefix: Seq<char>,
) -> Seq<char> {
    if full_path {
        "s3://"@ + bucket + "/"@ + (if key == "/"@ {
            Seq::<char>::empty()
        } else {
            key
        })
    } else {
        if directory_prefix.is_prefix_of(key) {
            key.skip(directory_prefix.len() as int)
        } else {
            key
        }
    }
}

pub fn printable_filename(
    key: &str,
    bucket: &str,
    args: &ListArguments,
    directory_prefix: &Key,
) -> (r: String)
    ensures
        r@ == shell_escaped(
            spec_display_name(key@, bucket@, args.full_path, directory_prefix@),
        ),
{
    if args.full_path {
        let mut s: String = "s3://".to_owned();
        s.append(bucket);
        s.append("/");
        if !str_eq(key, "/") {
            s.append(key);
            proof {
                assert(s@ =~= spec_display_name(
                    key@,
                    bucket@,
                    args.full_path,
                    directory_prefix@,
                ));
            }
        } else {
            proof {
                assert(s@ =~= spec_display_name(
                    key@,
                    bucket@,
                    args.full_path,
                    directory_prefix@,
                ));
            }
        }
        shell_escape_str(s.as_str())
    } else {
        let kl: usize = key.unicode_len();
        if starts_with_str(key, directory_prefix.as_str()) {
            let pl: usize = directory_prefix.as_str().unicode_len();
            let stripped = key.substring_char(pl, kl);
            proof {
                assert(stripped@ =~= key@.skip(directory_prefix@.len() as int));
            }
            shell_escape_str(stripped)
        } else {
            shell_escape_str(key)
        }
    }
}

// ---------------------------------------------------------------------------
// Planning one listing request.
// ---------------------------------------------------------------------------

/// The effective request: the recognized pattern if any, the prefix actually
/// sent to the backend, and the delimiter (absent when recursion or a
/// recursive wildcard forces a flat listing).
pub struct LsPlan {
    pub glob: Option<Glob>,
    pub key: Key,
    pub delimiter: Option<char>,
}

pub fn ls_request_plan(uri_key: &Key, args: &ListArguments) -> (r: LsPlan)
    ensures
        (r.glob is Some) == spec_glob_recognized(uri_key@, args.glob_options.glob),
        r.glob matches Some(g) ==> g@.pattern == uri_key@ && g@.prefix == wax_prefix(uri_key@)
            && g@.has_recursive_wildcard == spec_has_recursive_wildcard(uri_key@),
        r.key@ == if spec_glob_recognized(uri_key@, args.glob_options.glob) {
            wax_prefix(uri_key@)
        } else {
            uri_key@
        },
        (r.delimiter is None) == (args.recurse || (spec_glob_recognized(
            uri_key@,
            args.glob_options.glob,
        ) && spec_has_recursive_wildcard(uri_key@))),
        r.delimiter matches Some(c) ==> c == '/',
{
    let glob = as_key_and_glob(uri_key, &args.glob_options);
    let key: Key = match &glob {
        None => uri_key.clone(),
        Some(g) => g.prefix().clone(),
    };
    let has_recursive_glob: bool = match &glob {
        Some(g) => g.has_recursive_wildcard(),
        None => false,
    };
    let delimiter: Option<char> = if args.recurse || has_recursive_glob {
        None
    } else {
        Some('/')
    };
    LsPlan { glob, key, delimiter }
}

/// When the only result is a single common prefix equal to the requested key
/// made explicitly a directory, the request named an implicit directory and
/// the listing is reissued against it.
pub fn ls_directory_redirect(
    args: &ListArguments,
    glob_absent: bool,
    page: &ListPage,
    requested: &Key,
) -> (r: Option<Key>)
    ensures
        (r is Some) == (!args.directory && glob_absent && page@.files.len() == 0
            && page@.common_prefixes.len() == 1 && page@.common_prefixes[0]
            == spec_to_explicit_directory(requested@)),
        r matches Some(k) ==> k@ == spec_to_explicit_directory(requested@),
{
    if args.directory || !glob_absent {
        return None;
    }
    if page.files.len() != 0 {
        return None;
    }
    if page.common_prefixes.len() != 1 {
        return None;
    }
    let dir_name = requested.to_explicit_directory();
    if str_eq(page.common_prefixes[0].as_str(), dir_name.as_str()) {
        Some(dir_name)
    } else {
        None
    }
}

/// The prefix names are displayed relative to: the request itself made a
/// directory when recursing into a path that turned out to be one, else its
/// directory portion.
pub fn ls_directory_prefix(args: &ListArguments, relative_root: &Key, page: &ListPage) -> (r: Key)
    ensures
        r@ == if args.recurse && !spec_is_explicit_directory(relative_root@)
            && spec_is_requested_path_directory(spec_file_keys(page@.files), relative_root@) {
            spec_to_explicit_directory(relative_root@)
        } else {
            spec_basename(relative_root@)
        },
{
    if args.recurse && !relative_root.is_explicitly_directory() && is_requested_path_directory(
        page,
        relative_root,
    ) {
        relative_root.to_explicit_directory()
    } else {
        relative_root.basename_key()
    }
}

// ---------------------------------------------------------------------------
// Flattening a recursive listing into directory and file items.
// ---------------------------------------------------------------------------

pub ghost enum RecursiveStreamItemView {
    Directory(Seq<char>),
    File(Seq<char>),
}

#[derive(Debug)]
pub enum RecursiveStreamItem {
    Directory(Key),
    File(Key),
}

impl View for RecursiveStreamItem {
    type V = RecursiveStreamItemView;

    open spec fn view(&self) -> RecursiveStreamItemView {
        match self {
            RecursiveStreamItem::Directory(k) => RecursiveStreamItemView::Directory(k@),
            RecursiveStreamItem::File(k) => RecursiveStreamItemView::File(k@),
        }
    }
}

impl DeepView for RecursiveStreamItem {
    type V = RecursiveStreamItemView;

    open spec fn deep_view(&self) -> RecursiveStreamItemView {
        self.view()
    }
}

/// The directory items one key's unseen-ancestor chain contributes,
/// shallowest first (the chain itself runs deepest first).
pub open spec fn spec_dir_items_of(chain: Seq<Seq<char>>) -> Seq<RecursiveStreamItemView> {
    Seq::new(
        chain.len(),
        |i: int| RecursiveStreamItemView::Directory(chain[chain.len() - 1 - i]),
    )
}

/// The recorded directories after one key's ancestors are added.
pub open spec fn spec_seen_after_key(
    seen: Set<Seq<char>>,
    plen: nat,
    key: Seq<char>,
) -> Set<Seq<char>> {
    Set::new(
        |d: Seq<char>|
            seen.contains(d) || spec_missing_chain(seen, plen, spec_dirname(key)).contains(d),
    )
}

/// What a run of keys unrolls to: for each key, its not-yet-seen ancestor
/// directories top-down, then the key itself as a file.
pub open spec fn spec_recursive_items(
    seen: Set<Seq<char>>,
    plen: nat,
    keys: Seq<Seq<char>>,
) -> Seq<RecursiveStreamItemView>
    decreases keys.len(),
{
    if keys.len() == 0 {
        Seq::<RecursiveStreamItemView>::empty()
    } else {
        spec_dir_items_of(spec_missing_chain(seen, plen, spec_dirname(keys[0]))) + seq![
            RecursiveStreamItemView::File(keys[0]),
        ] + spec_recursive_items(spec_seen_after_key(seen, plen, keys[0]), plen, keys.skip(1))
    }
}

/// The recorded directories after a run of keys.
pub open spec fn spec_seen_after_keys(
    seen: Set<Seq<char>>,
    plen: nat,
    keys: Seq<Seq<char>>,
) -> Set<Seq<char>>
    decreases keys.len(),
{
    if keys.len() == 0 {
        seen
    } else {
        spec_seen_after_keys(spec_seen_after_key(seen, plen, keys[0]), plen, keys.skip(1))
    }
}

/// Flatten one page of keys listed under a prefix into stream items. An
/// empty page ends the stream when more pages are promised, and is a
/// missing-key failure when none are: an implicit directory with no objects
/// beneath it does not exist.
pub fn recursive_page_items(
    keys: &Vec<String>,
    next_token: Option<String>,
    uri: &Uri,
    seen: &mut SeenDirectories,
) -> (r: Result<Option<(Vec<RecursiveStreamItem>, Option<String>)>, Error>)
    ensures
        final(seen)@.prefix_len == old(seen)@.prefix_len,
        final(seen)@.seen =~= spec_seen_after_keys(
            old(seen)@.seen,
            old(seen)@.prefix_len,
            keys.deep_view(),
        ),
        keys.deep_view().len() == 0 && (next_token is Some) ==> (r matches Ok(o) && o is None),
        keys.deep_view().len() == 0 && (next_token is None) ==> (r matches Err(e) && e matches
            Error::NoSuchKey(u) && u.bucket@ == uri.bucket@ && u.key@ == uri.key@),
        keys.deep_view().len() > 0 ==> (r matches Ok(o) && o matches Some(pair)
            && pair.0.deep_view() == spec_recursive_items(
            old(seen)@.seen,
            old(seen)@.prefix_len,
            keys.deep_view(),
        ) && pair.1 == next_token),
{
    let ghost seen0 = seen@.seen;
    let ghost plen = seen@.prefix_len;
    let ghost kdv = keys.deep_view();
    let mut ret: Vec<RecursiveStreamItem> = Vec::new();
    let mut i: usize = 0;
    proof {
        assert(kdv.skip(0) =~= kdv);
        assert(ret.deep_view() + spec_recursive_items(seen@.seen, plen, kdv)
            =~= spec_recursive_items(seen0, plen, kdv));
    }
    while i < keys.len()
        invariant
            i <= keys.len(),
            keys.deep_view() == kdv,
            kdv.len() == keys.len(),
            seen@.prefix_len == plen,
            spec_recursive_items(seen0, plen, kdv) == ret.deep_view() + spec_recursive_items(
                seen@.seen,
                plen,
                kdv.skip(i as int),
            ),
            spec_seen_after_keys(seen0, plen, kdv) =~= spec_seen_after_keys(
                seen@.seen,
                plen,
                kdv.skip(i as int),
            ),
        decreases keys.len() - i,
    {
        let ghost cur_seen = seen@.seen;
        let ghost pre_ret = ret.deep_view();
        let ghost chain = spec_missing_chain(cur_seen, plen, spec_dirname(kdv[i as int]));
        proof {
            assert(kdv[i as int] == keys@[i as int]@);
        }
        let dirs = seen.add_key(keys[i].as_str());
        let mut d: usize = 0;
        while d < dirs.len()
            invariant
                d <= dirs.len(),
                dirs.deep_view().len() == chain.len(),
                forall|k: int|
                    0 <= k < dirs.deep_view().len() ==> dirs.deep_view()[k] == chain[chain.len()
                        - 1 - k],
                ret.deep_view() == pre_ret + spec_dir_items_of(chain).take(d as int),
            decreases dirs.len() - d,
        {
            let ghost pr = ret.deep_view();
            let item = RecursiveStreamItem::Directory(Key::new(dirs[d].clone()));
            proof {
                assert(dirs.deep_view()[d as int] == dirs@[d as int]@);
                assert(item@ == RecursiveStreamItemView::Directory(chain[chain.len() - 1 - d]));
            }
            ret.push(item);
            proof {
                assert(ret.deep_view() =~= pr.push(
                    RecursiveStreamItemView::Directory(chain[chain.len() - 1 - d]),
                ));
                assert(ret.deep_view() =~= pre_ret + spec_dir_items_of(chain).take(d + 1));
            }
            d = d + 1;
        }
        let ghost pr2 = ret.deep_view();
        ret.push(RecursiveStreamItem::File(Key::new(keys[i].clone())));
        proof {
            assert(spec_dir_items_of(chain).take(chain.len() as int) =~= spec_dir_items_of(
                chain,
            ));
            assert(ret.deep_view() =~= pre_ret + spec_dir_items_of(chain) + seq![
                RecursiveStreamItemView::File(kdv[i as int]),
            ]);
            assert(seen@.seen =~= spec_seen_after_key(cur_seen, plen, kdv[i as int]));
            assert(kdv.skip(i as int)[0] == kdv[i as int]);
            assert(kdv.skip(i as int).skip(1) =~= kdv.skip(i + 1));
            assert(spec_recursive_items(cur_seen, plen, kdv.skip(i as int))
                == spec_dir_items_of(chain) + seq![RecursiveStreamItemView::File(kdv[i as int])]
                + spec_recursive_items(seen@.seen, plen, kdv.skip(i + 1)));
            assert(ret.deep_view() + spec_recursive_items(seen@.seen, plen, kdv.skip(i + 1))
                =~= pre_ret + spec_recursive_items(cur_seen, plen, kdv.skip(i as int)));
            assert(spec_seen_after_keys(cur_seen, plen, kdv.skip(i as int))
                =~= spec_seen_after_keys(seen@.seen, plen, kdv.skip(i + 1)));
        }
        i = i + 1;
    }
    proof {
        assert(kdv.skip(i as int) =~= Seq::<Seq<char>>::empty());
        assert(ret.deep_view() + Seq::<RecursiveStreamItemView>::empty() =~= ret.deep_view());
    }
    if keys.len() == 0 {
        if next_token.is_some() {
            Ok(None)
        } else {
            Err(Error::NoSuchKey(uri.clone()))
        }
    } else {
        Ok(Some((ret, next_token)))
    }
}

// ---------------------------------------------------------------------------
// Consuming one page of a user-facing listing.
// ---------------------------------------------------------------------------

pub ghost enum LsItemView {
    Directory(Seq<char>),
    File(ListEntryView),
}

/// One entry a listing displays: a (possibly synthetic) directory under its
/// raw key, or an object with its metadata.
#[derive(Debug)]
pub enum LsItem {
    Directory(String),
    File(ListEntry),
}

impl View for LsItem {
    type V = LsItemView;

    open spec fn view(&self) -> LsItemView {
        match self {
            LsItem::Directory(k) => LsItemView::Directory(k@),
            LsItem::File(e) => LsItemView::File(e@),
        }
    }
}

impl DeepView for LsItem {
    type V = LsItemView;

    open spec fn deep_view(&self) -> LsItemView {
        self.view()
    }
}

impl Clone for ListEntry {
    fn clone(&self) -> (r: Self)
        ensures
            r == *self,
            r@ == self@,
    {
        ListEntry {
            key: self.key.clone(),
            size: self.size,
            last_modified: match &self.last_modified {
                Some(m) => Some(m.clone()),
                None => None,
            },
            storage_class: match &self.storage_class {
                Some(c) => Some(c.clone()),
                None => None,
            },
        }
    }
}

pub open spec fn spec_glob_prefix_ok(glob: Option<GlobView>, key: Seq<char>) -> bool {
    match glob {
        Some(g) => g.prefix.is_prefix_of(key),
        None => true,
    }
}

/// The directory entries a page's common-prefix groups display.
pub open spec fn spec_ls_prefix_items(
    prefixes: Seq<Seq<char>>,
    req: Seq<char>,
    args: ListArguments,
    glob: Option<GlobView>,
) -> Seq<LsItemView>
    decreases prefixes.len(),
{
    if prefixes.len() == 0 {
        Seq::<LsItemView>::empty()
    } else {
        (if spec_key_matches(req, prefixes[0], args.substring, args.recurse, glob) {
            seq![LsItemView::Directory(prefixes[0])]
        } else {
            Seq::<LsItemView>::empty()
        }) + spec_ls_prefix_items(prefixes.skip(1), req, args, glob)
    }
}

/// The directory entries one unseen-ancestor chain displays, shallowest
/// first, each subject to matching.
pub open spec fn spec_ls_chain_items(
    chain: Seq<Seq<char>>,
    req: Seq<char>,
    args: ListArguments,
    glob: Option<GlobView>,
) -> Seq<LsItemView>
    decreases chain.len(),
{
    if chain.len() == 0 {
        Seq::<LsItemView>::empty()
    } else {
        (if spec_key_matches(req, chain.last(), args.substring, args.recurse, glob) {
            seq![LsItemView::Directory(chain.last())]
        } else {
            Seq::<LsItemView>::empty()
        }) + spec_ls_chain_items(chain.drop_last(), req, args, glob)
    }
}

/// Whether one object entry triggers the synthetic-directory pass.
pub open spec fn spec_ls_file_synthesizes(
    args: ListArguments,
    glob: Option<GlobView>,
    dprefix: Seq<char>,
    e: ListEntryView,
) -> bool {
    &&& spec_key_matches(dprefix, e.key, args.substring, args.recurse, glob)
    &&& !args.only_files
    &&& (args.recurse || glob is Some)
    &&& spec_basename(e.key) != dprefix
}

/// What one object entry displays: nothing when it fails the match; else any
/// newly seen ancestor directories (in recursive or glob mode), then the
/// object itself unless only directories were asked for.
pub open spec fn spec_ls_file_items(
    seen: Set<Seq<char>>,
    plen: nat,
    args: ListArguments,
    dprefix: Seq<char>,
    glob: Option<GlobView>,
    e: ListEntryView,
) -> Seq<LsItemView> {
    if !spec_key_matches(dprefix, e.key, args.substring, args.recurse, glob) {
        Seq::<LsItemView>::empty()
    } else {
        (if spec_ls_file_synthesizes(args, glob, dprefix, e) {
            spec_ls_chain_items(
                spec_missing_chain(seen, plen, spec_dirname(spec_basename(e.key))),
                dprefix,
                args,
                glob,
            )
        } else {
            Seq::<LsItemView>::empty()
        }) + (if !args.only_directories {
            seq![LsItemView::File(e)]
        } else {
            Seq::<LsItemView>::empty()
        })
    }
}

/// The recorded directories after one object entry.
pub open spec fn spec_ls_seen_after_file(
    seen: Set<Seq<char>>,
    plen: nat,
    args: ListArguments,
    dprefix: Seq<char>,
    glob: Option<GlobView>,
    e: ListEntryView,
) -> Set<Seq<char>> {
    if spec_ls_file_synthesizes(args, glob, dprefix, e) {
        spec_seen_after_key(seen, plen, spec_basename(e.key))
    } else {
        seen
    }
}

/// What a page's object entries display, in order.
pub open spec fn spec_ls_file_fold(
    seen: Set<Seq<char>>,
    plen: nat,
    args: ListArguments,
    dprefix: Seq<char>,
    glob: Option<GlobView>,
    files: Seq<ListEntryView>,
) -> Seq<LsItemView>
    decreases files.len(),
{
    if files.len() == 0 {
        Seq::<LsItemView>::empty()
    } else {
        spec_ls_file_items(seen, plen, args, dprefix, glob, files[0]) + spec_ls_file_fold(
            spec_ls_seen_after_file(seen, plen, args, dprefix, glob, files[0]),
            plen,
            args,
            dprefix,
            glob,
            files.skip(1),
        )
    }
}

/// The recorded directories after a page's object entries.
pub open spec fn spec_ls_seen_fold(
    seen: Set<Seq<char>>,
    plen: nat,
    args: ListArguments,
    dprefix: Seq<char>,
    glob: Option<GlobView>,
    files: Seq<ListEntryView>,
) -> Set<Seq<char>>
    decreases files.len(),
{
    if files.len() == 0 {
        seen
    } else {
        spec_ls_seen_fold(
            spec_ls_seen_after_file(seen, plen, args, dprefix, glob, files[0]),
            plen,
            args,
            dprefix,
            glob,
            files.skip(1),
        )
    }
}

/// Whether every name in the page carries the pattern's literal prefix, as
/// the backend promises for a listing issued under that prefix. Only such a
/// page can be matched against the glob.
pub fn check_glob_page(page: &ListPage, glob: &Glob) -> (r: bool)
    ensures
        r == ((forall|j: int|
            0 <= j < page@.common_prefixes.len() ==> glob@.prefix.is_prefix_of(
                #[trigger] page@.common_prefixes[j],
            )) && (forall|j: int|
            0 <= j < page@.files.len() ==> glob@.prefix.is_prefix_of(
                (#[trigger] page@.files[j]).key,
            ))),
{
    let prefix = glob.prefix().as_str();
    let mut i: usize = 0;
    while i < page.common_prefixes.len()
        invariant
            i <= page.common_prefixes.len(),
            prefix@ == glob@.prefix,
            forall|j: int|
                0 <= j < i ==> glob@.prefix.is_prefix_of(#[trigger] page@.common_prefixes[j]),
        decreases page.common_prefixes.len() - i,
    {
        proof {
            assert(page@.common_prefixes[i as int] == page.common_prefixes@[i as int]@);
        }
        if !starts_with_str(page.common_prefixes[i].as_str(), prefix) {
            return false;
        }
        i = i + 1;
    }
    let mut i: usize = 0;
    while i < page.files.len()
        invariant
            i <= page.files.len(),
            prefix@ == glob@.prefix,
            forall|j: int|
                0 <= j < page@.common_prefixes.len() ==> glob@.prefix.is_prefix_of(
                    #[trigger] page@.common_prefixes[j],
                ),
            forall|j: int|
                0 <= j < i ==> glob@.prefix.is_prefix_of((#[trigger] page@.files[j]).key),
        decreases page.files.len() - i,
    {
        proof {
            assert(page@.files[i as int] == page.files@[i as int]@);
        }
        if !starts_with_str(page.files[i].key.as_str(), prefix) {
            return false;
        }
        i = i + 1;
    }
    true
}

/// Turn one page of a listing into the entries it displays: the
/// common-prefix groups as directories (unless only files were asked for),
/// then each matching object, preceded in recursive or glob mode by its
/// not-yet-reported ancestor directories.
pub fn ls_page_items(
    args: &ListArguments,
    page: &ListPage,
    directory_prefix: &Key,
    seen: &mut SeenDirectories,
    glob: Option<&Glob>,
) -> (r: Vec<LsItem>)
    requires
        forall|j: int|
            0 <= j < page@.common_prefixes.len() ==> spec_glob_prefix_ok(
                spec_glob_view_opt(glob),
                #[trigger] page@.common_prefixes[j],
            ),
        forall|j: int|
            0 <= j < page@.files.len() ==> spec_glob_prefix_ok(
                spec_glob_view_opt(glob),
                (#[trigger] page@.files[j]).key,
            ),
        glob matches Some(g) ==> g@.prefix.len() <= old(seen)@.prefix_len + 1,
    ensures
        final(seen)@.prefix_len == old(seen)@.prefix_len,
        final(seen)@.seen =~= spec_ls_seen_fold(
            old(seen)@.seen,
            old(seen)@.prefix_len,
            *args,
            directory_prefix@,
            spec_glob_view_opt(glob),
            page@.files,
        ),
        r.deep_view() == (if args.only_files {
            Seq::<LsItemView>::empty()
        } else {
            spec_ls_prefix_items(
                page@.common_prefixes,
                directory_prefix@,
                *args,
                spec_glob_view_opt(glob),
            )
        }) + spec_ls_file_fold(
            old(seen)@.seen,
            old(seen)@.prefix_len,
            *args,
            directory_prefix@,
            spec_glob_view_opt(glob),
            page@.files,
        ),
{
    let ghost seen0 = seen@.seen;
    let ghost plen = seen@.prefix_len;
    let ghost gv = spec_glob_view_opt(glob);
    let ghost dp = directory_prefix@;
    let ghost cps = page@.common_prefixes;
    let ghost fdv = page@.files;
    let mut out: Vec<LsItem> = Vec::new();
    if !args.only_files {
        let mut i: usize = 0;
        proof {
            assert(cps.skip(0) =~= cps);
            assert(out.deep_view() + spec_ls_prefix_items(cps, dp, *args, gv)
                =~= spec_ls_prefix_items(cps, dp, *args, gv));
        }
        while i < page.common_prefixes.len()
            invariant
                i <= page.common_prefixes.len(),
                page@.common_prefixes == cps,
                cps.len() == page.common_prefixes.len(),
                seen@.seen == seen0,
                seen@.prefix_len == plen,
                gv == spec_glob_view_opt(glob),
                dp == directory_prefix@,
                forall|j: int|
                    0 <= j < cps.len() ==> spec_glob_prefix_ok(gv, #[trigger] cps[j]),
                spec_ls_prefix_items(cps, dp, *args, gv) == out.deep_view()
                    + spec_ls_prefix_items(cps.skip(i as int), dp, *args, gv),
            decreases page.common_prefixes.len() - i,
        {
            let ghost pre = out.deep_view();
            let name = page.common_prefixes[i].as_str();
            proof {
                assert(cps[i as int] == name@);
            }
            if key_matches_requested(directory_prefix, name, args, glob) {
                out.push(LsItem::Directory(page.common_prefixes[i].clone()));
                proof {
                    assert(out.deep_view() =~= pre + seq![LsItemView::Directory(cps[i as int])]);
                }
            }
            proof {
                assert(cps.skip(i as int)[0] == cps[i as int]);
                assert(cps.skip(i as int).skip(1) =~= cps.skip(i + 1));
                assert(out.deep_view() + spec_ls_prefix_items(cps.skip(i + 1), dp, *args, gv)
                    =~= pre + spec_ls_prefix_items(cps.skip(i as int), dp, *args, gv));
            }
            i = i + 1;
        }
        proof {
            assert(cps.skip(i as int) =~= Seq::<Seq<char>>::empty());
            assert(out.deep_view() + Seq::<LsItemView>::empty() =~= out.deep_view());
        }
    }
    let ghost dir_part = out.deep_view();
    let mut i: usize = 0;
    proof {
        assert(fdv.skip(0) =~= fdv);
        assert(out.deep_view() + spec_ls_file_fold(seen0, plen, *args, dp, gv, fdv) =~= dir_part
            + spec_ls_file_fold(seen0, plen, *args, dp, gv, fdv));
    }
    while i < page.files.len()
        invariant
            i <= page.files.len(),
            page@.files == fdv,
            fdv.len() == page.files.len(),
            seen@.prefix_len == plen,
            gv == spec_glob_view_opt(glob),
            dp == directory_prefix@,
            forall|j: int|
                0 <= j < fdv.len() ==> spec_glob_prefix_ok(gv, (#[trigger] fdv[j]).key),
            glob matches Some(g) ==> g@.prefix.len() <= plen + 1,
            dir_part + spec_ls_file_fold(seen0, plen, *args, dp, gv, fdv) == out.deep_view()
                + spec_ls_file_fold(seen@.seen, plen, *args, dp, gv, fdv.skip(i as int)),
            spec_ls_seen_fold(seen0, plen, *args, dp, gv, fdv) =~= spec_ls_seen_fold(
                seen@.seen,
                plen,
                *args,
                dp,
                gv,
                fdv.skip(i as int),
            ),
        decreases page.files.len() - i,
    {
        let ghost cur_seen = seen@.seen;
        let ghost pre_out = out.deep_view();
        let ghost e = fdv[i as int];
        let name = page.files[i].key.as_str();
        proof {
            assert(fdv[i as int] == page.files@[i as int]@);
            assert(e.key == name@);
        }
        if key_matches_requested(directory_prefix, name, args, glob) {
            if !args.only_files && (args.recurse || matches!(glob, Some(_))) {
                let dir_path = basename(name);
                if !str_eq(dir_path, directory_prefix.as_str()) {
                    let ghost chain = spec_missing_chain(
                        cur_seen,
                        plen,
                        spec_dirname(dir_path@),
                    );
                    proof {
                        crate::seen_directories::lemma_missing_chain_props(
                            cur_seen,
                            plen,
                            spec_dirname(dir_path@),
                        );
                        crate::uri::lemma_basename_prefix(e.key);
                        crate::seen_directories::lemma_dirname_prefix(dir_path@);
                    }
                    let unseen = seen.add_key(dir_path);
                    let n_chain = unseen.len();
                    let mut d: usize = 0;
                    proof {
                        assert(chain.take(chain.len() as int) =~= chain);
                    }
                    while d < n_chain
                        invariant
                            d <= n_chain,
                            n_chain == unseen.len(),
                            unseen.deep_view().len() == chain.len(),
                            forall|k: int|
                                0 <= k < unseen.deep_view().len() ==> unseen.deep_view()[k]
                                    == chain[chain.len() - 1 - k],
                            forall|k: int|
                                0 <= k < unseen.deep_view().len() ==> (
                                #[trigger] unseen.deep_view()[k]).is_prefix_of(
                                    spec_dirname(dir_path@),
                                ),
                            gv == spec_glob_view_opt(glob),
                            dp == directory_prefix@,
                            glob matches Some(g) ==> g@.prefix.len() <= plen + 1,
                            forall|k: int|
                                0 <= k < unseen.deep_view().len() ==> (
                                #[trigger] unseen.deep_view()[k]).len() > plen,
                            spec_dirname(dir_path@).is_prefix_of(e.key),
                            spec_glob_prefix_ok(gv, e.key),
                            out.deep_view() + spec_ls_chain_items(
                                chain.take((chain.len() - d) as int),
                                dp,
                                *args,
                                gv,
                            ) == pre_out + spec_ls_chain_items(chain, dp, *args, gv),
                        decreases n_chain - d,
                    {
                        let ghost pr = out.deep_view();
                        let ghost dk = unseen.deep_view()[d as int];
                        proof {
                            assert(unseen.deep_view()[d as int] == unseen@[d as int]@);
                            match gv {
                                Some(g) => {
                                    crate::seen_directories::lemma_prefix_transitive(
                                        dk,
                                        spec_dirname(dir_path@),
                                        e.key,
                                    );
                                    crate::uri::lemma_prefix_of_common(g.prefix, dk, e.key);
                                },
                                None => {},
                            }
                        }
                        if key_matches_requested(directory_prefix, unseen[d].as_str(), args, glob)
                        {
                            out.push(LsItem::Directory(unseen[d].clone()));
                            proof {
                                assert(out.deep_view() =~= pr + seq![LsItemView::Directory(dk)]);
                            }
                        }
                        proof {
                            let m = chain.len() - d;
                            assert(chain.take(m as int).last() == chain[m - 1]);
                            assert(chain[m - 1] == dk);
                            assert(chain.take(m as int).drop_last() =~= chain.take(m - 1));
                            assert(out.deep_view() + spec_ls_chain_items(
                                chain.take(m - 1),
                                dp,
                                *args,
                                gv,
                            ) =~= pr + spec_ls_chain_items(chain.take(m as int), dp, *args, gv));
                        }
                        d = d + 1;
                    }
                    proof {
                        assert(chain.take(0) =~= Seq::<Seq<char>>::empty());
                        assert(seen@.seen =~= spec_seen_after_key(
                            cur_seen,
                            plen,
                            spec_basename(e.key),
                        ));
                    }
                }
            }
            if !args.only_directories {
                let ghost pr2 = out.deep_view();
                out.push(LsItem::File(page.files[i].clone()));
                proof {
                    assert(out.deep_view() =~= pr2 + seq![LsItemView::File(e)]);
                }
            }
        }
        proof {
            assert(fdv.skip(i as int)[0] == fdv[i as int]);
            assert(fdv.skip(i as int).skip(1) =~= fdv.skip(i + 1));
            assert(out.deep_view() =~= pre_out + spec_ls_file_items(
                cur_seen,
                plen,
                *args,
                dp,
                gv,
                e,
            ));
            assert(seen@.seen =~= spec_ls_seen_after_file(cur_seen, plen, *args, dp, gv, e));
            assert(out.deep_view() + spec_ls_file_fold(seen@.seen, plen, *args, dp, gv, fdv.skip(
                i + 1,
            )) =~= pre_out + spec_ls_file_fold(cur_seen, plen, *args, dp, gv, fdv.skip(i as int)));
            assert(spec_ls_seen_fold(cur_seen, plen, *args, dp, gv, fdv.skip(i as int))
                =~= spec_ls_seen_fold(seen@.seen, plen, *args, dp, gv, fdv.skip(i + 1)));
        }
        i = i + 1;
    }
    proof {
        assert(fdv.skip(i as int) =~= Seq::<ListEntryView>::empty());
        assert(out.deep_view() + Seq::<LsItemView>::empty() =~= out.deep_view());
    }
    out
}

// ---------------------------------------------------------------------------
// The paginated recursive listing of one remote prefix.
// ---------------------------------------------------------------------------

pub ghost struct RecursiveListerView {
    pub bucket: Seq<char>,
    pub key: Seq<char>,
    pub seen: crate::seen_directories::SeenDirectoriesView,
    pub continuation_token: Option<Seq<char>>,
}

/// The state of one recursive listing: the explicit directory listed under,
/// the directories already reported, and the cursor for the next page.
pub struct RecursiveLister {
    directory_uri: Uri,
    seen: SeenDirectories,
    continuation_token: Option<String>,
}

impl View for RecursiveLister {
    type V = RecursiveListerView;

    closed spec fn view(&self) -> RecursiveListerView {
        RecursiveListerView {
            bucket: self.directory_uri.bucket@,
            key: self.directory_uri.key@,
            seen: self.seen@,
            continuation_token: match self.continuation_token {
                Some(t) => Some(t@),
                None => None,
            },
        }
    }
}

impl RecursiveLister {
    /// Begin a recursive listing under the Uri's key made explicitly a
    /// directory, with nothing reported yet.
    pub fn new(uri: &Uri) -> (r: Self)
        ensures
            r@.bucket == uri.bucket@,
            r@.key == spec_to_explicit_directory(uri.key@),
            r@.continuation_token is None,
            r@.seen.seen == Set::<Seq<char>>::empty(),
            r@.seen.prefix_len == strip_trailing_slash(
                spec_to_explicit_directory(uri.key@),
            ).len(),
    {
        let key = uri.key.to_explicit_directory();
        let seen = SeenDirectories::new(key.as_str());
        RecursiveLister {
            directory_uri: Uri::new(uri.bucket.clone(), key),
            seen,
            continuation_token: None,
        }
    }

    pub fn bucket_name(&self) -> (r: &str)
        ensures
            r@ == self@.bucket,
    {
        self.directory_uri.bucket.as_str()
    }

    pub fn prefix_key(&self) -> (r: &Key)
        ensures
            r@ == self@.key,
    {
        &self.directory_uri.key
    }

    pub fn continuation_token(&self) -> (r: &Option<String>)
        ensures
            match r {
                Some(t) => self@.continuation_token == Some(t@),
                None => self@.continuation_token is None,
            },
    {
        &self.continuation_token
    }

    /// Consume one page of keys listed under the prefix: record and emit the
    /// items, remember the cursor. Ok(None) ends the stream; an empty page
    /// with no further cursor is a missing-key failure.
    pub fn consume_page(&mut self, keys: &Vec<String>, next_token: Option<String>) -> (r: Result<
        Option<Vec<RecursiveStreamItem>>,
        Error,
    >)
        ensures
            final(self)@.bucket == old(self)@.bucket,
            final(self)@.key == old(self)@.key,
            final(self)@.seen.prefix_len == old(self)@.seen.prefix_len,
            final(self)@.seen.seen =~= spec_seen_after_keys(
                old(self)@.seen.seen,
                old(self)@.seen.prefix_len,
                keys.deep_view(),
            ),
            keys.deep_view().len() == 0 && (next_token is Some) ==> (r matches Ok(o)
                && o is None),
            keys.deep_view().len() == 0 && (next_token is None) ==> (r matches Err(e) && e matches
                Error::NoSuchKey(u) && u.bucket@ == old(self)@.bucket && u.key@ == old(self)@.key),
            keys.deep_view().len() > 0 ==> (r matches Ok(o) && o matches Some(items)
                && items.deep_view() == spec_recursive_items(
                old(self)@.seen.seen,
                old(self)@.seen.prefix_len,
                keys.deep_view(),
            ) && (match next_token {
                Some(t) => final(self)@.continuation_token == Some(t@),
                None => final(self)@.continuation_token is None,
            })),
    {
        match recursive_page_items(keys, next_token, &self.directory_uri, &mut self.seen) {
            Err(e) => Err(e),
            Ok(None) => Ok(None),
            Ok(Some((items, token))) => {
                self.continuation_token = token;
                Ok(Some(items))
            },
        }
    }
}

} // verus!
