use vstd::prelude::*;

use wax::Program;

use crate::uri::{ends_with_slash, str_eq, strip_trailing_slash, Key};

verus! {

// ---------------------------------------------------------------------------
// Glob mode selection.
// ---------------------------------------------------------------------------

#[derive(Clone, Copy, Debug, PartialEq, Eq, Structural)]
pub enum GlobOption {
    Auto,
    On,
    Off,
}

pub struct Options {
    pub glob: GlobOption,
}

impl Options {
    /// Whether a glob pattern is unconditionally in force. In Auto mode a
    /// pattern only takes effect when the key turns out to contain one, so
    /// Auto does not count as enabled here.
    pub fn is_enabled(&self) -> (r: bool)
        ensures
            r == (self.glob is On),
    {
        matches!(self.glob, GlobOption::On)
    }
}

// ---------------------------------------------------------------------------
// Recursive-wildcard detection on the pattern text.
// ---------------------------------------------------------------------------

/// The number of consecutive '\' characters immediately before index `i`.
pub open spec fn spec_backslash_run(s: Seq<char>, i: int) -> nat
    decreases i,
{
    if 0 < i <= s.len() && s[i - 1] == '\\' {
        1 + spec_backslash_run(s, i - 1)
    } else {
        0
    }
}

/// A recursive wildcard stands at index `i`: a "**" whose run of
/// immediately preceding backslashes has even length. An odd run escapes
/// the token; an even run spells literal backslashes before a live "**".
pub open spec fn spec_star_star_at(s: Seq<char>, i: int) -> bool {
    0 <= i && i + 1 < s.len() && s[i] == '*' && s[i + 1] == '*' && spec_backslash_run(s, i) % 2
        == 0
}

/// Whether the pattern holds a recursive wildcard anywhere: some "**"
/// preceded by an even number (possibly none) of escaping backslashes.
pub open spec fn spec_has_recursive_wildcard(s: Seq<char>) -> bool {
    exists|i: int| spec_star_star_at(s, i)
}

pub fn glob_has_resursive_wildcard(glob_str: &str) -> (r: bool)
    ensures
        r == spec_has_recursive_wildcard(glob_str@),
{
    let n: usize = glob_str.unicode_len();
    let limit: usize = if n == 0 {
        0
    } else {
        n - 1
    };
    let mut run: usize = 0;
    let mut i: usize = 0;
    while i < limit
        invariant
            n == glob_str@.len(),
            limit == if n == 0 { 0int } else { n - 1 },
            i <= limit,
            run <= i,
            run == spec_backslash_run(glob_str@, i as int),
            forall|j: int| 0 <= j < i ==> !spec_star_star_at(glob_str@, j),
        decreases limit - i,
    {
        let c = glob_str.get_char(i);
        if c == '*' && glob_str.get_char(i + 1) == '*' && run % 2 == 0 {
            proof {
                assert(spec_star_star_at(glob_str@, i as int));
            }
            return true;
        }
        if c == '\\' {
            run = run + 1;
        } else {
            run = 0;
        }
        proof {
            assert(!spec_star_star_at(glob_str@, i as int));
            assert(spec_backslash_run(glob_str@, i + 1) == if glob_str@[i as int] == '\\' {
                spec_backslash_run(glob_str@, i as int) + 1
            } else {
                0nat
            });
        }
        i = i + 1;
    }
    proof {
        assert(forall|j: int| spec_star_star_at(glob_str@, j) ==> 0 <= j < limit);
    }
    false
}

// ---------------------------------------------------------------------------
// The compiled pattern: a literal prefix usable as a listing filter, and a
// variant remainder matched client-side through the pattern engine.
// ---------------------------------------------------------------------------

/// Whether the pattern engine accepts the glob expression (it compiles, and
/// its literal prefix is unicode).
pub uninterp spec fn wax_accepts(pattern: Seq<char>) -> bool;

/// The invariant, wildcard-free leading portion of the pattern.
pub uninterp spec fn wax_prefix(pattern: Seq<char>) -> Seq<char>;

/// What the whole pattern spells with escapes resolved, when no part of it
/// is variant: the prefix of a fully literal pattern.
pub uninterp spec fn wax_invariant_text(pattern: Seq<char>) -> Seq<char>;

/// Whether the variant remainder of the partitioned pattern matches a
/// candidate path.
pub uninterp spec fn wax_residual_match(pattern: Seq<char>, candidate: Seq<char>) -> bool;

/// Relies on wax::Glob::new and wax::Glob::partition_or_empty: the glob
/// expression is compiled and split into an invariant literal prefix and a
/// variant remainder; the outcome depends on the expression text alone. The
/// prefix breaks only at separators, so a non-empty prefix ends in '/'
/// unless the whole pattern is literal and the prefix is all of its text.
#[verifier::external_body]
fn wax_partition_prefix(pattern: &str) -> (r: Option<String>)
    ensures
        (r is Some) == wax_accepts(pattern@),
        r matches Some(p) ==> p@ == wax_prefix(pattern@),
        r matches Some(p) ==> (p@.len() == 0 || ends_with_slash(p@) || p@ == wax_invariant_text(
            pattern@,
        )),
{
    let glob = match wax::Glob::new(pattern) {
        Ok(g) => g,
        Err(_) => return None,
    };
    let (prefix, _glob) = glob.partition_or_empty();
    match prefix.as_os_str().to_str() {
        Some(p) => Some(p.to_string()),
        None => None,
    }
}

/// Relies on wax::Glob::new, wax::Glob::partition_or_empty and
/// wax::Program::is_match: whether the variant remainder left after the
/// literal prefix matches the candidate; the outcome depends on the pattern
/// and candidate text alone.
#[verifier::external_body]
fn wax_residual_is_match(pattern: &str, candidate: &str) -> (r: bool)
    requires
        wax_accepts(pattern@),
    ensures
        r == wax_residual_match(pattern@, candidate@),
{
    match wax::Glob::new(pattern) {
        Ok(g) => g.partition_or_empty().1.is_match(candidate),
        Err(_) => false,
    }
}

pub ghost struct GlobView {
    pub prefix: Seq<char>,
    pub pattern: Seq<char>,
    pub has_recursive_wildcard: bool,
}

/// A pattern split into its literal prefix and a compiled remainder.
pub struct Glob {
    prefix: Key,
    pattern: String,
    has_recursive_wildcard: bool,
}

impl View for Glob {
    type V = GlobView;

    closed spec fn view(&self) -> GlobView {
        GlobView {
            prefix: self.prefix@,
            pattern: self.pattern@,
            has_recursive_wildcard: self.has_recursive_wildcard,
        }
    }
}

/// When a pattern is recognized: never with globbing off, never for an empty
/// key unless globbing is forced on, only when the engine accepts the
/// expression, and in Auto mode only when the key actually contains
/// wildcard syntax (the literal prefix falls short of the key, even ignoring
/// one trailing '/').
pub open spec fn spec_glob_recognized(key: Seq<char>, opt: GlobOption) -> bool {
    &&& !(opt is Off)
    &&& !(key.len() == 0 && !(opt is On))
    &&& wax_accepts(key)
    &&& !(opt is Auto && (wax_prefix(key) == key || wax_prefix(key) == strip_trailing_slash(key)))
}

/// The relative-path view a candidate key is matched under: the literal
/// prefix and up to one following '/' are stripped, and one trailing '/'.
pub open spec fn spec_glob_candidate(key: Seq<char>, prefix: Seq<char>) -> Seq<char> {
    let without_prefix = key.skip(prefix.len() as int);
    let without_slash = if without_prefix.len() > 0 && without_prefix[0] == '/' {
        without_prefix.skip(1)
    } else {
        without_prefix
    };
    strip_trailing_slash(without_slash)
}

impl Glob {
    #[verifier::type_invariant]
    spec fn wf(self) -> bool {
        wax_accepts(self.pattern@) && self.prefix@ == wax_prefix(self.pattern@)
    }

    /// Extract a pattern from a key under the given mode.
    pub fn new(key: &Key, options: &Options) -> (r: Option<Glob>)
        ensures
            (r is Some) == spec_glob_recognized(key@, options.glob),
            r matches Some(g) ==> g@.pattern == key@ && g@.prefix == wax_prefix(key@)
                && g@.has_recursive_wildcard == spec_has_recursive_wildcard(key@),
            r matches Some(g) ==> (g@.prefix.len() == 0 || ends_with_slash(g@.prefix)
                || g@.prefix == wax_invariant_text(key@)),
    {
        if matches!(options.glob, GlobOption::Off) {
            return None;
        }
        let key_str = key.as_str();
        let n: usize = key_str.unicode_len();
        if n == 0 && !matches!(options.glob, GlobOption::On) {
            return None;
        }
        let prefix = match wax_partition_prefix(key_str) {
            None => {
                return None;
            },
            Some(p) => p,
        };
        if matches!(options.glob, GlobOption::Auto) {
            if str_eq(prefix.as_str(), key_str) {
                return None;
            }
            let without_slash: &str = if n > 0 && key_str.get_char(n - 1) == '/' {
                key_str.substring_char(0, n - 1)
            } else {
                key_str
            };
            proof {
                assert(without_slash@ =~= strip_trailing_slash(key@));
            }
            if str_eq(prefix.as_str(), without_slash) {
                return None;
            }
        }
        let has_recursive_wildcard = glob_has_resursive_wildcard(key_str);
        Some(Glob { prefix: Key::new(prefix), pattern: key_str.to_owned(), has_recursive_wildcard })
    }

    pub fn prefix(&self) -> (r: &Key)
        ensures
            r@ == self@.prefix,
    {
        &self.prefix
    }

    pub fn has_recursive_wildcard(&self) -> (r: bool)
        ensures
            r == self@.has_recursive_wildcard,
    {
        self.has_recursive_wildcard
    }

    /// Match a candidate key that carries the pattern's literal prefix.
    pub fn matches(&self, key: &str) -> (r: bool)
        requires
            self@.prefix.is_prefix_of(key@),
        ensures
            r == wax_residual_match(self@.pattern, spec_glob_candidate(key@, self@.prefix)),
    {
        proof {
            use_type_invariant(self);
        }
        let n: usize = key.unicode_len();
        let p: usize = self.prefix.as_str().unicode_len();
        let without_prefix = key.substring_char(p, n);
        proof {
            assert(without_prefix@ =~= key@.skip(p as int));
        }
        let m: usize = without_prefix.unicode_len();
        let without_slash: &str = if m > 0 && without_prefix.get_char(0) == '/' {
            without_prefix.substring_char(1, m)
        } else {
            without_prefix
        };
        proof {
            if m > 0 && without_prefix@[0] == '/' {
                assert(without_slash@ =~= without_prefix@.skip(1));
            }
        }
        let m2: usize = without_slash.unicode_len();
        let trimmed: &str = if m2 > 0 && without_slash.get_char(m2 - 1) == '/' {
            without_slash.substring_char(0, m2 - 1)
        } else {
            without_slash
        };
        proof {
            assert(trimmed@ =~= spec_glob_candidate(key@, self@.prefix));
        }
        wax_residual_is_match(self.pattern.as_str(), trimmed)
    }
}

/// Extract a pattern from a key under the given mode.
pub fn as_key_and_glob(key: &Key, options: &Options) -> (r: Option<Glob>)
    ensures
        (r is Some) == spec_glob_recognized(key@, options.glob),
        r matches Some(g) ==> g@.pattern == key@ && g@.prefix == wax_prefix(key@)
            && g@.has_recursive_wildcard == spec_has_recursive_wildcard(key@),
        r matches Some(g) ==> (g@.prefix.len() == 0 || ends_with_slash(g@.prefix) || g@.prefix
            == wax_invariant_text(key@)),
{
    Glob::new(key, options)
}

} // verus!
