use vstd::prelude::*;

use crate::uri::{
    ends_with_slash, lemma_rfind, rfind_char, spec_rfind, str_eq, strip_trailing_slash,
};

verus! {

// ---------------------------------------------------------------------------
// Walking a key's ancestor directories.
// ---------------------------------------------------------------------------

/// The key truncated to before its final '/': its parent directory,
/// or empty when the key has no '/'.
pub open spec fn spec_dirname(s: Seq<char>) -> Seq<char> {
    match spec_rfind(s, '/') {
        None => Seq::<char>::empty(),
        Some(i) => s.subrange(0, i),
    }
}

/// One directory up: a trailing '/' stripped, then truncated to before the
/// final '/'; empty when nothing remains above.
pub open spec fn spec_up_directory(s: Seq<char>) -> Seq<char> {
    let t = strip_trailing_slash(s);
    match spec_rfind(t, '/') {
        None => Seq::<char>::empty(),
        Some(i) => t.subrange(0, i),
    }
}

pub proof fn lemma_up_directory_shorter(s: Seq<char>)
    requires
        s.len() > 0,
    ensures
        spec_up_directory(s).len() < s.len(),
{
    let t = strip_trailing_slash(s);
    lemma_rfind(t, '/');
}

pub proof fn lemma_up_directory_prefix(s: Seq<char>)
    ensures
        spec_up_directory(s).is_prefix_of(s),
{
    let t = strip_trailing_slash(s);
    lemma_rfind(t, '/');
    match spec_rfind(t, '/') {
        None => {
            assert(spec_up_directory(s) =~= s.subrange(0, 0));
        },
        Some(i) => {
            assert(spec_up_directory(s) =~= s.subrange(0, i));
        },
    }
}

pub proof fn lemma_dirname_prefix(s: Seq<char>)
    ensures
        spec_dirname(s).is_prefix_of(s),
{
    lemma_rfind(s, '/');
    match spec_rfind(s, '/') {
        None => {
            assert(spec_dirname(s) =~= s.subrange(0, 0));
        },
        Some(i) => {
            assert(spec_dirname(s) =~= s.subrange(0, i));
        },
    }
}

pub proof fn lemma_prefix_transitive(a: Seq<char>, b: Seq<char>, c: Seq<char>)
    requires
        a.is_prefix_of(b),
        b.is_prefix_of(c),
    ensures
        a.is_prefix_of(c),
{
    assert(a =~= c.subrange(0, a.len() as int));
}

pub fn dirname(key: &str) -> (r: &str)
    ensures
        r@ == spec_dirname(key@),
{
    match rfind_char(key, '/') {
        None => key.substring_char(0, 0),
        Some(i) => {
            proof {
                lemma_rfind(key@, '/');
            }
            key.substring_char(0, i)
        },
    }
}

pub fn up_directory(key: &str) -> (r: &str)
    ensures
        r@ == spec_up_directory(key@),
{
    let n: usize = key.unicode_len();
    let without_slash: &str = if n > 0 && key.get_char(n - 1) == '/' {
        key.substring_char(0, n - 1)
    } else {
        key
    };
    match rfind_char(without_slash, '/') {
        None => key.substring_char(0, 0),
        Some(i) => {
            proof {
                lemma_rfind(without_slash@, '/');
            }
            without_slash.substring_char(0, i)
        },
    }
}

// ---------------------------------------------------------------------------
// The tracker of synthetic directories already reported.
// ---------------------------------------------------------------------------

/// Deduplicates the synthetic directory entries discovered while flattening
/// nested listings, so each ancestor directory is reported exactly once, and
/// never the request root itself or anything above it.
pub struct SeenDirectories {
    seen: Vec<String>,
    prefix_len: usize,
}

pub ghost struct SeenDirectoriesView {
    pub seen: Set<Seq<char>>,
    pub prefix_len: nat,
}

impl View for SeenDirectories {
    type V = SeenDirectoriesView;

    closed spec fn view(&self) -> SeenDirectoriesView {
        SeenDirectoriesView {
            seen: Set::new(
                |d: Seq<char>|
                    exists|k: int| 0 <= k < self.seen@.len() && self.seen@[k]@ == d,
            ),
            prefix_len: self.prefix_len as nat,
        }
    }
}

/// The chain of not-yet-seen ancestors from `search` upward: stops at the
/// root prefix's depth, at the first ancestor already seen, or at the top.
/// Ordered from deepest to shallowest.
pub open spec fn spec_missing_chain(
    seen: Set<Seq<char>>,
    prefix_len: nat,
    search: Seq<char>,
) -> Seq<Seq<char>>
    decreases search.len(),
    via spec_missing_chain_decreases
{
    if search.len() <= prefix_len {
        Seq::<Seq<char>>::empty()
    } else if seen.contains(search) {
        Seq::<Seq<char>>::empty()
    } else if spec_up_directory(search).len() == 0 {
        seq![search]
    } else {
        seq![search] + spec_missing_chain(seen, prefix_len, spec_up_directory(search))
    }
}

#[via_fn]
proof fn spec_missing_chain_decreases(seen: Set<Seq<char>>, prefix_len: nat, search: Seq<char>) {
    if search.len() > prefix_len {
        lemma_up_directory_shorter(search);
    }
}

/// Every entry of the chain lies strictly below the root prefix's depth, is
/// not among the already-seen directories, and the entries run from deepest
/// to shallowest, each a strict prefix of the one before it.
pub proof fn lemma_missing_chain_props(seen: Set<Seq<char>>, prefix_len: nat, search: Seq<char>)
    ensures
        forall|i: int|
            0 <= i < spec_missing_chain(seen, prefix_len, search).len() ==> (#[trigger] spec_missing_chain(
                seen,
                prefix_len,
                search,
            )[i]).len() > prefix_len && !seen.contains(spec_missing_chain(seen, prefix_len, search)[i]),
        forall|i: int, j: int|
            #![trigger spec_missing_chain(seen, prefix_len, search)[i], spec_missing_chain(seen, prefix_len, search)[j]]
            0 <= i < j < spec_missing_chain(seen, prefix_len, search).len() ==> spec_missing_chain(
                seen,
                prefix_len,
                search,
            )[j].len() < spec_missing_chain(seen, prefix_len, search)[i].len()
                && spec_missing_chain(seen, prefix_len, search)[j].is_prefix_of(
                spec_missing_chain(seen, prefix_len, search)[i],
            ),
        spec_missing_chain(seen, prefix_len, search).len() > 0 ==> spec_missing_chain(
            seen,
            prefix_len,
            search,
        )[0] == search,
    decreases search.len(),
{
    let chain = spec_missing_chain(seen, prefix_len, search);
    if search.len() <= prefix_len || seen.contains(search) {
    } else if spec_up_directory(search).len() == 0 {
    } else {
        let up = spec_up_directory(search);
        lemma_up_directory_shorter(search);
        lemma_up_directory_prefix(search);
        lemma_missing_chain_props(seen, prefix_len, up);
        let rest = spec_missing_chain(seen, prefix_len, up);
        assert forall|i: int, j: int| 0 <= i < j < chain.len() implies chain[j].len()
            < chain[i].len() && chain[j].is_prefix_of(chain[i]) by {
            if i == 0 {
                if j == 1 {
                    assert(chain[j] == rest[0]);
                } else {
                    assert(chain[j] == rest[j - 1]);
                    if rest.len() > 0 {
                        assert(rest[j - 1].is_prefix_of(rest[0]));
                        lemma_prefix_transitive(rest[j - 1], rest[0], search);
                    }
                }
            } else {
                assert(chain[i] == rest[i - 1]);
                assert(chain[j] == rest[j - 1]);
            }
        }
    }
}

impl SeenDirectories {
    /// A fresh tracker rooted at `prefix`: directories at or above the
    /// prefix's depth are never reported.
    pub fn new(prefix: &str) -> (r: SeenDirectories)
        ensures
            r@.seen == Set::<Seq<char>>::empty(),
            r@.prefix_len == strip_trailing_slash(prefix@).len(),
    {
        let n: usize = prefix.unicode_len();
        let prefix_len: usize = if n > 0 && prefix.get_char(n - 1) == '/' {
            n - 1
        } else {
            n
        };
        let r = SeenDirectories { seen: Vec::new(), prefix_len };
        proof {
            assert(r@.seen =~= Set::<Seq<char>>::empty());
        }
        r
    }

    fn contains_dir(&self, d: &str) -> (r: bool)
        ensures
            r == self@.seen.contains(d@),
    {
        let mut i: usize = 0;
        while i < self.seen.len()
            invariant
                i <= self.seen.len(),
                forall|k: int| 0 <= k < i ==> self.seen@[k]@ != d@,
            decreases self.seen.len() - i,
        {
            if str_eq(self.seen[i].as_str(), d) {
                return true;
            }
            i = i + 1;
        }
        false
    }

    /// The chain of ancestors of `key` not yet recorded, deepest first.
    pub fn missing_directories(&self, key: &str) -> (r: Vec<String>)
        ensures
            r.deep_view() == spec_missing_chain(self@.seen, self@.prefix_len, spec_dirname(key@)),
    {
        let mut missing: Vec<String> = Vec::new();
        let mut search_key: &str = dirname(key);
        proof {
            assert(missing.deep_view() + spec_missing_chain(
                self@.seen,
                self@.prefix_len,
                search_key@,
            ) =~= spec_missing_chain(self@.seen, self@.prefix_len, spec_dirname(key@)));
        }
        while search_key.unicode_len() > self.prefix_len
            invariant
                missing.deep_view() + spec_missing_chain(self@.seen, self@.prefix_len, search_key@)
                    == spec_missing_chain(self@.seen, self@.prefix_len, spec_dirname(key@)),
            decreases search_key@.len(),
        {
            if self.contains_dir(search_key) {
                proof {
                    assert(missing.deep_view() =~= missing.deep_view() + Seq::<
                        Seq<char>,
                    >::empty());
                }
                return missing;
            }
            let ghost pre = missing.deep_view();
            let ghost pre_search = search_key@;
            missing.push(search_key.to_owned());
            proof {
                assert(missing.deep_view() =~= pre + seq![pre_search]);
                lemma_up_directory_shorter(pre_search);
            }
            search_key = up_directory(search_key);
            if search_key.unicode_len() == 0 {
                proof {
                    assert(spec_missing_chain(self@.seen, self@.prefix_len, pre_search) =~= seq![
                        pre_search,
                    ]);
                    assert(missing.deep_view() + spec_missing_chain(
                        self@.seen,
                        self@.prefix_len,
                        search_key@,
                    ) =~= missing.deep_view());
                }
                return missing;
            }
            proof {
                assert(spec_missing_chain(self@.seen, self@.prefix_len, pre_search) =~= seq![
                    pre_search,
                ] + spec_missing_chain(self@.seen, self@.prefix_len, search_key@));
                assert(missing.deep_view() + spec_missing_chain(
                    self@.seen,
                    self@.prefix_len,
                    search_key@,
                ) =~= pre + spec_missing_chain(self@.seen, self@.prefix_len, pre_search));
            }
        }
        proof {
            assert(missing.deep_view() =~= missing.deep_view() + Seq::<Seq<char>>::empty());
        }
        missing
    }

    /// Record and return the previously unseen ancestor directories of `key`,
    /// ordered from highest in the hierarchy to lowest. Each returned
    /// directory lies strictly below the root prefix's depth, was never
    /// returned by an earlier call, and is recorded so that no later call
    /// returns it again; each entry is a strict prefix of the next.
    pub fn add_key(&mut self, key: &str) -> (r: Vec<String>)
        ensures
            final(self)@.prefix_len == old(self)@.prefix_len,
            r.deep_view().len() == spec_missing_chain(
                old(self)@.seen,
                old(self)@.prefix_len,
                spec_dirname(key@),
            ).len(),
            forall|i: int|
                0 <= i < r.deep_view().len() ==> r.deep_view()[i] == spec_missing_chain(
                    old(self)@.seen,
                    old(self)@.prefix_len,
                    spec_dirname(key@),
                )[r.deep_view().len() - 1 - i],
            forall|i: int|
                0 <= i < r.deep_view().len() ==> r.deep_view()[i].len() > old(self)@.prefix_len,
            forall|i: int|
                0 <= i < r.deep_view().len() ==> !old(self)@.seen.contains(r.deep_view()[i]),
            forall|i: int|
                0 <= i < r.deep_view().len() ==> final(self)@.seen.contains(r.deep_view()[i]),
            forall|d: Seq<char>|
                final(self)@.seen.contains(d) <==> (old(self)@.seen.contains(d)
                    || r.deep_view().contains(d)),
            forall|d: Seq<char>|
                final(self)@.seen.contains(d) <==> (old(self)@.seen.contains(d)
                    || spec_missing_chain(
                    old(self)@.seen,
                    old(self)@.prefix_len,
                    spec_dirname(key@),
                ).contains(d)),
            forall|i: int, j: int|
                0 <= i < j < r.deep_view().len() ==> r.deep_view()[i].len() < r.deep_view()[j].len()
                    && r.deep_view()[i].is_prefix_of(r.deep_view()[j]),
            forall|i: int|
                0 <= i < r.deep_view().len() ==> r.deep_view()[i].is_prefix_of(
                    spec_dirname(key@),
                ),
    {
        proof {
            lemma_missing_chain_props(self@.seen, self@.prefix_len, spec_dirname(key@));
        }
        let missing = self.missing_directories(key);
        let ghost chain = missing.deep_view();
        let ghost seen0 = self@.seen;
        let ghost vec0 = self.seen@;
        let mut idx: usize = 0;
        while idx < missing.len()
            invariant
                idx <= missing.len(),
                missing.deep_view() == chain,
                self.prefix_len == old(self).prefix_len,
                self.seen@.len() == vec0.len() + idx,
                forall|k: int| 0 <= k < vec0.len() ==> self.seen@[k] == vec0[k],
                forall|k: int| 0 <= k < idx ==> self.seen@[vec0.len() + k]@ == chain[k],
            decreases missing.len() - idx,
        {
            self.seen.push(missing[idx].clone());
            idx = idx + 1;
        }
        proof {
            assert forall|d: Seq<char>| self@.seen.contains(d) implies (seen0.contains(d)
                || chain.contains(d)) by {
                let k = choose|k: int| 0 <= k < self.seen@.len() && self.seen@[k]@ == d;
                if k < vec0.len() {
                    assert(vec0[k]@ == d);
                    assert(seen0.contains(d));
                } else {
                    assert(chain[k - vec0.len()] == d);
                }
            }
            assert forall|d: Seq<char>| seen0.contains(d) implies self@.seen.contains(d) by {
                let k = choose|k: int| 0 <= k < vec0.len() && vec0[k]@ == d;
                assert(self.seen@[k]@ == d);
            }
            assert forall|d: Seq<char>| chain.contains(d) implies self@.seen.contains(d) by {
                let k = choose|k: int| 0 <= k < chain.len() && chain[k] == d;
                assert(self.seen@[vec0.len() + k]@ == d);
            }
        }
        let mut out: Vec<String> = Vec::new();
        let mut i: usize = missing.len();
        while i > 0
            invariant
                i <= missing.len(),
                missing.deep_view() == chain,
                out.deep_view().len() == missing.len() - i,
                forall|k: int|
                    0 <= k < out.deep_view().len() ==> out.deep_view()[k] == chain[chain.len() - 1
                        - k],
            decreases i,
        {
            let ghost pre_out = out.deep_view();
            i = i - 1;
            out.push(missing[i].clone());
            proof {
                assert(out.deep_view() =~= pre_out.push(chain[i as int]));
            }
        }
        proof {
            assert forall|d: Seq<char>| out.deep_view().contains(d) implies chain.contains(
                d,
            ) by {
                let k = choose|k: int|
                    0 <= k < out.deep_view().len() && out.deep_view()[k] == d;
                assert(chain[chain.len() - 1 - k] == d);
            }
            assert forall|d: Seq<char>| chain.contains(d) implies out.deep_view().contains(
                d,
            ) by {
                let k = choose|k: int| 0 <= k < chain.len() && chain[k] == d;
                assert(out.deep_view()[chain.len() - 1 - k] == d);
            }
            assert forall|d: Seq<char>| self@.seen.contains(d) implies (seen0.contains(d)
                || chain.contains(d)) by {
                if !seen0.contains(d) {
                    let k = choose|k: int| 0 <= k < idx && chain[k] == d;
                    assert(chain[k] == d);
                }
            }
            assert forall|d: Seq<char>| (seen0.contains(d) || chain.contains(d))
                implies self@.seen.contains(d) by {
                if chain.contains(d) {
                    let k = choose|k: int| 0 <= k < chain.len() && chain[k] == d;
                    assert(0 <= k < idx && chain[k] == d);
                }
            }
        }
        out
    }
}

} // verus!
