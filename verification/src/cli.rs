use vstd::prelude::*;

use crate::uri::{rfind_char, spec_rfind};

verus! {

// ---------------------------------------------------------------------------
// Progress reporting: the updates a transfer hands to its observer.
// ---------------------------------------------------------------------------

#[derive(Debug)]
pub enum Update {
    State(&'static str),
    StateLength(usize),
    StateProgress(usize),
    Finished(),
    FinishedHide(),
    Error(String),
}

pub fn empty_progress_fn(_update: Update) {
}

// ---------------------------------------------------------------------------
// Width of a number rendered in decimal.
// ---------------------------------------------------------------------------

pub open spec fn spec_digit_count(n: nat) -> nat
    decreases n,
{
    if n < 10 {
        1
    } else {
        1 + spec_digit_count(n / 10)
    }
}

pub open spec fn pow10(k: nat) -> nat
    decreases k,
{
    if k == 0 {
        1
    } else {
        10 * pow10((k - 1) as nat)
    }
}

proof fn lemma_pow10_pos(k: nat)
    ensures
        pow10(k) >= 1,
    decreases k,
{
    if k > 0 {
        lemma_pow10_pos((k - 1) as nat);
    }
}

proof fn lemma_digit_count_bound(n: nat, k: nat)
    requires
        k >= 1,
        n < pow10(k),
    ensures
        spec_digit_count(n) <= k,
    decreases k,
{
    if n < 10 {
    } else {
        lemma_pow10_pos((k - 1) as nat);
        assert(n / 10 < pow10((k - 1) as nat)) by (nonlinear_arith)
            requires
                n < 10 * pow10((k - 1) as nat),
                pow10((k - 1) as nat) >= 1,
        ;
        lemma_digit_count_bound(n / 10, (k - 1) as nat);
    }
}

/// How many decimal digits a number prints as; zero prints as one digit.
pub fn digit_count(num: u64) -> (r: usize)
    ensures
        r == spec_digit_count(num as nat),
{
    proof {
        assert(pow10(20) == 100000000000000000000) by {
            reveal_with_fuel(pow10, 21);
        }
        lemma_digit_count_bound(num as nat, 20);
    }
    let mut n: u64 = num;
    let mut count: usize = 1;
    while n >= 10
        invariant
            count >= 1,
            count - 1 + spec_digit_count(n as nat) == spec_digit_count(num as nat),
            spec_digit_count(num as nat) <= 20,
        decreases n,
    {
        n = n / 10;
        count = count + 1;
    }
    count
}

// ---------------------------------------------------------------------------
// The common display prefix of a set of addresses.
// ---------------------------------------------------------------------------

/// Length of the longest common prefix of two character sequences.
pub open spec fn spec_common_prefix_len(a: Seq<char>, b: Seq<char>) -> nat
    decreases a.len(),
{
    if a.len() == 0 || b.len() == 0 || a[0] != b[0] {
        0
    } else {
        1 + spec_common_prefix_len(a.skip(1), b.skip(1))
    }
}

proof fn lemma_common_prefix_len_from(a: Seq<char>, b: Seq<char>, i: int)
    requires
        0 <= i <= a.len(),
        i <= b.len(),
        forall|j: int| 0 <= j < i ==> a[j] == b[j],
        i == a.len() || i == b.len() || a[i] != b[i],
    ensures
        spec_common_prefix_len(a, b) == i,
    decreases a.len(),
{
    if i == 0 {
    } else {
        let ta = a.skip(1);
        let tb = b.skip(1);
        assert(forall|j: int| 0 <= j < ta.len() ==> ta[j] == a[j + 1]);
        assert(forall|j: int| 0 <= j < tb.len() ==> tb[j] == b[j + 1]);
        lemma_common_prefix_len_from(ta, tb, i - 1);
    }
}

fn common_prefix_len(a: &str, b: &str) -> (r: usize)
    ensures
        r == spec_common_prefix_len(a@, b@),
        r <= a@.len(),
        r <= b@.len(),
{
    let na: usize = a.unicode_len();
    let nb: usize = b.unicode_len();
    let min: usize = if na < nb {
        na
    } else {
        nb
    };
    let mut i: usize = 0;
    while i < min
        invariant
            i <= min,
            min == if na < nb { na as int } else { nb as int },
            na == a@.len(),
            nb == b@.len(),
            forall|j: int| 0 <= j < i ==> a@[j] == b@[j],
        decreases min - i,
    {
        if a.get_char(i) != b.get_char(i) {
            proof {
                lemma_common_prefix_len_from(a@, b@, i as int);
            }
            return i;
        }
        i = i + 1;
    }
    proof {
        lemma_common_prefix_len_from(a@, b@, min as int);
    }
    min
}

/// The longest common prefix of both sequences.
pub open spec fn spec_lcp(a: Seq<char>, b: Seq<char>) -> Seq<char> {
    a.take(spec_common_prefix_len(a, b) as int)
}

/// The common prefix left after folding every item into the accumulator.
pub open spec fn spec_fold_lcp(items: Seq<Seq<char>>, acc: Seq<char>) -> Seq<char>
    decreases items.len(),
{
    if items.len() == 0 {
        acc
    } else {
        spec_fold_lcp(items.skip(1), spec_lcp(acc, items[0]))
    }
}

/// The prefix trimmed back to just after its last '/', when it has one.
pub open spec fn spec_cut_after_last_slash(s: Seq<char>) -> Seq<char> {
    match spec_rfind(s, '/') {
        None => s,
        Some(i) => s.take(i + 1),
    }
}

/// What the display prefix of a list of names is: the longest common prefix
/// of them all, trimmed back to the last common path component.
pub open spec fn spec_display_prefix(items: Seq<Seq<char>>) -> Seq<char> {
    if items.len() == 0 {
        Seq::<char>::empty()
    } else {
        spec_cut_after_last_slash(spec_fold_lcp(items.skip(1), items[0]))
    }
}

/// Common path-component prefix of all the names, used to shorten what the
/// progress display repeats on every line.
pub fn longest_file_display_prefix(strings: &Vec<String>) -> (r: String)
    ensures
        r@ == spec_display_prefix(strings.deep_view()),
{
    let ghost dv = strings.deep_view();
    if strings.len() == 0 {
        return String::new();
    }
    let mut longest: String = strings[0].clone();
    let mut i: usize = 1;
    proof {
        assert(dv.skip(1) =~= dv.skip(1));
    }
    while i < strings.len()
        invariant
            1 <= i <= strings.len(),
            strings.deep_view() == dv,
            dv.len() == strings.len(),
            spec_fold_lcp(dv.skip(i as int), longest@) == spec_fold_lcp(dv.skip(1), dv[0]),
        decreases strings.len() - i,
    {
        let ghost acc = longest@;
        let c: usize = common_prefix_len(longest.as_str(), strings[i].as_str());
        proof {
            assert(dv[i as int] == strings@[i as int]@);
        }
        let truncated = longest.as_str().substring_char(0, c);
        longest = truncated.to_owned();
        proof {
            assert(longest@ =~= spec_lcp(acc, dv[i as int]));
            assert(dv.skip(i as int).skip(1) =~= dv.skip(i + 1));
            assert(dv.skip(i as int)[0] == dv[i as int]);
            assert(spec_fold_lcp(dv.skip(i as int), acc) == spec_fold_lcp(
                dv.skip(i + 1),
                spec_lcp(acc, dv[i as int]),
            ));
        }
        i = i + 1;
    }
    proof {
        assert(dv.skip(i as int) =~= Seq::<Seq<char>>::empty());
    }
    let n: usize = longest.as_str().unicode_len();
    match rfind_char(longest.as_str(), '/') {
        Some(ind) => {
            proof {
                crate::uri::lemma_rfind(longest@, '/');
                assert(longest@.take(ind + 1) =~= longest@.subrange(0, ind + 1));
            }
            longest.as_str().substring_char(0, ind + 1).to_owned()
        },
        None => longest,
    }
}

} // verus!
