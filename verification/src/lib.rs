//! A single-node micro-PaaS core: app lifecycle records, a process
//! supervisor state machine with restart and backoff policy, and the
//! routing logic of a reverse-proxy gateway.

use vstd::prelude::*;

pub mod commands;
pub mod config;
pub mod digest;
pub mod errors;
pub mod gateway;
mod ids;
pub mod logs;
pub mod models;
pub mod numstr;
pub mod providers;
pub mod store;
pub mod supervisor;

verus! {

/// Whether a candidate app name is acceptable: non-empty, at most 64
/// characters, each a lowercase ASCII letter, a digit, `-` or `_`.
pub open spec fn valid_app_name(s: Seq<char>) -> bool {
    &&& 1 <= s.len() <= 64
    &&& forall|i: int| 0 <= i < s.len() ==> valid_name_char(#[trigger] s[i])
}

/// A character allowed in an app name.
pub open spec fn valid_name_char(c: char) -> bool {
    ('a' <= c && c <= 'z') || ('0' <= c && c <= '9') || c == '-' || c == '_'
}

/// Validate an app name against the accepted charset and length bounds.
pub fn is_valid_app_name(name: &str) -> (r: bool)
    ensures
        r == valid_app_name(name@),
{
    let len = name.unicode_len();
    if len == 0 || len > 64 {
        return false;
    }
    let mut i: usize = 0;
    while i < len
        invariant
            len == name@.len(),
            1 <= len <= 64,
            0 <= i <= len,
            forall|j: int| 0 <= j < i ==> valid_name_char(#[trigger] name@[j]),
        decreases len - i,
    {
        let c = name.get_char(i);
        if !((c >= 'a' && c <= 'z') || (c >= '0' && c <= '9') || c == '-' || c == '_') {
            return false;
        }
        i += 1;
    }
    true
}

/// Character-for-character equality of two string slices.
pub fn str_eq(a: &str, b: &str) -> (r: bool)
    ensures
        r == (a@ == b@),
{
    let alen = a.unicode_len();
    let blen = b.unicode_len();
    if alen != blen {
        proof {
            assert(a@ != b@);
        }
        return false;
    }
    let mut i: usize = 0;
    while i < alen
        invariant
            alen == a@.len(),
            alen == b@.len(),
            0 <= i <= alen,
            forall|j: int| 0 <= j < i ==> a@[j] == b@[j],
        decreases alen - i,
    {
        if a.get_char(i) != b.get_char(i) {
            return false;
        }
        i += 1;
    }
    proof {
        assert(a@ =~= b@);
    }
    true
}

/// One unfolding of `filter` along `take`: filtering the first `i + 1`
/// elements keeps the filtered prefix and appends the element at `i`
/// exactly when it satisfies the predicate.
pub proof fn lemma_filter_take_step<A>(s: Seq<A>, i: int, p: spec_fn(A) -> bool)
    requires
        0 <= i < s.len(),
    ensures
        s.take(i + 1).filter(p) == (if p(s[i]) {
            s.take(i).filter(p).push(s[i])
        } else {
            s.take(i).filter(p)
        }),
{
    reveal(Seq::filter);
    assert(s.take(i + 1).drop_last() =~= s.take(i));
    assert(s.take(i + 1).last() == s[i]);
    if p(s[i]) {
        assert(s.take(i + 1).filter(p) =~= s.take(i).filter(p).push(s[i]));
    }
}

/// Every element of a filtered sequence stands somewhere in the source.
pub proof fn lemma_filter_elems_from_source<A>(s: Seq<A>, p: spec_fn(A) -> bool)
    ensures
        forall|i: int|
            0 <= i < s.filter(p).len() ==> exists|k: int|
                0 <= k < s.len() && #[trigger] s.filter(p)[i] == s[k],
    decreases s.len(),
{
    reveal(Seq::filter);
    if s.len() > 0 {
        let d = s.drop_last();
        lemma_filter_elems_from_source(d, p);
        assert forall|i: int| 0 <= i < s.filter(p).len() implies exists|k: int|
            0 <= k < s.len() && #[trigger] s.filter(p)[i] == s[k] by {
            if i < d.filter(p).len() {
                assert(s.filter(p)[i] == d.filter(p)[i]);
                let k = choose|k: int| 0 <= k < d.len() && d.filter(p)[i] == d[k];
                assert(s.filter(p)[i] == s[k]);
            } else {
                assert(s.filter(p)[i] == s[s.len() - 1]);
            }
        }
    }
}

} // verus!
