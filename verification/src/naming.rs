//! Deriving a local file name from a picture URL.
//!
//! The file name is the last path segment of the URL (trailing slashes
//! ignored); deriving fails when there is no such segment. One site
//! appends a cache-busting suffix after an `@` delimiter, which is
//! stripped before use.

use vstd::prelude::*;
use vstd::string::*;

verus! {

/// `s` with its run of trailing slashes removed.
pub open spec fn trim_end_slashes(s: Seq<char>) -> Seq<char>
    decreases s.len(),
{
    if s.len() > 0 && s.last() == '/' {
        trim_end_slashes(s.drop_last())
    } else {
        s
    }
}

/// The characters after the last slash of `s` (all of `s` when it has
/// none).
pub open spec fn after_last_slash(s: Seq<char>) -> Seq<char>
    decreases s.len(),
{
    if s.len() == 0 {
        Seq::empty()
    } else if s.last() == '/' {
        Seq::empty()
    } else {
        after_last_slash(s.drop_last()).push(s.last())
    }
}

/// The characters of `s` before its first `@` (all of `s` when it has
/// none).
pub open spec fn before_first_at(s: Seq<char>) -> Seq<char>
    decreases s.len(),
{
    if s.len() == 0 {
        Seq::empty()
    } else if s[0] == '@' {
        Seq::empty()
    } else {
        seq![s[0]] + before_first_at(s.drop_first())
    }
}

/// The last path segment of the URL `u`, ignoring trailing slashes;
/// absent when no segment remains.
pub open spec fn spec_last_segment(u: Seq<char>) -> Option<Seq<char>> {
    let seg = after_last_slash(trim_end_slashes(u));
    if seg.len() == 0 {
        None
    } else {
        Some(seg)
    }
}

proof fn lemma_trim_end_slashes_exact(s: Seq<char>, e: int)
    requires
        0 <= e <= s.len(),
        forall|j: int| e <= j < s.len() ==> s[j] == '/',
        e > 0 ==> s[e - 1] != '/',
    ensures
        trim_end_slashes(s) == s.subrange(0, e),
    decreases s.len() - e,
{
    if e == s.len() {
        if s.len() == 0 || s.last() != '/' {
            assert(trim_end_slashes(s) =~= s.subrange(0, e));
        } else {
            assert(s[e - 1] == s.last());
            assert(false);
        }
    } else {
        assert(s.last() == '/');
        let d = s.drop_last();
        assert(d =~= s.subrange(0, s.len() - 1));
        lemma_trim_end_slashes_exact(d, e);
        assert(d.subrange(0, e) =~= s.subrange(0, e));
    }
}

proof fn lemma_after_last_slash_exact(s: Seq<char>, l: int)
    requires
        -1 <= l < s.len(),
        l >= 0 ==> s[l] == '/',
        forall|j: int| l < j < s.len() ==> s[j] != '/',
    ensures
        after_last_slash(s) == s.subrange(l + 1, s.len() as int),
    decreases s.len(),
{
    if s.len() == 0 {
        assert(after_last_slash(s) =~= s.subrange(l + 1, s.len() as int));
    } else if l == s.len() - 1 {
        assert(s.last() == '/');
        assert(after_last_slash(s) =~= s.subrange(l + 1, s.len() as int));
    } else {
        assert(s.last() != '/');
        let d = s.drop_last();
        assert(d =~= s.subrange(0, s.len() - 1));
        lemma_after_last_slash_exact(d, l);
        assert(after_last_slash(s) =~= s.subrange(l + 1, s.len() as int));
    }
}

proof fn lemma_before_first_at_exact(s: Seq<char>, p: int)
    requires
        0 <= p <= s.len(),
        p < s.len() ==> s[p] == '@',
        forall|j: int| 0 <= j < p ==> s[j] != '@',
    ensures
        before_first_at(s) == s.subrange(0, p),
    decreases s.len(),
{
    if s.len() == 0 {
        assert(before_first_at(s) =~= s.subrange(0, p));
    } else if s[0] == '@' {
        assert(p == 0);
        assert(before_first_at(s) =~= s.subrange(0, 0));
    } else {
        assert(p > 0);
        let d = s.drop_first();
        assert(d =~= s.subrange(1, s.len() as int));
        lemma_before_first_at_exact(d, p - 1);
        assert(before_first_at(s) =~= s.subrange(0, p));
    }
}

/// The last path segment of `url`, or `None` when there is none.
pub fn last_segment(url: &str) -> (r: Option<String>)
    ensures
        r.deep_view() == spec_last_segment(url@),
{
    let n = url.unicode_len();
    let mut e: usize = n;
    while e > 0 && url.get_char(e - 1) == '/'
        invariant
            e <= n,
            n == url@.len(),
            forall|j: int| e <= j < n ==> url@[j] == '/',
        decreases e,
    {
        e = e - 1;
    }
    proof {
        lemma_trim_end_slashes_exact(url@, e as int);
    }
    let ghost t = url@.subrange(0, e as int);
    let mut l: usize = e;
    while l > 0 && url.get_char(l - 1) != '/'
        invariant
            l <= e <= n,
            n == url@.len(),
            t == url@.subrange(0, e as int),
            trim_end_slashes(url@) == t,
            forall|j: int| l <= j < e ==> url@[j] != '/',
        decreases l,
    {
        l = l - 1;
    }
    proof {
        lemma_after_last_slash_exact(t, l as int - 1);
        assert(t.subrange(l as int, e as int) =~= url@.subrange(l as int, e as int));
    }
    if l == e {
        assert(spec_last_segment(url@) is None);
        return None;
    }
    let mut seg = String::new();
    let mut i: usize = l;
    while i < e
        invariant
            l <= i <= e <= n,
            l < e,
            n == url@.len(),
            after_last_slash(trim_end_slashes(url@)) == url@.subrange(l as int, e as int),
            seg@ =~= url@.subrange(l as int, i as int),
        decreases e - i,
    {
        seg.push(url.get_char(i));
        proof {
            assert(url@.subrange(l as int, i + 1 as int) =~= url@.subrange(
                l as int,
                i as int,
            ).push(url@[i as int]));
        }
        i = i + 1;
    }
    Some(seg)
}

/// `name` truncated at its first `@`, dropping a cache-busting suffix.
pub fn strip_at_suffix(name: &str) -> (r: String)
    ensures
        r@ == before_first_at(name@),
{
    let n = name.unicode_len();
    let p: usize = match crate::text::find_first(name, '@') {
        Some(p) => p,
        None => n,
    };
    proof {
        lemma_before_first_at_exact(name@, p as int);
    }
    let mut r = String::new();
    let mut i: usize = 0;
    while i < p
        invariant
            i <= p <= n,
            n == name@.len(),
            before_first_at(name@) == name@.subrange(0, p as int),
            r@ =~= name@.subrange(0, i as int),
        decreases p - i,
    {
        r.push(name.get_char(i));
        proof {
            assert(name@.subrange(0, i + 1 as int) =~= name@.subrange(0, i as int).push(
                name@[i as int],
            ));
        }
        i = i + 1;
    }
    r
}

} // verus!
