//! Turning an album name into a filesystem-safe path segment.
//!
//! Sanitization removes reserved and control characters, strips leading
//! and trailing periods, and appends a trailing marker when the result
//! would collide (case-insensitively) with a reserved device name. The
//! lemmas at the end state the laws of the operation: it is idempotent,
//! and its output never holds a reserved character, never starts or ends
//! with a period, and never matches a reserved device name.

use vstd::prelude::*;
use vstd::string::*;

use crate::text::{is_ascii_digit, to_lower};

verus! {

/// Characters that may not appear in a path segment: the reserved
/// punctuation and the control ranges.
pub open spec fn is_reserved_char(c: char) -> bool {
    ||| c == '<'
    ||| c == '>'
    ||| c == ':'
    ||| c == '"'
    ||| c == '/'
    ||| c == '\\'
    ||| c == '|'
    ||| c == '?'
    ||| c == '*'
    ||| c as u32 <= 0x1f
    ||| 0x7f <= c as u32 <= 0x9f
}

/// `s` with every reserved character removed.
pub open spec fn strip_reserved(s: Seq<char>) -> Seq<char>
    decreases s.len(),
{
    if s.len() == 0 {
        Seq::empty()
    } else if is_reserved_char(s.last()) {
        strip_reserved(s.drop_last())
    } else {
        strip_reserved(s.drop_last()).push(s.last())
    }
}

/// `s` with its run of leading periods removed.
pub open spec fn trim_start_periods(s: Seq<char>) -> Seq<char>
    decreases s.len(),
{
    if s.len() > 0 && s[0] == '.' {
        trim_start_periods(s.drop_first())
    } else {
        s
    }
}

/// `s` with its run of trailing periods removed.
pub open spec fn trim_end_periods(s: Seq<char>) -> Seq<char>
    decreases s.len(),
{
    if s.len() > 0 && s.last() == '.' {
        trim_end_periods(s.drop_last())
    } else {
        s
    }
}

/// `s` with leading and trailing periods removed.
pub open spec fn trim_periods(s: Seq<char>) -> Seq<char> {
    trim_end_periods(trim_start_periods(s))
}

/// Whether `s` equals, case-insensitively, a name reserved by the host
/// filesystem: `con`, `prn`, `aux`, `nul`, `com<digit>` or `lpt<digit>`.
pub open spec fn is_reserved_device_name(s: Seq<char>) -> bool {
    ||| (s.len() == 3 && {
        let l = (to_lower(s[0]), to_lower(s[1]), to_lower(s[2]));
        l == ('c', 'o', 'n') || l == ('p', 'r', 'n') || l == ('a', 'u', 'x') || l == (
            'n',
            'u',
            'l',
        )
    })
    ||| (s.len() == 4 && {
        let l = (to_lower(s[0]), to_lower(s[1]), to_lower(s[2]));
        (l == ('c', 'o', 'm') || l == ('l', 'p', 't')) && is_ascii_digit(s[3])
    })
}

/// The sanitized form of `s`: reserved characters removed, outer periods
/// stripped, and a `_` marker appended on a device-name collision.
pub open spec fn spec_sanitize(s: Seq<char>) -> Seq<char> {
    let t = trim_periods(strip_reserved(s));
    if is_reserved_device_name(t) {
        t.push('_')
    } else {
        t
    }
}

/// No character of `s` is reserved.
pub open spec fn no_reserved(s: Seq<char>) -> bool {
    forall|i: int| 0 <= i < s.len() ==> !is_reserved_char(#[trigger] s[i])
}

proof fn lemma_strip_no_reserved(s: Seq<char>)
    ensures
        no_reserved(strip_reserved(s)),
    decreases s.len(),
{
    if s.len() > 0 {
        lemma_strip_no_reserved(s.drop_last());
    }
}

proof fn lemma_strip_identity(s: Seq<char>)
    requires
        no_reserved(s),
    ensures
        strip_reserved(s) == s,
    decreases s.len(),
{
    if s.len() > 0 {
        assert(no_reserved(s.drop_last()));
        lemma_strip_identity(s.drop_last());
        assert(strip_reserved(s) =~= s);
    } else {
        assert(strip_reserved(s) =~= s);
    }
}

proof fn lemma_trim_start_no_reserved(s: Seq<char>)
    requires
        no_reserved(s),
    ensures
        no_reserved(trim_start_periods(s)),
    decreases s.len(),
{
    if s.len() > 0 && s[0] == '.' {
        assert(no_reserved(s.drop_first()));
        lemma_trim_start_no_reserved(s.drop_first());
    }
}

proof fn lemma_trim_end_no_reserved(s: Seq<char>)
    requires
        no_reserved(s),
    ensures
        no_reserved(trim_end_periods(s)),
    decreases s.len(),
{
    if s.len() > 0 && s.last() == '.' {
        assert(no_reserved(s.drop_last()));
        lemma_trim_end_no_reserved(s.drop_last());
    }
}

proof fn lemma_trim_start_head(s: Seq<char>)
    ensures
        trim_start_periods(s).len() <= s.len(),
        trim_start_periods(s).len() > 0 ==> trim_start_periods(s)[0] != '.',
        trim_start_periods(s).len() > 0 ==> trim_start_periods(s) == s.subrange(
            s.len() - trim_start_periods(s).len(),
            s.len() as int,
        ),
    decreases s.len(),
{
    if s.len() > 0 && s[0] == '.' {
        let d = s.drop_first();
        lemma_trim_start_head(d);
        assert(d =~= s.subrange(1, s.len() as int));
        let t = trim_start_periods(s);
        if t.len() > 0 {
            assert(t == d.subrange(d.len() - t.len(), d.len() as int));
            assert(t =~= s.subrange(s.len() - t.len(), s.len() as int));
        }
    } else {
        if s.len() > 0 {
            assert(trim_start_periods(s) =~= s.subrange(0, s.len() as int));
        }
    }
}

proof fn lemma_trim_end_prefix(s: Seq<char>)
    ensures
        trim_end_periods(s).len() <= s.len(),
        trim_end_periods(s) == s.subrange(0, trim_end_periods(s).len() as int),
        trim_end_periods(s).len() > 0 ==> trim_end_periods(s).last() != '.',
    decreases s.len(),
{
    if s.len() > 0 && s.last() == '.' {
        lemma_trim_end_prefix(s.drop_last());
        assert(trim_end_periods(s) =~= s.subrange(0, trim_end_periods(s).len() as int));
    } else {
        assert(trim_end_periods(s) =~= s.subrange(0, trim_end_periods(s).len() as int));
    }
}

/// The sanitized form of any input holds no reserved character, neither
/// starts nor ends with a period, and is no reserved device name.
pub proof fn lemma_sanitize_well_formed(s: Seq<char>)
    ensures
        no_reserved(spec_sanitize(s)),
        spec_sanitize(s).len() > 0 ==> spec_sanitize(s)[0] != '.',
        spec_sanitize(s).len() > 0 ==> spec_sanitize(s).last() != '.',
        !is_reserved_device_name(spec_sanitize(s)),
{
    let k = strip_reserved(s);
    let a = trim_start_periods(k);
    let t = trim_end_periods(a);
    lemma_strip_no_reserved(s);
    lemma_trim_start_no_reserved(k);
    lemma_trim_end_no_reserved(a);
    lemma_trim_start_head(k);
    lemma_trim_end_prefix(a);
    let o = spec_sanitize(s);
    if is_reserved_device_name(t) {
        assert(o == t.push('_'));
        assert(o.last() == '_');
        assert(to_lower(t[0]) == 'c' || to_lower(t[0]) == 'p' || to_lower(t[0]) == 'a'
            || to_lower(t[0]) == 'n' || to_lower(t[0]) == 'l');
        assert(t[0] != '.') by {
            if t[0] == '.' {
                assert(to_lower('.') == '.');
            }
        }
        assert(o[0] != '.');
        assert(!is_reserved_char('_'));
        assert(no_reserved(o));
        if o.len() == 4 {
            assert(to_lower(o[3]) == '_');
            assert(!is_ascii_digit('_'));
            assert(!is_reserved_device_name(o));
        } else {
            assert(o.len() == 5);
            assert(!is_reserved_device_name(o));
        }
    } else {
        assert(o == t);
        if t.len() > 0 {
            assert(t[0] == a[0]);
        }
    }
}

/// Sanitizing is idempotent: a sanitized name passes through unchanged.
pub proof fn lemma_sanitize_idempotent(s: Seq<char>)
    ensures
        spec_sanitize(spec_sanitize(s)) == spec_sanitize(s),
{
    let o = spec_sanitize(s);
    lemma_sanitize_well_formed(s);
    lemma_strip_identity(o);
    assert(trim_start_periods(o) == o);
    assert(trim_end_periods(o) == o);
}

fn lower_char(c: char) -> (r: char)
    ensures
        r == to_lower(c),
{
    let u = c as u32;
    if 65 <= u && u <= 90 {
        ((u + 32) as u8) as char
    } else {
        c
    }
}

fn is_device_name(kept: &Vec<char>, a: usize, b: usize) -> (r: bool)
    requires
        a <= b <= kept@.len(),
    ensures
        r == is_reserved_device_name(kept@.subrange(a as int, b as int)),
{
    let ghost t = kept@.subrange(a as int, b as int);
    let len = b - a;
    if len == 3 {
        let l0 = lower_char(kept[a]);
        let l1 = lower_char(kept[a + 1]);
        let l2 = lower_char(kept[a + 2]);
        (l0 == 'c' && l1 == 'o' && l2 == 'n') || (l0 == 'p' && l1 == 'r' && l2 == 'n') || (l0
            == 'a' && l1 == 'u' && l2 == 'x') || (l0 == 'n' && l1 == 'u' && l2 == 'l')
    } else if len == 4 {
        let l0 = lower_char(kept[a]);
        let l1 = lower_char(kept[a + 1]);
        let l2 = lower_char(kept[a + 2]);
        let d = kept[a + 3] as u32;
        ((l0 == 'c' && l1 == 'o' && l2 == 'm') || (l0 == 'l' && l1 == 'p' && l2 == 't')) && 48
            <= d && d <= 57
    } else {
        false
    }
}

/// Sanitizes `input` into a filesystem-safe path segment.
///
/// Reserved and control characters are removed, leading and trailing
/// periods are stripped, and a `_` marker is appended when the stripped
/// name collides, case-insensitively, with a reserved device name.
pub fn filenamify(input: &str) -> (r: String)
    ensures
        r@ == spec_sanitize(input@),
{
    let n = input.unicode_len();
    let mut kept: Vec<char> = Vec::new();
    let mut i: usize = 0;
    while i < n
        invariant
            i <= n,
            n == input@.len(),
            kept@ =~= strip_reserved(input@.take(i as int)),
        decreases n - i,
    {
        let c = input.get_char(i);
        let u = c as u32;
        let reserved = c == '<' || c == '>' || c == ':' || c == '"' || c == '/' || c == '\\'
            || c == '|' || c == '?' || c == '*' || u <= 0x1f || (0x7f <= u && u <= 0x9f);
        assert(reserved == is_reserved_char(input@[i as int]));
        if !reserved {
            kept.push(c);
        }
        proof {
            assert(input@.take(i + 1 as int).drop_last() =~= input@.take(i as int));
        }
        i = i + 1;
    }
    proof {
        assert(input@.take(n as int) =~= input@);
    }

    let mut a: usize = 0;
    let kn = kept.len();
    while a < kn && kept[a] == '.'
        invariant
            a <= kn,
            kn == kept@.len(),
            kept@ == strip_reserved(input@),
            forall|j: int| 0 <= j < a ==> kept@[j] == '.',
        decreases kn - a,
    {
        a = a + 1;
    }
    let mut b: usize = kn;
    while b > a && kept[b - 1] == '.'
        invariant
            a <= b <= kn,
            kn == kept@.len(),
            kept@ == strip_reserved(input@),
            a == kn || kept@[a as int] != '.',
            forall|j: int| 0 <= j < a ==> kept@[j] == '.',
            forall|j: int| b <= j < kn ==> kept@[j] == '.',
        decreases b,
    {
        b = b - 1;
    }
    proof {
        lemma_trim_chain(kept@, a as int, b as int);
    }

    let mut r = String::new();
    let mut i: usize = a;
    while i < b
        invariant
            a <= i <= b <= kept@.len(),
            kept@ == strip_reserved(input@),
            trim_periods(kept@) == kept@.subrange(a as int, b as int),
            r@ =~= kept@.subrange(a as int, i as int),
        decreases b - i,
    {
        r.push(kept[i]);
        proof {
            assert(kept@.subrange(a as int, i + 1 as int) =~= kept@.subrange(
                a as int,
                i as int,
            ).push(kept@[i as int]));
        }
        i = i + 1;
    }
    if is_device_name(&kept, a, b) {
        r.push('_');
    }
    r
}

/// Scanning the period runs from both ends computes exactly the trimmed
/// sequence.
proof fn lemma_trim_chain(s: Seq<char>, a: int, b: int)
    requires
        0 <= a <= b <= s.len(),
        forall|j: int| 0 <= j < a ==> s[j] == '.',
        a == s.len() || s[a] != '.',
        b == a || s[b - 1] != '.',
        forall|j: int| b <= j < s.len() ==> s[j] == '.',
    ensures
        trim_periods(s) == s.subrange(a, b),
{
    lemma_trim_start_exact(s, a);
    let t = s.subrange(a, s.len() as int);
    lemma_trim_end_exact(t, b - a);
    assert(t.subrange(0, b - a) =~= s.subrange(a, b));
}

proof fn lemma_trim_start_exact(s: Seq<char>, a: int)
    requires
        0 <= a <= s.len(),
        forall|j: int| 0 <= j < a ==> s[j] == '.',
        a < s.len() ==> s[a] != '.',
    ensures
        trim_start_periods(s) == s.subrange(a, s.len() as int),
    decreases a,
{
    if a == 0 {
        assert(trim_start_periods(s) =~= s.subrange(0, s.len() as int));
    } else {
        assert(s[0] == '.');
        let d = s.drop_first();
        assert(d =~= s.subrange(1, s.len() as int));
        lemma_trim_start_exact(d, a - 1);
        assert(d.subrange(a - 1, d.len() as int) =~= s.subrange(a, s.len() as int));
    }
}

proof fn lemma_trim_end_exact(s: Seq<char>, b: int)
    requires
        0 <= b <= s.len(),
        forall|j: int| b <= j < s.len() ==> s[j] == '.',
        b > 0 ==> s[b - 1] != '.',
    ensures
        trim_end_periods(s) == s.subrange(0, b),
    decreases s.len() - b,
{
    if b == s.len() {
        if s.len() == 0 || s.last() != '.' {
            assert(trim_end_periods(s) =~= s.subrange(0, b));
        } else {
            assert(s[b - 1] == s.last());
            assert(false);
        }
    } else {
        assert(s.last() == '.');
        let d = s.drop_last();
        assert(d =~= s.subrange(0, s.len() - 1));
        lemma_trim_end_exact(d, b);
        assert(d.subrange(0, b) =~= s.subrange(0, b));
    }
}

} // verus!
