//! Character and string utilities: ASCII case folding, decimal parsing
//! and formatting, and searching within strings.

use vstd::prelude::*;
use vstd::string::*;

verus! {

/// Relies on `String::push`: appends one character at the end.
pub assume_specification[ String::push ](s: &mut String, ch: char)
    ensures
        final(s)@ == old(s)@.push(ch),
;

/// Whether `c` is a decimal digit.
pub open spec fn is_ascii_digit(c: char) -> bool {
    48 <= c as u32 <= 57
}

/// The numeric value of the digit `c`.
pub open spec fn digit_val(c: char) -> nat {
    (c as u32 - 48) as nat
}

/// Every character of `s` is a decimal digit.
pub open spec fn all_digits(s: Seq<char>) -> bool {
    forall|i: int| 0 <= i < s.len() ==> is_ascii_digit(#[trigger] s[i])
}

/// The number denoted by the digit string `s`, read left to right.
pub open spec fn digits_val(s: Seq<char>) -> nat
    decreases s.len(),
{
    if s.len() == 0 {
        0
    } else {
        digits_val(s.drop_last()) * 10 + digit_val(s.last())
    }
}

/// The character for the digit `d`.
pub open spec fn digit_to_char(d: nat) -> char {
    if d == 0 { '0' }
    else if d == 1 { '1' }
    else if d == 2 { '2' }
    else if d == 3 { '3' }
    else if d == 4 { '4' }
    else if d == 5 { '5' }
    else if d == 6 { '6' }
    else if d == 7 { '7' }
    else if d == 8 { '8' }
    else { '9' }
}

/// The decimal representation of `n`, without sign or leading zeros.
pub open spec fn u32_digits(n: nat) -> Seq<char>
    decreases n,
{
    if n < 10 {
        seq![digit_to_char(n)]
    } else {
        u32_digits(n / 10).push(digit_to_char(n % 10))
    }
}

/// ASCII upper-casing of one character; anything outside `a`..`z` is kept.
pub open spec fn to_upper(c: char) -> char {
    if 97 <= c as u32 <= 122 {
        ((c as u32 - 32) as u8) as char
    } else {
        c
    }
}

/// ASCII lower-casing of one character; anything outside `A`..`Z` is kept.
pub open spec fn to_lower(c: char) -> char {
    if 65 <= c as u32 <= 90 {
        ((c as u32 + 32) as u8) as char
    } else {
        c
    }
}

/// ASCII upper-casing of a whole sequence.
pub open spec fn upper_seq(s: Seq<char>) -> Seq<char> {
    s.map_values(|c: char| to_upper(c))
}

/// Whether the strings `a` and `b` hold the same characters.
pub fn str_eq(a: &str, b: &str) -> (r: bool)
    ensures
        r == (a@ == b@),
{
    let an = a.unicode_len();
    let bn = b.unicode_len();
    if an != bn {
        assert(a@.len() != b@.len());
        return false;
    }
    let mut i: usize = 0;
    while i < an
        invariant
            i <= an,
            an == a@.len(),
            an == b@.len(),
            forall|j: int| 0 <= j < i ==> a@[j] == b@[j],
        decreases an - i,
    {
        if a.get_char(i) != b.get_char(i) {
            assert(a@[i as int] != b@[i as int]);
            return false;
        }
        i = i + 1;
    }
    assert(a@ =~= b@);
    true
}

/// ASCII upper-casing of a whole string.
pub fn upper_str(s: &str) -> (r: String)
    ensures
        r@ == upper_seq(s@),
{
    let n = s.unicode_len();
    let mut r = String::new();
    let mut i: usize = 0;
    while i < n
        invariant
            i <= n,
            n == s@.len(),
            r@ =~= upper_seq(s@.take(i as int)),
        decreases n - i,
    {
        let c = s.get_char(i);
        let u = c as u32;
        if 97 <= u && u <= 122 {
            r.push(((u - 32) as u8) as char);
        } else {
            r.push(c);
        }
        proof {
            assert(s@.take(i + 1 as int).drop_last() =~= s@.take(i as int));
            assert(upper_seq(s@.take(i + 1 as int)) =~= upper_seq(s@.take(i as int)).push(
                to_upper(s@[i as int]),
            ));
        }
        i = i + 1;
    }
    proof {
        assert(s@.take(n as int) =~= s@);
    }
    r
}

/// Appends the decimal representation of `n` to `s`.
pub fn push_u32(s: &mut String, n: u32)
    ensures
        final(s)@ == old(s)@ + u32_digits(n as nat),
    decreases n,
{
    if n >= 10 {
        push_u32(s, n / 10);
    }
    let d = n % 10;
    let c: char = if d == 0 { '0' }
        else if d == 1 { '1' }
        else if d == 2 { '2' }
        else if d == 3 { '3' }
        else if d == 4 { '4' }
        else if d == 5 { '5' }
        else if d == 6 { '6' }
        else if d == 7 { '7' }
        else if d == 8 { '8' }
        else { '9' };
    assert(c == digit_to_char((n % 10) as nat));
    s.push(c);
    proof {
        if n < 10 {
            assert(u32_digits(n as nat) =~= seq![digit_to_char(n as nat)]);
            assert(final(s)@ =~= old(s)@ + u32_digits(n as nat));
        } else {
            assert(u32_digits(n as nat) == u32_digits((n / 10) as nat).push(
                digit_to_char((n % 10) as nat),
            ));
            assert(final(s)@ =~= old(s)@ + u32_digits(n as nat));
        }
    }
}

/// The decimal representation of `n` as a fresh string.
pub fn u32_to_string(n: u32) -> (r: String)
    ensures
        r@ == u32_digits(n as nat),
{
    let mut r = String::new();
    push_u32(&mut r, n);
    proof {
        assert(r@ =~= u32_digits(n as nat));
    }
    r
}

/// The value of every prefix of a digit string is at most the whole value.
proof fn lemma_digits_val_prefix_le(s: Seq<char>, i: int)
    requires
        0 <= i <= s.len(),
    ensures
        digits_val(s.take(i)) <= digits_val(s),
    decreases s.len() - i,
{
    if i < s.len() {
        assert(s.take(i + 1).drop_last() =~= s.take(i));
        assert(digits_val(s.take(i + 1)) == digits_val(s.take(i)) * 10 + digit_val(s.take(
            i + 1,
        ).last()));
        lemma_digits_val_prefix_le(s, i + 1);
    } else {
        assert(s.take(i) =~= s);
    }
}

/// What a numeric argument means: an optional leading `+`, then at least
/// one digit, denoting a value that fits the target type.
pub open spec fn numeral_body(s: Seq<char>) -> Seq<char> {
    if s.len() >= 1 && s[0] == '+' {
        s.subrange(1, s.len() as int)
    } else {
        s
    }
}

/// Whether `s` is a well-formed unsigned numeral (ignoring range).
pub open spec fn is_numeral(s: Seq<char>) -> bool {
    numeral_body(s).len() > 0 && all_digits(numeral_body(s))
}

/// Parses the digit run `s[from..]` as a `u64`, failing on any non-digit,
/// on an empty run, and on overflow.
fn parse_digits_u64(s: &str, from: usize) -> (r: Option<u64>)
    requires
        from <= s@.len(),
    ensures
        ({
            let d = s@.subrange(from as int, s@.len() as int);
            match r {
                Some(v) => d.len() > 0 && all_digits(d) && v == digits_val(d)
                    && digits_val(d) <= u64::MAX,
                None => d.len() == 0 || !all_digits(d) || digits_val(d) > u64::MAX,
            }
        }),
{
    let ghost d = s@.subrange(from as int, s@.len() as int);
    let n = s.unicode_len();
    if from == n {
        return None;
    }
    let mut acc: u64 = 0;
    let mut i: usize = from;
    while i < n
        invariant
            from <= i <= n,
            n == s@.len(),
            from < n,
            d == s@.subrange(from as int, n as int),
            all_digits(d.take(i - from)),
            acc == digits_val(d.take(i - from)),
        decreases n - i,
    {
        let c = s.get_char(i);
        let u = c as u32;
        if !(48 <= u && u <= 57) {
            assert(d[i - from] == s@[i as int]);
            assert(!is_ascii_digit(d[i - from]));
            return None;
        }
        let dv: u64 = ((u - 48) as u8) as u64;
        assert(dv == digit_val(s@[i as int]));
        let next = match acc.checked_mul(10) {
            Some(m) => m.checked_add(dv),
            None => None,
        };
        proof {
            assert(d.take(i - from + 1).drop_last() =~= d.take(i - from));
            assert(d.take(i - from + 1).last() == s@[i as int]);
            assert(digits_val(d.take(i - from + 1)) == digits_val(d.take(i - from)) * 10
                + digit_val(s@[i as int]));
        }
        match next {
            Some(v) => {
                acc = v;
            },
            None => {
                proof {
                    lemma_digits_val_prefix_le(d, i - from + 1);
                }
                return None;
            },
        }
        i = i + 1;
    }
    proof {
        assert(d.take(n - from) =~= d);
    }
    Some(acc)
}

/// Parses `s` as a `u32` numeral: an optional leading `+`, then digits.
pub fn parse_u32(s: &str) -> (r: Option<u32>)
    ensures
        ({
            let d = numeral_body(s@);
            match r {
                Some(v) => is_numeral(s@) && v == digits_val(d) && digits_val(d) <= u32::MAX,
                None => !is_numeral(s@) || digits_val(d) > u32::MAX,
            }
        }),
{
    let n = s.unicode_len();
    let from: usize = if n >= 1 && s.get_char(0) == '+' {
        1
    } else {
        0
    };
    proof {
        if from == 1 {
            assert(numeral_body(s@) =~= s@.subrange(1, s@.len() as int));
        } else {
            assert(numeral_body(s@) =~= s@.subrange(0, s@.len() as int));
        }
    }
    match parse_digits_u64(s, from) {
        Some(v) => {
            if v <= 0xffff_ffffu64 {
                Some(v as u32)
            } else {
                None
            }
        },
        None => None,
    }
}

/// Parses `s` as a `usize` numeral: an optional leading `+`, then digits.
pub fn parse_usize(s: &str) -> (r: Option<usize>)
    ensures
        ({
            let d = numeral_body(s@);
            match r {
                Some(v) => is_numeral(s@) && v == digits_val(d) && digits_val(d) <= usize::MAX,
                None => !is_numeral(s@) || digits_val(d) > usize::MAX,
            }
        }),
{
    let n = s.unicode_len();
    let from: usize = if n >= 1 && s.get_char(0) == '+' {
        1
    } else {
        0
    };
    proof {
        if from == 1 {
            assert(numeral_body(s@) =~= s@.subrange(1, s@.len() as int));
        } else {
            assert(numeral_body(s@) =~= s@.subrange(0, s@.len() as int));
        }
    }
    match parse_digits_u64(s, from) {
        Some(v) => {
            if v <= usize::MAX as u64 {
                Some(v as usize)
            } else {
                None
            }
        },
        None => None,
    }
}

/// The position of the first occurrence of `c` in `s`, if any.
pub fn find_first(s: &str, c: char) -> (r: Option<usize>)
    ensures
        match r {
            Some(i) => i < s@.len() && s@[i as int] == c && (forall|j: int|
                0 <= j < i ==> s@[j] != c),
            None => forall|j: int| 0 <= j < s@.len() ==> s@[j] != c,
        },
{
    let n = s.unicode_len();
    let mut i: usize = 0;
    while i < n
        invariant
            i <= n,
            n == s@.len(),
            forall|j: int| 0 <= j < i ==> s@[j] != c,
        decreases n - i,
    {
        if s.get_char(i) == c {
            return Some(i);
        }
        i = i + 1;
    }
    None
}

} // verus!
