//! Parsing one line of user input into a command.
//!
//! A line is upper-cased (ASCII), split on whitespace, and the first
//! word picks the command; `JUMP`, `DOWNLOAD`, `SWITCH` and `SEARCH`
//! read one argument from the second word. Numeric-argument commands
//! fail distinctly when the argument is missing and when it is not a
//! number.

use vstd::prelude::*;
use vstd::string::*;

use crate::text::{
    digits_val, is_numeral, numeral_body, parse_u32, parse_usize, str_eq, upper_seq, upper_str,
};

verus! {

/// One command of the interactive surface.
#[derive(Clone, Debug, PartialEq, Eq)]
pub enum Command {
    HELP,
    CURRENT,
    FIRST,
    LAST,
    NEXT,
    PREV,
    QUIT,
    UNKNOWN,
    NONE,
    SWITCH(Option<String>),
    SEARCH(String),
    JUMP(u32),
    DOWNLOAD(usize),
    ArgumentErr(String),
}

/// The whitespace that separates words of a command line.
pub open spec fn is_space(c: char) -> bool {
    c == ' ' || c == '\t' || c == '\n' || c == '\r'
}

/// `s` without its leading whitespace.
pub open spec fn skip_spaces(s: Seq<char>) -> Seq<char>
    decreases s.len(),
{
    if s.len() > 0 && is_space(s[0]) {
        skip_spaces(s.drop_first())
    } else {
        s
    }
}

/// The longest whitespace-free prefix of `s`.
pub open spec fn take_word(s: Seq<char>) -> Seq<char>
    decreases s.len(),
{
    if s.len() > 0 && !is_space(s[0]) {
        seq![s[0]] + take_word(s.drop_first())
    } else {
        Seq::empty()
    }
}

/// The first whitespace-separated word of `s` (empty when there is
/// none).
pub open spec fn first_token(s: Seq<char>) -> Seq<char> {
    take_word(skip_spaces(s))
}

/// What remains of `s` after its first word.
pub open spec fn rest_after_token(s: Seq<char>) -> Seq<char> {
    skip_spaces(s).skip(first_token(s).len() as int)
}

/// The second whitespace-separated word of `s` (empty when there is
/// none).
pub open spec fn second_token(s: Seq<char>) -> Seq<char> {
    first_token(rest_after_token(s))
}

proof fn lemma_skip_spaces_exact(s: Seq<char>, a: int)
    requires
        0 <= a <= s.len(),
        forall|j: int| 0 <= j < a ==> is_space(#[trigger] s[j]),
        a < s.len() ==> !is_space(s[a]),
    ensures
        skip_spaces(s) == s.subrange(a, s.len() as int),
    decreases a,
{
    if a == 0 {
        assert(skip_spaces(s) =~= s.subrange(0, s.len() as int));
    } else {
        assert(is_space(s[0]));
        let d = s.drop_first();
        assert(d =~= s.subrange(1, s.len() as int));
        lemma_skip_spaces_exact(d, a - 1);
        assert(d.subrange(a - 1, d.len() as int) =~= s.subrange(a, s.len() as int));
    }
}

proof fn lemma_take_word_exact(s: Seq<char>, b: int)
    requires
        0 <= b <= s.len(),
        forall|j: int| 0 <= j < b ==> !is_space(#[trigger] s[j]),
        b < s.len() ==> is_space(s[b]),
    ensures
        take_word(s) == s.subrange(0, b),
    decreases s.len(),
{
    if s.len() > 0 && !is_space(s[0]) {
        assert(b >= 1);
        let d = s.drop_first();
        assert(d =~= s.subrange(1, s.len() as int));
        lemma_take_word_exact(d, b - 1);
        assert(take_word(s) =~= s.subrange(0, b));
    } else {
        assert(b == 0);
        assert(take_word(s) =~= s.subrange(0, 0));
    }
}

/// Scanning a space run and then a word run from `from` computes the
/// first token of `u.skip(from)` and leaves `u.skip(b)` as the rest.
proof fn lemma_token_scan(u: Seq<char>, from: int, a: int, b: int)
    requires
        0 <= from <= a <= b <= u.len(),
        forall|j: int| from <= j < a ==> is_space(#[trigger] u[j]),
        a < u.len() ==> !is_space(u[a]),
        forall|j: int| a <= j < b ==> !is_space(#[trigger] u[j]),
        b < u.len() ==> is_space(u[b]),
    ensures
        first_token(u.skip(from)) == u.subrange(a, b),
        rest_after_token(u.skip(from)) == u.skip(b),
{
    let f = u.skip(from);
    assert(f =~= u.subrange(from, u.len() as int));
    lemma_skip_spaces_exact(f, a - from);
    let t = f.subrange(a - from, f.len() as int);
    assert(t =~= u.subrange(a, u.len() as int));
    lemma_take_word_exact(t, b - a);
    assert(t.subrange(0, b - a) =~= u.subrange(a, b));
    assert(t.skip(b - a) =~= u.skip(b));
}

/// Parses one input line into a command.
///
/// The line is upper-cased first, so command words and arguments are
/// case-insensitive. An empty line is `NONE`; an unrecognized first word
/// is `UNKNOWN`; a missing or non-numeric argument of `JUMP`, `DOWNLOAD`
/// or `SEARCH` yields `ArgumentErr` with a message telling the two
/// apart.
#[verifier::rlimit(50)]
pub fn parse_command(line: &str) -> (r: Command)
    ensures
        ({
            let u = upper_seq(line@);
            let t1 = first_token(u);
            let t2 = second_token(u);
            &&& t1.len() == 0 ==> r is NONE
            &&& t1 == "HELP"@ || t1 == "H"@ ==> r is HELP
            &&& t1 == "CURRENT"@ || t1 == "C"@ ==> r is CURRENT
            &&& t1 == "FIRST"@ || t1 == "F"@ ==> r is FIRST
            &&& t1 == "LAST"@ || t1 == "L"@ ==> r is LAST
            &&& t1 == "NEXT"@ || t1 == "N"@ ==> r is NEXT
            &&& t1 == "PREV"@ || t1 == "P"@ ==> r is PREV
            &&& t1 == "QUIT"@ || t1 == "Q"@ ==> r is QUIT
            &&& (t1 == "JUMP"@ || t1 == "J"@) && t2.len() == 0 ==> (r matches
                Command::ArgumentErr(m) && m@ == "缺少页码参数"@)
            &&& (t1 == "JUMP"@ || t1 == "J"@) && t2.len() > 0 && is_numeral(t2) && digits_val(
                numeral_body(t2),
            ) <= u32::MAX ==> (r matches Command::JUMP(p) && p == digits_val(numeral_body(t2)))
            &&& (t1 == "JUMP"@ || t1 == "J"@) && t2.len() > 0 && !(is_numeral(t2) && digits_val(
                numeral_body(t2),
            ) <= u32::MAX) ==> (r matches Command::ArgumentErr(m) && m@ == "参数必须为数字"@)
            &&& (t1 == "DOWNLOAD"@ || t1 == "D"@) && t2.len() == 0 ==> (r matches
                Command::ArgumentErr(m) && m@ == "缺少专辑索引参数"@)
            &&& (t1 == "DOWNLOAD"@ || t1 == "D"@) && t2.len() > 0 && is_numeral(t2)
                && digits_val(numeral_body(t2)) <= usize::MAX ==> (r matches Command::DOWNLOAD(
                i,
            ) && i == digits_val(numeral_body(t2)))
            &&& (t1 == "DOWNLOAD"@ || t1 == "D"@) && t2.len() > 0 && !(is_numeral(t2)
                && digits_val(numeral_body(t2)) <= usize::MAX) ==> (r matches
                Command::ArgumentErr(m) && m@ == "参数必须为数字"@)
            &&& (t1 == "SWITCH"@ || t1 == "T"@) && t2.len() == 0 ==> (r matches Command::SWITCH(
                o,
            ) && o is None)
            &&& (t1 == "SWITCH"@ || t1 == "T"@) && t2.len() > 0 ==> (r matches Command::SWITCH(
                o,
            ) && (o matches Some(code) && code@ == t2))
            &&& (t1 == "SEARCH"@ || t1 == "S"@) && t2.len() == 0 ==> (r matches
                Command::ArgumentErr(m) && m@ == "缺少专辑索引参数"@)
            &&& (t1 == "SEARCH"@ || t1 == "S"@) && t2.len() > 0 ==> (r matches Command::SEARCH(
                k,
            ) && k@ == t2)
            &&& t1.len() > 0 && t1 != "HELP"@ && t1 != "H"@ && t1 != "CURRENT"@ && t1 != "C"@
                && t1 != "FIRST"@ && t1 != "F"@ && t1 != "LAST"@ && t1 != "L"@ && t1 != "NEXT"@
                && t1 != "N"@ && t1 != "PREV"@ && t1 != "P"@ && t1 != "QUIT"@ && t1 != "Q"@
                && t1 != "JUMP"@ && t1 != "J"@ && t1 != "DOWNLOAD"@ && t1 != "D"@
                && t1 != "SWITCH"@ && t1 != "T"@ && t1 != "SEARCH"@ && t1 != "S"@
                ==> r is UNKNOWN
        }),
{
    let upper = upper_str(line);
    let u = upper.as_str();
    let n = u.unicode_len();

    let mut a: usize = 0;
    while a < n && is_space_char(u.get_char(a))
        invariant
            a <= n,
            n == u@.len(),
            u@ == upper_seq(line@),
            forall|j: int| 0 <= j < a ==> is_space(#[trigger] u@[j]),
        decreases n - a,
    {
        a = a + 1;
    }
    let mut b: usize = a;
    while b < n && !is_space_char(u.get_char(b))
        invariant
            a <= b <= n,
            n == u@.len(),
            u@ == upper_seq(line@),
            a < n ==> !is_space(u@[a as int]),
            forall|j: int| 0 <= j < a ==> is_space(#[trigger] u@[j]),
            forall|j: int| a <= j < b ==> !is_space(#[trigger] u@[j]),
        decreases n - b,
    {
        b = b + 1;
    }
    let mut a2: usize = b;
    while a2 < n && is_space_char(u.get_char(a2))
        invariant
            b <= a2 <= n,
            a <= b <= n,
            n == u@.len(),
            u@ == upper_seq(line@),
            a < n ==> !is_space(u@[a as int]),
            b < n ==> is_space(u@[b as int]),
            forall|j: int| 0 <= j < a ==> is_space(#[trigger] u@[j]),
            forall|j: int| a <= j < b ==> !is_space(#[trigger] u@[j]),
            forall|j: int| b <= j < a2 ==> is_space(#[trigger] u@[j]),
        decreases n - a2,
    {
        a2 = a2 + 1;
    }
    let mut b2: usize = a2;
    while b2 < n && !is_space_char(u.get_char(b2))
        invariant
            a2 <= b2 <= n,
            b <= a2 <= n,
            a <= b <= n,
            n == u@.len(),
            u@ == upper_seq(line@),
            a < n ==> !is_space(u@[a as int]),
            b < n ==> is_space(u@[b as int]),
            a2 < n ==> !is_space(u@[a2 as int]),
            forall|j: int| 0 <= j < a ==> is_space(#[trigger] u@[j]),
            forall|j: int| a <= j < b ==> !is_space(#[trigger] u@[j]),
            forall|j: int| b <= j < a2 ==> is_space(#[trigger] u@[j]),
            forall|j: int| a2 <= j < b2 ==> !is_space(#[trigger] u@[j]),
        decreases n - b2,
    {
        b2 = b2 + 1;
    }
    proof {
        reveal_strlit("HELP");
        reveal_strlit("H");
        reveal_strlit("CURRENT");
        reveal_strlit("C");
        reveal_strlit("FIRST");
        reveal_strlit("F");
        reveal_strlit("LAST");
        reveal_strlit("L");
        reveal_strlit("NEXT");
        reveal_strlit("N");
        reveal_strlit("PREV");
        reveal_strlit("P");
        reveal_strlit("QUIT");
        reveal_strlit("Q");
        reveal_strlit("JUMP");
        reveal_strlit("J");
        reveal_strlit("DOWNLOAD");
        reveal_strlit("D");
        reveal_strlit("SWITCH");
        reveal_strlit("T");
        reveal_strlit("SEARCH");
        reveal_strlit("S");
        assert("HELP"@.len() == 4 && "HELP"@[0] == 'H');
        assert("H"@.len() == 1 && "H"@[0] == 'H');
        assert("CURRENT"@.len() == 7 && "CURRENT"@[0] == 'C');
        assert("C"@.len() == 1 && "C"@[0] == 'C');
        assert("FIRST"@.len() == 5 && "FIRST"@[0] == 'F');
        assert("F"@.len() == 1 && "F"@[0] == 'F');
        assert("LAST"@.len() == 4 && "LAST"@[0] == 'L');
        assert("L"@.len() == 1 && "L"@[0] == 'L');
        assert("NEXT"@.len() == 4 && "NEXT"@[0] == 'N');
        assert("N"@.len() == 1 && "N"@[0] == 'N');
        assert("PREV"@.len() == 4 && "PREV"@[0] == 'P');
        assert("P"@.len() == 1 && "P"@[0] == 'P');
        assert("QUIT"@.len() == 4 && "QUIT"@[0] == 'Q');
        assert("Q"@.len() == 1 && "Q"@[0] == 'Q');
        assert("JUMP"@.len() == 4 && "JUMP"@[0] == 'J');
        assert("J"@.len() == 1 && "J"@[0] == 'J');
        assert("DOWNLOAD"@.len() == 8 && "DOWNLOAD"@[0] == 'D');
        assert("D"@.len() == 1 && "D"@[0] == 'D');
        assert("SWITCH"@.len() == 6 && "SWITCH"@[1] == 'W');
        assert("T"@.len() == 1 && "T"@[0] == 'T');
        assert("SEARCH"@.len() == 6 && "SEARCH"@[1] == 'E');
        assert("S"@.len() == 1 && "S"@[0] == 'S');
        assert(u@.skip(0) =~= u@);
        lemma_token_scan(u@, 0, a as int, b as int);
        lemma_token_scan(u@, b as int, a2 as int, b2 as int);
        assert(first_token(u@) == u@.subrange(a as int, b as int));
        assert(second_token(u@) == u@.subrange(a2 as int, b2 as int));
    }
    if a == b {
        return Command::NONE;
    }
    let t1 = u.substring_char(a, b);
    let t2 = u.substring_char(a2, b2);
    let has_arg = b2 > a2;

    if str_eq(t1, "HELP") || str_eq(t1, "H") {
        Command::HELP
    } else if str_eq(t1, "CURRENT") || str_eq(t1, "C") {
        Command::CURRENT
    } else if str_eq(t1, "FIRST") || str_eq(t1, "F") {
        Command::FIRST
    } else if str_eq(t1, "LAST") || str_eq(t1, "L") {
        Command::LAST
    } else if str_eq(t1, "NEXT") || str_eq(t1, "N") {
        Command::NEXT
    } else if str_eq(t1, "PREV") || str_eq(t1, "P") {
        Command::PREV
    } else if str_eq(t1, "QUIT") || str_eq(t1, "Q") {
        Command::QUIT
    } else if str_eq(t1, "JUMP") || str_eq(t1, "J") {
        if !has_arg {
            Command::ArgumentErr(String::from_str("缺少页码参数"))
        } else {
            match parse_u32(t2) {
                Some(v) => Command::JUMP(v),
                None => Command::ArgumentErr(String::from_str("参数必须为数字")),
            }
        }
    } else if str_eq(t1, "DOWNLOAD") || str_eq(t1, "D") {
        if !has_arg {
            Command::ArgumentErr(String::from_str("缺少专辑索引参数"))
        } else {
            match parse_usize(t2) {
                Some(v) => Command::DOWNLOAD(v),
                None => Command::ArgumentErr(String::from_str("参数必须为数字")),
            }
        }
    } else if str_eq(t1, "SWITCH") || str_eq(t1, "T") {
        if has_arg {
            Command::SWITCH(Some(String::from_str(t2)))
        } else {
            Command::SWITCH(None)
        }
    } else if str_eq(t1, "SEARCH") || str_eq(t1, "S") {
        if has_arg {
            Command::SEARCH(String::from_str(t2))
        } else {
            Command::ArgumentErr(String::from_str("缺少专辑索引参数"))
        }
    } else {
        Command::UNKNOWN
    }
}

/// Whether `c` separates words of a command line.
fn is_space_char(c: char) -> (r: bool)
    ensures
        r == is_space(c),
{
    c == ' ' || c == '\t' || c == '\n' || c == '\r'
}

} // verus!
