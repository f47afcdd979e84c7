//! Transliterating a search keyword into phonetic ASCII.
//!
//! One site embeds keywords in its URLs in romanised form. The per-
//! character lookup is the `pinyin` crate's data table, trusted under the
//! name `pinyin_plain`; folding a whole keyword is verified.

use vstd::prelude::*;
use vstd::string::*;
use pinyin::ToPinyin;

verus! {

/// The plain (toneless) romanisation of one character, as the `pinyin`
/// crate's data table gives it; absent for characters outside the table.
/// A pure function of the character.
pub uninterp spec fn pinyin_plain(c: char) -> Option<Seq<char>>;

/// Relies on `pinyin::ToPinyin::to_pinyin` for `char` and
/// `pinyin::Pinyin::plain`: the plain romanisation of `c`, a lookup in
/// the crate's fixed data table.
#[verifier::external_body]
fn char_pinyin(c: char) -> (r: Option<String>)
    ensures
        r.deep_view() == pinyin_plain(c),
{
    c.to_pinyin().map(|p| p.plain().to_owned())
}

/// The keyword `s` romanised character by character: characters the
/// table knows are replaced by their romanisation, all others kept.
pub open spec fn spec_keyword_pinyin(s: Seq<char>) -> Seq<char>
    decreases s.len(),
{
    if s.len() == 0 {
        Seq::empty()
    } else {
        spec_keyword_pinyin(s.drop_last()) + match pinyin_plain(s.last()) {
            Some(p) => p,
            None => seq![s.last()],
        }
    }
}

/// Romanises a keyword for embedding in a site URL.
pub fn keyword_to_pinyin(keyword: &str) -> (r: String)
    ensures
        r@ == spec_keyword_pinyin(keyword@),
{
    let n = keyword.unicode_len();
    let mut r = String::new();
    let mut i: usize = 0;
    while i < n
        invariant
            i <= n,
            n == keyword@.len(),
            r@ =~= spec_keyword_pinyin(keyword@.take(i as int)),
        decreases n - i,
    {
        let c = keyword.get_char(i);
        proof {
            assert(keyword@.take(i + 1 as int).drop_last() =~= keyword@.take(i as int));
            assert(keyword@.take(i + 1 as int).last() == keyword@[i as int]);
        }
        match char_pinyin(c) {
            Some(p) => {
                r.append(p.as_str());
            },
            None => {
                r.push(c);
                proof {
                    assert(r@ =~= spec_keyword_pinyin(keyword@.take(i as int)) + seq![c]);
                }
            },
        }
        i = i + 1;
    }
    proof {
        assert(keyword@.take(n as int) =~= keyword@);
    }
    r
}

} // verus!
