//! The interactive prompt line: parser name, keyword, and page position.

use vstd::prelude::*;
use vstd::string::*;

use crate::text::{push_u32, u32_digits};

verus! {

/// What the interactive prompt shows: the active parser's name and,
/// once a search ran, its keyword and page position.
pub struct PromptContext {
    pub keyword: Option<String>,
    pub current: Option<u32>,
    pub total_page: Option<u32>,
    pub parser: String,
}

impl PromptContext {
    /// The prompt text: `[parser <keyword> (current/total)] -> ` during a
    /// search, `[parser] -> ` before one.
    pub open spec fn spec_prompt(&self) -> Seq<char> {
        match (self.keyword, self.current, self.total_page) {
            (Some(k), Some(c), Some(t)) => "["@ + self.parser@ + " <"@ + k@ + "> ("@
                + u32_digits(c as nat) + "/"@ + u32_digits(t as nat) + ")] -> "@,
            _ => "["@ + self.parser@ + "] -> "@,
        }
    }

    /// A fresh context for `parser`, before any search.
    pub fn new(parser: String) -> (r: PromptContext)
        ensures
            r.keyword is None,
            r.current is None,
            r.total_page is None,
            r.parser == parser,
    {
        PromptContext { keyword: None, current: None, total_page: None, parser }
    }

    /// Renders the prompt. Once a keyword is set, the page position must
    /// be set too.
    pub fn prompt(&self) -> (r: String)
        requires
            self.keyword is Some ==> (self.current is Some && self.total_page is Some),
        ensures
            r@ == self.spec_prompt(),
    {
        let mut r = String::from_str("[");
        r.append(self.parser.as_str());
        match &self.keyword {
            Some(k) => {
                let c = match self.current {
                    Some(c) => c,
                    None => 0,
                };
                let t = match self.total_page {
                    Some(t) => t,
                    None => 0,
                };
                r.append(" <");
                r.append(k.as_str());
                r.append("> (");
                push_u32(&mut r, c);
                r.append("/");
                push_u32(&mut r, t);
                r.append(")] -> ");
                proof {
                    assert(r@ =~= self.spec_prompt());
                }
                r
            },
            None => {
                r.append("] -> ");
                proof {
                    assert(r@ =~= self.spec_prompt());
                }
                r
            },
        }
    }
}

} // verus!
