//! Selector kind discrimination: a selector beginning with `/` is an XPath
//! expression, anything else is a CSS selector.

use vstd::prelude::*;

verus! {

/// A selector string beginning with `/` is XPath; otherwise it is CSS.
pub open spec fn spec_is_xpath(s: Seq<char>) -> bool {
    s.len() > 0 && s[0] == '/'
}

/// Decides the selector kind: true exactly when `s` starts with `/`.
pub fn is_xpath(s: &str) -> (r: bool)
    ensures
        r == spec_is_xpath(s@),
{
    if s.unicode_len() == 0 {
        false
    } else {
        s.get_char(0) == '/'
    }
}

} // verus!
