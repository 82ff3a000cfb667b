//! Prefixing a string only when it is non-empty.

use vstd::prelude::*;
use vstd::string::StringExecFns;

verus! {

/// `s` with `prefix` put before it; an empty `s` stays empty.
pub open spec fn spec_prepend_if_not_empty(s: Seq<char>, prefix: Seq<char>) -> Seq<char> {
    if s.len() == 0 {
        s
    } else {
        prefix + s
    }
}

/// Put `prefix` before the text, unless the text is empty.
pub fn prepend_if_not_empty(s: String, prefix: &str) -> (r: String)
    ensures
        r@ == spec_prepend_if_not_empty(s@, prefix@),
{
    if s.as_str().is_empty() {
        s
    } else {
        String::from_str(prefix).concat(s.as_str())
    }
}

} // verus!
