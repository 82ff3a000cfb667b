//! Prefixing a list of items with one more item only when the list is
//! non-empty.

use vstd::prelude::*;
use vstd::string::StringExecFns;

verus! {

/// `items` with `prefix` put before its first element; an empty `items`
/// stays empty.
pub open spec fn spec_prepend_if_not_empty_items(items: Seq<Seq<char>>, prefix: Seq<char>) -> Seq<
    Seq<char>,
> {
    if items.len() == 0 {
        items
    } else {
        seq![prefix] + items
    }
}

/// Put `prefix` before the first item, unless there are no items.
pub fn prepend_if_not_empty(items: Vec<String>, prefix: &str) -> (r: Vec<String>)
    ensures
        r.deep_view() == spec_prepend_if_not_empty_items(items.deep_view(), prefix@),
{
    let ghost orig = items.deep_view();
    let mut items = items;
    if items.len() > 0 {
        items.insert(0, String::from_str(prefix));
        proof {
            assert(items.deep_view() =~= seq![prefix@] + orig);
        }
    }
    items
}

} // verus!
