//! Interpreting the keyword spotter's result.

use vstd::prelude::*;

verus! {

/// The wake word detected, if the spotter's result names one (an empty
/// keyword means none was heard).
pub fn detected_keyword(keyword: String) -> (r: Option<String>)
    ensures
        keyword@.len() == 0 ==> r is None,
        keyword@.len() > 0 ==> r == Some(keyword),
{
    if keyword.as_str().is_empty() {
        None
    } else {
        Some(keyword)
    }
}

} // verus!
