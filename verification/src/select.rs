//! The user-interaction boundary: menus present `count` labeled options and
//! accept one 1-based integer selection.

use vstd::prelude::*;

verus! {

/// Validates a 1-based menu selection against the number of options on
/// offer, yielding the selected 0-based index. Exactly the selections
/// `1 ..= count` are accepted.
pub fn select_one_based(selection: usize, count: usize) -> (r: Option<usize>)
    ensures
        r is Some <==> 1 <= selection <= count,
        r is Some ==> r->0 + 1 == selection,
{
    if selection >= 1 && selection <= count {
        Some(selection - 1)
    } else {
        None
    }
}

} // verus!
