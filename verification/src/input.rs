//! Keyboard navigation over a list of suggestions.

use vstd::prelude::*;

verus! {

/// The index that navigation moves to, as a mathematical value.
///
/// `bound` is the number of entries that can be reached, the smaller of the
/// number of matches and the number of suggestions shown.
pub open spec fn next_index(
    index: Option<usize>,
    down_pressed: bool,
    up_pressed: bool,
    bound: int,
) -> Option<int> {
    match index {
        Some(i) => if down_pressed {
            if i + 1 < bound { Some(i + 1) } else { Some(i as int) }
        } else if up_pressed {
            if i == 0 { None } else { Some(i - 1) }
        } else {
            Some(i as int)
        },
        None => if down_pressed { Some(0) } else { None },
    }
}

/// The smaller of two counts.
pub open spec fn min_count(a: usize, b: usize) -> int {
    if a <= b { a as int } else { b as int }
}

/// Moves the selected index of a suggestion list: down selects the next entry
/// (stopping at the last reachable one), up selects the previous one and
/// deselects at the first, down with nothing selected selects the first entry.
/// Down takes precedence when both keys are pressed.
pub fn update_index(
    index: Option<usize>,
    down_pressed: bool,
    up_pressed: bool,
    match_results_count: usize,
    max_suggestions: usize,
) -> (res: Option<usize>)
    ensures
        match (res, next_index(index, down_pressed, up_pressed, min_count(match_results_count, max_suggestions))) {
            (Some(r), Some(n)) => r == n,
            (None, None) => true,
            _ => false,
        },
{
    let bound = if match_results_count <= max_suggestions {
        match_results_count
    } else {
        max_suggestions
    };
    match index {
        Some(index) => {
            if down_pressed {
                if index < bound && index + 1 < bound {
                    Some(index + 1)
                } else {
                    Some(index)
                }
            } else if up_pressed {
                if index == 0 {
                    None
                } else {
                    Some(index - 1)
                }
            } else {
                Some(index)
            }
        },
        None => if down_pressed {
            Some(0)
        } else {
            None
        },
    }
}

} // verus!
