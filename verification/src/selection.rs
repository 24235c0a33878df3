//! The selection cursor of a list: an index into the rows that are shown,
//! or nothing when no row is shown. Moving past either end wraps around.
use vstd::prelude::*;

verus! {

/// The cursor is on one of `len` rows, or absent because there is none.
pub open spec fn valid_selection(selected: Option<usize>, len: nat) -> bool {
    match selected {
        Some(i) => i < len,
        None => len == 0,
    }
}

/// Where the cursor stands when a list of `len` rows is first shown.
pub open spec fn first_selection(len: nat) -> Option<usize> {
    if len == 0 {
        None
    } else {
        Some(0)
    }
}

/// The cursor one row further down, wrapping from the last row to the first.
pub open spec fn next_selection(selected: Option<usize>, len: nat) -> Option<usize> {
    if len == 0 {
        None
    } else {
        match selected {
            Some(i) => if i + 1 >= len {
                Some(0)
            } else {
                Some((i + 1) as usize)
            },
            None => Some(0),
        }
    }
}

/// The cursor one row further up, wrapping from the first row to the last.
pub open spec fn previous_selection(selected: Option<usize>, len: nat) -> Option<usize> {
    if len == 0 {
        None
    } else {
        match selected {
            Some(i) => if i == 0 || i >= len {
                Some((len - 1) as usize)
            } else {
                Some((i - 1) as usize)
            },
            None => Some(0),
        }
    }
}

/// The cursor brought back inside a list that now has `len` rows.
pub open spec fn clamp_selection(selected: Option<usize>, len: nat) -> Option<usize> {
    if len == 0 {
        None
    } else {
        match selected {
            Some(i) => if i >= len {
                Some((len - 1) as usize)
            } else {
                Some(i)
            },
            None => Some(0),
        }
    }
}

/// Computes [`first_selection`].
pub fn first(len: usize) -> (r: Option<usize>)
    ensures
        r == first_selection(len as nat),
{
    if len == 0 {
        None
    } else {
        Some(0)
    }
}

/// Computes [`next_selection`].
pub fn next(selected: Option<usize>, len: usize) -> (r: Option<usize>)
    ensures
        r == next_selection(selected, len as nat),
{
    if len == 0 {
        return None;
    }
    match selected {
        Some(i) => if i >= len - 1 {
            Some(0)
        } else {
            Some(i + 1)
        },
        None => Some(0),
    }
}

/// Computes [`previous_selection`].
pub fn previous(selected: Option<usize>, len: usize) -> (r: Option<usize>)
    ensures
        r == previous_selection(selected, len as nat),
{
    if len == 0 {
        return None;
    }
    match selected {
        Some(i) => if i == 0 || i >= len {
            Some(len - 1)
        } else {
            Some(i - 1)
        },
        None => Some(0),
    }
}

/// Computes [`clamp_selection`].
pub fn clamp(selected: Option<usize>, len: usize) -> (r: Option<usize>)
    ensures
        r == clamp_selection(selected, len as nat),
{
    if len == 0 {
        return None;
    }
    match selected {
        Some(i) => if i >= len {
            Some(len - 1)
        } else {
            Some(i)
        },
        None => Some(0),
    }
}

/// Navigation is circular: going up from the first row lands on the last,
/// going down from the last row lands on the first, and with no rows there
/// is no selection either way.
pub proof fn lemma_navigation_wraps(selected: Option<usize>, len: nat)
    requires
        len <= usize::MAX,
    ensures
        len > 0 ==> previous_selection(Some(0), len) == Some((len - 1) as usize),
        len > 0 ==> next_selection(Some((len - 1) as usize), len) == Some(0usize),
        previous_selection(selected, 0) is None,
        next_selection(selected, 0) is None,
{
}

/// Moving the cursor keeps it on a row: every move from any cursor gives a
/// valid selection, and on a list with rows a cursor is always present.
pub proof fn lemma_navigation_stays_valid(selected: Option<usize>, len: nat)
    requires
        len <= usize::MAX,
    ensures
        valid_selection(first_selection(len), len),
        valid_selection(next_selection(selected, len), len),
        valid_selection(previous_selection(selected, len), len),
        valid_selection(clamp_selection(selected, len), len),
{
}

} // verus!
