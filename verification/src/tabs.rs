//! Where tabs go when their neighbours close and move.
use vstd::prelude::*;

verus! {

/// Whether a tab is still there once some are closed.
pub open spec fn survives(doomed: Seq<usize>, len: nat, index: int) -> bool {
    0 <= index < len && !doomed.contains(index as usize)
}

/// Which tab is showing once some are closed: the active one if it survives,
/// otherwise its nearest surviving neighbour to the right, and only failing
/// that to the left. Nothing when the strip empties.
pub open spec fn shows_after(active: int, doomed: Seq<usize>, len: nat, showing: Option<usize>) -> bool {
    match showing {
        Some(index) => {
            &&& survives(doomed, len, index as int)
            &&& index >= active ==> forall|i: int|
                active <= i < index ==> !#[trigger] survives(doomed, len, i)
            &&& index < active ==> forall|i: int| index < i ==> !#[trigger] survives(doomed, len, i)
        },
        None => forall|i: int| !#[trigger] survives(doomed, len, i),
    }
}

/// Whether a list of positions has one in it.
pub fn is_doomed(doomed: &[usize], index: usize) -> (answer: bool)
    ensures
        answer == doomed@.contains(index),
{
    let mut at: usize = 0;
    while at < doomed.len()
        invariant
            at <= doomed@.len(),
            forall|i: int| 0 <= i < at ==> doomed@[i] != index,
        decreases doomed@.len() - at,
    {
        if doomed[at] == index {
            assert(doomed@.contains(index));
            return true;
        }
        at += 1;
    }
    false
}

/// Which tab should be showing once `doomed` are gone, in the numbering it had
/// before they went. `None` when the strip empties.
///
/// Rightwards first because the tab that slides into the vacated slot is the
/// one under the pointer, which is what every editor with tabs does.
pub fn tab_after_closing(active: usize, doomed: &[usize], len: usize) -> (showing: Option<usize>)
    ensures
        shows_after(active as int, doomed@, len as nat, showing),
{
    let mut right: usize = active;
    while right < len
        invariant
            active <= right,
            forall|i: int| active <= i < right ==> !#[trigger] survives(doomed@, len as nat, i),
        decreases len - right,
    {
        if !is_doomed(doomed, right) {
            assert(survives(doomed@, len as nat, right as int));
            return Some(right);
        }
        right += 1;
    }
    let mut left: usize = if active < len {
        active
    } else {
        len
    };
    while left > 0
        invariant
            left <= len,
            left <= active,
            forall|i: int| left <= i ==> !#[trigger] survives(doomed@, len as nat, i),
        decreases left,
    {
        left -= 1;
        if !is_doomed(doomed, left) {
            assert(survives(doomed@, len as nat, left as int));
            return Some(left);
        }
    }
    None
}

/// The tab that shows once some are closed is settled by which they are: there
/// is never more than one answer.
pub proof fn one_tab_shows_after_closing(
    active: int,
    doomed: Seq<usize>,
    len: nat,
    one: Option<usize>,
    other: Option<usize>,
)
    requires
        shows_after(active, doomed, len, one),
        shows_after(active, doomed, len, other),
    ensures
        one == other,
{
    if let Some(a) = one {
        assert(survives(doomed, len, a as int));
        if let Some(b) = other {
            assert(survives(doomed, len, b as int));
        }
    } else if let Some(b) = other {
        assert(survives(doomed, len, b as int));
    }
}

/// Where the tab at `active` ends up once the tab at `from` is taken out and
/// put back at `to`.
pub open spec fn place_after_move(active: int, from: int, to: int) -> int {
    if active == from {
        to
    } else if from < active <= to {
        active - 1
    } else if to <= active < from {
        active + 1
    } else {
        active
    }
}

/// Where the tab at `active` ends up once the tab at `from` has been taken out
/// and put back at `to`. Everything between the two slots shifts one place
/// towards the hole.
pub fn index_after_move(active: usize, from: usize, to: usize) -> (index: usize)
    ensures
        index == place_after_move(active as int, from as int, to as int),
{
    if active == from {
        return to;
    }
    if from < to && active > from && active <= to {
        active - 1
    } else if from >= to && active >= to && active < from {
        active + 1
    } else {
        active
    }
}

/// A list with one element taken out and put back somewhere else.
pub open spec fn moved<T>(list: Seq<T>, from: int, to: int) -> Seq<T> {
    list.remove(from).insert(to, list[from])
}

/// Whichever tab was showing is still the one that shows after a move.
pub proof fn a_move_keeps_the_tab_that_shows<T>(list: Seq<T>, active: int, from: int, to: int)
    requires
        0 <= active < list.len(),
        0 <= from < list.len(),
        0 <= to < list.len(),
    ensures
        0 <= place_after_move(active, from, to) < moved(list, from, to).len(),
        moved(list, from, to)[place_after_move(active, from, to)] == list[active],
{
}

/// Where the active tab is once one is closed.
pub open spec fn place_after_close(active: int, closed: int, remaining: int) -> int {
    if (active > closed || active >= remaining) && active > 0 {
        active - 1
    } else {
        active
    }
}

/// Which tab should be showing once the one at `closed` is gone, given that
/// `active` was showing and `remaining` tabs are left.
///
/// Closing a tab to the left of the active one shifts it down a place; closing
/// the active last tab falls back onto its new neighbour; closing anything to
/// the right leaves the active one where it is.
pub fn tab_after_close(active: usize, closed: usize, remaining: usize) -> (index: usize)
    ensures
        index == place_after_close(active as int, closed as int, remaining as int),
{
    if active > closed || active >= remaining {
        if active == 0 {
            0
        } else {
            active - 1
        }
    } else {
        active
    }
}

/// Closing a tab other than the active one leaves the active one showing, and
/// closing the active one shows the one that slides into its place, or the one
/// before it when it was the last.
pub proof fn closing_one_tab_shows_its_neighbour<T>(list: Seq<T>, active: int, closed: int)
    requires
        0 <= active < list.len(),
        0 <= closed < list.len(),
        list.len() > 1,
    ensures
        ({
            let left = list.remove(closed);
            let index = place_after_close(active, closed, left.len() as int);
            &&& 0 <= index < left.len()
            &&& closed != active ==> left[index] == list[active]
            &&& closed == active && active + 1 < list.len() ==> left[index] == list[active + 1]
            &&& closed == active && active + 1 == list.len() ==> left[index] == list[active - 1]
        }),
{
}

} // verus!
