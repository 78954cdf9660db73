//! What pinning a tab does to a strip.
use crate::pane::{pin_turned, pinned_besides, stashed, tab_moved, PaneView, TabView};
use crate::showing::{group_showing, typed_back};
use crate::tabbing::pin_toggled;
use crate::tabs::{moved, place_after_move};
use crate::window::{active_pane, group_window, well_formed, with_active, WindowView};
use vstd::prelude::*;

verus! {

broadcast use {group_window, group_showing};

/// Whether two tabs are the same one, but for what has been typed in it.
pub open spec fn is_same_tab(a: TabView, b: TabView) -> bool {
    a == (TabView { sql: a.sql, filter: a.filter, ..b })
}

/// A tab with its pin turned over.
pub open spec fn turned(tab: TabView) -> TabView {
    TabView { pinned: !tab.pinned, ..tab }
}

/// Whether the pinned tabs of a strip are all before the others.
pub open spec fn pinned_first(tabs: Seq<TabView>) -> bool {
    forall|i: int, j: int|
        0 <= i < j < tabs.len() && (#[trigger] tabs[j]).pinned ==> (#[trigger] tabs[i]).pinned
}

/// Where a tab whose pin is turned over goes: behind the other pinned ones.
pub open spec fn pin_place(tabs: Seq<TabView>, index: int) -> int {
    pinned_besides(tabs, index, tabs.len() as int)
}

/// There are at most as many other pinned tabs as there are other tabs.
proof fn lemma_besides_bounds(tabs: Seq<TabView>, index: int, upto: int)
    requires
        0 <= upto <= tabs.len(),
    ensures
        0 <= pinned_besides(tabs, index, upto) <= upto,
        0 <= index < upto ==> pinned_besides(tabs, index, upto) < upto,
    decreases upto,
{
    if upto > 0 {
        lemma_besides_bounds(tabs, index, upto - 1);
    }
}

/// Which tab is asked about does not change whether the others are pinned.
proof fn lemma_besides_same(a: Seq<TabView>, b: Seq<TabView>, index: int, upto: int)
    requires
        a.len() == b.len(),
        0 <= upto <= a.len(),
        forall|i: int|
            0 <= i < a.len() && i != index ==> (#[trigger] a[i]).pinned == b[i].pinned,
    ensures
        pinned_besides(a, index, upto) == pinned_besides(b, index, upto),
    decreases upto,
{
    if upto > 0 {
        lemma_besides_same(a, b, index, upto - 1);
        assert(upto - 1 != index ==> a[upto - 1].pinned == b[upto - 1].pinned);
    }
}

/// In a strip whose first tabs are the pinned ones, so many others are pinned.
proof fn lemma_besides_first(tabs: Seq<TabView>, index: int, count: int, upto: int)
    requires
        0 <= upto <= tabs.len(),
        0 <= count <= tabs.len(),
        forall|i: int| 0 <= i < tabs.len() ==> (#[trigger] tabs[i]).pinned == (i < count),
    ensures
        pinned_besides(tabs, index, upto) == if upto <= count {
            upto - if 0 <= index < upto {
                1int
            } else {
                0
            }
        } else {
            count - if 0 <= index < count {
                1int
            } else {
                0
            }
        },
    decreases upto,
{
    if upto > 0 {
        lemma_besides_first(tabs, index, count, upto - 1);
        assert(tabs[upto - 1].pinned == (upto - 1 < count));
    }
}

/// A strip whose pinned tabs come first has so many of them at its start.
proof fn lemma_pinned_count(tabs: Seq<TabView>) -> (count: int)
    requires
        pinned_first(tabs),
    ensures
        0 <= count <= tabs.len(),
        forall|i: int| 0 <= i < tabs.len() ==> (#[trigger] tabs[i]).pinned == (i < count),
    decreases tabs.len(),
{
    if tabs.len() == 0 {
        0
    } else if tabs.last().pinned {
        assert forall|i: int| 0 <= i < tabs.len() implies (#[trigger] tabs[i]).pinned by {
            let last = tabs[tabs.len() - 1];
            assert(last.pinned);
        }
        tabs.len() as int
    } else {
        let rest = tabs.drop_last();
        assert(pinned_first(rest)) by {
            assert forall|i: int, j: int|
                0 <= i < j < rest.len() && (#[trigger] rest[j]).pinned implies (
            #[trigger] rest[i]).pinned by {
                assert(tabs[j].pinned && rest[i] == tabs[i]);
            }
        }
        let count = lemma_pinned_count(rest);
        assert forall|i: int| 0 <= i < tabs.len() implies (#[trigger] tabs[i]).pinned == (i
            < count) by {
            if i < rest.len() {
                assert(rest[i].pinned == (i < count));
            }
        }
        count
    }
}

/// Putting what is typed back into its tab makes no tab another.
proof fn lemma_stashed_same(pane: PaneView)
    ensures
        stashed(pane).tabs.len() == pane.tabs.len(),
        stashed(pane).active_tab == pane.active_tab,
        forall|i: int|
            0 <= i < pane.tabs.len() ==> is_same_tab(
                #[trigger] stashed(pane).tabs[i],
                pane.tabs[i],
            ),
{
}

/// A pane with a tab's pin turned over and the tab put in its place.
spec fn pin_placed(pane: PaneView, at: int, to: int) -> PaneView {
    if to == at {
        pin_turned(pane, at)
    } else {
        tab_moved(stashed(pin_turned(pane, at)), at, to)
    }
}

/// In that pane every tab is where the move leaves it.
proof fn lemma_pin_placed(pane: PaneView, at: int, to: int)
    requires
        0 <= at < pane.tabs.len() <= usize::MAX,
        0 <= to < pane.tabs.len(),
    ensures
        pin_placed(pane, at, to).tabs.len() == pane.tabs.len(),
        forall|i: int|
            0 <= i < pane.tabs.len() ==> is_same_tab(
                pin_placed(pane, at, to).tabs[#[trigger] place_after_move(i, at, to)],
                if i == at {
                    turned(pane.tabs[i])
                } else {
                    pane.tabs[i]
                },
            ),
        pane.active_tab < pane.tabs.len() ==> pin_placed(pane, at, to).active_tab
            == place_after_move(pane.active_tab as int, at, to),
{
    let strip = pin_turned(pane, at);
    lemma_stashed_same(strip);
    let list = stashed(strip).tabs;
    assert forall|i: int| 0 <= i < pane.tabs.len() implies is_same_tab(
        pin_placed(pane, at, to).tabs[#[trigger] place_after_move(i, at, to)],
        if i == at {
            turned(pane.tabs[i])
        } else {
            pane.tabs[i]
        },
    ) by {
        assert(strip.tabs[i] == if i == at {
            turned(pane.tabs[i])
        } else {
            pane.tabs[i]
        });
        assert(is_same_tab(list[i], strip.tabs[i]));
        assert(moved(list, at, to)[place_after_move(i, at, to)] == list[i]);
    }
}

/// The window's pane is that one, with what is typed put back where the window
/// is written down.
proof fn lemma_pin_toggled(window: WindowView, index: usize)
    requires
        well_formed(window),
        index < active_pane(window).tabs.len(),
    ensures
        ({
            let pane = active_pane(window);
            let placed = pin_placed(pane, index as int, pin_place(pane.tabs, index as int));
            let after = active_pane(pin_toggled(window, index));
            after == placed || after == stashed(placed)
        }),
{
    let pane = active_pane(window);
    let at = index as int;
    let flipped = with_active(window, pin_turned(pane, at));
    assert(active_pane(flipped) == pin_turned(pane, at));
    lemma_besides_same(pane.tabs, active_pane(flipped).tabs, at, pane.tabs.len() as int);
    let to = pin_place(pane.tabs, at);
    if to != at {
        let typed = typed_back(flipped);
        assert(active_pane(typed) == stashed(pin_turned(pane, at)));
        let placed = with_active(typed, tab_moved(active_pane(typed), at, to));
        assert(active_pane(placed) == pin_placed(pane, at, to));
    }
}

/// There is no pin to turn over past the end of the strip.
pub proof fn no_tab_has_no_pin(window: WindowView, index: usize)
    requires
        index >= active_pane(window).tabs.len(),
    ensures
        pin_toggled(window, index) == window,
{
}

/// Turning a pin over changes nothing of the strip but that pin and where that
/// tab is: every tab is there, the others in the order they were in, and the
/// tab that was showing still shows.
pub proof fn a_pin_moves_one_tab(window: WindowView, index: usize)
    requires
        well_formed(window),
        index < active_pane(window).tabs.len() <= usize::MAX,
    ensures
        ({
            let before = active_pane(window);
            let after = active_pane(pin_toggled(window, index));
            let to = pin_place(before.tabs, index as int);
            &&& 0 <= to < before.tabs.len()
            &&& after.tabs.len() == before.tabs.len()
            &&& forall|i: int|
                0 <= i < before.tabs.len() ==> is_same_tab(
                    after.tabs[#[trigger] place_after_move(i, index as int, to)],
                    if i == index {
                        turned(before.tabs[i])
                    } else {
                        before.tabs[i]
                    },
                )
            &&& place_after_move(index as int, index as int, to) == to
            &&& forall|i: int, j: int|
                0 <= i < j < before.tabs.len() && i != index && j != index
                    ==> #[trigger] place_after_move(i, index as int, to)
                    < #[trigger] place_after_move(j, index as int, to)
            &&& before.active_tab < before.tabs.len() ==> after.active_tab == place_after_move(
                before.active_tab as int,
                index as int,
                to,
            )
        }),
{
    let pane = active_pane(window);
    let at = index as int;
    lemma_besides_bounds(pane.tabs, at, pane.tabs.len() as int);
    let to = pin_place(pane.tabs, at);
    let after = active_pane(pin_toggled(window, index));
    lemma_pin_toggled(window, index);
    lemma_pin_placed(pane, at, to);
    let placed = pin_placed(pane, at, to);
    lemma_stashed_same(placed);
    assert forall|i: int| 0 <= i < pane.tabs.len() implies is_same_tab(
        after.tabs[#[trigger] place_after_move(i, at, to)],
        if i == at {
            turned(pane.tabs[i])
        } else {
            pane.tabs[i]
        },
    ) by {
        let there = place_after_move(i, at, to);
        assert(is_same_tab(stashed(placed).tabs[there], placed.tabs[there]));
    }
}

/// A strip whose pinned tabs come first keeps them first: a tab that is pinned
/// becomes the last of them, and one that is unpinned the first of the rest.
pub proof fn pinned_tabs_stay_first(window: WindowView, index: usize)
    requires
        well_formed(window),
        index < active_pane(window).tabs.len() <= usize::MAX,
        pinned_first(active_pane(window).tabs),
    ensures
        ({
            let before = active_pane(window).tabs;
            let after = active_pane(pin_toggled(window, index)).tabs;
            let to = pin_place(before, index as int);
            &&& pinned_first(after)
            &&& after[to].pinned == !before[index as int].pinned
            &&& forall|i: int| 0 <= i < to ==> (#[trigger] after[i]).pinned
            &&& forall|i: int| to < i < after.len() ==> !(#[trigger] after[i]).pinned
        }),
{
    a_pin_moves_one_tab(window, index);
    let before = active_pane(window).tabs;
    let after = active_pane(pin_toggled(window, index)).tabs;
    let at = index as int;
    let to = pin_place(before, at);
    let count = lemma_pinned_count(before);
    lemma_besides_first(before, at, count, before.len() as int);
    assert forall|i: int| 0 <= i < after.len() && i != to implies (#[trigger] after[i]).pinned == (i
        < to) by {
        let from = if at < to {
            if at <= i < to {
                i + 1
            } else {
                i
            }
        } else {
            if to < i <= at {
                i - 1
            } else {
                i
            }
        };
        assert(place_after_move(from, at, to) == i);
        assert(before[from].pinned == (from < count));
    }
    assert(place_after_move(at, at, to) == to);
    assert(is_same_tab(after[to], turned(before[at])));
}

} // verus!
