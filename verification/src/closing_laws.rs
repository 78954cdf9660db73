//! Which tabs are left once some are closed, told by where they stood.
use crate::lists::{first, group_views};
use crate::pane::{showing, stashed, surviving, tab_removed, TabView};
use crate::showing::{group_showing, results_cleared, session_saved, typed_back};
use crate::tabbing::{
    doomed_by, left_showing, lemma_unpinned, named_in, pane_closed, tab_closed, tabs_closed,
    tabs_removed, unpinned, Closing,
};
use crate::tabs::{shows_after, survives};
use crate::window::{active_pane, group_window, here, well_formed, with_active, Act, WindowView};
use vstd::prelude::*;

verus! {

broadcast use {group_views, group_window, group_showing};

/// Whether two tabs are one, whatever was typed into it meanwhile.
pub open spec fn same_tab(a: TabView, b: TabView) -> bool {
    a == (TabView { sql: a.sql, filter: a.filter, ..b })
}

/// The places below some number that stay, from the left.
spec fn kept(stays: spec_fn(int) -> bool, upto: int) -> Seq<int>
    decreases upto,
{
    if upto <= 0 {
        Seq::empty()
    } else {
        let before = kept(stays, upto - 1);
        if stays(upto - 1) {
            before.push(upto - 1)
        } else {
            before
        }
    }
}

/// The places that stay go up, and each of them stays.
proof fn lemma_kept(stays: spec_fn(int) -> bool, upto: int)
    requires
        0 <= upto,
    ensures
        kept(stays, upto).len() <= upto,
        forall|j: int|
            0 <= j < kept(stays, upto).len() ==> 0 <= (#[trigger] kept(stays, upto)[j]) < upto
                && stays(kept(stays, upto)[j]),
        forall|i: int, j: int|
            0 <= i < j < kept(stays, upto).len() ==> (#[trigger] kept(stays, upto)[i]) < (
            #[trigger] kept(stays, upto)[j]),
    decreases upto,
{
    if upto > 0 {
        lemma_kept(stays, upto - 1);
        let before = kept(stays, upto - 1);
        let all = kept(stays, upto);
        assert forall|j: int| 0 <= j < all.len() implies 0 <= (#[trigger] all[j]) < upto && stays(
            all[j],
        ) by {
            if j < before.len() {
                assert(all[j] == before[j]);
            }
        }
        assert forall|i: int, j: int| 0 <= i < j < all.len() implies (#[trigger] all[i]) < (
        #[trigger] all[j]) by {
            assert(all[i] == before[i]);
            if j < before.len() {
                assert(all[j] == before[j]);
            }
        }
    }
}

/// A place that stays is as far along as there are places that stay before it.
proof fn lemma_kept_at(stays: spec_fn(int) -> bool, upto: int, at: int)
    requires
        0 <= at < upto,
        stays(at),
    ensures
        kept(stays, at).len() < kept(stays, upto).len(),
        kept(stays, upto)[kept(stays, at).len() as int] == at,
    decreases upto,
{
    if at < upto - 1 {
        lemma_kept_at(stays, upto - 1, at);
    }
}

/// The tabs that survive are the ones at the places that stay.
proof fn lemma_surviving(
    tabs: Seq<TabView>,
    doomed: Seq<usize>,
    stays: spec_fn(int) -> bool,
    upto: int,
)
    requires
        0 <= upto <= tabs.len(),
        forall|i: int| 0 <= i < upto ==> (stays(i) <==> !(#[trigger] doomed.contains(i as usize))),
    ensures
        surviving(tabs, doomed, upto) == Seq::new(
            kept(stays, upto).len(),
            |j: int| tabs[kept(stays, upto)[j]],
        ),
    decreases upto,
{
    let want = Seq::new(kept(stays, upto).len(), |j: int| tabs[kept(stays, upto)[j]]);
    if upto > 0 {
        lemma_surviving(tabs, doomed, stays, upto - 1);
        assert(stays(upto - 1) <==> !doomed.contains((upto - 1) as usize));
        assert(surviving(tabs, doomed, upto) =~= want);
    } else {
        assert(surviving(tabs, doomed, upto) =~= want);
    }
}

/// Some tab shows after closing, or none is left.
proof fn lemma_shows(active: int, doomed: Seq<usize>, len: nat)
    requires
        0 <= active < len <= usize::MAX,
    ensures
        shows_after(active, doomed, len, left_showing(active, doomed, len)),
{
    let found = if exists|i: int| active <= i && #[trigger] survives(doomed, len, i) {
        let i = choose|i: int| active <= i && #[trigger] survives(doomed, len, i);
        let least = lemma_least(active, doomed, len, i);
        Some(least as usize)
    } else if exists|i: int| #[trigger] survives(doomed, len, i) {
        let i = choose|i: int| #[trigger] survives(doomed, len, i);
        let most = lemma_most(active, doomed, len, i);
        Some(most as usize)
    } else {
        None
    };
    assert(shows_after(active, doomed, len, found));
}

/// The first that survives from a place on.
proof fn lemma_least(active: int, doomed: Seq<usize>, len: nat, i: int) -> (least: int)
    requires
        0 <= active <= i,
        survives(doomed, len, i),
    ensures
        active <= least <= i,
        survives(doomed, len, least),
        forall|k: int| active <= k < least ==> !#[trigger] survives(doomed, len, k),
    decreases i,
{
    if exists|k: int| active <= k < i && #[trigger] survives(doomed, len, k) {
        let k = choose|k: int| active <= k < i && #[trigger] survives(doomed, len, k);
        lemma_least(active, doomed, len, k)
    } else {
        i
    }
}

/// The last that survives, where none does from a place on.
proof fn lemma_most(active: int, doomed: Seq<usize>, len: nat, i: int) -> (most: int)
    requires
        forall|k: int| active <= k ==> !#[trigger] survives(doomed, len, k),
        survives(doomed, len, i),
    ensures
        i <= most < active,
        survives(doomed, len, most),
        forall|k: int| most < k ==> !#[trigger] survives(doomed, len, k),
    decreases active - i,
{
    if exists|k: int| i < k && #[trigger] survives(doomed, len, k) {
        let k = choose|k: int| i < k && #[trigger] survives(doomed, len, k);
        lemma_most(active, doomed, len, k)
    } else {
        i
    }
}

/// Closing some tabs, where one is left, leaves the tabs of the pane that were
/// not closed, and one of them showing.
proof fn lemma_closed(window: WindowView, doomed: Seq<usize>, stays: spec_fn(int) -> bool)
    requires
        well_formed(window),
        active_pane(window).active_tab < active_pane(window).tabs.len() <= usize::MAX,
        forall|i: int|
            0 <= i < active_pane(window).tabs.len() ==> (stays(i) <==> !(
            #[trigger] doomed.contains(i as usize))),
        exists|i: int| 0 <= i < active_pane(window).tabs.len() && #[trigger] stays(i),
    ensures
        ({
            let pane = active_pane(window);
            let places = kept(stays, pane.tabs.len() as int);
            let after = tabs_closed(window, doomed);
            let left = after.panes[here(window)];
            &&& after.panes.len() == window.panes.len()
            &&& after.active_pane == window.active_pane
            &&& left.id == pane.id
            &&& left.tabs.len() == places.len()
            &&& forall|j: int|
                0 <= j < places.len() ==> same_tab(#[trigger] left.tabs[j], pane.tabs[places[j]])
            &&& left.active_tab < places.len()
            &&& left_showing(pane.active_tab as int, doomed, pane.tabs.len()) == Some(
                places[left.active_tab as int] as usize,
            )
        }),
{
    let pane = active_pane(window);
    let len = pane.tabs.len();
    let places = kept(stays, len as int);
    let active = pane.active_tab as int;
    let shown = left_showing(active, doomed, len);
    lemma_shows(active, doomed, len);
    lemma_kept(stays, len as int);
    let some = choose|i: int| 0 <= i < len && #[trigger] stays(i);
    assert(!doomed.contains(some as usize));
    assert(survives(doomed, len, some));
    assert(shown is Some);
    let to = shown->Some_0 as int;
    assert(survives(doomed, len, to));
    assert(stays(to));
    lemma_kept_at(stays, len as int, to);
    if doomed.len() == 0 {
        assert(!doomed.contains(active as usize));
        assert(survives(doomed, len, active));
        assert(to == active);
        assert forall|i: int| 0 <= i < len implies #[trigger] stays(i) by {
            assert(!doomed.contains(i as usize));
        }
        lemma_all_kept(stays, len as int);
        lemma_all_kept(stays, active);
        assert(tabs_closed(window, doomed) == window);
    } else {
        let typed = typed_back(window);
        let stash = active_pane(typed);
        assert(stash == stashed(pane));
        assert(stash.tabs.len() == len);
        let gone = tabs_removed(stash, doomed);
        lemma_surviving(stash.tabs, doomed, stays, len as int);
        lemma_surviving(stash.tabs, doomed, stays, to);
        lemma_kept(stays, to);
        assert(stash.active_tab == pane.active_tab);
        assert(gone.active_tab as int == kept(stays, to).len());
        assert(gone.tabs == surviving(stash.tabs, doomed, len as int));
        let after = tabs_closed(window, doomed);
        let bare = with_active(typed, gone);
        assert(active_pane(bare) == gone);
        let told = if doomed.contains(pane.active_tab) {
            crate::window::then_do(bare, Act::SetConsole(window.active_pane))
        } else {
            bare
        };
        assert(after == crate::window::then_do(session_saved(told), Act::Notify));
        let left = active_pane(after);
        assert(left == active_pane(session_saved(told)));
        assert(left.tabs.len() == gone.tabs.len());
        assert forall|j: int| 0 <= j < places.len() implies same_tab(
            #[trigger] left.tabs[j],
            pane.tabs[places[j]],
        ) by {
            assert(gone.tabs[j] == stash.tabs[places[j]]);
            assert(same_tab(stash.tabs[places[j]], pane.tabs[places[j]]));
            assert(same_tab(left.tabs[j], gone.tabs[j]));
        }
        assert(here(after) == here(window));
    }
}

/// Where every place stays, they are all there.
proof fn lemma_all_kept(stays: spec_fn(int) -> bool, upto: int)
    requires
        0 <= upto,
        forall|i: int| 0 <= i < upto ==> #[trigger] stays(i),
    ensures
        kept(stays, upto) == Seq::new(upto as nat, |i: int| i),
    decreases upto,
{
    if upto > 0 {
        assert(stays(upto - 1));
        lemma_all_kept(stays, upto - 1);
    }
    assert(kept(stays, upto) =~= Seq::new(upto as nat, |i: int| i));
}

/// Whether a bulk close leaves a tab where it is: a pinned one always, and
/// otherwise the one named by Close Others, the ones from the named one on by
/// Close Left, the ones up to the named one by Close Right, the ones with
/// unsaved changes by Close Unchanged, and none by Close All.
pub open spec fn left_by(closing: Closing, tabs: Seq<TabView>) -> spec_fn(int) -> bool {
    |i: int|
        tabs[i].pinned || match closing {
            Closing::Others(one) => i == one as int,
            Closing::Left(one) => one as int <= i,
            Closing::Right(one) => i <= one as int,
            Closing::Unchanged => tabs[i].dirty,
            Closing::All => false,
        }
}

/// A bulk close leaves exactly the tabs it is not about, in order. Close Others
/// leaves the named tab, Close Left the ones from it on, Close Right the ones
/// up to it, Close Unchanged the ones with unsaved changes, and each of them
/// every pinned one. The tab that shows is still the one that shows if it is
/// left, and otherwise its nearest neighbour that is, to the right before the
/// left. `places` are where the tabs that are left stood.
pub proof fn a_bulk_close_leaves_the_rest_in_order(window: WindowView, closing: Closing) -> (places:
    Seq<int>)
    requires
        well_formed(window),
        active_pane(window).active_tab < active_pane(window).tabs.len() <= usize::MAX,
        exists|i: int|
            0 <= i < active_pane(window).tabs.len() && #[trigger] left_by(
                closing,
                active_pane(window).tabs,
            )(i),
    ensures
        ({
            let pane = active_pane(window);
            let tabs = pane.tabs;
            let after = tabs_closed(window, doomed_by(closing, tabs));
            let left = after.panes[here(window)];
            &&& after.panes.len() == window.panes.len()
            &&& after.active_pane == window.active_pane
            &&& left.id == pane.id
            &&& left.tabs.len() == places.len()
            &&& forall|i: int, j: int|
                0 <= i < j < places.len() ==> (#[trigger] places[i]) < (#[trigger] places[j])
            &&& forall|j: int|
                0 <= j < places.len() ==> 0 <= #[trigger] places[j] < tabs.len() && same_tab(
                    left.tabs[j],
                    tabs[places[j]],
                ) && (tabs[places[j]].pinned || match closing {
                    Closing::Others(one) => places[j] == one as int,
                    Closing::Left(one) => one as int <= places[j],
                    Closing::Right(one) => places[j] <= one as int,
                    Closing::Unchanged => tabs[places[j]].dirty,
                    Closing::All => false,
                })
            &&& forall|i: int|
                0 <= i < tabs.len() && (#[trigger] tabs[i].pinned || match closing {
                    Closing::Others(one) => i == one as int,
                    Closing::Left(one) => one as int <= i,
                    Closing::Right(one) => i <= one as int,
                    Closing::Unchanged => tabs[i].dirty,
                    Closing::All => false,
                }) ==> places.contains(i)
            &&& left.active_tab < places.len()
            &&& ({
                let active = pane.active_tab as int;
                let shown = places[left.active_tab as int];
                &&& places.contains(active) ==> shown == active
                &&& !places.contains(active) && active < shown ==> forall|i: int|
                    active <= i < shown ==> !#[trigger] places.contains(i)
                &&& shown < active ==> forall|i: int| shown < i ==> !#[trigger] places.contains(i)
            })
        }),
{
    let pane = active_pane(window);
    let tabs = pane.tabs;
    let len = tabs.len();
    let stays = left_by(closing, tabs);
    let doomed = doomed_by(closing, tabs);
    let places = kept(stays, len as int);
    lemma_unpinned(tabs, named_in(closing, tabs));
    assert forall|i: int| 0 <= i < len implies (stays(i) <==> !(#[trigger] doomed.contains(
        i as usize,
    ))) by {
        assert(unpinned(tabs, named_in(closing, tabs)).contains(i as usize) <==> i < len
            && !tabs[i].pinned && named_in(closing, tabs)(i));
    }
    lemma_closed(window, doomed, stays);
    lemma_kept(stays, len as int);
    lemma_shows(pane.active_tab as int, doomed, len);
    assert forall|i: int| 0 <= i < len && stays(i) implies #[trigger] places.contains(i) by {
        lemma_kept_at(stays, len as int, i);
        assert(places[kept(stays, i).len() as int] == i);
    }
    assert forall|i: int| #[trigger] places.contains(i) implies 0 <= i < len && survives(
        doomed,
        len,
        i,
    ) by {
        let j = choose|j: int| 0 <= j < places.len() && places[j] == i;
        assert(stays(places[j]));
        assert(!doomed.contains(i as usize));
    }
    assert forall|i: int| 0 <= i < len && (#[trigger] tabs[i].pinned || match closing {
        Closing::Others(one) => i == one as int,
        Closing::Left(one) => one as int <= i,
        Closing::Right(one) => i <= one as int,
        Closing::Unchanged => tabs[i].dirty,
        Closing::All => false,
    }) implies places.contains(i) by {
        assert(stays(i));
    }
    places
}

/// A bulk close that leaves nothing empties the only pane there is, and closes
/// a pane that is beside another.
pub proof fn a_bulk_close_of_everything(window: WindowView, closing: Closing)
    requires
        well_formed(window),
        0 < active_pane(window).tabs.len() <= usize::MAX,
        active_pane(window).active_tab < active_pane(window).tabs.len(),
        forall|i: int|
            0 <= i < active_pane(window).tabs.len() ==> !(#[trigger] active_pane(
                window,
            ).tabs[i]).pinned,
        closing is All,
    ensures
        ({
            let after = tabs_closed(window, doomed_by(closing, active_pane(window).tabs));
            &&& window.panes.len() == 1 ==> active_pane(after).tabs.len() == 0
                && after.panes.len() == 1
            &&& window.panes.len() > 1 ==> after == pane_closed(window, window.active_pane)
        }),
{
    let pane = active_pane(window);
    let tabs = pane.tabs;
    let len = tabs.len();
    let doomed = doomed_by(closing, tabs);
    let active = pane.active_tab as int;
    lemma_unpinned(tabs, named_in(closing, tabs));
    assert forall|i: int| 0 <= i < len implies #[trigger] doomed.contains(i as usize) by {
        assert(!tabs[i].pinned);
        assert(named_in(closing, tabs)(i));
        assert(unpinned(tabs, named_in(closing, tabs)).contains(i as usize));
    }
    assert(doomed.contains(active as usize));
    lemma_shows(active, doomed, len);
    let shown = left_showing(active, doomed, len);
    if let Some(to) = shown {
        assert(survives(doomed, len, to as int));
        assert(doomed.contains(to as int as usize));
    }
    assert(doomed.len() > 0);
    if window.panes.len() == 1 {
        let typed = typed_back(window);
        let gone = tabs_removed(active_pane(typed), doomed);
        let none = |i: int| false;
        lemma_surviving(active_pane(typed).tabs, doomed, none, len as int);
        lemma_none_kept(none, len as int);
        assert(gone.tabs.len() == 0);
        let bare = with_active(typed, gone);
        let told = crate::window::then_do(bare, Act::SetConsole(window.active_pane));
        assert(active_pane(told) == gone);
        assert(active_pane(results_cleared(told)).tabs == gone.tabs) by {
            reveal(results_cleared);
        }
    }
}

/// Where no place stays, none is there.
proof fn lemma_none_kept(stays: spec_fn(int) -> bool, upto: int)
    requires
        forall|i: int| 0 <= i < upto ==> !#[trigger] stays(i),
    ensures
        kept(stays, upto).len() == 0,
    decreases upto,
{
    if upto > 0 {
        assert(!stays(upto - 1));
        lemma_none_kept(stays, upto - 1);
    }
}

/// Closing one tab takes that tab out of the strip and no other: the ones
/// before it stay where they are, and the ones after it move up by one. The tab
/// that shows is still the one that shows, and where that is the one that went,
/// the one that slid into its place, or the one before it when it was the last.
pub proof fn closing_a_tab_takes_one_tab_out(window: WindowView, index: usize)
    requires
        well_formed(window),
        active_pane(window).active_tab < active_pane(window).tabs.len(),
        index < active_pane(window).tabs.len(),
        active_pane(window).tabs.len() > 1,
    ensures
        ({
            let pane = active_pane(window);
            let after = tab_closed(window, index);
            let left = after.panes[here(window)];
            let active = pane.active_tab as int;
            &&& after.panes.len() == window.panes.len()
            &&& after.active_pane == window.active_pane
            &&& left.id == pane.id
            &&& left.tabs.len() == pane.tabs.len() - 1
            &&& forall|i: int|
                0 <= i < index ==> same_tab(#[trigger] left.tabs[i], pane.tabs[i])
            &&& forall|i: int|
                index <= i < left.tabs.len() ==> same_tab(
                    #[trigger] left.tabs[i],
                    pane.tabs[i + 1],
                )
            &&& left.active_tab < left.tabs.len()
            &&& index < active ==> left.active_tab == active - 1
            &&& index > active ==> left.active_tab == active
            &&& index == active ==> left.active_tab == (if active + 1 < pane.tabs.len() {
                active
            } else {
                active - 1
            })
        }),
{
    let pane = active_pane(window);
    let typed = typed_back(window);
    let stash = active_pane(typed);
    assert(stash == stashed(pane));
    let gone = tab_removed(stash, index as int);
    let bare = with_active(typed, gone);
    let told = if index == pane.active_tab {
        crate::window::then_do(bare, Act::SetConsole(window.active_pane))
    } else {
        bare
    };
    let after = tab_closed(window, index);
    assert(after == crate::window::then_do(session_saved(told), Act::Notify));
    let left = active_pane(after);
    assert(active_pane(told) == gone);
    assert(left == active_pane(session_saved(told)));
    assert forall|i: int| 0 <= i < left.tabs.len() implies same_tab(
        #[trigger] left.tabs[i],
        gone.tabs[i],
    ) by {}
    assert(here(after) == here(window));
}

} // verus!
