//! What is typed is kept, whichever tab is in front.
use crate::pane::{cleared, fronted, paged, showing, stashed, tab_bound, PaneView};
use crate::showing::{
    brought_up, group_showing, key_reloaded, page_taken, relation_reloaded, results_cleared, shown,
    tab_adopted, tab_connected, typed_back,
};
use crate::window::{
    active_pane, group_window, lemma_same_frame, then_do, well_formed, with_active, Act,
    PendingView, WindowView,
};
use vstd::prelude::*;

verus! {

broadcast use {group_window, group_showing};

/// The script of every tab of a pane: what is typed for the one in front, and
/// what was put away for the others.
pub open spec fn scripts(pane: PaneView) -> Seq<Seq<char>> {
    Seq::new(
        pane.tabs.len(),
        |i: int|
            if i == pane.active_tab {
                pane.console
            } else {
                pane.tabs[i].sql
            },
    )
}

/// Putting what is typed away changes no script, and leaves the tab in front
/// holding it.
proof fn lemma_stashed(pane: PaneView)
    ensures
        scripts(stashed(pane)) == scripts(pane),
        stashed(pane).tabs.len() == pane.tabs.len(),
        forall|i: int|
            0 <= i < pane.tabs.len() ==> (#[trigger] stashed(pane).tabs[i]).sql == scripts(pane)[i],
{
    assert(scripts(stashed(pane)) =~= scripts(pane));
}

/// Bringing a tab to the front, once what was typed is put away, changes no
/// script.
proof fn lemma_fronted(pane: PaneView, index: int)
    requires
        0 <= index < pane.tabs.len() <= usize::MAX,
        forall|i: int| 0 <= i < pane.tabs.len() ==> (#[trigger] pane.tabs[i]).sql == scripts(pane)[i],
    ensures
        scripts(fronted(pane, index)) == scripts(pane),
{
    assert forall|i: int| 0 <= i < pane.tabs.len() implies scripts(fronted(pane, index))[i]
        == scripts(pane)[i] by {
        assert(pane.tabs[i].sql == scripts(pane)[i]);
    }
    assert(scripts(fronted(pane, index)) =~= scripts(pane));
}

/// Making a tab the one the window describes changes no script.
proof fn lemma_adopted(window: WindowView, index: int)
    requires
        well_formed(window),
        0 <= index,
    ensures
        scripts(active_pane(tab_adopted(window, index))) == scripts(active_pane(window)),
{
    reveal(tab_adopted);
    reveal(tab_connected);
    let pane = active_pane(window);
    assert forall|session: Option<usize>| scripts(#[trigger] tab_bound(pane, index, session))
        == scripts(pane) by {
        assert(scripts(tab_bound(pane, index, session)) =~= scripts(pane));
    }
    assert(scripts(active_pane(tab_adopted(window, index))) =~= scripts(pane));
}

/// Asking for a browsed table again changes no script.
proof fn lemma_reloaded(window: WindowView, relation: (Seq<char>, Seq<char>))
    requires
        well_formed(window),
    ensures
        scripts(active_pane(relation_reloaded(window, relation))) == scripts(active_pane(window)),
{
    reveal(relation_reloaded);
    reveal(page_taken);
    reveal(results_cleared);
    let pane = active_pane(window);
    assert(scripts(cleared(pane)) =~= scripts(pane));
    let taken = WindowView {
        pending: PendingView { page: None, ..window.pending },
        ..window
    };
    lemma_same_frame(taken, window);
    assert(active_pane(taken) == pane);
    if let Some(page) = window.pending.page {
        assert(active_pane(with_active(taken, paged(pane, page))) == paged(pane, page));
        assert(scripts(paged(pane, page)) =~= scripts(pane));
    }
    let turned = active_pane(page_taken(window));
    lemma_stashed(turned);
}

/// Showing another tab of a pane changes the script of no tab: what was typed
/// goes with the tab it was typed in, and is there when that tab is shown again.
pub proof fn showing_a_tab_keeps_every_script(window: WindowView, index: int)
    requires
        well_formed(window),
        0 <= index < active_pane(window).tabs.len() <= usize::MAX,
    ensures
        scripts(active_pane(shown(window, index))) == scripts(active_pane(window)),
{
    reveal(shown);
    reveal(brought_up);
    reveal(results_cleared);
    reveal(key_reloaded);
    let pane = active_pane(window);
    lemma_stashed(pane);
    let put = typed_back(window);
    lemma_fronted(stashed(pane), index);
    let up = brought_up(window, index);
    let unmarked = then_do(put, Act::ClearMark(window.active_pane));
    let raised = then_do(
        with_active(unmarked, fronted(active_pane(unmarked), index)),
        Act::RevealTab(window.active_pane, index as usize),
    );
    assert(well_formed(raised));
    lemma_adopted(raised, index);
    assert(scripts(active_pane(up)) == scripts(pane));
    let tab = active_pane(up).tabs[index];
    if let Some(relation) = tab.relation {
        lemma_reloaded(up, relation);
    }
    assert(scripts(cleared(active_pane(up))) =~= scripts(active_pane(up)));
}

/// A script is on screen again, letter for letter, once its tab is.
pub proof fn a_script_comes_back_with_its_tab(window: WindowView, other: int)
    requires
        well_formed(window),
        showing(active_pane(window)) is Some,
        0 <= other < active_pane(window).tabs.len() <= usize::MAX,
    ensures
        ({
            let away = shown(window, other);
            let back = shown(away, active_pane(window).active_tab as int);
            active_pane(back).console == active_pane(window).console
        }),
{
    let pane = active_pane(window);
    let at = pane.active_tab as int;
    showing_a_tab_keeps_every_script(window, other);
    let away = shown(window, other);
    showing_a_tab_keeps_every_script(away, at);
    let back = active_pane(shown(away, at));
    assert(back.active_tab == at as usize);
    assert(scripts(pane)[at] == pane.console);
    assert(scripts(back)[at] == back.console);
}

} // verus!
