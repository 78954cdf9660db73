//! What a change of the filter asks for.
use crate::browse_laws::a_filter_starts_over;
use crate::browsing::{
    condition_committed, filter_applied, filter_switched, operator_set, refiltered,
};
use crate::lists::group_views;
use crate::outcome::{asks, grows, lemma_asks};
use crate::pane::{chip_committed, chip_op_set, filter_mode_toggled, stashed, PaneView};
use crate::reporting::condition_abandoned;
use crate::showing::{
    group_showing, page_set, page_taken, relation_reloaded, session_saved, typed_back,
};
use crate::window::{
    active_pane, group_window, known_absent, then_do, well_formed, with_active, Act, Focus,
    WindowView,
};
use vstd::prelude::*;

verus! {

broadcast use {group_views, group_window, group_showing};

/// Asking for a table again keeps the filter of its tab.
proof fn lemma_filter_kept(window: WindowView, relation: (Seq<char>, Seq<char>))
    requires
        well_formed(window),
        window.pending.page is None,
        window.session is Some,
        !known_absent(window, relation),
        active_pane(window).active_tab < active_pane(window).tabs.len(),
        active_pane(window).tabs[active_pane(window).active_tab as int].relation == Some(relation),
    ensures
        ({
            let pane = active_pane(window);
            let left = active_pane(filter_applied(window));
            let index = pane.active_tab as int;
            &&& filter_applied(window).active_pane == window.active_pane
            &&& grows(window, filter_applied(window))
            &&& left.active_tab == pane.active_tab
            &&& left.tabs.len() == pane.tabs.len()
            &&& left.composer == pane.composer
            &&& left.clause == pane.clause
            &&& left.tabs[index].filter.chips == pane.tabs[index].filter.chips
            &&& left.tabs[index].filter.raw == pane.tabs[index].filter.raw
            &&& !pane.tabs[index].filter.raw || pane.clause == pane.tabs[index].filter.text
                ==> left.tabs[index].filter.text == pane.tabs[index].filter.text
        }),
{
    reveal(relation_reloaded);
    reveal(page_taken);
    reveal(session_saved);
    assert(active_pane(window).id == window.active_pane);
    let first_page = page_set(window, 0);
    assert(known_absent(first_page, relation) == known_absent(window, relation));
}

/// A filter that was changed is the filter of the tab, and the table is asked
/// for again by it, from the first page.
pub proof fn a_changed_filter_is_asked_for(
    window: WindowView,
    pane: PaneView,
    relation: (Seq<char>, Seq<char>),
)
    requires
        well_formed(window),
        window.pending.page is None,
        pane.id == window.active_pane,
        pane.active_tab < pane.tabs.len(),
        pane.tabs[pane.active_tab as int].relation == Some(relation),
        window.session is Some,
        !known_absent(window, relation),
    ensures
        ({
            let after = refiltered(window, pane);
            let left = active_pane(after);
            let index = pane.active_tab as int;
            &&& asks(window, after, Act::Browse(relation))
            &&& left.active_tab == pane.active_tab
            &&& left.tabs[index].page == Some(0usize)
            &&& left.tabs[index].relation == Some(relation)
            &&& left.tabs[index].filter.chips == pane.tabs[index].filter.chips
            &&& left.tabs[index].filter.raw == pane.tabs[index].filter.raw
            &&& left.composer == pane.composer
        }),
{
    let changed = with_active(window, pane);
    assert(active_pane(changed) == pane);
    assert(known_absent(changed, relation) == known_absent(window, relation));
    a_filter_starts_over(changed, relation);
    lemma_filter_kept(changed, relation);
    let asked = filter_applied(changed);
    let after = refiltered(window, pane);
    assert(changed.outbox == window.outbox);
    assert(asks(window, asked, Act::Browse(relation)));
    assert(grows(asked, after));
    lemma_asks(window, asked, after, Act::Browse(relation));
}

/// A condition that is put into the filter is asked for at once; with none being
/// written there is nothing to put in.
pub proof fn a_committed_condition_is_asked_for(
    window: WindowView,
    complete: bool,
    relation: (Seq<char>, Seq<char>),
)
    requires
        well_formed(window),
        window.pending.page is None,
        active_pane(window).active_tab < active_pane(window).tabs.len(),
        active_pane(window).tabs[active_pane(window).active_tab as int].relation == Some(relation),
        window.session is Some,
        !known_absent(window, relation),
    ensures
        ({
            let pane = active_pane(window);
            let index = pane.active_tab as int;
            let after = condition_committed(window, complete);
            &&& pane.composer is None ==> after == window
            &&& pane.composer is Some ==> {
                &&& asks(window, after, Act::Browse(relation))
                &&& active_pane(after).composer is None
                &&& active_pane(after).tabs[index].page == Some(0usize)
                &&& active_pane(after).tabs[index].filter.chips == chip_committed(
                    pane,
                    complete,
                ).tabs[index].filter.chips
            }
        }),
{
    let pane = active_pane(window);
    assert(pane.id == window.active_pane);
    if pane.composer is Some {
        let committed = chip_committed(pane, complete);
        assert(committed.tabs[pane.active_tab as int].relation == Some(relation));
        a_changed_filter_is_asked_for(window, committed, relation);
    }
}

/// An operator that takes a value puts the keyboard where the value goes; one
/// that takes none finishes the condition, which is then asked for.
pub proof fn an_operator_without_a_value_finishes_the_condition(
    window: WindowView,
    op: usize,
    complete: bool,
)
    requires
        well_formed(window),
        active_pane(window).composer is Some,
    ensures
        ({
            let pane = active_pane(window);
            let valued = operator_set(window, op, true, complete);
            let bare = operator_set(window, op, false, complete);
            let picked = with_active(window, chip_op_set(pane, op));
            &&& active_pane(valued).composer is Some
            &&& active_pane(valued).composer->Some_0.chip.op == op
            &&& active_pane(valued).composer->Some_0.chip.column
                == pane.composer->Some_0.chip.column
            &&& active_pane(valued).tabs == pane.tabs
            &&& valued.outbox == window.outbox.push(Act::Focus(Focus::ChipValue)).push(
                Act::Notify,
            ).push(Act::Notify)
            &&& bare == then_do(condition_committed(picked, complete), Act::Notify)
        }),
{
    assert(active_pane(window).id == window.active_pane);
}

/// Conditions are exchanged for a clause written by hand, which starts as what
/// they spell, with the keyboard in it; and the other way round, the conditions
/// that were there count again. Either way the table is asked for again, and no
/// condition is lost.
pub proof fn a_clause_takes_over_from_its_conditions(
    window: WindowView,
    spelled: Seq<char>,
    relation: (Seq<char>, Seq<char>),
)
    requires
        well_formed(window),
        window.pending.page is None,
        active_pane(window).active_tab < active_pane(window).tabs.len(),
        active_pane(window).tabs[active_pane(window).active_tab as int].relation == Some(relation),
        window.session is Some,
        !known_absent(window, relation),
    ensures
        ({
            let pane = active_pane(window);
            let index = pane.active_tab as int;
            let after = filter_switched(window, spelled);
            let left = active_pane(after);
            let filter = left.tabs[index].filter;
            &&& asks(window, after, Act::Browse(relation))
            &&& filter.raw == !pane.tabs[index].filter.raw
            &&& filter.chips == pane.tabs[index].filter.chips
            &&& left.composer is None
            &&& !pane.tabs[index].filter.raw ==> {
                &&& left.clause == spelled
                &&& filter.text == spelled
                &&& asks(window, after, Act::SetClause(window.active_pane))
                &&& asks(window, after, Act::Focus(Focus::Clause))
            }
        }),
{
    let pane = active_pane(window);
    let index = pane.active_tab as int;
    assert(pane.id == window.active_pane);
    let typed = typed_back(window);
    assert(active_pane(typed) == stashed(pane));
    let switched = with_active(typed, filter_mode_toggled(stashed(pane), spelled));
    assert(active_pane(switched) == filter_mode_toggled(stashed(pane), spelled));
    assert(switched.outbox == window.outbox);
    let n = window.outbox.len() as int;
    let told = if pane.tabs[index].filter.raw {
        switched
    } else {
        then_do(
            then_do(
                then_do(switched, Act::SetClause(window.active_pane)),
                Act::Focus(Focus::Clause),
            ),
            Act::Notify,
        )
    };
    assert(active_pane(told) == active_pane(switched));
    assert(known_absent(told, relation) == known_absent(window, relation));
    a_filter_starts_over(told, relation);
    lemma_filter_kept(told, relation);
    let asked = filter_applied(told);
    let after = filter_switched(window, spelled);
    assert(after == then_do(asked, Act::Notify));
    assert(grows(asked, after));
    assert(asks(window, asked, Act::Browse(relation)));
    lemma_asks(window, asked, after, Act::Browse(relation));
    if !pane.tabs[index].filter.raw {
        assert(told.outbox[n] == Act::SetClause(window.active_pane));
        assert(told.outbox[n + 1] == Act::Focus(Focus::Clause));
        assert(asked.outbox[n] == Act::SetClause(window.active_pane));
        assert(asked.outbox[n + 1] == Act::Focus(Focus::Clause));
        assert(after.outbox[n] == Act::SetClause(window.active_pane));
        assert(after.outbox[n + 1] == Act::Focus(Focus::Clause));
    }
}

/// A condition that is given up is gone, and the filter is as it was.
pub proof fn a_condition_given_up_changes_no_filter(window: WindowView)
    requires
        well_formed(window),
    ensures
        active_pane(condition_abandoned(window)).composer is None,
        active_pane(condition_abandoned(window)).tabs == active_pane(window).tabs,
        condition_abandoned(window).outbox == window.outbox.push(Act::Notify),
{
    assert(active_pane(window).id == window.active_pane);
}

} // verus!
