//! What the window does about what its sessions tell it.
use crate::absorbing::{apply_absorbed, key_absorbed, run_absorbed};
use crate::catalog::catalog_has;
use crate::events::{
    after_event, catalog_shown, editability_asked, knows_table, privileges_changed, rebrowsed,
    restored_browsed, schema_changed, sifted, structure_adopted, tabs_retargeted, WantedKey,
};
use crate::lists::group_views;
use crate::outcome::{asks, asks_only, grows, lemma_grows};
use crate::pane_laws::lemma_saved;
use crate::session::SessionEvent;
use crate::showing::{group_showing, relation_reloaded, session_saved, tree_of};
use crate::window::{
    active_pane, catalog, described, group_window, known_absent, lemma_same_frame, then_do,
    well_formed, Act, PendingView, WindowView,
};
use vstd::prelude::*;

verus! {

broadcast use {group_views, group_window, group_showing};

/// A session that is not the one the window is on changes nothing on screen: its
/// catalog and its privileges are its own, and the frame is drawn again.
pub proof fn another_session_s_news_stays_with_it(window: WindowView, id: usize)
    requires
        window.session != Some(id),
    ensures
        schema_changed(window, id) == then_do(window, Act::Notify),
        privileges_changed(window, id) == then_do(window, Act::Notify),
{
}

/// A change of state is a frame, and nothing else.
pub proof fn a_change_of_state_is_a_frame(
    window: WindowView,
    id: usize,
    wanted: WantedKey,
    now: i64,
)
    ensures
        after_event(window, id, SessionEvent::StateChanged, wanted, now) == then_do(
            window,
            Act::Notify,
        ),
        after_event(window, id, SessionEvent::Finished, wanted, now) == run_absorbed(
            window,
            id,
            now,
        ),
        after_event(window, id, SessionEvent::Applied, wanted, now) == apply_absorbed(
            window,
            id,
            now,
        ),
        after_event(window, id, SessionEvent::KeyOpened, wanted, now) == key_absorbed(window, id),
{
}

/// Every grid is asked again whether its rows can be written back, once each
/// and in order, where privileges or a catalog of the window's session arrive.
pub proof fn every_grid_is_asked_again(window: WindowView, id: usize, at: int)
    requires
        0 <= at < window.panes.len(),
        window.session == Some(id),
    ensures
        ({
            let after = privileges_changed(window, id);
            &&& after.panes == window.panes
            &&& asks(window, after, Act::RefreshEditability(window.panes[at].id))
            &&& asks_only(window, after, |act: Act| act is RefreshEditability || act is Notify)
        }),
{
    reveal(editability_asked);
    let after = privileges_changed(window, id);
    assert(after.outbox[window.outbox.len() + at] == Act::RefreshEditability(
        window.panes[at].id,
    ));
}

/// A new catalog is drawn as a tree of its own, with nothing selected, and the
/// consoles complete against it.
pub proof fn a_new_catalog_is_on_screen(window: WindowView, id: usize)
    ensures
        ({
            let after = catalog_shown(window, id);
            &&& after.tree == tree_of(described(window))
            &&& after.selected_node is None
            &&& after.panes == window.panes
            &&& after.outbox == window.outbox.push(Act::SetCatalog(Some(id)))
        }),
{
    reveal(catalog_shown);
}

/// A table that waited for another catalog is asked for once, as soon as that
/// is in and unless it is not there.
pub proof fn a_table_that_waited_is_asked_for_once(window: WindowView)
    requires
        well_formed(window),
    ensures
        ({
            let after = rebrowsed(window);
            &&& window.pending.rebrowse is None ==> after == window
            &&& window.pending.rebrowse matches Some(relation) ==> {
                &&& window.session is Some && !known_absent(window, relation) ==> asks(
                    window,
                    after,
                    Act::Browse(relation),
                )
                &&& after.pending.rebrowse is None
            }
        }),
{
    reveal(rebrowsed);
    if let Some(relation) = window.pending.rebrowse {
        let taken = WindowView {
            pending: PendingView { rebrowse: None, ..window.pending },
            ..window
        };
        lemma_same_frame(taken, window);
        crate::browse_laws::a_table_that_is_there_is_asked_for(taken, relation);
        assert(known_absent(taken, relation) == known_absent(window, relation));
        let after = relation_reloaded(taken, relation);
        if window.session is Some && !known_absent(window, relation) {
            assert(asks(taken, after, Act::Browse(relation)));
            assert(asks(window, after, Act::Browse(relation)));
        }
        assert(after.pending.rebrowse is None) by {
            reveal(relation_reloaded);
            reveal(crate::showing::page_taken);
            reveal(crate::showing::results_cleared);
        }
    }
}

/// A restored table that has a name and no rows is asked for once there is a
/// catalog; one that has an answer already is not.
pub proof fn a_restored_table_is_asked_for(window: WindowView)
    requires
        well_formed(window),
        active_pane(window).active_tab < active_pane(window).tabs.len(),
    ensures
        ({
            let pane = active_pane(window);
            let tab = pane.tabs[pane.active_tab as int];
            let after = restored_browsed(window);
            &&& tab.kind is Table && tab.relation is Some && pane.results.len() == 0
                && window.session is Some && !known_absent(window, tab.relation->Some_0) ==> asks(
                window,
                after,
                Act::Browse(tab.relation->Some_0),
            )
            &&& !(tab.kind is Table) || tab.relation is None || pane.results.len() > 0 ==> after
                == window
        }),
{
    reveal(restored_browsed);
    let pane = active_pane(window);
    let tab = pane.tabs[pane.active_tab as int];
    if tab.kind is Table && tab.relation is Some {
        crate::browse_laws::a_table_that_is_there_is_asked_for(window, tab.relation->Some_0);
    }
}

/// The tables a launch named are told apart by whether the catalog has them, and
/// none is lost.
pub proof fn named_tables_are_sifted(
    list: Seq<(Seq<char>, Seq<char>)>,
    snapshot: crate::catalog::SchemaSnapshot,
    relation: (Seq<char>, Seq<char>),
)
    ensures
        sifted(list, Some(snapshot), true).contains(relation) <==> list.contains(relation)
            && catalog_has(snapshot, relation),
        sifted(list, Some(snapshot), false).contains(relation) <==> list.contains(relation)
            && !catalog_has(snapshot, relation),
{
    lemma_sifted(list, snapshot, relation, true);
    lemma_sifted(list, snapshot, relation, false);
}

/// What is in a sifted list.
proof fn lemma_sifted(
    list: Seq<(Seq<char>, Seq<char>)>,
    snapshot: crate::catalog::SchemaSnapshot,
    relation: (Seq<char>, Seq<char>),
    known: bool,
)
    ensures
        sifted(list, Some(snapshot), known).contains(relation) <==> list.contains(relation)
            && catalog_has(snapshot, relation) == known,
    decreases list.len(),
{
    if list.len() > 0 {
        let rest = list.drop_last();
        lemma_sifted(rest, snapshot, relation, known);
        let before = sifted(rest, Some(snapshot), known);
        let all = sifted(list, Some(snapshot), known);
        let last = list.len() - 1;
        if knows_table(Some(snapshot), list.last()) == known {
            assert(all[before.len() as int] == list.last());
        }
        if before.contains(relation) {
            let k = choose|k: int| 0 <= k < before.len() && before[k] == relation;
            assert(all[k] == relation);
        }
        if rest.contains(relation) {
            let k = choose|k: int| 0 <= k < rest.len() && rest[k] == relation;
            assert(list[k] == relation);
        }
        if list.contains(relation) && !rest.contains(relation) {
            let k = choose|k: int| 0 <= k < list.len() && list[k] == relation;
            if k < last {
                assert(rest[k] == relation);
            }
        }
        if all.contains(relation) && !before.contains(relation) {
            let k = choose|k: int| 0 <= k < all.len() && all[k] == relation;
            if k < before.len() {
                assert(before[k] == relation);
            }
        }
        assert(list[last] == list.last());
    }
}

/// A structure save that the catalog confirms is taken up by its editor, and
/// where the table was renamed every other tab of it is taken along. One that it
/// does not confirm is let go of. Either way nobody waits for it any more.
pub proof fn a_confirmed_save_is_taken_up(window: WindowView)
    requires
        window.pending_structure is Some,
    ensures
        ({
            let pending = window.pending_structure->Some_0;
            let after = structure_adopted(window);
            let known = catalog(window) matches Some(snapshot) && catalog_has(
                snapshot,
                pending.to,
            );
            &&& after.pending_structure is None
            &&& !known ==> after.outbox == window.outbox
            &&& known ==> {
                &&& asks(window, after, Act::AdoptStructure(pending.editor, pending.to))
                &&& asks(window, after, Act::SyncStructure(pending.editor))
                &&& pending.from matches Some(from) ==> (from != pending.to ==> asks(
                    window,
                    after,
                    Act::Retarget(from, Some(pending.to)),
                ))
            }
        }),
{
    reveal(structure_adopted);
    reveal(tabs_retargeted);
    reveal(editability_asked);
    let pending = window.pending_structure->Some_0;
    let after = structure_adopted(window);
    if knows_table(catalog(window), pending.to) {
        let taken = WindowView { pending_structure: None, ..window };
        let adopt = Act::AdoptStructure(pending.editor, pending.to);
        let shown = then_do(taken, adopt);
        let n = window.outbox.len() as int;
        assert(shown.outbox[n] == adopt);
        assert(asks(window, shown, adopt));
        match pending.from {
            Some(from) => {
                if from != pending.to {
                    let retarget = Act::Retarget(from, Some(pending.to));
                    let told = then_do(shown, retarget);
                    let asked = editability_asked(told);
                    lemma_saved(asked);
                    let moved = tabs_retargeted(shown, from, Some(pending.to));
                    assert(moved == then_do(session_saved(asked), Act::Notify));
                    assert(told.outbox[n + 1] == retarget);
                    assert(grows(told, asked));
                    assert(grows(session_saved(asked), moved));
                    lemma_grows(told, asked, session_saved(asked));
                    lemma_grows(told, session_saved(asked), moved);
                    assert(moved.outbox[n] == told.outbox[n]);
                    assert(moved.outbox[n + 1] == told.outbox[n + 1]);
                    assert(after == then_do(moved, Act::SyncStructure(pending.editor)));
                    assert(after.outbox[n] == adopt);
                    assert(after.outbox[n + 1] == retarget);
                    assert(after.outbox[moved.outbox.len() as int] == Act::SyncStructure(
                        pending.editor,
                    ));
                    assert(after.pending_structure is None) by {
                        reveal(session_saved);
                    }
                } else {
                    assert(after.outbox[n] == adopt);
                    assert(after.outbox[n + 1] == Act::SyncStructure(pending.editor));
                }
            },
            None => {
                assert(after.outbox[n] == adopt);
                assert(after.outbox[n + 1] == Act::SyncStructure(pending.editor));
            },
        }
    }
}

} // verus!
