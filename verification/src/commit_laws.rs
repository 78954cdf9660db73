//! What becomes of staged changes, by how the transaction they went out in
//! ended.
use crate::absorbing::{apply_absorbed, commit_followed, commit_message};
use crate::browsing::results_refreshed;
use crate::lists::group_views;
use crate::outcome::{asks, asks_in_turn, asks_only, grows, lemma_grows, lemma_in_turn};
use crate::pane::PaneView;
use crate::running::{batch_starts, logged, ran_alone, told};
use crate::session::AppliedView;
use crate::showing::{group_showing, page_taken, relation_reloaded, results_cleared};
use crate::window::{
    active_pane, browsed, group_window, here, known_absent, lemma_place_bounds, lemma_place_kept,
    lemma_same_frame, then_do, well_formed, with_active, Act, MessageTone, OrderView, WindowView,
};
use vstd::prelude::*;

verus! {

broadcast use {group_views, group_window, group_showing};

/// The window with a transaction in its log, and its error in the active pane.
#[verifier::opaque]
spec fn noted(window: WindowView, applied: AppliedView, now: i64) -> WindowView {
    let written = logged(
        WindowView { import_note: None, ..window },
        commit_message(applied, window.import_note, now),
    );
    with_active(written, PaneView { error: applied.error, ..active_pane(written) })
}

/// Writing a transaction down asks for nothing and changes one error.
proof fn lemma_noted(window: WindowView, id: usize, applied: AppliedView, now: i64)
    requires
        well_formed(window),
        id < window.sessions.len(),
        window.sessions[id as int].open,
        window.sessions[id as int].session.last_apply == Some(applied),
    ensures
        ({
            let told = noted(window, applied, now);
            &&& apply_absorbed(window, id, now) == commit_followed(told, applied.error is Some)
            &&& well_formed(told)
            &&& told.outbox == window.outbox
            &&& told.panes == window.panes.update(
                here(window),
                (PaneView { error: applied.error, ..active_pane(window) }),
            )
            &&& active_pane(told) == (PaneView { error: applied.error, ..active_pane(window) })
            &&& here(told) == here(window)
            &&& told.active_pane == window.active_pane
            &&& told.session == window.session
            &&& told.sessions == window.sessions
            &&& told.running_pane == window.running_pane
            &&& told.pending_structure == window.pending_structure
            &&& window.messages_kept > 0 ==> {
                &&& told.messages.len() > 0
                &&& told.messages.last().at_ms == now
                &&& told.messages.last().tone == (if applied.error is Some {
                    MessageTone::Failed
                } else {
                    MessageTone::Done
                })
                &&& applied.error matches Some(error) ==> told.messages.last().text
                    == error.full_text
            }
        }),
{
    reveal(noted);
    let written = logged(
        WindowView { import_note: None, ..window },
        commit_message(applied, window.import_note, now),
    );
    lemma_same_frame(written, window);
}

/// A transaction that failed changes nothing: it rolled back, so the staged
/// changes stay staged and nobody is asked for anything again. The pane and the
/// log say why.
pub proof fn a_failed_commit_keeps_what_is_staged(
    window: WindowView,
    id: usize,
    applied: AppliedView,
    now: i64,
)
    requires
        well_formed(window),
        id < window.sessions.len(),
        window.sessions[id as int].open,
        window.sessions[id as int].session.last_apply == Some(applied),
        applied.error is Some,
    ensures
        ({
            let after = apply_absorbed(window, id, now);
            &&& grows(window, after)
            &&& asks_only(window, after, |act: Act| act is Notify)
            &&& after.panes == window.panes.update(
                here(window),
                (PaneView { error: applied.error, ..active_pane(window) }),
            )
            &&& after.running_pane == window.running_pane
            &&& after.pending_structure is None
            &&& window.messages_kept > 0 ==> {
                &&& after.messages.len() > 0
                &&& after.messages.last().tone == MessageTone::Failed
                &&& after.messages.last().text == applied.error->Some_0.full_text
            }
        }),
{
    lemma_noted(window, id, applied, now);
    reveal(commit_followed);
}

/// Asking for a browsed table again hands the table over to be browsed, as long
/// as there is a server and its catalog does not say that it is gone.
proof fn lemma_reloaded(window: WindowView, relation: (Seq<char>, Seq<char>))
    requires
        well_formed(window),
    ensures
        grows(window, relation_reloaded(window, relation)),
        window.session is Some && !known_absent(window, relation) ==> asks(
            window,
            relation_reloaded(window, relation),
            Act::Browse(relation),
        ),
{
    reveal(relation_reloaded);
    reveal(results_cleared);
    reveal(page_taken);
    let after = relation_reloaded(window, relation);
    if window.session is Some && !known_absent(window, relation) {
        assert(after.outbox == window.outbox.push(Act::Browse(relation)));
        assert(after.outbox[window.outbox.len() as int] == Act::Browse(relation));
    }
}

/// Running a statement sends it to the server the window is on.
proof fn lemma_ran(window: WindowView, sql: Seq<char>)
    requires
        well_formed(window),
    ensures
        grows(window, ran_alone(window, sql, None)),
        (window.session matches Some(session) && session < window.sessions.len()
            && window.sessions[session as int].open) ==> asks(
            window,
            ran_alone(window, sql, None),
            Act::Tell(window.session->Some_0, OrderView::Run(sql)),
        ),
{
    lemma_place_bounds(window.panes, window.active_pane);
    assert(active_pane(window).id == window.active_pane);
    let at = here(window);
    let started = batch_starts(window, window.active_pane);
    lemma_place_kept(
        window.panes,
        at,
        crate::pane::batch_started(window.panes[at]),
        window.active_pane,
    );
    let after = ran_alone(window, sql, None);
    let n = window.outbox.len() as int;
    if crate::window::described(window) is Some {
        assert(after.outbox[n + 2] == Act::Tell(window.session->Some_0, OrderView::Run(sql)));
    }
}

/// A transaction that went through clears what was staged, and then asks for
/// the rows again: the browsed table, or the statement that was run last.
pub proof fn a_commit_that_went_through_clears_and_asks_again(
    window: WindowView,
    id: usize,
    applied: AppliedView,
    now: i64,
)
    requires
        well_formed(window),
        id < window.sessions.len(),
        window.sessions[id as int].open,
        window.sessions[id as int].session.last_apply == Some(applied),
        applied.error is None,
        window.pending_structure is None,
    ensures
        ({
            let after = apply_absorbed(window, id, now);
            let pane = active_pane(window);
            let discard = Act::DiscardChanges(window.active_pane);
            let browses = if pane.active_tab < pane.tabs.len() {
                pane.tabs[pane.active_tab as int].relation
            } else {
                None
            };
            &&& grows(window, after)
            &&& asks(window, after, discard)
            &&& browses matches Some(relation) ==> (window.session is Some && !known_absent(
                window,
                relation,
            ) ==> asks_in_turn(window, after, discard, Act::Browse(relation)))
            &&& browses is None ==> (pane.last_sql matches Some(sql) ==> (
            window.session matches Some(session) ==> (session < window.sessions.len()
                && window.sessions[session as int].open ==> asks_in_turn(
                window,
                after,
                discard,
                Act::Tell(session, OrderView::Run(sql)),
            ))))
            &&& window.messages_kept > 0 ==> {
                &&& after.messages.len() > 0
                &&& after.messages.last().tone == MessageTone::Done
            }
        }),
{
    lemma_noted(window, id, applied, now);
    reveal(commit_followed);
    let told = noted(window, applied, now);
    let discard = Act::DiscardChanges(window.active_pane);
    let cleared = then_do(told, discard);
    assert(cleared.outbox[window.outbox.len() as int] == discard);
    assert(asks(window, cleared, discard));
    assert(grows(window, cleared));
    let again = results_refreshed(cleared);
    let after = then_do(again, Act::Notify);
    assert(after == apply_absorbed(window, id, now));
    assert(grows(again, after));
    match browsed(cleared) {
        Some(relation) => {
            lemma_reloaded(cleared, relation);
            lemma_grows(cleared, again, after);
            lemma_grows(window, cleared, after);
            crate::outcome::lemma_asks(window, cleared, after, discard);
            if window.session is Some && !known_absent(window, relation) {
                crate::outcome::lemma_asks(cleared, again, after, Act::Browse(relation));
                lemma_in_turn(window, cleared, after, discard, Act::Browse(relation));
            }
            lemma_same_messages(cleared, relation);
        },
        None => {
            match active_pane(cleared).last_sql {
                Some(sql) => {
                    lemma_ran(cleared, sql);
                    lemma_grows(cleared, again, after);
                    lemma_grows(window, cleared, after);
                    crate::outcome::lemma_asks(window, cleared, after, discard);
                    if crate::window::described(window) is Some {
                        let act = Act::Tell(window.session->Some_0, OrderView::Run(sql));
                        crate::outcome::lemma_asks(cleared, again, after, act);
                        lemma_in_turn(window, cleared, after, discard, act);
                    }
                },
                None => {
                    lemma_grows(window, cleared, after);
                    crate::outcome::lemma_asks(window, cleared, after, discard);
                },
            }
        },
    }
}

/// Asking for a table again writes nothing into the log.
proof fn lemma_same_messages(window: WindowView, relation: (Seq<char>, Seq<char>))
    ensures
        relation_reloaded(window, relation).messages == window.messages,
{
    reveal(relation_reloaded);
    reveal(results_cleared);
    reveal(page_taken);
}

/// A structure save is answered by how it ended: one that went through waits
/// for the catalog to be read again, and one that failed is forgotten. Neither
/// touches what is staged in a grid.
pub proof fn a_structure_save_is_answered(
    window: WindowView,
    id: usize,
    applied: AppliedView,
    now: i64,
)
    requires
        well_formed(window),
        id < window.sessions.len(),
        window.sessions[id as int].open,
        window.sessions[id as int].session.last_apply == Some(applied),
        window.pending_structure is Some,
    ensures
        ({
            let after = apply_absorbed(window, id, now);
            &&& grows(window, after)
            &&& asks_only(window, after, |act: Act| act is Notify || act is Tell)
            &&& applied.error is Some ==> after.pending_structure is None && asks_only(
                window,
                after,
                |act: Act| !(act is Tell),
            )
            &&& applied.error is None ==> {
                &&& after.pending_structure == window.pending_structure
                &&& window.session matches Some(session) ==> asks(
                    window,
                    after,
                    Act::Tell(session, OrderView::Refresh),
                )
            }
        }),
{
    lemma_noted(window, id, applied, now);
    reveal(commit_followed);
    let after = apply_absorbed(window, id, now);
    if applied.error is None {
        if let Some(session) = window.session {
            assert(after.outbox[window.outbox.len() as int] == Act::Tell(
                session,
                OrderView::Refresh,
            ));
        }
    }
}

} // verus!
