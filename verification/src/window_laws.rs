//! What holds of the window whatever is asked of it and whatever comes back.
use crate::absorbing::{
    apply_absorbed, commit_followed, cursor_placed, key_absorbed, landed, rows_announced,
    run_absorbed, run_delivered, script_continued,
};
use crate::browsing::results_refreshed;
use crate::lists::group_views;
use crate::pane::{PaneView, QueuedView};
use crate::running::{batch_starts, logged, ran_all, ran_alone, recorded, sent, told};
use crate::session::RunView;
use crate::showing::group_showing;
use crate::window::{
    active_pane, group_window, has_pane, lemma_place_bounds, lemma_place_kept, lemma_same_frame,
    place_of, same_frame, well_formed, with_active, with_pane, Act, OrderView, WindowView,
};
use vstd::prelude::*;

verus! {

broadcast use {group_views, group_window, group_showing};

/// Changing a pane but not its id leaves the window in order.
pub proof fn changing_a_pane_keeps_the_window_in_order(window: WindowView, at: int, pane: PaneView)
    requires
        well_formed(window),
        0 <= at < window.panes.len(),
        pane.id == window.panes[at].id,
    ensures
        well_formed(with_pane(window, at, pane)),
{
    reveal(well_formed);
    let after = with_pane(window, at, pane);
    lemma_place_kept(window.panes, at, pane, window.active_pane);
    assert forall|i: int| 0 <= i < after.layout.len() implies has_pane(
        after.panes,
        #[trigger] after.layout[i],
    ) by {
        assert(has_pane(window.panes, window.layout[i]));
        lemma_place_kept(window.panes, at, pane, window.layout[i]);
    }
}

/// Changing the pane of an id leaves the window in order.
proof fn lemma_found_changed(window: WindowView, id: usize, pane: PaneView)
    requires
        well_formed(window),
        has_pane(window.panes, id),
        pane.id == window.panes[place_of(window.panes, id)].id,
    ensures
        well_formed(with_pane(window, place_of(window.panes, id), pane)),
{
    lemma_place_bounds(window.panes, id);
    changing_a_pane_keeps_the_window_in_order(window, place_of(window.panes, id), pane);
}

/// Forgetting the answers of a pane leaves the window in order.
proof fn lemma_batch_starts(window: WindowView, target: usize)
    requires
        well_formed(window),
    ensures
        well_formed(batch_starts(window, target)),
        batch_starts(window, target).active_pane == window.active_pane,
{
    lemma_place_bounds(window.panes, target);
    if has_pane(window.panes, target) {
        let at = place_of(window.panes, target);
        lemma_found_changed(window, target, crate::pane::batch_started(window.panes[at]));
    }
}

/// Sending a statement leaves the window in order, whichever pane it is for and
/// whether there is anybody to send it to.
pub proof fn sending_keeps_the_window_in_order(
    window: WindowView,
    target: usize,
    sql: Seq<char>,
    origin: Option<usize>,
)
    requires
        well_formed(window),
    ensures
        well_formed(sent(window, target, sql, origin)),
{
    lemma_place_bounds(window.panes, target);
    let at = place_of(window.panes, target);
    let running = WindowView { running_pane: Some(target), ..window };
    lemma_same_frame(running, window);
    if has_pane(window.panes, target) {
        let pane = PaneView { run_origin: origin, ..window.panes[at] };
        lemma_found_changed(running, target, pane);
        let marked = crate::window::then_do(
            with_pane(running, at, pane),
            Act::ClearMark(target),
        );
        lemma_same_frame(WindowView { pending_history: None, ..marked }, marked);
        let told = PaneView {
            queue: Seq::empty(),
            error: Some(
                crate::catalog::worded(
                    crate::catalog::ErrorClass::Connection,
                    "Not connected. Choose a connection in the sidebar."@,
                ),
            ),
            ..window.panes[at]
        };
        lemma_found_changed(window, target, told);
    }
}

/// Running a statement or a script leaves the window in order.
pub proof fn running_keeps_the_window_in_order(
    window: WindowView,
    sql: Seq<char>,
    origin: Option<usize>,
    statements: Seq<QueuedView>,
)
    requires
        well_formed(window),
    ensures
        well_formed(ran_alone(window, sql, origin)),
        well_formed(ran_all(window, statements)),
{
    let started = batch_starts(window, window.active_pane);
    lemma_batch_starts(window, window.active_pane);
    sending_keeps_the_window_in_order(started, window.active_pane, sql, origin);
    if statements.len() > 0 {
        let pane = PaneView { queue: statements.drop_first(), ..active_pane(started) };
        let queued = with_active(started, pane);
        assert(active_pane(started).id == started.active_pane);
        sending_keeps_the_window_in_order(
            queued,
            window.active_pane,
            statements[0].sql,
            Some(statements[0].origin),
        );
    }
}

/// Asking again leaves the window in order.
pub proof fn refreshing_keeps_the_window_in_order(window: WindowView)
    requires
        well_formed(window),
    ensures
        well_formed(results_refreshed(window)),
{
    if let Some(sql) = active_pane(window).last_sql {
        running_keeps_the_window_in_order(window, sql, None, Seq::empty());
    }
}

/// Telling the session something moves no pane.
proof fn lemma_told(window: WindowView, order: OrderView)
    ensures
        well_formed(told(window, order)) == well_formed(window),
{
}

/// Writing something into the log moves no pane.
proof fn lemma_recorded(window: WindowView, run: RunView, row_count: usize, now: i64)
    ensures
        same_frame(recorded(window, run, row_count, now), window),
        well_formed(recorded(window, run, row_count, now)) == well_formed(window),
{
    lemma_same_frame(recorded(window, run, row_count, now), window);
}

/// Telling the grid and the console of rows moves no pane.
proof fn lemma_announced(
    window: WindowView,
    target: usize,
    described: Option<(Seq<char>, Seq<char>)>,
    mark: Option<usize>,
    rows: Option<crate::catalog::Rows>,
    sort: Option<crate::pane::Sort>,
)
    ensures
        same_frame(rows_announced(window, target, described, mark, rows, sort), window),
{
    reveal(rows_announced);
    reveal(cursor_placed);
}

/// Carrying a script on leaves the window in order.
proof fn lemma_continued(window: WindowView, target: usize, failed: bool)
    requires
        well_formed(window),
    ensures
        well_formed(script_continued(window, target, failed)),
{
    reveal(script_continued);
    lemma_place_bounds(window.panes, target);
    let at = place_of(window.panes, target);
    if has_pane(window.panes, target) {
        let pane = window.panes[at];
        lemma_found_changed(window, target, PaneView { queue: Seq::empty(), ..pane });
        if pane.queue.len() > 0 {
            let rest = PaneView { queue: pane.queue.drop_first(), ..pane };
            lemma_found_changed(window, target, rest);
            sending_keeps_the_window_in_order(
                with_pane(window, at, rest),
                target,
                pane.queue[0].sql,
                Some(pane.queue[0].origin),
            );
        }
    }
}

/// Delivering a finished statement leaves the window in order.
proof fn lemma_delivered(window: WindowView, target: usize, run: RunView, now: i64)
    requires
        well_formed(window),
        has_pane(window.panes, target),
    ensures
        well_formed(run_delivered(window, target, run, now)),
{
    reveal(run_delivered);
    lemma_place_bounds(window.panes, target);
    let at = place_of(window.panes, target);
    let pane = window.panes[at];
    let put = with_pane(window, at, landed(pane, run));
    lemma_found_changed(window, target, landed(pane, run));
    let described = crate::absorbing::rows_of(window, pane);
    let mark = crate::absorbing::fault_place(pane, run.error);
    lemma_announced(put, target, described, mark, run.rows, pane.pending_sort);
    let announced = rows_announced(put, target, described, mark, run.rows, pane.pending_sort);
    lemma_same_frame(announced, put);
    lemma_recorded(announced, run, landed(pane, run).row_count, now);
    let written = recorded(announced, run, landed(pane, run).row_count, now);
    let told = crate::window::then_do(
        crate::window::then_do(written, Act::FinishObject(run.error is Some)),
        Act::Notify,
    );
    lemma_continued(told, target, run.error is Some);
}

/// A finished statement leaves the window in order, whether its tab is still in
/// front or not.
pub proof fn a_finished_statement_keeps_the_window_in_order(window: WindowView, id: usize, now: i64)
    requires
        well_formed(window),
    ensures
        well_formed(run_absorbed(window, id, now)),
{
    if let Some(session) = crate::window::session_of(window.sessions, id) {
        if let Some(run) = session.last {
            let taken = crate::absorbing::with_held(
                window,
                id,
                crate::session::SessionView {
                    last: Some(RunView { rows: None, ..run }),
                    ..session
                },
            );
            let free = WindowView { running_pane: None, ..taken };
            lemma_same_frame(free, window);
            let target = crate::absorbing::addressee(window);
            let count = match run.rows {
                Some(rows) => rows.count,
                None => 0,
            };
            lemma_recorded(free, run, count, now);
            if has_pane(window.panes, target) {
                lemma_delivered(free, target, run, now);
            }
        }
    }
}

/// A key that was read leaves the window in order.
pub proof fn a_read_key_keeps_the_window_in_order(window: WindowView, id: usize)
    requires
        well_formed(window),
    ensures
        well_formed(key_absorbed(window, id)),
{
    if let Some(session) = crate::window::session_of(window.sessions, id) {
        if let Some(view) = session.last_key {
            let taken = crate::absorbing::with_held(
                window,
                id,
                crate::session::SessionView {
                    last_key: Some(crate::session::OpenKeyView { rows: None, ..view }),
                    ..session
                },
            );
            let free = WindowView { running_pane: None, ..taken };
            lemma_same_frame(free, window);
            let target = crate::absorbing::addressee(window);
            if has_pane(window.panes, target) {
                let at = place_of(window.panes, target);
                lemma_found_changed(
                    free,
                    target,
                    crate::absorbing::key_landed(window.panes[at], view),
                );
            }
        }
    }
}

/// What follows a transaction leaves the window in order.
proof fn lemma_followed(window: WindowView, failed: bool)
    requires
        well_formed(window),
    ensures
        well_formed(commit_followed(window, failed)),
{
    reveal(commit_followed);
    lemma_same_frame(WindowView { pending_structure: None, ..window }, window);
    lemma_told(window, OrderView::Refresh);
    let discarded = crate::window::then_do(window, Act::DiscardChanges(window.active_pane));
    refreshing_keeps_the_window_in_order(discarded);
}

/// A finished transaction leaves the window in order.
pub proof fn a_finished_transaction_keeps_the_window_in_order(
    window: WindowView,
    id: usize,
    now: i64,
)
    requires
        well_formed(window),
    ensures
        well_formed(apply_absorbed(window, id, now)),
{
    if let Some(session) = crate::window::session_of(window.sessions, id) {
        if let Some(applied) = session.last_apply {
            let noted = logged(
                WindowView { import_note: None, ..window },
                crate::absorbing::commit_message(applied, window.import_note, now),
            );
            lemma_same_frame(noted, window);
            let pane = PaneView { error: applied.error, ..active_pane(noted) };
            assert(active_pane(noted).id == noted.active_pane);
            lemma_followed(with_active(noted, pane), applied.error is Some);
        }
    }
}

} // verus!
