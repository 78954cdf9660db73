//! Where a statement goes when it is run, and what is written down of it.
use crate::absorbing::{answer_shown, key_absorbed};
use crate::lists::group_views;
use crate::outcome::{asks, asks_only, grows};
use crate::pane::{batch_started, PaneView, QueuedView};
use crate::running::{
    action_of, batch_starts, logged, outcome_text, ran_all, ran_alone, recorded, sent, told,
    tone_of,
};
use crate::session::{OpenKeyView, RunView};
use crate::showing::group_showing;
use crate::window::{
    active_pane, described, group_window, here, lemma_place_bounds, lemma_place_of, place_of,
    well_formed, with_active, Act, MessageTone, MessageView, OrderView, WindowView,
};
use crate::wording::{count_text, grouped};
use vstd::prelude::*;

verus! {

broadcast use {group_views, group_window, group_showing};

/// Whether a window is on a session that is open.
pub open spec fn on_a_server(window: WindowView) -> bool {
    window.session matches Some(session) && session < window.sessions.len()
        && window.sessions[session as int].open
}

/// What holds of a statement sent for the active pane.
proof fn lemma_sent_here(window: WindowView, sql: Seq<char>, origin: Option<usize>)
    requires
        well_formed(window),
    ensures
        ({
            let after = sent(window, window.active_pane, sql, origin);
            let pane = active_pane(window);
            let left = after.panes[here(window)];
            &&& after.panes.len() == window.panes.len()
            &&& forall|i: int|
                0 <= i < window.panes.len() && i != here(window) ==> after.panes[i]
                    == window.panes[i]
            &&& after.active_pane == window.active_pane
            &&& grows(window, after)
            &&& on_a_server(window) ==> {
                let session = window.session->Some_0;
                &&& left == (PaneView { run_origin: origin, ..pane })
                &&& after.running_pane == Some(window.active_pane)
                &&& asks(window, after, Act::Tell(session, OrderView::Run(sql)))
                &&& asks(
                    window,
                    after,
                    Act::Record(window.sessions[session as int].session.config.id, sql),
                )
                &&& asks_only(
                    window,
                    after,
                    |act: Act| act is Tell ==> act == Act::Tell(session, OrderView::Run(sql)),
                )
            }
            &&& !on_a_server(window) ==> {
                &&& left.queue.len() == 0
                &&& left.error matches Some(error) && error.class is Connection && error.message
                    == "Not connected. Choose a connection in the sidebar."@
                &&& left.tabs == pane.tabs
                &&& left.row_count == pane.row_count
                &&& after.running_pane == window.running_pane
                &&& asks_only(window, after, |act: Act| act is Notify)
            }
        }),
{
    lemma_place_bounds(window.panes, window.active_pane);
    assert(active_pane(window).id == window.active_pane);
    let after = sent(window, window.active_pane, sql, origin);
    let n = window.outbox.len() as int;
    assert(on_a_server(window) <==> described(window) is Some);
    if on_a_server(window) {
        assert(after.outbox[n + 1] is Record);
        assert(after.outbox[n + 2] is Tell);
    }
}

/// A pane whose answers are forgotten is in its place.
proof fn lemma_started(window: WindowView)
    requires
        well_formed(window),
    ensures
        ({
            let started = batch_starts(window, window.active_pane);
            &&& started == with_active(window, batch_started(active_pane(window)))
            &&& well_formed(started)
            &&& here(started) == here(window)
            &&& active_pane(started) == batch_started(active_pane(window))
        }),
{
    lemma_place_bounds(window.panes, window.active_pane);
    assert(active_pane(window).id == window.active_pane);
}

/// A statement that is run goes to the server the window is on, for the active
/// pane: that pane is the one that waits for the answer, what an earlier script
/// had left to do and what it had answered so far is forgotten, and no other
/// pane changes. Without a server the pane says so, and nothing is sent.
pub proof fn a_statement_runs_in_the_active_pane(
    window: WindowView,
    sql: Seq<char>,
    origin: Option<usize>,
)
    requires
        well_formed(window),
    ensures
        ({
            let after = ran_alone(window, sql, origin);
            let pane = active_pane(window);
            let left = after.panes[here(window)];
            &&& after.panes.len() == window.panes.len()
            &&& forall|i: int|
                0 <= i < window.panes.len() && i != here(window) ==> after.panes[i]
                    == window.panes[i]
            &&& after.active_pane == window.active_pane
            &&& grows(window, after)
            &&& left.queue.len() == 0
            &&& left.results.len() == 0
            &&& left.tabs == pane.tabs
            &&& left.console == pane.console
            &&& on_a_server(window) ==> {
                let session = window.session->Some_0;
                &&& left.run_origin == origin
                &&& after.running_pane == Some(pane.id)
                &&& asks(window, after, Act::Tell(session, OrderView::Run(sql)))
                &&& asks(
                    window,
                    after,
                    Act::Record(window.sessions[session as int].session.config.id, sql),
                )
            }
            &&& !on_a_server(window) ==> {
                &&& left.error matches Some(error) && error.class is Connection && error.message
                    == "Not connected. Choose a connection in the sidebar."@
                &&& after.running_pane == window.running_pane
                &&& asks_only(window, after, |act: Act| act is Notify)
            }
        }),
{
    lemma_started(window);
    let started = batch_starts(window, window.active_pane);
    lemma_sent_here(started, sql, origin);
    assert(started.outbox == window.outbox);
    let after = ran_alone(window, sql, origin);
    assert(after == sent(started, window.active_pane, sql, origin));
    if on_a_server(window) {
        let session = window.session->Some_0;
        assert(asks(started, after, Act::Tell(session, OrderView::Run(sql))));
        assert(asks(
            started,
            after,
            Act::Record(window.sessions[session as int].session.config.id, sql),
        ));
    }
}

/// A script goes out one statement at a time: the first is sent, and the rest
/// wait in order.
pub proof fn a_script_goes_out_one_statement_at_a_time(
    window: WindowView,
    statements: Seq<QueuedView>,
)
    requires
        well_formed(window),
    ensures
        statements.len() == 0 ==> ran_all(window, statements) == window,
        statements.len() > 0 && on_a_server(window) ==> {
            let after = ran_all(window, statements);
            let left = after.panes[here(window)];
            let session = window.session->Some_0;
            let first = Act::Tell(session, OrderView::Run(statements[0].sql));
            &&& after.running_pane == Some(window.active_pane)
            &&& left.queue.len() == statements.len() - 1
            &&& forall|i: int|
                0 <= i < left.queue.len() ==> #[trigger] left.queue[i] == statements[i + 1]
            &&& left.run_origin == Some(statements[0].origin)
            &&& left.results.len() == 0
            &&& asks(window, after, first)
            &&& asks_only(window, after, |act: Act| act is Tell ==> act == first)
        },
{
    if statements.len() > 0 && on_a_server(window) {
        lemma_started(window);
        let started = batch_starts(window, window.active_pane);
        let waiting = PaneView { queue: statements.drop_first(), ..active_pane(started) };
        let queued = with_active(started, waiting);
        assert(active_pane(started).id == window.active_pane);
        lemma_sent_here(queued, statements[0].sql, Some(statements[0].origin));
        assert(queued.outbox == window.outbox);
        let after = ran_all(window, statements);
        let session = window.session->Some_0;
        assert(asks(
            queued,
            after,
            Act::Tell(session, OrderView::Run(statements[0].sql)),
        ));
    }
}

/// The bolt never promises what it does not do: it cancels while a statement is
/// in flight, is off without a server, asks again on a tab that has no
/// statement of its own, and otherwise runs.
pub proof fn the_bolt_does_what_it_says(window: WindowView)
    ensures
        ({
            let pane = active_pane(window);
            let session = window.sessions[window.session->Some_0 as int].session;
            let action = action_of(window);
            &&& !on_a_server(window) ==> action is Offline
            &&& on_a_server(window) && session.activity is Running ==> action is Cancel
            &&& on_a_server(window) && !(session.activity is Running) && !(session.state
                is Connected) ==> action is Offline
            &&& on_a_server(window) && !(session.activity is Running) && session.state
                is Connected ==> {
                if pane.active_tab < pane.tabs.len() && (pane.tabs[pane.active_tab as int].kind
                    is Structure || pane.tabs[pane.active_tab as int].relation is Some) {
                    action is Reload
                } else {
                    action is Run
                }
            }
        }),
{
}

/// Something for the session goes to the session the window is on, and nowhere
/// where it is on none.
pub proof fn an_order_goes_to_the_window_s_session(window: WindowView, order: OrderView)
    ensures
        window.session matches Some(session) ==> told(window, order).outbox
            == window.outbox.push(Act::Tell(session, order)),
        window.session is None ==> told(window, order) == window,
        told(window, order).panes == window.panes,
{
}

/// The log keeps what came last: the message that is written is its last one,
/// and of the others as many of the latest as there is room for.
pub proof fn the_log_keeps_what_came_last(window: WindowView, message: MessageView)
    ensures
        ({
            let after = logged(window, message).messages;
            let all = window.messages.push(message);
            &&& window.messages_kept > 0 ==> after.len() > 0 && after.last() == message
            &&& after.len() <= window.messages_kept
            &&& window.messages.len() < window.messages_kept ==> after == all
            &&& forall|i: int|
                0 <= i < after.len() ==> #[trigger] after[i] == all[all.len() - after.len() + i]
        }),
{
}

/// What the log says of a statement: the server's own words where it failed, and
/// otherwise how many rows it changed or gave, with a plus where there are more
/// than were fetched.
pub proof fn the_log_says_what_a_statement_came_to(run: RunView, row_count: usize)
    ensures
        run.error matches Some(error) ==> outcome_text(run, row_count) == error.full_text,
        run.error is None ==> {
            &&& run.affected matches Some(count) ==> outcome_text(run, row_count) == count_text(
                count as usize as nat,
                "row"@,
            ) + " affected"@
            &&& run.affected is None && run.truncated ==> outcome_text(run, row_count) == grouped(
                row_count as nat,
                ',',
            ) + "+ rows (row cap reached)"@
            &&& run.affected is None && !run.truncated ==> outcome_text(run, row_count)
                == count_text(row_count as nat, "row"@)
        },
        run.error is None ==> tone_of(run.error) is Done,
        run.error matches Some(error) ==> tone_of(run.error) == (if error.canceled {
            MessageTone::Canceled
        } else {
            MessageTone::Failed
        }),
        count_text(1, "row"@) == "1 "@ + "row"@,
        row_count != 1 ==> count_text(row_count as nat, "row"@) == grouped(
            row_count as nat,
            ',',
        ) + " rows"@,
{
    reveal_strlit("row");
    reveal_strlit(" rows");
    if row_count != 1 {
        assert(count_text(row_count as nat, "row"@) =~= grouped(row_count as nat, ',')
            + " rows"@);
    }
}

/// The history is told how a statement it was recorded for ended: how long it
/// took, in milliseconds, and how many rows it changed or gave.
pub proof fn the_history_is_told_how_it_ended(
    window: WindowView,
    run: RunView,
    row_count: usize,
    now: i64,
)
    ensures
        ({
            let after = recorded(window, run, row_count, now);
            &&& grows(window, after)
            &&& after.pending_history is None
            &&& window.pending_history matches Some(entry) ==> {
                &&& asks(
                    window,
                    after,
                    Act::FinishRecord {
                        id: entry,
                        millis: (run.elapsed / 1_000_000) as i64,
                        count: Some(
                            match run.affected {
                                Some(count) => count as i64,
                                None => row_count as i64,
                            },
                        ),
                        message: match run.error {
                            Some(error) => Some(error.full_text),
                            None => None,
                        },
                    },
                )
                &&& asks(window, after, Act::ReloadLists)
            }
            &&& window.pending_history is None ==> after.outbox == window.outbox
        }),
{
    let after = recorded(window, run, row_count, now);
    let n = window.outbox.len() as int;
    if window.pending_history is Some {
        assert(after.outbox[n] is FinishRecord);
        assert(after.outbox[n + 1] is ReloadLists);
    }
}

/// A key that was read lands in the pane that asked for it, and in no other:
/// its rows fill that pane's grid, and where it could not be read the pane says
/// why.
pub proof fn a_key_lands_in_the_pane_that_asked(
    window: WindowView,
    id: usize,
    view: OpenKeyView,
    at: int,
)
    requires
        well_formed(window),
        id < window.sessions.len(),
        window.sessions[id as int].open,
        window.sessions[id as int].session.last_key == Some(view),
        0 <= at < window.panes.len(),
        match window.running_pane {
            Some(pane) => pane == window.panes[at].id,
            None => window.active_pane == window.panes[at].id,
        },
        ({
            let pane = window.panes[at];
            pane.active_tab < pane.tabs.len() ==> (
            pane.tabs[pane.active_tab as int].session matches Some(other) ==> other == id)
        }),
    ensures
        ({
            let after = key_absorbed(window, id);
            let pane = after.panes[at];
            let asked = window.panes[at];
            &&& after.panes.len() == window.panes.len()
            &&& forall|i: int|
                0 <= i < window.panes.len() && i != at ==> after.panes[i] == window.panes[i]
            &&& after.running_pane is None
            &&& after.active_pane == window.active_pane
            &&& grows(window, after)
            &&& pane.id == asked.id
            &&& pane.tabs == asked.tabs
            &&& pane.error == view.error
            &&& pane.last_sql is None
            &&& view.rows matches Some(rows) ==> pane.row_count == rows.count && asks(
                window,
                after,
                Act::SetGrid(asked.id, Some(rows)),
            )
            &&& view.rows is None ==> pane.row_count == asked.row_count && asks_only(
                window,
                after,
                |act: Act| act is Notify,
            )
        }),
{
    assert(place_of(window.panes, window.panes[at].id) == at) by {
        reveal(well_formed);
        assert forall|i: int| 0 <= i < at implies (#[trigger] window.panes[i]).id
            != window.panes[at].id by {
            assert(window.panes[at].id == window.panes[at].id);
        }
        lemma_place_of(window.panes, window.panes[at].id, at);
    }
    let after = key_absorbed(window, id);
    if view.rows is Some {
        assert(after.outbox[window.outbox.len() as int] is SetGrid);
    }
}

/// Showing one of a script's answers again puts that answer's rows into the
/// grid, and the answers stay as they are.
pub proof fn an_answer_is_shown_again(window: WindowView, index: usize)
    requires
        well_formed(window),
    ensures
        ({
            let pane = active_pane(window);
            let after = answer_shown(window, index);
            let left = after.panes[here(window)];
            &&& index >= pane.results.len() ==> after == window
            &&& index < pane.results.len() ==> {
                let answer = pane.results[index as int];
                &&& left.result_index == index
                &&& left.results == pane.results
                &&& left.row_count == answer.rows.count
                &&& left.elapsed == Some(answer.elapsed)
                &&& left.truncated == answer.truncated
                &&& left.results_tab is Data
                &&& left.selected_row == (if answer.rows.count > 0 {
                    Some(0usize)
                } else {
                    None
                })
                &&& asks(window, after, Act::SetGrid(window.active_pane, Some(answer.rows)))
            }
        }),
{
    let after = answer_shown(window, index);
    if index < active_pane(window).results.len() {
        assert(after.outbox[window.outbox.len() as int] is SetGrid);
    }
}

} // verus!
