//! What is told of an answer besides its rows.
use crate::absorbing::{
    commit_message, cursor_placed, fault_place, key_absorbed, landed, rows_announced, rows_of,
    run_absorbed, run_delivered, script_continued, with_held,
};
use crate::catalog::Rows;
use crate::lists::group_views;
use crate::outcome::{asks, grows, lemma_asks, lemma_grows};
use crate::pane::{PaneView, Sort};
use crate::responding::bolt_pressed;
use crate::running::{outcome_text, recorded, sent, tone_of};
use crate::session::{commit_summary, AppliedView, RunView, SessionView};
use crate::showing::group_showing;
use crate::window::{
    active_pane, catalog, group_window, here, lemma_place_kept, lemma_place_of, place_of, then_do,
    well_formed, with_pane, Act, OrderView, WindowView,
};
use vstd::prelude::*;

verus! {

broadcast use {group_views, group_window, group_showing};

/// What is told of some rows.
proof fn lemma_said(
    window: WindowView,
    target: usize,
    described: Option<(Seq<char>, Seq<char>)>,
    mark: Option<usize>,
    rows: Option<Rows>,
    sort: Option<Sort>,
)
    ensures
        ({
            let after = rows_announced(window, target, described, mark, rows, sort);
            &&& grows(window, after)
            &&& mark matches Some(place) ==> asks(window, after, Act::MarkError(target, place))
            &&& rows matches Some(rows) ==> {
                &&& described matches Some(relation) ==> asks(
                    window,
                    after,
                    Act::Describe(rows, relation),
                )
                &&& sort matches Some(sort) ==> asks(window, after, Act::SetSort(target, sort))
                &&& asks(window, after, Act::RefreshEditability(target))
                &&& window.pending.cell matches Some(cell) ==> asks(
                    window,
                    after,
                    Act::SetCursor(target, cell.0, cell.1),
                )
                &&& window.pending.follow ==> asks(window, after, Act::Follow)
                &&& after.pending.cell is None && !after.pending.follow
            }
            &&& rows is None ==> after.pending == window.pending
            &&& after.panes == window.panes && after.sessions == window.sessions
            &&& after.messages == window.messages && after.messages_kept == window.messages_kept
            &&& after.pending_history == window.pending_history
            &&& after.session == window.session
        }),
{
    reveal(rows_announced);
    reveal(cursor_placed);
    let after = rows_announced(window, target, described, mark, rows, sort);
    let n = window.outbox.len() as int;
    let said = match (rows, described) {
        (Some(rows), Some(relation)) => then_do(window, Act::Describe(rows, relation)),
        _ => window,
    };
    let marked = match mark {
        Some(place) => then_do(said, Act::MarkError(target, place)),
        None => said,
    };
    if mark is Some {
        assert(after.outbox[said.outbox.len() as int] == Act::MarkError(target, mark->Some_0));
    }
    if let Some(rows) = rows {
        if described is Some {
            assert(after.outbox[n] == Act::Describe(rows, described->Some_0));
        }
        let m = marked.outbox.len() as int;
        let k = if sort is Some {
            m + 2
        } else {
            m + 1
        };
        if sort is Some {
            assert(after.outbox[m + 1] == Act::SetSort(target, sort->Some_0));
        }
        assert(after.outbox[k] == Act::RefreshEditability(target));
        let f = if window.pending.cell is Some {
            k + 2
        } else {
            k + 1
        };
        if window.pending.cell is Some {
            let cell = window.pending.cell->Some_0;
            assert(after.outbox[k + 1] == Act::SetCursor(target, cell.0, cell.1));
        }
        if window.pending.follow {
            assert(after.outbox[f] == Act::Follow);
        }
    }
}

/// Carrying on with a script takes nothing back.
proof fn lemma_carried_on(window: WindowView, target: usize, failed: bool)
    ensures
        grows(window, script_continued(window, target, failed)),
        script_continued(window, target, failed).messages == window.messages,
        script_continued(window, target, failed).sessions == window.sessions,
        script_continued(window, target, failed).pending == window.pending,
{
    reveal(script_continued);
}

/// An answer is told in full. The place the server names is marked where the
/// statement stands in the console; the grid gets its sort back, the cursor and
/// the hop the launch asked for, and is asked again whether it can be edited; a
/// table's rows are described by the table. The history and the log hear how it
/// ended, with everything the server said besides, and the rows are the pane's
/// from then on and no longer the session's.
#[verifier::spinoff_prover]
#[verifier::rlimit(40)]
pub proof fn an_answer_is_told_in_full(
    window: WindowView,
    id: usize,
    run: RunView,
    at: int,
    now: i64,
)
    requires
        well_formed(window),
        id < window.sessions.len(),
        window.sessions[id as int].open,
        window.sessions[id as int].session.last == Some(run),
        0 <= at < window.panes.len(),
        match window.running_pane {
            Some(pane) => pane == window.panes[at].id,
            None => window.active_pane == window.panes[at].id,
        },
        ({
            let pane = window.panes[at];
            pane.active_tab < pane.tabs.len() ==> (
            pane.tabs[pane.active_tab as int].session matches Some(other) ==> other == id)
        }),
    ensures
        ({
            let asked = window.panes[at];
            let after = run_absorbed(window, id, now);
            let pane = after.panes[at];
            let count = match run.rows {
                Some(rows) => rows.count,
                None => asked.row_count,
            };
            &&& run.error is Some && run.error->Some_0.offset is Some && asked.run_origin is Some
                && asked.run_origin->Some_0 + run.error->Some_0.offset->Some_0 <= usize::MAX ==> asks(
                window,
                after,
                Act::MarkError(
                    asked.id,
                    (asked.run_origin->Some_0 + run.error->Some_0.offset->Some_0) as usize,
                ),
            )
            &&& asks(window, after, Act::FinishObject(run.error is Some))
            &&& run.rows matches Some(rows) ==> {
                &&& asks(window, after, Act::RefreshEditability(asked.id))
                &&& asked.pending_sort matches Some(sort) ==> asks(
                    window,
                    after,
                    Act::SetSort(asked.id, sort),
                )
                &&& window.pending.cell matches Some(cell) ==> asks(
                    window,
                    after,
                    Act::SetCursor(asked.id, cell.0, cell.1),
                )
                &&& window.pending.follow ==> asks(window, after, Act::Follow)
                &&& after.pending.cell is None && !after.pending.follow
                &&& pane.pending_sort is None
                &&& pane.result_index == asked.results.len() as usize
                &&& pane.results.last().elapsed == run.elapsed
                &&& pane.results.last().truncated == run.truncated
            }
            &&& window.pending_history matches Some(entry) ==> asks(
                window,
                after,
                Act::FinishRecord {
                    id: entry,
                    millis: (run.elapsed / 1_000_000) as i64,
                    count: Some(
                        match run.affected {
                            Some(count) => count as i64,
                            None => count as i64,
                        },
                    ),
                    message: match run.error {
                        Some(error) => Some(error.full_text),
                        None => None,
                    },
                },
            )
            &&& window.messages_kept > 0 ==> {
                &&& after.messages.len() > 0
                &&& after.messages.last().text == outcome_text(run, count)
                &&& after.messages.last().tone == tone_of(run.error)
                &&& after.messages.last().notices == run.notices
            }
            &&& after.sessions[id as int].session.last is Some
            &&& after.sessions[id as int].session.last->Some_0.rows is None
            &&& after.sessions[id as int].session.last->Some_0.sql == run.sql
        }),
{
    let asked = window.panes[at];
    let target = asked.id;
    let failed = run.error is Some;
    let free = freed(window, id, run);
    let told = told_so_far(free, at, run, now);
    let after = run_absorbed(window, id, now);
    lemma_told(free, at, run, now);
    lemma_steps(window, id, run, at, now);
    lemma_carried_on(told, target, failed);
    lemma_place_kept(window.panes, at, landed(asked, run), target);
    lemma_landed_kept(told, at, failed);
    lemma_asks(window, told, after, Act::FinishObject(failed));
    let mark = fault_place(asked, run.error);
    if mark is Some {
        lemma_asks(window, told, after, Act::MarkError(target, mark->Some_0));
    }
    if run.rows is Some {
        lemma_asks(window, told, after, Act::RefreshEditability(target));
        if asked.pending_sort is Some {
            lemma_asks(window, told, after, Act::SetSort(target, asked.pending_sort->Some_0));
        }
        if window.pending.cell is Some {
            let cell = window.pending.cell->Some_0;
            lemma_asks(window, told, after, Act::SetCursor(target, cell.0, cell.1));
        }
        if window.pending.follow {
            lemma_asks(window, told, after, Act::Follow);
        }
    }
    if window.pending_history is Some {
        lemma_asks(
            window,
            told,
            after,
            finishing(window.pending_history->Some_0, run, landed(asked, run).row_count),
        );
    }
}

/// The window with the rows of a run taken out of its session, and no pane
/// waiting.
spec fn freed(window: WindowView, id: usize, run: RunView) -> WindowView {
    let session = window.sessions[id as int].session;
    WindowView {
        running_pane: None,
        ..with_held(
            window,
            id,
            SessionView { last: Some(RunView { rows: None, ..run }), ..session },
        )
    }
}

/// An answer is told of, and then the script carries on.
proof fn lemma_steps(window: WindowView, id: usize, run: RunView, at: int, now: i64)
    requires
        well_formed(window),
        id < window.sessions.len(),
        window.sessions[id as int].open,
        window.sessions[id as int].session.last == Some(run),
        0 <= at < window.panes.len(),
        match window.running_pane {
            Some(pane) => pane == window.panes[at].id,
            None => window.active_pane == window.panes[at].id,
        },
        ({
            let pane = window.panes[at];
            pane.active_tab < pane.tabs.len() ==> (
            pane.tabs[pane.active_tab as int].session matches Some(other) ==> other == id)
        }),
    ensures
        place_of(window.panes, window.panes[at].id) == at,
        run_absorbed(window, id, now) == script_continued(
            told_so_far(freed(window, id, run), at, run, now),
            window.panes[at].id,
            run.error is Some,
        ),
{
    reveal(well_formed);
    reveal(told_so_far);
    reveal(run_delivered);
    let target = window.panes[at].id;
    assert forall|i: int| 0 <= i < at implies (#[trigger] window.panes[i]).id != target by {
        assert(window.panes[at].id == target);
    }
    lemma_place_of(window.panes, target, at);
}

/// What the history is told of a run.
spec fn finishing(entry: i64, run: RunView, count: usize) -> Act {
    Act::FinishRecord {
        id: entry,
        millis: (run.elapsed / 1_000_000) as i64,
        count: Some(
            match run.affected {
                Some(count) => count as i64,
                None => count as i64,
            },
        ),
        message: match run.error {
            Some(error) => Some(error.full_text),
            None => None,
        },
    }
}

/// The window once a run is in its pane and in the log, with nothing sent yet.
#[verifier::opaque]
spec fn told_so_far(window: WindowView, at: int, run: RunView, now: i64) -> WindowView {
    let asked = window.panes[at];
    let announced = rows_announced(
        with_pane(window, at, landed(asked, run)),
        asked.id,
        rows_of(window, asked),
        fault_place(asked, run.error),
        run.rows,
        asked.pending_sort,
    );
    then_do(
        then_do(
            recorded(announced, run, landed(asked, run).row_count, now),
            Act::FinishObject(run.error is Some),
        ),
        Act::Notify,
    )
}

/// What holds once a run is in its pane and in the log.
proof fn lemma_told(window: WindowView, at: int, run: RunView, now: i64)
    requires
        0 <= at < window.panes.len(),
    ensures
        ({
            let asked = window.panes[at];
            let told = told_so_far(window, at, run, now);
            let count = landed(asked, run).row_count;
            &&& grows(window, told)
            &&& told.panes == window.panes.update(at, landed(asked, run))
            &&& told.sessions == window.sessions
            &&& asks(window, told, Act::FinishObject(run.error is Some))
            &&& fault_place(asked, run.error) matches Some(place) ==> asks(
                window,
                told,
                Act::MarkError(asked.id, place),
            )
            &&& run.rows is Some ==> {
                &&& asks(window, told, Act::RefreshEditability(asked.id))
                &&& asked.pending_sort matches Some(sort) ==> asks(
                    window,
                    told,
                    Act::SetSort(asked.id, sort),
                )
                &&& window.pending.cell matches Some(cell) ==> asks(
                    window,
                    told,
                    Act::SetCursor(asked.id, cell.0, cell.1),
                )
                &&& window.pending.follow ==> asks(window, told, Act::Follow)
                &&& told.pending.cell is None && !told.pending.follow
            }
            &&& window.pending_history matches Some(entry) ==> asks(
                window,
                told,
                finishing(entry, run, count),
            )
            &&& window.messages_kept > 0 ==> {
                &&& told.messages.len() > 0
                &&& told.messages.last().text == outcome_text(run, count)
                &&& told.messages.last().tone == tone_of(run.error)
                &&& told.messages.last().notices == run.notices
            }
        }),
{
    reveal(told_so_far);
    let asked = window.panes[at];
    let target = asked.id;
    let put = with_pane(window, at, landed(asked, run));
    let described = rows_of(window, asked);
    let mark = fault_place(asked, run.error);
    lemma_said(put, target, described, mark, run.rows, asked.pending_sort);
    let announced = rows_announced(put, target, described, mark, run.rows, asked.pending_sort);
    let count = landed(asked, run).row_count;
    let written = recorded(announced, run, count, now);
    let told = told_so_far(window, at, run, now);
    assert(put.outbox == window.outbox);
    assert(grows(announced, written));
    assert(grows(written, told));
    lemma_grows(announced, written, told);
    lemma_grows(window, announced, told);
    assert(told.outbox[written.outbox.len() as int] == Act::FinishObject(run.error is Some));
    if mark is Some {
        lemma_asks(window, announced, told, Act::MarkError(target, mark->Some_0));
    }
    if run.rows is Some {
        lemma_asks(window, announced, told, Act::RefreshEditability(target));
        if asked.pending_sort is Some {
            lemma_asks(window, announced, told, Act::SetSort(target, asked.pending_sort->Some_0));
        }
        if window.pending.cell is Some {
            let cell = window.pending.cell->Some_0;
            lemma_asks(window, announced, told, Act::SetCursor(target, cell.0, cell.1));
        }
        if window.pending.follow {
            lemma_asks(window, announced, told, Act::Follow);
        }
    }
    if window.pending_history is Some {
        let finished = finishing(window.pending_history->Some_0, run, count);
        assert(written.outbox[announced.outbox.len() as int] == finished);
        assert(asks(window, written, finished));
        lemma_asks(window, written, told, finished);
    }
}

/// Carrying on with a script leaves what has landed.
proof fn lemma_landed_kept(window: WindowView, at: int, failed: bool)
    requires
        0 <= at < window.panes.len(),
        place_of(window.panes, window.panes[at].id) == at,
    ensures
        ({
            let was = window.panes[at];
            let now = script_continued(window, was.id, failed).panes[at];
            &&& now.results == was.results && now.result_index == was.result_index
            &&& now.pending_sort == was.pending_sort
        }),
{
    reveal(script_continued);
    let was = window.panes[at];
    if !failed && was.queue.len() > 0 {
        lemma_place_kept(
            window.panes,
            at,
            (PaneView { queue: was.queue.drop_first(), ..was }),
            was.id,
        );
    }
}

/// A key's rows are the pane's from then on and no longer the session's.
pub proof fn a_key_is_handed_over_once(window: WindowView, id: usize)
    requires
        id < window.sessions.len(),
        window.sessions[id as int].open,
        window.sessions[id as int].session.last_key is Some,
    ensures
        ({
            let after = key_absorbed(window, id);
            &&& after.sessions[id as int].session.last_key is Some
            &&& after.sessions[id as int].session.last_key->Some_0.rows is None
            &&& after.sessions[id as int].session.last_key->Some_0.key
                == window.sessions[id as int].session.last_key->Some_0.key
        }),
{
}

/// The log says what a transaction did, whether it was an import, how long it
/// took and, where it failed, why.
pub proof fn the_log_says_what_a_transaction_did(
    applied: AppliedView,
    note: Option<Seq<char>>,
    now: i64,
)
    ensures
        ({
            let message = commit_message(applied, note, now);
            let summary = commit_summary(applied.counts);
            &&& message.at_ms == now && message.elapsed == applied.elapsed
            &&& note is None ==> message.sql == "commit ("@ + summary + ")"@
            &&& note is Some ==> message.sql == "import ("@ + summary + ")"@
            &&& applied.error is Some ==> message.tone is Failed && message.text
                == applied.error->Some_0.full_text
            &&& applied.error is None && note is None ==> message.tone is Done && message.text
                == "Committed "@ + summary + "."@
            &&& applied.error is None && note is Some ==> message.tone is Done && message.text
                == "Imported "@ + note->Some_0 + "."@
        }),
{
}

/// Pressing the bolt does what it says: it cancels while something runs, reads
/// the catalog again over a design, asks for a table again, and otherwise runs
/// the statement that was under the caret, for the active pane.
pub proof fn pressing_the_bolt_does_what_it_says(
    window: WindowView,
    sql: Seq<char>,
    origin: usize,
)
    requires
        well_formed(window),
        window.session is Some,
        window.session->Some_0 < window.sessions.len(),
        window.sessions[window.session->Some_0 as int].open,
    ensures
        ({
            let id = window.session->Some_0;
            let session = window.sessions[id as int].session;
            let pane = active_pane(window);
            let after = bolt_pressed(window, sql, origin);
            &&& session.activity is Running ==> after.outbox == window.outbox.push(
                Act::Tell(id, OrderView::Cancel),
            ) && after.panes == window.panes
            &&& !(session.activity is Running) && session.state is Connected && pane.active_tab
                < pane.tabs.len() && pane.tabs[pane.active_tab as int].kind is Structure
                ==> after.outbox == window.outbox.push(Act::Tell(id, OrderView::Refresh))
            &&& !(session.activity is Running) && session.state is Connected && (pane.active_tab
                >= pane.tabs.len() || (!(pane.tabs[pane.active_tab as int].kind is Structure)
                && pane.tabs[pane.active_tab as int].relation is None)) ==> {
                &&& after.running_pane == Some(window.active_pane)
                &&& after.panes[here(window)].run_origin == Some(origin)
                &&& asks(window, after, Act::Tell(id, OrderView::Run(sql)))
            }
        }),
{
    crate::running_laws::a_statement_runs_in_the_active_pane(window, sql, Some(origin));
    assert(active_pane(window).id == window.active_pane);
}

} // verus!
