//! What becomes of an answer, and of the statement that asked for it.
use crate::absorbing::{
    addressee, cursor_placed, fault_place, is_elsewhere, landed, rows_announced, rows_of,
    run_absorbed, run_delivered, script_continued, with_held,
};
use crate::catalog::Rows;
use crate::lists::group_views;
use crate::outcome::{asks, asks_only, grows, lemma_asks, lemma_asks_only, lemma_grows};
use crate::pane::{PaneView, Sort};
use crate::running::{recorded, sent};
use crate::session::{RunView, SessionView};
use crate::window::{
    described, lemma_place_kept, lemma_place_of, place_of, then_do, well_formed, with_pane, Act,
    OrderView, WindowView,
};
use vstd::prelude::*;

verus! {

broadcast use group_views;

/// Whether a step tells no grid but one pane's to show anything.
spec fn only_grid(target: usize) -> spec_fn(Act) -> bool {
    |act: Act| act matches Act::SetGrid(pane, _) ==> pane == target
}

/// Whether a step shows no rows in any grid.
spec fn no_grid() -> spec_fn(Act) -> bool {
    |act: Act| !(act is SetGrid)
}

/// Whether a step sends nothing to a server.
spec fn no_order() -> spec_fn(Act) -> bool {
    |act: Act| !(act is Tell)
}

/// In a window that is in order, a pane's id finds it.
proof fn lemma_found(window: WindowView, at: int)
    requires
        well_formed(window),
        0 <= at < window.panes.len(),
    ensures
        place_of(window.panes, window.panes[at].id) == at,
{
    reveal(well_formed);
    assert forall|i: int| 0 <= i < at implies (#[trigger] window.panes[i]).id
        != window.panes[at].id by {
        assert(window.panes[at].id == window.panes[at].id);
    }
    lemma_place_of(window.panes, window.panes[at].id, at);
}

/// What the grid and the console are told of rows.
proof fn lemma_announced(
    window: WindowView,
    target: usize,
    described: Option<(Seq<char>, Seq<char>)>,
    mark: Option<usize>,
    rows: Option<Rows>,
    sort: Option<Sort>,
)
    ensures
        ({
            let after = rows_announced(window, target, described, mark, rows, sort);
            &&& after.panes == window.panes
            &&& after.active_pane == window.active_pane
            &&& after.running_pane == window.running_pane
            &&& after.sessions == window.sessions
            &&& after.session == window.session
            &&& after.messages == window.messages
            &&& after.messages_kept == window.messages_kept
            &&& after.pending_history == window.pending_history
            &&& grows(window, after)
            &&& asks_only(window, after, only_grid(target))
            &&& asks_only(window, after, no_order())
            &&& rows is None ==> asks_only(window, after, no_grid())
            &&& rows matches Some(rows) ==> asks(window, after, Act::SetGrid(target, Some(rows)))
            &&& mark matches Some(place) ==> asks(window, after, Act::MarkError(target, place))
        }),
{
    reveal(rows_announced);
    reveal(cursor_placed);
    let said = match (rows, described) {
        (Some(rows), Some(relation)) => then_do(window, Act::Describe(rows, relation)),
        _ => window,
    };
    let marked = match mark {
        Some(place) => then_do(said, Act::MarkError(target, place)),
        None => said,
    };
    let after = rows_announced(window, target, described, mark, rows, sort);
    if let Some(place) = mark {
        assert(marked.outbox[said.outbox.len() as int] == Act::MarkError(target, place));
        assert(after.outbox[said.outbox.len() as int] == Act::MarkError(target, place));
    }
    if let Some(rows) = rows {
        assert(after.outbox[marked.outbox.len() as int] == Act::SetGrid(target, Some(rows)));
    }
}

/// Sending a statement touches the pane it is for and no other.
proof fn lemma_sent(window: WindowView, at: int, sql: Seq<char>, origin: Option<usize>)
    requires
        0 <= at < window.panes.len(),
        place_of(window.panes, window.panes[at].id) == at,
    ensures
        ({
            let target = window.panes[at].id;
            let after = sent(window, target, sql, origin);
            &&& after.panes.len() == window.panes.len()
            &&& forall|i: int| 0 <= i < window.panes.len() && i != at ==> after.panes[i]
                == window.panes[i]
            &&& after.active_pane == window.active_pane
            &&& after.messages == window.messages
            &&& after.sessions == window.sessions
            &&& grows(window, after)
            &&& asks_only(window, after, no_grid())
            &&& asks_only(window, after, only_grid(target))
            &&& after.panes[at] == (PaneView {
                queue: after.panes[at].queue,
                error: after.panes[at].error,
                run_origin: after.panes[at].run_origin,
                ..window.panes[at]
            })
            &&& described(window) is Some ==> {
                &&& after.panes[at] == (PaneView { run_origin: origin, ..window.panes[at] })
                &&& after.running_pane == Some(target)
                &&& asks(window, after, Act::Tell(window.session->Some_0, OrderView::Run(sql)))
                &&& asks(
                    window,
                    after,
                    Act::Record(described(window)->Some_0.config.id, sql),
                )
                &&& asks(window, after, Act::ClearMark(target))
            }
            &&& described(window) is None ==> {
                &&& after.panes[at].error is Some
                &&& after.panes[at].queue.len() == 0
                &&& after.running_pane == window.running_pane
                &&& asks_only(window, after, no_order())
            }
        }),
{
    let target = window.panes[at].id;
    let after = sent(window, target, sql, origin);
    let n = window.outbox.len() as int;
    if described(window) is Some {
        assert(after.outbox[n] == Act::ClearMark(target));
        assert(after.outbox[n + 1] == Act::Record(described(window)->Some_0.config.id, sql));
        assert(after.outbox[n + 2] == Act::Tell(
            window.session->Some_0,
            OrderView::Run(sql),
        ));
    }
}

/// Writing a run into the log changes no pane.
proof fn lemma_recorded(window: WindowView, run: RunView, count: usize, now: i64)
    ensures
        ({
            let after = recorded(window, run, count, now);
            &&& after.panes == window.panes
            &&& after.active_pane == window.active_pane
            &&& after.running_pane == window.running_pane
            &&& after.sessions == window.sessions
            &&& after.session == window.session
            &&& grows(window, after)
            &&& asks_only(window, after, no_grid())
            &&& asks_only(window, after, no_order())
            &&& window.messages_kept > 0 ==> {
                &&& after.messages.len() > 0
                &&& after.messages.last().sql == run.sql
                &&& after.messages.last().at_ms == now
                &&& after.messages.last().elapsed == run.elapsed
                &&& run.error matches Some(error) ==> after.messages.last().text == error.full_text
            }
        }),
{
}

/// The window once a run is in its pane and in the log, with nothing sent yet.
#[verifier::opaque]
spec fn delivered_so_far(window: WindowView, at: int, run: RunView, now: i64) -> WindowView {
    let asked = window.panes[at];
    let put = with_pane(window, at, landed(asked, run));
    let announced = rows_announced(
        put,
        asked.id,
        rows_of(window, asked),
        fault_place(asked, run.error),
        run.rows,
        asked.pending_sort,
    );
    then_do(
        then_do(
            recorded(announced, run, landed(asked, run).row_count, now),
            Act::FinishObject(run.error is Some),
        ),
        Act::Notify,
    )
}

/// What holds once a run is in its pane and in the log.
proof fn lemma_delivered(window: WindowView, at: int, run: RunView, now: i64)
    requires
        0 <= at < window.panes.len(),
        window.running_pane is None,
    ensures
        ({
            let asked = window.panes[at];
            let told = delivered_so_far(window, at, run, now);
            &&& told.panes == window.panes.update(at, landed(asked, run))
            &&& told.active_pane == window.active_pane
            &&& told.running_pane is None
            &&& told.sessions == window.sessions
            &&& told.session == window.session
            &&& grows(window, told)
            &&& asks_only(window, told, only_grid(asked.id))
            &&& asks_only(window, told, no_order())
            &&& run.rows is None ==> asks_only(window, told, no_grid())
            &&& run.rows matches Some(rows) ==> asks(
                window,
                told,
                Act::SetGrid(asked.id, Some(rows)),
            )
            &&& window.messages_kept > 0 ==> {
                &&& told.messages.len() > 0
                &&& told.messages.last().sql == run.sql
                &&& told.messages.last().at_ms == now
                &&& told.messages.last().elapsed == run.elapsed
            }
        }),
{
    reveal(delivered_so_far);
    let asked = window.panes[at];
    let target = asked.id;
    let put = with_pane(window, at, landed(asked, run));
    let described = rows_of(window, asked);
    let mark = fault_place(asked, run.error);
    lemma_announced(put, target, described, mark, run.rows, asked.pending_sort);
    let announced = rows_announced(put, target, described, mark, run.rows, asked.pending_sort);
    let count = landed(asked, run).row_count;
    lemma_recorded(announced, run, count, now);
    let written = recorded(announced, run, count, now);
    let told = delivered_so_far(window, at, run, now);
    assert(grows(written, told) && asks_only(written, told, no_grid()) && asks_only(
        written,
        told,
        no_order(),
    ) && asks_only(written, told, only_grid(target)));
    assert(asks_only(announced, written, only_grid(target)));
    lemma_grows(window, announced, written);
    lemma_grows(window, written, told);
    lemma_asks_only(window, announced, written, only_grid(target));
    lemma_asks_only(window, written, told, only_grid(target));
    lemma_asks_only(window, announced, written, no_order());
    lemma_asks_only(window, written, told, no_order());
    if let Some(rows) = run.rows {
        lemma_asks(window, announced, written, Act::SetGrid(target, Some(rows)));
        lemma_asks(window, written, told, Act::SetGrid(target, Some(rows)));
    } else {
        lemma_asks_only(window, announced, written, no_grid());
        lemma_asks_only(window, written, told, no_grid());
    }
}

/// What holds once a script has carried on.
proof fn lemma_continued(told: WindowView, at: int, failed: bool)
    requires
        0 <= at < told.panes.len(),
        place_of(told.panes, told.panes[at].id) == at,
        told.running_pane is None,
    ensures
        ({
            let was = told.panes[at];
            let after = script_continued(told, was.id, failed);
            let pane = after.panes[at];
            &&& after.panes.len() == told.panes.len()
            &&& forall|i: int| 0 <= i < told.panes.len() && i != at ==> after.panes[i]
                == told.panes[i]
            &&& after.active_pane == told.active_pane
            &&& after.messages == told.messages
            &&& grows(told, after)
            &&& asks_only(told, after, no_grid())
            &&& asks_only(told, after, only_grid(was.id))
            &&& pane == (PaneView {
                queue: pane.queue,
                error: pane.error,
                run_origin: pane.run_origin,
                ..was
            })
            &&& failed || was.queue.len() == 0 ==> {
                &&& pane == (PaneView { queue: Seq::empty(), ..was })
                &&& after.running_pane is None
                &&& asks_only(told, after, no_order())
            }
            &&& !failed && was.queue.len() > 0 && crate::window::described(told) is Some ==> {
                &&& pane == (PaneView {
                    queue: was.queue.drop_first(),
                    run_origin: Some(was.queue[0].origin),
                    ..was
                })
                &&& after.running_pane == Some(was.id)
                &&& asks(
                    told,
                    after,
                    Act::Tell(told.session->Some_0, OrderView::Run(was.queue[0].sql)),
                )
            }
        }),
{
    reveal(script_continued);
    let was = told.panes[at];
    let after = script_continued(told, was.id, failed);
    if !failed && was.queue.len() > 0 {
        let rest = PaneView { queue: was.queue.drop_first(), ..was };
        let ready = with_pane(told, at, rest);
        lemma_place_kept(told.panes, at, rest, was.id);
        lemma_sent(ready, at, was.queue[0].sql, Some(was.queue[0].origin));
        assert(after == sent(ready, was.id, was.queue[0].sql, Some(was.queue[0].origin)));
        assert(told.outbox == ready.outbox);
        if crate::window::described(told) is Some {
            let act = Act::Tell(told.session->Some_0, OrderView::Run(was.queue[0].sql));
            assert(asks(ready, after, act));
            assert(asks(told, after, act));
        }
    } else if was.queue.len() == 0 {
        assert(was.queue =~= Seq::empty());
    }
}

/// A run that finished lands in the pane that asked for it, whichever pane is
/// in front by then, and in no other. With none waiting, it lands in the active
/// one. Its rows fill that pane's grid, its timing and its error are that
/// pane's, and a script that has more to say carries on from there unless the
/// statement failed.
#[verifier::spinoff_prover]
#[verifier::rlimit(60)]
pub proof fn an_answer_lands_in_the_pane_that_asked(
    window: WindowView,
    id: usize,
    run: RunView,
    at: int,
    now: i64,
)
    requires
        well_formed(window),
        id < window.sessions.len(),
        window.sessions[id as int].open,
        window.sessions[id as int].session.last == Some(run),
        0 <= at < window.panes.len(),
        match window.running_pane {
            Some(pane) => pane == window.panes[at].id,
            None => window.active_pane == window.panes[at].id,
        },
        ({
            let pane = window.panes[at];
            pane.active_tab < pane.tabs.len() ==> (
            pane.tabs[pane.active_tab as int].session matches Some(other) ==> other == id)
        }),
    ensures
        ({
            let asked = window.panes[at];
            let after = run_absorbed(window, id, now);
            let pane = after.panes[at];
            &&& after.panes.len() == window.panes.len()
            &&& forall|i: int| 0 <= i < window.panes.len() && i != at ==> after.panes[i]
                == window.panes[i]
            &&& after.active_pane == window.active_pane
            &&& grows(window, after)
            &&& forall|k: int|
                window.outbox.len() <= k < after.outbox.len() ==> (
                #[trigger] after.outbox[k] matches Act::SetGrid(shown, _) ==> shown == asked.id)
            &&& pane.id == asked.id
            &&& pane.tabs == asked.tabs
            &&& pane.active_tab == asked.active_tab
            &&& pane.console == asked.console
            &&& pane.last_sql == Some(run.sql)
            &&& pane.elapsed == Some(run.elapsed)
            &&& pane.truncated == run.truncated
            &&& pane.affected == run.affected
            &&& run.rows matches Some(rows) ==> {
                &&& pane.row_count == rows.count
                &&& pane.selected_row == (if rows.count > 0 {
                    Some(0usize)
                } else {
                    None
                })
                &&& pane.selected_column == 0
                &&& pane.results.len() == asked.results.len() + 1
                &&& pane.results.last().rows == rows
                &&& pane.results.last().sql == run.sql
                &&& pane.results.drop_last() == asked.results
                &&& asks(window, after, Act::SetGrid(asked.id, Some(rows)))
            }
            &&& run.rows is None ==> {
                &&& pane.row_count == asked.row_count
                &&& pane.results == asked.results
                &&& asks_only(window, after, |act: Act| !(act is SetGrid))
            }
            &&& run.error matches Some(error) ==> {
                &&& pane.error == Some(error)
                &&& pane.queue.len() == 0
                &&& after.running_pane is None
                &&& asks_only(window, after, |act: Act| !(act is Tell))
            }
            &&& run.error is None && asked.queue.len() == 0 ==> {
                &&& pane.error is None
                &&& pane.queue.len() == 0
                &&& after.running_pane is None
                &&& asks_only(window, after, |act: Act| !(act is Tell))
            }
            &&& run.error is None && asked.queue.len() > 0 && (window.session matches Some(session)
                && session < window.sessions.len() && window.sessions[session as int].open) ==> {
                &&& pane.error is None
                &&& pane.queue == asked.queue.drop_first()
                &&& pane.run_origin == Some(asked.queue[0].origin)
                &&& after.running_pane == Some(asked.id)
                &&& asks(
                    window,
                    after,
                    Act::Tell(window.session->Some_0, OrderView::Run(asked.queue[0].sql)),
                )
            }
            &&& window.messages_kept > 0 ==> {
                &&& after.messages.len() > 0
                &&& after.messages.last().sql == run.sql
                &&& after.messages.last().at_ms == now
                &&& after.messages.last().elapsed == run.elapsed
            }
        }),
{
    let asked = window.panes[at];
    let target = asked.id;
    lemma_found(window, at);
    let session = window.sessions[id as int].session;
    let taken = with_held(
        window,
        id,
        SessionView { last: Some(RunView { rows: None, ..run }), ..session },
    );
    let free = WindowView { running_pane: None, ..taken };
    assert(addressee(window) == target);
    assert(!is_elsewhere(window, target, id));
    assert(run_absorbed(window, id, now) == run_delivered(free, target, run, now));
    let told = delivered_so_far(free, at, run, now);
    assert(run_delivered(free, target, run, now) == script_continued(
        told,
        target,
        run.error is Some,
    )) by {
        reveal(run_delivered);
        reveal(delivered_so_far);
    }
    lemma_delivered(free, at, run, now);
    lemma_place_kept(free.panes, at, landed(asked, run), target);
    lemma_continued(told, at, run.error is Some);
    let after = script_continued(told, target, run.error is Some);
    assert(free.outbox == window.outbox);
    assert(grows(window, told) && asks_only(window, told, only_grid(target)) && asks_only(
        window,
        told,
        no_order(),
    ));
    lemma_grows(window, told, after);
    lemma_asks_only(window, told, after, only_grid(target));
    if let Some(rows) = run.rows {
        assert(asks(window, told, Act::SetGrid(target, Some(rows))));
        lemma_asks(window, told, after, Act::SetGrid(target, Some(rows)));
        assert(after.panes[at].results.drop_last() =~= asked.results);
    } else {
        assert(asks_only(window, told, no_grid()));
        lemma_asks_only(window, told, after, no_grid());
    }
    if run.error is Some || asked.queue.len() == 0 {
        lemma_asks_only(window, told, after, no_order());
    } else if crate::window::described(told) is Some {
        lemma_asks(
            window,
            told,
            after,
            Act::Tell(window.session->Some_0, OrderView::Run(asked.queue[0].sql)),
        );
    }
}

/// A run that finished for a tab that is no longer in front is written into the
/// log and shown nowhere: no pane changes, and no grid is told anything.
pub proof fn an_answer_for_another_tab_is_only_logged(
    window: WindowView,
    id: usize,
    run: RunView,
    at: int,
    now: i64,
)
    requires
        well_formed(window),
        id < window.sessions.len(),
        window.sessions[id as int].open,
        window.sessions[id as int].session.last == Some(run),
        0 <= at < window.panes.len(),
        match window.running_pane {
            Some(pane) => pane == window.panes[at].id,
            None => window.active_pane == window.panes[at].id,
        },
        ({
            let pane = window.panes[at];
            pane.active_tab < pane.tabs.len() && pane.tabs[pane.active_tab as int].session
                is Some && pane.tabs[pane.active_tab as int].session != Some(id)
        }),
    ensures
        ({
            let after = run_absorbed(window, id, now);
            &&& after.panes == window.panes
            &&& after.running_pane is None
            &&& grows(window, after)
            &&& asks_only(window, after, |act: Act| !(act is SetGrid) && !(act is Tell))
            &&& window.messages_kept > 0 ==> after.messages.len() > 0
                && after.messages.last().sql == run.sql
        }),
{
    lemma_found(window, at);
    let session = window.sessions[id as int].session;
    let taken = with_held(
        window,
        id,
        SessionView { last: Some(RunView { rows: None, ..run }), ..session },
    );
    let free = WindowView { running_pane: None, ..taken };
    let count = match run.rows {
        Some(rows) => rows.count,
        None => 0,
    };
    lemma_recorded(free, run, count, now);
    assert(is_elsewhere(window, window.panes[at].id, id));
}

} // verus!
