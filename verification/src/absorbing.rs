//! Moving what a session finished into the window.
use crate::browsing::results_refreshed;
use crate::catalog::{catalog_has, error_view, DbError, ErrorView, RelationRef, Rows};
use crate::lists::{group_views, views};
use crate::pane::{
    showing, CenterKind, Pane, PaneView, ResultView, ResultsTab, Sort, StatementResult,
};
use crate::running::{copy_texts, logged, recorded, sent, told, FinishedRun};
use crate::session::{commit_summary, AppliedView, OpenKeyView, RunView, SessionView};
use crate::showing::group_showing;
use crate::text::maybe;
use crate::window::{
    active_pane, catalog, group_window, has_pane, lemma_same_frame, place_of, session_of, then_do,
    well_formed, with_active, with_pane, Act, Effect, HeldView, MessageTone, MessageView, OrderView,
    PendingView, RunMessage, WindowView, Workspace,
};
use vstd::prelude::*;

verus! {

broadcast use group_views;

/// The window with one of its sessions changed.
pub open spec fn with_held(window: WindowView, id: usize, session: SessionView) -> WindowView {
    WindowView {
        sessions: window.sessions.update(
            id as int,
            HeldView { session, ..window.sessions[id as int] },
        ),
        ..window
    }
}

/// The pane something that finished is for: the one that asked, and the active
/// one where none did.
pub open spec fn addressee(window: WindowView) -> usize {
    match window.running_pane {
        Some(pane) => pane,
        None => window.active_pane,
    }
}

/// Whether a pane shows a tab of another session than the one something came
/// from. Tabs hold their own connections, so what arrives then is addressed to
/// a tab that is no longer in front.
pub open spec fn is_elsewhere(window: WindowView, target: usize, id: usize) -> bool {
    has_pane(window.panes, target) && match showing(
        window.panes[place_of(window.panes, target)],
    ) {
        Some(tab) => match tab.session {
            Some(session) => session != id,
            None => false,
        },
        None => false,
    }
}

/// The rows of an answer put into a pane.
pub open spec fn with_rows(pane: PaneView, rows: Rows) -> PaneView {
    PaneView {
        row_count: rows.count,
        selected_row: if rows.count > 0 {
            Some(0)
        } else {
            None
        },
        selected_column: 0,
        unsorted: None,
        ..pane
    }
}

/// A finished statement put into the pane that asked for it. Every statement
/// that returned rows keeps them, and the one that just landed is showing.
pub open spec fn landed(pane: PaneView, run: RunView) -> PaneView {
    let told = PaneView {
        last_sql: Some(run.sql),
        elapsed: Some(run.elapsed),
        truncated: run.truncated,
        affected: run.affected,
        error: run.error,
        ..pane
    };
    match run.rows {
        None => told,
        Some(rows) => PaneView {
            results: pane.results.push(
                ResultView {
                    sql: run.sql,
                    rows,
                    elapsed: run.elapsed,
                    truncated: run.truncated,
                },
            ),
            result_index: pane.results.len() as usize,
            pending_sort: None,
            ..with_rows(told, rows)
        },
    }
}

/// Where in the console the server says a statement went wrong: the place it
/// named in the statement, after the place where the statement starts.
pub open spec fn fault_place(pane: PaneView, error: Option<ErrorView>) -> Option<usize> {
    match (error, pane.run_origin) {
        (Some(error), Some(origin)) => match error.offset {
            Some(offset) => if origin + offset <= usize::MAX {
                Some((origin + offset) as usize)
            } else {
                None
            },
            None => None,
        },
        _ => None,
    }
}

/// The table the rows of a pane came out of, when they came out of one and
/// only one: a script's third answer is no table's.
pub open spec fn rows_of(window: WindowView, pane: PaneView) -> Option<(Seq<char>, Seq<char>)> {
    match (showing(pane), catalog(window)) {
        (Some(tab), Some(snapshot)) => match tab.relation {
            Some(relation) => if pane.results.len() == 0 && tab.kind is Table && catalog_has(
                snapshot,
                relation,
            ) {
                Some(relation)
            } else {
                None
            },
            None => None,
        },
        _ => None,
    }
}

/// What the launch asked for once there are rows: the cursor, and the hop.
#[verifier::opaque]
pub open spec fn cursor_placed(window: WindowView, target: usize) -> WindowView {
    let placed = match window.pending.cell {
        Some(cell) => then_do(
            WindowView { pending: PendingView { cell: None, ..window.pending }, ..window },
            Act::SetCursor(target, cell.0, cell.1),
        ),
        None => window,
    };
    if placed.pending.follow {
        then_do(
            WindowView { pending: PendingView { follow: false, ..placed.pending }, ..placed },
            Act::Follow,
        )
    } else {
        placed
    }
}

/// What is told to the grid and the console of the pane rows landed in.
#[verifier::opaque]
pub open spec fn rows_announced(
    window: WindowView,
    target: usize,
    described: Option<(Seq<char>, Seq<char>)>,
    mark: Option<usize>,
    rows: Option<Rows>,
    sort: Option<Sort>,
) -> WindowView {
    let said = match (rows, described) {
        (Some(rows), Some(relation)) => then_do(window, Act::Describe(rows, relation)),
        _ => window,
    };
    let marked = match mark {
        Some(place) => then_do(said, Act::MarkError(target, place)),
        None => said,
    };
    match rows {
        None => marked,
        Some(rows) => {
            let shown = then_do(marked, Act::SetGrid(target, Some(rows)));
            let sorted = match sort {
                Some(sort) => then_do(shown, Act::SetSort(target, sort)),
                None => shown,
            };
            cursor_placed(then_do(sorted, Act::RefreshEditability(target)), target)
        },
    }
}

/// A script carried on where it left off. A failure ends it.
#[verifier::opaque]
pub open spec fn script_continued(window: WindowView, target: usize, failed: bool) -> WindowView {
    let at = place_of(window.panes, target);
    if !has_pane(window.panes, target) {
        window
    } else {
        let pane = window.panes[at];
        if failed {
            with_pane(window, at, PaneView { queue: Seq::empty(), ..pane })
        } else if pane.queue.len() > 0 {
            sent(
                with_pane(window, at, PaneView { queue: pane.queue.drop_first(), ..pane }),
                target,
                pane.queue[0].sql,
                Some(pane.queue[0].origin),
            )
        } else {
            window
        }
    }
}

/// A finished statement delivered to the pane that asked for it.
#[verifier::opaque]
pub open spec fn run_delivered(window: WindowView, target: usize, run: RunView, now: i64) -> WindowView {
    let at = place_of(window.panes, target);
    let pane = window.panes[at];
    let put = with_pane(window, at, landed(pane, run));
    let announced = rows_announced(
        put,
        target,
        rows_of(window, pane),
        fault_place(pane, run.error),
        run.rows,
        pane.pending_sort,
    );
    let told = then_do(
        then_do(
            recorded(announced, run, landed(pane, run).row_count, now),
            Act::FinishObject(run.error is Some),
        ),
        Act::Notify,
    );
    script_continued(told, target, run.error is Some)
}

/// A finished statement moved into the window: rows to the grid, timing to the
/// status bar, outcome to the history. One that finished for a tab that is no
/// longer in front goes into the log only.
pub open spec fn run_absorbed(window: WindowView, id: usize, now: i64) -> WindowView {
    match session_of(window.sessions, id) {
        None => window,
        Some(session) => match session.last {
            None => window,
            Some(run) => {
                let taken = with_held(
                    window,
                    id,
                    SessionView { last: Some(RunView { rows: None, ..run }), ..session },
                );
                let target = addressee(window);
                let free = WindowView { running_pane: None, ..taken };
                if is_elsewhere(window, target, id) {
                    then_do(
                        recorded(
                            free,
                            run,
                            match run.rows {
                                Some(rows) => rows.count,
                                None => 0,
                            },
                            now,
                        ),
                        Act::Notify,
                    )
                } else if !has_pane(window.panes, target) {
                    free
                } else {
                    run_delivered(free, target, run, now)
                }
            },
        },
    }
}

/// A key's contents put into the pane that asked for them.
pub open spec fn key_landed(pane: PaneView, view: OpenKeyView) -> PaneView {
    let told = PaneView {
        error: view.error,
        elapsed: None,
        affected: None,
        last_sql: None,
        truncated: false,
        results: Seq::empty(),
        result_index: 0,
        unsorted: None,
        ..pane
    };
    match view.rows {
        Some(rows) => with_rows(told, rows),
        None => told,
    }
}

/// A key that was read moved into the window.
pub open spec fn key_absorbed(window: WindowView, id: usize) -> WindowView {
    match session_of(window.sessions, id) {
        None => window,
        Some(session) => match session.last_key {
            None => window,
            Some(view) => {
                let taken = with_held(
                    window,
                    id,
                    SessionView {
                        last_key: Some(OpenKeyView { rows: None, ..view }),
                        ..session
                    },
                );
                let target = addressee(window);
                let free = WindowView { running_pane: None, ..taken };
                if is_elsewhere(window, target, id) || !has_pane(window.panes, target) {
                    free
                } else {
                    let at = place_of(window.panes, target);
                    let put = with_pane(free, at, key_landed(window.panes[at], view));
                    then_do(
                        match view.rows {
                            Some(rows) => then_do(put, Act::SetGrid(target, Some(rows))),
                            None => put,
                        },
                        Act::Notify,
                    )
                }
            },
        },
    }
}

/// What the log says of a transaction.
pub open spec fn commit_message(applied: AppliedView, note: Option<Seq<char>>, now: i64) -> MessageView {
    let summary = commit_summary(applied.counts);
    MessageView {
        at_ms: now,
        sql: match note {
            Some(_) => "import ("@ + summary + ")"@,
            None => "commit ("@ + summary + ")"@,
        },
        elapsed: applied.elapsed,
        tone: match applied.error {
            Some(_) => MessageTone::Failed,
            None => MessageTone::Done,
        },
        text: match (applied.error, note) {
            (Some(error), _) => error.full_text,
            (None, Some(note)) => "Imported "@ + note + "."@,
            (None, None) => "Committed "@ + summary + "."@,
        },
        notices: Seq::empty(),
    }
}

/// A structure save answered: a failed one is forgotten and its draft stays,
/// and one that went through waits for the catalog.
pub open spec fn structure_answered(window: WindowView, failed: bool) -> WindowView {
    if failed {
        WindowView { pending_structure: None, ..window }
    } else {
        told(window, OrderView::Refresh)
    }
}

/// What follows a transaction: a structure save is answered, and the staged
/// changes of one that went through are cleared and asked for again.
#[verifier::opaque]
pub open spec fn commit_followed(window: WindowView, failed: bool) -> WindowView {
    then_do(
        if window.pending_structure is Some {
            structure_answered(window, failed)
        } else if failed {
            window
        } else {
            results_refreshed(then_do(window, Act::DiscardChanges(window.active_pane)))
        },
        Act::Notify,
    )
}

/// A finished transaction moved into the window. One that went through clears
/// the staged changes and asks again; one that failed changes nothing, because
/// it rolled back.
pub open spec fn apply_absorbed(window: WindowView, id: usize, now: i64) -> WindowView {
    match session_of(window.sessions, id) {
        None => window,
        Some(session) => match session.last_apply {
            None => window,
            Some(applied) => {
                let noted = logged(
                    WindowView { import_note: None, ..window },
                    commit_message(applied, window.import_note, now),
                );
                commit_followed(
                    with_active(noted, PaneView { error: applied.error, ..active_pane(noted) }),
                    applied.error is Some,
                )
            },
        },
    }
}

/// One of a script's answers shown again.
pub open spec fn answer_shown(window: WindowView, index: usize) -> WindowView {
    let pane = active_pane(window);
    if index >= pane.results.len() {
        window
    } else {
        let result = pane.results[index as int];
        then_do(
            then_do(
                then_do(
                    with_active(
                        window,
                        PaneView {
                            result_index: index,
                            results_tab: ResultsTab::Data,
                            elapsed: Some(result.elapsed),
                            truncated: result.truncated,
                            affected: None,
                            ..with_rows(pane, result.rows)
                        },
                    ),
                    Act::SetGrid(window.active_pane, Some(result.rows)),
                ),
                Act::RefreshEditability(window.active_pane),
            ),
            Act::Notify,
        )
    }
}

impl Pane {
    /// Put the rows of an answer in.
    fn take_in(&mut self, rows: Rows)
        ensures
            final(self)@ == with_rows(old(self)@, rows),
            final(self).tabs == old(self).tabs,
    {
        self.row_count = rows.count;
        self.selected_row = if rows.count > 0 {
            Some(0)
        } else {
            None
        };
        self.selected_column = 0;
        // A fresh answer, so the copy in the server's order is stale.
        self.unsorted = None;
        assert(self@ =~= with_rows(old(self)@, rows));
    }

    /// Put a finished statement in.
    fn land(&mut self, run: &FinishedRun)
        ensures
            final(self)@ == landed(old(self)@, run@),
    {
        self.last_sql = Some(run.sql.clone());
        self.elapsed = Some(run.elapsed);
        self.truncated = run.truncated;
        self.affected = run.affected;
        self.error = copy_error(&run.error);
        if let Some(rows) = run.rows {
            self.take_in(rows);
            self.result_index = self.results.len();
            self.results.push(
                StatementResult {
                    sql: run.sql.clone(),
                    rows,
                    elapsed: run.elapsed,
                    truncated: run.truncated,
                },
            );
            self.pending_sort = None;
        }
        assert(self@ =~= landed(old(self)@, run@));
    }

    /// Where in the console the server says a statement went wrong.
    fn fault(&self, error: &Option<DbError>) -> (place: Option<usize>)
        ensures
            place == fault_place(self@, error_view(*error)),
    {
        match (error, self.run_origin) {
            (Some(error), Some(origin)) => match error.offset {
                Some(offset) => origin.checked_add(offset),
                None => None,
            },
            _ => None,
        }
    }
}

/// What the log says of a transaction.
fn commit_entry(
    summary: &String,
    elapsed: u128,
    error: &Option<DbError>,
    note: &Option<String>,
    now: i64,
) -> (message: RunMessage)
    ensures
        forall|applied: AppliedView|
            commit_summary(applied.counts) == summary@ && applied.elapsed == elapsed
                && applied.error == error_view(*error) ==> message@ == #[trigger] commit_message(
                applied,
                maybe(*note),
                now,
            ),
{
    let mut sql = if note.is_some() {
        "import (".to_owned()
    } else {
        "commit (".to_owned()
    };
    sql.append(summary.as_str());
    sql.append(")");
    let text = match error {
        Some(error) => error.full_text.clone(),
        None => match note {
            Some(note) => {
                let mut text = "Imported ".to_owned();
                text.append(note.as_str());
                text.append(".");
                text
            },
            None => {
                let mut text = "Committed ".to_owned();
                text.append(summary.as_str());
                text.append(".");
                text
            },
        },
    };
    let tone = if error.is_some() {
        MessageTone::Failed
    } else {
        MessageTone::Done
    };
    let message = RunMessage { at_ms: now, sql, elapsed, tone, text, notices: Vec::new() };
    assert(message@.notices =~= Seq::empty());
    message
}

/// A copy of an error.
fn copy_error(error: &Option<DbError>) -> (copy: Option<DbError>)
    ensures
        error_view(copy) == error_view(*error),
{
    match error {
        Some(error) => Some(error.clone()),
        None => None,
    }
}

impl Workspace {
    /// Take the last run of a session, its rows included.
    fn take_run(&mut self, id: usize) -> (run: Option<FinishedRun>)
        ensures
            match session_of(old(self)@.sessions, id) {
                Some(session) => match session.last {
                    Some(last) => run matches Some(run) && run@ == last && final(self)@
                        == with_held(
                        old(self)@,
                        id,
                        (SessionView { last: Some(RunView { rows: None, ..last }), ..session }),
                    ),
                    None => run is None && final(self)@ == old(self)@,
                },
                None => run is None && final(self)@ == old(self)@,
            },
    {
        if id >= self.sessions.len() || !self.sessions[id].open {
            return None;
        }
        let ghost before = self.sessions@;
        assert(self@.sessions[id as int] == before[id as int]@);
        let run = match &self.sessions[id].session.last {
            Some(run) => FinishedRun {
                sql: run.sql.clone(),
                elapsed: run.elapsed,
                rows: run.rows,
                truncated: run.truncated,
                affected: run.affected,
                error: copy_error(&run.error),
                notices: copy_texts(&run.notices),
            },
            None => {
                return None;
            },
        };
        self.sessions[id].session.take_rows();
        assert(self.sessions@ =~= before.update(id as int, self.sessions@[id as int]));
        proof {
            let session = before[id as int].session@;
            assert(self@ =~= with_held(
                old(self)@,
                id,
                (SessionView {
                    last: Some(RunView { rows: None, ..session.last->Some_0 }),
                    ..session
                }),
            ));
        }
        Some(run)
    }

    /// Whether a pane shows a tab of another session.
    fn elsewhere(&self, target: usize, id: usize) -> (answer: bool)
        ensures
            answer == is_elsewhere(self@, target, id),
    {
        let at = self.find(target);
        if at >= self.panes.len() {
            return false;
        }
        match self.panes[at].active() {
            Some(tab) => match tab.session {
                Some(session) => session != id,
                None => false,
            },
            None => false,
        }
    }

    /// The table the rows of a pane came out of.
    fn source_of(&self, at: usize) -> (relation: Option<RelationRef>)
        requires
            at < self.panes@.len(),
        ensures
            crate::window::name(relation) == rows_of(self@, self@.panes[at as int]),
    {
        assert(self@.panes[at as int] == self.panes@[at as int]@);
        if self.panes[at].results.len() > 0 {
            return None;
        }
        match self.panes[at].active() {
            Some(tab) => {
                if tab.kind != CenterKind::Table {
                    return None;
                }
                match &tab.relation {
                    Some(relation) => match self.described() {
                        Some(session) => match &session.snapshot {
                            Some(snapshot) => if snapshot.has(relation) {
                                Some(relation.clone())
                            } else {
                                None
                            },
                            None => None,
                        },
                        None => None,
                    },
                    None => None,
                }
            },
            None => None,
        }
    }

    /// Do what the launch asked for once there are rows.
    fn place_cursor(&mut self, target: usize)
        ensures
            final(self)@ == cursor_placed(old(self)@, target),
    {
        reveal(cursor_placed);
        if let Some((row, col)) = self.pending.cell {
            // Once: a second statement in the same script is not the one that
            // was meant.
            self.pending.cell = None;
            assert(self@ =~= (WindowView {
                pending: PendingView { cell: None, ..old(self)@.pending },
                ..old(self)@
            }));
            self.say(Effect::SetCursor(target, row, col));
        }
        let ghost placed = self@;
        if self.pending.follow {
            self.pending.follow = false;
            assert(self@ =~= (WindowView {
                pending: PendingView { follow: false, ..placed.pending },
                ..placed
            }));
            self.say(Effect::Follow);
        }
    }

    /// Tell the grid and the console of a pane what landed in it.
    fn announce(
        &mut self,
        target: usize,
        described: Option<RelationRef>,
        mark: Option<usize>,
        rows: Option<Rows>,
        sort: Option<Sort>,
    )
        ensures
            final(self)@ == rows_announced(
                old(self)@,
                target,
                crate::window::name(described),
                mark,
                rows,
                sort,
            ),
    {
        reveal(rows_announced);
        if let Some(rows) = rows {
            if let Some(relation) = described {
                self.say(Effect::Describe(rows, relation));
            }
        }
        // Under the character the server named, so the next thing typed is a
        // fix rather than a hunt.
        if let Some(place) = mark {
            self.say(Effect::MarkError(target, place));
        }
        if let Some(rows) = rows {
            self.say(Effect::SetGrid(target, Some(rows)));
            if let Some(sort) = sort {
                self.say(Effect::SetSort(target, sort));
            }
            self.say(Effect::RefreshEditability(target));
            self.place_cursor(target);
        }
    }

    /// Carry a script on where it left off.
    fn continue_script(&mut self, target: usize, failed: bool)
        ensures
            final(self)@ == script_continued(old(self)@, target, failed),
    {
        reveal(script_continued);
        let at = self.find(target);
        if at >= self.panes.len() {
            return ;
        }
        let ghost before = self.panes@;
        assert(self@.panes[at as int] == before[at as int]@);
        if failed {
            self.panes[at].queue = Vec::new();
            assert(self.panes@ =~= before.update(at as int, self.panes@[at as int]));
            assert(self@ =~= script_continued(old(self)@, target, failed));
            return ;
        }
        if self.panes[at].queue.len() > 0 {
            let ghost queue = before[at as int].queue@;
            let next = self.panes[at].queue.remove(0);
            assert(self.panes@ =~= before.update(at as int, self.panes@[at as int]));
            assert(views(self.panes@[at as int].queue@) =~= views(queue).drop_first());
            assert(views(queue)[0] == queue[0]@);
            assert(self@ =~= with_pane(
                old(self)@,
                at as int,
                (PaneView {
                    queue: old(self)@.panes[at as int].queue.drop_first(),
                    ..old(self)@.panes[at as int]
                }),
            ));
            self.run_at(target, next.sql, Some(next.origin));
        }
    }

    /// Deliver a finished statement to the pane that asked for it.
    fn deliver_run(&mut self, target: usize, run: &FinishedRun, now: i64)
        requires
            has_pane(old(self)@.panes, target),
        ensures
            final(self)@ == run_delivered(old(self)@, target, run@, now),
    {
        reveal(run_delivered);
        let at = self.find(target);
        let ghost before = self.panes@;
        let ghost pane = self@.panes[at as int];
        assert(pane == before[at as int]@);
        let described = self.source_of(at);
        let mark = self.panes[at].fault(&run.error);
        let sort = self.panes[at].pending_sort;
        self.panes[at].land(run);
        assert(self.panes@ =~= before.update(at as int, self.panes@[at as int]));
        assert(self@ =~= with_pane(old(self)@, at as int, landed(pane, run@)));
        let row_count = self.panes[at].row_count;
        self.announce(target, described, mark, run.rows, sort);
        self.record_run(run, row_count, now);
        // A rename, a truncate or a drop has consequences past the log, and
        // this is the first moment it is known whether the server did it.
        self.say(Effect::FinishObject(run.error.is_some()));
        self.say(Effect::Notify);
        self.continue_script(target, run.error.is_some());
    }

    /// Move a finished statement's result into the window.
    pub fn absorb_run(&mut self, id: usize, now: i64)
        ensures
            final(self)@ == run_absorbed(old(self)@, id, now),
            well_formed(old(self)@) ==> well_formed(final(self)@),
    {
        proof {
            if well_formed(self@) {
                crate::window_laws::a_finished_statement_keeps_the_window_in_order(self@, id, now);
            }
        }
        let Some(run) = self.take_run(id) else {
            return ;
        };
        let ghost taken = self@;
        // Into the pane that asked, not the pane that happens to be active.
        let target = match self.running_pane {
            Some(pane) => pane,
            None => self.active_pane,
        };
        self.running_pane = None;
        assert(self@ =~= (WindowView { running_pane: None, ..taken }));
        if self.elsewhere(target, id) {
            let row_count = match run.rows {
                Some(rows) => rows.count,
                None => 0,
            };
            self.record_run(&run, row_count, now);
            self.say(Effect::Notify);
            return ;
        }
        if self.find(target) >= self.panes.len() {
            return ;
        }
        self.deliver_run(target, &run, now);
    }

    /// Move an opened key's contents into the pane that asked for it.
    pub fn absorb_key(&mut self, id: usize)
        ensures
            final(self)@ == key_absorbed(old(self)@, id),
            well_formed(old(self)@) ==> well_formed(final(self)@),
    {
        proof {
            if well_formed(self@) {
                crate::window_laws::a_read_key_keeps_the_window_in_order(self@, id);
            }
        }
        let Some((rows, error)) = self.take_key(id) else {
            return ;
        };
        let ghost taken = self@;
        let target = match self.running_pane {
            Some(pane) => pane,
            None => self.active_pane,
        };
        self.running_pane = None;
        assert(self@ =~= (WindowView { running_pane: None, ..taken }));
        let at = self.find(target);
        if self.elsewhere(target, id) || at >= self.panes.len() {
            return ;
        }
        let ghost free = self@;
        let ghost before = self.panes@;
        let ghost pane = self@.panes[at as int];
        assert(pane == before[at as int]@);
        self.panes[at].land_key(rows, error);
        assert(self.panes@ =~= before.update(at as int, self.panes@[at as int]));
        proof {
            let view = session_of(old(self)@.sessions, id)->Some_0.last_key->Some_0;
            assert(self@ =~= with_pane(free, at as int, key_landed(pane, view)));
        }
        if let Some(rows) = rows {
            self.say(Effect::SetGrid(target, Some(rows)));
        }
        self.say(Effect::Notify);
    }

    /// Take the contents of the last key of a session.
    fn take_key(&mut self, id: usize) -> (found: Option<(Option<Rows>, Option<DbError>)>)
        ensures
            match session_of(old(self)@.sessions, id) {
                Some(session) => match session.last_key {
                    Some(view) => found matches Some(found) && found.0 == view.rows
                        && error_view(found.1) == view.error && final(self)@ == with_held(
                        old(self)@,
                        id,
                        (SessionView {
                            last_key: Some(OpenKeyView { rows: None, ..view }),
                            ..session
                        }),
                    ),
                    None => found is None && final(self)@ == old(self)@,
                },
                None => found is None && final(self)@ == old(self)@,
            },
    {
        if id >= self.sessions.len() || !self.sessions[id].open {
            return None;
        }
        let ghost before = self.sessions@;
        assert(self@.sessions[id as int] == before[id as int]@);
        if self.sessions[id].session.last_key.is_none() {
            return None;
        }
        let found = self.sessions[id].session.take_key();
        assert(self.sessions@ =~= before.update(id as int, self.sessions@[id as int]));
        proof {
            let session = before[id as int].session@;
            assert(self@ =~= with_held(
                old(self)@,
                id,
                (SessionView {
                    last_key: Some(
                        OpenKeyView { rows: None, ..session.last_key->Some_0 },
                    ),
                    ..session
                }),
            ));
        }
        found
    }

    /// The last transaction of a session, in what the log needs of it.
    fn last_commit(&self, id: usize) -> (found: Option<(String, u128, Option<DbError>)>)
        ensures
            match session_of(self@.sessions, id) {
                Some(session) => match session.last_apply {
                    Some(applied) => found matches Some(found) && found.0@ == commit_summary(
                        applied.counts,
                    ) && found.1 == applied.elapsed && error_view(found.2) == applied.error,
                    None => found is None,
                },
                None => found is None,
            },
    {
        match self.session_at(id) {
            Some(session) => match &session.last_apply {
                Some(applied) => Some(
                    (applied.summary(), applied.elapsed, copy_error(&applied.error)),
                ),
                None => None,
            },
            None => None,
        }
    }

    /// Take what the transaction in flight is, when it is an import.
    fn take_note(&mut self) -> (note: Option<String>)
        requires
            well_formed(old(self)@),
        ensures
            maybe(note) == old(self)@.import_note,
            final(self)@ == (WindowView { import_note: None, ..old(self)@ }),
            well_formed(final(self)@),
    {
        let note = self.import_note.take();
        assert(self@ =~= (WindowView { import_note: None, ..old(self)@ }));
        proof {
            lemma_same_frame(self@, old(self)@);
        }
        note
    }

    /// Have the active pane say what went wrong, or that nothing did.
    fn set_error(&mut self, error: Option<DbError>)
        requires
            well_formed(old(self)@),
        ensures
            final(self)@ == with_active(
                old(self)@,
                (PaneView { error: error_view(error), ..active_pane(old(self)@) }),
            ),
            well_formed(final(self)@),
    {
        broadcast use group_window;

        let at = self.active_at();
        let ghost before = *self;
        self.panes[at].error = error;
        assert(self.panes@ =~= before.panes@.update(at as int, self.panes@[at as int]));
        proof {
            Self::lemma_pane_changed(before, *self, at as int);
        }
        assert(self.panes@[at as int]@ =~= (PaneView {
            error: error_view(error),
            ..active_pane(old(self)@)
        }));
    }

    /// Move a finished transaction into the window.
    pub fn absorb_apply(&mut self, id: usize, now: i64)
        requires
            well_formed(old(self)@),
        ensures
            final(self)@ == apply_absorbed(old(self)@, id, now),
            well_formed(final(self)@),
    {
        proof {
            crate::window_laws::a_finished_transaction_keeps_the_window_in_order(self@, id, now);
        }
        let Some((summary, elapsed, error)) = self.last_commit(id) else {
            return ;
        };
        let failed = error.is_some();
        let note = self.take_note();
        let ghost free = self@;
        let message = commit_entry(&summary, elapsed, &error, &note, now);
        self.log(message);
        proof {
            lemma_same_frame(self@, free);
        }
        self.set_error(error);
        self.follow_commit(failed);
    }

    /// What follows a transaction. A structure save comes back through the
    /// same door as a grid commit, but nothing after this point is about it.
    fn follow_commit(&mut self, failed: bool)
        requires
            well_formed(old(self)@),
        ensures
            final(self)@ == commit_followed(old(self)@, failed),
    {
        broadcast use group_window;

        reveal(commit_followed);
        if self.finish_structure(failed) {
            self.say(Effect::Notify);
            return ;
        }
        if !failed {
            self.say(Effect::DiscardChanges(self.active_pane));
            self.refresh_results();
        }
        self.say(Effect::Notify);
    }

    /// A structure save has come back. Returns whether there was one.
    fn finish_structure(&mut self, failed: bool) -> (was_one: bool)
        ensures
            was_one == (old(self)@.pending_structure is Some),
            final(self)@ == if was_one {
                structure_answered(old(self)@, failed)
            } else {
                old(self)@
            },
    {
        if self.pending_structure.is_none() {
            return false;
        }
        if failed {
            self.pending_structure = None;
            assert(self@ =~= structure_answered(old(self)@, failed));
        } else {
            self.refresh_schema();
        }
        true
    }

    /// Show one of a script's answers.
    pub fn show_result(&mut self, index: usize)
        requires
            well_formed(old(self)@),
        ensures
            final(self)@ == answer_shown(old(self)@, index),
            well_formed(final(self)@),
    {
        broadcast use {group_window, group_showing};

        let at = self.active_at();
        if index >= self.panes[at].results.len() {
            return ;
        }
        let ghost before = *self;
        let ghost pane = active_pane(self@);
        assert(pane.results[index as int] == self.panes@[at as int].results@[index as int]@);
        let rows = self.panes[at].results[index].rows;
        self.panes[at].show_answer(index);
        assert(self.panes@ =~= before.panes@.update(at as int, self.panes@[at as int]));
        proof {
            Self::lemma_pane_changed(before, *self, at as int);
        }
        self.say(Effect::SetGrid(self.active_pane, Some(rows)));
        self.say(Effect::RefreshEditability(self.active_pane));
        self.say(Effect::Notify);
    }
}

impl Pane {
    /// Show one of the answers again.
    fn show_answer(&mut self, index: usize)
        requires
            index < old(self).results@.len(),
        ensures
            final(self)@ == ({
                let result = old(self)@.results[index as int];
                PaneView {
                    result_index: index,
                    results_tab: ResultsTab::Data,
                    elapsed: Some(result.elapsed),
                    truncated: result.truncated,
                    affected: None,
                    ..with_rows(old(self)@, result.rows)
                }
            }),
    {
        assert(self@.results[index as int] == self.results@[index as int]@);
        let rows = self.results[index].rows;
        let elapsed = self.results[index].elapsed;
        let truncated = self.results[index].truncated;
        self.take_in(rows);
        self.result_index = index;
        self.results_tab = ResultsTab::Data;
        self.elapsed = Some(elapsed);
        self.truncated = truncated;
        self.affected = None;
        assert(self@ =~= (PaneView {
            result_index: index,
            results_tab: ResultsTab::Data,
            elapsed: Some(elapsed),
            truncated,
            affected: None,
            ..with_rows(old(self)@, rows)
        }));
    }

    /// Put a key's contents in.
    fn land_key(&mut self, rows: Option<Rows>, error: Option<DbError>)
        ensures
            forall|view: OpenKeyView|
                view.rows == rows && view.error == error_view(error) ==> final(self)@
                    == #[trigger] key_landed(old(self)@, view),
    {
        self.error = error;
        self.elapsed = None;
        self.affected = None;
        self.last_sql = None;
        self.truncated = false;
        self.results = Vec::new();
        self.result_index = 0;
        self.unsorted = None;
        if let Some(rows) = rows {
            self.take_in(rows);
        }
        assert forall|view: OpenKeyView|
            view.rows == rows && view.error == error_view(error) implies self@
            == #[trigger] key_landed(old(self)@, view) by {
            assert(self@ =~= key_landed(old(self)@, view));
        }
    }
}

} // verus!
