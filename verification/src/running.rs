//! Sending statements, and moving what comes back into the window.
use crate::catalog::{error_view, worded, DbError, ErrorClass, ErrorView, Rows};
use crate::lists::{group_views, views};
use crate::pane::{batch_started, CenterKind, PaneView, Queued, QueuedView};
use crate::session::{Activity, RunView};
use crate::text::texts;
use crate::window::{
    active_pane, active_tab, described, group_window, has_pane, place_of, then_do, well_formed,
    with_active, with_pane, Act, Effect, MessageTone, MessageView, Order, OrderView,
    RunMessage, WindowView, Workspace,
};
use crate::wording::{count_of, count_text, grouped, thousands};
use vstd::prelude::*;

verus! {

broadcast use group_views;

/// The answers of a pane's last run forgotten, if the pane is there.
pub open spec fn batch_starts(window: WindowView, target: usize) -> WindowView {
    let at = place_of(window.panes, target);
    if has_pane(window.panes, target) {
        with_pane(window, at, batch_started(window.panes[at]))
    } else {
        window
    }
}

/// A statement sent to the server of the window's session, for a pane. Without
/// a session the pane says so, and whatever was queued behind it goes.
pub open spec fn sent(
    window: WindowView,
    target: usize,
    sql: Seq<char>,
    origin: Option<usize>,
) -> WindowView {
    let at = place_of(window.panes, target);
    match described(window) {
        None => {
            let told = if has_pane(window.panes, target) {
                with_pane(
                    window,
                    at,
                    PaneView {
                        queue: Seq::empty(),
                        error: Some(
                            worded(
                                ErrorClass::Connection,
                                "Not connected. Choose a connection in the sidebar."@,
                            ),
                        ),
                        ..window.panes[at]
                    },
                )
            } else {
                window
            };
            then_do(told, Act::Notify)
        },
        Some(session) => {
            let running = WindowView { running_pane: Some(target), ..window };
            if has_pane(window.panes, target) {
                let marked = then_do(
                    with_pane(
                        running,
                        at,
                        PaneView { run_origin: origin, ..window.panes[at] },
                    ),
                    Act::ClearMark(target),
                );
                let recorded = then_do(
                    WindowView { pending_history: None, ..marked },
                    Act::Record(session.config.id, sql),
                );
                then_do(
                    then_do(
                        recorded,
                        Act::Tell(window.session->Some_0, OrderView::Run(sql)),
                    ),
                    Act::Notify,
                )
            } else {
                running
            }
        },
    }
}

/// A statement run on its own in the active pane: it abandons whatever a
/// script had queued.
pub open spec fn ran_alone(window: WindowView, sql: Seq<char>, origin: Option<usize>) -> WindowView {
    sent(batch_starts(window, window.active_pane), window.active_pane, sql, origin)
}

/// A script run in the active pane: its first statement is sent, and the rest
/// wait their turn.
pub open spec fn ran_all(window: WindowView, statements: Seq<QueuedView>) -> WindowView {
    if statements.len() == 0 {
        window
    } else {
        let started = batch_starts(window, window.active_pane);
        let queued = with_active(
            started,
            PaneView { queue: statements.drop_first(), ..active_pane(started) },
        );
        sent(queued, window.active_pane, statements[0].sql, Some(statements[0].origin))
    }
}

/// What the bolt means on the tab that is open.
#[derive(Clone, Copy, PartialEq, Eq, Structural, Debug)]
pub enum RunAction {
    Run,
    Cancel,
    Reload,
    Offline,
}

/// Whether a statement is in flight.
pub open spec fn is_running(window: WindowView) -> bool {
    match described(window) {
        Some(session) => session.activity == Activity::Running,
        None => false,
    }
}

/// Whether there is a live connection to send a statement down.
pub open spec fn is_connected(window: WindowView) -> bool {
    match described(window) {
        Some(session) => session.state is Connected,
        None => false,
    }
}

/// What the bolt means: cancel while something runs, nothing without a server,
/// asking again on a tab that has no statement of its own, and otherwise run.
pub open spec fn action_of(window: WindowView) -> RunAction {
    if is_running(window) {
        RunAction::Cancel
    } else if !is_connected(window) {
        RunAction::Offline
    } else {
        match active_tab(window) {
            Some(tab) => if tab.kind is Structure || tab.relation is Some {
                RunAction::Reload
            } else {
                RunAction::Run
            },
            None => RunAction::Run,
        }
    }
}

/// Something for the window's session to do, if it has one.
pub open spec fn told(window: WindowView, order: OrderView) -> WindowView {
    match window.session {
        Some(session) => then_do(window, Act::Tell(session, order)),
        None => window,
    }
}

/// The last of the messages that are kept.
pub open spec fn kept(messages: Seq<MessageView>, limit: usize) -> Seq<MessageView> {
    if messages.len() > limit {
        messages.skip(messages.len() - limit)
    } else {
        messages
    }
}

/// The window with one more message in its log.
pub open spec fn logged(window: WindowView, message: MessageView) -> WindowView {
    WindowView { messages: kept(window.messages.push(message), window.messages_kept), ..window }
}

/// What a finished statement came to, in the words of the log.
pub open spec fn outcome_text(run: RunView, row_count: usize) -> Seq<char> {
    match run.error {
        Some(error) => error.full_text,
        None => match run.affected {
            Some(count) => count_text(count as usize as nat, "row"@) + " affected"@,
            None => if run.truncated {
                grouped(row_count as nat, ',') + "+ rows (row cap reached)"@
            } else {
                count_text(row_count as nat, "row"@)
            },
        },
    }
}

/// How a finished statement ended.
pub open spec fn tone_of(error: Option<ErrorView>) -> MessageTone {
    match error {
        Some(error) => if error.canceled {
            MessageTone::Canceled
        } else {
            MessageTone::Failed
        },
        None => MessageTone::Done,
    }
}

/// One finished statement written into the log, and into the history row that
/// was opened for it.
pub open spec fn recorded(
    window: WindowView,
    run: RunView,
    row_count: usize,
    now: i64,
) -> WindowView {
    let written = logged(
        window,
        MessageView {
            at_ms: now,
            sql: run.sql,
            elapsed: run.elapsed,
            tone: tone_of(run.error),
            text: outcome_text(run, row_count),
            notices: run.notices,
        },
    );
    match window.pending_history {
        Some(id) => then_do(
            then_do(
                WindowView { pending_history: None, ..written },
                Act::FinishRecord {
                    id,
                    millis: (run.elapsed / 1_000_000) as i64,
                    count: match run.affected {
                        Some(count) => Some(count as i64),
                        None => Some(row_count as i64),
                    },
                    message: match run.error {
                        Some(error) => Some(error.full_text),
                        None => None,
                    },
                },
            ),
            Act::ReloadLists,
        ),
        None => written,
    }
}

impl Workspace {
    /// Forget the last run's answers of a pane, because a new one is starting.
    pub(crate) fn start_batch(&mut self, target: usize)
        ensures
            final(self)@ == batch_starts(old(self)@, target),
            final(self).panes@.len() == old(self).panes@.len(),
    {
        let at = self.find(target);
        if at < self.panes.len() {
            let ghost before = self.panes@;
            self.panes[at].start_batch();
            assert(self.panes@ =~= before.update(at as int, self.panes@[at as int]));
            assert(self@ =~= batch_starts(old(self)@, target));
        }
    }

    /// The one path to the server, for a named pane and a known origin.
    pub(crate) fn run_at(&mut self, target: usize, sql: String, origin: Option<usize>)
        ensures
            final(self)@ == sent(old(self)@, target, sql@, origin),
    {
        let at = self.find(target);
        let connection = match self.described() {
            Some(session) => Some(session.config.id),
            None => None,
        };
        let ghost before = self.panes@;
        match (connection, self.session) {
            (Some(connection), Some(id)) => {
                self.running_pane = Some(target);
                if at >= self.panes.len() {
                    return ;
                }
                // A new run, so the last one's mark goes.
                self.panes[at].run_origin = origin;
                assert(self.panes@ =~= before.update(at as int, self.panes@[at as int]));
                assert(self@ =~= with_pane(
                    WindowView { running_pane: Some(target), ..old(self)@ },
                    at as int,
                    PaneView { run_origin: origin, ..old(self)@.panes[at as int] },
                ));
                self.say(Effect::ClearMark(target));
                // Recorded before it is sent, so a statement that never comes
                // back is still in the history afterwards.
                self.pending_history = None;
                self.say(Effect::Record(connection, sql.clone()));
                self.say(Effect::Tell(id, Order::Run(sql)));
                self.say(Effect::Notify);
            },
            _ => {
                if at < self.panes.len() {
                    self.panes[at].queue = Vec::new();
                    self.panes[at].error = Some(
                        DbError::connection("Not connected. Choose a connection in the sidebar."),
                    );
                    assert(self.panes@ =~= before.update(at as int, self.panes@[at as int]));
                }
                self.say(Effect::Notify);
                assert(self@ =~= sent(old(self)@, target, sql@, origin));
            },
        }
    }

    /// Execute a statement in the active pane.
    pub fn run(&mut self, sql: String)
        ensures
            final(self)@ == ran_alone(old(self)@, sql@, None),
            well_formed(old(self)@) ==> well_formed(final(self)@),
    {
        proof {
            if well_formed(self@) {
                crate::window_laws::running_keeps_the_window_in_order(self@, sql@, None, Seq::empty());
            }
        }
        // A statement run on its own abandons whatever a script had queued:
        // two scripts interleaving down one connection would be nobody's idea
        // of what those keys do.
        let target = self.active_pane;
        self.start_batch(target);
        self.run_at(target, sql, None);
    }

    /// Run what the console is pointing at, which starts at `origin` in it.
    pub fn run_console(&mut self, sql: String, origin: usize)
        ensures
            final(self)@ == ran_alone(old(self)@, sql@, Some(origin)),
            well_formed(old(self)@) ==> well_formed(final(self)@),
    {
        proof {
            if well_formed(self@) {
                crate::window_laws::running_keeps_the_window_in_order(self@, sql@, Some(origin), Seq::empty());
            }
        }
        let target = self.active_pane;
        self.start_batch(target);
        self.run_at(target, sql, Some(origin));
    }

    /// Run every statement of a script in order, stopping at the first failure.
    ///
    /// They go one at a time rather than as one text: a server prepares a
    /// single statement, and a script sent whole comes back as a syntax error
    /// at the first semicolon.
    pub fn run_console_all(&mut self, statements: Vec<Queued>)
        requires
            well_formed(old(self)@),
        ensures
            final(self)@ == ran_all(old(self)@, views(statements@)),
            well_formed(final(self)@),
    {
        proof {
            crate::window_laws::running_keeps_the_window_in_order(self@, Seq::empty(), None, views(statements@));
        }
        broadcast use group_window;

        if statements.len() == 0 {
            return ;
        }
        let mut queue = statements;
        let ghost all = queue@;
        let first = queue.remove(0);
        assert(views(queue@) =~= views(all).drop_first());
        let target = self.active_pane;
        self.start_batch(target);
        let ghost started = self@;
        let ghost before = self.panes@;
        assert(started == with_active(old(self)@, batch_started(active_pane(old(self)@))));
        let at = self.active_at();
        self.panes[at].queue = queue;
        assert(self.panes@ =~= before.update(at as int, self.panes@[at as int]));
        assert(self@ =~= with_active(
            started,
            PaneView { queue: views(all).drop_first(), ..active_pane(started) },
        ));
        self.run_at(target, first.sql, Some(first.origin));
    }

    /// Whether a statement is in flight.
    pub fn is_running(&self) -> (answer: bool)
        ensures
            answer == is_running(self@),
    {
        match self.described() {
            Some(session) => session.activity == Activity::Running,
            None => false,
        }
    }

    /// Whether there is a live connection to send a statement down.
    pub fn is_connected(&self) -> (answer: bool)
        ensures
            answer == is_connected(self@),
    {
        match self.described() {
            Some(session) => session.state.is_connected(),
            None => false,
        }
    }

    /// Which pane is waiting on the server, if any.
    pub fn running_pane(&self) -> (pane: Option<usize>)
        ensures
            pane == self@.running_pane,
    {
        self.running_pane
    }

    /// What the bolt means on the tab that is open.
    ///
    /// A query tab has a statement to send. A browsed table does not: the only
    /// thing "run" can mean there is to ask for its rows again. A structure
    /// editor is looking at the catalog, so its "again" is a catalog read.
    pub fn run_action(&self) -> (action: RunAction)
        requires
            well_formed(self@),
        ensures
            action == action_of(self@),
    {
        broadcast use group_window;

        if self.is_running() {
            return RunAction::Cancel;
        }
        if !self.is_connected() {
            return RunAction::Offline;
        }
        let at = self.active_at();
        match self.panes[at].active() {
            Some(tab) => if tab.kind == CenterKind::Structure || tab.relation.is_some() {
                RunAction::Reload
            } else {
                RunAction::Run
            },
            None => RunAction::Run,
        }
    }

    /// Have the window's session do something, if it has one.
    pub(crate) fn tell(&mut self, order: Order)
        ensures
            final(self)@ == told(old(self)@, order@),
            well_formed(final(self)@) == well_formed(old(self)@),
    {
        broadcast use group_window;

        if let Some(session) = self.session {
            self.say(Effect::Tell(session, order));
        }
    }

    /// Stop whatever is running, on the server as well as here.
    pub fn cancel(&mut self)
        ensures
            final(self)@ == told(old(self)@, OrderView::Cancel),
            well_formed(final(self)@) == well_formed(old(self)@),
    {
        self.tell(Order::Cancel);
    }

    /// Re-read the catalog of the open connection.
    pub fn refresh_schema(&mut self)
        ensures
            final(self)@ == told(old(self)@, OrderView::Refresh),
            well_formed(final(self)@) == well_formed(old(self)@),
    {
        self.tell(Order::Refresh);
    }

    /// Add a message to the log, dropping the oldest past the limit.
    pub(crate) fn log(&mut self, message: RunMessage)
        ensures
            final(self)@ == logged(old(self)@, message@),
    {
        let ghost before = self@.messages;
        self.messages.push(message);
        let ghost all = self.messages@;
        if self.messages.len() > self.messages_kept {
            let drop: usize = self.messages.len() - self.messages_kept;
            self.messages = self.messages.split_off(drop);
            assert(views(all).skip(drop as int) =~= views(all).subrange(
                drop as int,
                all.len() as int,
            ));
        }
        assert(self@ =~= logged(old(self)@, message@));
    }

    /// Write one finished statement into the message log and the history.
    ///
    /// Separate from delivering the rows because the two do not always both
    /// happen: a statement whose tab has been switched away from still ran and
    /// still belongs in the log.
    pub(crate) fn record_run(&mut self, run: &FinishedRun, row_count: usize, now: i64)
        ensures
            final(self)@ == recorded(old(self)@, run@, row_count, now),
    {
        let text = match &run.error {
            Some(error) => error.full_text.clone(),
            None => match run.affected {
                Some(count) => {
                    let mut text = count_of(count as usize, "row");
                    text.append(" affected");
                    text
                },
                None => if run.truncated {
                    let mut text = thousands(row_count);
                    text.append("+ rows (row cap reached)");
                    text
                } else {
                    count_of(row_count, "row")
                },
            },
        };
        let tone = match &run.error {
            Some(error) => if error.canceled {
                MessageTone::Canceled
            } else {
                MessageTone::Failed
            },
            None => MessageTone::Done,
        };
        self.log(
            RunMessage {
                at_ms: now,
                sql: run.sql.clone(),
                elapsed: run.elapsed,
                tone,
                text,
                notices: copy_texts(&run.notices),
            },
        );
        if let Some(id) = self.pending_history {
            self.pending_history = None;
            let count: i64 = match run.affected {
                Some(count) => count as i64,
                None => row_count as i64,
            };
            let message = match &run.error {
                Some(error) => Some(error.full_text.clone()),
                None => None,
            };
            let millis: i64 = (run.elapsed / 1_000_000) as i64;
            self.say(Effect::FinishRecord { id, millis, count: Some(count), message });
            self.say(Effect::ReloadLists);
        }
        assert(self@ =~= recorded(old(self)@, run@, row_count, now));
    }
}

/// What is taken off a session when a statement of it has finished.
pub struct FinishedRun {
    pub sql: String,
    pub elapsed: u128,
    pub rows: Option<Rows>,
    pub truncated: bool,
    pub affected: Option<u64>,
    pub error: Option<DbError>,
    pub notices: Vec<String>,
}

impl View for FinishedRun {
    type V = RunView;

    open spec fn view(&self) -> RunView {
        RunView {
            sql: self.sql@,
            elapsed: self.elapsed,
            rows: self.rows,
            truncated: self.truncated,
            affected: self.affected,
            error: error_view(self.error),
            notices: texts(self.notices@),
        }
    }
}

/// A copy of some texts.
pub(crate) fn copy_texts(list: &Vec<String>) -> (copy: Vec<String>)
    ensures
        texts(copy@) == texts(list@),
{
    let mut copy: Vec<String> = Vec::new();
    let mut at: usize = 0;
    while at < list.len()
        invariant
            at <= list@.len(),
            copy@.len() == at,
            forall|i: int| 0 <= i < at ==> (#[trigger] copy@[i])@ == list@[i]@,
        decreases list@.len() - at,
    {
        copy.push(list[at].clone());
        at += 1;
    }
    assert(texts(copy@) =~= texts(list@));
    copy
}

} // verus!
