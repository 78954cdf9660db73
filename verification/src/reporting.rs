//! What the widgets of a pane report, and what the window does about it.
//!
//! A report carries the id of its own pane, so one from a pane that is not the
//! active one still lands in the right place: touching a pane is what makes it
//! the active one.
use crate::browsing::{condition_committed, filter_applied, sort_applied};
use crate::catalog::Rows;
use crate::lists::{group_views, views};
use crate::pane::{PaneView, Queued, Sort};
use crate::responding::{cursor_moved_to, pane_touched};
use crate::running::{ran_all, ran_alone};
use crate::saving::script_saved;
use crate::showing::{group_showing, page_taken, relation_reloaded, results_cleared, session_saved};
use crate::window::{
    active_pane, group_window, has_pane, then_do, well_formed, with_active, Act, Effect, WindowView,
    Workspace,
};
use vstd::prelude::*;

verus! {

broadcast use {group_views, group_window, group_showing};

/// Something a widget of a pane reports.
#[derive(Debug)]
pub enum PaneEvent {
    /// The cursor of the grid moved.
    CursorMoved { row: usize, column: usize },
    /// A header of the grid was clicked: which way its arrow points now, and
    /// the rows it is over.
    SortChanged(Option<Sort>, Rows),
    /// A cell of the grid was pressed twice.
    Activated,
    /// The menu of a row was asked for.
    ContextMenu { row: usize, column: usize },
    /// A change was staged in the grid. Staged, not saved.
    ChangesEdited,
    /// The value of a condition was entered, and whether the condition is whole.
    ChipEntered { complete: bool },
    /// A condition was given up.
    ChipAbandoned,
    /// The clause was entered.
    ClauseEntered,
    /// The statement the cursor is in is to be run.
    Run { sql: String, origin: usize },
    /// The whole script is to be run, one statement at a time.
    RunAll(Vec<Queued>),
    /// The script is to be saved.
    Save,
}

/// A condition given up.
pub open spec fn condition_abandoned(window: WindowView) -> WindowView {
    then_do(
        with_active(window, PaneView { composer: None, ..active_pane(window) }),
        Act::Notify,
    )
}

/// What the window does about a report from a pane.
pub open spec fn pane_reported(
    window: WindowView,
    id: usize,
    event: PaneEvent,
    now: i64,
) -> WindowView {
    let touched = pane_touched(window, id);
    match event {
        PaneEvent::CursorMoved { row, column } => cursor_moved_to(window, id, row, column),
        PaneEvent::SortChanged(sort, rows) => sort_applied(touched, sort, rows),
        PaneEvent::Activated => window,
        PaneEvent::ContextMenu { row, column } => then_do(touched, Act::RowMenu(row, column)),
        PaneEvent::ChangesEdited => then_do(touched, Act::Notify),
        PaneEvent::ChipEntered { complete } => condition_committed(touched, complete),
        PaneEvent::ChipAbandoned => condition_abandoned(touched),
        PaneEvent::ClauseEntered => filter_applied(touched),
        PaneEvent::Run { sql, origin } => ran_alone(touched, sql@, Some(origin)),
        PaneEvent::RunAll(statements) => ran_all(touched, views(statements@)),
        PaneEvent::Save => script_saved(touched, now),
    }
}

/// A report makes its pane the active one, but for a cell that was pressed
/// twice, which asks for nothing.
pub proof fn a_report_makes_its_pane_the_active_one(
    window: WindowView,
    id: usize,
    event: PaneEvent,
    now: i64,
)
    ensures
        pane_reported(window, id, event, now).active_pane == if event is Activated {
            window.active_pane
        } else {
            id
        },
{
    reveal(relation_reloaded);
    reveal(results_cleared);
    reveal(page_taken);
    reveal(session_saved);
}

impl Workspace {
    /// Take a report from a pane of the window.
    pub fn on_pane_event(&mut self, id: usize, event: PaneEvent, now: i64)
        requires
            well_formed(old(self)@),
            has_pane(old(self)@.panes, id),
        ensures
            final(self)@ == pane_reported(old(self)@, id, event, now),
            well_formed(final(self)@),
    {
        match event {
            PaneEvent::CursorMoved { row, column } => self.cursor_moved(id, row, column),
            PaneEvent::SortChanged(sort, rows) => {
                self.touch_pane(id);
                self.apply_sort(sort, rows);
            },
            PaneEvent::Activated => {},
            PaneEvent::ContextMenu { row, column } => {
                self.touch_pane(id);
                self.say(Effect::RowMenu(row, column));
            },
            PaneEvent::ChangesEdited => {
                self.touch_pane(id);
                self.say(Effect::Notify);
            },
            PaneEvent::ChipEntered { complete } => {
                self.touch_pane(id);
                self.commit_chip(complete);
            },
            PaneEvent::ChipAbandoned => {
                self.touch_pane(id);
                self.close_chip();
            },
            PaneEvent::ClauseEntered => {
                self.touch_pane(id);
                self.apply_filter();
            },
            PaneEvent::Run { sql, origin } => {
                self.touch_pane(id);
                self.run_console(sql, origin);
            },
            PaneEvent::RunAll(statements) => {
                self.touch_pane(id);
                self.run_console_all(statements);
            },
            PaneEvent::Save => {
                self.touch_pane(id);
                self.save_query(now);
            },
        }
    }
}

} // verus!
