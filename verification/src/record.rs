//! What is written down of a window, so that a restart can put it back.
use crate::dragging::Panels;
use crate::lists::{group_views, views};
use crate::pane::{stashed, CenterTab, Pane, PaneView, TabView};
use crate::showing::{remembers, session_saved};
use crate::window::{Held, HeldView, WindowView, Workspace};
use vstd::prelude::*;

verus! {

broadcast use group_views;

/// A connection, and the database that is open on it.
pub type Source = (u128, String);

/// What is written down of a pane.
pub struct PaneRecord<'a> {
    pub id: usize,
    pub tabs: &'a Vec<CenterTab>,
    pub active: usize,
    /// Where each tab's rows come from.
    pub sources: Vec<Option<Source>>,
}

/// What is written down of a pane, as a value.
#[verifier::ext_equal]
pub struct PaneRecordView {
    pub id: usize,
    pub tabs: Seq<TabView>,
    pub active: usize,
    pub sources: Seq<Option<(u128, Seq<char>)>>,
}

/// A source as a value.
pub open spec fn source_view(source: Option<Source>) -> Option<(u128, Seq<char>)> {
    match source {
        Some(source) => Some((source.0, source.1@)),
        None => None,
    }
}

/// Sources as values.
pub open spec fn source_views(sources: Seq<Option<Source>>) -> Seq<Option<(u128, Seq<char>)>> {
    Seq::new(sources.len(), |i: int| source_view(sources[i]))
}

impl<'a> View for PaneRecord<'a> {
    type V = PaneRecordView;

    open spec fn view(&self) -> PaneRecordView {
        PaneRecordView {
            id: self.id,
            tabs: views(self.tabs@),
            active: self.active,
            sources: source_views(self.sources@),
        }
    }
}

/// What is written down of a window.
pub struct SessionRecord<'a> {
    /// The connection and the database that are open: not the one the
    /// connection comes with, which is a different thing the moment anyone
    /// switches.
    pub source: Option<Source>,
    pub panes: Vec<PaneRecord<'a>>,
    pub layout: &'a Vec<usize>,
    pub active_pane: usize,
}

/// What is written down of a window, as a value.
#[verifier::ext_equal]
pub struct SessionRecordView {
    pub source: Option<(u128, Seq<char>)>,
    pub panes: Seq<PaneRecordView>,
    pub layout: Seq<usize>,
    pub active_pane: usize,
}

impl<'a> View for SessionRecord<'a> {
    type V = SessionRecordView;

    open spec fn view(&self) -> SessionRecordView {
        SessionRecordView {
            source: source_view(self.source),
            panes: views(self.panes@),
            layout: self.layout@,
            active_pane: self.active_pane,
        }
    }
}

/// Where a session is.
pub open spec fn place_of_session(
    sessions: Seq<HeldView>,
    session: Option<usize>,
) -> Option<(u128, Seq<char>)> {
    match session {
        Some(id) => if id < sessions.len() {
            let config = sessions[id as int].session.config;
            Some((config.id, config.database))
        } else {
            None
        },
        None => None,
    }
}

/// Where a tab's rows come from: its live session if it has one, and otherwise
/// wherever it was restored from. A tab that was not shown since the launch
/// still knows where it belongs.
pub open spec fn source_of(sessions: Seq<HeldView>, tab: TabView) -> Option<(u128, Seq<char>)> {
    match place_of_session(sessions, tab.session) {
        Some(place) => Some(place),
        None => tab.reconnect,
    }
}

/// Where the rows of some tabs come from.
pub open spec fn sources_of(sessions: Seq<HeldView>, tabs: Seq<TabView>) -> Seq<
    Option<(u128, Seq<char>)>,
> {
    Seq::new(tabs.len(), |i: int| source_of(sessions, tabs[i]))
}

/// What is written down of a pane.
pub open spec fn pane_record(sessions: Seq<HeldView>, pane: PaneView) -> PaneRecordView {
    PaneRecordView {
        id: pane.id,
        tabs: pane.tabs,
        active: pane.active_tab,
        sources: sources_of(sessions, pane.tabs),
    }
}

/// What is written down of some panes.
pub open spec fn pane_records(sessions: Seq<HeldView>, panes: Seq<PaneView>) -> Seq<
    PaneRecordView,
> {
    Seq::new(panes.len(), |i: int| pane_record(sessions, panes[i]))
}

/// What is written down of a window, which is nothing where the settings do
/// not ask for it to come back.
pub open spec fn session_record(window: WindowView) -> Option<SessionRecordView> {
    if remembers(window.settings) {
        Some(
            SessionRecordView {
                source: place_of_session(window.sessions, window.session),
                panes: pane_records(window.sessions, window.panes),
                layout: window.layout,
                active_pane: window.active_pane,
            },
        )
    } else {
        None
    }
}

/// Where a session is.
fn find_place(sessions: &Vec<Held>, session: Option<usize>) -> (place: Option<Source>)
    ensures
        source_view(place) == place_of_session(views(sessions@), session),
{
    match session {
        Some(id) => if id < sessions.len() {
            assert(views(sessions@)[id as int] == sessions@[id as int]@);
            let config = &sessions[id].session.config;
            Some((config.id, config.database.clone()))
        } else {
            None
        },
        None => None,
    }
}

/// Where a tab's rows come from.
fn find_source(sessions: &Vec<Held>, tab: &CenterTab) -> (source: Option<Source>)
    ensures
        source_view(source) == source_of(views(sessions@), tab@),
{
    let place = find_place(sessions, tab.session);
    if place.is_some() {
        return place;
    }
    match &tab.reconnect {
        Some(place) => Some((place.0, place.1.clone())),
        None => None,
    }
}

/// What is written down of a pane.
fn record_pane<'a>(sessions: &Vec<Held>, pane: &'a Pane) -> (record: PaneRecord<'a>)
    ensures
        record@ == pane_record(views(sessions@), pane@),
{
    let ghost want = sources_of(views(sessions@), pane@.tabs);
    let mut sources: Vec<Option<Source>> = Vec::new();
    let mut at: usize = 0;
    assert(source_views(sources@) =~= want.take(0));
    while at < pane.tabs.len()
        invariant
            at <= pane.tabs@.len(),
            want == sources_of(views(sessions@), views(pane.tabs@)),
            source_views(sources@) == want.take(at as int),
        decreases pane.tabs@.len() - at,
    {
        let ghost had = source_views(sources@);
        assert(views(pane.tabs@)[at as int] == pane.tabs@[at as int]@);
        sources.push(find_source(sessions, &pane.tabs[at]));
        assert(source_views(sources@) =~= had.push(want[at as int]));
        assert(source_views(sources@) =~= want.take(at + 1));
        at += 1;
    }
    assert(want.take(at as int) =~= want);
    let record = PaneRecord { id: pane.id, tabs: &pane.tabs, active: pane.active_tab, sources };
    assert(record@ =~= pane_record(views(sessions@), pane@));
    record
}

impl Workspace {
    /// What is written down of the window, so that a restart can put it back.
    /// Turning the restore off means that the window forgets, so there is
    /// nothing to write then.
    pub fn session_record(&self) -> (record: Option<SessionRecord<'_>>)
        ensures
            match record {
                Some(record) => session_record(self@) == Some(record@),
                None => session_record(self@) is None,
            },
    {
        if !self.settings.restore_session() {
            return None;
        }
        let ghost want = pane_records(self@.sessions, self@.panes);
        let mut panes: Vec<PaneRecord<'_>> = Vec::new();
        let mut at: usize = 0;
        assert(views(panes@) =~= want.take(0));
        while at < self.panes.len()
            invariant
                at <= self.panes@.len(),
                want == pane_records(self@.sessions, self@.panes),
                views(panes@) == want.take(at as int),
            decreases self.panes@.len() - at,
        {
            let ghost had = views(panes@);
            assert(self@.panes[at as int] == self.panes@[at as int]@);
            panes.push(record_pane(&self.sessions, &self.panes[at]));
            assert(views(panes@) =~= had.push(want[at as int]));
            assert(views(panes@) =~= want.take(at + 1));
            at += 1;
        }
        assert(want.take(at as int) =~= want);
        Some(
            SessionRecord {
                source: find_place(&self.sessions, self.session),
                panes,
                layout: &self.layout,
                active_pane: self.active_pane,
            },
        )
    }
}

/// What is written down of the regions of a window: which are open, and how
/// long each is.
#[derive(Clone, Copy, PartialEq, Eq, Structural, Debug)]
pub struct LayoutRecord {
    pub left_open: bool,
    pub right_open: bool,
    pub dock_open: bool,
    pub left_width: i32,
    pub right_width: i32,
    pub dock_height: i32,
}

impl Workspace {
    /// What is written down of the regions of the window.
    pub fn layout_record(&self, panels: &Panels) -> (record: LayoutRecord)
        ensures
            record == (LayoutRecord {
                left_open: self@.left_open,
                right_open: self@.right_open,
                dock_open: self@.dock_open,
                left_width: panels.left_width,
                right_width: panels.right_width,
                dock_height: panels.dock_height,
            }),
    {
        LayoutRecord {
            left_open: self.left_open,
            right_open: self.right_open,
            dock_open: self.dock_open,
            left_width: panels.left_width,
            right_width: panels.right_width,
            dock_height: panels.dock_height,
        }
    }
}

/// What is written down is the complete picture: once the window was told to
/// save its session, what is typed in each pane is in the tab that shows there,
/// and every tab goes down with where it belongs.
pub proof fn a_saved_session_is_complete(window: WindowView, at: int)
    requires
        remembers(window.settings),
        0 <= at < window.panes.len(),
    ensures
        session_record(session_saved(window)) is Some,
        session_record(session_saved(window))->0.panes.len() == window.panes.len(),
        session_record(session_saved(window))->0.panes[at].tabs == stashed(window.panes[at]).tabs,
        session_record(session_saved(window))->0.panes[at].sources == sources_of(
            window.sessions,
            window.panes[at].tabs,
        ),
{
    reveal(session_saved);
    assert(sources_of(window.sessions, stashed(window.panes[at]).tabs) =~= sources_of(
        window.sessions,
        window.panes[at].tabs,
    ));
}

/// A tab that was not shown since the launch keeps where it belongs, however
/// often the window is saved.
pub proof fn an_unshown_tab_keeps_its_place(sessions: Seq<HeldView>, tab: TabView)
    requires
        tab.session is None,
    ensures
        source_of(sessions, tab) == tab.reconnect,
{
}

} // verus!
