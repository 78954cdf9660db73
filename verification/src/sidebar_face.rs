//! The left panel as it is drawn.
use crate::catalog::{ConfigView, ConnectionConfig};
use crate::chrome::EmptyState;
use crate::clock::OFFSET_LIMIT;
use crate::connecting::connection_opened;
use crate::history::{
    is_history, open_query, query_rows, render_history, HistoryEntry, HistoryList, HistoryScope,
    QueryRow,
};
use crate::icon::{IconColor, IconName};
use crate::lists::{first, group_views, lemma_first, views};
use crate::session::Activity;
use crate::showing::group_showing;
use crate::sidebar::{is_database_tab, is_tag_of, DatabaseTab, Tag};
use crate::text::{maybe, texts};
use crate::window::{described, group_window, well_formed, SidebarTab, WindowView, Workspace};
use vstd::prelude::*;

verus! {

broadcast use {group_views, group_window, group_showing};

/// A tab of the left panel.
#[derive(Debug)]
pub struct TabHead {
    pub tab: SidebarTab,
    pub label: String,
    pub icon: IconName,
    pub active: bool,
}

/// A tab of the left panel, as a value.
#[verifier::ext_equal]
pub struct TabHeadView {
    pub tab: SidebarTab,
    pub label: Seq<char>,
    pub icon: IconName,
    pub active: bool,
}

impl View for TabHead {
    type V = TabHeadView;

    open spec fn view(&self) -> TabHeadView {
        TabHeadView { tab: self.tab, label: self.label@, icon: self.icon, active: self.active }
    }
}

/// The tabs of the left panel while one of them is picked.
pub open spec fn tab_heads(picked: SidebarTab) -> Seq<TabHeadView> {
    seq![
        TabHeadView {
            tab: SidebarTab::Database,
            label: "Database"@,
            icon: IconName::ListTree,
            active: picked == SidebarTab::Database,
        },
        TabHeadView {
            tab: SidebarTab::Queries,
            label: "Queries"@,
            icon: IconName::Bookmark,
            active: picked == SidebarTab::Queries,
        },
        TabHeadView {
            tab: SidebarTab::History,
            label: "History"@,
            icon: IconName::History,
            active: picked == SidebarTab::History,
        },
    ]
}

/// A tab of the left panel.
fn head(tab: SidebarTab, label: &str, icon: IconName, picked: SidebarTab) -> (made: TabHead)
    ensures
        made@ == (TabHeadView { tab, label: label@, icon, active: picked == tab }),
{
    let made = TabHead { tab, label: label.to_owned(), icon, active: picked == tab };
    assert(made@ =~= (TabHeadView { tab, label: label@, icon, active: picked == tab }));
    made
}

/// Which option of the switch over the history is lit.
pub open spec fn scope_place(scope: HistoryScope) -> usize {
    match scope {
        HistoryScope::Everything => 0,
        HistoryScope::ThisWindow => 1,
    }
}

/// The switch over the history: its options, and which of them is lit.
pub fn render_history_scope(scope: HistoryScope) -> (switch: (Vec<String>, usize))
    ensures
        texts(switch.0@) == seq!["Everything"@, "This window"@],
        switch.1 == scope_place(scope),
{
    let mut options: Vec<String> = Vec::new();
    options.push("Everything".to_owned());
    options.push("This window".to_owned());
    assert(texts(options@) =~= seq!["Everything"@, "This window"@]);
    let lit: usize = match scope {
        HistoryScope::Everything => 0,
        HistoryScope::ThisWindow => 1,
    };
    (options, lit)
}

/// What fills the left panel.
#[derive(Debug)]
pub enum SidebarBody {
    Database(DatabaseTab),
    Queries(Vec<QueryRow>),
    History(HistoryList),
}

/// The left panel as it is drawn.
#[derive(Debug)]
pub struct SidebarFace {
    pub tabs: Vec<TabHead>,
    /// The lit option of the switch over the list. It stands above the scroll
    /// rather than in it: a control that scrolls away with the list it governs
    /// is one nobody finds twice.
    pub scope: Option<usize>,
    pub body: SidebarBody,
}

/// The history as the left panel reads it.
#[derive(Debug)]
pub struct HistoryShelf {
    pub entries: Vec<HistoryEntry>,
    pub scope: HistoryScope,
    /// What this window recorded itself.
    pub mine: Vec<i64>,
    pub now: i64,
    /// How far east of UTC this machine is, in seconds.
    pub offset: i64,
}

/// A saved connection in the list of them.
#[derive(Clone, Copy, PartialEq, Eq, Structural, Debug)]
pub struct ConnectionLine {
    pub place: usize,
    pub icon: IconName,
    pub color: IconColor,
}

/// The list of saved connections.
#[derive(Debug)]
pub enum ConnectionList {
    /// There is none: what the panel says, and the way out of it.
    Empty(EmptyState),
    Lines { header: String, lines: Vec<ConnectionLine> },
}

/// The colour of a saved connection: its tag, where it has one.
pub open spec fn connection_color(id: u128, tags: Seq<Tag>) -> IconColor {
    let at = first(tags, is_tag_of(id));
    if at < tags.len() {
        match tags[at].paint {
            Some(paint) => IconColor::Custom(paint),
            None => IconColor::Muted,
        }
    } else {
        IconColor::Muted
    }
}

/// The saved connections, one line each.
pub open spec fn connection_lines(list: Seq<ConfigView>, tags: Seq<Tag>) -> Seq<ConnectionLine> {
    Seq::new(
        list.len(),
        |i: int|
            ConnectionLine {
                place: i as usize,
                icon: IconName::Plug,
                color: connection_color(list[i].id, tags),
            },
    )
}

/// Whether the window is busy connecting.
pub open spec fn is_connecting(window: WindowView) -> bool {
    match described(window) {
        Some(session) => session.activity == Activity::Connecting,
        None => false,
    }
}

/// A saved connection clicked: it is opened, unless another is on its way.
pub open spec fn connection_clicked(window: WindowView, index: usize) -> WindowView {
    if index < window.connections.len() && !is_connecting(window) {
        connection_opened(window, window.connections[index as int], None)
    } else {
        window
    }
}

/// The colour of a saved connection.
fn color_for(id: u128, tags: &Vec<Tag>) -> (color: IconColor)
    ensures
        color == connection_color(id, tags@),
{
    let ghost meant = is_tag_of(id);
    let mut at: usize = 0;
    while at < tags.len()
        invariant
            at <= tags@.len(),
            meant == is_tag_of(id),
            forall|i: int| 0 <= i < at ==> !meant(#[trigger] tags@[i]),
        decreases tags@.len() - at,
    {
        if tags[at].connection == id {
            proof {
                lemma_first(tags@, meant, at as int);
            }
            return match tags[at].paint {
                Some(paint) => IconColor::Custom(paint),
                None => IconColor::Muted,
            };
        }
        at += 1;
    }
    proof {
        lemma_first(tags@, meant, at as int);
    }
    IconColor::Muted
}

impl Workspace {
    /// The list of saved connections. On a first launch it is the only thing
    /// in the window with anything to say.
    pub fn render_connections(&self, tags: &Vec<Tag>) -> (list: ConnectionList)
        ensures
            match list {
                ConnectionList::Empty(state) => {
                    &&& self@.connections.len() == 0
                    &&& state.icon == IconName::Plug
                    &&& state.title@ == "No connections"@
                    &&& maybe(state.description) == Some("Add a Postgres server to get started."@)
                    &&& maybe(state.action) == Some("New Connection…"@)
                },
                ConnectionList::Lines { header, lines } => self@.connections.len() > 0 && header@
                    == "Connections"@ && lines@ == connection_lines(self@.connections, tags@),
            },
    {
        if self.connections.len() == 0 {
            let state = EmptyState::new(IconName::Plug, "No connections").description(
                "Add a Postgres server to get started.",
            ).action("New Connection…");
            return ConnectionList::Empty(state);
        }
        let ghost all = self@.connections;
        let mut lines: Vec<ConnectionLine> = Vec::new();
        let mut at: usize = 0;
        while at < self.connections.len()
            invariant
                at <= self.connections@.len(),
                all == views(self.connections@),
                lines@ == connection_lines(all, tags@).take(at as int),
            decreases self.connections@.len() - at,
        {
            let ghost had = lines@;
            assert(all[at as int] == self.connections@[at as int]@);
            let config: &ConnectionConfig = &self.connections[at];
            let line = ConnectionLine {
                place: at,
                icon: IconName::Plug,
                color: color_for(config.id, tags),
            };
            lines.push(line);
            assert(lines@ =~= connection_lines(all, tags@).take(at + 1));
            at += 1;
        }
        assert(lines@ =~= connection_lines(all, tags@));
        ConnectionList::Lines { header: "Connections".to_owned(), lines }
    }

    /// Click a saved connection.
    pub fn click_connection(&mut self, index: usize)
        requires
            well_formed(old(self)@),
        ensures
            final(self)@ == connection_clicked(old(self)@, index),
            well_formed(final(self)@),
    {
        let connecting = match self.described() {
            Some(session) => session.activity() == Activity::Connecting,
            None => false,
        };
        if connecting || index >= self.connections.len() {
            return ;
        }
        assert(self@.connections[index as int] == self.connections@[index as int]@);
        let config = self.connections[index].clone();
        self.open_connection(config);
    }

    /// The left panel as it is drawn.
    pub fn render_sidebar(&self, query: &str, tags: &Vec<Tag>, history: &HistoryShelf) -> (face:
        SidebarFace)
        requires
            well_formed(self@),
            -OFFSET_LIMIT <= history.offset <= OFFSET_LIMIT,
        ensures
            views(face.tabs@) == tab_heads(self@.sidebar_tab),
            face.scope == if self@.sidebar_tab is History {
                Some(scope_place(history.scope))
            } else {
                None
            },
            match face.body {
                SidebarBody::Database(tab) => self@.sidebar_tab is Database && is_database_tab(
                    tab,
                    self@,
                    query@,
                    tags@,
                ),
                SidebarBody::Queries(rows) => self@.sidebar_tab is Queries && rows@ == query_rows(
                    self@.saved,
                    open_query(self@),
                ),
                SidebarBody::History(list) => self@.sidebar_tab is History && is_history(
                    list,
                    views(history.entries@),
                    history.scope,
                    history.mine@,
                    self@.connections,
                    history.now,
                    history.offset,
                ),
            },
    {
        let picked = self.sidebar_tab;
        let mut tabs: Vec<TabHead> = Vec::new();
        tabs.push(head(SidebarTab::Database, "Database", IconName::ListTree, picked));
        tabs.push(head(SidebarTab::Queries, "Queries", IconName::Bookmark, picked));
        tabs.push(head(SidebarTab::History, "History", IconName::History, picked));
        assert(views(tabs@) =~= tab_heads(picked));
        let scope = if picked == SidebarTab::History {
            Some(render_history_scope(history.scope).1)
        } else {
            None
        };
        let body = match picked {
            SidebarTab::Database => SidebarBody::Database(self.render_database_tab(query, tags)),
            SidebarTab::Queries => SidebarBody::Queries(self.render_query_list()),
            SidebarTab::History => SidebarBody::History(
                render_history(
                    &history.entries,
                    history.scope,
                    &history.mine,
                    &self.connections,
                    history.now,
                    history.offset,
                ),
            ),
        };
        SidebarFace { tabs, scope, body }
    }
}

} // verus!
