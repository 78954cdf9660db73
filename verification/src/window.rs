//! The window: the one place that owns what is open and what is showing.
//!
//! A method takes something that happened, changes the state, and leaves what
//! is to be done about it in the outbox, in order. Nothing here draws, waits
//! or talks to a server.
use crate::catalog::{
    catalog_has, ConfigView, ConnectionConfig, KeyType, RelationRef, Rows, SchemaSnapshot,
};
use crate::commands::Command;
use crate::lists::{group_views, seen, views};
use crate::menus::FilterMenu;
use crate::pane::{showing, CenterKind, Pane, PaneView, Sort, TabView};
use crate::session::{Session, SessionView};
use crate::settings::{Appearance, Density, Settings};
use crate::text::{maybe, texts};
use crate::tree::{entries, Entry, TreeNode};
use vstd::prelude::*;

verus! {

broadcast use group_views;

/// Which of the sidebar's tabs is showing.
#[derive(Clone, Copy, PartialEq, Eq, Structural, Debug)]
pub enum SidebarTab {
    Database,
    Queries,
    History,
}

/// Which face of the current selection the right panel is showing.
#[derive(Clone, Copy, PartialEq, Eq, Structural, Debug)]
pub enum InspectorTab {
    /// The selected row as a field list.
    Row,
    /// What the catalog knows about the table the rows came from.
    Table,
}

/// How a statement in the log ended.
#[derive(Clone, Copy, PartialEq, Eq, Structural, Debug)]
pub enum MessageTone {
    Done,
    Failed,
    Canceled,
}

/// One entry of the message log.
#[derive(Debug)]
pub struct RunMessage {
    pub at_ms: i64,
    pub sql: String,
    /// How long it took, in nanoseconds.
    pub elapsed: u128,
    pub tone: MessageTone,
    pub text: String,
    pub notices: Vec<String>,
}

/// One entry of the message log, as a value.
#[verifier::ext_equal]
pub struct MessageView {
    pub at_ms: i64,
    pub sql: Seq<char>,
    pub elapsed: u128,
    pub tone: MessageTone,
    pub text: Seq<char>,
    pub notices: Seq<Seq<char>>,
}

impl View for RunMessage {
    type V = MessageView;

    open spec fn view(&self) -> MessageView {
        MessageView {
            at_ms: self.at_ms,
            sql: self.sql@,
            elapsed: self.elapsed,
            tone: self.tone,
            text: self.text@,
            notices: texts(self.notices@),
        }
    }
}

/// A query that was saved, on a connection or on none.
#[derive(Debug)]
pub struct SavedQuery {
    pub id: u128,
    pub connection: Option<u128>,
    pub name: String,
    pub sql: String,
    pub updated_at: i64,
}

/// A saved query, as a value.
#[verifier::ext_equal]
pub struct SavedView {
    pub id: u128,
    pub connection: Option<u128>,
    pub name: Seq<char>,
    pub sql: Seq<char>,
    pub updated_at: i64,
}

impl View for SavedQuery {
    type V = SavedView;

    open spec fn view(&self) -> SavedView {
        SavedView {
            id: self.id,
            connection: self.connection,
            name: self.name@,
            sql: self.sql@,
            updated_at: self.updated_at,
        }
    }
}

/// A session of the window. It goes by its place in the list, and a session
/// that was closed keeps its place, so that no number is ever used twice.
pub struct Held {
    pub open: bool,
    pub session: Session,
}

/// A held session, as a value.
#[verifier::ext_equal]
pub struct HeldView {
    pub open: bool,
    pub session: SessionView,
}

impl View for Held {
    type V = HeldView;

    open spec fn view(&self) -> HeldView {
        HeldView { open: self.open, session: self.session@ }
    }
}

/// Something for a session to do.
#[derive(Debug)]
pub enum Order {
    Connect,
    Run(String),
    Cancel,
    OpenKey(Vec<u8>, KeyType),
    Scan(String),
    Refresh,
    /// Send the statements of a design as one transaction.
    Commit(Vec<String>),
}

/// Something for a session to do, as a value.
pub enum OrderView {
    Connect,
    Run(Seq<char>),
    Cancel,
    OpenKey(Seq<u8>, KeyType),
    Scan(Seq<char>),
    Refresh,
    Commit(Seq<Seq<char>>),
}

impl View for Order {
    type V = OrderView;

    open spec fn view(&self) -> OrderView {
        match self {
            Order::Connect => OrderView::Connect,
            Order::Run(sql) => OrderView::Run(sql@),
            Order::Cancel => OrderView::Cancel,
            Order::OpenKey(key, kind) => OrderView::OpenKey(key@, *kind),
            Order::Scan(pattern) => OrderView::Scan(pattern@),
            Order::Refresh => OrderView::Refresh,
            Order::Commit(statements) => OrderView::Commit(texts(statements@)),
        }
    }
}

/// An operation on an object that is confirmed in a sheet.
#[derive(Clone, Copy, PartialEq, Eq, Structural, Debug)]
pub enum ObjectOp {
    Rename,
    Truncate,
    Drop,
}

/// Where the keyboard goes.
#[derive(Clone, Copy, PartialEq, Eq, Structural, Debug)]
pub enum Focus {
    Console,
    Clause,
    ChipValue,
}

/// What the palette opens in.
#[derive(Clone, Copy, PartialEq, Eq, Structural, Debug)]
pub enum PaletteMode {
    /// Everything.
    All,
    /// The commands only.
    Commands,
    /// The objects only.
    Objects,
}

/// Something to be done outside the window's state.
#[derive(Debug)]
pub enum Effect {
    /// Ask for a frame.
    Notify,
    /// Write down what the window is showing.
    SaveSession,
    /// Write down the geometry of the panels.
    SaveLayout,
    /// Give the keyboard to a part of the active pane at the next frame.
    Focus(Focus),
    /// Put the pane's console text into its editor.
    SetConsole(usize),
    /// Put the pane's clause into its box.
    SetClause(usize),
    /// Put the pane's condition value into its box.
    SetChipValue(usize),
    /// Take the error mark out of the pane's console.
    ClearMark(usize),
    /// Mark the character the server named in the pane's console.
    MarkError(usize, usize),
    /// Scroll the pane's strip until a tab shows.
    RevealTab(usize, usize),
    /// Say of the columns of some rows what the catalog knows of them.
    Describe(Rows, RelationRef),
    /// Show rows in the pane's grid, or none.
    SetGrid(usize, Option<Rows>),
    /// Show the pane's grid as sorted.
    SetSort(usize, Sort),
    /// Show rows in another order than the server sent them in, or in that.
    SortRows(usize, Rows, Option<Sort>),
    /// Put the grid's cursor on a cell.
    SetCursor(usize, usize, usize),
    /// Ask again whether the pane's rows can be written back.
    RefreshEditability(usize),
    /// Throw the staged changes of the pane's grid away.
    DiscardChanges(usize),
    /// Word the statement that browses a relation in the active pane.
    Browse(RelationRef),
    /// Record a statement in the history, before it is sent.
    Record(u128, String),
    /// Write down how a recorded statement ended.
    FinishRecord { id: i64, millis: i64, count: Option<i64>, message: Option<String> },
    /// Read the history and the saved queries again.
    ReloadLists,
    /// Complete against a session's catalog, or against none.
    SetCatalog(Option<usize>),
    /// Have a session do something.
    Tell(usize, Order),
    /// Follow the reference in the cell under the cursor, once the cursor has
    /// moved.
    Follow,
    /// Open the menu of an object.
    ObjectMenu(RelationRef),
    /// Open the sheet of an operation on an object.
    ObjectSheet(RelationRef, ObjectOp),
    /// Turn restored design tabs into editors.
    HydrateStructure,
    /// Show the structure editor, staged, with its preview over it or not.
    DemoStructure(Option<RelationRef>, bool),
    /// Show an editor the table as the catalog has it.
    AdoptStructure(usize, RelationRef),
    /// Point the tabs of a relation at its new name, or at nothing.
    Retarget(RelationRef, Option<RelationRef>),
    /// Keep the tabs of an editor in step with its draft.
    SyncStructure(usize),
    /// Give the keyboard to a structure editor.
    FocusStructure(usize),
    /// What a finished statement means for the objects it was about.
    FinishObject(bool),
    /// Type a fragment into the console and complete it.
    Complete(String),
    /// Open the titlebar's database menu.
    DatabaseMenu,
    /// Open the palette.
    OpenPalette(PaletteMode),
    /// Close the palette.
    ClosePalette,
    /// Open the sheet that names a query.
    NameQuery { suggested: String, scope: String, replacing: bool, taken: Vec<String> },
    /// Write a saved query.
    SaveQuery(SavedQuery),
    /// Delete a saved query.
    DeleteQuery(u128),
    /// Open the menu of a row, at one of its cells.
    RowMenu(usize, usize),
    /// Do what a command says that is not about the window's own state.
    Perform(Command),
    /// Put a theme of an appearance on screen.
    ShowTheme(Appearance),
    /// Write the settings down.
    SaveSettings,
    /// Give a pane's widgets the settings they carry themselves.
    Dress { pane: usize, tab_size: usize, line_numbers: bool, density: Density, zebra: bool },
    /// Have every window drawn again from nothing.
    Refresh,
    /// Put the cursor of the active pane's console on a line, counted from
    /// zero.
    GoToLine(usize),
}

/// Something to be done, as a value.
pub enum Act {
    Notify,
    SaveSession,
    SaveLayout,
    Focus(Focus),
    SetConsole(usize),
    SetClause(usize),
    SetChipValue(usize),
    ClearMark(usize),
    MarkError(usize, usize),
    RevealTab(usize, usize),
    Describe(Rows, (Seq<char>, Seq<char>)),
    SetGrid(usize, Option<Rows>),
    SetSort(usize, Sort),
    SortRows(usize, Rows, Option<Sort>),
    SetCursor(usize, usize, usize),
    RefreshEditability(usize),
    DiscardChanges(usize),
    Browse((Seq<char>, Seq<char>)),
    Record(u128, Seq<char>),
    FinishRecord { id: i64, millis: i64, count: Option<i64>, message: Option<Seq<char>> },
    ReloadLists,
    SetCatalog(Option<usize>),
    Tell(usize, OrderView),
    Follow,
    ObjectMenu((Seq<char>, Seq<char>)),
    ObjectSheet((Seq<char>, Seq<char>), ObjectOp),
    HydrateStructure,
    DemoStructure(Option<(Seq<char>, Seq<char>)>, bool),
    AdoptStructure(usize, (Seq<char>, Seq<char>)),
    Retarget((Seq<char>, Seq<char>), Option<(Seq<char>, Seq<char>)>),
    SyncStructure(usize),
    FocusStructure(usize),
    FinishObject(bool),
    Complete(Seq<char>),
    DatabaseMenu,
    OpenPalette(PaletteMode),
    ClosePalette,
    NameQuery { suggested: Seq<char>, scope: Seq<char>, replacing: bool, taken: Seq<Seq<char>> },
    SaveQuery(SavedView),
    DeleteQuery(u128),
    RowMenu(usize, usize),
    Perform(Command),
    ShowTheme(Appearance),
    SaveSettings,
    Dress { pane: usize, tab_size: usize, line_numbers: bool, density: Density, zebra: bool },
    Refresh,
    GoToLine(usize),
}

impl View for Effect {
    type V = Act;

    open spec fn view(&self) -> Act {
        match self {
            Effect::Notify => Act::Notify,
            Effect::SaveSession => Act::SaveSession,
            Effect::SaveLayout => Act::SaveLayout,
            Effect::Focus(focus) => Act::Focus(*focus),
            Effect::SetConsole(pane) => Act::SetConsole(*pane),
            Effect::SetClause(pane) => Act::SetClause(*pane),
            Effect::SetChipValue(pane) => Act::SetChipValue(*pane),
            Effect::ClearMark(pane) => Act::ClearMark(*pane),
            Effect::MarkError(pane, at) => Act::MarkError(*pane, *at),
            Effect::RevealTab(pane, tab) => Act::RevealTab(*pane, *tab),
            Effect::Describe(rows, relation) => Act::Describe(*rows, relation.parts()),
            Effect::SetGrid(pane, rows) => Act::SetGrid(*pane, *rows),
            Effect::SetSort(pane, sort) => Act::SetSort(*pane, *sort),
            Effect::SortRows(pane, rows, sort) => Act::SortRows(*pane, *rows, *sort),
            Effect::SetCursor(pane, row, col) => Act::SetCursor(*pane, *row, *col),
            Effect::RefreshEditability(pane) => Act::RefreshEditability(*pane),
            Effect::DiscardChanges(pane) => Act::DiscardChanges(*pane),
            Effect::Browse(relation) => Act::Browse(relation.parts()),
            Effect::Record(connection, sql) => Act::Record(*connection, sql@),
            Effect::FinishRecord { id, millis, count, message } => Act::FinishRecord {
                id: *id,
                millis: *millis,
                count: *count,
                message: maybe(*message),
            },
            Effect::ReloadLists => Act::ReloadLists,
            Effect::SetCatalog(session) => Act::SetCatalog(*session),
            Effect::Tell(session, order) => Act::Tell(*session, order@),
            Effect::Follow => Act::Follow,
            Effect::ObjectMenu(relation) => Act::ObjectMenu(relation.parts()),
            Effect::ObjectSheet(relation, op) => Act::ObjectSheet(relation.parts(), *op),
            Effect::HydrateStructure => Act::HydrateStructure,
            Effect::DemoStructure(relation, preview) => Act::DemoStructure(
                match relation {
                    Some(relation) => Some(relation.parts()),
                    None => None,
                },
                *preview,
            ),
            Effect::AdoptStructure(editor, relation) => Act::AdoptStructure(
                *editor,
                relation.parts(),
            ),
            Effect::Retarget(from, to) => Act::Retarget(from.parts(), name(*to)),
            Effect::SyncStructure(editor) => Act::SyncStructure(*editor),
            Effect::FocusStructure(editor) => Act::FocusStructure(*editor),
            Effect::FinishObject(failed) => Act::FinishObject(*failed),
            Effect::Complete(text) => Act::Complete(text@),
            Effect::DatabaseMenu => Act::DatabaseMenu,
            Effect::OpenPalette(mode) => Act::OpenPalette(*mode),
            Effect::ClosePalette => Act::ClosePalette,
            Effect::NameQuery { suggested, scope, replacing, taken } => Act::NameQuery {
                suggested: suggested@,
                scope: scope@,
                replacing: *replacing,
                taken: texts(taken@),
            },
            Effect::SaveQuery(query) => Act::SaveQuery(query@),
            Effect::DeleteQuery(id) => Act::DeleteQuery(*id),
            Effect::RowMenu(row, column) => Act::RowMenu(*row, *column),
            Effect::Perform(command) => Act::Perform(*command),
            Effect::ShowTheme(appearance) => Act::ShowTheme(*appearance),
            Effect::SaveSettings => Act::SaveSettings,
            Effect::Dress { pane, tab_size, line_numbers, density, zebra } => Act::Dress {
                pane: *pane,
                tab_size: *tab_size,
                line_numbers: *line_numbers,
                density: *density,
                zebra: *zebra,
            },
            Effect::Refresh => Act::Refresh,
            Effect::GoToLine(line) => Act::GoToLine(*line),
        }
    }
}

/// Which of the surfaces over the window are up.
#[derive(Clone, Copy, PartialEq, Eq, Structural, Debug)]
pub struct Surfaces {
    pub palette: bool,
    pub save_sheet: bool,
    pub export_sheet: bool,
    pub import_sheet: bool,
    pub object_sheet: bool,
    pub commit_preview: bool,
    pub object_menu: bool,
    pub row_menu: bool,
    pub database_menu: bool,
    /// Which of the two lists of a condition being written.
    pub filter_menu: Option<FilterMenu>,
    pub decoder_menu: bool,
    /// The menu of a tab.
    pub tab_menu: Option<TabMenu>,
    /// Whether a seam is being dragged.
    pub dragging: bool,
}

/// The tab a menu is about.
#[derive(Clone, Copy, PartialEq, Eq, Structural, Debug)]
pub struct TabMenu {
    pub pane: usize,
    pub index: usize,
}

/// The statements a structure save is about to send, while they are being
/// read.
#[derive(Debug)]
pub struct StructurePreview {
    pub editor: usize,
    pub statements: Vec<String>,
    pub creating: bool,
    /// Where the table is. `None` when it is being created.
    pub from: Option<RelationRef>,
    /// Where it is meant to be afterwards.
    pub to: RelationRef,
}

/// A preview, as a value.
#[verifier::ext_equal]
pub struct PreviewView {
    pub editor: usize,
    pub statements: Seq<Seq<char>>,
    pub creating: bool,
    pub from: Option<(Seq<char>, Seq<char>)>,
    pub to: (Seq<char>, Seq<char>),
}

impl View for StructurePreview {
    type V = PreviewView;

    open spec fn view(&self) -> PreviewView {
        PreviewView {
            editor: self.editor,
            statements: texts(self.statements@),
            creating: self.creating,
            from: name(self.from),
            to: self.to.parts(),
        }
    }
}

/// A structure save that has been sent and not yet answered.
#[derive(Debug)]
pub struct PendingStructure {
    pub editor: usize,
    /// Where the table was before the save. `None` when it was being created.
    pub from: Option<RelationRef>,
    /// Where it is meant to be afterwards.
    pub to: RelationRef,
}

/// A structure save on its way, as a value.
#[verifier::ext_equal]
pub struct PendingStructureView {
    pub editor: usize,
    pub from: Option<(Seq<char>, Seq<char>)>,
    pub to: (Seq<char>, Seq<char>),
}

impl View for PendingStructure {
    type V = PendingStructureView;

    open spec fn view(&self) -> PendingStructureView {
        PendingStructureView {
            editor: self.editor,
            from: name(self.from),
            to: self.to.parts(),
        }
    }
}

/// What a launch was told to do as soon as it can be done.
#[derive(Debug)]
pub struct Pending {
    /// Tables to open once there is a catalog. The last one is in front.
    pub open: Vec<RelationRef>,
    /// A key to open once the walk has turned it up.
    pub key: Option<String>,
    /// The page a browsed table should open on.
    pub page: Option<usize>,
    /// A database to move to once the first catalog is in.
    pub switch: Option<String>,
    /// A table to browse once that database is open.
    pub after: Option<RelationRef>,
    /// The cell to put the cursor on once rows land.
    pub cell: Option<(usize, usize)>,
    /// A table to browse again as soon as the catalog it belongs to arrives.
    pub rebrowse: Option<RelationRef>,
    /// Whether to follow the reference under the cursor once rows land.
    pub follow: bool,
    /// An object whose menu, or whose sheet, to open once there is a catalog.
    pub demo: Option<(RelationRef, Option<ObjectOp>)>,
    /// A table to design once there is a catalog, or a new one, and whether to
    /// show the preview over it.
    pub design: Option<(Option<RelationRef>, bool)>,
    /// The column whose decoders to open once there is something to decode.
    pub decoder: Option<String>,
    /// What to type into the console whenever a catalog arrives.
    pub complete: Option<String>,
    /// Whether to open the database menu whenever a catalog arrives.
    pub switcher: bool,
}

/// What a launch was told to do, as a value.
#[verifier::ext_equal]
pub struct PendingView {
    pub open: Seq<(Seq<char>, Seq<char>)>,
    pub key: Option<Seq<char>>,
    pub page: Option<usize>,
    pub switch: Option<Seq<char>>,
    pub after: Option<(Seq<char>, Seq<char>)>,
    pub cell: Option<(usize, usize)>,
    pub rebrowse: Option<(Seq<char>, Seq<char>)>,
    pub follow: bool,
    pub demo: Option<((Seq<char>, Seq<char>), Option<ObjectOp>)>,
    pub design: Option<(Option<(Seq<char>, Seq<char>)>, bool)>,
    pub decoder: Option<Seq<char>>,
    pub complete: Option<Seq<char>>,
    pub switcher: bool,
}

/// The names of some relations.
pub open spec fn names(list: Seq<RelationRef>) -> Seq<(Seq<char>, Seq<char>)> {
    Seq::new(list.len(), |i: int| list[i].parts())
}

/// The name of an optional relation.
pub open spec fn name(relation: Option<RelationRef>) -> Option<(Seq<char>, Seq<char>)> {
    match relation {
        Some(relation) => Some(relation.parts()),
        None => None,
    }
}

impl View for Pending {
    type V = PendingView;

    open spec fn view(&self) -> PendingView {
        PendingView {
            open: names(self.open@),
            key: maybe(self.key),
            page: self.page,
            switch: maybe(self.switch),
            after: name(self.after),
            cell: self.cell,
            rebrowse: name(self.rebrowse),
            follow: self.follow,
            demo: match self.demo {
                Some(demo) => Some((demo.0.parts(), demo.1)),
                None => None,
            },
            design: match self.design {
                Some(design) => Some((name(design.0), design.1)),
                None => None,
            },
            decoder: maybe(self.decoder),
            complete: maybe(self.complete),
            switcher: self.switcher,
        }
    }
}

/// Nothing to do later.
pub open spec fn nothing_pending() -> PendingView {
    PendingView {
        open: Seq::empty(),
        key: None,
        page: None,
        switch: None,
        after: None,
        cell: None,
        rebrowse: None,
        follow: false,
        demo: None,
        design: None,
        decoder: None,
        complete: None,
        switcher: false,
    }
}

impl Pending {
    /// Nothing to do later.
    pub fn none() -> (pending: Pending)
        ensures
            pending@ == nothing_pending(),
    {
        let pending = Pending {
            open: Vec::new(),
            key: None,
            page: None,
            switch: None,
            after: None,
            cell: None,
            rebrowse: None,
            follow: false,
            demo: None,
            design: None,
            decoder: None,
            complete: None,
            switcher: false,
        };
        assert(pending@ =~= nothing_pending());
        pending
    }
}

/// The window.
pub struct Workspace {
    pub left_open: bool,
    pub right_open: bool,
    pub dock_open: bool,
    /// The dock has been given the whole centre for a moment.
    pub dock_maximized: bool,
    pub sidebar_tab: SidebarTab,
    pub inspector_tab: InspectorTab,
    /// The field that has been asked to show all of itself, by column.
    pub expanded_field: Option<usize>,
    pub tree: Vec<TreeNode>,
    /// The rows of the tree that are closed, by id.
    pub collapsed: Vec<usize>,
    pub selected_node: Option<usize>,
    /// Every pane in the window, in no particular order.
    pub panes: Vec<Pane>,
    /// The panes in the order the eye meets them.
    pub layout: Vec<usize>,
    /// The pane keystrokes go to and the dock reports on.
    pub active_pane: usize,
    /// The next id to hand out. Never reused, so a stale id names a pane that
    /// is gone rather than someone else's.
    pub next_pane: usize,
    /// The pane whose statement is in flight, so its rows land in it even if
    /// the focus moved to another pane while the server was thinking.
    pub running_pane: Option<usize>,
    /// The message log, oldest first.
    pub messages: Vec<RunMessage>,
    /// How many messages are kept.
    pub messages_kept: usize,
    pub connections: Vec<ConnectionConfig>,
    pub saved: Vec<SavedQuery>,
    /// The session the active tab is looking at, which is what the sidebar,
    /// the titlebar and the status bar are all describing.
    pub session: Option<usize>,
    /// Every session of this window, one per database.
    pub sessions: Vec<Held>,
    pub settings: Settings,
    /// The history row the statement in flight is being recorded into.
    pub pending_history: Option<i64>,
    /// What the transaction in flight is, when it is an import.
    pub import_note: Option<String>,
    pub surfaces: Surfaces,
    pub structure_preview: Option<StructurePreview>,
    pub pending_structure: Option<PendingStructure>,
    pub pending: Pending,
    /// The connection the last session was on, waiting for the first frame.
    pub reopen: Option<u128>,
    /// And which database on it, when that was not the connection's own.
    pub reopen_database: Option<String>,
    /// Whether the first frame has been drawn.
    pub booted: bool,
    /// What is to be done, in order.
    pub outbox: Vec<Effect>,
}

/// The window, as a value.
#[verifier::ext_equal]
pub struct WindowView {
    pub left_open: bool,
    pub right_open: bool,
    pub dock_open: bool,
    pub dock_maximized: bool,
    pub sidebar_tab: SidebarTab,
    pub inspector_tab: InspectorTab,
    pub expanded_field: Option<usize>,
    pub tree: Seq<Entry>,
    pub collapsed: Seq<usize>,
    pub selected_node: Option<usize>,
    pub panes: Seq<PaneView>,
    pub layout: Seq<usize>,
    pub active_pane: usize,
    pub next_pane: usize,
    pub running_pane: Option<usize>,
    pub messages: Seq<MessageView>,
    pub messages_kept: usize,
    pub connections: Seq<ConfigView>,
    pub saved: Seq<SavedView>,
    pub session: Option<usize>,
    pub sessions: Seq<HeldView>,
    pub settings: Settings,
    pub pending_history: Option<i64>,
    pub import_note: Option<Seq<char>>,
    pub surfaces: Surfaces,
    pub structure_preview: Option<PreviewView>,
    pub pending_structure: Option<PendingStructureView>,
    pub pending: PendingView,
    pub reopen: Option<u128>,
    pub reopen_database: Option<Seq<char>>,
    pub booted: bool,
    pub outbox: Seq<Act>,
}

impl View for Workspace {
    type V = WindowView;

    open spec fn view(&self) -> WindowView {
        WindowView {
            left_open: self.left_open,
            right_open: self.right_open,
            dock_open: self.dock_open,
            dock_maximized: self.dock_maximized,
            sidebar_tab: self.sidebar_tab,
            inspector_tab: self.inspector_tab,
            expanded_field: self.expanded_field,
            tree: entries(self.tree@),
            collapsed: self.collapsed@,
            selected_node: self.selected_node,
            panes: views(self.panes@),
            layout: self.layout@,
            active_pane: self.active_pane,
            next_pane: self.next_pane,
            running_pane: self.running_pane,
            messages: views(self.messages@),
            messages_kept: self.messages_kept,
            connections: views(self.connections@),
            saved: views(self.saved@),
            session: self.session,
            sessions: views(self.sessions@),
            settings: self.settings,
            pending_history: self.pending_history,
            import_note: maybe(self.import_note),
            surfaces: self.surfaces,
            structure_preview: seen(self.structure_preview),
            pending_structure: seen(self.pending_structure),
            pending: self.pending@,
            reopen: self.reopen,
            reopen_database: maybe(self.reopen_database),
            booted: self.booted,
            outbox: views(self.outbox@),
        }
    }
}

/// Where a pane is in the list of panes, and the length of the list where it
/// is not.
pub open spec fn place_of(panes: Seq<PaneView>, id: usize) -> int
    decreases panes.len(),
{
    if panes.len() == 0 {
        0
    } else if panes[0].id == id {
        0
    } else {
        1 + place_of(panes.drop_first(), id)
    }
}

/// Whether a pane is in the list of panes.
pub open spec fn has_pane(panes: Seq<PaneView>, id: usize) -> bool {
    place_of(panes, id) < panes.len()
}

/// Where the active pane is in the list of panes.
pub open spec fn here(window: WindowView) -> int {
    place_of(window.panes, window.active_pane)
}

/// The active pane.
pub open spec fn active_pane(window: WindowView) -> PaneView {
    window.panes[here(window)]
}

/// The tab the window is showing, if there is one.
pub open spec fn active_tab(window: WindowView) -> Option<TabView> {
    showing(active_pane(window))
}

/// The window with one pane changed.
pub open spec fn with_pane(window: WindowView, at: int, pane: PaneView) -> WindowView {
    WindowView { panes: window.panes.update(at, pane), ..window }
}

/// The window with the active pane changed.
pub open spec fn with_active(window: WindowView, pane: PaneView) -> WindowView {
    with_pane(window, here(window), pane)
}

/// The window with one more thing to be done.
pub open spec fn then_do(window: WindowView, act: Act) -> WindowView {
    WindowView { outbox: window.outbox.push(act), ..window }
}

/// What holds of the window at every moment: the active pane is in the list,
/// no two panes share an id, an id that was handed out is not handed out again,
/// and the layout has something in it, all of it panes, none of them twice.
#[verifier::opaque]
pub open spec fn well_formed(window: WindowView) -> bool {
    &&& has_pane(window.panes, window.active_pane)
    &&& forall|i: int, j: int|
        0 <= i < j < window.panes.len() ==> (#[trigger] window.panes[i]).id != (
        #[trigger] window.panes[j]).id
    &&& forall|i: int|
        0 <= i < window.panes.len() ==> (#[trigger] window.panes[i]).id < window.next_pane
    &&& forall|i: int|
        0 <= i < window.layout.len() ==> has_pane(window.panes, #[trigger] window.layout[i])
    &&& window.layout.len() > 0
    &&& window.layout.no_duplicates()
}

/// Whether every pane is in the layout. A window that could not read its layout
/// back starts with its first pane alone there, and any other is out of sight.
pub open spec fn all_laid_out(window: WindowView) -> bool {
    forall|i: int|
        0 <= i < window.panes.len() ==> window.layout.contains((#[trigger] window.panes[i]).id)
}

/// A session the window holds, by its number.
pub open spec fn session_of(sessions: Seq<HeldView>, id: usize) -> Option<SessionView> {
    if id < sessions.len() && sessions[id as int].open {
        Some(sessions[id as int].session)
    } else {
        None
    }
}

/// The session the window is describing.
pub open spec fn described(window: WindowView) -> Option<SessionView> {
    match window.session {
        Some(id) => session_of(window.sessions, id),
        None => None,
    }
}

/// The catalog the window is working from, if it has one.
pub open spec fn catalog(window: WindowView) -> Option<SchemaSnapshot> {
    match described(window) {
        Some(session) => session.snapshot,
        None => None,
    }
}

/// Whether the window knows that a relation is not there: there is a catalog,
/// and it does not have it. Not knowing is not the same as no.
pub open spec fn known_absent(window: WindowView, relation: (Seq<char>, Seq<char>)) -> bool {
    match catalog(window) {
        Some(snapshot) => !catalog_has(snapshot, relation),
        None => false,
    }
}

/// The relation the showing tab browses, if it browses one.
pub open spec fn browsed(window: WindowView) -> Option<(Seq<char>, Seq<char>)> {
    match active_tab(window) {
        Some(tab) => tab.relation,
        None => None,
    }
}

/// The relation of the showing tab, if that is a table tab.
pub open spec fn browsed_table(window: WindowView) -> Option<(Seq<char>, Seq<char>)> {
    match active_tab(window) {
        Some(tab) => if tab.kind is Table {
            tab.relation
        } else {
            None
        },
        None => None,
    }
}

/// Where a pane is, in terms of the pane it is.
pub proof fn lemma_place_of(panes: Seq<PaneView>, id: usize, at: int)
    requires
        0 <= at <= panes.len(),
        at < panes.len() ==> panes[at].id == id,
        forall|i: int| 0 <= i < at ==> (#[trigger] panes[i]).id != id,
    ensures
        place_of(panes, id) == at,
    decreases panes.len(),
{
    if at > 0 {
        let rest = panes.drop_first();
        assert forall|i: int| 0 <= i < at - 1 implies (#[trigger] rest[i]).id != id by {
            assert(rest[i] == panes[i + 1]);
        }
        assert(panes[0].id != id);
        lemma_place_of(rest, id, at - 1);
    }
}

/// The place of a pane is a place, and the pane there is the pane.
pub proof fn lemma_place_bounds(panes: Seq<PaneView>, id: usize)
    ensures
        0 <= place_of(panes, id) <= panes.len(),
        place_of(panes, id) < panes.len() ==> panes[place_of(panes, id)].id == id,
        forall|i: int| 0 <= i < place_of(panes, id) ==> (#[trigger] panes[i]).id != id,
    decreases panes.len(),
{
    if panes.len() > 0 && panes[0].id != id {
        let rest = panes.drop_first();
        lemma_place_bounds(rest, id);
        assert forall|i: int| 0 <= i < place_of(panes, id) implies (#[trigger] panes[i]).id != id by {
            if i > 0 {
                assert(panes[i] == rest[i - 1]);
            }
        }
    }
}

/// The active pane is in the list.
pub broadcast proof fn lemma_active(window: WindowView)
    requires
        well_formed(window),
    ensures
        #![trigger active_pane(window)]
        0 <= here(window) < window.panes.len(),
        active_pane(window).id == window.active_pane,
{
    reveal(well_formed);
    lemma_place_bounds(window.panes, window.active_pane);
}

/// Changing the active pane leaves the window well formed, and that pane the
/// active one.
pub broadcast proof fn lemma_active_changed(window: WindowView, pane: PaneView)
    requires
        well_formed(window),
        pane.id == window.active_pane,
    ensures
        #![trigger with_active(window, pane)]
        well_formed(with_active(window, pane)),
        here(with_active(window, pane)) == here(window),
        active_pane(with_active(window, pane)) == pane,
{
    reveal(well_formed);
    lemma_place_bounds(window.panes, window.active_pane);
    lemma_place_kept(window.panes, here(window), pane, window.active_pane);
    let after = with_active(window, pane);
    assert forall|i: int| 0 <= i < after.layout.len() implies has_pane(
        after.panes,
        #[trigger] after.layout[i],
    ) by {
        assert(has_pane(window.panes, window.layout[i]));
        lemma_place_kept(window.panes, here(window), pane, window.layout[i]);
    }
}

/// Whether two windows have the same panes, in the same places.
pub open spec fn same_frame(a: WindowView, b: WindowView) -> bool {
    &&& a.panes == b.panes
    &&& a.layout == b.layout
    &&& a.active_pane == b.active_pane
    &&& a.next_pane == b.next_pane
}

/// Only the panes make a window well formed.
pub proof fn lemma_same_frame(a: WindowView, b: WindowView)
    requires
        same_frame(a, b),
    ensures
        well_formed(a) == well_formed(b),
        active_pane(a) == active_pane(b),
{
    reveal(well_formed);
}

/// Leaving something to be done moves no pane.
pub broadcast proof fn lemma_then_do(window: WindowView, act: Act)
    ensures
        #![trigger then_do(window, act)]
        well_formed(then_do(window, act)) == well_formed(window),
        active_pane(then_do(window, act)) == active_pane(window),
        same_frame(then_do(window, act), window),
{
    reveal(well_formed);
}

pub broadcast group group_window {
    lemma_then_do,
    lemma_active,
    lemma_active_changed,
}

/// Changing a pane but not its id moves no pane.
pub proof fn lemma_place_kept(panes: Seq<PaneView>, at: int, pane: PaneView, id: usize)
    requires
        0 <= at < panes.len(),
        pane.id == panes[at].id,
    ensures
        place_of(panes.update(at, pane), id) == place_of(panes, id),
{
    lemma_place_bounds(panes, id);
    let changed = panes.update(at, pane);
    let place = place_of(panes, id);
    assert forall|i: int| 0 <= i < place implies (#[trigger] changed[i]).id != id by {
        assert(panes[i].id != id);
    }
    lemma_place_of(changed, id, place);
}

impl Workspace {
    /// Leave something to be done.
    pub fn say(&mut self, effect: Effect)
        ensures
            final(self)@ == then_do(old(self)@, effect@),
            final(self).panes == old(self).panes,
            final(self).sessions == old(self).sessions,
    {
        self.outbox.push(effect);
        assert(self@ =~= then_do(old(self)@, effect@));
    }

    /// Where a pane is in the list of panes, and the length of the list where
    /// it is not.
    pub fn find(&self, id: usize) -> (at: usize)
        ensures
            at == place_of(self@.panes, id),
            at <= self.panes@.len(),
            at < self.panes@.len() ==> self.panes@[at as int].id == id,
    {
        let mut at: usize = 0;
        while at < self.panes.len() && self.panes[at].id != id
            invariant
                at <= self.panes@.len(),
                forall|i: int| 0 <= i < at ==> (#[trigger] self@.panes[i]).id != id,
            decreases self.panes@.len() - at,
        {
            at += 1;
        }
        proof {
            lemma_place_of(self@.panes, id, at as int);
        }
        at
    }

    /// The pane of an id, if the window has it.
    pub fn pane_by(&self, id: usize) -> (pane: Option<&Pane>)
        ensures
            match pane {
                Some(pane) => has_pane(self@.panes, id) && pane@ == self@.panes[place_of(
                    self@.panes,
                    id,
                )],
                None => !has_pane(self@.panes, id),
            },
    {
        let at = self.find(id);
        assert(self@.panes.len() == self.panes@.len());
        if at < self.panes.len() {
            Some(&self.panes[at])
        } else {
            None
        }
    }

    /// The active pane.
    pub fn pane(&self) -> (pane: &Pane)
        requires
            well_formed(self@),
        ensures
            pane@ == active_pane(self@),
    {
        &self.panes[self.active_at()]
    }

    /// The settings the window is running under.
    pub fn settings(&self) -> (settings: &Settings)
        ensures
            *settings == self@.settings,
    {
        &self.settings
    }

    /// Where the active pane is in the list of panes.
    pub fn active_at(&self) -> (at: usize)
        requires
            well_formed(self@),
        ensures
            at == here(self@),
            at < self.panes@.len(),
            self.panes@[at as int]@ == active_pane(self@),
            self.panes@[at as int].id == self.active_pane,
    {
        reveal(well_formed);
        self.find(self.active_pane)
    }

    /// The session the window is describing, if it is there.
    pub fn described(&self) -> (session: Option<&Session>)
        ensures
            match session {
                Some(session) => described(self@) == Some(session@),
                None => described(self@) is None,
            },
    {
        match self.session {
            Some(id) => self.session_at(id),
            None => None,
        }
    }

    /// A session the window holds, by its number.
    pub fn session_at(&self, id: usize) -> (session: Option<&Session>)
        ensures
            match session {
                Some(session) => session_of(self@.sessions, id) == Some(session@),
                None => session_of(self@.sessions, id) is None,
            },
    {
        if id < self.sessions.len() && self.sessions[id].open {
            Some(&self.sessions[id].session)
        } else {
            None
        }
    }

    /// Whether the window knows that a relation is not there.
    pub fn lacks(&self, relation: &RelationRef) -> (answer: bool)
        ensures
            answer == known_absent(self@, relation.parts()),
    {
        match self.described() {
            Some(session) => match &session.snapshot {
                Some(snapshot) => !snapshot.has(relation),
                None => false,
            },
            None => false,
        }
    }

    /// The table the showing tab names, when the open connection has no such
    /// table. Nothing while there is no catalog to check against, because "not
    /// found" and "not looked yet" are different answers.
    pub fn absent_relation(&self) -> (relation: Option<RelationRef>)
        requires
            well_formed(self@),
        ensures
            name(relation) == match browsed_table(self@) {
                Some(relation) => if known_absent(self@, relation) {
                    Some(relation)
                } else {
                    None
                },
                None => None,
            },
    {
        let at = self.active_at();
        match self.panes[at].active() {
            Some(tab) => {
                if tab.kind != CenterKind::Table {
                    return None;
                }
                match &tab.relation {
                    Some(relation) => if self.lacks(relation) {
                        Some(relation.clone())
                    } else {
                        None
                    },
                    None => None,
                }
            },
            None => None,
        }
    }
}

} // verus!
