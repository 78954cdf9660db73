//! The window as it is built, before its first frame.
use crate::catalog::ConnectionConfig;
use crate::lists::{group_views, views};
use crate::pane::{empty_pane, script_tab, CenterKind, CenterTab, Pane, PaneView, TabView};
use crate::preferences::{dressed, lemma_dressed};
use crate::settings::{Appearance, Settings};
use crate::text::maybe;
use crate::tree::{entries, TreeNode};
use crate::window::{
    has_pane, lemma_place_of, nothing_pending, well_formed, InspectorTab, Pending, SavedQuery,
    SidebarTab, Surfaces, WindowView, Workspace,
};
use vstd::prelude::*;

verus! {

broadcast use group_views;

/// The row of the sample tree that is selected.
pub const SAMPLE_NODE: usize = 12;

/// What a window is built from.
pub struct Start {
    /// Whether each panel was open, where that was written down.
    pub left_open: Option<bool>,
    pub right_open: Option<bool>,
    pub dock_open: Option<bool>,
    pub settings: Settings,
    pub connections: Vec<ConnectionConfig>,
    pub saved: Vec<SavedQuery>,
    /// The panes that were written down: their tabs, and which one showed.
    pub restored: Option<Vec<(Vec<CenterTab>, usize)>>,
    /// The connection and the database that were open.
    pub connection: Option<u128>,
    pub database: Option<String>,
    /// The panes in the order the eye meets them, by their places, where that
    /// was written down.
    pub layout: Option<Vec<usize>>,
    pub active_pane: usize,
    /// Whether the launch was told where to connect.
    pub told_where: bool,
    /// What a window with nothing to connect to shows.
    pub sample_sql: String,
    pub sample_rows: usize,
    pub sample_tree: Vec<TreeNode>,
    pub messages_kept: usize,
}

/// A pane that was written down, as a value.
pub struct SavedPane {
    pub tabs: Seq<TabView>,
    pub active: usize,
}

/// Panes that were written down, as values.
pub open spec fn saved_panes(panes: Seq<(Vec<CenterTab>, usize)>) -> Seq<SavedPane> {
    Seq::new(panes.len(), |i: int| SavedPane { tabs: views(panes[i].0@), active: panes[i].1 })
}

/// The connection a window opens again: the last one, where the settings ask
/// for the window to come back and for that.
pub open spec fn reopened_id(start: Start) -> Option<u128> {
    if start.settings.restore_session != Some(false) && start.settings.reopen_connection != Some(
        false,
    ) {
        start.connection
    } else {
        None
    }
}

/// Whether a window is about to open a connection. Such a window has no
/// business showing the sample.
pub open spec fn is_connecting(start: Start) -> bool {
    reopened_id(start) is Some || start.told_where
}

/// The tabs of the sample.
pub open spec fn sample_tabs() -> Seq<TabView> {
    seq![
        TabView { dirty: true, ..script_tab("mrr_by_plan.sql"@, None) },
        TabView {
            kind: CenterKind::Table,
            detail: Some("public"@),
            ..script_tab("users"@, None)
        },
    ]
}

/// The panes a window starts with: what was written down, nothing while it is
/// about to connect, and otherwise the sample.
pub open spec fn first_panes(start: Start) -> Seq<SavedPane> {
    match start.restored {
        Some(panes) => if start.settings.restore_session != Some(false) {
            saved_panes(panes@)
        } else {
            fallback_panes(start)
        },
        None => fallback_panes(start),
    }
}

/// The panes of a window that has nothing to put back.
pub open spec fn fallback_panes(start: Start) -> Seq<SavedPane> {
    seq![
        SavedPane {
            tabs: if is_connecting(start) {
                Seq::empty()
            } else {
                sample_tabs()
            },
            active: 0,
        },
    ]
}

/// The text of the tab that shows, where there is one.
pub open spec fn script_of(pane: SavedPane) -> Seq<char> {
    if pane.active < pane.tabs.len() {
        pane.tabs[pane.active as int].sql
    } else {
        Seq::empty()
    }
}

/// A pane as the window starts with it. The first one holds the sample until
/// something else is asked for; any other comes up empty.
pub open spec fn first_pane(start: Start, index: int, saved: SavedPane) -> PaneView {
    let pane = PaneView {
        tabs: saved.tabs,
        active_tab: saved.active,
        console: script_of(saved),
        ..empty_pane(index as usize)
    };
    if index == 0 {
        PaneView {
            console: if script_of(saved).len() > 0 {
                script_of(saved)
            } else if is_connecting(start) {
                Seq::empty()
            } else {
                start.sample_sql@
            },
            row_count: if is_connecting(start) {
                0
            } else {
                start.sample_rows
            },
            selected_row: Some(0),
            ..pane
        }
    } else {
        pane
    }
}

/// Whether a layout is one of so many panes: it has each of them once.
pub open spec fn is_layout(layout: Seq<usize>, count: nat) -> bool {
    &&& layout.len() == count
    &&& layout.no_duplicates()
    &&& forall|i: int| 0 <= i < layout.len() ==> (#[trigger] layout[i]) < count
}

/// The layout a window starts with: the one that was written down, and the
/// first pane alone where that is not a layout of its panes.
pub open spec fn first_layout(start: Start) -> Seq<usize> {
    match start.layout {
        Some(layout) => if is_layout(layout@, first_panes(start).len()) {
            layout@
        } else {
            seq![0usize]
        },
        None => seq![0usize],
    }
}

/// The pane a window starts in: the one that was written down, and the first
/// where there is no such pane.
pub open spec fn first_active(start: Start) -> usize {
    if start.active_pane < first_panes(start).len() {
        start.active_pane
    } else {
        0
    }
}

/// A window as it is built: with its panes given their settings, each as it is
/// made.
pub open spec fn opened_window(start: Start) -> WindowView {
    dressed(bare_window(start), bare_window(start).panes.len() as int)
}

/// A window before its panes have their settings.
pub open spec fn bare_window(start: Start) -> WindowView {
    let panes = first_panes(start);
    let connecting = is_connecting(start);
    WindowView {
        left_open: start.left_open != Some(false),
        right_open: start.right_open != Some(false),
        dock_open: start.dock_open != Some(false),
        dock_maximized: false,
        sidebar_tab: SidebarTab::Database,
        inspector_tab: InspectorTab::Row,
        expanded_field: None,
        tree: if connecting {
            Seq::empty()
        } else {
            entries(start.sample_tree@)
        },
        collapsed: Seq::empty(),
        selected_node: if connecting {
            None
        } else {
            Some(SAMPLE_NODE)
        },
        panes: Seq::new(panes.len(), |i: int| first_pane(start, i, panes[i])),
        layout: first_layout(start),
        active_pane: first_active(start),
        next_pane: panes.len() as usize,
        running_pane: None,
        messages: Seq::empty(),
        messages_kept: start.messages_kept,
        connections: views(start.connections@),
        saved: views(start.saved@),
        session: None,
        sessions: Seq::empty(),
        settings: start.settings,
        pending_history: None,
        import_note: None,
        surfaces: nothing_up(),
        structure_preview: None,
        pending_structure: None,
        pending: nothing_pending(),
        reopen: reopened_id(start),
        reopen_database: match reopened_id(start) {
            Some(_) => maybe(start.database),
            None => None,
        },
        booted: false,
        outbox: Seq::empty(),
    }
}

/// No surface over the window.
pub open spec fn nothing_up() -> Surfaces {
    Surfaces {
        palette: false,
        save_sheet: false,
        export_sheet: false,
        import_sheet: false,
        object_sheet: false,
        commit_preview: false,
        object_menu: false,
        row_menu: false,
        database_menu: false,
        filter_menu: None,
        decoder_menu: false,
        tab_menu: None,
        dragging: false,
    }
}

/// What holds of what a window is built from: there is a pane in what was
/// written down, where that is put back.
pub open spec fn buildable(start: Start) -> bool {
    first_panes(start).len() > 0
}

/// A window that was just built is well formed.
pub proof fn a_new_window_is_well_formed(start: Start)
    requires
        buildable(start),
        first_panes(start).len() <= usize::MAX,
    ensures
        well_formed(opened_window(start)),
{
    reveal(well_formed);
    let window = bare_window(start);
    lemma_dressed(window, window.panes.len() as int);
    assert forall|id: usize| id < window.panes.len() implies #[trigger] has_pane(
        window.panes,
        id,
    ) by {
        lemma_place_of(window.panes, id, id as int);
    }
    assert(has_pane(window.panes, window.active_pane));
    assert forall|i: int| 0 <= i < window.layout.len() implies has_pane(
        window.panes,
        #[trigger] window.layout[i],
    ) by {
        assert(window.layout[i] < first_panes(start).len());
    }
}

/// Which appearance a window starts in: the one the launch forced, the one
/// that was chosen, and otherwise the one the theme has.
pub fn first_appearance(settings: &Settings, forced: bool, theme: Appearance) -> (appearance:
    Appearance)
    ensures
        appearance == if forced {
            theme
        } else {
            match crate::settings::appearance_of(maybe(settings.appearance)) {
                Some(appearance) => appearance,
                None => theme,
            }
        },
{
    if forced {
        return theme;
    }
    match settings.appearance() {
        Some(appearance) => appearance,
        None => theme,
    }
}

/// The text of the tab that shows, where there is one.
fn script_in(tabs: &Vec<CenterTab>, active: usize) -> (sql: String)
    ensures
        sql@ == script_of(SavedPane { tabs: views(tabs@), active }),
{
    if active < tabs.len() {
        assert(views(tabs@)[active as int] == tabs@[active as int]@);
        tabs[active].sql.clone()
    } else {
        String::new()
    }
}

/// The panes a window starts with, in the order they were written down.
fn build_panes(saved: Vec<(Vec<CenterTab>, usize)>) -> (panes: Vec<Pane>)
    ensures
        views(panes@) == Seq::new(
            saved@.len(),
            |i: int|
                (PaneView {
                    tabs: views(saved@[i].0@),
                    active_tab: saved@[i].1,
                    console: script_of(saved_panes(saved@)[i]),
                    ..empty_pane(i as usize)
                }),
        ),
{
    let ghost all = saved@;
    let ghost want = Seq::new(
        all.len(),
        |i: int|
            (PaneView {
                tabs: views(all[i].0@),
                active_tab: all[i].1,
                console: script_of(saved_panes(all)[i]),
                ..empty_pane(i as usize)
            }),
    );
    let mut rest = saved;
    let mut panes: Vec<Pane> = Vec::new();
    assert(rest@ =~= all.skip(0));
    assert(views(panes@) =~= want.take(0));
    while rest.len() > 0
        invariant
            panes@.len() <= all.len(),
            rest@ == all.skip(panes@.len() as int),
            views(panes@) == want.take(panes@.len() as int),
            want.len() == all.len(),
            forall|i: int|
                0 <= i < all.len() ==> (#[trigger] want[i]) == (PaneView {
                    tabs: views(all[i].0@),
                    active_tab: all[i].1,
                    console: script_of(saved_panes(all)[i]),
                    ..empty_pane(i as usize)
                }),
        decreases rest@.len(),
    {
        let ghost at = panes@.len() as int;
        let (tabs, active) = rest.remove(0);
        assert((tabs, active) == all[at]);
        assert(saved_panes(all)[at] == (SavedPane { tabs: views(tabs@), active }));
        let console = script_in(&tabs, active);
        let mut pane = Pane::new(panes.len());
        pane.tabs = tabs;
        pane.active_tab = active;
        pane.console = console;
        assert(pane@ =~= want[at]);
        panes.push(pane);
        assert(rest@ =~= all.skip(at + 1));
        assert(views(panes@) =~= want.take(at + 1));
    }
    assert(want.take(panes@.len() as int) =~= want);
    panes
}

/// The tabs of the sample.
fn sample() -> (tabs: Vec<CenterTab>)
    ensures
        views(tabs@) == sample_tabs(),
{
    let script = CenterTab::script("mrr_by_plan.sql", None);
    let users = CenterTab::script("users", None);
    let mut tabs: Vec<CenterTab> = Vec::new();
    let script = CenterTab { dirty: true, ..script };
    assert(script@ =~= sample_tabs()[0]);
    tabs.push(script);
    let users = CenterTab {
        kind: CenterKind::Table,
        detail: Some("public".to_owned()),
        ..users
    };
    assert(users@ =~= sample_tabs()[1]);
    tabs.push(users);
    assert(views(tabs@) =~= sample_tabs());
    tabs
}

/// Whether a layout has each of so many panes once.
fn lays_out(layout: &Vec<usize>, count: usize) -> (fits: bool)
    ensures
        fits == is_layout(layout@, count as nat),
{
    if layout.len() != count {
        return false;
    }
    for at in 0..layout.len()
        invariant
            forall|i: int| 0 <= i < at ==> (#[trigger] layout@[i]) < count,
            forall|i: int, j: int| 0 <= i < j < at ==> layout@[i] != layout@[j],
    {
        if layout[at] >= count {
            return false;
        }
        for before in 0..at
            invariant
                at < layout@.len(),
                forall|i: int| 0 <= i < before ==> layout@[i] != layout@[at as int],
        {
            if layout[before] == layout[at] {
                return false;
            }
        }
    }
    true
}

impl Start {
    /// Whether a window can be built from this.
    pub fn is_buildable(&self) -> (answer: bool)
        ensures
            answer == buildable(*self),
    {
        match &self.restored {
            Some(panes) => !self.settings.restore_session() || panes.len() > 0,
            None => true,
        }
    }
}

impl Workspace {
    /// Build a window.
    pub fn new(start: Start) -> (window: Workspace)
        requires
            buildable(start),
        ensures
            window@ == opened_window(start),
            well_formed(window@),
    {
        let restoring = start.settings.restore_session();
        let reopen = if restoring && start.settings.reopen_connection() {
            start.connection
        } else {
            None
        };
        let connecting = reopen.is_some() || start.told_where;
        let ghost from = start;
        let restored = if restoring {
            start.restored
        } else {
            None
        };
        let saved = match restored {
            Some(panes) => panes,
            None => {
                let mut panes: Vec<(Vec<CenterTab>, usize)> = Vec::new();
                let tabs = if connecting {
                    Vec::new()
                } else {
                    sample()
                };
                panes.push((tabs, 0));
                panes
            },
        };
        assert(saved_panes(saved@) =~= first_panes(from));
        let ghost kept = saved@;
        let mut panes = build_panes(saved);
        let ghost built = panes@;
        let count = panes.len();
        assert(views(built).len() == first_panes(from).len());
        // The first pane is the one the window was built around.
        if panes[0].console.as_str().unicode_len() == 0 && !connecting {
            panes[0].console = start.sample_sql;
        }
        panes[0].row_count = if connecting {
            0
        } else {
            start.sample_rows
        };
        panes[0].selected_row = Some(0);
        proof {
            let want = bare_window(from).panes;
            assert(views(panes@).len() == want.len());
            assert forall|i: int| 0 <= i < want.len() implies views(panes@)[i] == want[i] by {
                assert(views(built)[i] == built[i]@);
                assert(saved_panes(kept)[i] == first_panes(from)[i]);
                if i == 0 {
                    assert(panes@[0]@ =~= want[0]);
                } else {
                    assert(panes@[i] == built[i]);
                    assert(panes@[i]@ =~= want[i]);
                }
            }
            assert(views(panes@) =~= want);
        }
        let layout = match start.layout {
            Some(layout) => if lays_out(&layout, count) {
                layout
            } else {
                vec![0]
            },
            None => vec![0],
        };
        assert(layout@ =~= first_layout(from));
        let tree = if connecting {
            Vec::new()
        } else {
            start.sample_tree
        };
        assert(entries(tree@) =~= bare_window(from).tree);
        let mut window = Workspace {
            left_open: switch_on(start.left_open),
            right_open: switch_on(start.right_open),
            dock_open: switch_on(start.dock_open),
            dock_maximized: false,
            sidebar_tab: SidebarTab::Database,
            inspector_tab: InspectorTab::Row,
            expanded_field: None,
            tree,
            collapsed: Vec::new(),
            selected_node: if connecting {
                None
            } else {
                Some(SAMPLE_NODE)
            },
            panes,
            layout,
            active_pane: if start.active_pane < count {
                start.active_pane
            } else {
                0
            },
            next_pane: count,
            running_pane: None,
            messages: Vec::new(),
            messages_kept: start.messages_kept,
            connections: start.connections,
            saved: start.saved,
            session: None,
            sessions: Vec::new(),
            settings: start.settings,
            pending_history: None,
            import_note: None,
            surfaces: Surfaces {
                palette: false,
                save_sheet: false,
                export_sheet: false,
                import_sheet: false,
                object_sheet: false,
                commit_preview: false,
                object_menu: false,
                row_menu: false,
                database_menu: false,
                filter_menu: None,
                decoder_menu: false,
                tab_menu: None,
                dragging: false,
            },
            structure_preview: None,
            pending_structure: None,
            pending: Pending::none(),
            reopen,
            reopen_database: if reopen.is_some() {
                start.database
            } else {
                None
            },
            booted: false,
            outbox: Vec::new(),
        };
        assert(window@ =~= bare_window(from));
        window.dress_panes();
        proof {
            a_new_window_is_well_formed(from);
        }
        window
    }
}

/// Whether a panel is open: it is, unless it was closed.
fn switch_on(open: Option<bool>) -> (on: bool)
    ensures
        on == (open != Some(false)),
{
    match open {
        Some(open) => open,
        None => true,
    }
}

} // verus!
