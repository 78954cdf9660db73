//! The design tabs of a window: opening them, keeping them in step with their
//! editors, and sending a design as one transaction.
use crate::catalog::{catalog_has, RelationRef, SchemaSnapshot};
use crate::events::knows_table;
use crate::lists::{first, group_views, lemma_first, views};
use crate::pane::{no_filter, CenterKind, CenterTab, Filter, Pane, PaneView, TabView};
use crate::session::busy;
use crate::showing::{group_showing, lemma_same_ids, session_saved, shown};
use crate::structure::{editor_title, is_changed, EditorView, StructureEditor};
use crate::tabbing::tab_added;
use crate::text::{contains, decimal, has, maybe, push_decimal, texts};
use crate::window::{
    active_pane, catalog, described, group_window, has_pane, lemma_same_frame, name, then_do,
    well_formed, Act, Effect, Order, OrderView, PendingStructure, PendingStructureView, PreviewView,
    StructurePreview, WindowView, Workspace,
};
use vstd::prelude::*;

verus! {

broadcast use {group_views, group_window, group_showing};

/// A tab that designs a table.
pub open spec fn design_tab(
    title: Seq<char>,
    detail: Option<Seq<char>>,
    relation: Option<(Seq<char>, Seq<char>)>,
    editor: usize,
    session: Option<usize>,
) -> TabView {
    TabView {
        kind: CenterKind::Structure,
        title,
        detail,
        dirty: false,
        pinned: false,
        relation,
        key: None,
        saved_query: None,
        sql: Seq::empty(),
        filter: no_filter(),
        page: None,
        structure: Some(editor),
        session,
        reconnect: None,
    }
}

/// A design tab added to the active pane and shown, with the keyboard in its
/// editor.
pub open spec fn design_added(window: WindowView, tab: TabView, editor: usize) -> WindowView {
    then_do(
        session_saved(then_do(tab_added(window, tab), Act::FocusStructure(editor))),
        Act::Notify,
    )
}

/// Whether a tab designs a relation.
pub open spec fn designs(relation: (Seq<char>, Seq<char>)) -> spec_fn(TabView) -> bool {
    |tab: TabView| tab.kind is Structure && tab.relation == Some(relation)
}

/// The editor of a table opened. One the catalog does not have opens nothing,
/// and one that is open in this pane is shown: a second tab would be two drafts
/// of one thing.
pub open spec fn structure_opened(
    window: WindowView,
    relation: (Seq<char>, Seq<char>),
    editor: usize,
) -> WindowView {
    if !knows_table(catalog(window), relation) {
        window
    } else {
        let tabs = active_pane(window).tabs;
        let at = first(tabs, designs(relation));
        if at < tabs.len() {
            then_do(shown(window, at), Act::Notify)
        } else {
            design_added(
                window,
                design_tab(
                    relation.1,
                    Some(relation.0),
                    Some(relation),
                    editor,
                    window.session,
                ),
                editor,
            )
        }
    }
}

/// The schema statements are landing in, in words.
pub open spec fn landing_schema(window: WindowView) -> Seq<char> {
    match catalog(window) {
        Some(snapshot) => snapshot.current_schema@,
        None => "\u{2014}"@,
    }
}

/// A table that does not exist yet being designed.
pub open spec fn table_started(window: WindowView, editor: usize) -> WindowView {
    design_added(
        window,
        design_tab(
            "New Table"@,
            Some(landing_schema(window)),
            None,
            editor,
            window.session,
        ),
        editor,
    )
}

/// A save asked for: the statements are shown before they are sent. One with
/// nothing to send shows nothing.
pub open spec fn structure_previewed(window: WindowView, preview: PreviewView) -> WindowView {
    if preview.statements.len() == 0 {
        window
    } else {
        then_do(WindowView { structure_preview: Some(preview), ..window }, Act::Notify)
    }
}

/// Something the editor of a table reports.
#[derive(Clone, Copy, PartialEq, Eq, Structural, Debug)]
pub enum StructureEvent {
    /// The draft changed.
    Changed,
    /// Save was pressed.
    Save,
}

/// What the window does about a report from an editor.
pub open spec fn editor_reported(
    window: WindowView,
    number: usize,
    editor: EditorView,
    event: StructureEvent,
    statements: Seq<Seq<char>>,
) -> WindowView {
    match event {
        StructureEvent::Changed => structure_synced(
            window,
            number,
            editor_title(editor),
            editor.draft.schema,
            is_changed(editor),
            editor.reference,
        ),
        StructureEvent::Save => structure_previewed(
            window,
            PreviewView {
                editor: number,
                statements,
                creating: editor.reference is None,
                from: editor.reference,
                to: (editor.draft.schema, editor.draft.name),
            },
        ),
    }
}

/// The design tab a launch asked for, opened.
pub open spec fn demo_opened(
    window: WindowView,
    reference: Option<(Seq<char>, Seq<char>)>,
    editor: usize,
) -> WindowView {
    match reference {
        Some(relation) => structure_opened(window, relation, editor),
        None => table_started(window, editor),
    }
}

/// The editor of the last tab of the active pane, if it has one.
pub open spec fn last_editor(window: WindowView) -> Option<usize> {
    let tabs = active_pane(window).tabs;
    if tabs.len() == 0 {
        None
    } else {
        tabs.last().structure
    }
}

/// A tab kept in step with a draft.
pub open spec fn tab_synced(
    tab: TabView,
    editor: usize,
    title: Seq<char>,
    schema: Seq<char>,
    dirty: bool,
    relation: Option<(Seq<char>, Seq<char>)>,
) -> TabView {
    if tab.structure == Some(editor) {
        TabView { title, detail: Some(schema), dirty, relation, ..tab }
    } else {
        tab
    }
}

/// The tabs of a pane kept in step with a draft.
pub open spec fn pane_synced(
    pane: PaneView,
    editor: usize,
    title: Seq<char>,
    schema: Seq<char>,
    dirty: bool,
    relation: Option<(Seq<char>, Seq<char>)>,
) -> PaneView {
    PaneView {
        tabs: Seq::new(
            pane.tabs.len(),
            |i: int| tab_synced(pane.tabs[i], editor, title, schema, dirty, relation),
        ),
        ..pane
    }
}

/// Every tab of an editor kept in step with its draft.
pub open spec fn structure_synced(
    window: WindowView,
    editor: usize,
    title: Seq<char>,
    schema: Seq<char>,
    dirty: bool,
    relation: Option<(Seq<char>, Seq<char>)>,
) -> WindowView {
    then_do(
        WindowView {
            panes: Seq::new(
                window.panes.len(),
                |i: int| pane_synced(window.panes[i], editor, title, schema, dirty, relation),
            ),
            ..window
        },
        Act::Notify,
    )
}

/// The statements put away without being sent, and the keyboard back in the
/// editor.
pub open spec fn preview_cancelled(window: WindowView) -> WindowView {
    match window.structure_preview {
        Some(preview) => then_do(
            then_do(
                WindowView { structure_preview: None, ..window },
                Act::FocusStructure(preview.editor),
            ),
            Act::Notify,
        ),
        None => then_do(window, Act::Notify),
    }
}

/// A design sent as one transaction. With no connection, or a busy one, the
/// statements are put away and nothing is sent.
pub open spec fn structure_committed(window: WindowView) -> WindowView {
    match window.structure_preview {
        None => window,
        Some(preview) => {
            let taken = WindowView { structure_preview: None, ..window };
            match (window.session, described(window)) {
                (Some(id), Some(session)) => if busy(session) {
                    taken
                } else {
                    let waiting = WindowView {
                        pending_structure: Some(
                            PendingStructureView {
                                editor: preview.editor,
                                from: preview.from,
                                to: preview.to,
                            },
                        ),
                        ..taken
                    };
                    then_do(
                        then_do(
                            then_do(waiting, Act::FocusStructure(preview.editor)),
                            Act::Tell(id, OrderView::Commit(preview.statements)),
                        ),
                        Act::Notify,
                    )
                },
                _ => taken,
            }
        },
    }
}

/// Whether a design tab is without its editor, for a table the catalog has.
pub open spec fn waits(tab: TabView, snapshot: SchemaSnapshot) -> bool {
    &&& tab.kind is Structure
    &&& tab.structure is None
    &&& tab.relation matches Some(relation) && catalog_has(snapshot, relation)
}

/// How many of some tabs are without their editors.
pub open spec fn waiting(tabs: Seq<TabView>, snapshot: SchemaSnapshot) -> nat
    decreases tabs.len(),
{
    if tabs.len() == 0 {
        0
    } else {
        waiting(tabs.drop_last(), snapshot) + if waits(tabs.last(), snapshot) {
            1nat
        } else {
            0
        }
    }
}

/// How many tabs of some panes are without their editors.
pub open spec fn all_waiting(panes: Seq<PaneView>, snapshot: SchemaSnapshot) -> nat
    decreases panes.len(),
{
    if panes.len() == 0 {
        0
    } else {
        all_waiting(panes.drop_last(), snapshot) + waiting(panes.last().tabs, snapshot)
    }
}

/// The tables of the tabs that are without their editors, in order.
pub open spec fn wanted(tabs: Seq<TabView>, snapshot: SchemaSnapshot) -> Seq<(Seq<char>, Seq<char>)>
    decreases tabs.len(),
{
    if tabs.len() == 0 {
        Seq::empty()
    } else {
        let before = wanted(tabs.drop_last(), snapshot);
        if waits(tabs.last(), snapshot) {
            before.push(tabs.last().relation->Some_0)
        } else {
            before
        }
    }
}

/// The tables of the tabs of some panes that are without their editors, in
/// order.
pub open spec fn all_wanted(panes: Seq<PaneView>, snapshot: SchemaSnapshot) -> Seq<
    (Seq<char>, Seq<char>),
>
    decreases panes.len(),
{
    if panes.len() == 0 {
        Seq::empty()
    } else {
        all_wanted(panes.drop_last(), snapshot) + wanted(panes.last().tabs, snapshot)
    }
}

/// Some tabs with editors given to those that were without, counted from a
/// number on.
pub open spec fn tabs_hydrated(tabs: Seq<TabView>, snapshot: SchemaSnapshot, from: nat) -> Seq<
    TabView,
> {
    Seq::new(
        tabs.len(),
        |i: int|
            if waits(tabs[i], snapshot) {
                TabView {
                    structure: Some((from + waiting(tabs.take(i), snapshot)) as usize),
                    ..tabs[i]
                }
            } else {
                tabs[i]
            },
    )
}

/// Some panes with editors given to the tabs that were without, counted from a
/// number on.
pub open spec fn panes_hydrated(panes: Seq<PaneView>, snapshot: SchemaSnapshot, from: nat) -> Seq<
    PaneView,
> {
    Seq::new(
        panes.len(),
        |i: int|
            PaneView {
                tabs: tabs_hydrated(
                    panes[i].tabs,
                    snapshot,
                    from + all_waiting(panes.take(i), snapshot),
                ),
                ..panes[i]
            },
    )
}

/// The restored design tabs given their editors.
pub open spec fn designs_hydrated(window: WindowView, from: usize) -> WindowView {
    match catalog(window) {
        None => window,
        Some(snapshot) => then_do(
            WindowView { panes: panes_hydrated(window.panes, snapshot, from as nat), ..window },
            Act::Notify,
        ),
    }
}

/// Names, as values.
pub open spec fn named(list: Seq<RelationRef>) -> Seq<(Seq<char>, Seq<char>)> {
    Seq::new(list.len(), |i: int| list[i].parts())
}

/// There are as many tables as there are tabs without their editors.
proof fn lemma_wanted(tabs: Seq<TabView>, snapshot: SchemaSnapshot)
    ensures
        wanted(tabs, snapshot).len() == waiting(tabs, snapshot),
    decreases tabs.len(),
{
    if tabs.len() > 0 {
        lemma_wanted(tabs.drop_last(), snapshot);
    }
}

/// More tabs have no fewer without their editors.
proof fn lemma_waiting_grows(tabs: Seq<TabView>, snapshot: SchemaSnapshot, at: int)
    requires
        0 <= at <= tabs.len(),
    ensures
        waiting(tabs.take(at), snapshot) <= waiting(tabs, snapshot),
    decreases tabs.len() - at,
{
    if at < tabs.len() {
        lemma_waiting_grows(tabs, snapshot, at + 1);
        assert(tabs.take(at + 1).drop_last() =~= tabs.take(at));
    } else {
        assert(tabs.take(at) =~= tabs);
    }
}

/// More panes have no fewer tabs without their editors.
proof fn lemma_all_waiting_grows(panes: Seq<PaneView>, snapshot: SchemaSnapshot, at: int)
    requires
        0 <= at <= panes.len(),
    ensures
        all_waiting(panes.take(at), snapshot) <= all_waiting(panes, snapshot),
    decreases panes.len() - at,
{
    if at < panes.len() {
        lemma_all_waiting_grows(panes, snapshot, at + 1);
        assert(panes.take(at + 1).drop_last() =~= panes.take(at));
    } else {
        assert(panes.take(at) =~= panes);
    }
}

/// The panes of a window changed one by one, none of them by its id, leave it
/// well formed.
proof fn lemma_panes_kept(before: WindowView, after: WindowView)
    requires
        well_formed(before),
        after.panes.len() == before.panes.len(),
        forall|i: int|
            0 <= i < before.panes.len() ==> (#[trigger] after.panes[i]).id == before.panes[i].id,
        after.layout == before.layout,
        after.active_pane == before.active_pane,
        after.next_pane == before.next_pane,
    ensures
        well_formed(after),
{
    reveal(well_formed);
    lemma_same_ids(before.panes, after.panes, before.active_pane);
    assert forall|i: int| 0 <= i < after.layout.len() implies has_pane(
        after.panes,
        #[trigger] after.layout[i],
    ) by {
        assert(has_pane(before.panes, before.layout[i]));
        lemma_same_ids(before.panes, after.panes, before.layout[i]);
    }
}

impl CenterTab {
    /// A tab that designs a table.
    fn design(
        title: &str,
        detail: Option<String>,
        relation: Option<RelationRef>,
        editor: usize,
        session: Option<usize>,
    ) -> (tab: CenterTab)
        ensures
            tab@ == design_tab(title@, maybe(detail), name(relation), editor, session),
    {
        let tab = CenterTab {
            kind: CenterKind::Structure,
            title: title.to_owned(),
            detail,
            dirty: false,
            pinned: false,
            relation,
            key: None,
            saved_query: None,
            sql: String::new(),
            filter: Filter::none(),
            page: None,
            structure: Some(editor),
            session,
            reconnect: None,
        };
        assert(tab@ =~= design_tab(title@, maybe(detail), name(relation), editor, session));
        tab
    }
}

/// A copy of an optional name.
fn copy_name(relation: &Option<RelationRef>) -> (copy: Option<RelationRef>)
    ensures
        name(copy) == name(*relation),
{
    match relation {
        Some(relation) => Some(relation.clone()),
        None => None,
    }
}

impl Pane {
    /// Keep the tabs of an editor in step with its draft.
    fn sync_design(
        &mut self,
        editor: usize,
        title: &str,
        schema: &str,
        dirty: bool,
        relation: &Option<RelationRef>,
    )
        ensures
            final(self)@ == pane_synced(
                old(self)@,
                editor,
                title@,
                schema@,
                dirty,
                name(*relation),
            ),
    {
        let mut at: usize = 0;
        while at < self.tabs.len()
            invariant
                at <= self.tabs@.len(),
                self.tabs@.len() == old(self).tabs@.len(),
                self@ == (PaneView { tabs: self@.tabs, ..old(self)@ }),
                forall|i: int|
                    0 <= i < self.tabs@.len() ==> (#[trigger] self@.tabs[i]) == if i < at {
                        tab_synced(
                            old(self)@.tabs[i],
                            editor,
                            title@,
                            schema@,
                            dirty,
                            name(*relation),
                        )
                    } else {
                        old(self)@.tabs[i]
                    },
            decreases self.tabs@.len() - at,
        {
            let ghost before = self.tabs@;
            let ghost was = self@;
            assert(was.tabs[at as int] == before[at as int]@);
            if self.tabs[at].structure == Some(editor) {
                self.tabs[at].title = title.to_owned();
                self.tabs[at].detail = Some(schema.to_owned());
                self.tabs[at].dirty = dirty;
                self.tabs[at].relation = copy_name(relation);
            }
            assert(self.tabs@ =~= before.update(at as int, self.tabs@[at as int]));
            assert(self.tabs@[at as int]@ =~= tab_synced(
                was.tabs[at as int],
                editor,
                title@,
                schema@,
                dirty,
                name(*relation),
            ));
            assert(self@ =~= (PaneView {
                tabs: was.tabs.update(at as int, self.tabs@[at as int]@),
                ..was
            }));
            at += 1;
        }
        assert(self@.tabs =~= pane_synced(
            old(self)@,
            editor,
            title@,
            schema@,
            dirty,
            name(*relation),
        ).tabs);
    }

    /// Give the design tabs that are without one an editor, counted from a
    /// number on. Says which tables they design.
    fn hydrate(&mut self, snapshot: &SchemaSnapshot, from: usize) -> (tables: Vec<RelationRef>)
        requires
            from + waiting(old(self)@.tabs, *snapshot) <= usize::MAX,
        ensures
            final(self)@ == (PaneView {
                tabs: tabs_hydrated(old(self)@.tabs, *snapshot, from as nat),
                ..old(self)@
            }),
            named(tables@) == wanted(old(self)@.tabs, *snapshot),
    {
        let mut tables: Vec<RelationRef> = Vec::new();
        let mut at: usize = 0;
        let ghost all = old(self)@.tabs;
        assert(named(tables@) =~= wanted(all.take(0), *snapshot));
        while at < self.tabs.len()
            invariant
                at <= self.tabs@.len(),
                all == old(self)@.tabs,
                self.tabs@.len() == all.len(),
                from + waiting(all, *snapshot) <= usize::MAX,
                self@ == (PaneView { tabs: self@.tabs, ..old(self)@ }),
                named(tables@) == wanted(all.take(at as int), *snapshot),
                forall|i: int|
                    0 <= i < self.tabs@.len() ==> (#[trigger] self@.tabs[i]) == if i < at {
                        tabs_hydrated(all, *snapshot, from as nat)[i]
                    } else {
                        all[i]
                    },
            decreases self.tabs@.len() - at,
        {
            let ghost before = self.tabs@;
            let ghost was = self@;
            let ghost had = named(tables@);
            assert(was.tabs[at as int] == before[at as int]@);
            proof {
                assert(all.take(at + 1).drop_last() =~= all.take(at as int));
                lemma_wanted(all.take(at as int), *snapshot);
                lemma_waiting_grows(all, *snapshot, at + 1);
            }
            let missing = self.tabs[at].kind == CenterKind::Structure && self.tabs[at].structure.is_none();
            if missing {
                let wants = copy_name(&self.tabs[at].relation);
                if let Some(relation) = wants {
                    if snapshot.has(&relation) {
                        assert(waits(all[at as int], *snapshot));
                        let editor: usize = from + tables.len();
                        tables.push(relation);
                        assert(named(tables@) =~= had.push(relation.parts()));
                        self.tabs[at].structure = Some(editor);
                    }
                }
            }
            assert(self.tabs@ =~= before.update(at as int, self.tabs@[at as int]));
            assert(self.tabs@[at as int]@ =~= tabs_hydrated(all, *snapshot, from as nat)[at as int]);
            assert(self@ =~= (PaneView {
                tabs: was.tabs.update(at as int, self.tabs@[at as int]@),
                ..was
            }));
            at += 1;
        }
        assert(all.take(at as int) =~= all);
        assert(self@.tabs =~= tabs_hydrated(all, *snapshot, from as nat));
        tables
    }
}

impl Workspace {
    /// Add a design tab, show it and give its editor the keyboard.
    fn add_structure_tab(&mut self, tab: CenterTab, editor: usize)
        requires
            well_formed(old(self)@),
        ensures
            final(self)@ == design_added(old(self)@, tab@, editor),
            well_formed(final(self)@),
    {
        self.add_tab(tab);
        self.say(Effect::FocusStructure(editor));
        self.save_session();
        self.say(Effect::Notify);
    }

    /// Open the structure editor for a table that exists. `editor` is the
    /// number the editor goes by where one is made.
    pub fn open_structure(&mut self, relation: &RelationRef, editor: usize)
        requires
            well_formed(old(self)@),
        ensures
            final(self)@ == structure_opened(old(self)@, relation.parts(), editor),
            well_formed(final(self)@),
    {
        if !self.knows(relation) {
            return ;
        }
        let here = self.active_at();
        let ghost tabs = active_pane(self@).tabs;
        assert(tabs == views(self.panes@[here as int].tabs@));
        let mut at: usize = 0;
        let mut found = false;
        while at < self.panes[here].tabs.len() && !found
            invariant
                here < self.panes@.len(),
                at <= self.panes@[here as int].tabs@.len(),
                tabs == views(self.panes@[here as int].tabs@),
                forall|i: int| 0 <= i < at ==> !designs(relation.parts())(#[trigger] tabs[i]),
                found ==> at < tabs.len() && designs(relation.parts())(tabs[at as int]),
            decreases self.panes@[here as int].tabs@.len() - at, if found { 0int } else { 1int },
        {
            assert(tabs[at as int] == self.panes@[here as int].tabs@[at as int]@);
            let mine = match &self.panes[here].tabs[at].relation {
                Some(theirs) => theirs.same_as(relation),
                None => false,
            };
            if self.panes[here].tabs[at].kind == CenterKind::Structure && mine {
                found = true;
            } else {
                at += 1;
            }
        }
        proof {
            lemma_first(tabs, designs(relation.parts()), at as int);
        }
        if found {
            self.show_tab(at);
            self.say(Effect::Notify);
        } else {
            let tab = CenterTab::design(
                relation.name.as_str(),
                Some(relation.schema.clone()),
                Some(relation.clone()),
                editor,
                self.session,
            );
            self.add_structure_tab(tab, editor);
        }
    }

    /// Design a table that does not exist yet, in the schema statements are
    /// landing in.
    pub fn new_table(&mut self, editor: usize)
        requires
            well_formed(old(self)@),
        ensures
            final(self)@ == table_started(old(self)@, editor),
            well_formed(final(self)@),
    {
        let schema = self.current_location().1;
        let tab = CenterTab::design("New Table", Some(schema), None, editor, self.session);
        self.add_structure_tab(tab, editor);
    }

    /// Take a report from an editor, which goes by a number. `statements` is
    /// everything a save of its draft would send.
    pub fn on_structure_event(
        &mut self,
        number: usize,
        editor: &StructureEditor,
        event: StructureEvent,
        statements: Vec<String>,
    )
        requires
            well_formed(old(self)@),
        ensures
            final(self)@ == editor_reported(
                old(self)@,
                number,
                editor@,
                event,
                texts(statements@),
            ),
            well_formed(final(self)@),
    {
        match event {
            StructureEvent::Changed => {
                let (title, schema) = (editor.title(), editor.schema());
                self.sync_structure_tab(
                    number,
                    title.as_str(),
                    schema.as_str(),
                    editor.is_dirty(),
                    &editor.reference,
                );
            },
            StructureEvent::Save => {
                let preview = StructurePreview {
                    editor: number,
                    statements,
                    creating: editor.is_creating(),
                    from: copy_name(&editor.reference),
                    to: editor.target(),
                };
                self.preview_structure(preview);
            },
        }
    }

    /// Open the design tab a launch asked for. Says which editor the change it
    /// is shown with is to be made in: the one of the last tab.
    pub fn demo_structure(&mut self, reference: &Option<RelationRef>, editor: usize) -> (shown:
        Option<usize>)
        requires
            well_formed(old(self)@),
        ensures
            final(self)@ == demo_opened(old(self)@, name(*reference), editor),
            well_formed(final(self)@),
            shown == last_editor(final(self)@),
    {
        match reference {
            Some(relation) => self.open_structure(relation, editor),
            None => self.new_table(editor),
        }
        let at = self.active_at();
        let count: usize = self.panes[at].tabs.len();
        assert(active_pane(self@).tabs.len() == count);
        if count == 0 {
            None
        } else {
            assert(active_pane(self@).tabs.last() == self.panes@[at as int].tabs@[count - 1]@);
            self.panes[at].tabs[count - 1].structure
        }
    }

    /// Show what a save is about to send.
    pub fn preview_structure(&mut self, preview: StructurePreview)
        requires
            well_formed(old(self)@),
        ensures
            final(self)@ == structure_previewed(old(self)@, preview@),
            well_formed(final(self)@),
    {
        if preview.statements.len() == 0 {
            return ;
        }
        self.structure_preview = Some(preview);
        assert(self@ =~= (WindowView { structure_preview: Some(preview@), ..old(self)@ }));
        proof {
            lemma_same_frame(self@, old(self)@);
        }
        self.say(Effect::Notify);
    }

    /// Keep the name of an editor's tabs and their unsaved dot in step with the
    /// draft.
    pub fn sync_structure_tab(
        &mut self,
        editor: usize,
        title: &str,
        schema: &str,
        dirty: bool,
        relation: &Option<RelationRef>,
    )
        requires
            well_formed(old(self)@),
        ensures
            final(self)@ == structure_synced(
                old(self)@,
                editor,
                title@,
                schema@,
                dirty,
                name(*relation),
            ),
            well_formed(final(self)@),
    {
        let mut at: usize = 0;
        while at < self.panes.len()
            invariant
                at <= self.panes@.len(),
                self.panes@.len() == old(self).panes@.len(),
                self@ == (WindowView { panes: self@.panes, ..old(self)@ }),
                forall|i: int|
                    0 <= i < self.panes@.len() ==> (#[trigger] self@.panes[i]) == if i < at {
                        pane_synced(
                            old(self)@.panes[i],
                            editor,
                            title@,
                            schema@,
                            dirty,
                            name(*relation),
                        )
                    } else {
                        old(self)@.panes[i]
                    },
            decreases self.panes@.len() - at,
        {
            let ghost before = self.panes@;
            let ghost was = self@;
            assert(was.panes[at as int] == before[at as int]@);
            self.panes[at].sync_design(editor, title, schema, dirty, relation);
            assert(self.panes@ =~= before.update(at as int, self.panes@[at as int]));
            assert(self@ =~= (WindowView {
                panes: was.panes.update(at as int, self.panes@[at as int]@),
                ..was
            }));
            at += 1;
        }
        let ghost synced = structure_synced(
            old(self)@,
            editor,
            title@,
            schema@,
            dirty,
            name(*relation),
        );
        assert(self@.panes =~= synced.panes);
        proof {
            lemma_panes_kept(old(self)@, self@);
        }
        self.say(Effect::Notify);
    }

    /// Put the statements away without sending them.
    pub fn cancel_structure_preview(&mut self)
        requires
            well_formed(old(self)@),
        ensures
            final(self)@ == preview_cancelled(old(self)@),
            well_formed(final(self)@),
    {
        if let Some(preview) = self.structure_preview.take() {
            assert(self@ =~= (WindowView { structure_preview: None, ..old(self)@ }));
            proof {
                lemma_same_frame(self@, old(self)@);
            }
            self.say(Effect::FocusStructure(preview.editor));
        } else {
            assert(self@ =~= old(self)@);
        }
        self.say(Effect::Notify);
    }

    /// Send the whole design as one transaction: statements that fail on the
    /// eighth leave a table nobody has to repair by hand.
    pub fn commit_structure(&mut self)
        requires
            well_formed(old(self)@),
        ensures
            final(self)@ == structure_committed(old(self)@),
            well_formed(final(self)@),
    {
        if let Some(preview) = self.structure_preview.take() {
            let ghost taken = WindowView { structure_preview: None, ..old(self)@ };
            assert(self@ =~= taken);
            proof {
                lemma_same_frame(self@, old(self)@);
            }
            let free = match self.described() {
                Some(session) => !session.is_busy(),
                None => false,
            };
            if !free {
                return ;
            }
            if let Some(id) = self.session {
                let editor = preview.editor;
                self.pending_structure = Some(
                    PendingStructure { editor, from: preview.from, to: preview.to },
                );
                assert(self@ =~= (WindowView {
                    pending_structure: Some(
                        PendingStructureView {
                            editor: preview@.editor,
                            from: preview@.from,
                            to: preview@.to,
                        },
                    ),
                    ..taken
                }));
                proof {
                    lemma_same_frame(self@, taken);
                }
                self.say(Effect::FocusStructure(editor));
                self.say(Effect::Tell(id, Order::Commit(preview.statements)));
                self.say(Effect::Notify);
            }
        } else {
            assert(self@ =~= old(self)@);
        }
    }

    /// Give the restored design tabs their editors, once there is a catalog to
    /// build them from. The editors are numbered from `from` on, in the order of
    /// the tables that come back.
    ///
    /// A tab whose table is no longer there keeps its placeholder: the tab says
    /// which one it was, which is more use than a tab that quietly disappeared.
    pub fn hydrate_structure_tabs(&mut self, from: usize) -> (tables: Vec<RelationRef>)
        requires
            well_formed(old(self)@),
            catalog(old(self)@) matches Some(snapshot) ==> from + all_waiting(
                old(self)@.panes,
                snapshot,
            ) <= usize::MAX,
        ensures
            final(self)@ == designs_hydrated(old(self)@, from),
            named(tables@) == match catalog(old(self)@) {
                Some(snapshot) => all_wanted(old(self)@.panes, snapshot),
                None => Seq::empty(),
            },
            well_formed(final(self)@),
    {
        let mut tables: Vec<RelationRef> = Vec::new();
        assert(named(tables@) =~= Seq::empty());
        let id = match self.session {
            Some(id) => id,
            None => {
                return tables;
            },
        };
        if id >= self.sessions.len() {
            return tables;
        }
        assert(self@.sessions[id as int] == self.sessions@[id as int]@);
        if !self.sessions[id].open || self.sessions[id].session.snapshot.is_none() {
            return tables;
        }
        let ghost snapshot = catalog(self@)->Some_0;
        let ghost all = old(self)@.panes;
        let mut at: usize = 0;
        assert(all.take(0) =~= Seq::empty());
        while at < self.panes.len()
            invariant
                at <= self.panes@.len(),
                id < self.sessions@.len(),
                self.sessions@[id as int].session.snapshot == Some(snapshot),
                all == old(self)@.panes,
                self.panes@.len() == all.len(),
                from + all_waiting(all, snapshot) <= usize::MAX,
                self@ == (WindowView { panes: self@.panes, ..old(self)@ }),
                named(tables@) == all_wanted(all.take(at as int), snapshot),
                tables@.len() == all_waiting(all.take(at as int), snapshot),
                forall|i: int|
                    0 <= i < self.panes@.len() ==> (#[trigger] self@.panes[i]) == if i < at {
                        panes_hydrated(all, snapshot, from as nat)[i]
                    } else {
                        all[i]
                    },
            decreases self.panes@.len() - at,
        {
            let ghost before = self.panes@;
            let ghost was = self@;
            assert(was.panes[at as int] == before[at as int]@);
            proof {
                assert(all.take(at + 1).drop_last() =~= all.take(at as int));
                lemma_all_waiting_grows(all, snapshot, at + 1);
                lemma_wanted(all[at as int].tabs, snapshot);
            }
            let ghost had = named(tables@);
            let next: usize = from + tables.len();
            if let Some(known) = &self.sessions[id].session.snapshot {
                let mut more = self.panes[at].hydrate(known, next);
                let ghost theirs = named(more@);
                assert(theirs.len() == more@.len());
                tables.append(&mut more);
                assert(named(tables@) =~= had + theirs);
            }
            assert(self.panes@ =~= before.update(at as int, self.panes@[at as int]));
            assert(self@ =~= (WindowView {
                panes: was.panes.update(at as int, self.panes@[at as int]@),
                ..was
            }));
            at += 1;
        }
        assert(all.take(at as int) =~= all);
        assert(self@.panes =~= panes_hydrated(all, snapshot, from as nat));
        proof {
            lemma_panes_kept(old(self)@, self@);
        }
        self.say(Effect::Notify);
        tables
    }
}

/// How many statements drop a column.
pub open spec fn drops(statements: Seq<Seq<char>>) -> nat
    decreases statements.len(),
{
    if statements.len() == 0 {
        0
    } else {
        drops(statements.drop_last()) + if has(statements.last(), " DROP COLUMN "@) {
            1nat
        } else {
            0
        }
    }
}

/// The sheet that shows what a save is about to send.
#[derive(Debug)]
pub struct PreviewSheet {
    pub title: String,
    pub subtitle: String,
    pub lines: Vec<String>,
    /// What cannot be typed back, said out loud before it is sent.
    pub notice: Option<String>,
    pub cancel: String,
    pub confirm: String,
    /// Whether the button is the one of something that cannot be undone.
    pub danger: bool,
}

/// How many statements, in words.
pub open spec fn statement_count(n: nat) -> Seq<char> {
    if n == 1 {
        "1 statement"@
    } else {
        decimal(n) + " statements"@
    }
}

/// What is said of dropped columns.
pub open spec fn drop_notice(n: nat) -> Option<Seq<char>> {
    if n == 0 {
        None
    } else if n == 1 {
        Some("A column is dropped, with everything in it. This cannot be undone."@)
    } else {
        Some(
            decimal(n) + " columns are dropped, with everything in them. This cannot be undone."@,
        )
    }
}

/// The statements as they are shown.
pub open spec fn preview_lines(statements: Seq<Seq<char>>) -> Seq<Seq<char>> {
    Seq::new(statements.len(), |i: int| statements[i] + ";"@)
}

/// How many statements drop a column.
fn count_drops(statements: &Vec<String>) -> (n: usize)
    ensures
        n == drops(texts(statements@)),
{
    let ghost all = texts(statements@);
    let mut n: usize = 0;
    let mut at: usize = 0;
    assert(all.take(0) =~= Seq::empty());
    while at < statements.len()
        invariant
            at <= statements@.len(),
            all == texts(statements@),
            n == drops(all.take(at as int)),
            n <= at,
        decreases statements@.len() - at,
    {
        assert(all.take(at + 1).drop_last() =~= all.take(at as int));
        if contains(statements[at].as_str(), " DROP COLUMN ") {
            n += 1;
        }
        at += 1;
    }
    assert(all.take(at as int) =~= all);
    n
}

/// The statements as they are shown.
fn lines_of(statements: &Vec<String>) -> (lines: Vec<String>)
    ensures
        texts(lines@) == preview_lines(texts(statements@)),
{
    let ghost all = texts(statements@);
    let mut lines: Vec<String> = Vec::new();
    let mut at: usize = 0;
    assert(texts(lines@) =~= preview_lines(all).take(0));
    while at < statements.len()
        invariant
            at <= statements@.len(),
            all == texts(statements@),
            texts(lines@) == preview_lines(all).take(at as int),
        decreases statements@.len() - at,
    {
        let ghost had = texts(lines@);
        let mut line = statements[at].clone();
        line.append(";");
        lines.push(line);
        assert(texts(lines@) =~= had.push(line@));
        assert(preview_lines(all).take(at + 1) =~= had.push(preview_lines(all)[at as int]));
        at += 1;
    }
    assert(preview_lines(all).take(at as int) =~= preview_lines(all));
    lines
}

/// Whether a sheet is the one of a preview: how many statements there are,
/// every one of them, and what they drop.
pub open spec fn is_preview_sheet(sheet: PreviewSheet, preview: PreviewView) -> bool {
    &&& sheet.title@ == "Save structure"@
    &&& sheet.subtitle@ == statement_count(preview.statements.len())
        + " in one transaction. Nothing is changed unless all of it succeeds."@
    &&& texts(sheet.lines@) == preview_lines(preview.statements)
    &&& maybe(sheet.notice) == drop_notice(drops(preview.statements))
    &&& sheet.cancel@ == "Cancel"@
    &&& sheet.confirm@ == if preview.creating {
        "Create"@
    } else {
        "Save"@
    }
    &&& sheet.danger == (drops(preview.statements) > 0)
}

impl Workspace {
    /// The sheet with the statements of a save, while they are being read.
    pub fn render_structure_preview(&self) -> (sheet: Option<PreviewSheet>)
        ensures
            match (sheet, self@.structure_preview) {
                (Some(sheet), Some(preview)) => is_preview_sheet(sheet, preview),
                (None, None) => true,
                _ => false,
            },
    {
        match &self.structure_preview {
            Some(preview) => Some(preview.render()),
            None => None,
        }
    }
}

impl StructurePreview {
    /// The sheet: every statement the save is about to send, in order.
    pub fn render(&self) -> (sheet: PreviewSheet)
        ensures
            is_preview_sheet(sheet, self@),
    {
        let n = self.statements.len();
        let mut subtitle = if n == 1 {
            "1 statement".to_owned()
        } else {
            let mut text = String::new();
            push_decimal(&mut text, n as u64);
            text.append(" statements");
            assert(text@ =~= statement_count(n as nat));
            text
        };
        subtitle.append(" in one transaction. Nothing is changed unless all of it succeeds.");
        let dropped = count_drops(&self.statements);
        let notice = if dropped == 0 {
            None
        } else if dropped == 1 {
            Some("A column is dropped, with everything in it. This cannot be undone.".to_owned())
        } else {
            let mut text = String::new();
            push_decimal(&mut text, dropped as u64);
            text.append(" columns are dropped, with everything in them. This cannot be undone.");
            assert(text@ =~= drop_notice(dropped as nat)->Some_0);
            Some(text)
        };
        let confirm = if self.creating {
            "Create".to_owned()
        } else {
            "Save".to_owned()
        };
        PreviewSheet {
            title: "Save structure".to_owned(),
            subtitle,
            lines: lines_of(&self.statements),
            notice,
            cancel: "Cancel".to_owned(),
            confirm,
            danger: dropped > 0,
        }
    }
}

/// A save that drops nothing is confirmed without alarm, and one that drops
/// anything says so.
pub proof fn a_dropped_column_is_always_said(statements: Seq<Seq<char>>, at: int)
    requires
        0 <= at < statements.len(),
        has(statements[at], " DROP COLUMN "@),
    ensures
        drop_notice(drops(statements)) is Some,
    decreases statements.len(),
{
    if at < statements.len() - 1 {
        a_dropped_column_is_always_said(statements.drop_last(), at);
    }
}

} // verus!
