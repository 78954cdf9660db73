//! A pane of the window: its tabs, its console, and what it last showed.
use crate::catalog::{error_view, DbError, ErrorView, KeyType, RelationRef, Rows};
use crate::lists::{group_views, seen, views};
use crate::tabs::{
    index_after_move, is_doomed, moved, place_after_close, place_after_move, tab_after_close,
};
use crate::text::maybe;
use vstd::prelude::*;

verus! {

broadcast use group_views;

/// What a tab is about.
#[derive(Clone, Copy, PartialEq, Eq, Structural, Debug)]
pub enum CenterKind {
    /// A script.
    Query,
    /// A table or a view being browsed.
    Table,
    /// A key being browsed.
    Key,
    /// A table being designed.
    Structure,
}

/// How a condition joins the one before it.
#[derive(Clone, Copy, PartialEq, Eq, Structural, Debug)]
pub enum Join {
    And,
    Or,
}

impl Join {
    /// The other way to join.
    pub open spec fn spec_flipped(self) -> Join {
        match self {
            Join::And => Join::Or,
            Join::Or => Join::And,
        }
    }

    /// The other way to join.
    pub fn flipped(self) -> (other: Join)
        ensures
            other == self.spec_flipped(),
    {
        match self {
            Join::And => Join::Or,
            Join::Or => Join::And,
        }
    }
}

/// One condition of a filter: a column, an operator by its place in the list
/// of operators, a value, and how it joins the one before it.
#[derive(Debug)]
pub struct Chip {
    pub column: String,
    pub op: usize,
    pub value: String,
    pub join: Join,
}

/// One condition, as a value.
#[verifier::ext_equal]
pub struct ChipView {
    pub column: Seq<char>,
    pub op: usize,
    pub value: Seq<char>,
    pub join: Join,
}

impl View for Chip {
    type V = ChipView;

    open spec fn view(&self) -> ChipView {
        ChipView { column: self.column@, op: self.op, value: self.value@, join: self.join }
    }
}

impl Clone for Chip {
    fn clone(&self) -> (copy: Self)
        ensures
            copy == *self,
    {
        Chip {
            column: self.column.clone(),
            op: self.op,
            value: self.value.clone(),
            join: self.join,
        }
    }
}

/// What narrows a browsed table down: conditions, or a clause written by hand.
/// The conditions are kept while the clause is the one in force.
#[derive(Debug)]
pub struct Filter {
    pub raw: bool,
    pub text: String,
    pub chips: Vec<Chip>,
}

/// A filter, as a value.
#[verifier::ext_equal]
pub struct FilterView {
    pub raw: bool,
    pub text: Seq<char>,
    pub chips: Seq<ChipView>,
}

impl View for Filter {
    type V = FilterView;

    open spec fn view(&self) -> FilterView {
        FilterView { raw: self.raw, text: self.text@, chips: views(self.chips@) }
    }
}

/// A filter that filters nothing.
pub open spec fn no_filter() -> FilterView {
    FilterView { raw: false, text: Seq::empty(), chips: Seq::empty() }
}

impl Filter {
    /// A filter that filters nothing.
    pub fn none() -> (filter: Filter)
        ensures
            filter@ == no_filter(),
    {
        let filter = Filter { raw: false, text: String::new(), chips: Vec::new() };
        assert(filter@ =~= no_filter());
        filter
    }
}

/// A tab in the centre of the window.
#[derive(Debug)]
pub struct CenterTab {
    pub kind: CenterKind,
    pub title: String,
    pub detail: Option<String>,
    pub dirty: bool,
    /// Whether the tab stays at the front and survives every bulk close.
    pub pinned: bool,
    pub relation: Option<RelationRef>,
    pub key: Option<(Vec<u8>, KeyType)>,
    /// The saved query this tab came from.
    pub saved_query: Option<u128>,
    /// The script, while another tab is showing.
    pub sql: String,
    pub filter: Filter,
    /// The page being browsed, counted from zero, once there is more than one.
    pub page: Option<usize>,
    /// The structure editor this tab shows.
    pub structure: Option<usize>,
    /// The session this tab is on.
    pub session: Option<usize>,
    /// The connection and the database a restored tab was on, until it is
    /// shown for the first time.
    pub reconnect: Option<(u128, String)>,
}

/// A tab, as a value.
#[verifier::ext_equal]
pub struct TabView {
    pub kind: CenterKind,
    pub title: Seq<char>,
    pub detail: Option<Seq<char>>,
    pub dirty: bool,
    pub pinned: bool,
    pub relation: Option<(Seq<char>, Seq<char>)>,
    pub key: Option<(Seq<u8>, KeyType)>,
    pub saved_query: Option<u128>,
    pub sql: Seq<char>,
    pub filter: FilterView,
    pub page: Option<usize>,
    pub structure: Option<usize>,
    pub session: Option<usize>,
    pub reconnect: Option<(u128, Seq<char>)>,
}

impl View for CenterTab {
    type V = TabView;

    open spec fn view(&self) -> TabView {
        TabView {
            kind: self.kind,
            title: self.title@,
            detail: maybe(self.detail),
            dirty: self.dirty,
            pinned: self.pinned,
            relation: match self.relation {
                Some(relation) => Some(relation.parts()),
                None => None,
            },
            key: match self.key {
                Some(key) => Some((key.0@, key.1)),
                None => None,
            },
            saved_query: self.saved_query,
            sql: self.sql@,
            filter: self.filter@,
            page: self.page,
            structure: self.structure,
            session: self.session,
            reconnect: match self.reconnect {
                Some(place) => Some((place.0, place.1@)),
                None => None,
            },
        }
    }
}

/// A tab that is a script, with nothing in it yet.
pub open spec fn script_tab(title: Seq<char>, session: Option<usize>) -> TabView {
    TabView {
        kind: CenterKind::Query,
        title,
        detail: None,
        dirty: false,
        pinned: false,
        relation: None,
        key: None,
        saved_query: None,
        sql: Seq::empty(),
        filter: no_filter(),
        page: None,
        structure: None,
        session,
        reconnect: None,
    }
}

/// A tab that browses a relation.
pub open spec fn table_tab(
    relation: (Seq<char>, Seq<char>),
    filter: FilterView,
    session: Option<usize>,
) -> TabView {
    TabView {
        kind: CenterKind::Table,
        detail: Some(relation.0),
        relation: Some(relation),
        filter,
        ..script_tab(relation.1, session)
    }
}

/// A tab that browses a key.
pub open spec fn key_tab(
    key: Seq<u8>,
    kind: KeyType,
    title: Seq<char>,
    detail: Seq<char>,
    session: Option<usize>,
) -> TabView {
    TabView {
        kind: CenterKind::Key,
        detail: Some(detail),
        key: Some((key, kind)),
        ..script_tab(title, session)
    }
}

impl CenterTab {
    /// A tab that is a script, with nothing in it yet.
    pub fn script(title: &str, session: Option<usize>) -> (tab: CenterTab)
        ensures
            tab@ == script_tab(title@, session),
    {
        let tab = CenterTab {
            kind: CenterKind::Query,
            title: title.to_owned(),
            detail: None,
            dirty: false,
            pinned: false,
            relation: None,
            key: None,
            saved_query: None,
            sql: String::new(),
            filter: Filter::none(),
            page: None,
            structure: None,
            session,
            reconnect: None,
        };
        assert(tab@ =~= script_tab(title@, session));
        tab
    }

    /// A tab that browses a relation.
    pub fn table(relation: &RelationRef, filter: Filter, session: Option<usize>) -> (tab: CenterTab)
        ensures
            tab@ == table_tab(relation.parts(), filter@, session),
    {
        let tab = CenterTab::script(relation.name.as_str(), session);
        CenterTab {
            kind: CenterKind::Table,
            detail: Some(relation.schema.clone()),
            relation: Some(relation.clone()),
            filter,
            ..tab
        }
    }

    /// A tab that browses a key.
    pub fn of_key(
        key: Vec<u8>,
        kind: KeyType,
        title: String,
        detail: String,
        session: Option<usize>,
    ) -> (tab: CenterTab)
        ensures
            tab@ == key_tab(key@, kind, title@, detail@, session),
    {
        let tab = CenterTab::script(title.as_str(), session);
        CenterTab {
            kind: CenterKind::Key,
            detail: Some(detail),
            key: Some((key, kind)),
            ..tab
        }
    }
}

/// Which face of its rows a pane shows.
#[derive(Clone, Copy, PartialEq, Eq, Structural, Debug)]
pub enum ResultsTab {
    Data,
    Structure,
    Ddl,
    Privileges,
    Messages,
}

/// A column the rows are ordered by, and which way.
#[derive(Clone, Copy, PartialEq, Eq, Structural, Debug)]
pub struct Sort {
    pub col: usize,
    pub descending: bool,
}

/// One answer of a script.
#[derive(Debug)]
pub struct StatementResult {
    pub sql: String,
    pub rows: Rows,
    /// How long it took, in nanoseconds.
    pub elapsed: u128,
    pub truncated: bool,
}

/// One answer of a script, as a value.
#[verifier::ext_equal]
pub struct ResultView {
    pub sql: Seq<char>,
    pub rows: Rows,
    pub elapsed: u128,
    pub truncated: bool,
}

impl View for StatementResult {
    type V = ResultView;

    open spec fn view(&self) -> ResultView {
        ResultView {
            sql: self.sql@,
            rows: self.rows,
            elapsed: self.elapsed,
            truncated: self.truncated,
        }
    }
}

/// A statement waiting its turn, and where in the console it starts.
#[derive(Debug)]
pub struct Queued {
    pub sql: String,
    pub origin: usize,
}

/// A waiting statement, as a value.
#[verifier::ext_equal]
pub struct QueuedView {
    pub sql: Seq<char>,
    pub origin: usize,
}

impl View for Queued {
    type V = QueuedView;

    open spec fn view(&self) -> QueuedView {
        QueuedView { sql: self.sql@, origin: self.origin }
    }
}

/// A condition being written, and which one it replaces.
#[derive(Debug)]
pub struct Composer {
    pub editing: Option<usize>,
    pub chip: Chip,
}

/// A condition being written, as a value.
#[verifier::ext_equal]
pub struct ComposerView {
    pub editing: Option<usize>,
    pub chip: ChipView,
}

impl View for Composer {
    type V = ComposerView;

    open spec fn view(&self) -> ComposerView {
        ComposerView { editing: self.editing, chip: self.chip@ }
    }
}

/// A pane of the window.
#[derive(Debug)]
pub struct Pane {
    pub id: usize,
    pub tabs: Vec<CenterTab>,
    pub active_tab: usize,
    /// What is typed in the console.
    pub console: String,
    /// What is typed in the box of the hand-written clause.
    pub clause: String,
    /// What is typed in the value box of the condition being written.
    pub chip_value: String,
    pub composer: Option<Composer>,
    pub results_tab: ResultsTab,
    pub row_count: usize,
    pub selected_row: Option<usize>,
    pub selected_column: usize,
    /// How long the last statement took, in nanoseconds.
    pub elapsed: Option<u128>,
    pub affected: Option<u64>,
    pub truncated: bool,
    pub last_sql: Option<String>,
    pub error: Option<DbError>,
    /// Where in the console the statement in flight starts.
    pub run_origin: Option<usize>,
    /// The statements of a script that have not been sent yet.
    pub queue: Vec<Queued>,
    /// The answers the script has had so far.
    pub results: Vec<StatementResult>,
    pub result_index: usize,
    /// The rows as the server sent them, once they have been put in another
    /// order.
    pub unsorted: Option<Rows>,
    /// The order the rows on their way were asked for in.
    pub pending_sort: Option<Sort>,
}

/// A pane, as a value.
#[verifier::ext_equal]
pub struct PaneView {
    pub id: usize,
    pub tabs: Seq<TabView>,
    pub active_tab: usize,
    pub console: Seq<char>,
    pub clause: Seq<char>,
    pub chip_value: Seq<char>,
    pub composer: Option<ComposerView>,
    pub results_tab: ResultsTab,
    pub row_count: usize,
    pub selected_row: Option<usize>,
    pub selected_column: usize,
    pub elapsed: Option<u128>,
    pub affected: Option<u64>,
    pub truncated: bool,
    pub last_sql: Option<Seq<char>>,
    pub error: Option<ErrorView>,
    pub run_origin: Option<usize>,
    pub queue: Seq<QueuedView>,
    pub results: Seq<ResultView>,
    pub result_index: usize,
    pub unsorted: Option<Rows>,
    pub pending_sort: Option<Sort>,
}

impl View for Pane {
    type V = PaneView;

    open spec fn view(&self) -> PaneView {
        PaneView {
            id: self.id,
            tabs: views(self.tabs@),
            active_tab: self.active_tab,
            console: self.console@,
            clause: self.clause@,
            chip_value: self.chip_value@,
            composer: seen(self.composer),
            results_tab: self.results_tab,
            row_count: self.row_count,
            selected_row: self.selected_row,
            selected_column: self.selected_column,
            elapsed: self.elapsed,
            affected: self.affected,
            truncated: self.truncated,
            last_sql: maybe(self.last_sql),
            error: error_view(self.error),
            run_origin: self.run_origin,
            queue: views(self.queue@),
            results: views(self.results@),
            result_index: self.result_index,
            unsorted: self.unsorted,
            pending_sort: self.pending_sort,
        }
    }
}

/// A pane with nothing in it.
pub open spec fn empty_pane(id: usize) -> PaneView {
    PaneView {
        id,
        tabs: Seq::empty(),
        active_tab: 0,
        console: Seq::empty(),
        clause: Seq::empty(),
        chip_value: Seq::empty(),
        composer: None,
        results_tab: ResultsTab::Data,
        row_count: 0,
        selected_row: None,
        selected_column: 0,
        elapsed: None,
        affected: None,
        truncated: false,
        last_sql: None,
        error: None,
        run_origin: None,
        queue: Seq::empty(),
        results: Seq::empty(),
        result_index: 0,
        unsorted: None,
        pending_sort: None,
    }
}

/// The tab that is showing, if there is one.
pub open spec fn showing(pane: PaneView) -> Option<TabView> {
    if pane.active_tab < pane.tabs.len() {
        Some(pane.tabs[pane.active_tab as int])
    } else {
        None
    }
}

/// The pane with the tab that is showing changed.
pub open spec fn with_showing(pane: PaneView, tab: TabView) -> PaneView {
    PaneView { tabs: pane.tabs.update(pane.active_tab as int, tab), ..pane }
}

/// The console's text and the clause put back into the tab they belong to. The
/// clause only where it is the filter in force: otherwise whatever is left in
/// its box is the last tab's.
pub open spec fn stashed(pane: PaneView) -> PaneView {
    match showing(pane) {
        Some(tab) => with_showing(
            pane,
            TabView {
                sql: pane.console,
                filter: if tab.filter.raw {
                    FilterView { text: pane.clause, ..tab.filter }
                } else {
                    tab.filter
                },
                ..tab
            },
        ),
        None => pane,
    }
}

/// The last run's answers forgotten, because a new one is starting.
pub open spec fn batch_started(pane: PaneView) -> PaneView {
    PaneView { queue: Seq::empty(), results: Seq::empty(), result_index: 0, ..pane }
}

/// The grid emptied, and everything that describes what was in it.
pub open spec fn cleared(pane: PaneView) -> PaneView {
    PaneView {
        row_count: 0,
        selected_row: None,
        selected_column: 0,
        elapsed: None,
        affected: None,
        truncated: false,
        last_sql: None,
        error: None,
        unsorted: None,
        ..batch_started(pane)
    }
}

/// Another tab brought to the front: what the last run reported leaves with
/// the tab that ran it, and the console and the clause become the new tab's.
pub open spec fn fronted(pane: PaneView, index: int) -> PaneView {
    PaneView {
        error: None,
        elapsed: None,
        affected: None,
        last_sql: None,
        truncated: false,
        active_tab: index as usize,
        console: pane.tabs[index].sql,
        clause: pane.tabs[index].filter.text,
        composer: None,
        ..pane
    }
}

/// The pane with one tab put on a session, or on none.
pub open spec fn tab_bound(pane: PaneView, index: int, session: Option<usize>) -> PaneView {
    if 0 <= index < pane.tabs.len() {
        PaneView {
            tabs: pane.tabs.update(
                index,
                TabView { session, reconnect: None, ..pane.tabs[index] },
            ),
            ..pane
        }
    } else {
        pane
    }
}

/// The pane with the showing tab on a page.
pub open spec fn paged(pane: PaneView, page: usize) -> PaneView {
    match showing(pane) {
        Some(tab) => with_showing(pane, TabView { page: Some(page), ..tab }),
        None => pane,
    }
}

/// The pane with the filter of the showing tab changed.
pub open spec fn with_filter(pane: PaneView, filter: FilterView) -> PaneView {
    match showing(pane) {
        Some(tab) => with_showing(pane, TabView { filter, ..tab }),
        None => pane,
    }
}

/// The filter of the showing tab, and none where no tab is.
pub open spec fn filter_of(pane: PaneView) -> FilterView {
    match showing(pane) {
        Some(tab) => tab.filter,
        None => no_filter(),
    }
}

/// Conditions with one put in place: over the one being edited, or at the end.
/// An unfinished one is dropped instead, and takes the one being edited with
/// it.
pub open spec fn chip_placed(
    chips: Seq<ChipView>,
    editing: Option<usize>,
    chip: ChipView,
    complete: bool,
) -> Seq<ChipView> {
    match editing {
        Some(index) => if index >= chips.len() {
            chips
        } else if complete {
            chips.update(index as int, chip)
        } else {
            chips.remove(index as int)
        },
        None => if complete {
            chips.push(chip)
        } else {
            chips
        },
    }
}

/// The condition being written put into the filter of the showing tab.
pub open spec fn chip_committed(pane: PaneView, complete: bool) -> PaneView {
    match pane.composer {
        None => pane,
        Some(composer) => {
            let closed = PaneView { composer: None, ..pane };
            let filter = filter_of(closed);
            with_filter(
                closed,
                FilterView {
                    chips: chip_placed(
                        filter.chips,
                        composer.editing,
                        ChipView { value: pane.chip_value, ..composer.chip },
                        complete,
                    ),
                    ..filter
                },
            )
        },
    }
}

/// A condition taken off the filter of the showing tab. Editing the one that
/// went would put it back, so its composer goes too.
pub open spec fn chip_removed(pane: PaneView, index: usize) -> PaneView {
    let filter = filter_of(pane);
    let left = if index < filter.chips.len() {
        with_filter(
            pane,
            FilterView { chips: filter.chips.remove(index as int), ..filter },
        )
    } else {
        pane
    };
    match left.composer {
        Some(composer) => if composer.editing == Some(index) {
            PaneView { composer: None, ..left }
        } else {
            left
        },
        None => left,
    }
}

/// The way a condition joins the one before it, turned over.
pub open spec fn join_flipped(pane: PaneView, index: usize) -> PaneView {
    let filter = filter_of(pane);
    if index < filter.chips.len() {
        let chip = filter.chips[index as int];
        with_filter(
            pane,
            FilterView {
                chips: filter.chips.update(
                    index as int,
                    ChipView { join: chip.join.spec_flipped(), ..chip },
                ),
                ..filter
            },
        )
    } else {
        pane
    }
}

/// The whole filter taken off.
pub open spec fn filter_cleared(pane: PaneView) -> PaneView {
    let closed = PaneView { composer: None, clause: Seq::empty(), ..pane };
    let filter = filter_of(closed);
    with_filter(closed, FilterView { text: Seq::empty(), chips: Seq::empty(), ..filter })
}

/// The composer opened on a condition, or on a new one: it starts on the first
/// column, and joins the way the last one does.
pub open spec fn chip_opened(
    pane: PaneView,
    index: Option<usize>,
    first_column: Seq<char>,
) -> PaneView {
    let chips = filter_of(pane).chips;
    let chip = match index {
        Some(i) => if i < chips.len() {
            chips[i as int]
        } else {
            new_chip(chips, first_column)
        },
        None => new_chip(chips, first_column),
    };
    PaneView {
        composer: Some(ComposerView { editing: index, chip }),
        chip_value: chip.value,
        ..pane
    }
}

/// A new condition, after some.
pub open spec fn new_chip(chips: Seq<ChipView>, column: Seq<char>) -> ChipView {
    ChipView {
        column,
        op: 0,
        value: Seq::empty(),
        join: if chips.len() > 0 {
            chips.last().join
        } else {
            Join::And
        },
    }
}

/// The condition being written about another column.
pub open spec fn chip_column_set(pane: PaneView, column: Seq<char>) -> PaneView {
    match pane.composer {
        Some(composer) => PaneView {
            composer: Some(
                ComposerView { chip: ChipView { column, ..composer.chip }, ..composer },
            ),
            ..pane
        },
        None => pane,
    }
}

/// The condition being written with another operator.
pub open spec fn chip_op_set(pane: PaneView, op: usize) -> PaneView {
    match pane.composer {
        Some(composer) => PaneView {
            composer: Some(ComposerView { chip: ChipView { op, ..composer.chip }, ..composer }),
            ..pane
        },
        None => pane,
    }
}

/// Conditions for a clause written by hand, or the other way. The clause
/// starts as what the conditions spell; the conditions were never deleted.
pub open spec fn filter_mode_toggled(pane: PaneView, spelled: Seq<char>) -> PaneView {
    let closed = PaneView { composer: None, ..pane };
    let filter = filter_of(closed);
    if showing(closed) is None {
        closed
    } else if filter.raw {
        with_filter(closed, FilterView { raw: false, ..filter })
    } else {
        PaneView {
            clause: spelled,
            ..with_filter(closed, FilterView { raw: true, text: spelled, ..filter })
        }
    }
}

/// The console's text taken from the tab that is showing, and nothing where
/// none is.
pub open spec fn console_follows(pane: PaneView) -> PaneView {
    PaneView {
        console: match showing(pane) {
            Some(tab) => tab.sql,
            None => Seq::empty(),
        },
        ..pane
    }
}

/// The pane without one of its tabs. The console becomes the new showing tab's
/// where the tab that went was the showing one.
pub open spec fn tab_removed(pane: PaneView, index: int) -> PaneView {
    let left = PaneView {
        tabs: pane.tabs.remove(index),
        active_tab: place_after_close(
            pane.active_tab as int,
            index,
            pane.tabs.len() - 1,
        ) as usize,
        ..pane
    };
    if index == pane.active_tab {
        console_follows(left)
    } else {
        left
    }
}

/// The pane with one tab taken out of the strip and put back elsewhere, the
/// showing tab still showing.
pub open spec fn tab_moved(pane: PaneView, from: int, to: int) -> PaneView {
    PaneView {
        tabs: moved(pane.tabs, from, to),
        active_tab: place_after_move(pane.active_tab as int, from, to) as usize,
        ..pane
    }
}

/// How many tabs before `upto` are pinned, other than one.
pub open spec fn pinned_besides(tabs: Seq<TabView>, index: int, upto: int) -> int
    decreases upto,
{
    if upto <= 0 {
        0
    } else {
        pinned_besides(tabs, index, upto - 1) + if tabs[upto - 1].pinned && upto - 1 != index {
            1int
        } else {
            0
        }
    }
}

/// The pane with a tab's pin turned over.
pub open spec fn pin_turned(pane: PaneView, index: int) -> PaneView {
    PaneView {
        tabs: pane.tabs.update(
            index,
            TabView { pinned: !pane.tabs[index].pinned, ..pane.tabs[index] },
        ),
        ..pane
    }
}

/// A tab that was editing a saved query which is no more: it keeps its text
/// and its name and becomes an unsaved script again.
pub open spec fn unsaved(tab: TabView, query: u128) -> TabView {
    if tab.saved_query == Some(query) {
        TabView { saved_query: None, dirty: true, ..tab }
    } else {
        tab
    }
}

/// The pane with a saved query forgotten.
pub open spec fn query_forgotten(pane: PaneView, query: u128) -> PaneView {
    PaneView {
        tabs: Seq::new(pane.tabs.len(), |i: int| unsaved(pane.tabs[i], query)),
        ..pane
    }
}

/// The pane with a tab made the one a saved query is edited in.
pub open spec fn tab_claimed(pane: PaneView, index: int, title: Seq<char>, query: u128) -> PaneView {
    PaneView {
        tabs: pane.tabs.update(
            index,
            TabView {
                kind: CenterKind::Query,
                title,
                detail: None,
                dirty: false,
                relation: None,
                saved_query: Some(query),
                ..pane.tabs[index]
            },
        ),
        ..pane
    }
}

/// The tabs of a strip that are not marked to go, in order.
pub open spec fn surviving(tabs: Seq<TabView>, doomed: Seq<usize>, upto: int) -> Seq<TabView>
    decreases upto,
{
    if upto <= 0 {
        Seq::empty()
    } else {
        let before = surviving(tabs, doomed, upto - 1);
        if doomed.contains((upto - 1) as usize) {
            before
        } else {
            before.push(tabs[upto - 1])
        }
    }
}

/// The pane with one more tab at the end of its strip.
pub open spec fn with_tab(pane: PaneView, tab: TabView) -> PaneView {
    PaneView { tabs: pane.tabs.push(tab), ..pane }
}

impl Pane {
    /// Put a tab on a session. Wherever it was to reconnect is forgotten.
    pub fn bind_tab(&mut self, index: usize, session: Option<usize>)
        ensures
            final(self)@ == tab_bound(old(self)@, index as int, session),
            final(self).tabs@.len() == old(self).tabs@.len(),
    {
        if index < self.tabs.len() {
            let ghost before = self.tabs@;
            self.tabs[index].session = session;
            self.tabs[index].reconnect = None;
            assert(self.tabs@ =~= before.update(index as int, self.tabs@[index as int]));
            assert(self@ =~= tab_bound(old(self)@, index as int, session));
        }
    }

    /// Put the showing tab on a page.
    pub fn turn_to(&mut self, page: usize)
        ensures
            final(self)@ == paged(old(self)@, page),
            final(self).tabs@.len() == old(self).tabs@.len(),
    {
        let at = self.active_tab;
        if at < self.tabs.len() {
            let ghost before = self.tabs@;
            self.tabs[at].page = Some(page);
            assert(self.tabs@ =~= before.update(at as int, self.tabs@[at as int]));
            assert(self@ =~= paged(old(self)@, page));
        }
    }

    /// Open the composer on a condition, or on a new one.
    pub fn open_chip(&mut self, index: Option<usize>, first_column: String)
        ensures
            final(self)@ == chip_opened(old(self)@, index, first_column@),
    {
        let at = self.active_tab;
        let ghost chips = filter_of(self@).chips;
        let mut chip: Option<Chip> = None;
        if at < self.tabs.len() {
            assert(self@.tabs[at as int] == self.tabs@[at as int]@);
            assert(chips == views(self.tabs@[at as int].filter.chips@));
            if let Some(i) = index {
                if i < self.tabs[at].filter.chips.len() {
                    assert(chips[i as int] == self.tabs@[at as int].filter.chips@[i as int]@);
                    chip = Some(self.tabs[at].filter.chips[i].clone());
                }
            }
        }
        let chip = match chip {
            Some(chip) => chip,
            None => {
                let mut join = Join::And;
                if at < self.tabs.len() {
                    let count: usize = self.tabs[at].filter.chips.len();
                    if count > 0 {
                        join = self.tabs[at].filter.chips[count - 1].join;
                    }
                }
                Chip { column: first_column, op: 0, value: String::new(), join }
            },
        };
        self.chip_value = chip.value.clone();
        self.composer = Some(Composer { editing: index, chip });
        assert(self@ =~= chip_opened(old(self)@, index, first_column@));
    }

    /// Put the condition being written into the filter. `complete` is whether
    /// it says anything.
    pub fn commit_chip(&mut self, complete: bool)
        ensures
            final(self)@ == chip_committed(old(self)@, complete),
    {
        let Some(composer) = self.composer.take() else {
            assert(self@ =~= old(self)@);
            return ;
        };
        let at = self.active_tab;
        if at < self.tabs.len() {
            let chip = Chip { value: self.chip_value.clone(), ..composer.chip };
            let ghost before = self.tabs@;
            let ghost chips = before[at as int].filter.chips@;
            match composer.editing {
                Some(index) => {
                    if index < self.tabs[at].filter.chips.len() {
                        if complete {
                            self.tabs[at].filter.chips[index] = chip;
                            assert(self.tabs@[at as int].filter.chips@ =~= chips.update(
                                index as int,
                                chip,
                            ));
                        } else {
                            self.tabs[at].filter.chips.remove(index);
                        }
                    }
                },
                None => {
                    if complete {
                        self.tabs[at].filter.chips.push(chip);
                    }
                },
            }
            assert(self.tabs@ =~= before.update(at as int, self.tabs@[at as int]));
        }
        assert(self@ =~= chip_committed(old(self)@, complete));
    }

    /// Take a condition off the filter.
    pub fn remove_chip(&mut self, index: usize)
        ensures
            final(self)@ == chip_removed(old(self)@, index),
    {
        let at = self.active_tab;
        if at < self.tabs.len() {
            if index < self.tabs[at].filter.chips.len() {
                let ghost before = self.tabs@;
                self.tabs[at].filter.chips.remove(index);
                assert(self.tabs@ =~= before.update(at as int, self.tabs@[at as int]));
            }
        }
        let stale = match &self.composer {
            Some(composer) => match composer.editing {
                Some(editing) => editing == index,
                None => false,
            },
            None => false,
        };
        if stale {
            self.composer = None;
        }
        assert(self@ =~= chip_removed(old(self)@, index));
    }

    /// Turn over the way a condition joins the one before it.
    pub fn flip_join(&mut self, index: usize)
        ensures
            final(self)@ == join_flipped(old(self)@, index),
    {
        let at = self.active_tab;
        if at < self.tabs.len() {
            if index < self.tabs[at].filter.chips.len() {
                let ghost before = self.tabs@;
                let ghost chips = before[at as int].filter.chips@;
                let join = self.tabs[at].filter.chips[index].join;
                self.tabs[at].filter.chips[index].join = join.flipped();
                assert(self.tabs@ =~= before.update(at as int, self.tabs@[at as int]));
                assert(self.tabs@[at as int].filter.chips@ =~= chips.update(
                    index as int,
                    self.tabs@[at as int].filter.chips@[index as int],
                ));
                assert(self@ =~= join_flipped(old(self)@, index));
            }
        }
    }

    /// Take the whole filter off. The conditions go with it.
    pub fn clear_filter(&mut self)
        ensures
            final(self)@ == filter_cleared(old(self)@),
    {
        self.composer = None;
        self.clause = String::new();
        let at = self.active_tab;
        if at < self.tabs.len() {
            let ghost before = self.tabs@;
            self.tabs[at].filter.chips = Vec::new();
            self.tabs[at].filter.text = String::new();
            assert(self.tabs@ =~= before.update(at as int, self.tabs@[at as int]));
        }
        assert(self@ =~= filter_cleared(old(self)@));
    }

    /// Have the condition being written be about another column.
    pub fn set_chip_column(&mut self, column: String)
        ensures
            final(self)@ == chip_column_set(old(self)@, column@),
    {
        if let Some(composer) = self.composer.take() {
            self.composer = Some(
                Composer {
                    editing: composer.editing,
                    chip: Chip { column, ..composer.chip },
                },
            );
        }
        assert(self@ =~= chip_column_set(old(self)@, column@));
    }

    /// Give the condition being written another operator.
    pub fn set_chip_op(&mut self, op: usize)
        ensures
            final(self)@ == chip_op_set(old(self)@, op),
    {
        if let Some(composer) = self.composer.take() {
            self.composer = Some(
                Composer { editing: composer.editing, chip: Chip { op, ..composer.chip } },
            );
        }
        assert(self@ =~= chip_op_set(old(self)@, op));
    }

    /// Change conditions for a clause written by hand, or back. `spelled` is
    /// what the conditions spell.
    pub fn toggle_filter_mode(&mut self, spelled: String)
        ensures
            final(self)@ == filter_mode_toggled(old(self)@, spelled@),
    {
        self.composer = None;
        let at = self.active_tab;
        if at < self.tabs.len() {
            let ghost before = self.tabs@;
            if self.tabs[at].filter.raw {
                self.tabs[at].filter.raw = false;
            } else {
                self.tabs[at].filter.raw = true;
                self.tabs[at].filter.text = spelled.clone();
                self.clause = spelled;
            }
            assert(self.tabs@ =~= before.update(at as int, self.tabs@[at as int]));
        }
        assert(self@ =~= filter_mode_toggled(old(self)@, spelled@));
    }

    /// Have the console show the text of the showing tab.
    fn follow_console(&mut self)
        ensures
            final(self)@ == console_follows(old(self)@),
            final(self).tabs == old(self).tabs,
    {
        self.console = if self.active_tab < self.tabs.len() {
            self.tabs[self.active_tab].sql.clone()
        } else {
            String::new()
        };
        assert(self@ =~= console_follows(old(self)@));
    }

    /// Take a tab out of the strip.
    pub fn remove_tab(&mut self, index: usize)
        requires
            index < old(self).tabs@.len(),
        ensures
            final(self)@ == tab_removed(old(self)@, index as int),
            final(self).tabs@.len() == old(self).tabs@.len() - 1,
    {
        let was_active = index == self.active_tab;
        self.tabs.remove(index);
        self.active_tab = tab_after_close(self.active_tab, index, self.tabs.len());
        if was_active {
            self.follow_console();
        }
        assert(self@ =~= tab_removed(old(self)@, index as int));
    }

    /// Move one tab, keeping whichever tab was showing on screen.
    pub fn move_tab(&mut self, from: usize, to: usize)
        requires
            from < old(self).tabs@.len(),
            to < old(self).tabs@.len(),
        ensures
            final(self)@ == tab_moved(old(self)@, from as int, to as int),
            final(self).tabs@.len() == old(self).tabs@.len(),
    {
        let tab = self.tabs.remove(from);
        self.tabs.insert(to, tab);
        self.active_tab = index_after_move(self.active_tab, from, to);
        assert(self@.tabs =~= moved(old(self)@.tabs, from as int, to as int));
        assert(self@ =~= tab_moved(old(self)@, from as int, to as int));
    }

    /// Pin a tab, or unpin it.
    pub fn turn_pin(&mut self, index: usize)
        requires
            index < old(self).tabs@.len(),
        ensures
            final(self)@ == pin_turned(old(self)@, index as int),
            final(self).tabs@.len() == old(self).tabs@.len(),
    {
        let ghost before = self.tabs@;
        let pinned = self.tabs[index].pinned;
        self.tabs[index].pinned = !pinned;
        assert(self.tabs@ =~= before.update(index as int, self.tabs@[index as int]));
        assert(self@ =~= pin_turned(old(self)@, index as int));
    }

    /// How many tabs are pinned, other than one.
    pub fn count_pinned(&self, index: usize) -> (count: usize)
        ensures
            count == pinned_besides(self@.tabs, index as int, self.tabs@.len() as int),
            index < self.tabs@.len() ==> count < self.tabs@.len(),
    {
        let mut count: usize = 0;
        let mut at: usize = 0;
        while at < self.tabs.len()
            invariant
                at <= self.tabs@.len(),
                count == pinned_besides(self@.tabs, index as int, at as int),
                count <= at,
                index < at ==> count < at,
            decreases self.tabs@.len() - at,
        {
            assert(self@.tabs[at as int] == self.tabs@[at as int]@);
            if self.tabs[at].pinned && at != index {
                count += 1;
            }
            at += 1;
        }
        count
    }

    /// Forget a saved query that is no more.
    pub fn forget_query(&mut self, query: u128)
        ensures
            final(self)@ == query_forgotten(old(self)@, query),
    {
        let mut at: usize = 0;
        while at < self.tabs.len()
            invariant
                at <= self.tabs@.len(),
                self.tabs@.len() == old(self).tabs@.len(),
                self@ == (PaneView { tabs: self@.tabs, ..old(self)@ }),
                forall|i: int|
                    0 <= i < self.tabs@.len() ==> (#[trigger] self@.tabs[i]) == if i < at {
                        unsaved(old(self)@.tabs[i], query)
                    } else {
                        old(self)@.tabs[i]
                    },
            decreases self.tabs@.len() - at,
        {
            let ghost before = self.tabs@;
            let ghost was = self@;
            assert(was.tabs[at as int] == before[at as int]@);
            let mine = match self.tabs[at].saved_query {
                Some(id) => id == query,
                None => false,
            };
            if mine {
                self.tabs[at].saved_query = None;
                self.tabs[at].dirty = true;
            }
            assert(self.tabs@ =~= before.update(at as int, self.tabs@[at as int]));
            assert(self@ =~= (PaneView {
                tabs: was.tabs.update(at as int, unsaved(was.tabs[at as int], query)),
                ..was
            }));
            at += 1;
        }
        assert(self@.tabs =~= query_forgotten(old(self)@, query).tabs);
    }

    /// Make a tab the one a saved query is edited in.
    pub fn claim_tab(&mut self, index: usize, title: String, query: u128)
        requires
            index < old(self).tabs@.len(),
        ensures
            final(self)@ == tab_claimed(old(self)@, index as int, title@, query),
    {
        let ghost before = self.tabs@;
        self.tabs[index].kind = CenterKind::Query;
        self.tabs[index].title = title;
        self.tabs[index].detail = None;
        self.tabs[index].dirty = false;
        self.tabs[index].relation = None;
        self.tabs[index].saved_query = Some(query);
        assert(self.tabs@ =~= before.update(index as int, self.tabs@[index as int]));
        assert(self@ =~= tab_claimed(old(self)@, index as int, title@, query));
    }

    /// Keep only the tabs that are not marked to go.
    pub fn retain_tabs(&mut self, doomed: &Vec<usize>)
        ensures
            final(self)@ == (PaneView {
                tabs: surviving(old(self)@.tabs, doomed@, old(self)@.tabs.len() as int),
                ..old(self)@
            }),
    {
        let ghost all = self.tabs@;
        let mut rest: Vec<CenterTab> = Vec::new();
        // Taken from the back, so what is left keeps its numbering.
        while self.tabs.len() > 0
            invariant
                self.tabs@.len() <= all.len(),
                self.tabs@ == all.take(self.tabs@.len() as int),
                self@ == (PaneView { tabs: self@.tabs, ..old(self)@ }),
                surviving(views(all), doomed@, self.tabs@.len() as int) + views(rest@).reverse()
                    == surviving(views(all), doomed@, all.len() as int),
            decreases self.tabs@.len(),
        {
            let at: usize = self.tabs.len() - 1;
            let ghost was = views(rest@);
            let popped = self.tabs.pop();
            if let Some(tab) = popped {
                assert(tab == all[at as int]);
                if !is_doomed(doomed.as_slice(), at) {
                    rest.push(tab);
                    assert(views(rest@).reverse() =~= seq![tab@] + was.reverse());
                    assert(surviving(views(all), doomed@, at as int) + views(rest@).reverse()
                        =~= surviving(views(all), doomed@, at + 1) + was.reverse());
                }
            }
        }
        while rest.len() > 0
            invariant
                self@ == (PaneView { tabs: self@.tabs, ..old(self)@ }),
                self@.tabs + views(rest@).reverse() == surviving(
                    views(all),
                    doomed@,
                    all.len() as int,
                ),
            decreases rest@.len(),
        {
            let ghost was = self@.tabs;
            let ghost had = views(rest@);
            let popped = rest.pop();
            if let Some(tab) = popped {
                self.tabs.push(tab);
                assert(had.reverse() =~= seq![tab@] + views(rest@).reverse());
                assert(self@.tabs + views(rest@).reverse() =~= was + had.reverse());
            }
        }
        assert(self@.tabs =~= surviving(views(all), doomed@, all.len() as int));
    }

    /// Take some tabs out of the strip, given which tab shows afterwards in
    /// the numbering it has now.
    pub fn remove_tabs(&mut self, doomed: &Vec<usize>, showing: Option<usize>)
        requires
            showing matches Some(index) ==> index <= old(self).tabs@.len(),
        ensures
            final(self)@ == ({
                let pane = old(self)@;
                let left = PaneView {
                    tabs: surviving(pane.tabs, doomed@, pane.tabs.len() as int),
                    active_tab: match showing {
                        Some(index) => surviving(
                            pane.tabs,
                            doomed@,
                            index as int,
                        ).len() as usize,
                        None => 0,
                    },
                    ..pane
                };
                if doomed@.contains(pane.active_tab) {
                    console_follows(left)
                } else {
                    left
                }
            }),
    {
        let was_active = is_doomed(doomed.as_slice(), self.active_tab);
        let mut active: usize = 0;
        if let Some(index) = showing {
            let mut at: usize = 0;
            while at < index
                invariant
                    at <= index,
                    index <= self.tabs@.len(),
                    active <= at,
                    active == surviving(self@.tabs, doomed@, at as int).len(),
                decreases index - at,
            {
                if !is_doomed(doomed.as_slice(), at) {
                    active += 1;
                }
                at += 1;
            }
        }
        self.retain_tabs(doomed);
        self.active_tab = active;
        assert(self@ =~= (PaneView {
            tabs: surviving(old(self)@.tabs, doomed@, old(self)@.tabs.len() as int),
            active_tab: active,
            ..old(self)@
        }));
        if was_active {
            self.follow_console();
        }
    }

    /// Add a tab at the end of the strip.
    pub fn push_tab(&mut self, tab: CenterTab)
        ensures
            final(self)@ == with_tab(old(self)@, tab@),
            final(self).tabs@.len() == old(self).tabs@.len() + 1,
    {
        self.tabs.push(tab);
        assert(self@ =~= with_tab(old(self)@, tab@));
    }

    /// A pane with nothing in it.
    pub fn new(id: usize) -> (pane: Pane)
        ensures
            pane@ == empty_pane(id),
    {
        let pane = Pane {
            id,
            tabs: Vec::new(),
            active_tab: 0,
            console: String::new(),
            clause: String::new(),
            chip_value: String::new(),
            composer: None,
            results_tab: ResultsTab::Data,
            row_count: 0,
            selected_row: None,
            selected_column: 0,
            elapsed: None,
            affected: None,
            truncated: false,
            last_sql: None,
            error: None,
            run_origin: None,
            queue: Vec::new(),
            results: Vec::new(),
            result_index: 0,
            unsorted: None,
            pending_sort: None,
        };
        assert(pane@ =~= empty_pane(id));
        pane
    }

    /// The tab that is showing, if there is one.
    pub fn active(&self) -> (tab: Option<&CenterTab>)
        ensures
            match tab {
                Some(tab) => showing(self@) == Some(tab@) && self.active_tab < self.tabs@.len()
                    && *tab == self.tabs@[self.active_tab as int],
                None => showing(self@) is None && self.active_tab >= self.tabs@.len(),
            },
    {
        if self.active_tab < self.tabs.len() {
            Some(&self.tabs[self.active_tab])
        } else {
            None
        }
    }

    /// Put what is in the console back into the tab that owns it. Every path
    /// that changes which tab is active goes through here first, or the text
    /// ends up belonging to whichever tab happened to be showing.
    pub fn stash(&mut self)
        ensures
            final(self)@ == stashed(old(self)@),
            final(self).tabs@.len() == old(self).tabs@.len(),
    {
        let at = self.active_tab;
        if at < self.tabs.len() {
            let ghost before = self.tabs@;
            self.tabs[at].sql = self.console.clone();
            if self.tabs[at].filter.raw {
                self.tabs[at].filter.text = self.clause.clone();
            }
            assert(self.tabs@ =~= before.update(at as int, self.tabs@[at as int]));
            assert(self@ =~= stashed(old(self)@));
        }
    }

    /// Forget the last run's answers, because a new one is starting.
    pub fn start_batch(&mut self)
        ensures
            final(self)@ == batch_started(old(self)@),
            final(self).tabs == old(self).tabs,
    {
        self.queue = Vec::new();
        self.results = Vec::new();
        self.result_index = 0;
        assert(self@ =~= batch_started(old(self)@));
    }

    /// Empty the grid and everything that describes what was in it.
    pub fn clear(&mut self)
        ensures
            final(self)@ == cleared(old(self)@),
            final(self).tabs == old(self).tabs,
    {
        self.start_batch();
        self.row_count = 0;
        self.selected_row = None;
        self.selected_column = 0;
        self.elapsed = None;
        self.affected = None;
        self.truncated = false;
        self.last_sql = None;
        self.error = None;
        self.unsorted = None;
        assert(self@ =~= cleared(old(self)@));
    }

    /// Bring another tab to the front.
    pub fn front(&mut self, index: usize)
        requires
            index < old(self).tabs@.len(),
        ensures
            final(self)@ == fronted(old(self)@, index as int),
            final(self).tabs == old(self).tabs,
    {
        self.error = None;
        self.elapsed = None;
        self.affected = None;
        self.last_sql = None;
        self.truncated = false;
        self.active_tab = index;
        self.console = self.tabs[index].sql.clone();
        self.clause = self.tabs[index].filter.text.clone();
        self.composer = None;
        assert(self@ =~= fronted(old(self)@, index as int));
    }
}

} // verus!
