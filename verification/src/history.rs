//! The history and the saved queries, as the left panel lists them.
use crate::catalog::{ConfigView, ConnectionConfig};
use crate::clock::{day_heading, day_of, heading, local_second, OFFSET_LIMIT};
use crate::icon::{IconColor, IconName, Paint};
use crate::lists::{first, group_views, lemma_first, views};
use crate::showing::group_showing;
use crate::text::{maybe, starts, starts_with, texts};
use crate::window::{
    active_tab, described, group_window, well_formed, SavedView, WindowView, Workspace,
};
use vstd::prelude::*;

verus! {

broadcast use {group_views, group_window, group_showing};

/// Which of the history is listed.
#[derive(Clone, Copy, PartialEq, Eq, Structural, Debug)]
pub enum HistoryScope {
    Everything,
    ThisWindow,
}

/// How many rows of the history are read. Past this the list is not something
/// anyone scrolls: it is something they search.
pub const HISTORY_SHOWN: usize = 200;

/// How long the history is kept: ninety days, in milliseconds.
pub const HISTORY_KEPT_MS: i64 = 7_776_000_000;

/// What the lists of the left panel are read by.
#[derive(Clone, Copy, PartialEq, Eq, Structural, Debug)]
pub struct ListRequest {
    /// The connection whose history and queries are read, and everybody's
    /// where there is none.
    pub connection: Option<u128>,
    /// How many rows of the history are read.
    pub history: usize,
}

/// The moment before which the history is forgotten.
pub fn history_cutoff(now: i64) -> (before: i64)
    requires
        now >= i64::MIN + HISTORY_KEPT_MS,
    ensures
        before == now - HISTORY_KEPT_MS,
{
    now - HISTORY_KEPT_MS
}

impl Workspace {
    /// What the lists of the left panel are read by: the connection the window
    /// is describing.
    pub fn lists_wanted(&self) -> (request: ListRequest)
        ensures
            request.connection == match described(self@) {
                Some(session) => Some(session.config.id),
                None => None,
            },
            request.history == HISTORY_SHOWN,
    {
        let connection = match self.described() {
            Some(session) => Some(session.config.id),
            None => None,
        };
        ListRequest { connection, history: HISTORY_SHOWN }
    }
}

/// The scope an option of the switch stands for.
pub fn scope_at(index: usize) -> (scope: HistoryScope)
    ensures
        scope == if index == 0 {
            HistoryScope::Everything
        } else {
            HistoryScope::ThisWindow
        },
{
    if index == 0 {
        HistoryScope::Everything
    } else {
        HistoryScope::ThisWindow
    }
}

/// How a recorded statement ended.
#[derive(Clone, Copy, PartialEq, Eq, Structural, Debug)]
pub enum Outcome {
    Done,
    Failed,
    Canceled,
}

/// A recorded statement.
#[derive(Debug)]
pub struct HistoryEntry {
    pub id: i64,
    pub connection: Option<u128>,
    pub started_at: i64,
    /// The statement on one line.
    pub line: String,
    pub outcome: Outcome,
    /// Whether it is still in flight.
    pub pending: bool,
    /// How long it took, in words, where it reported back.
    pub took: Option<String>,
    pub error: Option<String>,
    pub notices: Vec<String>,
}

/// A recorded statement, as a value.
#[verifier::ext_equal]
pub struct HistoryView {
    pub id: i64,
    pub connection: Option<u128>,
    pub started_at: i64,
    pub line: Seq<char>,
    pub outcome: Outcome,
    pub pending: bool,
    pub took: Option<Seq<char>>,
    pub error: Option<Seq<char>>,
    pub notices: Seq<Seq<char>>,
}

impl View for HistoryEntry {
    type V = HistoryView;

    open spec fn view(&self) -> HistoryView {
        HistoryView {
            id: self.id,
            connection: self.connection,
            started_at: self.started_at,
            line: self.line@,
            outcome: self.outcome,
            pending: self.pending,
            took: maybe(self.took),
            error: maybe(self.error),
            notices: texts(self.notices@),
        }
    }
}

/// Whether an entry is listed.
pub open spec fn in_scope(entry: HistoryView, scope: HistoryScope, mine: Seq<i64>) -> bool {
    match scope {
        HistoryScope::Everything => true,
        HistoryScope::ThisWindow => mine.contains(entry.id),
    }
}

/// The places of the entries that are listed.
pub open spec fn listed(list: Seq<HistoryView>, scope: HistoryScope, mine: Seq<i64>) -> Seq<usize>
    decreases list.len(),
{
    if list.len() == 0 {
        Seq::empty()
    } else {
        let before = listed(list.drop_last(), scope, mine);
        if in_scope(list.last(), scope, mine) {
            before.push((list.len() - 1) as usize)
        } else {
            before
        }
    }
}

/// Whether the entries at some places are on more than one connection.
pub open spec fn is_mixed(list: Seq<HistoryView>, places: Seq<usize>) -> bool {
    exists|i: int, j: int|
        0 <= i < places.len() && 0 <= j < places.len() && list[(
        #[trigger] places[i]) as int].connection != list[(#[trigger] places[j]) as int].connection
}

/// The day a statement started on, `offset` seconds east of UTC.
pub open spec fn day(ms: i64, offset: i64) -> int {
    local_second(ms as int, offset as int) / 86_400
}

/// How a row says how a statement ended.
pub open spec fn outcome_face(pending: bool, outcome: Outcome) -> (IconName, IconColor) {
    if pending {
        (IconName::Clock, IconColor::Custom(Paint::TextMuted))
    } else {
        match outcome {
            Outcome::Done => (IconName::CircleCheck, IconColor::Custom(Paint::Success)),
            Outcome::Failed => (IconName::CircleXmark, IconColor::Custom(Paint::Danger)),
            Outcome::Canceled => (IconName::Ban, IconColor::Custom(Paint::Warning)),
        }
    }
}

/// A line of the history as it is drawn.
#[derive(Debug)]
pub enum HistoryLine {
    Heading(String),
    /// Which entry it is, how it ended and how long it took.
    Entry(usize, IconName, IconColor, String),
    /// What hangs off the entry above it.
    Aside(String, IconColor),
}

/// A line of the history, as a value.
#[verifier::ext_equal]
pub enum LineView {
    Heading(Seq<char>),
    Entry(usize, IconName, IconColor, Seq<char>),
    Aside(Seq<char>, IconColor),
}

impl View for HistoryLine {
    type V = LineView;

    open spec fn view(&self) -> LineView {
        match self {
            HistoryLine::Heading(text) => LineView::Heading(text@),
            HistoryLine::Entry(place, icon, color, meta) => LineView::Entry(
                *place,
                *icon,
                *color,
                meta@,
            ),
            HistoryLine::Aside(text, color) => LineView::Aside(text@, *color),
        }
    }
}

/// Whether a connection's details go by an id.
pub open spec fn is_config(id: u128) -> spec_fn(ConfigView) -> bool {
    |config: ConfigView| config.id == id
}

/// What a connection is called under an entry.
pub open spec fn entry_connection(entry: HistoryView, connections: Seq<ConfigView>) -> Seq<char> {
    match entry.connection {
        Some(id) => {
            let at = first(connections, is_config(id));
            if at < connections.len() {
                connections[at].name
            } else {
                "unsaved"@
            }
        },
        None => "unsaved"@,
    }
}

/// How a notice is coloured. The severity is the server's own word for it.
pub open spec fn notice_color(notice: Seq<char>) -> IconColor {
    if starts(notice, "WARNING"@) {
        IconColor::Custom(Paint::Warning)
    } else {
        IconColor::Muted
    }
}

/// What hangs off an entry: which connection, what went wrong, and anything
/// the server said on the side.
pub open spec fn asides(entry: HistoryView, connections: Seq<ConfigView>, named: bool) -> Seq<LineView> {
    let who = if named {
        seq![LineView::Aside(entry_connection(entry, connections), IconColor::Subtle)]
    } else {
        Seq::empty()
    };
    let wrong = match entry.error {
        Some(error) => who.push(LineView::Aside(error, IconColor::Custom(Paint::Danger))),
        None => who,
    };
    wrong + Seq::new(
        entry.notices.len(),
        |i: int| LineView::Aside(entry.notices[i], notice_color(entry.notices[i])),
    )
}

/// The row of an entry. An em dash for a statement that never reported back, so
/// a hung query is visibly different from an instant one.
pub open spec fn entry_line(entry: HistoryView, place: usize) -> LineView {
    let (icon, color) = outcome_face(entry.pending, entry.outcome);
    LineView::Entry(
        place,
        icon,
        color,
        match entry.took {
            Some(took) => took,
            None => "\u{2014}"@,
        },
    )
}

/// The first of the entries at some places, grouped by day, each with what
/// hangs off it.
pub open spec fn history_lines(
    list: Seq<HistoryView>,
    places: Seq<usize>,
    count: int,
    connections: Seq<ConfigView>,
    named: bool,
    today: int,
    offset: i64,
) -> Seq<LineView>
    decreases count,
{
    if count <= 0 {
        Seq::empty()
    } else {
        let before = history_lines(list, places, count - 1, connections, named, today, offset);
        let entry = list[places[count - 1] as int];
        let that_day = day(entry.started_at, offset);
        let headed = if count >= 2 && day(
            list[places[count - 2] as int].started_at,
            offset,
        ) == that_day {
            before
        } else {
            before.push(LineView::Heading(heading(today, that_day)))
        };
        headed.push(entry_line(entry, places[count - 1])) + asides(entry, connections, named)
    }
}

/// The places that are listed are places.
proof fn lemma_listed(list: Seq<HistoryView>, scope: HistoryScope, mine: Seq<i64>)
    requires
        list.len() <= usize::MAX,
    ensures
        forall|i: int|
            0 <= i < listed(list, scope, mine).len() ==> (#[trigger] listed(
                list,
                scope,
                mine,
            )[i]) < list.len(),
    decreases list.len(),
{
    if list.len() > 0 {
        lemma_listed(list.drop_last(), scope, mine);
        let before = listed(list.drop_last(), scope, mine);
        let all = listed(list, scope, mine);
        assert forall|i: int| 0 <= i < all.len() implies (#[trigger] all[i]) < list.len() by {
            if i < before.len() {
                assert(all[i] == before[i]);
            }
        }
    }
}

/// Whether some ids have one.
fn has_entry(ids: &Vec<i64>, id: i64) -> (answer: bool)
    ensures
        answer == ids@.contains(id),
{
    let mut at: usize = 0;
    while at < ids.len()
        invariant
            at <= ids@.len(),
            forall|i: int| 0 <= i < at ==> (#[trigger] ids@[i]) != id,
        decreases ids@.len() - at,
    {
        if ids[at] == id {
            return true;
        }
        at += 1;
    }
    false
}

/// The places of the entries that are listed.
pub fn shown_entries(list: &Vec<HistoryEntry>, scope: HistoryScope, mine: &Vec<i64>) -> (places: Vec<
    usize,
>)
    ensures
        places@ == listed(views(list@), scope, mine@),
{
    let ghost all = views(list@);
    let mut places: Vec<usize> = Vec::new();
    let mut at: usize = 0;
    assert(all.take(0) =~= Seq::empty());
    while at < list.len()
        invariant
            at <= list@.len(),
            all == views(list@),
            places@ == listed(all.take(at as int), scope, mine@),
        decreases list@.len() - at,
    {
        assert(all.take(at + 1).drop_last() =~= all.take(at as int));
        assert(all[at as int] == list@[at as int]@);
        let wanted = match scope {
            HistoryScope::Everything => true,
            HistoryScope::ThisWindow => has_entry(mine, list[at].id),
        };
        if wanted {
            places.push(at);
        }
        at += 1;
    }
    assert(all.take(at as int) =~= all);
    places
}

/// Whether two entries are on the same connection, or both on none.
fn same_connection(a: Option<u128>, b: Option<u128>) -> (answer: bool)
    ensures
        answer == (a == b),
{
    match (a, b) {
        (Some(a), Some(b)) => a == b,
        (None, None) => true,
        _ => false,
    }
}

/// Whether the entries at some places are on more than one connection.
fn mixed(list: &Vec<HistoryEntry>, places: &Vec<usize>) -> (answer: bool)
    requires
        forall|i: int| 0 <= i < places@.len() ==> (#[trigger] places@[i]) < list@.len(),
    ensures
        answer == is_mixed(views(list@), places@),
{
    let ghost all = views(list@);
    let mut at: usize = 0;
    while at < places.len()
        invariant
            at <= places@.len(),
            all == views(list@),
            forall|i: int| 0 <= i < places@.len() ==> (#[trigger] places@[i]) < list@.len(),
            forall|i: int|
                0 <= i < at ==> all[(#[trigger] places@[i]) as int].connection
                    == all[places@[0] as int].connection,
        decreases places@.len() - at,
    {
        assert(all[places@[at as int] as int] == list@[places@[at as int] as int]@);
        assert(all[places@[0] as int] == list@[places@[0] as int]@);
        if !same_connection(list[places[at]].connection, list[places[0]].connection) {
            return true;
        }
        at += 1;
    }
    false
}

/// What a connection is called under an entry.
fn connection_name(entry: &HistoryEntry, connections: &Vec<ConnectionConfig>) -> (name: String)
    ensures
        name@ == entry_connection(entry@, views(connections@)),
{
    let id = match entry.connection {
        Some(id) => id,
        None => {
            return "unsaved".to_owned();
        },
    };
    let ghost all = views(connections@);
    let mut at: usize = 0;
    while at < connections.len()
        invariant
            at <= connections@.len(),
            all == views(connections@),
            entry.connection == Some(id),
            forall|i: int| 0 <= i < at ==> !is_config(id)(#[trigger] all[i]),
        decreases connections@.len() - at,
    {
        assert(all[at as int] == connections@[at as int]@);
        if connections[at].id == id {
            proof {
                lemma_first(all, is_config(id), at as int);
            }
            return connections[at].name.clone();
        }
        at += 1;
    }
    proof {
        lemma_first(all, is_config(id), at as int);
    }
    "unsaved".to_owned()
}

/// What hangs off an entry.
pub fn render_history_aside(
    entry: &HistoryEntry,
    connections: &Vec<ConnectionConfig>,
    name_connection: bool,
) -> (lines: Vec<HistoryLine>)
    ensures
        views(lines@) == asides(entry@, views(connections@), name_connection),
{
    let mut lines: Vec<HistoryLine> = Vec::new();
    assert(views(lines@) =~= Seq::empty());
    if name_connection {
        lines.push(HistoryLine::Aside(connection_name(entry, connections), IconColor::Subtle));
        assert(views(lines@) =~= seq![
            LineView::Aside(entry_connection(entry@, views(connections@)), IconColor::Subtle),
        ]);
    }
    if let Some(error) = &entry.error {
        lines.push(HistoryLine::Aside(error.clone(), IconColor::Custom(Paint::Danger)));
    }
    let ghost head = views(lines@);
    let ghost notes = Seq::new(
        entry@.notices.len(),
        |i: int| LineView::Aside(entry@.notices[i], notice_color(entry@.notices[i])),
    );
    let mut at: usize = 0;
    assert(notes.take(0) =~= Seq::empty());
    while at < entry.notices.len()
        invariant
            at <= entry.notices@.len(),
            notes == Seq::new(
                entry@.notices.len(),
                |i: int| LineView::Aside(entry@.notices[i], notice_color(entry@.notices[i])),
            ),
            views(lines@) == head + notes.take(at as int),
        decreases entry.notices@.len() - at,
    {
        let ghost had = views(lines@);
        let notice = entry.notices[at].clone();
        let color = if starts_with(notice.as_str(), "WARNING") {
            IconColor::Custom(Paint::Warning)
        } else {
            IconColor::Muted
        };
        lines.push(HistoryLine::Aside(notice, color));
        assert(head + notes.take(at + 1) =~= had.push(notes[at as int]));
        at += 1;
    }
    assert(notes.take(at as int) =~= notes);
    assert(views(lines@) =~= asides(entry@, views(connections@), name_connection));
    lines
}

/// How a row says how a statement ended.
fn face_of(entry: &HistoryEntry) -> (face: (IconName, IconColor))
    ensures
        face == outcome_face(entry.pending, entry.outcome),
{
    if entry.pending {
        return (IconName::Clock, IconColor::Custom(Paint::TextMuted));
    }
    match entry.outcome {
        Outcome::Done => (IconName::CircleCheck, IconColor::Custom(Paint::Success)),
        Outcome::Failed => (IconName::CircleXmark, IconColor::Custom(Paint::Danger)),
        Outcome::Canceled => (IconName::Ban, IconColor::Custom(Paint::Warning)),
    }
}

/// What stands in place of a history with nothing in it.
pub open spec fn empty_history(scope: HistoryScope) -> (Seq<char>, Seq<char>) {
    match scope {
        HistoryScope::ThisWindow => (
            "Nothing yet in this window"@,
            "Statements, commits, imports and exports show up here as you make them."@,
        ),
        HistoryScope::Everything => (
            "No history yet"@,
            "Every statement you run is recorded here, along with every commit, import and export."@,
        ),
    }
}

/// The history as it is drawn.
#[derive(Debug)]
pub enum HistoryList {
    /// A title and a sentence, where there is nothing to list.
    Empty(String, String),
    Lines(Vec<HistoryLine>),
}

/// Whether a list is the one of a history.
pub open spec fn is_history(
    drawn: HistoryList,
    list: Seq<HistoryView>,
    scope: HistoryScope,
    mine: Seq<i64>,
    connections: Seq<ConfigView>,
    now: i64,
    offset: i64,
) -> bool {
    let places = listed(list, scope, mine);
    match drawn {
        HistoryList::Empty(title, description) => places.len() == 0 && (title@, description@)
            == empty_history(scope),
        HistoryList::Lines(lines) => places.len() > 0 && views(lines@) == history_lines(
            list,
            places,
            places.len() as int,
            connections,
            is_mixed(list, places),
            day(now, offset),
            offset,
        ),
    }
}

/// The history, grouped by day, newest first. Which connection a row belongs to
/// is only worth saying when the list holds more than one.
pub fn render_history(
    list: &Vec<HistoryEntry>,
    scope: HistoryScope,
    mine: &Vec<i64>,
    connections: &Vec<ConnectionConfig>,
    now: i64,
    offset: i64,
) -> (drawn: HistoryList)
    requires
        -OFFSET_LIMIT <= offset <= OFFSET_LIMIT,
    ensures
        is_history(drawn, views(list@), scope, mine@, views(connections@), now, offset),
{
    let ghost all = views(list@);
    let ghost theirs = views(connections@);
    let places = shown_entries(list, scope, mine);
    assert(list.len() <= usize::MAX);
    proof {
        lemma_listed(all, scope, mine@);
    }
    if places.len() == 0 {
        return match scope {
            HistoryScope::ThisWindow => HistoryList::Empty(
                "Nothing yet in this window".to_owned(),
                "Statements, commits, imports and exports show up here as you make them.".to_owned(),
            ),
            HistoryScope::Everything => HistoryList::Empty(
                "No history yet".to_owned(),
                "Every statement you run is recorded here, along with every commit, import and export.".to_owned(),
            ),
        };
    }
    let named = mixed(list, &places);
    let today = day_of(now, offset);
    let mut lines: Vec<HistoryLine> = Vec::new();
    let mut current: Option<i64> = None;
    let mut at: usize = 0;
    assert(views(lines@) =~= Seq::empty());
    while at < places.len()
        invariant
            at <= places@.len(),
            all == views(list@),
            theirs == views(connections@),
            -OFFSET_LIMIT <= offset <= OFFSET_LIMIT,
            today == day(now, offset),
            forall|i: int| 0 <= i < places@.len() ==> (#[trigger] places@[i]) < list@.len(),
            current matches Some(d) ==> at > 0 && d == day(
                all[places@[at - 1] as int].started_at,
                offset,
            ),
            current is None ==> at == 0,
            views(lines@) == history_lines(
                all,
                places@,
                at as int,
                theirs,
                named,
                today as int,
                offset,
            ),
        decreases places@.len() - at,
    {
        let entry = &list[places[at]];
        assert(all[places@[at as int] as int] == entry@);
        let that_day = day_of(entry.started_at, offset);
        let known = match current {
            Some(open) => open == that_day,
            None => false,
        };
        if !known {
            current = Some(that_day);
            lines.push(HistoryLine::Heading(day_heading(today, that_day)));
        }
        let (icon, color) = face_of(entry);
        let meta = match &entry.took {
            Some(took) => took.clone(),
            None => "\u{2014}".to_owned(),
        };
        let ghost headed = views(lines@);
        lines.push(HistoryLine::Entry(places[at], icon, color, meta));
        assert(views(lines@) =~= headed.push(entry_line(entry@, places@[at as int])));
        let mut aside = render_history_aside(entry, connections, named);
        lines.append(&mut aside);
        at += 1;
    }
    HistoryList::Lines(lines)
}

/// A saved query of the list.
#[derive(Clone, Copy, PartialEq, Eq, Structural, Debug)]
pub struct QueryRow {
    /// Which of the saved queries it is.
    pub place: usize,
    /// Whether the showing tab is editing it.
    pub selected: bool,
    /// Whether it was saved with nothing connected, and so applies to every
    /// server.
    pub anywhere: bool,
}

/// The saved queries of the list.
pub open spec fn query_rows(saved: Seq<SavedView>, open: Option<u128>) -> Seq<QueryRow> {
    Seq::new(
        saved.len(),
        |i: int|
            QueryRow {
                place: i as usize,
                selected: open == Some(saved[i].id),
                anywhere: saved[i].connection is None,
            },
    )
}

/// The saved query the showing tab is editing.
pub open spec fn open_query(window: WindowView) -> Option<u128> {
    match active_tab(window) {
        Some(tab) => tab.saved_query,
        None => None,
    }
}

impl Workspace {
    /// The saved queries, with the one the showing tab is editing marked, so
    /// saving has a visible destination.
    pub fn render_query_list(&self) -> (rows: Vec<QueryRow>)
        requires
            well_formed(self@),
        ensures
            rows@ == query_rows(self@.saved, open_query(self@)),
    {
        let here = self.active_at();
        let open = match self.panes[here].active() {
            Some(tab) => tab.saved_query,
            None => None,
        };
        let ghost all = self@.saved;
        let mut rows: Vec<QueryRow> = Vec::new();
        let mut at: usize = 0;
        while at < self.saved.len()
            invariant
                at <= self.saved@.len(),
                all == views(self.saved@),
                rows@ == query_rows(all, open).take(at as int),
            decreases self.saved@.len() - at,
        {
            let ghost had = rows@;
            assert(all[at as int] == self.saved@[at as int]@);
            let selected = match open {
                Some(id) => id == self.saved[at].id,
                None => false,
            };
            rows.push(
                QueryRow { place: at, selected, anywhere: self.saved[at].connection.is_none() },
            );
            assert(query_rows(all, open).take(at + 1) =~= had.push(query_rows(all, open)[at as int]));
            at += 1;
        }
        assert(query_rows(all, open).take(at as int) =~= query_rows(all, open));
        rows
    }
}

} // verus!
