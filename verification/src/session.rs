//! A live connection, as the window sees it.
//!
//! The window's thread will not tolerate a blocking call, so every database
//! operation is a request that is handed out and answered later. This is the
//! state in between: what was asked, what may be asked now, and what is done
//! with each answer. A method takes what happened and gives back what is to be
//! done about it, in order.
//!
//! One session is one server connection, not a pool. `SET`, temporary tables
//! and open transactions all behave the way a person typing SQL expects them
//! to, which no pool can promise.
use crate::catalog::{
    error_view, worded, Capabilities, ConfigView, ConnectionConfig, DbError, ErrorClass, ErrorView,
    Grants, KeyInfo, KeyType, Keyspace, RelationRef, RoleSet, Rows, SafetyLevel, SchemaSnapshot,
};
use crate::text::{
    ascii_lowered, chars_of, contains, decimal, has, has_ink, is_blank, is_space, joined, lowered,
    maybe, same, space, text_of, texts,
};
use vstd::prelude::*;

verus! {

/// Where the connection is.
#[derive(Debug)]
pub enum SessionState {
    /// Configured but not opened. Where every session starts.
    Offline,
    Connecting,
    Connected,
    /// The last attempt failed, with the server's own words.
    Failed(String),
}

/// Where the connection is, as a value.
pub enum StateView {
    Offline,
    Connecting,
    Connected,
    Failed(Seq<char>),
}

impl View for SessionState {
    type V = StateView;

    open spec fn view(&self) -> StateView {
        match self {
            SessionState::Offline => StateView::Offline,
            SessionState::Connecting => StateView::Connecting,
            SessionState::Connected => StateView::Connected,
            SessionState::Failed(message) => StateView::Failed(message@),
        }
    }
}

/// The one-line summary of a state.
pub open spec fn state_label(state: StateView) -> Seq<char> {
    match state {
        StateView::Offline => "Not connected"@,
        StateView::Connecting => "Connecting…"@,
        StateView::Connected => "Connected"@,
        StateView::Failed(message) => message,
    }
}

impl SessionState {
    /// Whether there is a server on the other end.
    pub fn is_connected(&self) -> (answer: bool)
        ensures
            answer == (self@ is Connected),
    {
        matches!(self, SessionState::Connected)
    }

    /// Whether the last attempt failed.
    pub fn is_failed(&self) -> (answer: bool)
        ensures
            answer == (self@ is Failed),
    {
        matches!(self, SessionState::Failed(_))
    }

    /// The one-line summary the status bar shows.
    pub fn label(&self) -> (text: String)
        ensures
            text@ == state_label(self@),
    {
        match self {
            SessionState::Offline => "Not connected".to_owned(),
            SessionState::Connecting => "Connecting…".to_owned(),
            SessionState::Connected => "Connected".to_owned(),
            SessionState::Failed(message) => message.clone(),
        }
    }
}

/// What the session is doing right now, so the window can show a spinner on
/// the right thing and offer cancel only when there is something to cancel.
#[derive(Clone, Copy, PartialEq, Eq, Structural, Debug)]
pub enum Activity {
    Idle,
    Connecting,
    Introspecting,
    Running,
}

/// What a session tells the window.
#[derive(Clone, Copy, PartialEq, Eq, Structural, Debug)]
pub enum SessionEvent {
    /// Connected, disconnected, or failed. The titlebar and status bar redraw.
    StateChanged,
    /// A new catalog landed. The sidebar rebuilds its tree.
    SchemaChanged,
    /// A statement finished, for better or worse. `Session::last` has it.
    Finished,
    /// A grid commit finished. `Session::last_apply` has it.
    Applied,
    /// A page of the keyspace arrived. The sidebar rebuilds its tree; separate
    /// from a new catalog because a walk lands repeatedly while it continues.
    KeysChanged,
    /// A key was read. `Session::last_key` has it.
    KeyOpened,
    /// The roles arrived, or one relation's grants did.
    PrivilegesChanged,
}

/// One finished statement.
pub struct Run {
    pub sql: String,
    /// How long it took, in nanoseconds.
    pub elapsed: u128,
    /// The rows, if it produced any. Taken by the window, which leaves nothing
    /// behind.
    pub rows: Option<Rows>,
    /// Whether the server had more rows than were asked for.
    pub truncated: bool,
    /// The count for a statement that returned no rows.
    pub affected: Option<u64>,
    pub error: Option<DbError>,
    /// What the server said while this ran.
    pub notices: Vec<String>,
}

/// One finished statement, as a value.
#[verifier::ext_equal]
pub struct RunView {
    pub sql: Seq<char>,
    pub elapsed: u128,
    pub rows: Option<Rows>,
    pub truncated: bool,
    pub affected: Option<u64>,
    pub error: Option<ErrorView>,
    pub notices: Seq<Seq<char>>,
}

impl View for Run {
    type V = RunView;

    open spec fn view(&self) -> RunView {
        RunView {
            sql: self.sql@,
            elapsed: self.elapsed,
            rows: self.rows,
            truncated: self.truncated,
            affected: self.affected,
            error: error_view(self.error),
            notices: texts(self.notices@),
        }
    }
}

impl Run {
    /// Whether the statement went through.
    pub fn succeeded(&self) -> (answer: bool)
        ensures
            answer == (self@.error is None),
    {
        self.error.is_none()
    }
}

/// How many keys one turn of the walk asks for: a budget and not a promise.
pub const KEY_PAGE: usize = 500;

/// How much of one key's contents is read at a time.
pub const KEY_ROWS: usize = 1000;

/// One opened key: what it is, and as much of it as was read.
pub struct KeyView {
    pub key: Vec<u8>,
    pub kind: KeyType,
    /// The facts above the rows. `None` when the key went away between being
    /// listed and being opened, which is ordinary rather than an error.
    pub facts: Option<String>,
    pub rows: Option<Rows>,
    /// Where the next page of this key's contents starts.
    pub more: Option<u64>,
    pub error: Option<DbError>,
}

/// One opened key, as a value.
#[verifier::ext_equal]
pub struct OpenKeyView {
    pub key: Seq<u8>,
    pub kind: KeyType,
    pub facts: Option<Seq<char>>,
    pub rows: Option<Rows>,
    pub more: Option<u64>,
    pub error: Option<ErrorView>,
}

impl View for KeyView {
    type V = OpenKeyView;

    open spec fn view(&self) -> OpenKeyView {
        OpenKeyView {
            key: self.key@,
            kind: self.kind,
            facts: maybe(self.facts),
            rows: self.rows,
            more: self.more,
            error: error_view(self.error),
        }
    }
}

/// How many changes of each kind a commit is made of.
#[derive(Clone, Copy, PartialEq, Eq, Structural, Debug)]
pub struct Counts {
    pub inserts: usize,
    pub updates: usize,
    pub deletes: usize,
    pub ddl: usize,
}

/// One finished commit of staged edits: what was attempted, and whether the
/// transaction went through.
pub struct Applied {
    pub counts: Counts,
    /// How long it took, in nanoseconds.
    pub elapsed: u128,
    pub error: Option<DbError>,
}

/// One finished commit, as a value.
#[verifier::ext_equal]
pub struct AppliedView {
    pub counts: Counts,
    pub elapsed: u128,
    pub error: Option<ErrorView>,
}

impl View for Applied {
    type V = AppliedView;

    open spec fn view(&self) -> AppliedView {
        AppliedView {
            counts: self.counts,
            elapsed: self.elapsed,
            error: error_view(self.error),
        }
    }
}

/// A count and its noun, `1 insert` or `2 inserts`, and nothing for a count of
/// nothing.
pub open spec fn tally(count: nat, word: Seq<char>) -> Seq<Seq<char>> {
    if count == 0 {
        Seq::empty()
    } else if count == 1 {
        seq!["1 "@ + word]
    } else {
        seq![(decimal(count).push(' ') + word).push('s')]
    }
}

/// The parts of a commit that have something in them.
pub open spec fn tallies(counts: Counts) -> Seq<Seq<char>> {
    tally(counts.inserts as nat, "insert"@) + tally(counts.updates as nat, "update"@) + tally(
        counts.deletes as nat,
        "delete"@,
    ) + tally(counts.ddl as nat, "schema change"@)
}

/// The sentence a commit is summed up in.
pub open spec fn commit_summary(counts: Counts) -> Seq<char> {
    if tallies(counts).len() == 0 {
        "nothing"@
    } else {
        joined(tallies(counts), ", "@)
    }
}

/// Append a count and its noun.
fn push_tally(parts: &mut Vec<String>, count: usize, word: &str)
    ensures
        texts(final(parts)@) == texts(old(parts)@) + tally(count as nat, word@),
{
    let ghost had = texts(parts@);
    if count == 0 {
        assert(had + tally(0, word@) =~= had);
    } else if count == 1 {
        let mut text = "1 ".to_owned();
        text.append(word);
        parts.push(text);
        assert(texts(parts@) =~= had + tally(1, word@));
    } else {
        let mut text = crate::text::decimal_text(count as u64);
        text.push(' ');
        text.append(word);
        text.push('s');
        parts.push(text);
        assert(texts(parts@) =~= had + tally(count as nat, word@));
    }
}

impl Applied {
    /// Whether the transaction went through.
    pub fn succeeded(&self) -> (answer: bool)
        ensures
            answer == (self@.error is None),
    {
        self.error.is_none()
    }

    /// `2 inserts, 1 update`: the sentence the message log prints.
    pub fn summary(&self) -> (text: String)
        ensures
            text@ == commit_summary(self.counts),
    {
        let mut parts: Vec<String> = Vec::new();
        push_tally(&mut parts, self.counts.inserts, "insert");
        push_tally(&mut parts, self.counts.updates, "update");
        push_tally(&mut parts, self.counts.deletes, "delete");
        push_tally(&mut parts, self.counts.ddl, "schema change");
        assert(texts(parts@) =~= tallies(self.counts));
        if parts.len() == 0 {
            "nothing".to_owned()
        } else {
            crate::text::join(&parts, ", ")
        }
    }
}

/// Whether a character ends a word of a statement: white space, a bracket or a
/// semicolon.
pub open spec fn ends_word(c: char) -> bool {
    is_space(c) || c == '(' || c == ';'
}

/// Whether a character ends a line, and the comment that was on it.
pub open spec fn ends_line(c: char) -> bool {
    c == '\n' || c == '\r'
}

/// Whether a comment opens at a place.
pub open spec fn opens_comment(sql: Seq<char>, at: int) -> bool {
    at + 1 < sql.len() && sql[at] == '-' && sql[at + 1] == '-'
}

/// Where the first word of a statement starts, from a place on: past whatever
/// ends words, and past comments to the ends of their lines.
pub open spec fn word_start(sql: Seq<char>, at: int, commented: bool) -> int
    decreases sql.len() - at,
{
    if at >= sql.len() {
        at
    } else if commented {
        word_start(sql, at + 1, !ends_line(sql[at]))
    } else if ends_word(sql[at]) {
        word_start(sql, at + 1, false)
    } else if opens_comment(sql, at) {
        word_start(sql, at + 1, true)
    } else {
        at
    }
}

/// Where a word ends that starts at a place.
pub open spec fn word_end(sql: Seq<char>, at: int) -> int
    decreases sql.len() - at,
{
    if at >= sql.len() || ends_word(sql[at]) {
        at
    } else {
        word_end(sql, at + 1)
    }
}

/// The word a statement opens with, its ASCII capitals made small. A comment is
/// no part of the statement.
pub open spec fn keyword(sql: Seq<char>) -> Seq<char> {
    let from = word_start(sql, 0, false);
    ascii_lowered(sql.subrange(from, word_end(sql, from)))
}

/// The words that open a statement which only reads.
pub open spec fn opens_a_read(word: Seq<char>) -> bool {
    ||| word == "select"@
    ||| word == "with"@
    ||| word == "show"@
    ||| word == "explain"@
    ||| word == "table"@
    ||| word == "values"@
    ||| word == "fetch"@
}

/// A cheap guess at whether a statement writes, used only to refuse early on a
/// read-only connection.
///
/// Deliberately conservative and deliberately not a parser: it looks at the
/// first keyword, and anything it does not recognise as a read counts as a
/// write. Being wrong in that direction costs a person one setting change;
/// being wrong the other way costs them a table.
pub fn writes(sql: &str) -> (answer: bool)
    ensures
        answer == !opens_a_read(keyword(sql@)),
{
    let chars = chars_of(sql);
    let mut from: usize = 0;
    let mut commented = false;
    let mut found = false;
    while from < chars.len() && !found
        invariant
            from <= chars@.len(),
            chars@ == sql@,
            found ==> word_start(sql@, from as int, commented) == from,
            word_start(sql@, from as int, commented) == word_start(sql@, 0, false),
        decreases chars@.len() - from, if found { 0int } else { 1int },
    {
        let c = chars[from];
        if commented {
            commented = c != '\n' && c != '\r';
            from += 1;
        } else if space(c) || c == '(' || c == ';' {
            from += 1;
        } else if from + 1 < chars.len() && c == '-' && chars[from + 1] == '-' {
            commented = true;
            from += 1;
        } else {
            found = true;
        }
    }
    let mut to: usize = from;
    while to < chars.len() && !(space(chars[to]) || chars[to] == '(' || chars[to] == ';')
        invariant
            from <= to <= chars@.len(),
            chars@ == sql@,
            word_end(sql@, to as int) == word_end(sql@, from as int),
        decreases chars@.len() - to,
    {
        to += 1;
    }
    let word = lowered(text_of(&chars, from, to).as_str());
    assert(word@ == keyword(sql@));
    let word = word.as_str();
    !(same(word, "select") || same(word, "with") || same(word, "show") || same(word, "explain")
        || same(word, "table") || same(word, "values") || same(word, "fetch"))
}

/// A server on the other end.
#[derive(Debug)]
pub struct Live {
    /// What the server said it is.
    pub version: String,
    pub capabilities: Capabilities,
}

/// A statement of a commit.
pub struct Statement {
    pub sql: String,
    /// How many rows it has to change for the commit to go through.
    pub expect_rows: Option<u64>,
}

/// What a server's catalog is made of.
pub enum Catalog {
    Sql(SchemaSnapshot),
    Keyspace(Keyspace),
}

/// What is in flight.
pub enum Task {
    Connect,
    Refresh,
    Scan,
    Key(Vec<u8>, KeyType),
    Query(String),
    Commit(Counts),
}

/// What is in flight, as a value.
pub enum TaskView {
    Connect,
    Refresh,
    Scan,
    Key(Seq<u8>, KeyType),
    Query(Seq<char>),
    Commit(Counts),
}

impl View for Task {
    type V = TaskView;

    open spec fn view(&self) -> TaskView {
        match self {
            Task::Connect => TaskView::Connect,
            Task::Refresh => TaskView::Refresh,
            Task::Scan => TaskView::Scan,
            Task::Key(key, kind) => TaskView::Key(key@, *kind),
            Task::Query(sql) => TaskView::Query(sql@),
            Task::Commit(counts) => TaskView::Commit(*counts),
        }
    }
}

/// Something to ask a server, to be answered later.
pub enum Request {
    /// Open the connection and read the catalog and the roles, in one
    /// operation.
    Connect { config: ConnectionConfig, password: Option<String> },
    /// Read the catalog.
    Catalog,
    /// Read who may do what to a relation.
    Grants(RelationRef),
    /// List a page of keys that match a pattern, from where the walk stopped.
    Keys { pattern: String, from: Option<u64>, limit: usize },
    /// Read what a key is and what it holds.
    ReadKey { key: Vec<u8>, kind: KeyType, limit: usize },
    /// Run one statement.
    Query(String),
    /// Run the statements of a commit in one transaction.
    Commit(Vec<Statement>),
    /// Ask the server to stop.
    Cancel,
}

/// Something to ask a server, as a value.
pub enum RequestView {
    Connect { config: ConfigView, password: Option<Seq<char>> },
    Catalog,
    Grants((Seq<char>, Seq<char>)),
    Keys { pattern: Seq<char>, from: Option<u64>, limit: usize },
    ReadKey { key: Seq<u8>, kind: KeyType, limit: usize },
    Query(Seq<char>),
    Commit(Seq<Statement>),
    Cancel,
}

impl View for Request {
    type V = RequestView;

    open spec fn view(&self) -> RequestView {
        match self {
            Request::Connect { config, password } => RequestView::Connect {
                config: config@,
                password: maybe(*password),
            },
            Request::Catalog => RequestView::Catalog,
            Request::Grants(relation) => RequestView::Grants(relation.parts()),
            Request::Keys { pattern, from, limit } => RequestView::Keys {
                pattern: pattern@,
                from: *from,
                limit: *limit,
            },
            Request::ReadKey { key, kind, limit } => RequestView::ReadKey {
                key: key@,
                kind: *kind,
                limit: *limit,
            },
            Request::Query(sql) => RequestView::Query(sql@),
            Request::Commit(statements) => RequestView::Commit(statements@),
            Request::Cancel => RequestView::Cancel,
        }
    }
}

/// What is to be done about something that happened.
pub enum SessionEffect {
    /// Tell the window.
    Emit(SessionEvent),
    /// Ask for a frame.
    Notify,
    /// Ask the server.
    Ask(Request),
}

/// What is to be done, as a value.
pub enum Deed {
    Emit(SessionEvent),
    Notify,
    Ask(RequestView),
}

impl View for SessionEffect {
    type V = Deed;

    open spec fn view(&self) -> Deed {
        match self {
            SessionEffect::Emit(event) => Deed::Emit(*event),
            SessionEffect::Notify => Deed::Notify,
            SessionEffect::Ask(request) => Deed::Ask(request@),
        }
    }
}

/// A list of things to be done, as values.
pub open spec fn deeds(list: Seq<SessionEffect>) -> Seq<Deed> {
    Seq::new(list.len(), |i: int| list[i]@)
}

/// A live connection, as the window sees it.
pub struct Session {
    pub config: ConnectionConfig,
    /// The password as it was typed, when this session was opened by saving a
    /// connection. Not a cache: a session reopened from the sidebar has none of
    /// this and goes to the store of record.
    pub password: Option<String>,
    pub state: SessionState,
    pub activity: Activity,
    pub connection: Option<Live>,
    /// The catalog of a SQL server. `None` on a connection that has no schema
    /// to read.
    pub snapshot: Option<SchemaSnapshot>,
    /// The catalog of a key-value server. Exactly one of this and the snapshot
    /// is set on a connected session.
    pub keyspace: Option<Keyspace>,
    /// The keys the browser has seen so far, in the order the server handed
    /// them over. A sample and not an inventory.
    pub keys: Vec<KeyInfo>,
    /// Whether the walk that produced the keys reached the end.
    pub keys_complete: bool,
    /// Where the walk stopped.
    pub key_cursor: Option<u64>,
    /// The pattern the current listing was asked for.
    pub key_pattern: String,
    /// The last key that was opened.
    pub last_key: Option<KeyView>,
    /// Every role on the server, read once when the connection opens. `None` on
    /// an engine that has no roles, and while the read is in flight.
    pub roles: Option<RoleSet>,
    /// The privileges on the relations somebody has looked at.
    pub grants: Vec<(RelationRef, Grants)>,
    /// The relation whose grants are being read.
    pub loading_grants: Option<RelationRef>,
    /// The operation in flight.
    pub task: Option<Task>,
    /// The statement that arrived while another operation was still in flight,
    /// and will be sent the moment it lands. One slot, not a queue: every one
    /// of them but the last is a question nobody is still asking.
    pub superseding: Option<String>,
    pub last: Option<Run>,
    /// The last commit of staged edits.
    pub last_apply: Option<Applied>,
}

/// A live connection, as a value.
#[verifier::ext_equal]
pub struct SessionView {
    pub config: ConfigView,
    pub password: Option<Seq<char>>,
    pub state: StateView,
    pub activity: Activity,
    pub connection: Option<Live>,
    pub snapshot: Option<SchemaSnapshot>,
    pub keyspace: Option<Keyspace>,
    pub keys: Seq<KeyInfo>,
    pub keys_complete: bool,
    pub key_cursor: Option<u64>,
    pub key_pattern: Seq<char>,
    pub last_key: Option<OpenKeyView>,
    pub roles: Option<RoleSet>,
    pub grants: Seq<(RelationRef, Grants)>,
    pub loading_grants: Option<(Seq<char>, Seq<char>)>,
    pub task: Option<TaskView>,
    pub superseding: Option<Seq<char>>,
    pub last: Option<RunView>,
    pub last_apply: Option<AppliedView>,
}

impl View for Session {
    type V = SessionView;

    open spec fn view(&self) -> SessionView {
        SessionView {
            config: self.config@,
            password: maybe(self.password),
            state: self.state@,
            activity: self.activity,
            connection: self.connection,
            snapshot: self.snapshot,
            keyspace: self.keyspace,
            keys: self.keys@,
            keys_complete: self.keys_complete,
            key_cursor: self.key_cursor,
            key_pattern: self.key_pattern@,
            last_key: match self.last_key {
                Some(view) => Some(view@),
                None => None,
            },
            roles: self.roles,
            grants: self.grants@,
            loading_grants: match self.loading_grants {
                Some(relation) => Some(relation.parts()),
                None => None,
            },
            task: match self.task {
                Some(task) => Some(task@),
                None => None,
            },
            superseding: maybe(self.superseding),
            last: match self.last {
                Some(run) => Some(run@),
                None => None,
            },
            last_apply: match self.last_apply {
                Some(applied) => Some(applied@),
                None => None,
            },
        }
    }
}

/// A session and what is to be done next.
pub type Step = (SessionView, Seq<Deed>);

/// Nothing happens.
pub open spec fn idle(session: SessionView) -> Step {
    (session, Seq::empty())
}

/// A session nobody has opened yet.
pub open spec fn fresh(config: ConfigView, password: Option<Seq<char>>) -> SessionView {
    SessionView {
        config,
        password,
        state: StateView::Offline,
        activity: Activity::Idle,
        connection: None,
        snapshot: None,
        keyspace: None,
        keys: Seq::empty(),
        keys_complete: false,
        key_cursor: None,
        key_pattern: Seq::empty(),
        last_key: None,
        roles: None,
        grants: Seq::empty(),
        loading_grants: None,
        task: None,
        superseding: None,
        last: None,
        last_apply: None,
    }
}

/// Whether an operation is in flight.
pub open spec fn busy(session: SessionView) -> bool {
    session.activity != Activity::Idle
}

/// Opening the connection: what was held of the old one goes, and the server
/// is asked. Nothing while something is in flight. The privileges that were
/// read go wholesale, because another login changes every one of them at once,
/// the roles are not known until they have been read again, and a statement
/// that was held behind an operation of the old connection goes too.
pub open spec fn connecting(session: SessionView) -> Step {
    if busy(session) {
        idle(session)
    } else {
        (
            SessionView {
                state: StateView::Connecting,
                activity: Activity::Connecting,
                connection: None,
                roles: None,
                grants: Seq::empty(),
                loading_grants: None,
                superseding: None,
                task: Some(TaskView::Connect),
                ..session
            },
            seq![
                Deed::Emit(SessionEvent::StateChanged),
                Deed::Notify,
                Deed::Ask(
                    RequestView::Connect { config: session.config, password: session.password },
                ),
            ],
        )
    }
}

/// Connecting again, with the details taken afresh.
pub open spec fn retrying(
    session: SessionView,
    config: ConfigView,
    password: Option<Seq<char>>,
) -> Step {
    connecting(SessionView { config, password, ..session })
}

/// A freshly read catalog, where the sidebar looks for it. Both kinds are set
/// every time, and the keys under the old one go.
pub open spec fn with_catalog(session: SessionView, catalog: Catalog) -> SessionView {
    SessionView {
        snapshot: match catalog {
            Catalog::Sql(snapshot) => Some(snapshot),
            Catalog::Keyspace(_) => None,
        },
        keyspace: match catalog {
            Catalog::Sql(_) => None,
            Catalog::Keyspace(keyspace) => Some(keyspace),
        },
        keys: Seq::empty(),
        keys_complete: false,
        key_cursor: None,
        ..session
    }
}

/// What a server that has been reached brings with it.
pub struct Opened {
    pub connection: Live,
    pub catalog: Catalog,
    pub roles: Option<RoleSet>,
}

/// The answer to connecting.
pub open spec fn connected(session: SessionView, outcome: Result<Opened, DbError>) -> Step {
    if session.task != Some(TaskView::Connect) {
        idle(session)
    } else {
        let landed = SessionView { activity: Activity::Idle, task: None, ..session };
        match outcome {
            Ok(opened) => (
                SessionView {
                    connection: Some(opened.connection),
                    roles: opened.roles,
                    state: StateView::Connected,
                    ..with_catalog(landed, opened.catalog)
                },
                seq![
                    Deed::Emit(SessionEvent::SchemaChanged),
                    Deed::Emit(SessionEvent::StateChanged),
                    Deed::Notify,
                ],
            ),
            Err(error) => (
                SessionView { state: StateView::Failed(error.message@), ..landed },
                seq![Deed::Emit(SessionEvent::StateChanged), Deed::Notify],
            ),
        }
    }
}

/// Dropping the connection and everything read over it.
pub open spec fn disconnected(session: SessionView) -> Step {
    (
        SessionView {
            task: None,
            connection: None,
            snapshot: None,
            keyspace: None,
            roles: None,
            grants: Seq::empty(),
            loading_grants: None,
            keys: Seq::empty(),
            keys_complete: false,
            key_cursor: None,
            activity: Activity::Idle,
            superseding: None,
            state: StateView::Offline,
            ..session
        },
        seq![
            Deed::Emit(SessionEvent::SchemaChanged),
            Deed::Emit(SessionEvent::StateChanged),
            Deed::Notify,
        ],
    )
}

/// A failure decided on without asking the server, reported exactly as the
/// server's own are.
pub open spec fn failed_locally(session: SessionView, sql: Seq<char>, error: ErrorView) -> Step {
    (
        SessionView {
            last: Some(
                RunView {
                    sql,
                    elapsed: 0,
                    rows: None,
                    truncated: false,
                    affected: None,
                    error: Some(error),
                    notices: Seq::empty(),
                },
            ),
            ..session
        },
        seq![Deed::Emit(SessionEvent::Finished), Deed::Notify],
    )
}

/// What a read-only connection says to a statement that writes.
pub open spec fn read_only_statement() -> ErrorView {
    worded(
        ErrorClass::Server,
        "This connection is marked read-only. Change it in the connection settings to run writes."@,
    )
}

/// What a read-only connection says to a commit.
pub open spec fn read_only_commit() -> ErrorView {
    worded(
        ErrorClass::Server,
        "This connection is marked read-only. Change it in the connection settings to save edits."@,
    )
}

/// Whether a statement is refused because the connection is read-only. The
/// keyword guess is SQL's: a command engine enforces its own rule.
pub open spec fn refused(session: SessionView, sql: Seq<char>) -> bool {
    session.config.safety is ReadOnly && session.config.capabilities.sql && !opens_a_read(
        keyword(sql),
    )
}

/// Sending a statement: nothing for a blank one, a failure where there is no
/// server or the connection refuses it, a place in the one waiting slot while
/// something is in flight, and otherwise the server is asked.
pub open spec fn running(session: SessionView, sql: Seq<char>) -> Step {
    if !has_ink(sql) {
        idle(session)
    } else if session.connection is None {
        failed_locally(session, sql, worded(ErrorClass::Connection, "Not connected"@))
    } else if refused(session, sql) {
        failed_locally(session, sql, read_only_statement())
    } else if busy(session) {
        idle(SessionView { superseding: Some(sql), ..session })
    } else {
        (
            SessionView {
                activity: Activity::Running,
                task: Some(TaskView::Query(sql)),
                ..session
            },
            seq![Deed::Notify, Deed::Ask(RequestView::Query(sql))],
        )
    }
}

/// What waits behind an operation is sent the moment the operation lands.
pub open spec fn handed_over(step: Step) -> Step {
    match step.0.superseding {
        Some(sql) => {
            let next = running(SessionView { superseding: None, ..step.0 }, sql);
            (next.0, step.1 + next.1)
        },
        None => step,
    }
}

/// Re-reading the catalog, if there is a server and nothing is in flight.
pub open spec fn refreshing(session: SessionView) -> Step {
    if session.connection is None || busy(session) {
        idle(session)
    } else {
        (
            SessionView {
                activity: Activity::Introspecting,
                task: Some(TaskView::Refresh),
                ..session
            },
            seq![Deed::Notify, Deed::Ask(RequestView::Catalog)],
        )
    }
}

/// The answer to re-reading the catalog. A failure changes nothing.
pub open spec fn refreshed(session: SessionView, outcome: Result<Catalog, DbError>) -> Step {
    if session.task != Some(TaskView::Refresh) {
        idle(session)
    } else {
        let landed = SessionView { activity: Activity::Idle, task: None, ..session };
        handed_over(
            match outcome {
                Ok(catalog) => (
                    with_catalog(landed, catalog),
                    seq![Deed::Emit(SessionEvent::SchemaChanged), Deed::Notify],
                ),
                Err(_) => (landed, seq![Deed::Notify]),
            },
        )
    }
}

/// Whether the privileges on a relation are already known.
pub open spec fn knows(grants: Seq<(RelationRef, Grants)>, relation: (Seq<char>, Seq<char>)) -> bool {
    exists|i: int| 0 <= i < grants.len() && (#[trigger] grants[i]).0.parts() == relation
}

/// Asking who may do what to a relation, unless the engine has no roles, the
/// answer is known, or it is already on its way. Outside the busy slot: it
/// stops nothing from starting.
pub open spec fn loading(session: SessionView, relation: (Seq<char>, Seq<char>)) -> Step {
    match session.connection {
        Some(connection) => if !connection.capabilities.roles || knows(session.grants, relation)
            || session.loading_grants == Some(relation) {
            idle(session)
        } else {
            (
                SessionView { loading_grants: Some(relation), ..session },
                seq![Deed::Ask(RequestView::Grants(relation))],
            )
        },
        None => idle(session),
    }
}

/// The answer about a relation's privileges.
pub open spec fn granted(
    session: SessionView,
    relation: RelationRef,
    outcome: Result<Option<Grants>, DbError>,
) -> Step {
    (
        SessionView {
            loading_grants: if session.loading_grants == Some(relation.parts()) {
                None
            } else {
                session.loading_grants
            },
            grants: match outcome {
                Ok(Some(grants)) => session.grants.filter(
                    |held: (RelationRef, Grants)| held.0.parts() != relation.parts(),
                ).push((relation, grants)),
                _ => session.grants,
            },
            ..session
        },
        seq![Deed::Emit(SessionEvent::PrivilegesChanged), Deed::Notify],
    )
}

/// Walking the keyspace: a new pattern is a new walk, and a walk that reached
/// the end is over.
pub open spec fn scanning(session: SessionView, pattern: Seq<char>) -> Step {
    match session.connection {
        Some(connection) => if !connection.capabilities.paged_catalog || busy(session) {
            idle(session)
        } else if pattern != session.key_pattern {
            (
                SessionView {
                    keys: Seq::empty(),
                    keys_complete: false,
                    key_cursor: None,
                    key_pattern: pattern,
                    activity: Activity::Introspecting,
                    task: Some(TaskView::Scan),
                    ..session
                },
                seq![
                    Deed::Notify,
                    Deed::Ask(RequestView::Keys { pattern, from: None, limit: KEY_PAGE }),
                ],
            )
        } else if session.keys_complete {
            idle(session)
        } else {
            (
                SessionView {
                    activity: Activity::Introspecting,
                    task: Some(TaskView::Scan),
                    ..session
                },
                seq![
                    Deed::Notify,
                    Deed::Ask(
                        RequestView::Keys { pattern, from: session.key_cursor, limit: KEY_PAGE },
                    ),
                ],
            )
        },
        None => idle(session),
    }
}

/// A page of keys, and where the next one starts.
pub struct Listing {
    pub keys: Vec<KeyInfo>,
    pub more: Option<u64>,
}

/// The answer to walking the keyspace.
pub open spec fn listed(session: SessionView, outcome: Result<Listing, DbError>) -> Step {
    if session.task != Some(TaskView::Scan) {
        idle(session)
    } else {
        let landed = SessionView { activity: Activity::Idle, task: None, ..session };
        handed_over(
            match outcome {
                Ok(listing) => (
                    SessionView {
                        keys: session.keys + listing.keys@,
                        keys_complete: listing.more is None,
                        key_cursor: listing.more,
                        ..landed
                    },
                    seq![Deed::Emit(SessionEvent::KeysChanged), Deed::Notify],
                ),
                Err(_) => (landed, seq![Deed::Notify]),
            },
        )
    }
}

/// Reading a key, if there is a server and nothing is in flight.
pub open spec fn opening(session: SessionView, key: Seq<u8>, kind: KeyType) -> Step {
    if session.connection is None || busy(session) {
        idle(session)
    } else {
        (
            SessionView {
                activity: Activity::Running,
                task: Some(TaskView::Key(key, kind)),
                ..session
            },
            seq![
                Deed::Notify,
                Deed::Ask(RequestView::ReadKey { key, kind, limit: KEY_ROWS }),
            ],
        )
    }
}

/// What came back of reading a key: its facts, if they could be had, and a
/// page of its contents or why not.
pub struct KeyPage {
    pub facts: Option<String>,
    pub page: Result<(Rows, Option<u64>), DbError>,
}

/// What is shown of a key that was read.
pub open spec fn key_shown(
    key: Seq<u8>,
    kind: KeyType,
    outcome: Result<KeyPage, String>,
) -> OpenKeyView {
    match outcome {
        Ok(page) => OpenKeyView {
            key,
            kind,
            facts: maybe(page.facts),
            rows: match page.page {
                Ok(page) => Some(page.0),
                Err(_) => None,
            },
            more: match page.page {
                Ok(page) => page.1,
                Err(_) => None,
            },
            error: match page.page {
                Ok(_) => None,
                Err(error) => Some(error@),
            },
        },
        Err(message) => OpenKeyView {
            key,
            kind,
            facts: None,
            rows: None,
            more: None,
            error: Some(worded(ErrorClass::Internal, message@)),
        },
    }
}

/// The answer to reading a key.
pub open spec fn key_read(session: SessionView, outcome: Result<KeyPage, String>) -> Step {
    match session.task {
        Some(TaskView::Key(key, kind)) => handed_over(
            (
                SessionView {
                    activity: Activity::Idle,
                    task: None,
                    last_key: Some(key_shown(key, kind, outcome)),
                    ..session
                },
                seq![Deed::Emit(SessionEvent::KeyOpened), Deed::Notify],
            ),
        ),
        _ => idle(session),
    }
}

/// What a statement that ran came to.
pub enum Outcome {
    Rows { rows: Rows, truncated: bool },
    Affected(u64),
}

/// A statement that came back from the server.
pub struct Answer {
    pub outcome: Result<Outcome, DbError>,
    /// The round trip, in nanoseconds.
    pub elapsed: u128,
    pub notices: Vec<String>,
}

/// A finished statement, from what came back.
pub open spec fn finished_run(sql: Seq<char>, answer: Result<Answer, String>) -> RunView {
    match answer {
        Ok(answer) => RunView {
            sql,
            elapsed: answer.elapsed,
            rows: match answer.outcome {
                Ok(Outcome::Rows { rows, .. }) => Some(rows),
                _ => None,
            },
            truncated: match answer.outcome {
                Ok(Outcome::Rows { truncated, .. }) => truncated,
                _ => false,
            },
            affected: match answer.outcome {
                Ok(Outcome::Affected(count)) => Some(count),
                _ => None,
            },
            error: match answer.outcome {
                Ok(_) => None,
                Err(error) => Some(error@),
            },
            notices: texts(answer.notices@),
        },
        Err(message) => RunView {
            sql,
            elapsed: 0,
            rows: None,
            truncated: false,
            affected: None,
            error: Some(worded(ErrorClass::Internal, message@)),
            notices: Seq::empty(),
        },
    }
}

/// The answer to a statement. One that was superseded while it was in flight
/// is not published: it is about something nobody is looking at any more.
pub open spec fn ran(session: SessionView, answer: Result<Answer, String>) -> Step {
    match session.task {
        Some(TaskView::Query(sql)) => {
            let landed = SessionView { activity: Activity::Idle, task: None, ..session };
            match session.superseding {
                Some(next) => running(SessionView { superseding: None, ..landed }, next),
                None => (
                    SessionView { last: Some(finished_run(sql, answer)), ..landed },
                    seq![Deed::Emit(SessionEvent::Finished), Deed::Notify],
                ),
            }
        },
        _ => idle(session),
    }
}

/// A commit that never left this side, reported where a real one lands.
pub open spec fn commit_failed(session: SessionView, counts: Counts, error: ErrorView) -> Step {
    (
        SessionView {
            last_apply: Some(AppliedView { counts, elapsed: 0, error: Some(error) }),
            ..session
        },
        seq![Deed::Emit(SessionEvent::Applied), Deed::Notify],
    )
}

/// Sending a commit: nothing for an empty one or while something is in flight,
/// and a failure where there is no server or the connection is read-only.
pub open spec fn committing(session: SessionView, statements: Seq<Statement>, counts: Counts) -> Step {
    if statements.len() == 0 {
        idle(session)
    } else if session.connection is None {
        commit_failed(session, counts, worded(ErrorClass::Connection, "Not connected"@))
    } else if session.config.safety is ReadOnly {
        commit_failed(session, counts, read_only_commit())
    } else if busy(session) {
        idle(session)
    } else {
        (
            SessionView {
                activity: Activity::Running,
                task: Some(TaskView::Commit(counts)),
                ..session
            },
            seq![Deed::Notify, Deed::Ask(RequestView::Commit(statements))],
        )
    }
}

/// The answer to a commit: how long it took and why it failed, if it did.
pub open spec fn committed(
    session: SessionView,
    answer: Result<(Option<DbError>, u128), String>,
) -> Step {
    match session.task {
        Some(TaskView::Commit(counts)) => handed_over(
            (
                SessionView {
                    activity: Activity::Idle,
                    task: None,
                    last_apply: Some(
                        match answer {
                            Ok(answer) => AppliedView {
                                counts,
                                elapsed: answer.1,
                                error: error_view(answer.0),
                            },
                            Err(message) => AppliedView {
                                counts,
                                elapsed: 0,
                                error: Some(worded(ErrorClass::Internal, message@)),
                            },
                        },
                    ),
                    ..session
                },
                seq![Deed::Emit(SessionEvent::Applied), Deed::Notify],
            ),
        ),
        _ => idle(session),
    }
}

/// Asking the server to stop. Whatever was waiting goes too: cancel means stop,
/// not stop and then start the next thing.
pub open spec fn canceling(session: SessionView) -> Step {
    if session.connection is None {
        idle(session)
    } else {
        (
            SessionView { superseding: None, ..session },
            if busy(session) && session.config.capabilities.cancel {
                seq![Deed::Ask(RequestView::Cancel)]
            } else {
                Seq::empty()
            },
        )
    }
}

/// One thing to do.
fn one(effect: SessionEffect) -> (list: Vec<SessionEffect>)
    ensures
        deeds(list@) == seq![effect@],
{
    let mut list: Vec<SessionEffect> = Vec::new();
    list.push(effect);
    assert(deeds(list@) =~= seq![effect@]);
    list
}

/// Two things to do.
fn two(first: SessionEffect, second: SessionEffect) -> (list: Vec<SessionEffect>)
    ensures
        deeds(list@) == seq![first@, second@],
{
    let mut list: Vec<SessionEffect> = Vec::new();
    list.push(first);
    list.push(second);
    assert(deeds(list@) =~= seq![first@, second@]);
    list
}

/// Three things to do.
fn three(first: SessionEffect, second: SessionEffect, third: SessionEffect) -> (list: Vec<
    SessionEffect,
>)
    ensures
        deeds(list@) == seq![first@, second@, third@],
{
    let mut list: Vec<SessionEffect> = Vec::new();
    list.push(first);
    list.push(second);
    list.push(third);
    assert(deeds(list@) =~= seq![first@, second@, third@]);
    list
}

/// Nothing to do.
fn nothing() -> (list: Vec<SessionEffect>)
    ensures
        deeds(list@) == Seq::<Deed>::empty(),
{
    let list: Vec<SessionEffect> = Vec::new();
    assert(deeds(list@) =~= Seq::<Deed>::empty());
    list
}

/// A copy of some bytes.
pub(crate) fn same_bytes(bytes: &Vec<u8>) -> (copy: Vec<u8>)
    ensures
        copy@ == bytes@,
{
    let copy = bytes.clone();
    assert(copy@ =~= bytes@);
    copy
}

impl Session {
    /// A session on a connection, not opened yet.
    pub fn new(config: ConnectionConfig) -> (session: Session)
        ensures
            session@ == fresh(config@, None),
    {
        Session::with_password(config, None)
    }

    /// A session that already knows its password: the one that was just saved.
    pub fn with_password(config: ConnectionConfig, password: Option<String>) -> (session: Session)
        ensures
            session@ == fresh(config@, maybe(password)),
    {
        let session = Session {
            config,
            password,
            state: SessionState::Offline,
            activity: Activity::Idle,
            connection: None,
            snapshot: None,
            keyspace: None,
            keys: Vec::new(),
            keys_complete: false,
            key_cursor: None,
            key_pattern: String::new(),
            last_key: None,
            roles: None,
            grants: Vec::new(),
            loading_grants: None,
            task: None,
            superseding: None,
            last: None,
            last_apply: None,
        };
        assert(session@ =~= fresh(config@, maybe(password)));
        session
    }

    /// Where the connection is.
    pub fn state(&self) -> (state: &SessionState)
        ensures
            state@ == self@.state,
    {
        &self.state
    }

    /// What the session is doing right now.
    pub fn activity(&self) -> (activity: Activity)
        ensures
            activity == self@.activity,
    {
        self.activity
    }

    /// What the server said it is, empty until there is one.
    pub fn server_version(&self) -> (version: String)
        ensures
            version@ == match self@.connection {
                Some(connection) => connection.version@,
                None => Seq::empty(),
            },
    {
        match &self.connection {
            Some(connection) => connection.version.clone(),
            None => String::new(),
        }
    }

    /// Whether an operation is in flight.
    pub fn is_busy(&self) -> (answer: bool)
        ensures
            answer == busy(self@),
    {
        self.activity != Activity::Idle
    }

    /// Connect again, taking the connection's details afresh.
    ///
    /// The usual reason a failed connection is retried is that something about
    /// it was wrong and has just been corrected. No password means "ask the
    /// store", which is what a password field left alone means as well.
    pub fn retry(&mut self, config: ConnectionConfig, password: Option<String>) -> (effects: Vec<
        SessionEffect,
    >)
        ensures
            (final(self)@, deeds(effects@)) == retrying(old(self)@, config@, maybe(password)),
    {
        self.config = config;
        self.password = password;
        self.connect()
    }

    /// Open the connection and read the catalog, in one operation.
    ///
    /// They are one operation because a connection without a schema is not
    /// something the window can do anything with. Failing halfway leaves the
    /// session without a connection rather than connected but blind.
    pub fn connect(&mut self) -> (effects: Vec<SessionEffect>)
        ensures
            (final(self)@, deeds(effects@)) == connecting(old(self)@),
    {
        if self.is_busy() {
            return nothing();
        }
        self.state = SessionState::Connecting;
        self.activity = Activity::Connecting;
        self.connection = None;
        self.roles = None;
        self.grants = Vec::new();
        self.loading_grants = None;
        self.superseding = None;
        self.task = Some(Task::Connect);
        assert(self@ =~= connecting(old(self)@).0);
        let request = Request::Connect {
            config: self.config.clone(),
            password: self.password.clone(),
        };
        three(
            SessionEffect::Emit(SessionEvent::StateChanged),
            SessionEffect::Notify,
            SessionEffect::Ask(request),
        )
    }

    /// Put a freshly read catalog where the sidebar looks for it.
    ///
    /// Both fields are set every time, not just the one that matched: a session
    /// that switches to a server of the other kind must not keep showing the
    /// tree it had before. The keys under the old catalog are not the keys
    /// under the new one.
    fn set_catalog(&mut self, catalog: Catalog)
        ensures
            final(self)@ == with_catalog(old(self)@, catalog),
    {
        match catalog {
            Catalog::Sql(snapshot) => {
                self.snapshot = Some(snapshot);
                self.keyspace = None;
            },
            Catalog::Keyspace(keyspace) => {
                self.snapshot = None;
                self.keyspace = Some(keyspace);
            },
        }
        self.keys = Vec::new();
        self.keys_complete = false;
        self.key_cursor = None;
        assert(self@ =~= with_catalog(old(self)@, catalog));
    }

    /// The answer to [`Session::connect`].
    pub fn connected(&mut self, outcome: Result<Opened, DbError>) -> (effects: Vec<SessionEffect>)
        ensures
            (final(self)@, deeds(effects@)) == connected(old(self)@, outcome),
    {
        if !matches!(self.task, Some(Task::Connect)) {
            return nothing();
        }
        self.activity = Activity::Idle;
        self.task = None;
        match outcome {
            Ok(opened) => {
                self.set_catalog(opened.catalog);
                self.connection = Some(opened.connection);
                self.roles = opened.roles;
                self.state = SessionState::Connected;
                three(
                    SessionEffect::Emit(SessionEvent::SchemaChanged),
                    SessionEffect::Emit(SessionEvent::StateChanged),
                    SessionEffect::Notify,
                )
            },
            Err(error) => {
                self.state = SessionState::Failed(error.message);
                two(SessionEffect::Emit(SessionEvent::StateChanged), SessionEffect::Notify)
            },
        }
    }

    /// Drop the connection.
    pub fn disconnect(&mut self) -> (effects: Vec<SessionEffect>)
        ensures
            (final(self)@, deeds(effects@)) == disconnected(old(self)@),
    {
        self.task = None;
        self.connection = None;
        self.snapshot = None;
        self.keyspace = None;
        self.roles = None;
        self.grants = Vec::new();
        self.loading_grants = None;
        self.keys = Vec::new();
        self.keys_complete = false;
        self.key_cursor = None;
        self.superseding = None;
        self.activity = Activity::Idle;
        self.state = SessionState::Offline;
        assert(self@ =~= disconnected(old(self)@).0);
        three(
            SessionEffect::Emit(SessionEvent::SchemaChanged),
            SessionEffect::Emit(SessionEvent::StateChanged),
            SessionEffect::Notify,
        )
    }

    /// Re-read the catalog. A snapshot is a fact about a moment, and a change
    /// of schema ends the moment.
    pub fn refresh_schema(&mut self) -> (effects: Vec<SessionEffect>)
        ensures
            (final(self)@, deeds(effects@)) == refreshing(old(self)@),
    {
        if self.connection.is_none() || self.is_busy() {
            return nothing();
        }
        self.activity = Activity::Introspecting;
        self.task = Some(Task::Refresh);
        two(SessionEffect::Notify, SessionEffect::Ask(Request::Catalog))
    }

    /// Send what waited behind an operation that has just landed.
    fn hand_over(&mut self, effects: Vec<SessionEffect>) -> (all: Vec<SessionEffect>)
        ensures
            (final(self)@, deeds(all@)) == handed_over((old(self)@, deeds(effects@))),
    {
        match self.superseding.take() {
            Some(sql) => {
                assert(self@ =~= (SessionView { superseding: None, ..old(self)@ }));
                let ghost first = deeds(effects@);
                let mut all = effects;
                let mut next = self.run(sql);
                let ghost second = deeds(next@);
                all.append(&mut next);
                assert(deeds(all@) =~= first + second);
                all
            },
            None => {
                assert(self@ =~= old(self)@);
                effects
            },
        }
    }

    /// The answer to [`Session::refresh_schema`].
    pub fn refreshed(&mut self, outcome: Result<Catalog, DbError>) -> (effects: Vec<SessionEffect>)
        ensures
            (final(self)@, deeds(effects@)) == refreshed(old(self)@, outcome),
    {
        if !matches!(self.task, Some(Task::Refresh)) {
            return nothing();
        }
        self.activity = Activity::Idle;
        self.task = None;
        match outcome {
            Ok(catalog) => {
                self.set_catalog(catalog);
                self.hand_over(
                    two(SessionEffect::Emit(SessionEvent::SchemaChanged), SessionEffect::Notify),
                )
            },
            Err(_) => self.hand_over(one(SessionEffect::Notify)),
        }
    }

    /// Whether the privileges on a relation are already known.
    fn has_grants(&self, relation: &RelationRef) -> (answer: bool)
        ensures
            answer == knows(self@.grants, relation.parts()),
    {
        let mut at: usize = 0;
        while at < self.grants.len()
            invariant
                at <= self.grants@.len(),
                forall|i: int|
                    0 <= i < at ==> (#[trigger] self.grants@[i]).0.parts() != relation.parts(),
            decreases self.grants@.len() - at,
        {
            if self.grants[at].0.same_as(relation) {
                return true;
            }
            at += 1;
        }
        false
    }

    /// Read who may do what to one relation, unless it is already known or
    /// already on its way.
    pub fn load_grants(&mut self, relation: RelationRef) -> (effects: Vec<SessionEffect>)
        ensures
            (final(self)@, deeds(effects@)) == loading(old(self)@, relation.parts()),
    {
        match &self.connection {
            Some(connection) => {
                if !connection.capabilities.roles {
                    return nothing();
                }
            },
            None => {
                return nothing();
            },
        }
        if self.has_grants(&relation) {
            return nothing();
        }
        if let Some(already) = &self.loading_grants {
            if already.same_as(&relation) {
                return nothing();
            }
        }
        self.loading_grants = Some(relation.clone());
        one(SessionEffect::Ask(Request::Grants(relation)))
    }

    /// The answer to [`Session::load_grants`].
    pub fn granted(
        &mut self,
        relation: RelationRef,
        outcome: Result<Option<Grants>, DbError>,
    ) -> (effects: Vec<SessionEffect>)
        ensures
            (final(self)@, deeds(effects@)) == granted(old(self)@, relation, outcome),
    {
        let arrived = match &self.loading_grants {
            Some(already) => already.same_as(&relation),
            None => false,
        };
        if arrived {
            self.loading_grants = None;
        }
        if let Ok(Some(grants)) = outcome {
            self.forget_grant(&relation);
            self.grants.push((relation, grants));
        }
        assert(self@ =~= granted(old(self)@, relation, outcome).0);
        two(SessionEffect::Emit(SessionEvent::PrivilegesChanged), SessionEffect::Notify)
    }

    /// Forget the privileges on one relation.
    fn forget_grant(&mut self, relation: &RelationRef)
        ensures
            final(self)@ == (SessionView {
                grants: old(self)@.grants.filter(
                    |held: (RelationRef, Grants)| held.0.parts() != relation.parts(),
                ),
                ..old(self)@
            }),
    {
        let ghost all = self.grants@;
        let ghost keep = |held: (RelationRef, Grants)| held.0.parts() != relation.parts();
        let mut at: usize = 0;
        let ghost mut seen: int = 0;
        proof {
            crate::lists::lemma_filter_none(all, keep);
            assert(all.skip(0) =~= all);
            assert(self.grants@ =~= all.take(0).filter(keep) + all.skip(0));
        }
        while at < self.grants.len()
            invariant
                0 <= seen <= all.len(),
                keep == (|held: (RelationRef, Grants)| held.0.parts() != relation.parts()),
                at == all.take(seen).filter(keep).len(),
                self.grants@ == all.take(seen).filter(keep) + all.skip(seen),
                self@ == (SessionView { grants: self.grants@, ..old(self)@ }),
            decreases self.grants@.len() - at,
        {
            proof {
                crate::lists::lemma_filter_step(all, keep, seen);
                assert(self.grants@[at as int] == all[seen]);
            }
            let ghost kept = all.take(seen).filter(keep);
            if self.grants[at].0.same_as(relation) {
                let gone = self.grants.remove(at);
                assert(self.grants@ =~= kept + all.skip(seen + 1));
                assert(self@ =~= (SessionView { grants: self.grants@, ..old(self)@ }));
            } else {
                at += 1;
                assert(self.grants@ =~= kept.push(all[seen]) + all.skip(seen + 1));
            }
            proof {
                seen = seen + 1;
            }
        }
        proof {
            assert(all.skip(seen).len() == 0);
            assert(seen == all.len());
            crate::lists::lemma_filter_all(all, keep);
            assert(self.grants@ =~= all.filter(keep));
            assert(self@ =~= (SessionView { grants: all.filter(keep), ..old(self)@ }));
        }
    }

    /// Forget what was read about privileges, so the next pane that wants it
    /// asks again.
    pub fn forget_grants(&mut self)
        ensures
            final(self)@ == (SessionView {
                grants: Seq::empty(),
                loading_grants: None,
                ..old(self)@
            }),
    {
        self.grants = Vec::new();
        self.loading_grants = None;
        assert(self@ =~= (SessionView {
            grants: Seq::empty(),
            loading_grants: None,
            ..old(self)@
        }));
    }

    /// Walk the keyspace and put what it finds in [`Session::keys`].
    ///
    /// A sample, not a listing: this is called again, with the same pattern,
    /// for each further page.
    pub fn scan_keys(&mut self, pattern: &str) -> (effects: Vec<SessionEffect>)
        ensures
            (final(self)@, deeds(effects@)) == scanning(old(self)@, pattern@),
    {
        match &self.connection {
            Some(connection) => {
                if !connection.capabilities.paged_catalog || self.is_busy() {
                    return nothing();
                }
            },
            None => {
                return nothing();
            },
        }
        // A new pattern is a new walk, and the keys from the old one are about
        // a different question.
        if !same(pattern, self.key_pattern.as_str()) {
            self.keys = Vec::new();
            self.keys_complete = false;
            self.key_cursor = None;
            self.key_pattern = pattern.to_owned();
        } else if self.keys_complete {
            return nothing();
        }
        self.activity = Activity::Introspecting;
        self.task = Some(Task::Scan);
        assert(self@ =~= scanning(old(self)@, pattern@).0);
        two(
            SessionEffect::Notify,
            SessionEffect::Ask(
                Request::Keys {
                    pattern: pattern.to_owned(),
                    from: self.key_cursor,
                    limit: KEY_PAGE,
                },
            ),
        )
    }

    /// The answer to [`Session::scan_keys`].
    pub fn listed(&mut self, outcome: Result<Listing, DbError>) -> (effects: Vec<SessionEffect>)
        ensures
            (final(self)@, deeds(effects@)) == listed(old(self)@, outcome),
    {
        if !matches!(self.task, Some(Task::Scan)) {
            return nothing();
        }
        self.activity = Activity::Idle;
        self.task = None;
        match outcome {
            Ok(listing) => {
                let mut page = listing.keys;
                self.keys.append(&mut page);
                self.keys_complete = listing.more.is_none();
                self.key_cursor = listing.more;
                assert(self@ =~= (SessionView {
                    activity: Activity::Idle,
                    task: None,
                    keys: old(self)@.keys + listing.keys@,
                    keys_complete: listing.more is None,
                    key_cursor: listing.more,
                    ..old(self)@
                }));
                self.hand_over(
                    two(SessionEffect::Emit(SessionEvent::KeysChanged), SessionEffect::Notify),
                )
            },
            Err(_) => self.hand_over(one(SessionEffect::Notify)),
        }
    }

    /// Read one key. The result arrives as [`SessionEvent::KeyOpened`].
    pub fn open_key(&mut self, key: Vec<u8>, kind: KeyType) -> (effects: Vec<SessionEffect>)
        ensures
            (final(self)@, deeds(effects@)) == opening(old(self)@, key@, kind),
    {
        if self.connection.is_none() || self.is_busy() {
            return nothing();
        }
        self.activity = Activity::Running;
        let request = Request::ReadKey {
            key: same_bytes(&key),
            kind: kind.clone(),
            limit: KEY_ROWS,
        };
        self.task = Some(Task::Key(key, kind));
        two(SessionEffect::Notify, SessionEffect::Ask(request))
    }

    /// The answer to [`Session::open_key`].
    pub fn key_read(&mut self, outcome: Result<KeyPage, String>) -> (effects: Vec<SessionEffect>)
        ensures
            (final(self)@, deeds(effects@)) == key_read(old(self)@, outcome),
    {
        if !matches!(self.task, Some(Task::Key(_, _))) {
            return nothing();
        }
        let Some(Task::Key(key, kind)) = self.task.take() else {
            return nothing();
        };
        self.activity = Activity::Idle;
        let view = match outcome {
            Ok(read) => {
                // A key that expired between the listing and the click is not
                // a failure, so the tab opens empty rather than red.
                match read.page {
                    Ok(page) => KeyView {
                        key,
                        kind,
                        facts: read.facts,
                        rows: Some(page.0),
                        more: page.1,
                        error: None,
                    },
                    Err(error) => KeyView {
                        key,
                        kind,
                        facts: read.facts,
                        rows: None,
                        more: None,
                        error: Some(error),
                    },
                }
            },
            Err(message) => KeyView {
                key,
                kind,
                facts: None,
                rows: None,
                more: None,
                error: Some(DbError::internal(message.as_str())),
            },
        };
        self.last_key = Some(view);
        self.hand_over(two(SessionEffect::Emit(SessionEvent::KeyOpened), SessionEffect::Notify))
    }

    /// Report a failure decided on without asking the server, through exactly
    /// the same path a server error takes.
    fn finish_locally(&mut self, sql: String, error: DbError) -> (effects: Vec<SessionEffect>)
        ensures
            (final(self)@, deeds(effects@)) == failed_locally(old(self)@, sql@, error@),
    {
        let notices: Vec<String> = Vec::new();
        assert(texts(notices@) =~= Seq::<Seq<char>>::empty());
        self.last = Some(
            Run {
                sql,
                elapsed: 0,
                rows: None,
                truncated: false,
                affected: None,
                error: Some(error),
                notices,
            },
        );
        two(SessionEffect::Emit(SessionEvent::Finished), SessionEffect::Notify)
    }

    /// Send a statement. The result arrives as [`SessionEvent::Finished`].
    pub fn run(&mut self, sql: String) -> (effects: Vec<SessionEffect>)
        ensures
            (final(self)@, deeds(effects@)) == running(old(self)@, sql@),
    {
        if is_blank(sql.as_str()) {
            return nothing();
        }
        if self.connection.is_none() {
            return self.finish_locally(sql, DbError::connection("Not connected"));
        }
        if self.config.safety == SafetyLevel::ReadOnly && self.config.capabilities.sql && writes(
            sql.as_str(),
        ) {
            let error = DbError::new(
                ErrorClass::Server,
                "This connection is marked read-only. Change it in the connection settings to run writes.",
            );
            return self.finish_locally(sql, error);
        }
        // Held rather than dropped: switching tabs faster than the server
        // answers must not throw every switch after the first away.
        if self.is_busy() {
            self.superseding = Some(sql);
            return nothing();
        }
        self.activity = Activity::Running;
        self.task = Some(Task::Query(sql.clone()));
        two(SessionEffect::Notify, SessionEffect::Ask(Request::Query(sql)))
    }

    /// The answer to [`Session::run`].
    pub fn ran(&mut self, answer: Result<Answer, String>) -> (effects: Vec<SessionEffect>)
        ensures
            (final(self)@, deeds(effects@)) == ran(old(self)@, answer),
    {
        if !matches!(self.task, Some(Task::Query(_))) {
            return nothing();
        }
        let Some(Task::Query(sql)) = self.task.take() else {
            return nothing();
        };
        self.activity = Activity::Idle;
        // Superseded while it was in flight: publishing this answer would put
        // its rows under another tab's name for as long as the next round trip
        // takes.
        if let Some(next) = self.superseding.take() {
            assert(self@ =~= (SessionView {
                activity: Activity::Idle,
                task: None,
                superseding: None,
                ..old(self)@
            }));
            return self.run(next);
        }
        let run = match answer {
            Ok(answer) => match answer.outcome {
                Ok(Outcome::Rows { rows, truncated }) => Run {
                    sql,
                    elapsed: answer.elapsed,
                    rows: Some(rows),
                    truncated,
                    affected: None,
                    error: None,
                    notices: answer.notices,
                },
                Ok(Outcome::Affected(count)) => Run {
                    sql,
                    elapsed: answer.elapsed,
                    rows: None,
                    truncated: false,
                    affected: Some(count),
                    error: None,
                    notices: answer.notices,
                },
                Err(error) => Run {
                    sql,
                    elapsed: answer.elapsed,
                    rows: None,
                    truncated: false,
                    affected: None,
                    error: Some(error),
                    notices: answer.notices,
                },
            },
            // The work itself died. That is not the server's fault, so it is
            // internal.
            Err(message) => {
                let notices: Vec<String> = Vec::new();
                assert(texts(notices@) =~= Seq::<Seq<char>>::empty());
                Run {
                    sql,
                    elapsed: 0,
                    rows: None,
                    truncated: false,
                    affected: None,
                    error: Some(DbError::internal(message.as_str())),
                    notices,
                }
            },
        };
        assert(run@ =~= finished_run(sql@, answer));
        self.last = Some(run);
        two(SessionEffect::Emit(SessionEvent::Finished), SessionEffect::Notify)
    }

    /// Report a commit that never left this side through the same field a real
    /// one lands in.
    fn finish_apply(&mut self, counts: Counts, error: DbError) -> (effects: Vec<SessionEffect>)
        ensures
            (final(self)@, deeds(effects@)) == commit_failed(old(self)@, counts, error@),
    {
        self.last_apply = Some(Applied { counts, elapsed: 0, error: Some(error) });
        two(SessionEffect::Emit(SessionEvent::Applied), SessionEffect::Notify)
    }

    /// Send a commit: one transaction, every statement or none of them.
    pub fn apply(&mut self, statements: Vec<Statement>, counts: Counts) -> (effects: Vec<
        SessionEffect,
    >)
        ensures
            (final(self)@, deeds(effects@)) == committing(old(self)@, statements@, counts),
    {
        if statements.len() == 0 {
            return nothing();
        }
        if self.connection.is_none() {
            return self.finish_apply(counts, DbError::connection("Not connected"));
        }
        // A read-only connection is a promise, and the grid is not an exception
        // to it just because the writes were generated rather than typed.
        if self.config.safety == SafetyLevel::ReadOnly {
            let error = DbError::new(
                ErrorClass::Server,
                "This connection is marked read-only. Change it in the connection settings to save edits.",
            );
            return self.finish_apply(counts, error);
        }
        if self.is_busy() {
            return nothing();
        }
        self.activity = Activity::Running;
        self.task = Some(Task::Commit(counts));
        two(SessionEffect::Notify, SessionEffect::Ask(Request::Commit(statements)))
    }

    /// The answer to [`Session::apply`].
    pub fn applied(&mut self, answer: Result<(Option<DbError>, u128), String>) -> (effects: Vec<
        SessionEffect,
    >)
        ensures
            (final(self)@, deeds(effects@)) == committed(old(self)@, answer),
    {
        if !matches!(self.task, Some(Task::Commit(_))) {
            return nothing();
        }
        let Some(Task::Commit(counts)) = self.task.take() else {
            return nothing();
        };
        self.activity = Activity::Idle;
        self.last_apply = Some(
            match answer {
                Ok(answer) => Applied { counts, elapsed: answer.1, error: answer.0 },
                Err(message) => Applied {
                    counts,
                    elapsed: 0,
                    error: Some(DbError::internal(message.as_str())),
                },
            },
        );
        self.hand_over(two(SessionEffect::Emit(SessionEvent::Applied), SessionEffect::Notify))
    }

    /// Ask the server to stop.
    ///
    /// The server may already have finished, in which case this does nothing
    /// and the result arrives normally.
    pub fn cancel(&mut self) -> (effects: Vec<SessionEffect>)
        ensures
            (final(self)@, deeds(effects@)) == canceling(old(self)@),
    {
        if self.connection.is_none() {
            return nothing();
        }
        self.superseding = None;
        if !self.is_busy() || !self.config.capabilities.cancel {
            return nothing();
        }
        one(SessionEffect::Ask(Request::Cancel))
    }

    /// Take the rows and the error off the last key, leaving what it is behind.
    pub fn take_key(&mut self) -> (found: Option<(Option<Rows>, Option<DbError>)>)
        ensures
            match old(self)@.last_key {
                Some(view) => found matches Some(found) && found.0 == view.rows && error_view(
                    found.1,
                ) == view.error && final(self)@ == (SessionView {
                    last_key: Some(OpenKeyView { rows: None, ..view }),
                    ..old(self)@
                }),
                None => found is None && final(self)@ == old(self)@,
            },
    {
        match self.last_key.take() {
            Some(view) => {
                let rows = view.rows;
                let error = match &view.error {
                    Some(error) => Some(error.clone()),
                    None => None,
                };
                self.last_key = Some(KeyView { rows: None, ..view });
                assert(self@ =~= (SessionView {
                    last_key: Some(
                        OpenKeyView { rows: None, ..old(self)@.last_key->Some_0 },
                    ),
                    ..old(self)@
                }));
                Some((rows, error))
            },
            None => {
                assert(self@ =~= old(self)@);
                None
            },
        }
    }

    /// Take the rows off the last run, leaving the timing and the statement
    /// behind for the status bar.
    pub fn take_rows(&mut self) -> (rows: Option<Rows>)
        ensures
            rows == match old(self)@.last {
                Some(run) => run.rows,
                None => None,
            },
            final(self)@ == (SessionView {
                last: match old(self)@.last {
                    Some(run) => Some(RunView { rows: None, ..run }),
                    None => None,
                },
                ..old(self)@
            }),
    {
        match self.last.take() {
            Some(run) => {
                let rows = run.rows;
                self.last = Some(Run { rows: None, ..run });
                rows
            },
            None => None,
        }
    }
}

/// Which password a connection is opened with: the one that was typed, then
/// the one the environment gives, and otherwise whatever the store has. A
/// store that fails is a failure to connect.
pub open spec fn password_choice(
    typed: Option<Seq<char>>,
    environment: Option<Seq<char>>,
    stored: Result<Option<String>, String>,
) -> Result<Option<Seq<char>>, ErrorView> {
    match typed {
        Some(password) => Ok(Some(password)),
        None => match environment {
            Some(password) => Ok(Some(password)),
            None => match stored {
                Ok(password) => Ok(maybe(password)),
                Err(reason) => Err(worded(ErrorClass::Internal, "Keychain: "@ + reason@)),
            },
        },
    }
}

/// Which password to open a connection with.
///
/// `stored` is what the store of record answered; it is looked at only when
/// nothing was typed and the environment names nothing.
pub fn choose_password(
    typed: Option<String>,
    environment: Option<String>,
    stored: Result<Option<String>, String>,
) -> (password: Result<Option<String>, DbError>)
    ensures
        match password {
            Ok(password) => password_choice(maybe(typed), maybe(environment), stored) == Ok::<
                Option<Seq<char>>,
                ErrorView,
            >(maybe(password)),
            Err(error) => password_choice(maybe(typed), maybe(environment), stored) == Err::<
                Option<Seq<char>>,
                ErrorView,
            >(error@),
        },
{
    match typed {
        Some(password) => Ok(Some(password)),
        None => match environment {
            Some(password) => Ok(Some(password)),
            None => match stored {
                Ok(password) => Ok(password),
                Err(reason) => {
                    let mut message = "Keychain: ".to_owned();
                    message.append(reason.as_str());
                    Err(DbError::internal(message.as_str()))
                },
            },
        },
    }
}

/// What a failure to connect is reported as. A server that asks for a password
/// where none was given is told apart from one that turned a password down.
pub open spec fn explained(error: ErrorView, had_password: bool) -> ErrorView {
    if !had_password && has(error.message, "password"@) {
        worded(
            ErrorClass::Connection,
            "this connection has no password saved, and the server asks for one —                          edit the connection and enter it"@,
        )
    } else {
        error
    }
}

/// What a failure to connect is reported as.
///
/// The driver's way of saying the server asked for a password and was not
/// given one reads like the app lost it, and the difference between "there is
/// none saved" and "the one saved is wrong" is the difference between knowing
/// what to do next and not.
pub fn explain(error: DbError, had_password: bool) -> (reported: DbError)
    ensures
        reported@ == explained(error@, had_password),
{
    if !had_password && contains(error.message.as_str(), "password") {
        DbError::connection(
            "this connection has no password saved, and the server asks for one —                          edit the connection and enter it",
        )
    } else {
        error
    }
}

/// Collapse "the work died" and "the query failed" into one error, since
/// nothing upstream treats them differently.
pub fn joined_result<T>(result: Result<Result<T, DbError>, String>) -> (outcome: Result<T, DbError>)
    ensures
        match result {
            Ok(inner) => outcome == inner,
            Err(message) => outcome matches Err(error) && error@ == worded(
                ErrorClass::Internal,
                message@,
            ),
        },
{
    match result {
        Ok(inner) => inner,
        Err(message) => Err(DbError::internal(message.as_str())),
    }
}

} // verus!
