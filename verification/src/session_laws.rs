//! What holds of every session, whatever it is asked and answered.
use crate::catalog::{DbError, Grants, KeyType, RelationRef};
use crate::session::{
    busy, canceling, committed, committing, connected, connecting, disconnected, ends_line,
    finished_run, fresh, granted, handed_over, key_read, keyword, listed, loading, opening,
    opens_a_read, ran, refreshed, refreshing, refused, retrying, running, scanning, word_end,
    word_start, Activity, Answer, Catalog, Counts, Deed, KeyPage, Listing, Opened, RequestView,
    SessionEvent, SessionView, Statement, Step, TaskView,
};
use crate::text::has_ink;
use vstd::prelude::*;

verus! {

/// What holds of a session at every moment: it is connected exactly when there
/// is a server on the other end, a connected one has exactly one kind of
/// catalog, it is busy exactly while something is in flight, with the activity
/// that is the right one for it, and a statement is held only behind something
/// that is in flight on the connection it is for.
pub open spec fn sound(session: SessionView) -> bool {
    &&& session.state is Connected <==> session.connection is Some
    &&& session.state is Connected ==> (session.snapshot is Some <==> session.keyspace is None)
    &&& session.superseding is Some ==> session.connection is Some && session.task is Some
    &&& match session.task {
        None => session.activity == Activity::Idle,
        Some(TaskView::Connect) => session.activity == Activity::Connecting
            && session.state is Connecting,
        Some(TaskView::Refresh) => session.activity == Activity::Introspecting,
        Some(TaskView::Scan) => session.activity == Activity::Introspecting,
        Some(TaskView::Key(_, _)) => session.activity == Activity::Running,
        Some(TaskView::Query(_)) => session.activity == Activity::Running,
        Some(TaskView::Commit(_)) => session.activity == Activity::Running,
    }
}

/// A session starts out sound.
pub proof fn a_fresh_session_is_sound(config: crate::catalog::ConfigView, password: Option<Seq<char>>)
    ensures
        sound(fresh(config, password)),
{
}

/// Whatever is asked of a sound session, it stays sound: in particular a
/// connected session always has exactly one of the two kinds of catalog.
pub proof fn asking_keeps_a_session_sound(
    session: SessionView,
    config: crate::catalog::ConfigView,
    password: Option<Seq<char>>,
    sql: Seq<char>,
    pattern: Seq<char>,
    key: Seq<u8>,
    kind: KeyType,
    statements: Seq<Statement>,
    counts: Counts,
    relation: (Seq<char>, Seq<char>),
)
    requires
        sound(session),
    ensures
        sound(connecting(session).0),
        sound(retrying(session, config, password).0),
        sound(disconnected(session).0),
        sound(refreshing(session).0),
        sound(scanning(session, pattern).0),
        sound(opening(session, key, kind).0),
        sound(running(session, sql).0),
        sound(committing(session, statements, counts).0),
        sound(canceling(session).0),
        sound(loading(session, relation).0),
{
}

/// Whatever a sound session is answered, it stays sound.
pub proof fn answering_keeps_a_session_sound(
    session: SessionView,
    opened: Result<Opened, DbError>,
    catalog: Result<Catalog, DbError>,
    listing: Result<Listing, DbError>,
    page: Result<KeyPage, String>,
    answer: Result<Answer, String>,
    commit: Result<(Option<DbError>, u128), String>,
    relation: RelationRef,
    grants: Result<Option<Grants>, DbError>,
)
    requires
        sound(session),
    ensures
        sound(connected(session, opened).0),
        sound(refreshed(session, catalog).0),
        sound(listed(session, listing).0),
        sound(key_read(session, page).0),
        sound(ran(session, answer).0),
        sound(committed(session, commit).0),
        sound(granted(session, relation, grants).0),
{
}

/// The answer to a statement that was superseded while it was in flight has no
/// effect at all: whatever came back, the same thing happens next.
pub proof fn a_superseded_answer_is_not_published(
    session: SessionView,
    one: Result<Answer, String>,
    other: Result<Answer, String>,
)
    requires
        session.task is Some,
        session.task->Some_0 is Query,
        session.superseding is Some,
    ensures
        ran(session, one) == ran(session, other),
        ran(session, one).0.superseding is None,
{
}

/// Of the statements that arrive while something is in flight, the last one is
/// the one that is kept.
pub proof fn the_last_statement_takes_the_slot(session: SessionView, one: Seq<char>, two: Seq<char>)
    requires
        session.connection is Some,
        busy(session),
        has_ink(one),
        has_ink(two),
        !refused(session, one),
        !refused(session, two),
    ensures
        running(session, one).1 == Seq::<Deed>::empty(),
        running(running(session, one).0, two).0.superseding == Some(two),
        running(running(session, one).0, two).0 == running(session, two).0,
{
}

/// Whether nothing that is to be done is a write to a read-only connection: no
/// statement that does not open like a read, where what is typed is SQL, and
/// no commit at all.
pub open spec fn asks_no_write(session: SessionView, list: Seq<Deed>) -> bool {
    forall|i: int|
        0 <= i < list.len() ==> match #[trigger] list[i] {
            Deed::Ask(RequestView::Query(sql)) => session.config.safety is ReadOnly
                && session.config.capabilities.sql ==> opens_a_read(keyword(sql)),
            Deed::Ask(RequestView::Commit(_)) => !(session.config.safety is ReadOnly),
            _ => true,
        }
}

proof fn lemma_running_asks_no_write(session: SessionView, sql: Seq<char>)
    ensures
        asks_no_write(session, running(session, sql).1),
        running(session, sql).0.config == session.config,
{
}

proof fn lemma_handing_over_asks_no_write(step: Step)
    requires
        asks_no_write(step.0, step.1),
    ensures
        asks_no_write(step.0, handed_over(step).1),
{
    if let Some(sql) = step.0.superseding {
        let next = SessionView { superseding: None, ..step.0 };
        lemma_running_asks_no_write(next, sql);
        let list = running(next, sql).1;
        let all = step.1 + list;
        assert forall|i: int| 0 <= i < all.len() implies match #[trigger] all[i] {
            Deed::Ask(RequestView::Query(sql)) => step.0.config.safety is ReadOnly
                && step.0.config.capabilities.sql ==> opens_a_read(keyword(sql)),
            Deed::Ask(RequestView::Commit(_)) => !(step.0.config.safety is ReadOnly),
            _ => true,
        } by {
            if i < step.1.len() {
                assert(all[i] == step.1[i]);
            } else {
                assert(all[i] == list[i - step.1.len()]);
            }
        }
    }
}

/// A read-only connection is a promise: nothing that is asked of the session,
/// and no answer it gets, ever makes it send a write.
pub proof fn a_read_only_connection_sends_no_write(
    session: SessionView,
    sql: Seq<char>,
    statements: Seq<Statement>,
    counts: Counts,
    catalog: Result<Catalog, DbError>,
    listing: Result<Listing, DbError>,
    page: Result<KeyPage, String>,
    answer: Result<Answer, String>,
    commit: Result<(Option<DbError>, u128), String>,
)
    ensures
        asks_no_write(session, running(session, sql).1),
        asks_no_write(session, committing(session, statements, counts).1),
        asks_no_write(session, refreshed(session, catalog).1),
        asks_no_write(session, listed(session, listing).1),
        asks_no_write(session, key_read(session, page).1),
        asks_no_write(session, ran(session, answer).1),
        asks_no_write(session, committed(session, commit).1),
{
    lemma_running_asks_no_write(session, sql);
    assert forall|step: Step|
        step.0.config == session.config && asks_no_write(step.0, step.1) implies asks_no_write(
        session,
        #[trigger] handed_over(step).1,
    ) by {
        lemma_handing_over_asks_no_write(step);
    }
}

/// Whether nothing that is to be done starts an operation.
pub open spec fn starts_nothing(list: Seq<Deed>) -> bool {
    forall|i: int|
        0 <= i < list.len() ==> match #[trigger] list[i] {
            Deed::Ask(RequestView::Grants(_)) => true,
            Deed::Ask(RequestView::Cancel) => true,
            Deed::Ask(_) => false,
            _ => true,
        }
}

/// One connection does one thing at a time: while an operation is in flight,
/// nothing that is asked of the session starts another.
pub proof fn a_busy_session_starts_nothing(
    session: SessionView,
    config: crate::catalog::ConfigView,
    password: Option<Seq<char>>,
    sql: Seq<char>,
    pattern: Seq<char>,
    key: Seq<u8>,
    kind: KeyType,
    statements: Seq<Statement>,
    counts: Counts,
    relation: (Seq<char>, Seq<char>),
)
    requires
        busy(session),
    ensures
        starts_nothing(connecting(session).1),
        starts_nothing(retrying(session, config, password).1),
        starts_nothing(refreshing(session).1),
        starts_nothing(scanning(session, pattern).1),
        starts_nothing(opening(session, key, kind).1),
        starts_nothing(running(session, sql).1),
        starts_nothing(committing(session, statements, counts).1),
        starts_nothing(canceling(session).1),
        starts_nothing(loading(session, relation).1),
{
}

/// Cancel means stop, not stop and then start the next thing: once a statement
/// has been canceled, its answer starts nothing.
pub proof fn nothing_starts_after_a_cancel(session: SessionView, answer: Result<Answer, String>)
    requires
        session.connection is Some,
    ensures
        starts_nothing(ran(canceling(session).0, answer).1),
{
}

/// Whether a step sends a statement, which is then the one in flight and no
/// longer held.
pub open spec fn sends(step: Step, sql: Seq<char>) -> bool {
    &&& step.1.len() > 0
    &&& step.1.last() == Deed::Ask(RequestView::Query(sql))
    &&& step.0.task == Some(TaskView::Query(sql))
    &&& step.0.activity == Activity::Running
    &&& step.0.superseding is None
}

/// A statement that waits behind an operation is sent the moment the operation
/// lands, whichever it was and however it ended: a read of the catalog, a walk
/// of the keys, a key or a commit.
pub proof fn what_waits_is_sent_when_the_operation_lands(
    session: SessionView,
    sql: Seq<char>,
    catalog: Result<Catalog, DbError>,
    listing: Result<Listing, DbError>,
    page: Result<KeyPage, String>,
    commit: Result<(Option<DbError>, u128), String>,
)
    requires
        session.connection is Some,
        session.superseding == Some(sql),
        has_ink(sql),
        !refused(session, sql),
    ensures
        session.task == Some(TaskView::Refresh) ==> sends(refreshed(session, catalog), sql),
        session.task == Some(TaskView::Scan) ==> sends(listed(session, listing), sql),
        session.task matches Some(TaskView::Key(_, _)) ==> sends(key_read(session, page), sql),
        session.task matches Some(TaskView::Commit(_)) ==> sends(committed(session, commit), sql),
{
}

/// What is asked for while an operation is in flight is held, and then sent,
/// and its answer is told.
pub proof fn a_held_statement_is_answered(session: SessionView, sql: Seq<char>, answer: Result<Answer, String>)
    requires
        busy(session),
        session.connection is Some,
        has_ink(sql),
        !refused(session, sql),
    ensures
        running(session, sql) == (
            (SessionView { superseding: Some(sql), ..session }),
            Seq::<Deed>::empty(),
        ),
        forall|step: Step| #[trigger]
            sends(step, sql) ==> {
                let told = ran(step.0, answer);
                &&& told.0.last == Some(finished_run(sql, answer))
                &&& told.1 == seq![Deed::Emit(SessionEvent::Finished), Deed::Notify]
            },
{
}

/// What was known of the roles and the privileges goes with the old connection:
/// a session that was asked to connect again knows none, and once it is
/// connected it knows the roles that came with the connection, and no
/// privileges.
pub proof fn privileges_go_with_the_connection(session: SessionView, outcome: Result<Opened, DbError>)
    requires
        !busy(session),
    ensures
        connecting(session).0.roles is None,
        connected(connecting(session).0, outcome).0.roles == match outcome {
            Ok(opened) => opened.roles,
            Err(_) => None,
        },
        disconnected(session).0.roles is None,
        connecting(session).0.grants.len() == 0,
        connecting(session).0.loading_grants is None,
        connected(connecting(session).0, outcome).0.grants.len() == 0,
        disconnected(session).0.grants.len() == 0,
{
}

/// Nothing held behind an operation of one connection is sent over another.
pub proof fn nothing_held_outlives_its_connection(session: SessionView, outcome: Result<Opened, DbError>)
    ensures
        disconnected(session).0.superseding is None,
        !busy(session) ==> connected(connecting(session).0, outcome).0.superseding is None,
{
}

/// Whether the words of a comment are on one line.
pub open spec fn on_one_line(comment: Seq<char>) -> bool {
    forall|i: int| 0 <= i < comment.len() ==> !ends_line(#[trigger] comment[i])
}

/// Where words start and end does not depend on what stands before them.
proof fn lemma_word_moved(front: Seq<char>, sql: Seq<char>, at: int, commented: bool)
    requires
        0 <= at,
    ensures
        word_start(front + sql, front.len() + at, commented) == front.len() + word_start(
            sql,
            at,
            commented,
        ),
        word_end(front + sql, front.len() + at) == front.len() + word_end(sql, at),
        at <= sql.len() ==> at <= word_start(sql, at, commented) <= sql.len(),
        at <= sql.len() ==> at <= word_end(sql, at) <= sql.len(),
    decreases sql.len() - at,
{
    if at < sql.len() {
        assert((front + sql)[front.len() + at] == sql[at]);
        if at + 1 < sql.len() {
            assert((front + sql)[front.len() + at + 1] == sql[at + 1]);
        }
        lemma_word_moved(front, sql, at + 1, true);
        lemma_word_moved(front, sql, at + 1, false);
    }
}

/// The words of a comment are walked past.
proof fn lemma_comment_passed(comment: Seq<char>, rest: Seq<char>, at: int)
    requires
        on_one_line(comment),
        2 <= at <= 2 + comment.len(),
    ensures
        word_start("--"@ + comment + seq!['\n'] + rest, at, true) == word_start(
            "--"@ + comment + seq!['\n'] + rest,
            3 + comment.len() as int,
            false,
        ),
    decreases 2 + comment.len() - at,
{
    reveal_strlit("--");
    let sql = "--"@ + comment + seq!['\n'] + rest;
    if at < 2 + comment.len() {
        assert(sql[at] == comment[at - 2]);
        lemma_comment_passed(comment, rest, at + 1);
    } else {
        assert(sql[at] == '\n');
    }
}

/// A comment is no part of the statement behind it: what opens the statement is
/// what would open it without the comment.
pub proof fn a_comment_opens_nothing(comment: Seq<char>, rest: Seq<char>)
    requires
        on_one_line(comment),
    ensures
        keyword("--"@ + comment + seq!['\n'] + rest) == keyword(rest),
{
    reveal_strlit("--");
    let front = "--"@ + comment + seq!['\n'];
    let sql = front + rest;
    assert(sql[0] == '-' && sql[1] == '-');
    assert(word_start(sql, 1, true) == word_start(sql, 2, true));
    lemma_comment_passed(comment, rest, 2);
    lemma_word_moved(front, rest, 0, false);
    let from = word_start(rest, 0, false);
    lemma_word_moved(front, rest, from, false);
    assert(sql.subrange(front.len() + from, front.len() + word_end(rest, from)) =~= rest.subrange(
        from,
        word_end(rest, from),
    ));
}

} // verus!
