//! What each operation of a session asks the server, and what its answer
//! leaves behind.
use crate::catalog::{DbError, ErrorView, KeyType, Rows};
use crate::session::{
    canceling, commit_summary, committed, committing, connected, connecting, disconnected,
    explained, fresh, key_read, keyword, listed, opening, password_choice, ran, refreshed,
    refreshing, running, scanning, state_label, tallies, Answer, Catalog, Counts, Deed, KeyPage,
    Listing, Opened, Outcome, RequestView, SessionEvent, SessionView, StateView, Statement,
    TaskView,
};
use crate::text::{decimal, has, has_ink, joined, maybe, texts};
use vstd::prelude::*;

verus! {

/// Whether a step asks the server for something.
pub open spec fn requests(list: Seq<Deed>, request: RequestView) -> bool {
    exists|i: int| 0 <= i < list.len() && #[trigger] list[i] == Deed::Ask(request)
}

/// Whether a step asks the server for nothing.
pub open spec fn requests_nothing(list: Seq<Deed>) -> bool {
    forall|i: int| 0 <= i < list.len() ==> !(#[trigger] list[i] is Ask)
}

/// Whether a step tells the window something.
pub open spec fn tells(list: Seq<Deed>, event: SessionEvent) -> bool {
    exists|i: int| 0 <= i < list.len() && #[trigger] list[i] == Deed::Emit(event)
}

/// A session that is idle and told to connect asks for the connection it is of,
/// with the password it was given, and is connecting until it is answered.
pub proof fn connecting_asks_for_the_connection(session: SessionView)
    ensures
        session.activity is Idle ==> {
            let step = connecting(session);
            &&& requests(
                step.1,
                RequestView::Connect { config: session.config, password: session.password },
            )
            &&& step.0.state is Connecting
            &&& step.0.activity is Connecting
            &&& step.0.connection is None
            &&& step.0.config == session.config
            &&& step.0.password == session.password
            &&& tells(step.1, SessionEvent::StateChanged)
        },
        !(session.activity is Idle) ==> connecting(session) == (session, Seq::<Deed>::empty()),
{
    if session.activity is Idle {
        let list = connecting(session).1;
        assert(list[0] == Deed::Emit(SessionEvent::StateChanged));
        assert(list[2] is Ask);
    }
}

/// The answer to connecting: a server that was reached is the one the session is
/// on, with its catalog and no keys read yet, and one that was not leaves the
/// session failed, saying why. Either way it is idle again.
pub proof fn a_connection_is_open_or_says_why_not(
    session: SessionView,
    outcome: Result<Opened, DbError>,
)
    requires
        session.task == Some(TaskView::Connect),
    ensures
        ({
            let step = connected(session, outcome);
            &&& step.0.activity is Idle
            &&& step.0.task is None
            &&& tells(step.1, SessionEvent::StateChanged)
            &&& requests_nothing(step.1)
            &&& outcome matches Ok(opened) ==> {
                &&& step.0.state is Connected
                &&& step.0.connection == Some(opened.connection)
                &&& step.0.roles == opened.roles
                &&& step.0.keys.len() == 0
                &&& !step.0.keys_complete
                &&& opened.catalog matches Catalog::Sql(snapshot) ==> step.0.snapshot == Some(
                    snapshot,
                ) && step.0.keyspace is None
                &&& opened.catalog matches Catalog::Keyspace(keyspace) ==> step.0.keyspace == Some(
                    keyspace,
                ) && step.0.snapshot is None
                &&& tells(step.1, SessionEvent::SchemaChanged)
            }
            &&& outcome matches Err(error) ==> {
                &&& step.0.state == StateView::Failed(error.message@)
                &&& step.0.connection == session.connection
                &&& !tells(step.1, SessionEvent::SchemaChanged)
            }
        }),
        state_label(StateView::Offline) == "Not connected"@,
        state_label(StateView::Connected) == "Connected"@,
        outcome matches Err(error) ==> state_label(connected(session, outcome).0.state)
            == error.message@,
{
    let list = connected(session, outcome).1;
    match outcome {
        Ok(_) => {
            assert(list[0] == Deed::Emit(SessionEvent::SchemaChanged));
            assert(list[1] == Deed::Emit(SessionEvent::StateChanged));
        },
        Err(_) => {
            assert(list[0] == Deed::Emit(SessionEvent::StateChanged));
        },
    }
}

/// A session that is told to disconnect is offline and holds nothing that was
/// read over the connection.
pub proof fn disconnecting_leaves_nothing(session: SessionView)
    ensures
        ({
            let after = disconnected(session).0;
            &&& after.state is Offline
            &&& after.connection is None
            &&& after.snapshot is None
            &&& after.keyspace is None
            &&& after.roles is None
            &&& after.keys.len() == 0
            &&& after.task is None
            &&& after.activity is Idle
            &&& after.config == session.config
            &&& requests_nothing(disconnected(session).1)
        }),
        ({
            let new = fresh(session.config, session.password);
            new.state is Offline && new.connection is None && new.config == session.config
                && new.password == session.password && new.activity is Idle && new.last is None
        }),
{
}

/// Sending a statement to an idle server asks for that statement, and for
/// nothing else. One with nothing in it is not sent. Without a server it fails
/// at once, and so does one that does not open like a read, where the
/// connection is marked read-only and what is typed is SQL.
pub proof fn a_statement_is_sent_as_it_is(session: SessionView, sql: Seq<char>)
    ensures
        ({
            let step = running(session, sql);
            let word = keyword(sql);
            let reads = word == "select"@ || word == "with"@ || word == "show"@ || word
                == "explain"@ || word == "table"@ || word == "values"@ || word == "fetch"@;
            let guarded = session.config.safety is ReadOnly && session.config.capabilities.sql;
            &&& !has_ink(sql) ==> step == (session, Seq::<Deed>::empty())
            &&& has_ink(sql) && session.connection is None ==> {
                &&& requests_nothing(step.1)
                &&& tells(step.1, SessionEvent::Finished)
                &&& step.0.last matches Some(run) && run.sql == sql && run.rows is None && (
                run.error matches Some(error) && error.class is Connection && error.message
                    == "Not connected"@)
            }
            &&& has_ink(sql) && session.connection is Some && guarded && !reads ==> {
                &&& requests_nothing(step.1)
                &&& tells(step.1, SessionEvent::Finished)
                &&& step.0.last matches Some(run) && run.sql == sql && run.rows is None
                    && run.error is Some
            }
            &&& has_ink(sql) && session.connection is Some && (!guarded || reads)
                && session.activity is Idle ==> {
                &&& requests(step.1, RequestView::Query(sql))
                &&& step.0.task == Some(TaskView::Query(sql))
                &&& step.0.activity is Running
                &&& step.0.last == session.last
                &&& forall|i: int|
                    0 <= i < step.1.len() ==> (#[trigger] step.1[i] is Ask ==> step.1[i]
                        == Deed::Ask(RequestView::Query(sql)))
            }
            &&& has_ink(sql) && session.connection is Some && (!guarded || reads) && !(
            session.activity is Idle) ==> {
                &&& step.1.len() == 0
                &&& step.0 == (SessionView { superseding: Some(sql), ..session })
            }
        }),
{
    let list = running(session, sql).1;
    if list.len() == 2 {
        assert(list[0] == list[0] && list[1] == list[1]);
    }
}

/// What came back of a statement is what is kept of it: its own text, its rows
/// or how many rows it changed where it went through, and its error where it
/// did not, never both.
pub proof fn an_answer_is_kept_as_it_came(
    session: SessionView,
    sql: Seq<char>,
    answer: Result<Answer, String>,
)
    requires
        session.task == Some(TaskView::Query(sql)),
        session.superseding is None,
    ensures
        ({
            let step = ran(session, answer);
            let run = step.0.last->Some_0;
            &&& step.0.last is Some
            &&& step.0.activity is Idle
            &&& step.0.task is None
            &&& tells(step.1, SessionEvent::Finished)
            &&& requests_nothing(step.1)
            &&& run.sql == sql
            &&& answer matches Ok(came) ==> {
                &&& run.elapsed == came.elapsed
                &&& run.notices == texts(came.notices@)
                &&& came.outcome matches Ok(Outcome::Rows { rows, truncated }) ==> run.rows
                    == Some(rows) && run.truncated == truncated && run.affected is None
                    && run.error is None
                &&& came.outcome matches Ok(Outcome::Affected(count)) ==> run.rows is None
                    && run.affected == Some(count) && run.error is None
                &&& came.outcome matches Err(error) ==> run.rows is None && run.affected is None
                    && run.error == Some(error@)
            }
            &&& answer matches Err(message) ==> run.rows is None && run.affected is None
                && (run.error matches Some(error) && error.message == message@)
        }),
{
    let list = ran(session, answer).1;
    assert(list[0] == Deed::Emit(SessionEvent::Finished));
}

/// A statement goes to the server and comes back: run on an idle session and
/// answered, it leaves the answer and an idle session.
pub proof fn a_statement_is_answered(session: SessionView, sql: Seq<char>, answer: Result<Answer, String>)
    requires
        has_ink(sql),
        session.connection is Some,
        session.activity is Idle,
        session.superseding is None,
        !(session.config.safety is ReadOnly),
    ensures
        ({
            let sent = running(session, sql).0;
            let after = ran(sent, answer).0;
            &&& after.last matches Some(run) && run.sql == sql
            &&& after.activity is Idle
            &&& after.connection == session.connection
            &&& after.snapshot == session.snapshot
            &&& (answer matches Ok(came) && came.outcome is Ok) <==> after.last->Some_0.error
                is None
        }),
{
}

/// A transaction is sent whole, to an idle server that takes writes. A
/// connection that is marked read-only, or is not there, sends nothing and says
/// that it failed.
pub proof fn a_transaction_is_sent_whole(
    session: SessionView,
    statements: Seq<Statement>,
    counts: Counts,
)
    requires
        statements.len() > 0,
    ensures
        ({
            let step = committing(session, statements, counts);
            &&& session.connection is None || session.config.safety is ReadOnly ==> {
                &&& requests_nothing(step.1)
                &&& tells(step.1, SessionEvent::Applied)
                &&& step.0.last_apply matches Some(applied) && applied.error is Some
                    && applied.counts == counts
                &&& step.0.task == session.task
            }
            &&& session.connection is Some && !(session.config.safety is ReadOnly)
                && session.activity is Idle ==> {
                &&& requests(step.1, RequestView::Commit(statements))
                &&& step.0.task == Some(TaskView::Commit(counts))
                &&& step.0.activity is Running
                &&& step.0.last_apply == session.last_apply
            }
            &&& session.connection is Some && !(session.config.safety is ReadOnly) && !(
            session.activity is Idle) ==> step == (session, Seq::<Deed>::empty())
        }),
{
    let list = committing(session, statements, counts).1;
    if list.len() == 2 {
        assert(list[0] == list[0] && list[1] == list[1]);
    }
}

/// A transaction that was answered is told by how it ended: with no error where
/// the server took it, and with the server's own where it did not.
pub proof fn a_transaction_is_answered(
    session: SessionView,
    counts: Counts,
    answer: Result<(Option<DbError>, u128), String>,
)
    requires
        session.task == Some(TaskView::Commit(counts)),
        session.superseding is None,
    ensures
        ({
            let step = committed(session, answer);
            let applied = step.0.last_apply->Some_0;
            &&& step.0.last_apply is Some
            &&& applied.counts == counts
            &&& step.0.activity is Idle
            &&& tells(step.1, SessionEvent::Applied)
            &&& answer matches Ok(came) ==> {
                &&& applied.elapsed == came.1
                &&& came.0 is None ==> applied.error is None
                &&& came.0 matches Some(error) ==> applied.error == Some(error@)
            }
            &&& answer matches Err(message) ==> applied.error matches Some(error)
                && error.message == message@
        }),
{
    let list = committed(session, answer).1;
    assert(list[0] == Deed::Emit(SessionEvent::Applied));
}

/// Cancel asks the server to stop where something is in flight and the server
/// can be asked, and drops what was waiting. The operation itself is still in
/// flight until it is answered.
pub proof fn a_cancel_asks_the_server_to_stop(session: SessionView)
    requires
        session.connection is Some,
    ensures
        ({
            let step = canceling(session);
            &&& step.0.superseding is None
            &&& step.0.task == session.task
            &&& step.0.activity == session.activity
            &&& !(session.activity is Idle) && session.config.capabilities.cancel ==> requests(
                step.1,
                RequestView::Cancel,
            )
            &&& session.activity is Idle || !session.config.capabilities.cancel ==> step.1.len()
                == 0
        }),
{
    let list = canceling(session).1;
    if list.len() == 1 {
        assert(list[0] == Deed::Ask(RequestView::Cancel));
    }
}

/// The catalog is read again where there is a server that is idle, and what
/// comes back replaces the old one; a read that fails changes nothing of it.
pub proof fn a_catalog_is_read_again(session: SessionView, outcome: Result<Catalog, DbError>)
    requires
        session.superseding is None,
    ensures
        session.connection is Some && session.activity is Idle ==> {
            let step = refreshing(session);
            let after = refreshed(step.0, outcome).0;
            &&& requests(step.1, RequestView::Catalog)
            &&& step.0.activity is Introspecting
            &&& after.activity is Idle
            &&& after.connection == session.connection
            &&& after.state == session.state
            &&& outcome matches Ok(Catalog::Sql(snapshot)) ==> after.snapshot == Some(snapshot)
                && after.keyspace is None
            &&& outcome matches Ok(Catalog::Keyspace(keyspace)) ==> after.keyspace == Some(
                keyspace,
            ) && after.snapshot is None
            &&& outcome is Err ==> after.snapshot == session.snapshot && after.keyspace
                == session.keyspace && after.keys == session.keys
        },
        session.connection is None ==> requests_nothing(refreshing(session).1),
{
    let list = refreshing(session).1;
    if list.len() == 2 {
        assert(list[1] == Deed::Ask(RequestView::Catalog));
    }
}

/// A walk of the keys goes on from where it stopped, and adds what it finds to
/// what it has; it is over where there is no more. Another pattern is another
/// walk, from the start.
pub proof fn a_walk_goes_on_where_it_stopped(
    session: SessionView,
    pattern: Seq<char>,
    outcome: Result<Listing, DbError>,
)
    requires
        session.superseding is None,
        session.connection matches Some(connection) && connection.capabilities.paged_catalog,
        session.activity is Idle,
    ensures
        ({
            let step = scanning(session, pattern);
            let after = listed(step.0, outcome).0;
            &&& pattern == session.key_pattern && !session.keys_complete ==> {
                &&& exists|limit: usize| requests(
                    step.1,
                    #[trigger] walk(pattern, session.key_cursor, limit),
                )
                &&& outcome matches Ok(listing) ==> after.keys == session.keys + listing.keys@
                    && after.key_cursor == listing.more && after.keys_complete == (listing.more
                    is None)
                &&& outcome is Err ==> after.keys == session.keys
            }
            &&& pattern == session.key_pattern && session.keys_complete ==> requests_nothing(step.1)
            &&& pattern != session.key_pattern ==> {
                &&& exists|limit: usize| requests(step.1, #[trigger] walk(pattern, None, limit))
                &&& step.0.keys.len() == 0
                &&& step.0.key_pattern == pattern
                &&& outcome matches Ok(listing) ==> after.keys == listing.keys@
            }
            &&& after.activity is Idle
        }),
{
    let step = scanning(session, pattern);
    let list = step.1;
    if list.len() == 2 {
        let from = if pattern == session.key_pattern {
            session.key_cursor
        } else {
            None
        };
        assert(list[1] == Deed::Ask(walk(pattern, from, crate::session::KEY_PAGE)));
        assert(requests(list, walk(pattern, from, crate::session::KEY_PAGE)));
    }
    if let Ok(listing) = outcome {
        assert(Seq::<crate::catalog::KeyInfo>::empty() + listing.keys@ =~= listing.keys@);
    }
}

/// A page of a walk asked for.
pub open spec fn walk(pattern: Seq<char>, from: Option<u64>, limit: usize) -> RequestView {
    RequestView::Keys { pattern, from, limit }
}

/// Which password a connection is opened with: what was typed before anything
/// else, then what the launch gave, and only then what is kept.
pub proof fn what_is_typed_comes_first(
    typed: Option<Seq<char>>,
    environment: Option<Seq<char>>,
    stored: Result<Option<String>, String>,
)
    ensures
        typed matches Some(password) ==> password_choice(typed, environment, stored) == Ok::<
            Option<Seq<char>>,
            ErrorView,
        >(Some(password)),
        typed is None ==> (environment matches Some(password) ==> password_choice(
            typed,
            environment,
            stored,
        ) == Ok::<Option<Seq<char>>, ErrorView>(Some(password))),
        typed is None && environment is None ==> (stored matches Ok(kept) ==> password_choice(
            typed,
            environment,
            stored,
        ) == Ok::<Option<Seq<char>>, ErrorView>(maybe(kept))),
        typed is None && environment is None ==> (stored is Err ==> password_choice(
            typed,
            environment,
            stored,
        ) is Err),
{
}

/// A failure is explained as a missing password only where none was given and
/// the server speaks of one; any other is reported as it is.
pub proof fn a_given_password_is_not_reported_missing(error: ErrorView, had_password: bool)
    ensures
        had_password ==> explained(error, had_password) == error,
        !(has(error.message, "password"@)) ==> explained(error, had_password) == error,
        !had_password && has(error.message, "password"@) ==> explained(
            error,
            had_password,
        ).class is Connection,
{
}

/// A transaction is summed up by what is in it: one of something without an
/// `s`, several with one, nothing left out but what is not there.
pub proof fn a_summary_counts_what_was_done(n: usize)
    ensures
        commit_summary((Counts { inserts: 0, updates: 0, deletes: 0, ddl: 0 })) == "nothing"@,
        n == 1 ==> commit_summary((Counts { inserts: n, updates: 0, deletes: 0, ddl: 0 }))
            == "1 "@ + "insert"@,
        n == 1 ==> commit_summary((Counts { inserts: 0, updates: n, deletes: 0, ddl: 0 }))
            == "1 "@ + "update"@,
        n == 1 ==> commit_summary((Counts { inserts: 0, updates: 0, deletes: n, ddl: 0 }))
            == "1 "@ + "delete"@,
        n == 1 ==> commit_summary((Counts { inserts: 0, updates: 0, deletes: 0, ddl: n }))
            == "1 "@ + "schema change"@,
        n > 1 ==> commit_summary((Counts { inserts: n, updates: 0, deletes: 0, ddl: 0 }))
            == decimal(n as nat) + seq![' '] + "insert"@ + seq!['s'],
        n > 1 ==> commit_summary((Counts { inserts: 0, updates: n, deletes: 0, ddl: 0 }))
            == decimal(n as nat) + seq![' '] + "update"@ + seq!['s'],
        n > 1 ==> commit_summary((Counts { inserts: 0, updates: 0, deletes: n, ddl: 0 }))
            == decimal(n as nat) + seq![' '] + "delete"@ + seq!['s'],
        n > 1 ==> commit_summary((Counts { inserts: n, updates: n, deletes: 0, ddl: 0 }))
            == decimal(n as nat) + seq![' '] + "insert"@ + seq!['s'] + ", "@ + decimal(n as nat)
            + seq![' '] + "update"@ + seq!['s'],
{
    lemma_one_tally(Counts { inserts: n, updates: 0, deletes: 0, ddl: 0 });
    lemma_one_tally(Counts { inserts: 0, updates: n, deletes: 0, ddl: 0 });
    lemma_one_tally(Counts { inserts: 0, updates: 0, deletes: n, ddl: 0 });
    lemma_one_tally(Counts { inserts: 0, updates: 0, deletes: 0, ddl: n });
    if n > 1 {
        let both = Counts { inserts: n, updates: n, deletes: 0, ddl: 0 };
        let one = (decimal(n as nat).push(' ') + "insert"@).push('s');
        let two = (decimal(n as nat).push(' ') + "update"@).push('s');
        assert(tallies(both) =~= seq![one, two]);
        let list = tallies(both);
        assert(joined(list.drop_last(), ", "@) == one);
        assert(joined(list, ", "@) == one + ", "@ + two);
        assert(commit_summary(both) =~= decimal(n as nat) + seq![' '] + "insert"@ + seq!['s']
            + ", "@ + decimal(n as nat) + seq![' '] + "update"@ + seq!['s']);
        assert((decimal(n as nat).push(' ') + "delete"@).push('s') =~= decimal(n as nat)
            + seq![' '] + "delete"@ + seq!['s']);
        assert(one =~= decimal(n as nat) + seq![' '] + "insert"@ + seq!['s']);
        assert(two =~= decimal(n as nat) + seq![' '] + "update"@ + seq!['s']);
    }
}

/// With one sort of change, the summary is that sort's.
proof fn lemma_one_tally(counts: Counts)
    ensures
        tallies(counts).len() == 1 ==> commit_summary(counts) == tallies(counts)[0],
        tallies(counts).len() == 0 ==> commit_summary(counts) == "nothing"@,
{
}

/// Reading a key asks for that key, and what came back is kept of it: its rows
/// where it could be read, and otherwise why not.
pub proof fn a_key_is_read_as_it_is(
    session: SessionView,
    key: Seq<u8>,
    kind: KeyType,
    outcome: Result<KeyPage, String>,
)
    requires
        session.connection is Some,
        session.activity is Idle,
        session.superseding is None,
    ensures
        ({
            let step = opening(session, key, kind);
            let after = key_read(step.0, outcome).0;
            let shown = after.last_key->Some_0;
            &&& step.1.len() > 0
            &&& step.1.last() matches Deed::Ask(RequestView::ReadKey { key: asked, .. })
                && asked == key
            &&& after.last_key is Some
            &&& after.activity is Idle
            &&& shown.key == key
            &&& shown.kind == kind
            &&& outcome matches Ok(page) ==> {
                &&& page.page matches Ok(found) ==> shown.rows == Some(found.0)
                    && shown.error is None
                &&& page.page matches Err(error) ==> shown.rows is None && shown.error == Some(
                    error@,
                )
            }
            &&& outcome is Err ==> shown.rows is None && shown.error is Some
        }),
{
}

} // verus!
