use tupli::catalog::{
    Capabilities, ConnectionConfig, DbError, ErrorClass, Grants, KeyDatabase, KeyInfo, KeyType,
    Keyspace, RelationRef, RoleSet, Rows, SafetyLevel, SchemaSnapshot,
};
use tupli::session::{
    choose_password, explain, joined_result, writes, Activity, Answer, Applied, Catalog, Counts,
    KeyPage, Listing, Live, Opened, Outcome, Request, Session, SessionEffect, SessionEvent,
    SessionState, Statement,
};

#[test]
fn reads_are_recognised_and_everything_else_is_a_write() {
    assert!(!writes("select * from users"));
    assert!(!writes("  SELECT 1"));
    assert!(!writes("with recent as (select 1) select * from recent"));
    assert!(!writes("explain analyze select 1"));
    assert!(writes("update users set plan = 'pro'"));
    assert!(writes("delete from users"));
    assert!(writes("drop table users"));
    assert!(writes("truncate users"));
    // `explain analyze delete …` really does write, but a read-only connection
    // refusing it is the safe direction to be wrong in.
    assert!(writes(""));
}

#[test]
fn a_state_always_has_something_to_show() {
    assert_eq!(SessionState::Offline.label(), "Not connected");
    assert_eq!(
        SessionState::Failed("password authentication failed".to_string()).label(),
        "password authentication failed"
    );
    assert!(SessionState::Connected.is_connected());
}

#[test]
fn a_read_may_open_with_a_bracket_or_a_comment() {
    assert!(!writes("(select 1)"));
    assert!(!writes("--note\nselect 1"));
    assert!(!writes("-- note\nselect 1"));
    assert!(!writes("-- note\r\n  -- and another\n(select 1)"));
    assert!(writes("-- select\ndelete from users"));
    assert!(writes("-- select 1"), "a comment is no statement");
    assert!(!writes("TABLE users"));
    assert!(!writes("values (1)"));
    assert!(writes("selective"));
}

fn config(safety: SafetyLevel, capabilities: Capabilities) -> ConnectionConfig {
    ConnectionConfig {
        id: 7,
        name: "local".to_string(),
        display_name: "local".to_string(),
        user: "me".to_string(),
        host: "localhost".to_string(),
        port: 5432,
        database: "app".to_string(),
        safety,
        capabilities,
    }
}

fn snapshot(database: &str) -> SchemaSnapshot {
    SchemaSnapshot {
        database: database.to_string(),
        databases: vec![database.to_string()],
        server_version: "16.4 (Homebrew)".to_string(),
        current_schema: "public".to_string(),
        schemas: Vec::new(),
    }
}

fn opened(capabilities: Capabilities) -> Opened {
    Opened {
        connection: Live { version: "16.4 (Homebrew)".to_string(), capabilities },
        catalog: Catalog::Sql(snapshot("app")),
        roles: None,
    }
}

fn live(safety: SafetyLevel) -> Session {
    let mut session = Session::new(config(safety, Capabilities::postgres()));
    session.connect();
    session.connected(Ok(opened(Capabilities::postgres())));
    session
}

fn live_keys() -> Session {
    let mut session = Session::new(config(SafetyLevel::Normal, Capabilities::redis()));
    session.connect();
    session.connected(Ok(Opened {
        connection: Live { version: "7.2.4".to_string(), capabilities: Capabilities::redis() },
        catalog: Catalog::Keyspace(Keyspace {
            databases: vec![KeyDatabase { index: 0, keys: 3 }],
            current: 0,
        }),
        roles: None,
    }));
    session
}

fn answer(outcome: Result<Outcome, DbError>) -> Result<Answer, String> {
    Ok(Answer { outcome, elapsed: 5, notices: vec!["careful".to_string()] })
}

fn events(effects: &[SessionEffect]) -> Vec<SessionEvent> {
    effects
        .iter()
        .filter_map(|effect| match effect {
            SessionEffect::Emit(event) => Some(*event),
            _ => None,
        })
        .collect()
}

fn asked(effects: &[SessionEffect]) -> Vec<String> {
    effects
        .iter()
        .filter_map(|effect| match effect {
            SessionEffect::Ask(Request::Query(sql)) => Some(sql.clone()),
            SessionEffect::Ask(Request::Cancel) => Some("cancel".to_string()),
            SessionEffect::Ask(Request::Catalog) => Some("catalog".to_string()),
            SessionEffect::Ask(Request::Connect { .. }) => Some("connect".to_string()),
            SessionEffect::Ask(Request::Commit(list)) => Some(format!("commit {}", list.len())),
            SessionEffect::Ask(Request::Grants(of)) => Some(format!("grants {}", of.qualified())),
            SessionEffect::Ask(Request::Keys { pattern, from, limit }) => {
                Some(format!("keys {pattern} {from:?} {limit}"))
            }
            SessionEffect::Ask(Request::ReadKey { limit, .. }) => Some(format!("key {limit}")),
            _ => None,
        })
        .collect()
}

#[test]
fn connecting_asks_once_and_lands_connected() {
    let mut session = Session::with_password(
        config(SafetyLevel::Normal, Capabilities::postgres()),
        Some("hunter2".to_string()),
    );
    assert!(!session.is_busy());
    let effects = session.connect();
    assert_eq!(asked(&effects), ["connect"]);
    assert!(effects.iter().any(|e| matches!(
        e,
        SessionEffect::Ask(Request::Connect { password: Some(p), .. }) if p == "hunter2"
    )));
    assert!(session.is_busy());
    assert_eq!(session.activity(), Activity::Connecting);
    assert!(session.connect().is_empty(), "one at a time");
    let effects = session.connected(Ok(opened(Capabilities::postgres())));
    assert_eq!(events(&effects), [SessionEvent::SchemaChanged, SessionEvent::StateChanged]);
    assert!(session.state().is_connected());
    assert_eq!(session.server_version(), "16.4 (Homebrew)");
    assert!(session.connected(Ok(opened(Capabilities::postgres()))).is_empty());
}

#[test]
fn a_refused_connection_says_why() {
    let mut session = Session::new(config(SafetyLevel::Normal, Capabilities::postgres()));
    session.connect();
    session.connected(Err(DbError::connection("no route")));
    assert!(session.state().is_failed());
    assert_eq!(session.state().label(), "no route");
    assert!(!session.is_busy());
    let effects = session.retry(config(SafetyLevel::Normal, Capabilities::postgres()), None);
    assert_eq!(asked(&effects), ["connect"]);
}

#[test]
fn a_statement_without_a_server_fails_here() {
    let mut session = Session::new(config(SafetyLevel::Normal, Capabilities::postgres()));
    let effects = session.run("select 1".to_string());
    assert_eq!(events(&effects), [SessionEvent::Finished]);
    let last = session.last.as_ref().unwrap();
    assert!(!last.succeeded());
    assert_eq!(last.error.as_ref().unwrap().message, "Not connected");
    assert_eq!(last.error.as_ref().unwrap().class, ErrorClass::Connection);
}

#[test]
fn a_blank_statement_is_no_statement() {
    let mut session = live(SafetyLevel::Normal);
    assert!(session.run(" \n ".to_string()).is_empty());
    assert!(session.last.is_none());
}

#[test]
fn a_read_only_connection_refuses_writes() {
    let mut session = live(SafetyLevel::ReadOnly);
    let effects = session.run("delete from users".to_string());
    assert!(asked(&effects).is_empty());
    let error = session.last.as_ref().unwrap().error.as_ref().unwrap();
    assert_eq!(
        error.message,
        "This connection is marked read-only. Change it in the connection settings to run writes."
    );
    assert_eq!(asked(&session.run("select 1".to_string())), ["select 1"]);
}

#[test]
fn a_read_only_connection_refuses_commits() {
    let mut session = live(SafetyLevel::ReadOnly);
    let counts = Counts { inserts: 1, updates: 0, deletes: 0, ddl: 0 };
    let effects = session.apply(
        vec![Statement { sql: "insert".to_string(), expect_rows: Some(1) }],
        counts,
    );
    assert_eq!(events(&effects), [SessionEvent::Applied]);
    let error = session.last_apply.as_ref().unwrap().error.as_ref().unwrap();
    assert_eq!(
        error.message,
        "This connection is marked read-only. Change it in the connection settings to save edits."
    );
}

#[test]
fn a_finished_statement_is_kept_with_its_rows() {
    let mut session = live(SafetyLevel::Normal);
    session.run("select 1".to_string());
    assert_eq!(session.activity(), Activity::Running);
    let rows = Rows { id: 3, count: 20 };
    let effects = session.ran(answer(Ok(Outcome::Rows { rows, truncated: true })));
    assert_eq!(events(&effects), [SessionEvent::Finished]);
    let last = session.last.as_ref().unwrap();
    assert!(last.succeeded() && last.truncated);
    assert_eq!((last.sql.as_str(), last.elapsed), ("select 1", 5));
    assert_eq!(last.notices, ["careful"]);
    assert_eq!(session.take_rows(), Some(rows));
    assert_eq!(session.take_rows(), None, "rows are handed over once");
}

#[test]
fn a_count_of_changed_rows_is_no_rows() {
    let mut session = live(SafetyLevel::Normal);
    session.run("delete from users".to_string());
    session.ran(answer(Ok(Outcome::Affected(4))));
    assert_eq!(session.last.as_ref().unwrap().affected, Some(4));
    assert_eq!(session.take_rows(), None);
    session.run("select 1".to_string());
    session.ran(Err("the task panicked".to_string()));
    let error = session.last.as_ref().unwrap().error.as_ref().unwrap();
    assert_eq!((error.class, error.message.as_str()), (ErrorClass::Internal, "the task panicked"));
}

#[test]
fn the_newest_statement_supersedes_the_one_in_flight() {
    let mut session = live(SafetyLevel::Normal);
    session.run("select 1".to_string());
    assert!(session.run("select 2".to_string()).is_empty());
    assert!(session.run("select 3".to_string()).is_empty());
    let effects = session.ran(answer(Ok(Outcome::Affected(0))));
    assert_eq!(asked(&effects), ["select 3"]);
    assert!(events(&effects).is_empty(), "a superseded answer is about nothing on screen");
    let effects = session.ran(answer(Ok(Outcome::Affected(0))));
    assert_eq!(events(&effects), [SessionEvent::Finished]);
    assert_eq!(session.last.as_ref().unwrap().sql, "select 3");
}

#[test]
fn a_statement_that_waited_on_the_catalog_is_sent_when_it_lands() {
    let mut session = live(SafetyLevel::Normal);
    assert_eq!(asked(&session.refresh_schema()), ["catalog"]);
    assert_eq!(session.activity(), Activity::Introspecting);
    session.run("select 1".to_string());
    let effects = session.refreshed(Ok(Catalog::Sql(snapshot("other"))));
    assert_eq!(events(&effects), [SessionEvent::SchemaChanged]);
    assert_eq!(asked(&effects), ["select 1"]);
    assert_eq!(session.snapshot.as_ref().unwrap().database, "other");
}

#[test]
fn a_catalog_that_could_not_be_read_stays_as_it_was() {
    let mut session = live(SafetyLevel::Normal);
    session.refresh_schema();
    let effects = session.refreshed(Err(DbError::internal("gone")));
    assert!(events(&effects).is_empty());
    assert_eq!(session.snapshot.as_ref().unwrap().database, "app");
    assert!(!session.is_busy());
}

#[test]
fn cancel_stops_what_runs_and_what_waits() {
    let mut session = live(SafetyLevel::Normal);
    assert!(session.cancel().is_empty());
    session.run("select 1".to_string());
    session.run("select 2".to_string());
    assert_eq!(asked(&session.cancel()), ["cancel"]);
    let effects = session.ran(answer(Ok(Outcome::Affected(0))));
    assert!(asked(&effects).is_empty());
}

#[test]
fn a_commit_is_summed_up_in_a_sentence() {
    let applied = |inserts, updates, deletes, ddl| Applied {
        counts: Counts { inserts, updates, deletes, ddl },
        elapsed: 0,
        error: None,
    };
    assert_eq!(applied(2, 1, 0, 0).summary(), "2 inserts, 1 update");
    assert_eq!(applied(0, 0, 1, 3).summary(), "1 delete, 3 schema changes");
    assert_eq!(applied(0, 0, 0, 0).summary(), "nothing");
    assert!(applied(0, 0, 0, 0).succeeded());
}

#[test]
fn a_commit_goes_out_whole_and_comes_back_once() {
    let mut session = live(SafetyLevel::Normal);
    let counts = Counts { inserts: 0, updates: 2, deletes: 0, ddl: 0 };
    assert!(session.apply(Vec::new(), counts).is_empty());
    let statements = || {
        vec![
            Statement { sql: "update a".to_string(), expect_rows: Some(1) },
            Statement { sql: "update b".to_string(), expect_rows: Some(1) },
        ]
    };
    assert_eq!(asked(&session.apply(statements(), counts)), ["commit 2"]);
    assert!(session.apply(statements(), counts).is_empty());
    let effects = session.applied(Ok((None, 9)));
    assert_eq!(events(&effects), [SessionEvent::Applied]);
    assert!(session.last_apply.as_ref().unwrap().succeeded());
    assert_eq!(session.last_apply.as_ref().unwrap().elapsed, 9);
    assert!(session.applied(Ok((None, 9))).is_empty());
}

fn key(text: &str) -> KeyInfo {
    KeyInfo {
        key: text.as_bytes().to_vec(),
        drawn: text.to_string(),
        kind: KeyType::Text,
        ttl: None,
        time_left: String::new(),
    }
}

#[test]
fn keys_come_a_page_at_a_time_until_the_walk_is_over() {
    let mut session = live_keys();
    assert_eq!(asked(&session.scan_keys("*")), ["keys * None 500"]);
    session.listed(Ok(Listing { keys: vec![key("a")], more: Some(17) }));
    assert_eq!(session.keys.len(), 1);
    assert!(!session.keys_complete);
    assert_eq!(asked(&session.scan_keys("*")), ["keys * Some(17) 500"]);
    let effects = session.listed(Ok(Listing { keys: vec![key("b")], more: None }));
    assert_eq!(events(&effects), [SessionEvent::KeysChanged]);
    assert_eq!(session.keys.len(), 2);
    assert!(session.scan_keys("*").is_empty(), "a walk that is over is over");
    assert_eq!(asked(&session.scan_keys("user:*")), ["keys user:* None 500"]);
    assert!(session.keys.is_empty(), "a new pattern is a new walk");
}

#[test]
fn an_engine_without_pages_of_keys_is_not_walked() {
    let mut session = live(SafetyLevel::Normal);
    assert!(session.scan_keys("*").is_empty());
}

#[test]
fn a_key_is_read_and_handed_over_once() {
    let mut session = live_keys();
    assert_eq!(asked(&session.open_key(b"a".to_vec(), KeyType::Text)), ["key 1000"]);
    let rows = Rows { id: 1, count: 1 };
    let effects = session.key_read(Ok(KeyPage {
        facts: Some("8 bytes".to_string()),
        page: Ok((rows, None)),
    }));
    assert_eq!(events(&effects), [SessionEvent::KeyOpened]);
    let (taken, error) = session.take_key().expect("the key");
    assert_eq!(taken, Some(rows));
    assert!(error.is_none());
    session.open_key(b"b".to_vec(), KeyType::List);
    session.key_read(Err("the task panicked".to_string()));
    let (taken, error) = session.take_key().expect("the key");
    assert_eq!(taken, None);
    assert_eq!(error.unwrap().class, ErrorClass::Internal);
}

#[test]
fn privileges_are_asked_for_once() {
    let mut session = live(SafetyLevel::Normal);
    let users = || RelationRef::new("public", "users");
    assert_eq!(asked(&session.load_grants(users())), ["grants public.users"]);
    assert!(session.load_grants(users()).is_empty(), "it is on its way");
    let grants = || Grants { lines: vec!["select to readers".to_string()] };
    let effects = session.granted(users(), Ok(Some(grants())));
    assert_eq!(events(&effects), [SessionEvent::PrivilegesChanged]);
    assert!(session.load_grants(users()).is_empty(), "it is known");
    session.forget_grants();
    assert_eq!(asked(&session.load_grants(users())), ["grants public.users"]);
    session.granted(users(), Err(DbError::internal("gone")));
    assert_eq!(asked(&session.load_grants(users())), ["grants public.users"]);
}

#[test]
fn disconnecting_forgets_everything_that_was_read() {
    let mut session = live(SafetyLevel::Normal);
    session.run("select 1".to_string());
    let effects = session.disconnect();
    assert_eq!(events(&effects), [SessionEvent::SchemaChanged, SessionEvent::StateChanged]);
    assert!(!session.is_busy());
    assert!(session.snapshot.is_none() && session.connection.is_none());
    assert_eq!(session.state().label(), "Not connected");
    assert!(session.ran(answer(Ok(Outcome::Affected(1)))).is_empty(), "a late answer is no answer");
}

#[test]
fn a_typed_password_is_taken_before_any_other() {
    let typed = || Some("typed".to_string());
    let set = || Some("set".to_string());
    let stored = || Ok(Some("stored".to_string()));
    assert_eq!(choose_password(typed(), set(), stored()).ok().flatten().as_deref(), Some("typed"));
    assert_eq!(choose_password(None, set(), stored()).ok().flatten().as_deref(), Some("set"));
    assert_eq!(choose_password(None, None, stored()).ok().flatten().as_deref(), Some("stored"));
    let locked = choose_password(None, None, Err("locked".to_string())).unwrap_err();
    assert_eq!(locked.message, "Keychain: locked");
}

#[test]
fn a_task_that_died_is_an_internal_failure() {
    let lost: Result<u8, DbError> = joined_result(Err("panicked".to_string()));
    let error = lost.unwrap_err();
    assert_eq!((error.class, error.message.as_str()), (ErrorClass::Internal, "panicked"));
    assert_eq!(joined_result(Ok(Ok(4u8))).ok(), Some(4));
    let told = joined_result::<u8>(Ok(Err(DbError::connection("refused"))));
    assert_eq!(told.unwrap_err().message, "refused");
}

#[test]
fn a_refusal_is_passed_on_as_it_came_where_there_was_a_password() {
    let refused = DbError::connection("no password supplied");
    assert_eq!(explain(refused.clone(), true).message, "no password supplied");
    assert_eq!(
        explain(refused, false).message,
        "this connection has no password saved, and the server asks for one —                          edit the connection and enter it"
    );
    assert_eq!(explain(DbError::internal("no route"), false).message, "no route");
}

#[test]
fn privileges_are_read_again_on_another_connection() {
    let mut session = live(SafetyLevel::Normal);
    let users = || RelationRef::new("public", "users");
    session.load_grants(users());
    let grants = Grants { lines: vec!["select to readers".to_string()] };
    session.granted(users(), Ok(Some(grants)));
    assert_eq!(session.grants.len(), 1);
    session.roles = Some(RoleSet { roles: Vec::new(), current: "me".to_string() });
    session.connect();
    assert!(session.grants.is_empty() && session.roles.is_none());
    session.connected(Ok(opened(Capabilities::postgres())));
    assert_eq!(asked(&session.load_grants(users())), ["grants public.users"]);
    session.connect();
    assert!(session.loading_grants.is_none());
}

#[test]
fn a_statement_that_waits_goes_with_its_connection() {
    let mut session = live(SafetyLevel::Normal);
    session.run("select 1".to_string());
    session.run("select 2".to_string());
    assert_eq!(session.superseding.as_deref(), Some("select 2"));
    session.disconnect();
    assert!(session.superseding.is_none());
    session.connect();
    session.connected(Ok(opened(Capabilities::postgres())));
    session.refresh_schema();
    assert!(asked(&session.refreshed(Ok(Catalog::Sql(snapshot("app"))))).is_empty());
}

#[test]
fn a_statement_that_waited_on_a_commit_is_sent_when_it_lands() {
    let mut session = live(SafetyLevel::Normal);
    session.apply(
        vec![Statement { sql: "drop table old".to_string(), expect_rows: None }],
        Counts { inserts: 0, updates: 0, deletes: 0, ddl: 1 },
    );
    session.run("select 1".to_string());
    assert_eq!(asked(&session.applied(Ok((None, 4)))), ["select 1"]);
}
