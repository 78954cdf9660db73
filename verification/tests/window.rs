use tupli::catalog::{
    Capabilities, ConnectionConfig, DbError, ErrorClass, ForeignKey, KeyDatabase, KeyInfo, KeyType,
    Keyspace, Relation, RelationKind, RelationRef, Rows, SafetyLevel, Schema, SchemaSnapshot,
};
use tupli::browsing::Browse;
use tupli::chrome::EmptyState;
use tupli::commands::{Command, KeyAction, Keystroke, Offer};
use tupli::designing::StructureEvent;
use tupli::dragging::{PanelMetrics, Panels};
use tupli::driving::Reply;
use tupli::events::WantedKey;
use tupli::history::{history_cutoff, HistoryScope, ListRequest, HISTORY_KEPT_MS};
use tupli::icon::{IconColor, IconName, Paint};
use tupli::ignored::Switch;
use tupli::reporting::PaneEvent;
use tupli::following::{reference_in, HeldColumn};
use tupli::frame::{Dot, Layer, Region};
use tupli::launch::{Destination, FilterFacts, Switches};
use tupli::menu::{ContextMenu, Entry};
use tupli::menus::{FilterMenu, TabItem, DATABASE_MENU_WIDTH};
use tupli::opening::{first_appearance, Start};
use tupli::pane::{CenterKind, CenterTab, Filter, Join, Queued, ResultsTab, Sort};
use tupli::responding::{MenuAction, PaletteAction, PaletteEvent, SaveSheetEvent};
use tupli::running::RunAction;
use tupli::session::{
    Answer, Catalog, Counts, KeyPage, Listing, Live, Opened, Outcome, Request, SessionEffect,
};
use tupli::settings::{Appearance, Density, Settings};
use tupli::settings_window::{Choice, Knob};
use tupli::sidebar::{Click, DatabaseTab, Tag};
use tupli::sidebar_face::{
    render_history_scope, ConnectionList, HistoryShelf, SidebarBody, SidebarFace,
};
use tupli::structure::{StructureEditor, TableDraft};
use tupli::tabbing::{closable, Closing};
use tupli::tree::NodeKind;
use tupli::window::{
    Effect, Focus, MessageTone, Order, PaletteMode, SavedQuery, SidebarTab, StructurePreview, Workspace,
};

fn config(id: u128, database: &str) -> ConnectionConfig {
    ConnectionConfig {
        id,
        name: "local".to_string(),
        display_name: "local".to_string(),
        user: "me".to_string(),
        host: "localhost".to_string(),
        port: 5432,
        database: database.to_string(),
        safety: SafetyLevel::Normal,
        capabilities: Capabilities::postgres(),
    }
}

fn start() -> Start {
    Start {
        left_open: None,
        right_open: None,
        dock_open: None,
        settings: Settings::default(),
        connections: vec![config(1, "app")],
        saved: Vec::new(),
        restored: None,
        connection: None,
        database: None,
        layout: Some(vec![0]),
        active_pane: 0,
        told_where: false,
        sample_sql: "select 1".to_string(),
        sample_rows: 3,
        sample_tree: Vec::new(),
        messages_kept: 200,
    }
}

/// The icons of a menu's rows.
fn icons(menu: &ContextMenu) -> Vec<Option<IconName>> {
    menu.entries
        .iter()
        .filter_map(|entry| match entry {
            Entry::Item(item) => Some(item.icon),
            Entry::Separator => None,
        })
        .collect()
}

/// The panes an outbox gives their settings, in order.
fn dressed(window: &Workspace) -> Vec<usize> {
    window
        .outbox
        .iter()
        .filter_map(|effect| match effect {
            Effect::Dress { pane, .. } => Some(*pane),
            _ => None,
        })
        .collect()
}

/// A window with one empty script and no connection.
fn quiet() -> Workspace {
    let mut start = start();
    start.told_where = true;
    let mut window = Workspace::new(start);
    window.new_query_tab();
    window.outbox.clear();
    window
}

fn relation(name: &str, keys: Vec<ForeignKey>) -> Relation {
    Relation {
        reference: RelationRef::new("public", name),
        kind: RelationKind::Table,
        estimated_rows: 10,
        foreign_keys: keys,
    }
}

fn snapshot(database: &str) -> SchemaSnapshot {
    SchemaSnapshot {
        database: database.to_string(),
        databases: vec!["app".to_string(), "app_test".to_string()],
        server_version: "16.4 (Homebrew)".to_string(),
        current_schema: "public".to_string(),
        schemas: vec![Schema {
            name: "public".to_string(),
            relations: vec![
                relation("users", Vec::new()),
                relation(
                    "orders",
                    vec![ForeignKey {
                        columns: vec!["user_id".to_string()],
                        target: RelationRef::new("public", "users"),
                        targets: vec!["id".to_string()],
                    }],
                ),
            ],
            routines: Vec::new(),
        }],
    }
}

fn wanted() -> WantedKey {
    WantedKey { bytes: Vec::new(), title: String::new(), detail: String::new() }
}

fn hear(window: &mut Workspace, id: usize, effects: Vec<SessionEffect>) -> Vec<Request> {
    let mut asked = Vec::new();
    for effect in effects {
        match effect {
            SessionEffect::Emit(event) => window.on_session_event(id, event, &wanted(), 1000),
            SessionEffect::Notify => {}
            SessionEffect::Ask(request) => asked.push(request),
        }
    }
    asked
}

/// Carry the orders in the outbox out, and give back what is left of it and
/// what the server is asked.
fn obey(window: &mut Workspace) -> (Vec<Effect>, Vec<Request>) {
    let mut rest = Vec::new();
    let mut asked = Vec::new();
    while !window.outbox.is_empty() {
        for effect in std::mem::take(&mut window.outbox) {
            let (id, order) = match effect {
                Effect::Tell(id, order) => (id, order),
                other => {
                    rest.push(other);
                    continue;
                }
            };
            let effects = window.obey(id, order);
            asked.extend(hear(window, id, effects));
        }
    }
    (rest, asked)
}

fn opened(database: &str) -> Opened {
    Opened {
        connection: Live {
            version: "16.4 (Homebrew)".to_string(),
            capabilities: Capabilities::postgres(),
        },
        catalog: Catalog::Sql(snapshot(database)),
        roles: None,
    }
}

/// A window on a live connection.
fn live() -> Workspace {
    let mut window = quiet();
    window.open_connection(config(1, "app"));
    let (_, asked) = obey(&mut window);
    assert!(asked.iter().any(|request| matches!(request, Request::Connect { .. })));
    let id = window.session.expect("a session");
    let effects = window.sessions[id].session.connected(Ok(opened("app")));
    hear(&mut window, id, effects);
    obey(&mut window);
    assert!(window.is_connected());
    window
}

fn answer(window: &mut Workspace, outcome: Result<Outcome, DbError>) -> (Vec<Effect>, Vec<Request>) {
    let id = window.session.expect("a session");
    let effects = window.sessions[id].session.ran(Ok(Answer {
        outcome,
        elapsed: 7_000_000,
        notices: Vec::new(),
    }));
    let mut asked = hear(window, id, effects);
    let (rest, more) = obey(window);
    asked.extend(more);
    (rest, asked)
}

fn rows(id: u64, count: usize) -> Result<Outcome, DbError> {
    Ok(Outcome::Rows { rows: Rows { id, count }, truncated: false })
}

fn titles(window: &Workspace) -> Vec<String> {
    let pane = &window.panes[window.active_at()];
    pane.tabs.iter().map(|tab| tab.title.clone()).collect()
}

fn sent(asked: &[Request]) -> Vec<String> {
    asked
        .iter()
        .filter_map(|request| match request {
            Request::Query(sql) => Some(sql.clone()),
            _ => None,
        })
        .collect()
}

#[test]
fn a_window_with_nowhere_to_go_shows_the_sample() {
    let window = Workspace::new(start());
    assert_eq!(titles(&window), ["mrr_by_plan.sql", "users"]);
    assert_eq!(window.panes[0].console, "select 1");
    assert_eq!(window.sessions.len(), 0);
}

#[test]
fn a_window_that_is_told_where_to_go_starts_empty() {
    let mut at = start();
    at.told_where = true;
    let window = Workspace::new(at);
    assert!(titles(&window).is_empty());
}

#[test]
fn a_window_comes_back_as_it_was_left() {
    let mut at = start();
    let mut tab = CenterTab::script("revenue", None);
    tab.sql = "select 42".to_string();
    at.restored = Some(vec![(vec![CenterTab::script("costs", None), tab], 1)]);
    at.connection = Some(1);
    at.database = Some("app".to_string());
    let window = Workspace::new(at);
    assert_eq!(titles(&window), ["costs", "revenue"]);
    assert_eq!(window.panes[0].active_tab, 1);
    assert_eq!(window.panes[0].console, "select 42");
    assert_eq!(window.reopen, Some(1));
}

#[test]
fn a_window_that_is_not_to_come_back_does_not() {
    let mut at = start();
    at.settings.set_restore_session(false);
    at.restored = Some(vec![(vec![CenterTab::script("costs", None)], 0)]);
    at.connection = Some(1);
    let window = Workspace::new(at);
    assert_eq!(titles(&window), ["mrr_by_plan.sql", "users"]);
    assert_eq!(window.reopen, None);
}

#[test]
fn a_statement_without_a_connection_says_what_to_do() {
    let mut window = quiet();
    window.run("select 1".to_string());
    let error = window.panes[0].error.as_ref().expect("an error");
    assert_eq!(error.class, ErrorClass::Connection);
    assert_eq!(error.message, "Not connected. Choose a connection in the sidebar.");
    assert_eq!(window.run_action(), RunAction::Offline);
}

#[test]
fn a_statement_is_sent_and_its_rows_are_shown() {
    let mut window = live();
    assert_eq!(window.run_action(), RunAction::Run);
    window.run("select 1".to_string());
    let (rest, asked) = obey(&mut window);
    assert_eq!(sent(&asked), ["select 1"]);
    assert!(rest.iter().any(|e| matches!(e, Effect::Record(1, sql) if sql == "select 1")));
    assert!(window.is_running());
    assert_eq!(window.run_action(), RunAction::Cancel);
    assert_eq!(window.running_pane(), Some(0));
    let (rest, _) = answer(&mut window, rows(5, 20));
    assert!(rest.iter().any(|e| matches!(e, Effect::SetGrid(0, Some(Rows { id: 5, count: 20 })))));
    assert_eq!(window.panes[0].row_count, 20);
    assert_eq!(window.running_pane(), None);
    let message = window.messages.last().expect("a message");
    assert_eq!((message.text.as_str(), message.at_ms), ("20 rows", 1000));
    assert!(matches!(message.tone, MessageTone::Done));
}

#[test]
fn a_failure_is_written_where_it_happened() {
    let mut window = live();
    window.run_console("select oops".to_string(), 10);
    obey(&mut window);
    let mut error = DbError::new(ErrorClass::Server, "no such column");
    error.offset = Some(7);
    let (rest, _) = answer(&mut window, Err(error));
    assert!(rest.iter().any(|e| matches!(e, Effect::MarkError(0, 17))), "{rest:?}");
    assert_eq!(window.panes[0].error.as_ref().unwrap().message, "no such column");
    assert!(matches!(window.messages.last().unwrap().tone, MessageTone::Failed));
}

#[test]
fn a_script_stops_at_its_first_failure() {
    let mut window = live();
    let script = |list: &[&str]| {
        list.iter()
            .enumerate()
            .map(|(i, sql)| Queued { sql: sql.to_string(), origin: i * 10 })
            .collect::<Vec<_>>()
    };
    window.run_console_all(script(&["select 1", "select 2", "select 3"]));
    let (_, asked) = obey(&mut window);
    assert_eq!(sent(&asked), ["select 1"]);
    let (_, asked) = answer(&mut window, rows(1, 1));
    assert_eq!(sent(&asked), ["select 2"]);
    let (_, asked) = answer(&mut window, Err(DbError::new(ErrorClass::Server, "no")));
    assert!(sent(&asked).is_empty());
    assert!(window.panes[0].queue.is_empty());
    window.run_console_all(script(&["select 4", "select 5"]));
    obey(&mut window);
    answer(&mut window, rows(4, 1));
    answer(&mut window, rows(5, 2));
    assert_eq!(window.panes[0].results.len(), 2);
    assert_eq!(window.panes[0].result_index, 1);
    window.show_result(0);
    assert_eq!(window.panes[0].result_index, 0);
}

#[test]
fn browsing_a_table_opens_one_tab_for_it() {
    let mut window = live();
    let users = RelationRef::new("public", "users");
    window.open_relation(&users);
    let (rest, _) = obey(&mut window);
    assert!(rest.iter().any(|e| matches!(e, Effect::Browse(r) if r.name == "users")));
    assert_eq!(window.panes[0].active().unwrap().kind, CenterKind::Table);
    assert_eq!(window.run_action(), RunAction::Reload);
    let count = titles(&window).len();
    window.open_relation(&users);
    assert_eq!(titles(&window).len(), count, "a table has one tab");
    window.browse(&Browse {
        schema: "public".to_string(),
        name: "users".to_string(),
        predicate: String::new(),
        order: None,
        key: Vec::new(),
    });
    let (_, asked) = obey(&mut window);
    assert_eq!(sent(&asked), ["select * from public.users limit 1000"]);
}

#[test]
fn pages_are_turned_and_a_sort_starts_over() {
    let mut window = live();
    window.open_relation(&RelationRef::new("public", "users"));
    obey(&mut window);
    window.show_page(2);
    assert_eq!(window.panes[0].active().unwrap().page, Some(2));
    let (rest, _) = obey(&mut window);
    assert!(rest.iter().any(|e| matches!(e, Effect::Browse(_))));
    window.apply_sort(Some(Sort { col: 0, descending: true }), Rows { id: 1, count: 1 });
    let (rest, _) = obey(&mut window);
    assert!(!rest.is_empty());
}

#[test]
fn conditions_are_built_chip_by_chip() {
    let mut window = live();
    window.open_relation(&RelationRef::new("public", "users"));
    obey(&mut window);
    window.open_chip(None, "plan".to_string());
    assert!(window.panes[0].composer.is_some());
    window.set_chip_column("email".to_string());
    window.panes[0].chip_value = "a@b.c".to_string();
    window.commit_chip(true);
    let filter = &window.panes[0].active().unwrap().filter;
    assert_eq!(filter.chips.len(), 1);
    assert_eq!(filter.chips[0].column, "email");
    assert_eq!(filter.chips[0].value, "a@b.c");
    assert!(window.panes[0].composer.is_none());
    window.flip_join(0);
    assert!(matches!(window.panes[0].active().unwrap().filter.chips[0].join, Join::Or));
    window.remove_chip(0);
    assert!(window.panes[0].active().unwrap().filter.chips.is_empty());
    window.open_chip(None, "plan".to_string());
    window.close_chip();
    assert!(window.panes[0].composer.is_none());
}

#[test]
fn a_filter_is_turned_into_words_and_cleared() {
    let mut window = live();
    window.open_relation(&RelationRef::new("public", "users"));
    window.toggle_filter_mode("plan = 'pro'".to_string());
    let filter = &window.panes[0].active().unwrap().filter;
    assert!(filter.raw);
    assert_eq!(filter.text, "plan = 'pro'");
    window.clear_filter();
    assert_eq!(window.panes[0].active().unwrap().filter.text, "");
}

#[test]
fn closing_tabs_keeps_the_pinned_ones() {
    let mut window = quiet();
    window.new_query_tab();
    window.new_query_tab();
    assert_eq!(titles(&window).len(), 3);
    window.toggle_pin(2);
    assert!(window.panes[0].tabs[0].pinned, "a pinned tab goes to the front");
    assert_eq!(window.panes[0].active_tab, 0);
    window.close_tabs_where(Closing::Others(1));
    assert_eq!(titles(&window).len(), 2, "the pinned one stays");
    window.close_tab(1);
    assert_eq!(titles(&window).len(), 1);
}

#[test]
fn closing_the_last_tab_leaves_an_empty_pane() {
    let mut window = quiet();
    window.close_tab(0);
    assert!(titles(&window).is_empty());
    assert_eq!(window.panes.len(), 1);
    window.close_tab(0);
    window.activate_tab(4);
    assert!(titles(&window).is_empty());
}

#[test]
fn a_script_is_put_back_when_its_tab_is() {
    let mut window = quiet();
    window.panes[0].console = "select 1".to_string();
    window.new_query_tab();
    assert_eq!(window.panes[0].console, "");
    window.panes[0].console = "select 2".to_string();
    window.activate_tab(0);
    assert_eq!(window.panes[0].console, "select 1");
    window.activate_tab(1);
    assert_eq!(window.panes[0].console, "select 2");
}

#[test]
fn panes_are_split_and_closed_again() {
    let mut window = quiet();
    window.split_pane();
    assert_eq!(window.panes.len(), 2);
    assert_eq!(window.layout.len(), 2);
    let second = window.active_pane;
    assert_ne!(second, 0);
    window.activate_pane(0);
    assert_eq!(window.active_pane, 0);
    window.close_pane(second);
    assert_eq!(window.panes.len(), 1);
    window.close_pane(0);
    assert_eq!(window.panes.len(), 1, "the last pane stays");
    assert!(window.in_order());
    window.active_pane = 9;
    assert!(!window.in_order());
}

#[test]
fn a_layout_that_cannot_be_read_shows_the_first_pane() {
    let tabs = |title: &str| (vec![CenterTab::script(title, None)], 0);
    let mut at = start();
    at.restored = Some(vec![tabs("left"), tabs("right")]);
    at.layout = Some(vec![1, 0]);
    at.active_pane = 1;
    let window = Workspace::new(at);
    assert_eq!((window.layout.as_slice(), window.active_pane), (&[1, 0][..], 1));
    for layout in [None, Some(vec![0]), Some(vec![0, 0]), Some(vec![0, 2])] {
        let mut at = start();
        at.restored = Some(vec![tabs("left"), tabs("right")]);
        at.layout = layout;
        at.active_pane = 7;
        assert!(at.is_buildable());
        let mut window = Workspace::new(at);
        assert_eq!((window.layout.as_slice(), window.active_pane), (&[0][..], 0));
        assert_eq!(window.panes.len(), 2);
        assert!(window.in_order());
        // A pane that is out of sight has no room to share or to hand back.
        window.activate_pane(1);
        window.split_pane();
        window.close_pane(1);
        window.close_pane(0);
        assert_eq!((window.panes.len(), window.layout.len()), (2, 1));
        window.activate_pane(0);
        window.split_pane();
        assert_eq!((window.panes.len(), window.layout.as_slice()), (3, &[0, 2][..]));
        assert!(window.in_order());
    }
    let mut at = start();
    at.restored = Some(Vec::new());
    assert!(!at.is_buildable());
    at.settings.set_restore_session(false);
    assert!(at.is_buildable());
}

#[test]
fn a_window_boots_on_its_first_frame_and_no_other() {
    let mut window = quiet();
    let switches = Switches { sidebar: Some("queries".to_string()), ..unset() };
    assert!(window.begin_frame(&switches, &facts(), Destination::To(config(1, "app"))));
    assert!(window.booted);
    assert!(matches!(window.outbox[0], Effect::Focus(Focus::Console)));
    assert!(matches!(window.sidebar_tab, SidebarTab::Queries));
    assert!(window.session.is_some());
    window.outbox.clear();
    let switches = Switches { sidebar: Some("history".to_string()), ..unset() };
    assert!(!window.begin_frame(&switches, &facts(), Destination::Unset));
    assert!(window.outbox.is_empty());
    assert!(matches!(window.sidebar_tab, SidebarTab::Queries));
}

#[test]
fn a_design_is_counted_by_its_statements() {
    let mut window = live();
    let id = window.session.unwrap();
    let list = vec!["alter table a".to_string(), "alter table b".to_string()];
    let effects = window.obey(id, Order::Commit(list));
    let sent: Vec<_> = effects
        .iter()
        .filter_map(|effect| match effect {
            SessionEffect::Ask(Request::Commit(list)) => Some(list),
            _ => None,
        })
        .flatten()
        .map(|statement| (statement.sql.as_str(), statement.expect_rows))
        .collect();
    assert_eq!(sent, [("alter table a", None), ("alter table b", None)]);
    window.answer(id, Reply::Applied(Ok((None, 4))));
    let commit = window.sessions[id].session.last_apply.as_ref().expect("a commit");
    assert_eq!(commit.counts, Counts { inserts: 0, updates: 0, deletes: 0, ddl: 2 });
    assert!(window.obey(9, Order::Refresh).is_empty());
    assert!(window.answer(9, Reply::Applied(Ok((None, 4)))).is_empty());
}

#[test]
fn a_pinned_tab_goes_behind_the_other_pinned_ones() {
    let mut window = quiet();
    for title in ["b", "c", "d"] {
        window.new_query_tab();
        window.panes[0].tabs.last_mut().unwrap().title = title.to_string();
    }
    window.panes[0].tabs[0].title = "a".to_string();
    let strip = |window: &Workspace| -> Vec<(String, bool)> {
        window.panes[0].tabs.iter().map(|tab| (tab.title.clone(), tab.pinned)).collect()
    };
    let of = |list: &[(&str, bool)]| -> Vec<(String, bool)> {
        list.iter().map(|(title, on)| (title.to_string(), *on)).collect()
    };
    window.toggle_pin(2);
    assert_eq!(strip(&window), of(&[("c", true), ("a", false), ("b", false), ("d", false)]));
    window.toggle_pin(3);
    assert_eq!(strip(&window), of(&[("c", true), ("d", true), ("a", false), ("b", false)]));
    assert_eq!(window.panes[0].active_tab, 1, "the tab that showed still shows");
    window.toggle_pin(0);
    assert_eq!(strip(&window), of(&[("d", true), ("c", false), ("a", false), ("b", false)]));
    assert_eq!(window.panes[0].active_tab, 0);
    window.toggle_pin(9);
    assert_eq!(strip(&window), of(&[("d", true), ("c", false), ("a", false), ("b", false)]));
}

#[test]
fn what_is_closable_is_not_pinned() {
    let mut pinned = CenterTab::script("a", None);
    pinned.pinned = true;
    let tabs = vec![pinned, CenterTab::script("b", None), CenterTab::script("c", None)];
    assert_eq!(closable(&tabs, |_, _| true), [1, 2]);
    assert_eq!(closable(&tabs, |index, _| index == 2), [2]);
}

#[test]
fn the_menu_of_a_tab_offers_what_it_can_do() {
    let mut window = quiet();
    window.new_query_tab();
    assert!(window.render_tab_menu().is_none());
    window.open_tab_menu(0, 0);
    let menu = window.render_tab_menu().expect("a menu");
    let off: Vec<_> = menu
        .entries
        .iter()
        .filter_map(|entry| match entry {
            Entry::Item(item) if item.disabled => Some(item.label.clone()),
            _ => None,
        })
        .collect();
    assert_eq!(off.len(), 1, "there is nothing to the left of the first tab: {off:?}");
    window.choose_tab_item(TabItem::CloseRight, 0);
    assert_eq!(titles(&window).len(), 1);
    assert!(window.render_tab_menu().is_none());
    window.open_tab_menu(0, 0);
    window.close_tab_menu();
    assert!(window.render_tab_menu().is_none());
}

#[test]
fn a_query_is_saved_under_the_name_it_is_given() {
    let mut window = live();
    window.panes[0].console = "select 1".to_string();
    window.save_query(5);
    assert!(window.surfaces.save_sheet);
    assert!(!window.accepts_commands(), "a sheet is a question");
    assert!(window
        .outbox
        .iter()
        .any(|e| matches!(e, Effect::NameQuery { suggested, .. } if suggested == "select 1")));
    window.outbox.clear();
    window.on_save_sheet_event(SaveSheetEvent::Named("Revenue".to_string()), 77, 6);
    assert!(!window.surfaces.save_sheet);
    let saved = std::mem::take(&mut window.outbox)
        .into_iter()
        .find_map(|e| match e {
            Effect::SaveQuery(query) => Some(query),
            _ => None,
        })
        .expect("a query to save");
    assert_eq!((saved.id, saved.name.as_str(), saved.updated_at), (77, "Revenue", 6));
    assert_eq!(saved.connection, Some(1));
    window.query_written("Revenue".to_string(), 77);
    assert_eq!(titles(&window), ["Revenue"]);
    window.reload_lists(Some(vec![saved]));
    assert_eq!(window.saved.len(), 1);
    window.outbox.clear();
    window.panes[0].console = "select 2".to_string();
    window.save_query(9);
    assert!(
        window.outbox.iter().any(|e| matches!(e, Effect::SaveQuery(q) if q.id == 77 && q.sql == "select 2")),
        "a second save replaces the first"
    );
    let items = window.palette_items(&vec![Command::Run]);
    let item = items
        .iter()
        .find(|item| matches!(item.offer, Offer::Query { id: 77, .. }))
        .expect("the query");
    let face = item.face.as_ref().expect("a face");
    assert_eq!((face.title.as_str(), face.icon), ("Revenue", IconName::Code));
    assert_eq!(face.detail.as_deref(), Some("saved"));
}

#[test]
fn a_saved_query_is_loaded_and_deleted() {
    let mut window = live();
    window.saved = vec![SavedQuery {
        id: 77,
        connection: None,
        name: "Revenue".to_string(),
        sql: "select 9".to_string(),
        updated_at: 0,
    }];
    window.load_saved_query(0);
    assert_eq!(window.panes[0].console, "select 9");
    assert_eq!(window.render_query_list().len(), 1);
    assert!(window.render_query_list()[0].anywhere);
    window.outbox.clear();
    window.delete_saved_query(0);
    assert!(window.outbox.iter().any(|e| matches!(e, Effect::DeleteQuery(77))));
    window.query_deleted(77);
    assert!(window.panes[0].tabs.iter().all(|tab| tab.saved_query != Some(77)));
    window.delete_saved_query(40);
    window.load_query(77);
}

#[test]
fn another_database_is_another_tab() {
    let mut window = live();
    let tabs = titles(&window).len();
    window.open_database("app_test");
    assert_eq!(titles(&window).len(), tabs + 1);
    assert_eq!(window.sessions.len(), 2);
    assert_eq!(window.current_location(), ("—".to_string(), "—".to_string()));
    let (_, asked) = obey(&mut window);
    assert!(asked.iter().any(|r| matches!(r, Request::Connect { config, .. } if config.database == "app_test")));
    let id = window.session.unwrap();
    let effects = window.sessions[id].session.connected(Ok(opened("app_test")));
    hear(&mut window, id, effects);
    assert_eq!(window.current_location(), ("app_test".to_string(), "public".to_string()));
    window.open_database("app_test");
    assert_eq!(window.sessions.len(), 2, "it is there already");
}

#[test]
fn switching_moves_the_tab_and_asks_for_its_table_again() {
    let mut window = live();
    window.open_relation(&RelationRef::new("public", "users"));
    obey(&mut window);
    let tabs = titles(&window).len();
    window.open_database_menu();
    assert!(window.render().over.contains(&Layer::DatabaseMenu));
    let menu = window.render_database_menu().expect("a menu");
    assert_eq!(menu.width, DATABASE_MENU_WIDTH);
    assert_eq!(icons(&menu), [Some(IconName::Check), Some(IconName::Database)]);
    window.choose_database("app_test");
    assert_eq!(titles(&window).len(), tabs);
    assert!(window.pending.rebrowse.is_some());
    obey(&mut window);
    let id = window.session.unwrap();
    let effects = window.sessions[id].session.connected(Ok(opened("app_test")));
    hear(&mut window, id, effects);
    let (rest, _) = obey(&mut window);
    assert!(rest.iter().any(|e| matches!(e, Effect::Browse(r) if r.name == "users")));
    assert!(window.pending.rebrowse.is_none());
}

#[test]
fn a_deleted_connection_takes_its_sessions_with_it() {
    let mut window = live();
    window.delete_connection(1);
    assert_eq!(window.session, None);
    assert!(window.tree.is_empty());
    assert!(!window.sessions[0].open);
    assert!(window.panes[0].tabs.iter().all(|tab| tab.session.is_none()));
    assert!(!window.is_connected());
}

#[test]
fn a_reference_is_followed_to_the_row_it_names() {
    let mut window = live();
    window.open_relation(&RelationRef::new("public", "orders"));
    obey(&mut window);
    let held = vec![
        HeldColumn { name: "id".to_string(), literal: Some("9".to_string()) },
        HeldColumn { name: "user_id".to_string(), literal: Some("42".to_string()) },
    ];
    assert!(window.reference_target(1, &held).is_none(), "no row is selected");
    window.panes[0].selected_row = Some(0);
    assert!(window.reference_target(0, &held).is_none());
    assert_eq!(window.reference_target(1, &held).unwrap().name, "users");
    window.follow_reference_in(1, &held);
    let tab = window.panes[0].active().unwrap();
    assert_eq!(tab.relation.as_ref().unwrap().name, "users");
    assert!(tab.filter.raw);
    assert_eq!(tab.filter.text, "id = 42");
}

#[test]
fn an_empty_reference_points_nowhere() {
    let catalog = snapshot("app");
    let orders = catalog.relation(&RelationRef::new("public", "orders")).expect("orders");
    let null = vec![HeldColumn { name: "user_id".to_string(), literal: None }];
    assert!(reference_in(orders, &null, "user_id").is_none());
    let full = vec![HeldColumn { name: "user_id".to_string(), literal: Some("42".to_string()) }];
    let (target, predicate) = reference_in(orders, &full, "user_id").expect("a reference");
    assert_eq!(target.qualified(), "public.users");
    assert_eq!(predicate, "id = 42");
    assert!(catalog.relation(&RelationRef::new("public", "gone")).is_none());
}

#[test]
fn a_click_on_a_row_does_what_the_row_is_for() {
    let mut window = live();
    let users = window.tree.iter().find(|n| n.name == "users").expect("users").id;
    let tabs = titles(&window).len();
    match window.click_row(users, String::new(), String::new()) {
        Click::Open(connection, database, _) => {
            assert_eq!(connection, 0);
            assert_eq!(database.as_deref(), Some("app"));
        }
        _ => panic!("a table opens"),
    }
    assert_eq!(window.selected_node, Some(users));
    assert_eq!(titles(&window).len(), tabs + 1, "a table opens on the first click");
    assert_eq!(titles(&window).last().map(String::as_str), Some("users"));
    let tables = window.tree.iter().find(|n| n.name == "tables").expect("tables").id;
    let folded = window.collapsed.contains(&tables);
    window.toggle_row(tables);
    assert_ne!(window.collapsed.contains(&tables), folded);
    window.toggle_row(tables);
    assert_eq!(window.collapsed.contains(&tables), folded);
    let other = window.tree.iter().find(|n| n.name == "app_test").expect("app_test").id;
    assert!(matches!(window.render_database_tab("", &Vec::new()), DatabaseTab::Tree(_)));
    assert!(matches!(window.render_database_tab("zzz", &Vec::new()), DatabaseTab::NoMatches));
    window.click_row_secondary(users);
    let click = window.click_row(other, String::new(), String::new());
    assert!(matches!(click, Click::Database(0, _, name) if name == "app_test"));
    assert_eq!(window.sessions.len(), 2, "and so does a database");
}

#[test]
fn the_status_bar_says_what_came_back() {
    let mut window = live();
    let bar = window.status_bar(true, false, (4, 7));
    assert!(matches!(bar.dot, Dot::Success));
    assert!(bar.server.contains("16.4") && !bar.server.contains("Homebrew"), "{}", bar.server);
    window.run("select 1".to_string());
    obey(&mut window);
    answer(&mut window, rows(1, 20_000));
    assert!(window.status_bar(true, false, (4, 7)).outcome.is_none(), "the grid says it");
    let bar = window.status_bar(false, false, (4, 7));
    assert_eq!(bar.outcome.expect("an outcome").count, "20,000 rows");
    assert_eq!(bar.caret.as_deref(), Some("Ln 5, Col 8"));
    assert!(matches!(quiet().status_bar(true, false, (0, 0)).dot, Dot::Disabled));
}

#[test]
fn a_frame_is_made_of_what_is_open() {
    let mut window = quiet();
    window.left_open = true;
    window.right_open = false;
    let frame = window.render();
    assert!(frame.regions.contains(&Region::Sidebar));
    assert!(!frame.regions.contains(&Region::Inspector));
    assert!(frame.over.is_empty());
    window.toggle_left_panel();
    assert!(!window.left_open);
    assert!(!window.render().regions.contains(&Region::Sidebar));
    window.toggle_right_panel();
    assert!(window.render().regions.contains(&Region::Inspector));
    window.open_palette(PaletteMode::All);
    window.surfaces.palette = true;
    assert!(window.render().over.contains(&Layer::Palette));
    assert!(!window.titlebar().render().left.is_empty());
}

fn stroke(key: &str, shift: bool) -> Keystroke {
    Keystroke { key: key.to_string(), platform: true, control: false, alt: false, shift }
}

#[test]
fn keys_ask_for_commands_unless_something_is_over_the_window() {
    let mut window = quiet();
    assert_eq!(window.key_action(&stroke("k", false)), KeyAction::OpenPalette(PaletteMode::All));
    assert_eq!(window.key_action(&stroke("t", false)), KeyAction::Command(Command::NewTab));
    assert_eq!(window.key_action(&stroke("d", true)), KeyAction::Command(Command::SplitDown));
    assert_eq!(window.key_action(&stroke("q", false)), KeyAction::Pass);
    assert!(window.accepts_commands());
    window.surfaces.save_sheet = true;
    assert!(!window.accepts_commands());
    let tabs = titles(&window).len();
    window.on_menu_action(MenuAction::Command(Command::NewTab), 0);
    assert_eq!(titles(&window).len(), tabs, "a sheet keeps the menu from the window");
    window.surfaces.save_sheet = false;
    window.on_menu_action(MenuAction::Command(Command::NewTab), 0);
    assert_eq!(titles(&window).len(), tabs + 1);
}

#[test]
fn commands_do_what_they_say() {
    let mut window = quiet();
    window.run_command(Command::ToggleSidebar, 0);
    let open = window.left_open;
    window.run_command(Command::ToggleSidebar, 0);
    assert_ne!(window.left_open, open);
    window.run_command(Command::ShowHistory, 0);
    assert!(matches!(window.sidebar_tab, SidebarTab::History));
    window.run_command(Command::ShowMessages, 0);
    assert!(matches!(window.panes[0].results_tab, ResultsTab::Messages));
    window.run_command(Command::CloseTab, 0);
    assert!(titles(&window).is_empty());
    window.pick_sidebar_tab(SidebarTab::Queries);
    assert!(matches!(window.sidebar_tab, SidebarTab::Queries));
    let dock = window.dock_open;
    window.toggle_bottom_dock();
    assert_ne!(window.dock_open, dock);
}

#[test]
fn the_palette_previews_before_it_chooses() {
    let mut window = quiet();
    window.on_palette_event(&PaletteEvent::Preview(Appearance::Light), Appearance::Dark, 0);
    assert_eq!(window.settings.appearance(), None);
    window.outbox.clear();
    window.on_palette_event(
        &PaletteEvent::Chose(PaletteAction::Theme(Appearance::Light)),
        Appearance::Dark,
        0,
    );
    assert_eq!(window.settings.appearance(), Some(Appearance::Light));
    assert!(window.outbox.iter().any(|e| matches!(e, Effect::SaveSettings)));
    window.outbox.clear();
    window.perform(&PaletteAction::GoToLine(12), Appearance::Dark, 0);
    assert!(window.outbox.iter().any(|e| matches!(e, Effect::GoToLine(_))));
}

#[test]
fn every_pane_is_dressed_alike() {
    let mut window = quiet();
    window.split_pane();
    window.outbox.clear();
    window.update_settings(&Choice::Turn(Knob::LineNumbers, false), Appearance::Dark);
    let dressed: Vec<_> = window
        .outbox
        .iter()
        .filter_map(|e| match e {
            Effect::Dress { pane, line_numbers, density, .. } => Some((*pane, *line_numbers, *density)),
            _ => None,
        })
        .collect();
    assert_eq!(dressed.len(), 2);
    assert!(dressed.iter().all(|(_, on, density)| !on && *density == Density::Default));
    assert_eq!(first_appearance(&Settings::default(), false, Appearance::Dark), Appearance::Dark);
}

fn unset() -> Switches {
    Switches {
        sidebar: None,
        results_tab: None,
        inspector: None,
        page: None,
        page_size: None,
        expand: None,
        filter: None,
        filter_raw: false,
        composer: false,
        open: None,
        key: None,
        switch: None,
        after: None,
        keychain: None,
        follow: false,
        cell: None,
        menu: None,
        sheet: None,
        design: None,
        design_sheet: false,
        decoder: None,
        complete: None,
        switcher: false,
    }
}

fn facts() -> FilterFacts {
    FilterFacts { words: Vec::new(), spelled: String::new(), first_column: String::new() }
}

#[test]
fn a_launch_can_name_what_it_wants() {
    let mut window = quiet();
    let switches = Switches {
        sidebar: Some("history".to_string()),
        open: Some("public.users,public.gone".to_string()),
        ..unset()
    };
    window.boot_from_environment(&switches, &facts(), Destination::To(config(1, "app")));
    assert!(matches!(window.sidebar_tab, SidebarTab::History));
    let (_, asked) = obey(&mut window);
    assert!(asked.iter().any(|request| matches!(request, Request::Connect { .. })));
    let id = window.session.unwrap();
    let effects = window.sessions[id].session.connected(Ok(opened("app")));
    hear(&mut window, id, effects);
    let (rest, _) = obey(&mut window);
    assert!(rest.iter().any(|e| matches!(e, Effect::Browse(r) if r.name == "users")));
    assert!(titles(&window).contains(&"gone".to_string()));
}

#[test]
fn keys_are_walked_and_read() {
    let mut window = quiet();
    let mut redis = config(2, "0");
    redis.capabilities = Capabilities::redis();
    window.open_connection(redis);
    obey(&mut window);
    let id = window.session.unwrap();
    let effects = window.sessions[id].session.connected(Ok(Opened {
        connection: Live { version: "7.2.4".to_string(), capabilities: Capabilities::redis() },
        catalog: Catalog::Keyspace(Keyspace {
            databases: vec![KeyDatabase { index: 0, keys: 1 }],
            current: 0,
        }),
        roles: None,
    }));
    hear(&mut window, id, effects);
    let (_, asked) = obey(&mut window);
    assert!(asked.iter().any(|r| matches!(r, Request::Keys { .. })));
    assert!(!window.keys_settled());
    let effects = window.sessions[id].session.listed(Ok(Listing {
        keys: vec![KeyInfo {
            key: b"a:b".to_vec(),
            drawn: "a:b".to_string(),
            kind: KeyType::Text,
            ttl: None,
            time_left: String::new(),
        }],
        more: None,
    }));
    hear(&mut window, id, effects);
    obey(&mut window);
    assert!(window.keys_settled());
    window.open_key(b"a:b".to_vec(), KeyType::Text, "a:b".to_string(), "string".to_string());
    let (_, asked) = obey(&mut window);
    assert!(asked.iter().any(|r| matches!(r, Request::ReadKey { .. })));
    assert!(!window.keys_settled());
    let effects = window.sessions[id].session.key_read(Ok(KeyPage {
        facts: None,
        page: Ok((Rows { id: 8, count: 1 }, None)),
    }));
    hear(&mut window, id, effects);
    let (rest, _) = obey(&mut window);
    assert!(window.keys_settled());
    assert!(rest.iter().any(|e| matches!(e, Effect::SetGrid(_, Some(Rows { id: 8, .. })))));
}

#[test]
fn a_design_is_previewed_sent_and_adopted() {
    let mut window = live();
    let users = RelationRef::new("public", "users");
    window.open_structure(&users, 3);
    assert_eq!(window.panes[0].active().unwrap().kind, CenterKind::Structure);
    window.sync_structure_tab(3, "people", "public", true, &Some(users.clone()));
    assert!(titles(&window).contains(&"people".to_string()));
    window.preview_structure(StructurePreview {
        editor: 3,
        statements: vec!["ALTER TABLE public.users RENAME TO people".to_string()],
        creating: false,
        from: Some(users.clone()),
        to: RelationRef::new("public", "people"),
    });
    assert!(window.structure_preview.is_some());
    window.cancel_structure_preview();
    assert!(window.structure_preview.is_none());
    window.preview_structure(StructurePreview {
        editor: 3,
        statements: vec!["ALTER TABLE public.users RENAME TO people".to_string()],
        creating: false,
        from: Some(users),
        to: RelationRef::new("public", "people"),
    });
    window.commit_structure();
    let (_, asked) = obey(&mut window);
    assert!(asked.iter().any(|r| matches!(r, Request::Commit(list) if list.len() == 1)));
    assert!(window.pending_structure.is_some());
    let id = window.session.unwrap();
    let effects = window.answer(id, Reply::Applied(Ok((None, 4))));
    hear(&mut window, id, effects);
    obey(&mut window);
    let commit = window.sessions[id].session.last_apply.as_ref().expect("a commit");
    assert_eq!(commit.counts, Counts { inserts: 0, updates: 0, deletes: 0, ddl: 1 });
    window.new_table(4);
    assert_eq!(window.panes[0].active().unwrap().structure, Some(4));
}

#[test]
fn a_menu_over_the_filter_ticks_what_is_chosen() {
    let mut window = live();
    window.open_relation(&RelationRef::new("public", "users"));
    window.open_chip(None, "plan".to_string());
    window.open_filter_menu(FilterMenu::Column);
    assert!(window.render().over.contains(&Layer::FilterMenu));
    let columns = vec!["email".to_string(), "plan".to_string()];
    let words = vec!["=".to_string(), "is null".to_string()];
    let menu = window.render_filter_menu(&columns, &words).expect("a menu");
    assert_eq!(icons(&menu), [Some(IconName::Columns), Some(IconName::Check)]);
    window.choose_column("email".to_string());
    assert!(window.surfaces.filter_menu.is_none());
    assert!(window.render_filter_menu(&columns, &words).is_none());
    window.open_filter_menu(FilterMenu::Op);
    let menu = window.render_filter_menu(&columns, &words).expect("a menu");
    assert_eq!(icons(&menu), [Some(IconName::Check), Some(IconName::Filter)]);
    window.close_filter_menu();
    assert!(window.surfaces.filter_menu.is_none());
    window.open_filter_menu(FilterMenu::Op);
    window.panes[0].composer = None;
    assert!(window.render().over.is_empty(), "a menu about nothing is not drawn");
}

#[test]
fn a_filter_can_be_opened_with_a_table() {
    let mut window = live();
    let filter = Filter { raw: true, text: "id = 1".to_string(), chips: Vec::new() };
    window.open_relation_filtered(&RelationRef::new("public", "users"), Some(filter));
    assert_eq!(window.panes[0].active().unwrap().filter.text, "id = 1");
    window.cursor_moved(0, 3, 2);
    assert_eq!((window.panes[0].selected_row, window.panes[0].selected_column), (Some(3), 2));
    window.touch_pane(0);
    assert_eq!(window.active_pane, 0);
    window.focus_origin(1, &Some("app".to_string()));
    assert!(window.is_connected());
}

#[test]
fn a_report_lands_in_the_pane_it_came_from() {
    let mut window = live();
    window.split_pane();
    let second = window.active_pane;
    assert_ne!(second, 0);
    window.outbox.clear();
    window.on_pane_event(0, PaneEvent::Activated, 0);
    assert_eq!(window.active_pane, second, "a cell pressed twice asks for nothing");
    window.on_pane_event(0, PaneEvent::CursorMoved { row: 4, column: 1 }, 0);
    assert_eq!(window.active_pane, 0);
    assert_eq!(window.pane().selected_row, Some(4));
    assert_eq!(window.pane_by(second).unwrap().selected_row, None);
    assert!(window.pane_by(99).is_none());
    window.on_pane_event(second, PaneEvent::ContextMenu { row: 2, column: 3 }, 0);
    assert!(window.outbox.iter().any(|e| matches!(e, Effect::RowMenu(2, 3))));
    window.on_pane_event(second, PaneEvent::ChangesEdited, 0);
    window.on_pane_event(second, PaneEvent::ClauseEntered, 0);
    window.on_pane_event(second, PaneEvent::ChipEntered { complete: true }, 0);
    window.on_pane_event(second, PaneEvent::ChipAbandoned, 0);
    window.outbox.clear();
    window.on_pane_event(0, PaneEvent::Run { sql: "select 7".to_string(), origin: 3 }, 0);
    let (_, asked) = obey(&mut window);
    assert_eq!(sent(&asked), ["select 7"]);
    answer(&mut window, rows(1, 1));
    let script = vec![Queued { sql: "select 8".to_string(), origin: 0 }];
    window.on_pane_event(0, PaneEvent::RunAll(script), 0);
    let (_, asked) = obey(&mut window);
    assert_eq!(sent(&asked), ["select 8"]);
    answer(&mut window, rows(2, 3));
    let by_first = Some(Sort { col: 0, descending: false });
    window.on_pane_event(0, PaneEvent::SortChanged(by_first, Rows { id: 2, count: 3 }), 0);
    assert!(window.outbox.iter().any(|e| matches!(e, Effect::SortRows(0, Rows { id: 2, .. }, Some(_)))));
    window.outbox.clear();
    window.panes[0].console = "select 9".to_string();
    window.on_pane_event(0, PaneEvent::Save, 5);
    assert!(window.outbox.iter().any(|e| matches!(e, Effect::NameQuery { .. })));
    assert!(window.settings().restore_session());
}

fn draft(name: &str) -> TableDraft {
    TableDraft {
        schema: "public".to_string(),
        name: name.to_string(),
        comment: String::new(),
        columns: Vec::new(),
    }
}

#[test]
fn an_editor_reports_its_changes_and_its_saves() {
    let mut window = live();
    let users = RelationRef::new("public", "users");
    assert_eq!(window.demo_structure(&Some(users.clone()), 3), Some(3));
    let mut editor = StructureEditor::editing(users, draft("users"));
    editor.draft.name = "people".to_string();
    window.on_structure_event(3, &editor, StructureEvent::Changed, Vec::new());
    let tab = window.pane().active().unwrap();
    assert_eq!(tab.title, "people");
    assert!(tab.dirty);
    window.on_structure_event(3, &editor, StructureEvent::Save, Vec::new());
    assert!(window.structure_preview.is_none(), "there is nothing to send");
    let rename = vec!["ALTER TABLE public.users RENAME TO people".to_string()];
    window.on_structure_event(3, &editor, StructureEvent::Save, rename);
    let preview = window.structure_preview.as_ref().expect("a preview");
    assert!(!preview.creating);
    assert_eq!(preview.to.qualified(), "public.people");
    assert_eq!(window.demo_structure(&None, 4), Some(4));
    assert_eq!(window.demo_structure(&Some(RelationRef::new("public", "gone")), 5), Some(4));
}

#[test]
fn a_renamed_table_takes_its_tabs_along() {
    let mut window = live();
    window.split_pane();
    window.outbox.clear();
    window.retarget_tabs(RelationRef::new("public", "users"), None);
    assert!(window
        .outbox
        .iter()
        .any(|e| matches!(e, Effect::Retarget(from, None) if from.name == "users")));
    let asked = window.outbox.iter().filter(|e| matches!(e, Effect::RefreshEditability(_))).count();
    assert_eq!(asked, 2);
    assert!(window.outbox.iter().any(|e| matches!(e, Effect::SaveSession)));
}

fn shelf(scope: HistoryScope) -> HistoryShelf {
    HistoryShelf { entries: Vec::new(), scope, mine: Vec::new(), now: 0, offset: 0 }
}

fn lit(face: &SidebarFace) -> Vec<&str> {
    face.tabs.iter().filter(|tab| tab.active).map(|tab| tab.label.as_str()).collect()
}

#[test]
fn the_left_panel_shows_the_tab_that_is_picked() {
    let mut window = live();
    let face = window.render_sidebar("", &Vec::new(), &shelf(HistoryScope::Everything));
    assert_eq!(lit(&face), ["Database"]);
    assert_eq!(face.scope, None);
    assert!(matches!(face.body, SidebarBody::Database(DatabaseTab::Tree(_))));
    window.pick_sidebar_tab(SidebarTab::History);
    let face = window.render_sidebar("", &Vec::new(), &shelf(HistoryScope::ThisWindow));
    assert_eq!(lit(&face), ["History"]);
    assert_eq!(face.scope, Some(1));
    assert!(matches!(face.body, SidebarBody::History(_)));
    window.pick_sidebar_tab(SidebarTab::Queries);
    let face = window.render_sidebar("", &Vec::new(), &shelf(HistoryScope::Everything));
    assert!(matches!(face.body, SidebarBody::Queries(rows) if rows.is_empty()));
    assert_eq!(render_history_scope(HistoryScope::Everything).0, ["Everything", "This window"]);
}

#[test]
fn a_saved_connection_opens_at_a_click() {
    let mut window = quiet();
    let tags = vec![Tag { connection: 1, paint: Some(Paint::Hue(2)) }];
    match window.render_connections(&tags) {
        ConnectionList::Lines { header, lines } => {
            assert_eq!(header, "Connections");
            assert_eq!(lines.len(), 1);
            assert_eq!(lines[0].color, IconColor::Custom(Paint::Hue(2)));
        }
        ConnectionList::Empty(_) => panic!("there is a connection"),
    }
    window.click_connection(7);
    assert!(window.sessions.is_empty());
    window.click_connection(0);
    assert_eq!(window.sessions.len(), 1);
    obey(&mut window);
    window.connections.push(config(2, "other"));
    window.click_connection(1);
    assert_eq!(window.sessions.len(), 1, "another is on its way");
    window.connections.clear();
    match window.render_connections(&tags) {
        ConnectionList::Empty(EmptyState { title, action, .. }) => {
            assert_eq!(title, "No connections");
            assert_eq!(action.as_deref(), Some("New Connection…"));
        }
        ConnectionList::Lines { .. } => panic!("there is none left"),
    }
}

#[test]
fn a_split_is_made_at_once_and_its_way_handed_on() {
    let mut window = quiet();
    window.run_command(Command::SplitRight, 0);
    assert_eq!((window.panes.len(), window.layout.as_slice()), (2, &[0, 1][..]));
    assert_eq!(window.active_pane, 1);
    assert_eq!(dressed(&window), [1], "a pane has its settings from the start");
    assert!(matches!(window.outbox.last(), Some(Effect::Perform(Command::SplitRight))));
    window.outbox.clear();
    window.run_command(Command::SplitDown, 0);
    assert_eq!(window.layout, [0, 1, 2]);
    assert!(matches!(window.outbox.last(), Some(Effect::Perform(Command::SplitDown))));
    window.next_pane = usize::MAX;
    window.outbox.clear();
    window.run_command(Command::SplitDown, 0);
    assert_eq!((window.panes.len(), window.outbox.len()), (3, 0));
}

#[test]
fn every_pane_a_window_opens_with_is_dressed() {
    let mut at = start();
    let tabs = |name: &str| (vec![CenterTab::script(name, None)], 0);
    at.restored = Some(vec![tabs("left"), tabs("right")]);
    at.layout = Some(vec![0, 1]);
    at.settings.set_line_numbers(false);
    let window = Workspace::new(at);
    assert_eq!(dressed(&window), [0, 1]);
    assert!(window
        .outbox
        .iter()
        .all(|effect| matches!(effect, Effect::Dress { line_numbers: false, .. })));
}

#[test]
fn opening_the_palette_draws_a_frame() {
    let mut window = quiet();
    window.open_palette(PaletteMode::Objects);
    assert!(window.surfaces.palette);
    assert!(matches!(
        window.outbox.as_slice(),
        [Effect::OpenPalette(PaletteMode::Objects), Effect::Notify]
    ));
}

#[test]
fn the_palette_says_what_each_row_is() {
    let window = live();
    let items = window.palette_items(&vec![Command::Run]);
    assert!(matches!(items[0].offer, Offer::Command(Command::Run)));
    assert!(items[0].face.is_none());
    let themes = items[1].face.as_ref().expect("a face");
    assert_eq!((themes.title.as_str(), themes.icon), ("Change Theme…", IconName::Sun));
    assert_eq!(themes.shortcut.as_deref(), Some("#"));
    let line = items[2].face.as_ref().expect("a face");
    assert_eq!((line.title.as_str(), line.icon), ("Go to Line…", IconName::Hashtag));
    assert_eq!(line.shortcut.as_deref(), Some(":"));
    let users = items
        .iter()
        .filter_map(|item| item.face.as_ref())
        .find(|face| face.title == "users")
        .expect("the table");
    assert_eq!((users.icon, users.detail.as_deref()), (IconName::Table, Some("public")));
    let face = |kind| {
        let relation = RelationRef::new("public", "v");
        Offer::Object { relation, kind, name: "v".to_string() }.face().expect("a face").icon
    };
    assert_eq!(face(NodeKind::View), IconName::Eye);
    assert_eq!(face(NodeKind::MaterializedView), IconName::Layers);
}

#[test]
fn a_menu_with_no_catalog_is_not_drawn() {
    let mut window = quiet();
    window.open_database_menu();
    assert!(window.surfaces.database_menu);
    assert!(window.render_database_menu().is_none());
    assert!(window.render().over.is_empty());
}

#[test]
fn a_switch_that_says_nothing_is_noted_and_ignored() {
    let switches = Switches {
        sidebar: Some("cellar".to_string()),
        results_tab: Some("ddl".to_string()),
        page: Some("first".to_string()),
        page_size: Some("3".to_string()),
        open: Some("public.users, users,,".to_string()),
        keychain: Some("not one".to_string()),
        sheet: Some("paint".to_string()),
        design: Some("new".to_string()),
        cell: Some("1;2".to_string()),
        ..unset()
    };
    let noted: Vec<_> = switches
        .ignored()
        .into_iter()
        .map(|ignored| (ignored.switch, ignored.value))
        .collect();
    let expected = [
        (Switch::Sidebar, "cellar"),
        (Switch::Page, "first"),
        (Switch::PageSize, "3"),
        (Switch::Open, "users"),
        (Switch::Keychain, "not one"),
        (Switch::Cell, "1;2"),
    ];
    assert_eq!(noted.len(), expected.len());
    for (seen, want) in noted.iter().zip(expected) {
        assert_eq!((seen.0, seen.1.as_str()), want);
    }
    assert_eq!(Switch::Sidebar.variable(), "TUPLI_SIDEBAR");
    assert_eq!(Switch::Design.complaint(), "is not schema.table or `new`");
    // An operation is read only where there is something to carry it out on.
    let switches = Switches {
        menu: Some("users".to_string()),
        sheet: Some("paint".to_string()),
        ..unset()
    };
    let noted: Vec<_> = switches.ignored().iter().map(|ignored| ignored.switch).collect();
    assert_eq!(noted, [Switch::Sheet, Switch::Menu]);
    let mut window = quiet();
    let switches = Switches { sidebar: Some("cellar".to_string()), ..unset() };
    window.begin_frame(&switches, &facts(), Destination::Unset);
    assert!(matches!(window.sidebar_tab, SidebarTab::Database));
}

#[test]
fn a_connection_is_asked_about_by_its_id() {
    let text = "67e55044-10b1-426f-9247-bb680e5fe0c8".to_string();
    let switches = Switches { keychain: Some(text), ..unset() };
    assert_eq!(switches.keychain_id(), Some(0x67e5504410b1426f9247bb680e5fe0c8));
    assert!(switches.ignored().is_empty());
    assert_eq!(switches.ignored_given(None)[0].switch, Switch::Keychain);
    assert_eq!(unset().keychain_id(), None);
}

#[test]
fn what_is_written_down_says_where_each_tab_belongs() {
    let mut window = live();
    let mut tab = CenterTab::script("costs", None);
    tab.reconnect = Some((9, "archive".to_string()));
    window.panes[0].tabs.push(tab);
    window.panes[0].tabs.push(CenterTab::script("loose", None));
    window.panes[0].console = "select 3".to_string();
    window.save_session();
    assert!(window.outbox.iter().any(|e| matches!(e, Effect::SaveSession)));
    let record = window.session_record().expect("a record");
    assert_eq!(record.source, Some((1, "app".to_string())));
    assert_eq!((record.layout.as_slice(), record.active_pane), (&[0][..], 0));
    let pane = &record.panes[0];
    assert_eq!((pane.id, pane.active), (0, 0));
    assert_eq!(pane.tabs[0].sql, "select 3", "what is typed is in its tab");
    assert_eq!(
        pane.sources,
        [Some((1, "app".to_string())), Some((9, "archive".to_string())), None]
    );
    window.settings.set_restore_session(false);
    assert!(window.session_record().is_none(), "a window that forgets keeps no record");
}

#[test]
fn a_key_does_what_it_asks_for_and_goes_no_further() {
    let mut window = quiet();
    let tabs = titles(&window).len();
    assert!(window.on_key(&stroke("t", false), 0));
    assert_eq!(titles(&window).len(), tabs + 1);
    assert!(!window.on_key(&stroke("q", false), 0), "any other key goes on");
    assert!(window.on_key(&stroke("k", false), 0));
    assert!(window.surfaces.palette);
    assert!(!window.on_key(&stroke("t", false), 0), "the palette is a question");
    assert!(window.on_key(&stroke("k", false), 0));
    assert!(!window.surfaces.palette);
    window.surfaces.object_menu = true;
    assert!(window.on_key(&stroke("escape", false), 0));
    assert!(!window.surfaces.object_menu);
}

#[test]
fn the_lists_are_read_by_the_connection_that_is_open() {
    assert_eq!(live().lists_wanted(), ListRequest { connection: Some(1), history: 200 });
    assert_eq!(quiet().lists_wanted().connection, None);
    assert_eq!(history_cutoff(HISTORY_KEPT_MS + 5), 5);
    assert_eq!(HISTORY_KEPT_MS, 90 * 24 * 60 * 60 * 1000);
}

#[test]
fn the_regions_are_written_down_as_they_are() {
    let metrics =
        PanelMetrics { panel_default_width: 240, panel_min_width: 160, dock_default_height: 260 };
    let panels = Panels::new(Some(210), None, None, metrics);
    let mut window = quiet();
    window.toggle_right_panel();
    let record = window.layout_record(&panels);
    assert!(record.left_open && !record.right_open && record.dock_open);
    assert_eq!((record.left_width, record.right_width, record.dock_height), (210, 300, 260));
}
