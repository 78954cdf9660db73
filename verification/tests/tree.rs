use std::collections::HashSet;
use tupli::catalog::{
    Capabilities, KeyDatabase, KeyInfo, KeyType, Keyspace, Relation, RelationKind, RelationRef,
    Role, RoleSet, Routine, Schema, SchemaSnapshot,
};
use tupli::folding::{initially_collapsed, MANY_OBJECTS};
use tupli::icon::{IconName, Paint};
use tupli::list::Disclosure;
use tupli::sidebar::{icon_for, kept_by, matching_nodes, render_tree, Tag};
use tupli::tree::{from_keyspace, from_servers, from_snapshot, Database, NodeKind, Server, TreeNode};
use tupli::wording::{role_meta, row_estimate};

fn role(name: &str, superuser: bool) -> Role {
    let held = ["Superuser", "Create DB", "Create role", "Replication", "Bypass RLS"];
    Role {
        name: name.to_string(),
        can_login: true,
        attributes: if superuser {
            held.iter().map(|a| a.to_string()).collect()
        } else {
            Vec::new()
        },
        member_of: Vec::new(),
    }
}

#[test]
fn the_role_you_are_connected_as_says_so_before_anything_else() {
    assert_eq!(role_meta(&role("postgres", true), true).as_deref(), Some("you · Superuser"));
}

#[test]
fn a_long_list_of_attributes_is_cut_so_the_name_still_fits() {
    assert_eq!(role_meta(&role("deploy", true), false).as_deref(), Some("Superuser · Create DB"));
}

#[test]
fn a_role_with_nothing_to_say_falls_back_to_who_it_inherits_from() {
    let mut member = role("reporting", false);
    member.member_of = vec!["analytics".to_string()];
    assert_eq!(role_meta(&member, false).as_deref(), Some("member of 1"));
    assert_eq!(role_meta(&role("app", false), false), None);
}

fn relation(schema: &str, name: &str, kind: RelationKind, rows: i64) -> Relation {
    Relation {
        reference: RelationRef::new(schema, name),
        kind,
        estimated_rows: rows,
        foreign_keys: Vec::new(),
    }
}

fn snapshot() -> SchemaSnapshot {
    SchemaSnapshot {
        database: "app".to_string(),
        databases: vec!["app".to_string(), "app_test".to_string()],
        server_version: "16.4 (Homebrew)".to_string(),
        current_schema: "public".to_string(),
        schemas: vec![
            Schema {
                name: "public".to_string(),
                relations: vec![
                    relation("public", "users", RelationKind::Table, 12_400),
                    relation("public", "active_users", RelationKind::View, 0),
                ],
                routines: Vec::new(),
            },
            Schema { name: "empty".to_string(), relations: Vec::new(), routines: Vec::new() },
        ],
    }
}

fn server<'a>(id: u128, name: &str, database: Option<&str>, databases: Vec<Database<'a>>) -> Server<'a> {
    Server {
        id,
        name: name.to_string(),
        capabilities: Capabilities::postgres(),
        database: database.map(|d| d.to_string()),
        databases,
        keyspace: None,
        roles: None,
        state: None,
    }
}

fn open<'a>(name: &str, snapshot: &'a SchemaSnapshot) -> Database<'a> {
    Database { name: name.to_string(), snapshot: Some(snapshot) }
}

fn find<'a>(nodes: &'a [TreeNode], name: &str) -> &'a TreeNode {
    nodes.iter().find(|node| node.name == name).expect(name)
}

#[test]
fn every_database_on_the_server_is_a_row_and_only_the_open_one_opens() {
    let nodes = from_snapshot("local", &snapshot(), None, Capabilities::postgres());
    let databases: Vec<_> = nodes.iter().filter(|node| node.kind == NodeKind::Database).collect();
    assert_eq!(databases.iter().map(|n| n.name.as_str()).collect::<Vec<_>>(), ["app", "app_test"]);
    assert!(databases[0].expandable);
    assert!(!databases[1].expandable);
    assert_eq!(nodes.last().map(|node| node.kind), Some(NodeKind::Database));
}

#[test]
fn the_tree_is_flat_and_in_visit_order() {
    let nodes = from_snapshot("local", &snapshot(), None, Capabilities::postgres());
    assert_eq!(nodes[0].kind, NodeKind::Connection);
    assert_eq!(nodes[0].meta.as_deref(), Some("16.4"));
    assert_eq!(nodes[1].kind, NodeKind::Database);
    assert_eq!(nodes[1].depth, 1);
    let ids: HashSet<usize> = nodes.iter().map(|node| node.id).collect();
    assert_eq!(ids.len(), nodes.len(), "every row is its own key");
}

#[test]
fn a_rows_id_is_its_path_and_survives_another_database_opening() {
    let snapshot = snapshot();
    let one = from_servers(&[server(7, "local", Some("app"), vec![open("app", &snapshot)])]);
    let two = from_servers(&[server(
        7,
        "local",
        Some("app"),
        vec![open("app_test", &snapshot), open("app", &snapshot)],
    )]);
    let users = |nodes: &[TreeNode]| {
        nodes
            .iter()
            .find(|node| {
                node.kind == NodeKind::Table
                    && node.name == "users"
                    && node.origin.database.as_deref() == Some("app")
            })
            .map(|node| node.id)
            .expect("app.public.users")
    };
    assert_eq!(users(&one), users(&two));
}

#[test]
fn two_connections_with_the_same_name_do_not_share_a_single_id() {
    let snapshot = snapshot();
    let nodes = from_servers(&[
        server(1, "dev", Some("app"), vec![open("app", &snapshot)]),
        server(2, "dev", Some("app"), vec![open("app", &snapshot)]),
    ]);
    let ids: HashSet<usize> = nodes.iter().map(|node| node.id).collect();
    assert_eq!(ids.len(), nodes.len());
    let roots: Vec<_> = nodes
        .iter()
        .filter(|node| node.kind == NodeKind::Connection)
        .map(|node| node.origin.connection)
        .collect();
    assert_eq!(roots, vec![1, 2]);
}

#[test]
fn a_database_nobody_has_opened_is_a_name_and_a_click() {
    let snapshot = snapshot();
    let nodes = from_servers(&[server(
        0,
        "local",
        None,
        vec![open("app", &snapshot), Database { name: "app_test".to_string(), snapshot: None }],
    )]);
    let databases: Vec<_> = nodes.iter().filter(|node| node.kind == NodeKind::Database).collect();
    assert!(databases[0].expandable);
    assert!(!databases[1].expandable);
    assert!(nodes
        .iter()
        .any(|node| node.origin.database.as_deref() == Some("app")
            && node.kind == NodeKind::Schema));
}

#[test]
fn a_connection_with_nothing_open_says_where_it_would_go() {
    let mut staging = server(0, "staging", None, Vec::new());
    staging.state = Some("db.internal:5432".to_string());
    let nodes = from_servers(&[staging]);
    assert_eq!(nodes.len(), 1);
    assert_eq!(nodes[0].meta.as_deref(), Some("db.internal:5432"));
    assert!(!nodes[0].expandable);
}

#[test]
fn empty_groups_do_not_appear() {
    let nodes = from_snapshot("local", &snapshot(), None, Capabilities::postgres());
    let names: Vec<_> = nodes.iter().map(|n| n.name.as_str()).collect();
    assert!(names.contains(&"tables"));
    assert!(names.contains(&"views"));
    assert!(!names.contains(&"functions"));
    assert!(names.contains(&"empty"));
}

#[test]
fn relations_carry_the_reference_needed_to_open_them() {
    let nodes = from_snapshot("local", &snapshot(), None, Capabilities::postgres());
    let users = find(&nodes, "users");
    let reference = users.target.as_ref().unwrap().relation().unwrap();
    assert_eq!(reference.qualified(), "public.users");
    let group = find(&nodes, "tables");
    assert!(group.target.is_none());
}

#[test]
fn a_never_analysed_table_says_so_rather_than_claiming_to_be_empty() {
    assert_eq!(row_estimate(-1), "—");
    assert_eq!(row_estimate(0), "0");
    assert_eq!(row_estimate(940), "~940");
    assert_eq!(row_estimate(12_400), "~12k");
    assert_eq!(row_estimate(3_400_000), "~3.4M");
}

#[test]
fn a_server_whose_schemas_are_its_databases_gets_one_level_not_two() {
    let analytics = Capabilities { databases: false, ..Capabilities::postgres() };
    let nodes = from_snapshot("local", &snapshot(), None, analytics);
    assert!(!nodes.iter().any(|node| node.kind == NodeKind::Database));
    let schema = nodes.iter().find(|node| node.kind == NodeKind::Schema).expect("a schema");
    assert_eq!(schema.depth, 1);
    assert!(nodes.iter().any(|node| node.kind == NodeKind::Table && node.depth == 3));
}

#[test]
fn schemas_start_closed_but_the_root_does_not() {
    let nodes = from_snapshot("local", &snapshot(), None, Capabilities::postgres());
    let closed = initially_collapsed(&nodes);
    assert!(!closed.contains(&0));
    assert!(!closed.contains(&1));
    let public = find(&nodes, "public");
    assert!(closed.contains(&public.id));
}

#[test]
fn an_estimate_is_printed_as_a_machine_rounds_it() {
    assert_eq!(row_estimate(999), "~999");
    assert_eq!(row_estimate(1_000), "~1k");
    assert_eq!(row_estimate(1_500), "~2k");
    assert_eq!(row_estimate(2_500), "~2k");
    assert_eq!(row_estimate(999_999), "~1000k");
    assert_eq!(row_estimate(1_000_000), "~1.0M");
    assert_eq!(row_estimate(1_250_000), "~1.2M");
    assert_eq!(row_estimate(7_100_000_000), "~7.1B");
    for rows in [1_000i64, 1_234, 65_536, 499_500, 999_500] {
        assert_eq!(row_estimate(rows), format!("~{:.0}k", rows as f64 / 1_000.));
    }
    for rows in [1_049_999i64, 1_050_000, 2_449_999, 12_345_678, 999_949_999] {
        assert_eq!(row_estimate(rows), format!("~{:.1}M", rows as f64 / 1_000_000.));
    }
    for rows in [1_050_000_000i64, 123_456_789_012, i64::MAX] {
        assert_eq!(row_estimate(rows), format!("~{:.1}B", rows as f64 / 1_000_000_000.));
    }
}

#[test]
fn only_relations_are_relations() {
    assert!(NodeKind::Table.is_relation());
    assert!(NodeKind::View.is_relation());
    assert!(NodeKind::MaterializedView.is_relation());
    assert!(!NodeKind::Function.is_relation());
    assert!(!NodeKind::Key.is_relation());
    assert!(!NodeKind::Schema.is_relation());
}

#[test]
fn functions_and_roles_have_branches_of_their_own() {
    let mut catalog = snapshot();
    catalog.schemas[0].routines.push(Routine { name: "now_utc".to_string() });
    let mut group = role("readers", false);
    group.can_login = false;
    let roles = RoleSet { current: "postgres".to_string(), roles: vec![role("postgres", true), group] };
    let nodes = from_snapshot("local", &catalog, Some(&roles), Capabilities::postgres());
    assert_eq!(find(&nodes, "now_utc").kind, NodeKind::Function);
    assert_eq!(find(&nodes, "postgres").kind, NodeKind::Role);
    assert_eq!(find(&nodes, "postgres").meta.as_deref(), Some("you · Superuser"));
    assert_eq!(find(&nodes, "readers").kind, NodeKind::RoleGroupMember);
    let function = icon_for(find(&nodes, "now_utc"));
    let table = icon_for(find(&nodes, "users"));
    assert_ne!(function.0, table.0);
}

/// Whatever is under a row is deeper than it is, and follows it directly.
#[test]
fn a_row_with_nothing_under_it_has_no_triangle() {
    let nodes = from_snapshot("local", &snapshot(), None, Capabilities::postgres());
    for (i, node) in nodes.iter().enumerate() {
        let deeper = nodes.get(i + 1).is_some_and(|next| next.depth > node.depth);
        if deeper {
            assert!(node.expandable, "{}", node.name);
            assert_eq!(nodes[i + 1].depth, node.depth + 1);
        }
    }
}

fn key(text: &str, ttl: Option<i64>) -> KeyInfo {
    KeyInfo {
        key: text.as_bytes().to_vec(),
        drawn: text.to_string(),
        kind: KeyType::Hash,
        ttl,
        time_left: "2m".to_string(),
    }
}

fn keyspace() -> Keyspace {
    Keyspace {
        databases: vec![KeyDatabase { index: 0, keys: 3 }, KeyDatabase { index: 1, keys: 9 }],
        current: 0,
    }
}

#[test]
fn keys_fold_into_folders_at_their_colons() {
    let keys = vec![key("user:2", Some(120)), key("user:1", None), key("plain", None)];
    let nodes = from_keyspace("cache", "7.2.4", &keyspace(), &keys, true);
    assert_eq!(nodes[0].kind, NodeKind::Connection);
    let folders: Vec<_> = nodes.iter().filter(|n| n.kind == NodeKind::KeyFolder).collect();
    assert_eq!(folders.len(), 1);
    assert!(folders[0].expandable);
    let drawn: Vec<_> = nodes
        .iter()
        .filter(|n| n.kind == NodeKind::Key)
        .map(|n| (n.name.as_str(), n.depth, n.meta.as_deref()))
        .collect();
    let top = folders[0].depth;
    assert_eq!(
        drawn,
        [("plain", top, None), ("1", top + 1, None), ("2", top + 1, Some("2m"))]
    );
    let second = nodes.iter().find(|n| n.kind == NodeKind::Key && n.name == "2").unwrap();
    let (bytes, kind) = second.target.as_ref().unwrap().key().unwrap();
    assert_eq!(bytes.as_slice(), b"user:2");
    assert!(matches!(kind, KeyType::Hash));
    let ids: HashSet<usize> = nodes.iter().map(|node| node.id).collect();
    assert_eq!(ids.len(), nodes.len());
}

#[test]
fn a_key_that_is_no_text_is_drawn_from_its_bytes() {
    let mut raw = key("", None);
    raw.key = vec![0xff, b':', 0x01];
    raw.drawn = "\\xff:\\x01".to_string();
    let nodes = from_keyspace("cache", "7.2.4", &keyspace(), &[raw], false);
    let row = nodes.iter().find(|n| n.kind == NodeKind::Key).expect("the key");
    assert_eq!(row.name, "\\xff:\\x01");
    assert!(!nodes.iter().any(|n| n.kind == NodeKind::KeyFolder));
}

#[test]
fn a_lone_schema_starts_open_unless_it_is_enormous() {
    let mut catalog = snapshot();
    catalog.schemas.pop();
    let short = from_snapshot("local", &catalog, None, Capabilities::postgres());
    assert!(!initially_collapsed(&short).contains(&find(&short, "public").id));
    for i in 0..MANY_OBJECTS + 1 {
        let name = format!("t{i}");
        catalog.schemas[0].relations.push(relation("public", &name, RelationKind::Table, 0));
    }
    let long = from_snapshot("local", &catalog, None, Capabilities::postgres());
    assert!(initially_collapsed(&long).contains(&find(&long, "public").id));
}

#[test]
fn a_match_is_drawn_with_the_way_to_it() {
    let nodes = from_snapshot("local", &snapshot(), None, Capabilities::postgres());
    let keep = matching_nodes(&nodes, "ACTIVE");
    let names: Vec<_> =
        nodes.iter().filter(|n| keep.contains(&n.id)).map(|n| n.name.as_str()).collect();
    assert!(names.contains(&"active_users"), "{names:?}");
    assert!(names.contains(&"local"), "{names:?}");
    assert!(names.contains(&"app"), "{names:?}");
    assert!(names.contains(&"public"), "{names:?}");
    assert!(names.contains(&"views"), "{names:?}");
    assert!(!names.contains(&"users"), "{names:?}");
    assert!(!names.contains(&"empty"), "{names:?}");
    assert!(matching_nodes(&nodes, "zzz").is_empty());
}

#[test]
fn a_name_is_found_by_what_it_folds_to() {
    let nodes = from_snapshot("local", &snapshot(), None, Capabilities::postgres());
    let folded: Vec<String> = nodes.iter().map(|_| "same".to_string()).collect();
    assert_eq!(kept_by(&nodes, &folded, "same").len(), nodes.len());
    assert!(kept_by(&nodes, &folded, "other").is_empty());
}

#[test]
fn closing_a_row_hides_what_is_below_it() {
    let nodes = from_snapshot("local", &snapshot(), None, Capabilities::postgres());
    let all = render_tree(&nodes, &Vec::new(), "", None, &Vec::new());
    assert_eq!(all.len(), nodes.len());
    let public = find(&nodes, "public").id;
    let folded = render_tree(&nodes, &vec![public], "", Some(public), &Vec::new());
    let row = folded.iter().find(|r| r.id == public).expect("public");
    assert_eq!(row.disclosure, Disclosure::Collapsed);
    assert!(row.selected);
    assert!(!folded.iter().any(|r| nodes[r.place].name == "users"));
    assert!(folded.iter().any(|r| nodes[r.place].name == "empty"));
    let found = render_tree(&nodes, &vec![public], "users", None, &Vec::new());
    assert!(found.iter().any(|r| nodes[r.place].name == "users"));
}

#[test]
fn a_connections_row_takes_its_tag() {
    let nodes = from_servers(&[server(7, "local", None, Vec::new())]);
    let tags = vec![Tag { connection: 7, paint: Some(Paint::Hue(210)) }];
    let rows = render_tree(&nodes, &Vec::new(), "", None, &tags);
    assert_eq!(rows.len(), 1);
    assert_eq!(rows[0].disclosure, Disclosure::Leaf);
    let plain = render_tree(&nodes, &Vec::new(), "", None, &Vec::new());
    assert_ne!(rows[0].color, plain[0].color);
    assert_ne!(rows[0].icon, IconName::Table);
}

#[test]
fn the_open_database_has_a_row_though_the_server_does_not_list_it() {
    let mut catalog = snapshot();
    catalog.databases = vec!["app_test".to_string()];
    let nodes = from_snapshot("local", &catalog, None, Capabilities::postgres());
    let databases: Vec<_> =
        nodes.iter().filter(|n| n.kind == NodeKind::Database).map(|n| n.name.as_str()).collect();
    assert_eq!(databases, ["app_test", "app"]);
    assert!(find(&nodes, "app").expandable);
    assert!(nodes.iter().any(|n| n.kind == NodeKind::Table && n.name == "users"));
}

#[test]
fn every_connection_has_a_run_of_the_sidebar() {
    let snapshot = snapshot();
    let first = || server(1, "one", Some("app"), vec![open("app", &snapshot)]);
    let second = || server(2, "two", None, Vec::new());
    let shown = |nodes: &[TreeNode]| -> Vec<(usize, usize, String)> {
        nodes.iter().map(|n| (n.id, n.depth, n.name.clone())).collect()
    };
    let both = shown(&from_servers(&[first(), second()]));
    let mut apart = shown(&from_servers(&[first()]));
    apart.extend(shown(&from_servers(&[second()])));
    assert_eq!(both, apart);
    let tops: Vec<_> = both.iter().filter(|row| row.1 == 0).map(|row| row.2.as_str()).collect();
    assert_eq!(tops, ["one", "two"]);
    assert!(both.windows(2).all(|pair| pair[1].1 <= pair[0].1 + 1));
}

#[test]
fn what_starts_closed_is_judged_connection_by_connection() {
    let snapshot = snapshot();
    let first = || server(1, "one", Some("app"), vec![open("app", &snapshot)]);
    let second = || server(2, "two", Some("app"), vec![open("app", &snapshot)]);
    let nodes = from_servers(&[first(), second()]);
    let closed = initially_collapsed(&nodes);
    let mut apart = initially_collapsed(&from_servers(&[first()]));
    apart.extend(initially_collapsed(&from_servers(&[second()])));
    assert_eq!(closed, apart);
    assert!(!closed.is_empty());
    assert!(nodes
        .iter()
        .filter(|n| matches!(n.kind, NodeKind::Connection | NodeKind::Database))
        .all(|n| !closed.contains(&n.id)));
}

#[test]
fn the_same_way_down_has_the_same_id_and_no_other_has() {
    let snapshot = snapshot();
    let one = from_servers(&[server(1, "dev", Some("app"), vec![open("app", &snapshot)])]);
    let again = from_servers(&[server(1, "dev", Some("app"), vec![open("app", &snapshot)])]);
    let other = from_servers(&[server(2, "dev", Some("app"), vec![open("app", &snapshot)])]);
    let ids = |nodes: &[TreeNode]| nodes.iter().map(|n| n.id).collect::<Vec<_>>();
    assert_eq!(ids(&one), ids(&again));
    assert!(ids(&one).iter().all(|id| !ids(&other).contains(id)));
}

#[test]
fn no_folder_of_keys_comes_twice() {
    let keys: Vec<_> = ["b:1:x", "a:2", "b:1", "a:1", "b:2:y", "b", "a:1:z"]
        .iter()
        .map(|text| key(text, None))
        .collect();
    let nodes = from_keyspace("cache", "7.2.4", &keyspace(), &keys, true);
    let from = nodes.iter().position(|n| n.kind == NodeKind::KeyDatabase).expect("a database");
    let top = nodes[from].depth + 1;
    let mut way: Vec<String> = Vec::new();
    let mut folders: Vec<String> = Vec::new();
    let mut drawn: Vec<String> = Vec::new();
    for node in &nodes {
        match node.kind {
            NodeKind::KeyFolder => {
                way.truncate(node.depth - top);
                way.push(node.name.clone());
                folders.push(way.join(":"));
            }
            NodeKind::Key => {
                way.truncate(node.depth - top);
                way.push(node.name.clone());
                let (bytes, _) = node.target.as_ref().unwrap().key().unwrap();
                assert_eq!(way.join(":").as_bytes(), bytes.as_slice());
                drawn.push(way.join(":"));
            }
            _ => {}
        }
    }
    assert_eq!(drawn, ["a:1", "a:1:z", "a:2", "b", "b:1", "b:1:x", "b:2:y"]);
    assert_eq!(folders, ["a", "a:1", "b", "b:1", "b:2"]);
}
