//! What holds of every sidebar tree.
use crate::catalog::{KeyInfo, Role, RoleSet, Schema};
use crate::folding::{floor, outside, reach, schema_count, schema_level};
use crate::keys::{folders, in_order, key_rows, leaf, nested, opened, path, shared};
use crate::tree::{
    below, database_at, database_rows, databases_rows, first_key_databases, group,
    key_database_rows, key_databases_rows, role_row, roles_rows, routine_rows, schema_rows,
    schemas_rows, section, server_entries, server_rows, table_rows, trail, view_rows, DatabaseView,
    KeysView, Entry, NodeKind, Row, ServerView,
};
use vstd::prelude::*;

verus! {

/// Whether rows are a branch in visit order: it starts at a depth, nothing in
/// it is less deep, and each row is at most one level below the row before it.
pub open spec fn in_visit_order(list: Seq<Row>, depth: nat) -> bool {
    &&& list.len() > 0 ==> list[0].depth == depth
    &&& forall|i: int| 0 <= i < list.len() ==> (#[trigger] list[i]).depth >= depth
    &&& forall|i: int, j: int|
        #![trigger list[i], list[j]]
        0 <= i && j == i + 1 && j < list.len() ==> list[j].depth <= list[i].depth + 1
}

/// Whether exactly the rows that stand for a relation or a key open something.
pub open spec fn opens_what_it_stands_for(list: Seq<Row>) -> bool {
    forall|i: int|
        0 <= i < list.len() ==> ((#[trigger] list[i]).target is Some <==> (
        list[i].kind.spec_is_relation() || list[i].kind is Key))
}

/// Whether no row is of a kind.
pub open spec fn none_of(list: Seq<Row>, kind: NodeKind) -> bool {
    forall|i: int| 0 <= i < list.len() ==> (#[trigger] list[i]).kind != kind
}

/// What holds of every part of a tree below a connection's row.
spec fn sound(list: Seq<Row>, depth: nat) -> bool {
    &&& in_visit_order(list, depth)
    &&& opens_what_it_stands_for(list)
    &&& none_of(list, NodeKind::Connection)
}

proof fn lemma_sound_join(a: Seq<Row>, b: Seq<Row>, depth: nat)
    requires
        sound(a, depth),
        sound(b, depth),
    ensures
        sound(a + b, depth),
{
    let c = a + b;
    assert forall|h: int, i: int|
        #![trigger c[h], c[i]]
        0 <= h && i == h + 1 && i < c.len() implies c[i].depth <= c[h].depth + 1 by {
        if i < a.len() {
            assert(c[i] == a[i] && c[i - 1] == a[i - 1]);
        } else if i > a.len() {
            assert(c[i] == b[i - a.len()] && c[i - 1] == b[i - 1 - a.len()]);
        } else {
            assert(c[i] == b[0] && c[i - 1] == a[i - 1]);
        }
    }
    assert forall|i: int| 0 <= i < c.len() implies (#[trigger] c[i]).depth >= depth && (
    c[i].target is Some <==> (c[i].kind.spec_is_relation() || c[i].kind is Key)) && c[i].kind
        != NodeKind::Connection by {
        if i < a.len() {
            assert(c[i] == a[i]);
        } else {
            assert(c[i] == b[i - a.len()]);
        }
    }
    if c.len() > 0 {
        if a.len() > 0 {
            assert(c[0] == a[0]);
        } else {
            assert(c[0] == b[0]);
        }
    }
}

proof fn lemma_sound_head(head: Row, under: Seq<Row>, depth: nat)
    requires
        sound(under, depth + 1),
        head.depth == depth,
        head.kind != NodeKind::Connection,
        head.target is Some <==> (head.kind.spec_is_relation() || head.kind is Key),
    ensures
        sound(seq![head] + under, depth),
{
    let c = seq![head] + under;
    assert forall|h: int, i: int|
        #![trigger c[h], c[i]]
        0 <= h && i == h + 1 && i < c.len() implies c[i].depth <= c[h].depth + 1 by {
        assert(c[i] == under[i - 1]);
        if i > 1 {
            assert(c[i - 1] == under[i - 2]);
        } else {
            assert(c[i - 1] == head);
        }
    }
    assert forall|i: int| 0 <= i < c.len() implies (#[trigger] c[i]).depth >= depth && (
    c[i].target is Some <==> (c[i].kind.spec_is_relation() || c[i].kind is Key)) && c[i].kind
        != NodeKind::Connection by {
        if i > 0 {
            assert(c[i] == under[i - 1]);
        }
    }
}

proof fn lemma_sound_section(kind: NodeKind, name: Seq<char>, depth: nat, under: Seq<Row>)
    requires
        sound(under, depth + 1),
        kind is TableGroup || kind is FunctionGroup,
    ensures
        sound(section(kind, name, depth, under), depth),
{
    if under.len() > 0 {
        lemma_sound_head(
            group(depth, kind, name, crate::text::decimal(under.len())),
            under,
            depth,
        );
    }
}

proof fn lemma_sound_schema(schema: Schema, depth: nat)
    ensures
        sound(schema_rows(schema, depth), depth),
        none_of(schema_rows(schema, depth), NodeKind::Database),
{
    let tables = table_rows(schema.relations@, depth + 2);
    let views = view_rows(schema.relations@, depth + 2);
    let routines = routine_rows(schema.routines@, depth + 2);
    assert(sound(tables, depth + 2));
    assert(sound(views, depth + 2));
    assert(sound(routines, depth + 2));
    let a = section(NodeKind::TableGroup, "tables"@, depth + 1, tables);
    let b = section(NodeKind::TableGroup, "views"@, depth + 1, views);
    let c = section(NodeKind::FunctionGroup, "functions"@, depth + 1, routines);
    lemma_sound_section(NodeKind::TableGroup, "tables"@, depth + 1, tables);
    lemma_sound_section(NodeKind::TableGroup, "views"@, depth + 1, views);
    lemma_sound_section(NodeKind::FunctionGroup, "functions"@, depth + 1, routines);
    lemma_sound_join(a, b, depth + 1);
    lemma_sound_join(a + b, c, depth + 1);
    let head = schema_rows(schema, depth)[0];
    lemma_sound_head(head, a + b + c, depth);
    assert(schema_rows(schema, depth) =~= seq![head] + (a + b + c));
}

proof fn lemma_sound_schemas(schemas: Seq<Schema>, depth: nat)
    ensures
        sound(schemas_rows(schemas, depth), depth),
        none_of(schemas_rows(schemas, depth), NodeKind::Database),
    decreases schemas.len(),
{
    if schemas.len() > 0 {
        lemma_sound_schemas(schemas.drop_last(), depth);
        lemma_sound_schema(schemas.last(), depth);
        lemma_sound_join(
            schemas_rows(schemas.drop_last(), depth),
            schema_rows(schemas.last(), depth),
            depth,
        );
    }
}

proof fn lemma_sound_database(database: DatabaseView)
    ensures
        sound(database_rows(database), 1),
        database_rows(database).len() > 0,
        database_rows(database)[0].kind is Database,
        none_of(database_rows(database).skip(1), NodeKind::Database),
        forall|i: int|
            1 <= i < database_rows(database).len() ==> (#[trigger] database_rows(
                database,
            )[i]).depth >= 2,
{
    let list = database_rows(database);
    match database.snapshot {
        Some(snapshot) => {
            lemma_sound_schemas(snapshot.schemas@, 2);
            lemma_sound_head(list[0], schemas_rows(snapshot.schemas@, 2), 1);
            assert(list =~= seq![list[0]] + schemas_rows(snapshot.schemas@, 2));
            assert(list.skip(1) =~= schemas_rows(snapshot.schemas@, 2));
            assert forall|i: int| 1 <= i < list.len() implies (#[trigger] list[i]).depth >= 2 by {
                assert(list[i] == schemas_rows(snapshot.schemas@, 2)[i - 1]);
            }
        },
        None => {},
    }
}

proof fn lemma_sound_databases(databases: Seq<DatabaseView>, level: bool)
    ensures
        sound(databases_rows(databases, level), 1),
        !level ==> none_of(databases_rows(databases, level), NodeKind::Database),
    decreases databases.len(),
{
    if databases.len() > 0 {
        lemma_sound_databases(databases.drop_last(), level);
        let last = databases.last();
        let front = databases_rows(databases.drop_last(), level);
        if level {
            lemma_sound_database(last);
            lemma_sound_join(front, database_rows(last), 1);
        } else {
            match last.snapshot {
                Some(snapshot) => {
                    lemma_sound_schemas(snapshot.schemas@, 1);
                    lemma_sound_join(front, schemas_rows(snapshot.schemas@, 1), 1);
                },
                None => {
                    assert(front + Seq::<Row>::empty() =~= front);
                },
            }
        }
    }
}

proof fn lemma_shared_bounds(a: Seq<Seq<char>>, b: Seq<Seq<char>>)
    ensures
        shared(a, b) <= a.len(),
        shared(a, b) <= b.len(),
    decreases a.len(),
{
    if a.len() > 0 && b.len() > 0 && a[0] == b[0] {
        lemma_shared_bounds(a.drop_first(), b.drop_first());
    }
}

proof fn lemma_sound_keys(keys: Seq<KeyInfo>, list: Seq<KeyInfo>, depth: nat)
    requires
        depth <= usize::MAX,
    ensures
        sound(key_rows(keys, list, depth), depth),
        none_of(key_rows(keys, list, depth), NodeKind::Database),
        none_of(key_rows(keys, list, depth), NodeKind::Schema),
        list.len() > 0 ==> key_rows(keys, list, depth).len() > 0 && key_rows(
            keys,
            list,
            depth,
        ).last() == leaf(list.last(), depth),
    decreases list.len(),
{
    if list.len() > 0 {
        let front = list.drop_last();
        lemma_sound_keys(keys, front, depth);
        let info = list.last();
        let mine = folders(info.key@);
        let open = if list.len() == 1 {
            Seq::empty()
        } else {
            folders(list[list.len() - 2].key@)
        };
        lemma_shared_bounds(open, mine);
        let from = shared(open, mine) as int;
        let a = key_rows(keys, front, depth);
        let b = opened(keys, path(info.key@), from, mine.len() as int, depth);
        let c = a + b + seq![leaf(info, depth)];
        assert(key_rows(keys, list, depth) == c);
        if list.len() > 1 {
            assert(front.last() == list[list.len() - 2]);
            assert(a.last().depth == nested(depth, open.len()));
        } else {
            assert(a.len() == 0);
        }
        assert forall|i: int| 0 <= i < c.len() implies (#[trigger] c[i]).depth >= depth && (
        c[i].target is Some <==> (c[i].kind.spec_is_relation() || c[i].kind is Key)) && c[i].kind
            != NodeKind::Connection && c[i].kind != NodeKind::Database && c[i].kind
            != NodeKind::Schema by {
            if i < a.len() {
                assert(c[i] == a[i]);
            } else if i < a.len() + b.len() {
                assert(c[i] == b[i - a.len()]);
            } else {
                assert(c[i] == leaf(info, depth));
            }
        }
        assert forall|h: int, i: int|
            #![trigger c[h], c[i]]
            0 <= h && i == h + 1 && i < c.len() implies c[i].depth <= c[h].depth + 1 by {
            if i < a.len() {
                assert(c[i] == a[i] && c[i - 1] == a[i - 1]);
            } else {
                if i < a.len() + b.len() {
                    assert(c[i] == b[i - a.len()]);
                    assert(c[i].depth == nested(depth, (from + (i - a.len())) as nat));
                } else {
                    assert(c[i].depth == nested(depth, mine.len()));
                }
                if i == a.len() {
                    assert(c[i - 1] == a.last());
                } else {
                    assert(c[i - 1] == b[i - 1 - a.len()]);
                    assert(c[i - 1].depth == nested(depth, (from + (i - 1 - a.len())) as nat));
                }
            }
        }
        if a.len() > 0 {
            assert(c[0] == a[0]);
        } else if b.len() > 0 {
            assert(c[0] == b[0]);
        } else {
            assert(c[0] == leaf(info, depth));
        }
    }
}

proof fn lemma_sound_key_databases(keys: KeysView, count: nat)
    requires
        count <= keys.keyspace.databases@.len(),
    ensures
        sound(first_key_databases(keys, count, 1), 1),
        none_of(first_key_databases(keys, count, 1), NodeKind::Database),
        none_of(first_key_databases(keys, count, 1), NodeKind::Schema),
    decreases count,
{
    if count > 0 {
        lemma_sound_key_databases(keys, (count - 1) as nat);
        let list = key_database_rows(keys, count - 1, 1);
        let under = key_rows(keys.keys, in_order(keys.keys), 2);
        lemma_sound_keys(keys.keys, in_order(keys.keys), 2);
        lemma_sound_head(list[0], under, 1);
        assert(sound(list, 1)) by {
            if keys.keyspace.databases@[count - 1].index == keys.keyspace.current {
                assert(list =~= seq![list[0]] + under);
            }
        }
        assert forall|i: int| 0 <= i < list.len() implies (#[trigger] list[i]).kind
            != NodeKind::Database && list[i].kind != NodeKind::Schema by {
            if i > 0 {
                assert(list[i] == under[i - 1]);
            }
        }
        let front = first_key_databases(keys, (count - 1) as nat, 1);
        lemma_sound_join(front, list, 1);
    }
}

proof fn lemma_sound_keyspace(keys: KeysView)
    ensures
        sound(key_databases_rows(keys, 1), 1),
        none_of(key_databases_rows(keys, 1), NodeKind::Database),
        none_of(key_databases_rows(keys, 1), NodeKind::Schema),
{
    if keys.keyspace.databases@.len() == 0 {
        let list = key_databases_rows(keys, 1);
        let under = key_rows(keys.keys, in_order(keys.keys), 2);
        lemma_sound_keys(keys.keys, in_order(keys.keys), 2);
        lemma_sound_head(list[0], under, 1);
        assert(list =~= seq![list[0]] + under);
        assert forall|i: int| 0 <= i < list.len() implies (#[trigger] list[i]).kind
            != NodeKind::Database && list[i].kind != NodeKind::Schema by {
            if i > 0 {
                assert(list[i] == under[i - 1]);
            }
        }
    } else {
        lemma_sound_key_databases(keys, keys.keyspace.databases@.len());
    }
}

proof fn lemma_sound_roles(set: RoleSet)
    ensures
        sound(roles_rows(set), 1),
        none_of(roles_rows(set), NodeKind::Database),
        none_of(roles_rows(set), NodeKind::Schema),
{
    let list = roles_rows(set);
    if list.len() > 0 {
        let under = set.roles@.map_values(|r: Role| role_row(r, set.current@));
        assert(sound(under, 2));
        lemma_sound_head(list[0], under, 1);
        assert(list =~= seq![list[0]] + under);
        assert forall|i: int| 0 <= i < list.len() implies (#[trigger] list[i]).kind
            != NodeKind::Database && list[i].kind != NodeKind::Schema by {
            if i > 0 {
                assert(list[i] == under[i - 1]);
            }
        }
    }
}

/// What is under a connection beside its databases: its keys and its roles.
spec fn beside(server: ServerView) -> Seq<Row> {
    let keys = match server.keyspace {
        Some(keys) => key_databases_rows(keys, 1),
        None => Seq::empty(),
    };
    let roles = match server.roles {
        Some(set) => roles_rows(set),
        None => Seq::empty(),
    };
    keys + roles
}

proof fn lemma_sound_beside(server: ServerView)
    ensures
        sound(beside(server), 1),
        none_of(beside(server), NodeKind::Database),
        none_of(beside(server), NodeKind::Schema),
        below(server) == databases_rows(server.databases, server.level) + beside(server),
{
    let keys = match server.keyspace {
        Some(keys) => key_databases_rows(keys, 1),
        None => Seq::empty(),
    };
    let roles = match server.roles {
        Some(set) => roles_rows(set),
        None => Seq::empty(),
    };
    if let Some(keys) = server.keyspace {
        lemma_sound_keyspace(keys);
    }
    if let Some(set) = server.roles {
        lemma_sound_roles(set);
    }
    lemma_sound_join(keys, roles, 1);
    assert forall|i: int| 0 <= i < beside(server).len() implies (#[trigger] beside(server)[i]).kind
        != NodeKind::Database && beside(server)[i].kind != NodeKind::Schema by {
        if i < keys.len() {
            assert(beside(server)[i] == keys[i]);
        } else {
            assert(beside(server)[i] == roles[i - keys.len()]);
        }
    }
    assert(below(server) =~= databases_rows(server.databases, server.level) + beside(server));
}

/// The rows of a connection are in visit order: its own row is the one row at
/// the top, and every other row is at most one level below the row before it.
pub proof fn the_tree_is_in_visit_order(server: ServerView)
    ensures
        in_visit_order(server_rows(server), 0),
        server_rows(server)[0].kind is Connection,
        forall|i: int|
            1 <= i < server_rows(server).len() ==> (#[trigger] server_rows(server)[i]).depth >= 1
                && !(server_rows(server)[i].kind is Connection),
{
    lemma_sound_databases(server.databases, server.level);
    lemma_sound_beside(server);
    lemma_sound_join(databases_rows(server.databases, server.level), beside(server), 1);
    let list = server_rows(server);
    let under = below(server);
    assert forall|i: int| 1 <= i < list.len() implies (#[trigger] list[i]).depth >= 1 && !(
    list[i].kind is Connection) by {
        assert(list[i] == under[i - 1]);
    }
    assert forall|h: int, i: int|
        #![trigger list[h], list[i]]
        0 <= h && i == h + 1 && i < list.len() implies list[i].depth <= list[h].depth + 1 by {
        assert(list[i] == under[i - 1]);
        if i > 1 {
            assert(list[h] == under[i - 2]);
        }
    }
}

/// A row opens something exactly when it stands for a relation or a key:
/// grouping rows open nothing, and no relation is a dead end.
pub proof fn only_relations_and_keys_open(server: ServerView)
    ensures
        opens_what_it_stands_for(server_rows(server)),
{
    lemma_sound_databases(server.databases, server.level);
    lemma_sound_beside(server);
    lemma_sound_join(databases_rows(server.databases, server.level), beside(server), 1);
    let list = server_rows(server);
    assert forall|i: int| 0 <= i < list.len() implies ((#[trigger] list[i]).target is Some <==> (
    list[i].kind.spec_is_relation() || list[i].kind is Key)) by {
        if i > 0 {
            assert(list[i] == below(server)[i - 1]);
        }
    }
}

/// In visit order, the way down to a row has as many steps as the row is deep,
/// and its own.
pub proof fn the_way_down_is_as_long_as_the_row_is_deep(list: Seq<Row>, at: int)
    requires
        in_visit_order(list, 0),
        0 <= at < list.len(),
    ensures
        trail(list, at).len() == list[at].depth + 1,
        trail(list, at).last() == (list[at].kind, list[at].name),
        trail(list, at)[0] == trail(list, 0)[0] || (exists|i: int| 0 < i <= at && list[i].depth == 0),
    decreases at,
{
    if at > 0 {
        the_way_down_is_as_long_as_the_row_is_deep(list, at - 1);
        assert(list[at].depth <= list[at - 1].depth + 1);
        if list[at].depth > 0 {
            assert(trail(list, at)[0] == trail(list, at - 1)[0]);
        } else {
            assert(list[at].depth == 0);
        }
    } else {
        assert(trail(list, -1).len() == 0);
    }
}

/// The row at a level that a row hangs from, or the row itself.
pub open spec fn above(list: Seq<Row>, at: int, level: nat) -> int
    decreases at,
{
    if at <= 0 || list[at].depth <= level {
        at
    } else {
        above(list, at - 1, level)
    }
}

/// Whether two rows hang from the same row.
pub open spec fn are_siblings(list: Seq<Row>, i: int, j: int) -> bool {
    &&& 0 <= i < j < list.len()
    &&& list[i].depth == list[j].depth
    &&& forall|k: int| i < k < j ==> (#[trigger] list[k]).depth >= list[i].depth
}

/// Whether rows that hang from the same row are of different kinds or have
/// different names.
pub open spec fn siblings_differ(list: Seq<Row>) -> bool {
    forall|i: int, j: int|
        #![trigger list[i], list[j]]
        are_siblings(list, i, j) ==> (list[i].kind, list[i].name) != (list[j].kind, list[j].name)
}

/// The row a row hangs from at a level is a step on the way down to it.
proof fn lemma_above(list: Seq<Row>, at: int, level: nat)
    requires
        in_visit_order(list, 0),
        0 <= at < list.len(),
        level <= list[at].depth,
    ensures
        0 <= above(list, at, level) <= at,
        list[above(list, at, level)].depth == level,
        forall|k: int| above(list, at, level) < k <= at ==> (#[trigger] list[k]).depth > level,
        trail(list, at).len() == list[at].depth + 1,
        trail(list, at)[level as int] == (
            list[above(list, at, level)].kind,
            list[above(list, at, level)].name,
        ),
    decreases at,
{
    the_way_down_is_as_long_as_the_row_is_deep(list, at);
    if at > 0 && list[at].depth > level {
        assert(list[at].depth <= list[at - 1].depth + 1);
        lemma_above(list, at - 1, level);
    }
}

/// Rows with the same way down hang from the same rows, level by level.
proof fn lemma_same_above(list: Seq<Row>, i: int, j: int, level: nat)
    requires
        in_visit_order(list, 0),
        siblings_differ(list),
        0 <= i < j < list.len(),
        trail(list, i) == trail(list, j),
        level <= list[i].depth,
        list[i].depth == list[j].depth,
    ensures
        above(list, i, level) == above(list, j, level),
    decreases level,
{
    lemma_above(list, i, level);
    lemma_above(list, j, level);
    let a = above(list, i, level);
    let b = above(list, j, level);
    if level > 0 {
        let up = (level - 1) as nat;
        lemma_same_above(list, i, j, up);
        lemma_above(list, i, up);
        lemma_above(list, j, up);
        let p = above(list, i, up);
        assert(list[p].depth == up);
        assert(p < a) by {
            if a <= p {
                assert(a < p ==> list[p].depth > level);
            }
        }
        assert(p < b) by {
            if b <= p {
                assert(b < p ==> list[p].depth > level);
            }
        }
    }
    if a < b {
        assert(are_siblings(list, a, b));
    } else if b < a {
        assert(are_siblings(list, b, a));
    }
}

/// Where rows that hang from the same row are told apart, no two rows have the
/// same way down to them.
pub proof fn every_row_has_a_way_of_its_own(list: Seq<Row>, i: int, j: int)
    requires
        in_visit_order(list, 0),
        siblings_differ(list),
        0 <= i < j < list.len(),
    ensures
        trail(list, i) != trail(list, j),
{
    if trail(list, i) == trail(list, j) {
        the_way_down_is_as_long_as_the_row_is_deep(list, i);
        the_way_down_is_as_long_as_the_row_is_deep(list, j);
        lemma_same_above(list, i, j, list[i].depth);
    }
}

/// A branch that hangs from the same place has the same ways down to its rows,
/// wherever in the list it stands.
pub proof fn a_branch_keeps_its_ways_down(
    a: Seq<Row>,
    i: int,
    b: Seq<Row>,
    j: int,
    depth: nat,
    k: int,
)
    requires
        0 <= i,
        0 <= j,
        0 <= k,
        i + k < a.len(),
        j + k < b.len(),
        depth <= trail(a, i - 1).len(),
        depth <= trail(b, j - 1).len(),
        trail(a, i - 1).take(depth as int) == trail(b, j - 1).take(depth as int),
        a[i].depth == depth,
        forall|n: int| 0 <= n <= k ==> #[trigger] a[i + n] == b[j + n],
        forall|n: int| 0 <= n <= k ==> (#[trigger] a[i + n]).depth >= depth,
    ensures
        trail(a, i + k) == trail(b, j + k),
    decreases k,
{
    assert(a[i + k] == b[j + k]);
    if k == 0 {
        assert(trail(a, i) =~= trail(b, j));
    } else {
        a_branch_keeps_its_ways_down(a, i, b, j, depth, k - 1);
    }
}

/// Where a database's rows stand among the rows of all of them.
proof fn lemma_database_stands_at(databases: Seq<DatabaseView>, x: int)
    requires
        0 <= x < databases.len(),
    ensures
        databases_rows(databases.take(x), true).len() + database_rows(databases[x]).len()
            <= databases_rows(databases, true).len(),
        databases_rows(databases.take(x + 1), true) == databases_rows(databases.take(x), true)
            + database_rows(databases[x]),
        forall|k: int|
            0 <= k < database_rows(databases[x]).len() ==> databases_rows(databases, true)[
            databases_rows(databases.take(x), true).len() + k] == #[trigger] database_rows(
                databases[x],
            )[k],
    decreases databases.len(),
{
    assert(databases.take(x + 1).drop_last() =~= databases.take(x));
    let front = databases.drop_last();
    if x < databases.len() - 1 {
        lemma_database_stands_at(front, x);
        assert(front.take(x) =~= databases.take(x));
    } else {
        assert(front =~= databases.take(x));
    }
}

/// Where a database's rows start among a connection's rows.
pub open spec fn database_start(server: ServerView, x: int) -> int {
    1 + databases_rows(server.databases.take(x), true).len() as int
}

proof fn lemma_root_step(server: ServerView, at: int)
    requires
        0 <= at < server_rows(server).len(),
    ensures
        trail(server_rows(server), at).len() >= 1,
        trail(server_rows(server), at)[0] == (NodeKind::Connection, server.name),
{
    let list = server_rows(server);
    the_tree_is_in_visit_order(server);
    the_way_down_is_as_long_as_the_row_is_deep(list, at);
    the_way_down_is_as_long_as_the_row_is_deep(list, 0);
    assert(trail(list, 0).len() == 1);
}

/// A database's rows show the same and keep their ids whatever other databases
/// of the server are open or listed, and wherever in the list that puts them.
/// A branch the reader folded stays folded when a catalog lands above it.
#[verifier::rlimit(40)]
#[verifier::spinoff_prover]
pub proof fn opening_another_database_changes_no_id(
    one: ServerView,
    x: int,
    two: ServerView,
    y: int,
    k: int,
)
    requires
        one.id == two.id,
        one.name == two.name,
        one.level && two.level,
        0 <= x < one.databases.len(),
        0 <= y < two.databases.len(),
        one.databases[x] == two.databases[y],
        0 <= k < database_rows(one.databases[x]).len(),
    ensures
        database_start(one, x) + k < server_entries(one).len(),
        database_start(two, y) + k < server_entries(two).len(),
        server_entries(one)[database_start(one, x) + k] == server_entries(two)[database_start(
            two,
            y,
        ) + k],
{
    let a = server_rows(one);
    let b = server_rows(two);
    let block = database_rows(one.databases[x]);
    let i = database_start(one, x);
    let j = database_start(two, y);
    lemma_database_stands_at(one.databases, x);
    lemma_database_stands_at(two.databases, y);
    lemma_sound_database(one.databases[x]);
    lemma_root_step(one, i - 1);
    lemma_root_step(two, j - 1);
    assert forall|n: int| 0 <= n < block.len() implies #[trigger] a[i + n] == block[n] && b[j + n]
        == block[n] by {
        assert(below(one)[i + n - 1] == databases_rows(one.databases, true)[i + n - 1]);
        assert(below(two)[j + n - 1] == databases_rows(two.databases, true)[j + n - 1]);
        assert(a[i + n] == below(one)[i + n - 1]);
        assert(b[j + n] == below(two)[j + n - 1]);
    }
    assert forall|n: int| 0 <= n <= k implies #[trigger] a[i + n] == b[j + n] && a[i + n].depth
        >= 1 by {
        assert(a[i + n] == block[n]);
    }
    assert(a[i + 0] == block[0]);
    assert(trail(a, i - 1).take(1) =~= trail(b, j - 1).take(1));
    a_branch_keeps_its_ways_down(a, i, b, j, 1, k);
    lemma_same_database(a, i, one.database, block, k);
    assert forall|n: int| 0 <= n < block.len() implies #[trigger] b[j + n] == block[n] by {
        assert(a[i + n] == block[n]);
    }
    lemma_same_database(b, j, two.database, block, k);
}

/// Every row of a database belongs to that database.
proof fn lemma_same_database(
    list: Seq<Row>,
    start: int,
    base: Option<Seq<char>>,
    block: Seq<Row>,
    k: int,
)
    requires
        0 <= start,
        0 <= k < block.len(),
        start + block.len() <= list.len(),
        forall|n: int| 0 <= n < block.len() ==> #[trigger] list[start + n] == block[n],
        block[0].kind is Database,
        none_of(block.skip(1), NodeKind::Database),
        forall|n: int| 1 <= n < block.len() ==> (#[trigger] block[n]).depth >= 2,
    ensures
        database_at(list, base, start + k) == Some(block[0].name),
    decreases k,
{
    assert(list[start + k] == block[k]);
    if k > 0 {
        assert(block.skip(1)[k - 1] == block[k]);
        lemma_same_database(list, start, base, block, k - 1);
    }
}

/// What a list of rows shows.
pub open spec fn shown(list: Seq<Entry>) -> Seq<Row> {
    Seq::new(list.len(), |i: int| list[i].row)
}

proof fn lemma_reach_to(list: Seq<Entry>, depth: nat, at: int, end: int)
    requires
        0 <= at <= end <= list.len(),
        forall|i: int| at <= i < end ==> (#[trigger] list[i]).row.depth > depth,
        end < list.len() ==> list[end].row.depth <= depth,
    ensures
        reach(list, depth, at) == end,
    decreases end - at,
{
    if at < end {
        lemma_reach_to(list, depth, at + 1, end);
    }
}

/// Whether no row of a list is a schema.
spec fn no_schemas(list: Seq<Entry>) -> bool {
    forall|i: int| 0 <= i < list.len() ==> !((#[trigger] list[i]).row.kind is Schema)
}

proof fn lemma_outside_flat(list: Seq<Entry>, at: int)
    requires
        0 <= at <= list.len(),
        forall|i: int|
            at <= i < list.len() ==> !((#[trigger] list[i]).row.kind is Database)
                && !(list[i].row.kind is Schema),
    ensures
        no_schemas(outside(list, at)),
    decreases list.len() - at,
{
    if at < list.len() {
        lemma_outside_flat(list, at + 1);
    }
}

proof fn lemma_outside_all(list: Seq<Entry>, at: int)
    requires
        0 <= at <= list.len(),
        forall|i: int| at <= i < list.len() ==> !((#[trigger] list[i]).row.kind is Database),
    ensures
        outside(list, at) == list.skip(at),
    decreases list.len() - at,
{
    if at < list.len() {
        lemma_outside_all(list, at + 1);
        assert(list.skip(at) =~= seq![list[at]] + list.skip(at + 1));
    } else {
        assert(list.skip(at) =~= Seq::empty());
    }
}

#[verifier::rlimit(60)]
#[verifier::spinoff_prover]
proof fn lemma_outside_databases(server: ServerView, list: Seq<Entry>, x: int)
    requires
        shown(list) == server_rows(server),
        server.level,
        0 <= x <= server.databases.len(),
    ensures
        0 <= database_start(server, x) <= list.len(),
        no_schemas(outside(list, database_start(server, x))),
    decreases server.databases.len() - x,
{
    let all = server_rows(server);
    let start = database_start(server, x);
    assert(list.len() == all.len());
    assert forall|i: int| 0 <= i < list.len() implies (#[trigger] list[i]).row == all[i] by {
        assert(shown(list)[i] == all[i]);
    }
    lemma_sound_beside(server);
    lemma_sound_databases(server.databases, server.level);
    if x == server.databases.len() {
        assert(server.databases.take(x) =~= server.databases);
        assert forall|i: int| start <= i < list.len() implies !((#[trigger] list[i]).row.kind is Database)
            && !(list[i].row.kind is Schema) by {
            assert(list[i].row == all[i]);
            assert(all[i] == below(server)[i - 1]);
            assert(below(server)[i - 1] == beside(server)[i - start]);
        }
        lemma_outside_flat(list, start);
    } else {
        lemma_outside_databases(server, list, x + 1);
        lemma_database_stands_at(server.databases, x);
        lemma_sound_database(server.databases[x]);
        let block = database_rows(server.databases[x]);
        let end = database_start(server, x + 1);
        assert(end == start + block.len());
        assert forall|n: int| 0 <= n < block.len() implies (#[trigger] list[start + n]).row
            == block[n] by {
            assert(all[start + n] == below(server)[start + n - 1]);
            assert(below(server)[start + n - 1] == databases_rows(server.databases, true)[start + n
                - 1]);
        }
        assert(list[start + 0].row == block[0]);
        assert forall|i: int| start + 1 <= i < end implies (#[trigger] list[i]).row.depth > 1 by {
            assert(list[start + (i - start)].row == block[i - start]);
        }
        if end < list.len() {
            assert(list[end].row == all[end]);
            assert(all[end] == below(server)[end - 1]);
            if x + 1 < server.databases.len() {
                lemma_database_stands_at(server.databases, x + 1);
                lemma_sound_database(server.databases[x + 1]);
                let next = database_rows(server.databases[x + 1]);
                assert(next[0] == databases_rows(server.databases, true)[end - 1 + 0]);
            } else {
                assert(server.databases.take(x + 1) =~= server.databases);
                assert(below(server)[end - 1] == beside(server)[0]);
            }
            assert(list[end].row.depth <= 1);
        }
        lemma_reach_to(list, 1, start + 1, end);
        assert(outside(list, start) =~= seq![list[start]] + outside(list, end));
    }
}

proof fn lemma_level_without_schemas(list: Seq<Entry>)
    requires
        no_schemas(list),
    ensures
        schema_level(list) == 2,
        schema_count(list) == 0,
    decreases list.len(),
{
    let keep = |n: Entry| n.row.kind is Schema;
    reveal(Seq::filter);
    if list.len() > 0 {
        assert(no_schemas(list.drop_first()));
        lemma_level_without_schemas(list.drop_first());
        assert(no_schemas(list.drop_last()));
        lemma_level_without_schemas(list.drop_last());
        assert(list.filter(keep) =~= list.drop_last().filter(keep));
    } else {
        assert(list.filter(keep) =~= Seq::empty());
    }
}

proof fn lemma_level_below_the_root(list: Seq<Entry>)
    requires
        forall|i: int|
            0 <= i < list.len() && (#[trigger] list[i]).row.kind is Schema ==> list[i].row.depth >= 1,
    ensures
        schema_level(list) >= 1,
    decreases list.len(),
{
    if list.len() > 0 && !(list[0].row.kind is Schema) {
        lemma_level_below_the_root(list.drop_first());
    }
}

/// Every database of a connection hangs from the connection's own row.
pub proof fn databases_are_one_deep(server: ServerView)
    ensures
        forall|i: int|
            0 <= i < server_rows(server).len() && (#[trigger] server_rows(
                server,
            )[i]).kind is Database ==> server_rows(server)[i].depth == 1,
{
    let all = server_rows(server);
    let front = databases_rows(server.databases, server.level);
    lemma_sound_databases(server.databases, server.level);
    lemma_sound_beside(server);
    if server.level {
        lemma_databases_are_one_deep(server.databases);
    }
    assert forall|i: int| 0 <= i < all.len() && (#[trigger] all[i]).kind is Database implies
        all[i].depth == 1 by {
        if i > 0 {
            assert(all[i] == below(server)[i - 1]);
            if i - 1 < front.len() {
                assert(all[i] == front[i - 1]);
            } else {
                assert(all[i] == beside(server)[i - 1 - front.len()]);
            }
        }
    }
}

/// The connection and its databases start open: their rows are outside every
/// database, and less deep than what starts closed there.
pub proof fn the_root_and_its_databases_start_open(server: ServerView, list: Seq<Entry>)
    requires
        shown(list) == server_rows(server),
    ensures
        forall|i: int|
            0 <= i < list.len() && ((#[trigger] list[i]).row.kind is Connection
                || list[i].row.kind is Database) ==> list[i].row.depth < floor(outside(list, 0)),
{
    let all = server_rows(server);
    assert forall|i: int| 0 <= i < list.len() implies (#[trigger] list[i]).row == all[i] by {
        assert(shown(list)[i] == all[i]);
    }
    assert(list.len() == all.len());
    the_tree_is_in_visit_order(server);
    lemma_sound_databases(server.databases, server.level);
    lemma_sound_beside(server);
    assert forall|i: int| 0 <= i < list.len() && (#[trigger] list[i]).row.kind is Connection implies i
        == 0 by {
        if i > 0 {
            assert(!(all[i].kind is Connection));
        }
    }
    if server.level {
        assert(server.databases.take(0) =~= Seq::empty());
        lemma_outside_databases(server, list, 0);
        assert(list[0].row == all[0]);
        assert(outside(list, 0) =~= seq![list[0]] + outside(list, 1));
        lemma_level_without_schemas(outside(list, 0));
        lemma_databases_are_one_deep(server.databases);
        assert forall|i: int| 0 <= i < list.len() && (#[trigger] list[i]).row.kind is Database implies
            list[i].row.depth == 1 by {
            assert(list[i].row == all[i]);
            assert(all[i] == below(server)[i - 1]);
            if i - 1 < databases_rows(server.databases, true).len() {
                assert(all[i] == databases_rows(server.databases, true)[i - 1]);
            } else {
                assert(all[i] == beside(server)[i - 1 - databases_rows(
                    server.databases,
                    true,
                ).len()]);
            }
        }
    } else {
        assert forall|i: int| 0 <= i < list.len() implies !((#[trigger] list[i]).row.kind is Database) by {
            assert(list[i].row == all[i]);
            if i > 0 {
                assert(all[i] == below(server)[i - 1]);
                let front = databases_rows(server.databases, false);
                if i - 1 < front.len() {
                    assert(all[i] == front[i - 1]);
                } else {
                    assert(all[i] == beside(server)[i - 1 - front.len()]);
                }
            }
        }
        lemma_outside_all(list, 0);
        assert(list.skip(0) =~= list);
        assert forall|i: int| 0 <= i < list.len() && (#[trigger] list[i]).row.kind is Schema implies
            list[i].row.depth >= 1 by {
            assert(list[i].row == all[i]);
            if i == 0 {
                assert(all[0].kind is Connection);
            }
        }
        lemma_level_below_the_root(list);
        assert(list[0].row == all[0]);
    }
}

proof fn lemma_databases_are_one_deep(databases: Seq<DatabaseView>)
    ensures
        forall|i: int|
            0 <= i < databases_rows(databases, true).len() && (#[trigger] databases_rows(
                databases,
                true,
            )[i]).kind is Database ==> databases_rows(databases, true)[i].depth == 1,
    decreases databases.len(),
{
    if databases.len() > 0 {
        lemma_databases_are_one_deep(databases.drop_last());
        let front = databases_rows(databases.drop_last(), true);
        let block = database_rows(databases.last());
        lemma_sound_database(databases.last());
        let list = databases_rows(databases, true);
        assert forall|i: int| 0 <= i < list.len() && (#[trigger] list[i]).kind is Database implies
            list[i].depth == 1 by {
            if i < front.len() {
                assert(list[i] == front[i]);
            } else {
                let n = i - front.len();
                assert(list[i] == block[n]);
                if n > 0 {
                    assert(block.skip(1)[n - 1] == block[n]);
                }
            }
        }
    }
}

} // verus!
