//! The sidebar tree, flattened.
//!
//! One list in visit order rather than a graph of parents and children. The
//! sidebar is a scrolling list of rows, and a flat list is what a list wants:
//! filtering, keyboard navigation and drawing only what shows are all linear
//! passes, and collapsing a branch is "skip while depth is greater".
use crate::catalog::{
    Capabilities, KeyInfo, KeyType, Keyspace, Relation, RelationKind, RelationRef, Role, RoleSet,
    Routine, Schema, SchemaSnapshot,
};
use crate::keys::{in_order, key_rows, push_keys};
use crate::lists::{lemma_filter_all, lemma_filter_none, lemma_filter_step};
use crate::text::{decimal, decimal_text, maybe, push_decimal, same, texts};
use crate::wording::{
    counted, estimate, first_word, plural, role_line, role_meta, row_estimate, scan_count, scanned,
    short_version,
};
use std::collections::hash_map::DefaultHasher;
use std::hash::Hasher;
use vstd::bytes::{spec_u64_to_le_bytes, u64_to_le_bytes};
use vstd::prelude::*;
use vstd::std_specs::hash::DefaultHasherAdditionalSpecFns;

verus! {

/// What a row is.
#[derive(Clone, Copy, PartialEq, Eq, Structural, Debug)]
pub enum NodeKind {
    Connection,
    Database,
    SchemaGroup,
    Schema,
    TableGroup,
    Table,
    View,
    MaterializedView,
    FunctionGroup,
    Function,
    /// The heading over the roles. A sibling of the databases rather than a
    /// child of one, because a role is a property of the server.
    RoleGroup,
    /// A role that can log in.
    Role,
    /// A role that cannot, which everybody calls a group.
    RoleGroupMember,
    /// A logical database of a key-value server.
    KeyDatabase,
    /// A `:`-separated prefix that several keys share. Not a thing on the
    /// server: the server has a flat namespace, and this is the convention
    /// everybody names keys by, drawn as the folder it is pretending to be.
    KeyFolder,
    Key,
}

impl NodeKind {
    /// Whether a row stands for a relation.
    pub open spec fn spec_is_relation(self) -> bool {
        self is Table || self is View || self is MaterializedView
    }

    /// The place of the kind in the list of kinds.
    pub open spec fn code(self) -> u8 {
        match self {
            NodeKind::Connection => 0,
            NodeKind::Database => 1,
            NodeKind::SchemaGroup => 2,
            NodeKind::Schema => 3,
            NodeKind::TableGroup => 4,
            NodeKind::Table => 5,
            NodeKind::View => 6,
            NodeKind::MaterializedView => 7,
            NodeKind::FunctionGroup => 8,
            NodeKind::Function => 9,
            NodeKind::RoleGroup => 10,
            NodeKind::Role => 11,
            NodeKind::RoleGroupMember => 12,
            NodeKind::KeyDatabase => 13,
            NodeKind::KeyFolder => 14,
            NodeKind::Key => 15,
        }
    }

    /// Whether double-clicking this row should open a data tab.
    pub fn is_relation(self) -> (answer: bool)
        ensures
            answer == self.spec_is_relation(),
    {
        matches!(self, NodeKind::Table | NodeKind::View | NodeKind::MaterializedView)
    }

    /// The place of the kind in the list of kinds.
    fn place(self) -> (code: u8)
        ensures
            code == self.code(),
    {
        match self {
            NodeKind::Connection => 0,
            NodeKind::Database => 1,
            NodeKind::SchemaGroup => 2,
            NodeKind::Schema => 3,
            NodeKind::TableGroup => 4,
            NodeKind::Table => 5,
            NodeKind::View => 6,
            NodeKind::MaterializedView => 7,
            NodeKind::FunctionGroup => 8,
            NodeKind::Function => 9,
            NodeKind::RoleGroup => 10,
            NodeKind::Role => 11,
            NodeKind::RoleGroupMember => 12,
            NodeKind::KeyDatabase => 13,
            NodeKind::KeyFolder => 14,
            NodeKind::Key => 15,
        }
    }
}

/// What a row opens.
#[derive(Debug)]
pub enum Target {
    Relation(RelationRef),
    /// A key and what it holds. The type comes along because the listing
    /// already knew it.
    Key(Vec<u8>, KeyType),
}

/// What a row opens, as a value.
pub enum Goal {
    Relation(Seq<char>, Seq<char>),
    Key(Seq<u8>, KeyType),
}

impl Target {
    /// What the row opens, as a value.
    pub open spec fn goal(&self) -> Goal {
        match self {
            Target::Relation(reference) => Goal::Relation(reference.schema@, reference.name@),
            Target::Key(key, kind) => Goal::Key(key@, *kind),
        }
    }

    /// The relation this opens, if that is what it opens.
    pub fn relation(&self) -> (found: Option<&RelationRef>)
        ensures
            found == match self {
                Target::Relation(reference) => Some(reference),
                Target::Key(_, _) => None,
            },
    {
        match self {
            Target::Relation(reference) => Some(reference),
            Target::Key(_, _) => None,
        }
    }

    /// The key this opens and what it holds, if that is what it opens.
    pub fn key(&self) -> (found: Option<(&Vec<u8>, &KeyType)>)
        ensures
            found == match self {
                Target::Key(key, kind) => Some((key, kind)),
                Target::Relation(_) => None,
            },
    {
        match self {
            Target::Key(key, kind) => Some((key, kind)),
            Target::Relation(_) => None,
        }
    }
}

/// The session a row belongs to.
#[derive(Debug)]
pub struct Origin {
    /// The saved connection's id.
    pub connection: u128,
    /// The database this row is under. `None` above the level where databases
    /// are chosen: the connection row itself, and the roles beside them.
    pub database: Option<String>,
}

/// A row of the sidebar.
pub struct TreeNode {
    /// A hash of the path from the connection down to this row, and not its
    /// position: rows come and go as catalogs land, and collapse state is
    /// remembered by id.
    pub id: usize,
    pub depth: usize,
    pub kind: NodeKind,
    pub name: String,
    /// The grey text on the right of the row: a count, a row estimate, a size.
    pub meta: Option<String>,
    pub expandable: bool,
    /// What to open when the row is activated. `None` for the grouping rows,
    /// which exist only to be collapsed.
    pub target: Option<Target>,
    /// Which session's row this is.
    pub origin: Origin,
}

/// What a row of the sidebar shows and opens, as a value.
#[verifier::ext_equal]
pub struct Row {
    pub depth: nat,
    pub kind: NodeKind,
    pub name: Seq<char>,
    pub meta: Option<Seq<char>>,
    pub expandable: bool,
    pub target: Option<Goal>,
}

/// A row with nothing beside its name.
pub open spec fn plain(depth: nat, kind: NodeKind, name: Seq<char>) -> Row {
    Row { depth, kind, name, meta: None, expandable: false, target: None }
}

/// A row that can be folded, with a note on the right.
pub open spec fn group(depth: nat, kind: NodeKind, name: Seq<char>, meta: Seq<char>) -> Row {
    Row { meta: Some(meta), expandable: true, ..plain(depth, kind, name) }
}

/// What a list of rows shows.
pub open spec fn rows(nodes: Seq<TreeNode>) -> Seq<Row> {
    Seq::new(nodes.len(), |i: int| nodes[i].row())
}

impl TreeNode {
    /// What the row shows and opens.
    pub open spec fn row(&self) -> Row {
        Row {
            depth: self.depth as nat,
            kind: self.kind,
            name: self.name@,
            meta: maybe(self.meta),
            expandable: self.expandable,
            target: match self.target {
                Some(target) => Some(target.goal()),
                None => None,
            },
        }
    }

    /// A row, before a pass over the finished subtree gives it its id and its
    /// origin.
    pub(crate) fn new(depth: usize, kind: NodeKind, name: String) -> (node: TreeNode)
        ensures
            node.row() == plain(depth as nat, kind, name@),
    {
        TreeNode {
            id: 0,
            depth,
            kind,
            name,
            meta: None,
            expandable: false,
            target: None,
            origin: Origin { connection: 0, database: None },
        }
    }

    /// The row with a note on the right.
    pub(crate) fn meta(self, meta: Option<String>) -> (node: TreeNode)
        ensures
            node.row() == (Row { meta: maybe(meta), ..self.row() }),
    {
        TreeNode { meta, ..self }
    }

    /// The row with a triangle.
    pub(crate) fn expandable(self) -> (node: TreeNode)
        ensures
            node.row() == (Row { expandable: true, ..self.row() }),
    {
        TreeNode { expandable: true, ..self }
    }

    /// The row opening a relation.
    pub(crate) fn target(self, target: &RelationRef) -> (node: TreeNode)
        ensures
            node.row() == (Row {
                target: Some(Goal::Relation(target.schema@, target.name@)),
                ..self.row()
            }),
    {
        TreeNode { target: Some(Target::Relation(target.clone())), ..self }
    }

    /// The row opening a key.
    pub(crate) fn key(self, key: &Vec<u8>, kind: &KeyType) -> (node: TreeNode)
        ensures
            node.row() == (Row { target: Some(Goal::Key(key@, *kind)), ..self.row() }),
    {
        let copy = key.clone();
        assert(copy@ =~= key@);
        TreeNode { target: Some(Target::Key(copy, kind.clone())), ..self }
    }
}

/// One connection as a root of the sidebar: the row, and whatever is open
/// under it.
pub struct Server<'a> {
    /// The saved connection's own id, which is what makes this root's row ids
    /// its own. The id and not the name: two saved connections may both be
    /// called `dev`.
    pub id: u128,
    pub name: String,
    pub capabilities: Capabilities,
    /// The database the connection row itself stands for: the one a click on
    /// the row, or on the roles beside it, should act on. A database row below
    /// overrides it for its own subtree.
    pub database: Option<String>,
    /// Every database on the server, in the order to draw them, each carrying
    /// its catalog if a session on it has one yet.
    pub databases: Vec<Database<'a>>,
    pub keyspace: Option<Keys<'a>>,
    pub roles: Option<&'a RoleSet>,
    /// What the row says on the right while there is nothing under it yet:
    /// where it would connect to, or how far it has got trying.
    pub state: Option<String>,
}

/// A database on a server, and its catalog if it has been read.
pub struct Database<'a> {
    pub name: String,
    /// `None` for a database that is on the server but that nobody has opened.
    /// It is a name with nothing under it until it is clicked.
    pub snapshot: Option<&'a SchemaSnapshot>,
}

/// A key-value server's keyspace, as far as it has been walked.
pub struct Keys<'a> {
    pub version: String,
    pub keyspace: &'a Keyspace,
    pub keys: &'a [KeyInfo],
    /// Whether the walk that produced `keys` reached the end.
    pub complete: bool,
}

/// A database on a server, as a value.
#[verifier::ext_equal]
pub struct DatabaseView {
    pub name: Seq<char>,
    pub snapshot: Option<SchemaSnapshot>,
}

/// A keyspace as far as it has been walked, as a value.
#[verifier::ext_equal]
pub struct KeysView {
    pub version: Seq<char>,
    pub keyspace: Keyspace,
    pub keys: Seq<KeyInfo>,
    pub complete: bool,
}

/// One connection as a root of the sidebar, as a value.
#[verifier::ext_equal]
pub struct ServerView {
    pub id: u128,
    pub name: Seq<char>,
    /// Whether databases stand above the schemas.
    pub level: bool,
    pub database: Option<Seq<char>>,
    pub databases: Seq<DatabaseView>,
    pub keyspace: Option<KeysView>,
    pub roles: Option<RoleSet>,
    pub state: Option<Seq<char>>,
}

impl<'a> View for Database<'a> {
    type V = DatabaseView;

    open spec fn view(&self) -> DatabaseView {
        DatabaseView {
            name: self.name@,
            snapshot: match self.snapshot {
                Some(snapshot) => Some(*snapshot),
                None => None,
            },
        }
    }
}

impl<'a> View for Keys<'a> {
    type V = KeysView;

    open spec fn view(&self) -> KeysView {
        KeysView {
            version: self.version@,
            keyspace: *self.keyspace,
            keys: self.keys@,
            complete: self.complete,
        }
    }
}

/// A list of databases as values.
pub open spec fn database_views(databases: Seq<Database>) -> Seq<DatabaseView> {
    Seq::new(databases.len(), |i: int| databases[i]@)
}

impl<'a> View for Server<'a> {
    type V = ServerView;

    open spec fn view(&self) -> ServerView {
        ServerView {
            id: self.id,
            name: self.name@,
            level: self.capabilities.databases,
            database: maybe(self.database),
            databases: database_views(self.databases@),
            keyspace: match self.keyspace {
                Some(keys) => Some(keys@),
                None => None,
            },
            roles: match self.roles {
                Some(set) => Some(*set),
                None => None,
            },
            state: maybe(self.state),
        }
    }
}

/// Whether a relation is listed under `tables`.
pub open spec fn is_table(relation: Relation) -> bool {
    relation.kind is Table || relation.kind is Partitioned || relation.kind is Foreign
}

/// The row of a table.
pub open spec fn table_row(relation: Relation, depth: nat) -> Row {
    Row {
        meta: Some(estimate(relation.estimated_rows as int)),
        target: Some(Goal::Relation(relation.reference.schema@, relation.reference.name@)),
        ..plain(depth, NodeKind::Table, relation.reference.name@)
    }
}

/// The row of a view.
pub open spec fn view_row(relation: Relation, depth: nat) -> Row {
    Row {
        target: Some(Goal::Relation(relation.reference.schema@, relation.reference.name@)),
        ..plain(
            depth,
            if relation.kind is MaterializedView {
                NodeKind::MaterializedView
            } else {
                NodeKind::View
            },
            relation.reference.name@,
        )
    }
}

/// A heading with its rows under it, and nothing at all when there are none.
pub open spec fn section(kind: NodeKind, name: Seq<char>, depth: nat, below: Seq<Row>) -> Seq<Row> {
    if below.len() == 0 {
        Seq::empty()
    } else {
        seq![group(depth, kind, name, decimal(below.len()))] + below
    }
}

/// The rows of the tables among some relations.
pub open spec fn table_rows(relations: Seq<Relation>, depth: nat) -> Seq<Row> {
    relations.filter(|r: Relation| is_table(r)).map_values(|r: Relation| table_row(r, depth))
}

/// The rows of the views among some relations.
pub open spec fn view_rows(relations: Seq<Relation>, depth: nat) -> Seq<Row> {
    relations.filter(|r: Relation| r.kind.spec_is_view()).map_values(
        |r: Relation| view_row(r, depth),
    )
}

/// The rows of some routines.
pub open spec fn routine_rows(routines: Seq<Routine>, depth: nat) -> Seq<Row> {
    routines.map_values(|r: Routine| plain(depth, NodeKind::Function, r.name@))
}

/// The rows of a schema: its own, then its tables, its views and its
/// functions, each under a heading that is there only if they are.
pub open spec fn schema_rows(schema: Schema, depth: nat) -> Seq<Row> {
    seq![
        group(
            depth,
            NodeKind::Schema,
            schema.name@,
            counted(schema.relations@.len(), "table"@, "tables"@),
        ),
    ] + section(
        NodeKind::TableGroup,
        "tables"@,
        depth + 1,
        table_rows(schema.relations@, depth + 2),
    ) + section(
        NodeKind::TableGroup,
        "views"@,
        depth + 1,
        view_rows(schema.relations@, depth + 2),
    ) + section(
        NodeKind::FunctionGroup,
        "functions"@,
        depth + 1,
        routine_rows(schema.routines@, depth + 2),
    )
}

/// The rows of a catalog's schemas, one after another.
pub open spec fn schemas_rows(schemas: Seq<Schema>, depth: nat) -> Seq<Row>
    decreases schemas.len(),
{
    if schemas.len() == 0 {
        Seq::empty()
    } else {
        schemas_rows(schemas.drop_last(), depth) + schema_rows(schemas.last(), depth)
    }
}

/// The rows of a database where databases stand above schemas.
pub open spec fn database_rows(database: DatabaseView) -> Seq<Row> {
    match database.snapshot {
        Some(snapshot) => seq![
            group(
                1,
                NodeKind::Database,
                database.name,
                counted(snapshot.schemas@.len(), "schema"@, "schemas"@),
            ),
        ] + schemas_rows(snapshot.schemas@, 2),
        None => seq![plain(1, NodeKind::Database, database.name)],
    }
}

/// The rows of a server's databases, or of their schemas where the engine has
/// no level of databases.
pub open spec fn databases_rows(databases: Seq<DatabaseView>, level: bool) -> Seq<Row>
    decreases databases.len(),
{
    if databases.len() == 0 {
        Seq::empty()
    } else {
        databases_rows(databases.drop_last(), level) + if level {
            database_rows(databases.last())
        } else {
            match databases.last().snapshot {
                Some(snapshot) => schemas_rows(snapshot.schemas@, 1),
                None => Seq::empty(),
            }
        }
    }
}

/// The name of a logical database.
pub open spec fn key_database_name(index: u64) -> Seq<char> {
    "DB "@ + decimal(index as nat)
}

/// The rows of one logical database: only the open one has keys to show.
pub open spec fn key_database_rows(keys: KeysView, at: int, depth: nat) -> Seq<Row> {
    let database = keys.keyspace.databases@[at];
    let name = key_database_name(database.index);
    let meta = counted(database.keys as usize as nat, "key"@, "keys"@);
    if database.index == keys.keyspace.current {
        seq![group(depth, NodeKind::KeyDatabase, name, meta)] + key_rows(
            keys.keys,
            in_order(keys.keys),
            depth + 1,
        )
    } else {
        seq![Row { meta: Some(meta), ..plain(depth, NodeKind::KeyDatabase, name) }]
    }
}

/// The rows of the first `count` logical databases.
pub open spec fn first_key_databases(keys: KeysView, count: nat, depth: nat) -> Seq<Row>
    decreases count,
{
    if count == 0 {
        Seq::empty()
    } else {
        first_key_databases(keys, (count - 1) as nat, depth) + key_database_rows(
            keys,
            count - 1,
            depth,
        )
    }
}

/// The rows of a key-value server's databases. A server that lists none still
/// has the one the connection is on.
pub open spec fn key_databases_rows(keys: KeysView, depth: nat) -> Seq<Row> {
    if keys.keyspace.databases@.len() == 0 {
        seq![
            group(
                depth,
                NodeKind::KeyDatabase,
                key_database_name(keys.keyspace.current),
                scan_count(keys.keys.len(), keys.complete),
            ),
        ] + key_rows(keys.keys, in_order(keys.keys), depth + 1)
    } else {
        first_key_databases(keys, keys.keyspace.databases@.len(), depth)
    }
}

/// The row of a role.
pub open spec fn role_row(role: Role, current: Seq<char>) -> Row {
    Row {
        meta: role_line(role, role.name@ == current),
        ..plain(
            2,
            if role.can_login {
                NodeKind::Role
            } else {
                NodeKind::RoleGroupMember
            },
            role.name@,
        )
    }
}

/// The rows of the roles, under their heading. One role alone is not listed:
/// it is the name you are already logged in as.
pub open spec fn roles_rows(set: RoleSet) -> Seq<Row> {
    if set.roles@.len() > 1 {
        seq![group(1, NodeKind::RoleGroup, "roles"@, decimal(set.roles@.len()))]
            + set.roles@.map_values(|r: Role| role_row(r, set.current@))
    } else {
        Seq::empty()
    }
}

/// Everything under a connection's own row: its databases, its keys, and its
/// roles.
pub open spec fn below(server: ServerView) -> Seq<Row> {
    databases_rows(server.databases, server.level) + match server.keyspace {
        Some(keys) => key_databases_rows(keys, 1),
        None => Seq::empty(),
    } + match server.roles {
        Some(set) => roles_rows(set),
        None => Seq::empty(),
    }
}

/// The version of the first database that is open.
pub open spec fn open_version(databases: Seq<DatabaseView>) -> Option<Seq<char>>
    decreases databases.len(),
{
    if databases.len() == 0 {
        None
    } else {
        match databases[0].snapshot {
            Some(snapshot) => Some(first_word(snapshot.server_version@)),
            None => open_version(databases.drop_first()),
        }
    }
}

/// What a connection's row says on the right: the server's version as soon as
/// something is open on it, and until then where it would go.
pub open spec fn root_note(server: ServerView) -> Option<Seq<char>> {
    match open_version(server.databases) {
        Some(version) => Some(version),
        None => match server.keyspace {
            Some(keys) => Some(first_word(keys.version)),
            None => server.state,
        },
    }
}

/// The rows of one connection, from its own row down. The triangle is there
/// exactly when something is under it.
pub open spec fn server_rows(server: ServerView) -> Seq<Row> {
    seq![
        Row {
            meta: root_note(server),
            expandable: below(server).len() > 0,
            ..plain(0, NodeKind::Connection, server.name)
        },
    ] + below(server)
}

/// Append the rows of the tables or the views of a schema, under a heading.
fn push_section(
    nodes: &mut Vec<TreeNode>,
    kind: NodeKind,
    name: &str,
    depth: usize,
    below: Vec<TreeNode>,
)
    ensures
        rows(final(nodes)@) == rows(old(nodes)@) + section(
            kind,
            name@,
            depth as nat,
            rows(below@),
        ),
{
    let ghost start = rows(nodes@);
    let ghost under = rows(below@);
    if below.len() > 0 {
        nodes.push(
            TreeNode::new(depth, kind, name.to_owned()).meta(
                Some(decimal_text(below.len() as u64)),
            ).expandable(),
        );
        let mut below = below;
        nodes.append(&mut below);
        assert(rows(nodes@) =~= start + section(kind, name@, depth as nat, under));
    } else {
        assert(rows(nodes@) =~= start + section(kind, name@, depth as nat, under));
    }
}

/// Append every schema of a catalog, starting at `depth`.
fn push_schemas(nodes: &mut Vec<TreeNode>, snapshot: &SchemaSnapshot, depth: usize)
    requires
        depth <= 2,
    ensures
        rows(final(nodes)@) == rows(old(nodes)@) + schemas_rows(snapshot.schemas@, depth as nat),
{
    let ghost start = rows(nodes@);
    let mut at: usize = 0;
    assert(start + schemas_rows(snapshot.schemas@.take(0), depth as nat) =~= start);
    while at < snapshot.schemas.len()
        invariant
            at <= snapshot.schemas@.len(),
            depth <= 2,
            rows(nodes@) == start + schemas_rows(
                snapshot.schemas@.take(at as int),
                depth as nat,
            ),
        decreases snapshot.schemas@.len() - at,
    {
        let ghost had = rows(nodes@);
        push_schema(nodes, &snapshot.schemas[at], depth);
        at += 1;
        proof {
            let now = snapshot.schemas@.take(at as int);
            assert(now.drop_last() =~= snapshot.schemas@.take(at - 1));
            assert(rows(nodes@) =~= start + schemas_rows(now, depth as nat));
        }
    }
    assert(snapshot.schemas@.take(at as int) =~= snapshot.schemas@);
}

/// Append one schema.
fn push_schema(nodes: &mut Vec<TreeNode>, schema: &Schema, depth: usize)
    requires
        depth <= 2,
    ensures
        rows(final(nodes)@) == rows(old(nodes)@) + schema_rows(*schema, depth as nat),
{
    let ghost start = rows(nodes@);
    let mut tables: Vec<TreeNode> = Vec::new();
    let mut views: Vec<TreeNode> = Vec::new();
    let ghost relations = schema.relations@;
    let ghost deep = (depth + 2) as nat;
    let ghost table = |r: Relation| is_table(r);
    let ghost view = |r: Relation| r.kind.spec_is_view();
    proof {
        lemma_filter_none(relations, table);
        lemma_filter_none(relations, view);
        assert(rows(tables@) =~= table_rows(relations.take(0), deep));
        assert(rows(views@) =~= view_rows(relations.take(0), deep));
    }
    let mut at: usize = 0;
    while at < schema.relations.len()
        invariant
            at <= relations.len(),
            depth <= 2,
            deep == depth + 2,
            relations == schema.relations@,
            table == (|r: Relation| is_table(r)),
            view == (|r: Relation| r.kind.spec_is_view()),
            rows(tables@) == table_rows(relations.take(at as int), deep),
            rows(views@) == view_rows(relations.take(at as int), deep),
        decreases relations.len() - at,
    {
        let relation = &schema.relations[at];
        let ghost had_tables = rows(tables@);
        let ghost had_views = rows(views@);
        proof {
            lemma_filter_step(relations, table, at as int);
            lemma_filter_step(relations, view, at as int);
        }
        let name = relation.reference.name.clone();
        match relation.kind {
            RelationKind::Table | RelationKind::Partitioned | RelationKind::Foreign => {
                tables.push(
                    TreeNode::new(depth + 2, NodeKind::Table, name).meta(
                        Some(row_estimate(relation.estimated_rows)),
                    ).target(&relation.reference),
                );
                assert(rows(tables@) =~= had_tables.push(table_row(*relation, deep)));
            },
            RelationKind::MaterializedView => {
                views.push(
                    TreeNode::new(depth + 2, NodeKind::MaterializedView, name).target(
                        &relation.reference,
                    ),
                );
                assert(rows(views@) =~= had_views.push(view_row(*relation, deep)));
            },
            RelationKind::View => {
                views.push(
                    TreeNode::new(depth + 2, NodeKind::View, name).target(&relation.reference),
                );
                assert(rows(views@) =~= had_views.push(view_row(*relation, deep)));
            },
        }
        at += 1;
        assert(rows(tables@) =~= table_rows(relations.take(at as int), deep));
        assert(rows(views@) =~= view_rows(relations.take(at as int), deep));
    }
    let mut routines: Vec<TreeNode> = Vec::new();
    let mut next: usize = 0;
    while next < schema.routines.len()
        invariant
            next <= schema.routines@.len(),
            depth <= 2,
            deep == depth + 2,
            rows(routines@) == routine_rows(schema.routines@.take(next as int), deep),
        decreases schema.routines@.len() - next,
    {
        let ghost had = rows(routines@);
        routines.push(
            TreeNode::new(depth + 2, NodeKind::Function, schema.routines[next].name.clone()),
        );
        assert(rows(routines@) =~= had.push(
            plain(deep, NodeKind::Function, schema.routines@[next as int].name@),
        ));
        next += 1;
        assert(rows(routines@) =~= routine_rows(schema.routines@.take(next as int), deep));
    }
    proof {
        lemma_filter_all(relations, table);
        lemma_filter_all(relations, view);
        assert(schema.routines@.take(next as int) =~= schema.routines@);
        assert(rows(tables@) == table_rows(relations, deep));
        assert(rows(views@) == view_rows(relations, deep));
        assert(rows(routines@) == routine_rows(schema.routines@, deep));
    }
    let ghost head = group(
        depth as nat,
        NodeKind::Schema,
        schema.name@,
        counted(relations.len(), "table"@, "tables"@),
    );
    nodes.push(
        TreeNode::new(depth, NodeKind::Schema, schema.name.clone()).meta(
            Some(plural(schema.relations.len(), "table", "tables")),
        ).expandable(),
    );
    assert(rows(nodes@) =~= start + seq![head]);
    push_section(nodes, NodeKind::TableGroup, "tables", depth + 1, tables);
    push_section(nodes, NodeKind::TableGroup, "views", depth + 1, views);
    push_section(nodes, NodeKind::FunctionGroup, "functions", depth + 1, routines);
    assert(rows(nodes@) =~= start + schema_rows(*schema, depth as nat));
}

/// Append a server's databases, or their schemas where the engine has no level
/// of databases.
fn push_databases(nodes: &mut Vec<TreeNode>, databases: &Vec<Database>, level: bool)
    ensures
        rows(final(nodes)@) == rows(old(nodes)@) + databases_rows(
            database_views(databases@),
            level,
        ),
{
    let ghost all = database_views(databases@);
    let ghost start = rows(nodes@);
    let mut at: usize = 0;
    assert(start + databases_rows(all.take(0), level) =~= start);
    while at < databases.len()
        invariant
            at <= databases@.len(),
            all == database_views(databases@),
            rows(nodes@) == start + databases_rows(all.take(at as int), level),
        decreases databases@.len() - at,
    {
        let ghost had = rows(nodes@);
        let database = &databases[at];
        if level {
            let node = TreeNode::new(1, NodeKind::Database, database.name.clone());
            match database.snapshot {
                Some(snapshot) => {
                    let ghost head = group(
                        1,
                        NodeKind::Database,
                        database.name@,
                        counted(snapshot.schemas@.len(), "schema"@, "schemas"@),
                    );
                    nodes.push(
                        node.meta(
                            Some(plural(snapshot.schemas.len(), "schema", "schemas")),
                        ).expandable(),
                    );
                    assert(rows(nodes@) =~= had + seq![head]);
                    push_schemas(nodes, snapshot, 2);
                    assert(rows(nodes@) =~= had + database_rows(database@));
                },
                None => {
                    nodes.push(node);
                    assert(rows(nodes@) =~= had + database_rows(database@));
                },
            }
        } else {
            match database.snapshot {
                Some(snapshot) => {
                    push_schemas(nodes, snapshot, 1);
                },
                None => {
                    assert(had + Seq::<Row>::empty() =~= had);
                },
            }
        }
        at += 1;
        proof {
            let now = all.take(at as int);
            assert(now.drop_last() =~= all.take(at - 1));
            assert(rows(nodes@) =~= start + databases_rows(now, level));
        }
    }
    assert(all.take(at as int) =~= all);
}

/// Append the `DB n` rows of a key-value server.
///
/// Whether the walk that produced the keys reached the end decides the wording
/// and nothing else: a browser that has seen eight thousand of ten million keys
/// must not draw a tree that looks like the keyspace.
fn push_key_databases(nodes: &mut Vec<TreeNode>, keys: &Keys)
    ensures
        rows(final(nodes)@) == rows(old(nodes)@) + key_databases_rows(keys@, 1),
{
    let ghost start = rows(nodes@);
    if keys.keyspace.databases.len() == 0 {
        let mut name = "DB ".to_owned();
        push_decimal(&mut name, keys.keyspace.current);
        let ghost head = group(
            1,
            NodeKind::KeyDatabase,
            key_database_name(keys.keyspace.current),
            scan_count(keys.keys@.len(), keys.complete),
        );
        nodes.push(
            TreeNode::new(1, NodeKind::KeyDatabase, name).meta(
                Some(scanned(keys.keys.len(), keys.complete)),
            ).expandable(),
        );
        assert(rows(nodes@) =~= start + seq![head]);
        push_keys(nodes, keys.keys, 2);
        assert(rows(nodes@) =~= start + key_databases_rows(keys@, 1));
        return ;
    }
    let mut at: usize = 0;
    assert(start + first_key_databases(keys@, 0, 1) =~= start);
    while at < keys.keyspace.databases.len()
        invariant
            at <= keys.keyspace.databases@.len(),
            rows(nodes@) == start + first_key_databases(keys@, at as nat, 1),
        decreases keys.keyspace.databases@.len() - at,
    {
        let ghost had = rows(nodes@);
        let database = &keys.keyspace.databases[at];
        let mut name = "DB ".to_owned();
        push_decimal(&mut name, database.index);
        let node = TreeNode::new(1, NodeKind::KeyDatabase, name).meta(
            Some(plural(database.keys as usize, "key", "keys")),
        );
        let ghost mine = node.row();
        // Only the open database has keys to show. Switching to another one is
        // what clicking it does.
        if database.index == keys.keyspace.current {
            nodes.push(node.expandable());
            assert(rows(nodes@) =~= had + seq![Row { expandable: true, ..mine }]);
            push_keys(nodes, keys.keys, 2);
            assert(rows(nodes@) =~= had + key_database_rows(keys@, at as int, 1));
        } else {
            nodes.push(node);
            assert(rows(nodes@) =~= had + seq![mine]);
        }
        at += 1;
        assert(rows(nodes@) =~= start + first_key_databases(keys@, at as nat, 1));
    }
}

/// Append the roles, under their heading.
fn push_roles(nodes: &mut Vec<TreeNode>, set: &RoleSet)
    ensures
        rows(final(nodes)@) == rows(old(nodes)@) + roles_rows(*set),
{
    let ghost start = rows(nodes@);
    if set.roles.len() <= 1 {
        assert(start + roles_rows(*set) =~= start);
        return ;
    }
    let ghost head = group(1, NodeKind::RoleGroup, "roles"@, decimal(set.roles@.len()));
    nodes.push(
        TreeNode::new(1, NodeKind::RoleGroup, "roles".to_owned()).meta(
            Some(decimal_text(set.roles.len() as u64)),
        ).expandable(),
    );
    assert(rows(nodes@) =~= start + seq![head]);
    let ghost line = |r: Role| role_row(r, set.current@);
    let mut at: usize = 0;
    assert(start + seq![head] + set.roles@.take(0).map_values(line) =~= start + seq![head]);
    while at < set.roles.len()
        invariant
            at <= set.roles@.len(),
            line == (|r: Role| role_row(r, set.current@)),
            rows(nodes@) == start + seq![head] + set.roles@.take(at as int).map_values(line),
        decreases set.roles@.len() - at,
    {
        let ghost had = rows(nodes@);
        let role = &set.roles[at];
        let kind = if role.can_login {
            NodeKind::Role
        } else {
            NodeKind::RoleGroupMember
        };
        let mine = same(role.name.as_str(), set.current.as_str());
        nodes.push(TreeNode::new(2, kind, role.name.clone()).meta(role_meta(role, mine)));
        assert(rows(nodes@) =~= had.push(line(*role)));
        at += 1;
        assert(rows(nodes@) =~= start + seq![head] + set.roles@.take(at as int).map_values(line));
    }
    assert(set.roles@.take(at as int) =~= set.roles@);
    assert(rows(nodes@) =~= start + roles_rows(*set));
}

/// The version of the first database that is open.
fn version_of(databases: &Vec<Database>) -> (version: Option<String>)
    ensures
        maybe(version) == open_version(database_views(databases@)),
{
    let ghost all = database_views(databases@);
    let mut at: usize = 0;
    assert(all.skip(0) =~= all);
    while at < databases.len()
        invariant
            at <= databases@.len(),
            all == database_views(databases@),
            open_version(all.skip(at as int)) == open_version(all),
        decreases databases@.len() - at,
    {
        assert(all[at as int] == databases@[at as int]@);
        if let Some(snapshot) = databases[at].snapshot {
            return Some(short_version(snapshot.server_version.as_str()));
        }
        assert(all.skip(at as int).drop_first() =~= all.skip(at + 1));
        at += 1;
    }
    None
}

/// The rows of one connection, from its own row down.
fn push_server(server: &Server) -> (nodes: Vec<TreeNode>)
    ensures
        rows(nodes@) == server_rows(server@),
{
    let mut under: Vec<TreeNode> = Vec::new();
    assert(rows(under@) =~= Seq::<Row>::empty());
    push_databases(&mut under, &server.databases, server.capabilities.databases);
    let ghost one = databases_rows(server@.databases, server@.level);
    assert(rows(under@) =~= one);
    match &server.keyspace {
        Some(keys) => push_key_databases(&mut under, keys),
        None => {},
    }
    let ghost two = match &server.keyspace {
        Some(keys) => key_databases_rows(keys@, 1),
        None => Seq::empty(),
    };
    assert(rows(under@) =~= one + two);
    match server.roles {
        Some(set) => push_roles(&mut under, set),
        None => {},
    }
    assert(rows(under@) =~= below(server@));
    let note = match version_of(&server.databases) {
        Some(version) => Some(version),
        None => match &server.keyspace {
            Some(keys) => Some(short_version(keys.version.as_str())),
            None => server.state.clone(),
        },
    };
    // A connection with nothing under it is a door, not a folder: clicking it
    // connects, and a triangle over an empty branch would promise rows that
    // are not there yet.
    let root = TreeNode::new(0, NodeKind::Connection, server.name.clone()).meta(note);
    let root = if under.len() > 0 {
        root.expandable()
    } else {
        root
    };
    let ghost head = root.row();
    let ghost list = rows(under@);
    let mut nodes: Vec<TreeNode> = Vec::new();
    nodes.push(root);
    nodes.append(&mut under);
    assert(rows(nodes@) =~= seq![head] + list);
    nodes
}

/// A step on the way down to a row: its kind and its name.
pub type Step = (NodeKind, Seq<char>);

/// What is hashed into the id of a row: the id of the row above it and its own
/// step.
pub open spec fn step_input(parent: u64, step: Step) -> Seq<Seq<u8>> {
    seq![
        spec_u64_to_le_bytes(parent),
        seq![step.0.code()],
        vstd::utf8::encode_utf8(step.1),
        seq![0xffu8],
    ]
}

/// The id of a row, from the id of the row above it and its own step.
pub open spec fn step_id(parent: u64, step: Step) -> u64 {
    DefaultHasher::spec_finish(step_input(parent, step))
}

/// The id of a row, from where the ids of its tree start and the way down to
/// it.
pub open spec fn path_id(seed: u64, way: Seq<Step>) -> u64
    decreases way.len(),
{
    if way.len() == 0 {
        seed
    } else {
        step_id(path_id(seed, way.drop_last()), way.last())
    }
}

/// The way down to a row: as much of the way to the row before it as is above
/// it, and then its own step.
pub open spec fn trail(list: Seq<Row>, at: int) -> Seq<Step>
    decreases at + 1,
{
    if at < 0 {
        Seq::empty()
    } else {
        let above = trail(list, at - 1);
        let depth = list[at].depth as int;
        above.take(
            if depth < above.len() {
                depth
            } else {
                above.len() as int
            },
        ).push((list[at].kind, list[at].name))
    }
}

/// Where the ids of a connection's rows start: a hash of the connection's id.
pub open spec fn seed_of(id: u128) -> u64 {
    DefaultHasher::spec_finish(seq![big_endian(id)])
}

/// The sixteen octets of an id, the most significant first.
pub open spec fn big_endian(id: u128) -> Seq<u8> {
    Seq::new(16, |i: int| ((id >> ((120 - 8 * i) as u128)) & 0xff) as u8)
}

/// `uuid::Uuid::from_u128` takes the id as one number, and `as_bytes` gives
/// its sixteen octets back, the most significant first. They are what the id's
/// own `Hash` feeds to a hasher.
#[verifier::external_body]
fn uuid_octets(id: u128) -> (bytes: Vec<u8>)
    ensures
        bytes@ == big_endian(id),
{
    uuid::Uuid::from_u128(id).as_bytes().to_vec()
}

/// The connection id, as somewhere for the hashes to start.
fn seed(id: u128) -> (start: u64)
    ensures
        start == seed_of(id),
{
    let mut hasher = DefaultHasher::new();
    let bytes = uuid_octets(id);
    hasher.write(bytes.as_slice());
    assert(hasher@ =~= seq![big_endian(id)]);
    hasher.finish()
}

/// The id of a row, from the id of the row above it.
fn hashed(parent: u64, kind: NodeKind, name: &String) -> (id: u64)
    ensures
        id == step_id(parent, (kind, name@)),
{
    let mut hasher = DefaultHasher::new();
    let above = u64_to_le_bytes(parent);
    hasher.write(above.as_slice());
    let mut code: Vec<u8> = Vec::new();
    code.push(kind.place());
    hasher.write(code.as_slice());
    hasher.write(name.as_str().as_bytes());
    let mut end: Vec<u8> = Vec::new();
    end.push(0xff);
    hasher.write(end.as_slice());
    assert(code@ =~= seq![kind.code()]);
    assert(end@ =~= seq![0xffu8]);
    assert(hasher@ =~= seq![
        spec_u64_to_le_bytes(parent),
        seq![kind.code()],
        vstd::utf8::encode_utf8(name@),
        seq![0xffu8],
    ]);
    hasher.finish()
}

/// Give every row an id that is a hash of the path down to it.
///
/// The path and not the position, so that a branch the reader folded stays
/// folded when a catalog arrives three rows above it. One pass, using the fact
/// that the list is in visit order: the stack of ancestor ids is the prefix of
/// the list at each depth.
fn identify(nodes: &mut Vec<TreeNode>, seed: u64)
    ensures
        rows(final(nodes)@) == rows(old(nodes)@),
        forall|i: int|
            0 <= i < final(nodes)@.len() ==> (#[trigger] final(nodes)@[i]).id == path_id(
                seed,
                trail(rows(old(nodes)@), i),
            ) as usize,
{
    let ghost list = rows(nodes@);
    let mut stack: Vec<u64> = Vec::new();
    let mut at: usize = 0;
    while at < nodes.len()
        invariant
            at <= nodes@.len(),
            list == rows(old(nodes)@),
            rows(nodes@) == list,
            stack@.len() == trail(list, at - 1).len(),
            forall|k: int|
                0 <= k < stack@.len() ==> #[trigger] stack@[k] == path_id(
                    seed,
                    trail(list, at - 1).take(k + 1),
                ),
            forall|i: int|
                0 <= i < at ==> (#[trigger] nodes@[i]).id == path_id(
                    seed,
                    trail(list, i),
                ) as usize,
        decreases nodes@.len() - at,
    {
        let ghost above = trail(list, at - 1);
        assert(list[at as int] == nodes@[at as int].row());
        stack.truncate(nodes[at].depth);
        let ghost kept = above.take(stack@.len() as int);
        assert forall|k: int| 0 <= k < stack@.len() implies #[trigger] stack@[k] == path_id(
            seed,
            kept.take(k + 1),
        ) by {
            assert(kept.take(k + 1) =~= above.take(k + 1));
        }
        let parent: u64 = if stack.len() == 0 {
            seed
        } else {
            stack[stack.len() - 1]
        };
        assert(kept.take(kept.len() as int) =~= kept);
        assert(parent == path_id(seed, kept));
        let id = hashed(parent, nodes[at].kind, &nodes[at].name);
        let ghost way = trail(list, at as int);
        assert(way =~= kept.push((nodes@[at as int].kind, nodes@[at as int].name@)));
        assert(way.drop_last() =~= kept);
        let ghost had = nodes@;
        nodes[at].id = id as usize;
        assert(rows(nodes@) =~= list);
        stack.push(id);
        assert forall|k: int| 0 <= k < stack@.len() implies #[trigger] stack@[k] == path_id(
            seed,
            way.take(k + 1),
        ) by {
            if k < kept.len() {
                assert(way.take(k + 1) =~= kept.take(k + 1));
            } else {
                assert(way.take(k + 1) =~= way);
            }
        }
        at += 1;
    }
}

/// The database a row belongs to: the one whose row it is or stands under, and
/// the connection's own above that level.
pub open spec fn database_at(list: Seq<Row>, base: Option<Seq<char>>, at: int) -> Option<Seq<char>>
    decreases at + 1,
{
    if at < 0 {
        base
    } else if list[at].kind is Database {
        Some(list[at].name)
    } else if list[at].depth <= 1 {
        base
    } else {
        database_at(list, base, at - 1)
    }
}

/// Say which session each row belongs to.
fn stamp(nodes: &mut Vec<TreeNode>, connection: u128, base: &Option<String>)
    ensures
        rows(final(nodes)@) == rows(old(nodes)@),
        forall|i: int|
            0 <= i < final(nodes)@.len() ==> {
                &&& (#[trigger] final(nodes)@[i]).id == old(nodes)@[i].id
                &&& final(nodes)@[i].origin.connection == connection
                &&& maybe(final(nodes)@[i].origin.database) == database_at(
                    rows(old(nodes)@),
                    maybe(*base),
                    i,
                )
            },
{
    let ghost list = rows(nodes@);
    let mut database = base.clone();
    let mut at: usize = 0;
    while at < nodes.len()
        invariant
            at <= nodes@.len(),
            nodes@.len() == old(nodes)@.len(),
            list == rows(old(nodes)@),
            rows(nodes@) == list,
            maybe(database) == database_at(list, maybe(*base), at - 1),
            forall|i: int| at <= i < nodes@.len() ==> #[trigger] nodes@[i] == old(nodes)@[i],
            forall|i: int|
                0 <= i < at ==> {
                    &&& (#[trigger] nodes@[i]).id == old(nodes)@[i].id
                    &&& nodes@[i].origin.connection == connection
                    &&& maybe(nodes@[i].origin.database) == database_at(list, maybe(*base), i)
                },
        decreases nodes@.len() - at,
    {
        assert(list[at as int] == nodes@[at as int].row());
        if nodes[at].depth <= 1 {
            database = base.clone();
        }
        if nodes[at].kind == NodeKind::Database {
            database = Some(nodes[at].name.clone());
        }
        nodes[at].origin = Origin { connection, database: database.clone() };
        assert(rows(nodes@) =~= list);
        at += 1;
    }
}

/// A row of the sidebar as a value: what it shows and opens, and whose it is.
#[verifier::ext_equal]
pub struct Entry {
    pub id: usize,
    pub row: Row,
    pub connection: u128,
    pub database: Option<Seq<char>>,
}

impl TreeNode {
    /// The row as a value.
    pub open spec fn entry(&self) -> Entry {
        Entry {
            id: self.id,
            row: self.row(),
            connection: self.origin.connection,
            database: maybe(self.origin.database),
        }
    }
}

/// A list of rows as values.
pub open spec fn entries(nodes: Seq<TreeNode>) -> Seq<Entry> {
    Seq::new(nodes.len(), |i: int| nodes[i].entry())
}

/// One connection's rows: what is shown, with ids hashed from the path down
/// from the connection's id.
pub open spec fn server_entries(server: ServerView) -> Seq<Entry> {
    let list = server_rows(server);
    Seq::new(
        list.len(),
        |i: int|
            Entry {
                id: path_id(seed_of(server.id), trail(list, i)) as usize,
                row: list[i],
                connection: server.id,
                database: database_at(list, server.database, i),
            },
    )
}

/// The whole sidebar: every connection's rows, one after another.
pub open spec fn sidebar(servers: Seq<ServerView>) -> Seq<Entry>
    decreases servers.len(),
{
    if servers.len() == 0 {
        Seq::empty()
    } else {
        sidebar(servers.drop_last()) + server_entries(servers.last())
    }
}

/// A list of connections as values.
pub open spec fn server_views(servers: Seq<Server>) -> Seq<ServerView> {
    Seq::new(servers.len(), |i: int| servers[i]@)
}

/// Build the whole sidebar: every connection, in the order they are saved.
///
/// Grouping rows appear only when they have something in them. A schema with
/// no views should not make the reader check.
pub fn from_servers(servers: &[Server]) -> (nodes: Vec<TreeNode>)
    ensures
        entries(nodes@) == sidebar(server_views(servers@)),
{
    let ghost all = server_views(servers@);
    let mut nodes: Vec<TreeNode> = Vec::new();
    let mut at: usize = 0;
    assert(entries(nodes@) =~= sidebar(all.take(0)));
    while at < servers.len()
        invariant
            at <= servers@.len(),
            all == server_views(servers@),
            entries(nodes@) == sidebar(all.take(at as int)),
        decreases servers@.len() - at,
    {
        let server = &servers[at];
        let ghost had = entries(nodes@);
        let mut mine = push_server(server);
        identify(&mut mine, seed(server.id));
        let ghost identified = mine@;
        stamp(&mut mine, server.id, &server.database);
        assert(mine@.len() == rows(mine@).len());
        assert forall|i: int| 0 <= i < mine@.len() implies entries(mine@)[i] == server_entries(
            server@,
        )[i] by {
            assert(mine@[i].id == identified[i].id);
            assert(mine@[i].row() == rows(mine@)[i]);
        }
        assert(entries(mine@) =~= server_entries(server@));
        let ghost added = entries(mine@);
        nodes.append(&mut mine);
        assert(entries(nodes@) =~= had + added);
        at += 1;
        assert(all.take(at as int).drop_last() =~= all.take(at - 1));
    }
    assert(all.take(at as int) =~= all);
    nodes
}

/// The database names to list. The open one is always there: a server that
/// would not say has it alone, and one that left it out has it after the rest.
pub open spec fn listed(snapshot: SchemaSnapshot) -> Seq<Seq<char>> {
    let said = texts(snapshot.databases@);
    if said.contains(snapshot.database@) {
        said
    } else {
        said.push(snapshot.database@)
    }
}

/// The open database is listed, and so is every database the server named.
pub proof fn the_open_database_is_listed(snapshot: SchemaSnapshot, i: int)
    ensures
        listed(snapshot).contains(snapshot.database@),
        0 <= i < snapshot.databases@.len() ==> listed(snapshot).contains(snapshot.databases@[i]@),
        snapshot.databases@.len() == 0 ==> listed(snapshot) == seq![snapshot.database@],
{
    let said = texts(snapshot.databases@);
    assert(said.push(snapshot.database@)[said.len() as int] == snapshot.database@);
    if 0 <= i < snapshot.databases@.len() {
        assert(listed(snapshot)[i] == said[i]);
    }
    if snapshot.databases@.len() == 0 {
        assert(listed(snapshot) =~= seq![snapshot.database@]);
    }
}

/// One connected server, as a root of the sidebar. Only the open database has
/// a catalog: a session sees one database and nothing else on the server.
pub open spec fn snapshot_root(
    connection: Seq<char>,
    snapshot: SchemaSnapshot,
    roles: Option<RoleSet>,
    level: bool,
) -> ServerView {
    ServerView {
        id: 0,
        name: connection,
        level,
        database: Some(snapshot.database@),
        databases: if level {
            listed(snapshot).map_values(
                |name: Seq<char>|
                    DatabaseView {
                        name,
                        snapshot: if name == snapshot.database@ {
                            Some(snapshot)
                        } else {
                            None
                        },
                    },
            )
        } else {
            seq![DatabaseView { name: snapshot.database@, snapshot: Some(snapshot) }]
        },
        keyspace: None,
        roles,
        state: None,
    }
}

/// The database names to list, the open one included.
///
/// A server that would not answer has an empty list, and a sidebar with no
/// database in it at all would look like a failure. The open one is always
/// there.
fn databases(snapshot: &SchemaSnapshot) -> (names: Vec<String>)
    ensures
        texts(names@) == listed(*snapshot),
{
    let ghost said = texts(snapshot.databases@);
    let mut names: Vec<String> = Vec::new();
    let mut found = false;
    let mut at: usize = 0;
    while at < snapshot.databases.len()
        invariant
            at <= snapshot.databases@.len(),
            said == texts(snapshot.databases@),
            texts(names@) == said.take(at as int),
            found == said.take(at as int).contains(snapshot.database@),
        decreases snapshot.databases@.len() - at,
    {
        let ghost had = said.take(at as int);
        names.push(snapshot.databases[at].clone());
        assert(said.take(at + 1) =~= had.push(said[at as int]));
        assert(texts(names@) =~= said.take(at + 1));
        let open = same(snapshot.databases[at].as_str(), snapshot.database.as_str());
        proof {
            let now = said.take(at + 1);
            if open {
                assert(now[at as int] == snapshot.database@);
            }
            if had.contains(snapshot.database@) {
                let i = choose|i: int| 0 <= i < had.len() && had[i] == snapshot.database@;
                assert(now[i] == snapshot.database@);
            }
            if now.contains(snapshot.database@) && !open {
                let i = choose|i: int| 0 <= i < now.len() && now[i] == snapshot.database@;
                assert(had[i] == snapshot.database@);
            }
        }
        found = found || open;
        at += 1;
    }
    assert(said.take(at as int) =~= said);
    if !found {
        names.push(snapshot.database.clone());
    }
    assert(texts(names@) =~= listed(*snapshot));
    names
}

/// Build the tree for one connected server.
pub fn from_snapshot(
    connection: &str,
    snapshot: &SchemaSnapshot,
    roles: Option<&RoleSet>,
    capabilities: Capabilities,
) -> (nodes: Vec<TreeNode>)
    ensures
        entries(nodes@) == server_entries(
            snapshot_root(
                connection@,
                *snapshot,
                match roles {
                    Some(set) => Some(*set),
                    None => None,
                },
                capabilities.databases,
            ),
        ),
{
    let mut shelves: Vec<Database> = Vec::new();
    let ghost root = snapshot_root(
        connection@,
        *snapshot,
        match roles {
            Some(set) => Some(*set),
            None => None,
        },
        capabilities.databases,
    );
    if capabilities.databases {
        let names = databases(snapshot);
        let mut at: usize = 0;
        while at < names.len()
            invariant
                at <= names@.len(),
                texts(names@) == listed(*snapshot),
                root.databases.len() == names@.len(),
                root.databases == listed(*snapshot).map_values(
                    |name: Seq<char>|
                        DatabaseView {
                            name,
                            snapshot: if name == snapshot.database@ {
                                Some(*snapshot)
                            } else {
                                None
                            },
                        },
                ),
                database_views(shelves@) == root.databases.take(at as int),
            decreases names@.len() - at,
        {
            let name = names[at].clone();
            assert(listed(*snapshot)[at as int] == name@);
            let open = same(name.as_str(), snapshot.database.as_str());
            let ghost had = database_views(shelves@);
            shelves.push(
                Database {
                    name,
                    snapshot: if open {
                        Some(snapshot)
                    } else {
                        None
                    },
                },
            );
            assert(database_views(shelves@) =~= had.push(root.databases[at as int]));
            at += 1;
            assert(database_views(shelves@) =~= root.databases.take(at as int));
        }
        assert(database_views(shelves@) =~= root.databases);
    } else {
        shelves.push(Database { name: snapshot.database.clone(), snapshot: Some(snapshot) });
        assert(database_views(shelves@) =~= root.databases);
    }
    let server = Server {
        id: 0,
        name: connection.to_owned(),
        capabilities,
        database: Some(snapshot.database.clone()),
        databases: shelves,
        keyspace: None,
        roles,
        state: None,
    };
    assert(server@ =~= root);
    from_one(server)
}

/// Build the tree for one connection.
fn from_one(server: Server) -> (nodes: Vec<TreeNode>)
    ensures
        entries(nodes@) == server_entries(server@),
{
    let mut servers: Vec<Server> = Vec::new();
    servers.push(server);
    let nodes = from_servers(servers.as_slice());
    proof {
        let all = server_views(servers@);
        assert(all =~= seq![server@]);
        assert(all.drop_last() =~= Seq::<ServerView>::empty());
        assert(sidebar(all.drop_last()) =~= Seq::<Entry>::empty());
        assert(all.last() == server@);
        assert(sidebar(all) =~= server_entries(server@));
    }
    nodes
}

/// One connected key-value server, as a root of the sidebar.
pub open spec fn keyspace_root(
    connection: Seq<char>,
    version: Seq<char>,
    keyspace: Keyspace,
    keys: Seq<KeyInfo>,
    complete: bool,
) -> ServerView {
    ServerView {
        id: 0,
        name: connection,
        level: false,
        database: None,
        databases: Seq::empty(),
        keyspace: Some(KeysView { version, keyspace, keys, complete }),
        roles: None,
        state: None,
    }
}

/// Build the tree for one connected key-value server.
pub fn from_keyspace(
    connection: &str,
    version: &str,
    keyspace: &Keyspace,
    keys: &[KeyInfo],
    complete: bool,
) -> (nodes: Vec<TreeNode>)
    ensures
        entries(nodes@) == server_entries(
            keyspace_root(connection@, version@, *keyspace, keys@, complete),
        ),
{
    let server = Server {
        id: 0,
        name: connection.to_owned(),
        capabilities: Capabilities::redis(),
        database: None,
        databases: Vec::new(),
        keyspace: Some(Keys { version: version.to_owned(), keyspace, keys, complete }),
        roles: None,
        state: None,
    };
    assert(server@ =~= keyspace_root(connection@, version@, *keyspace, keys@, complete));
    from_one(server)
}

} // verus!
