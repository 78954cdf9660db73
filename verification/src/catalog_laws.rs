//! What stands in the tree of the left panel, told by what the server has.
use crate::catalog::{Relation, Schema};
use crate::tree::{
    below, database_rows, databases_rows, group, is_table, plain, routine_rows, schema_rows,
    schemas_rows, section, server_rows, table_row, table_rows, view_row, view_rows, DatabaseView,
    Goal, NodeKind, Row, ServerView,
};
use crate::wording::{counted, estimate};
use vstd::prelude::*;

verus! {

/// A table of a catalog is a row of its schema, under its own name, with how
/// many rows it is thought to have; a view is one too, and so is a function.
pub proof fn every_object_is_a_row_of_its_schema(schema: Schema, at: int, depth: nat)
    ensures
        0 <= at < schema.relations@.len() ==> {
            let relation = schema.relations@[at];
            let name = relation.reference.name@;
            let goal = Some(Goal::Relation(relation.reference.schema@, name));
            &&& relation.kind is Table || relation.kind is Partitioned || relation.kind is Foreign
                ==> schema_rows(schema, depth).contains(
                (Row {
                    depth: depth + 2,
                    kind: NodeKind::Table,
                    name,
                    meta: Some(estimate(relation.estimated_rows as int)),
                    expandable: false,
                    target: goal,
                }),
            )
            &&& relation.kind is View ==> schema_rows(schema, depth).contains(
                (Row {
                    depth: depth + 2,
                    kind: NodeKind::View,
                    name,
                    meta: None,
                    expandable: false,
                    target: goal,
                }),
            )
            &&& relation.kind is MaterializedView ==> schema_rows(schema, depth).contains(
                (Row {
                    depth: depth + 2,
                    kind: NodeKind::MaterializedView,
                    name,
                    meta: None,
                    expandable: false,
                    target: goal,
                }),
            )
        },
        0 <= at < schema.routines@.len() ==> schema_rows(schema, depth).contains(
            (Row {
                depth: depth + 2,
                kind: NodeKind::Function,
                name: schema.routines@[at].name@,
                meta: None,
                expandable: false,
                target: None,
            }),
        ),
        schema_rows(schema, depth)[0].name == schema.name@,
        schema_rows(schema, depth)[0].depth == depth,
        schema_rows(schema, depth)[0].kind is Schema,
{
    let relations = schema.relations@;
    let head = seq![
        group(
            depth,
            NodeKind::Schema,
            schema.name@,
            counted(relations.len(), "table"@, "tables"@),
        ),
    ];
    let tables = section(
        NodeKind::TableGroup,
        "tables"@,
        depth + 1,
        table_rows(relations, depth + 2),
    );
    let views = section(
        NodeKind::TableGroup,
        "views"@,
        depth + 1,
        view_rows(relations, depth + 2),
    );
    let functions = section(
        NodeKind::FunctionGroup,
        "functions"@,
        depth + 1,
        routine_rows(schema.routines@, depth + 2),
    );
    let all = schema_rows(schema, depth);
    assert(all == head + tables + views + functions);
    if 0 <= at < relations.len() {
        let relation = relations[at];
        let tabled = |r: Relation| is_table(r);
        let viewed = |r: Relation| r.kind.spec_is_view();
        if is_table(relation) {
            lemma_filtered(relations, tabled, at);
            let kept = relations.filter(tabled);
            let k = choose|k: int| 0 <= k < kept.len() && kept[k] == relation;
            assert(table_rows(relations, depth + 2)[k] == table_row(relation, depth + 2));
            assert(tables[k + 1] == table_row(relation, depth + 2));
            assert(all[head.len() + k + 1] == table_row(relation, depth + 2));
        }
        if relation.kind is View || relation.kind is MaterializedView {
            lemma_filtered(relations, viewed, at);
            let kept = relations.filter(viewed);
            let k = choose|k: int| 0 <= k < kept.len() && kept[k] == relation;
            assert(view_rows(relations, depth + 2)[k] == view_row(relation, depth + 2));
            assert(views[k + 1] == view_row(relation, depth + 2));
            assert(all[head.len() + tables.len() + k + 1] == view_row(relation, depth + 2));
        }
    }
    if 0 <= at < schema.routines@.len() {
        let row = plain(depth + 2, NodeKind::Function, schema.routines@[at].name@);
        assert(routine_rows(schema.routines@, depth + 2)[at] == row);
        assert(functions[at + 1] == row);
        assert(all[head.len() + tables.len() + views.len() + at + 1] == row);
    }
}

/// What passes is in what is kept.
proof fn lemma_filtered(relations: Seq<Relation>, keep: spec_fn(Relation) -> bool, at: int)
    requires
        0 <= at < relations.len(),
        keep(relations[at]),
    ensures
        relations.filter(keep).contains(relations[at]),
{
    broadcast use vstd::seq_lib::group_filter_ensures;

    assert(relations.filter(keep).contains(relations[at]));
}

/// The rows of a schema are among the rows of its catalog.
proof fn lemma_schema_within(schemas: Seq<Schema>, at: int, depth: nat, row: Row)
    requires
        0 <= at < schemas.len(),
        schema_rows(schemas[at], depth).contains(row),
    ensures
        schemas_rows(schemas, depth).contains(row),
    decreases schemas.len(),
{
    let before = schemas_rows(schemas.drop_last(), depth);
    let last = schema_rows(schemas.last(), depth);
    let all = schemas_rows(schemas, depth);
    if at < schemas.len() - 1 {
        lemma_schema_within(schemas.drop_last(), at, depth, row);
        let k = choose|k: int| 0 <= k < before.len() && before[k] == row;
        assert(all[k] == row);
    } else {
        let k = choose|k: int| 0 <= k < last.len() && last[k] == row;
        assert(all[before.len() + k] == row);
    }
}

/// The rows of a database are among the rows of its server.
proof fn lemma_database_within(databases: Seq<DatabaseView>, level: bool, at: int, row: Row)
    requires
        0 <= at < databases.len(),
        level ==> database_rows(databases[at]).contains(row),
        !level ==> (databases[at].snapshot matches Some(snapshot) && schemas_rows(
            snapshot.schemas@,
            1,
        ).contains(row)),
    ensures
        databases_rows(databases, level).contains(row),
    decreases databases.len(),
{
    let before = databases_rows(databases.drop_last(), level);
    let all = databases_rows(databases, level);
    if at < databases.len() - 1 {
        lemma_database_within(databases.drop_last(), level, at, row);
        let k = choose|k: int| 0 <= k < before.len() && before[k] == row;
        assert(all[k] == row);
    } else {
        let last = if level {
            database_rows(databases.last())
        } else {
            schemas_rows(databases.last().snapshot->Some_0.schemas@, 1)
        };
        let k = choose|k: int| 0 <= k < last.len() && last[k] == row;
        assert(all[before.len() + k] == row);
    }
}

/// Every table of every open database of a connection is a row of its tree,
/// four deep where databases stand above the schemas and three where they do
/// not, and points at the table it names.
pub proof fn every_table_is_in_the_tree(server: ServerView, database: int, schema: int, at: int)
    requires
        0 <= database < server.databases.len(),
        server.databases[database].snapshot matches Some(snapshot) && 0 <= schema
            < snapshot.schemas@.len() && 0 <= at < snapshot.schemas@[schema].relations@.len()
            && snapshot.schemas@[schema].relations@[at].kind is Table,
    ensures
        ({
            let relation = server.databases[database].snapshot->Some_0.schemas@[schema].relations@[at];
            server_rows(server).contains(
                (Row {
                    depth: if server.level {
                        4
                    } else {
                        3
                    },
                    kind: NodeKind::Table,
                    name: relation.reference.name@,
                    meta: Some(estimate(relation.estimated_rows as int)),
                    expandable: false,
                    target: Some(
                        Goal::Relation(relation.reference.schema@, relation.reference.name@),
                    ),
                }),
            )
        }),
{
    let snapshot = server.databases[database].snapshot->Some_0;
    let depth: nat = if server.level {
        2
    } else {
        1
    };
    let relation = snapshot.schemas@[schema].relations@[at];
    let row = Row {
        depth: depth + 2,
        kind: NodeKind::Table,
        name: relation.reference.name@,
        meta: Some(estimate(relation.estimated_rows as int)),
        expandable: false,
        target: Some(Goal::Relation(relation.reference.schema@, relation.reference.name@)),
    };
    every_object_is_a_row_of_its_schema(snapshot.schemas@[schema], at, depth);
    lemma_schema_within(snapshot.schemas@, schema, depth, row);
    let under = schemas_rows(snapshot.schemas@, depth);
    if server.level {
        let k = choose|k: int| 0 <= k < under.len() && under[k] == row;
        assert(database_rows(server.databases[database])[k + 1] == row);
    }
    lemma_database_within(server.databases, server.level, database, row);
    let rows = databases_rows(server.databases, server.level);
    let k = choose|k: int| 0 <= k < rows.len() && rows[k] == row;
    assert(below(server)[k] == row);
    assert(server_rows(server)[k + 1] == row);
}

/// Every database of a connection is a row right under it, whether it is open or
/// not, where databases stand above the schemas.
pub proof fn every_database_is_in_the_tree(server: ServerView, database: int)
    requires
        0 <= database < server.databases.len(),
        server.level,
    ensures
        exists|k: int|
            0 < k < server_rows(server).len() && (#[trigger] server_rows(server)[k]).kind
                is Database && server_rows(server)[k].depth == 1 && server_rows(server)[k].name
                == server.databases[database].name && server_rows(server)[k].expandable == (
            server.databases[database].snapshot is Some),
        server_rows(server)[0].name == server.name,
        server_rows(server)[0].kind is Connection,
{
    let row = database_rows(server.databases[database])[0];
    assert(database_rows(server.databases[database]).contains(row));
    lemma_database_within(server.databases, server.level, database, row);
    let rows = databases_rows(server.databases, server.level);
    let k = choose|k: int| 0 <= k < rows.len() && rows[k] == row;
    assert(below(server)[k] == row);
    assert(server_rows(server)[k + 1] == row);
}

} // verus!
