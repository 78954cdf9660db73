//! The ids of the sidebar's rows tell the rows apart.
use crate::sidebar_laws::{every_connection_has_a_run, run_start};
use crate::tree::{
    big_endian, path_id, seed_of, server_entries, server_rows, sidebar, step_input, trail,
    ServerView, Step,
};
use crate::tree_laws::{every_row_has_a_way_of_its_own, siblings_differ, the_tree_is_in_visit_order};
use std::collections::hash_map::DefaultHasher;
use vstd::bytes::{lemma_auto_spec_u64_to_from_le_bytes, spec_u64_to_le_bytes};
use vstd::prelude::*;
use vstd::std_specs::hash::DefaultHasherAdditionalSpecFns;
use vstd::utf8::{encode_utf8, encode_utf8_decode_utf8};

verus! {

/// Whether something is hashed on the way down to a row: the connection's id,
/// or a step of the way.
pub open spec fn is_hashed(id: u128, way: Seq<Step>, input: Seq<Seq<u8>>) -> bool
    decreases way.len(),
{
    if way.len() == 0 {
        input == seq![big_endian(id)]
    } else {
        input == step_input(path_id(seed_of(id), way.drop_last()), way.last()) || is_hashed(
            id,
            way.drop_last(),
            input,
        )
    }
}

/// Whether no two different things that are hashed on two ways down come out
/// the same.
pub open spec fn no_collision(a: u128, x: Seq<Step>, b: u128, y: Seq<Step>) -> bool {
    forall|p: Seq<Seq<u8>>, q: Seq<Seq<u8>>|
        (is_hashed(a, x, p) || is_hashed(b, y, p)) && (is_hashed(a, x, q) || is_hashed(b, y, q))
            && #[trigger] DefaultHasher::spec_finish(p) as usize
            == #[trigger] DefaultHasher::spec_finish(q) as usize ==> p == q
}

/// Different ids have different octets.
proof fn lemma_octets(a: u128, b: u128)
    requires
        big_endian(a) == big_endian(b),
    ensures
        a == b,
{
    let x = big_endian(a);
    let y = big_endian(b);
    assert(x[0] == y[0] && x[1] == y[1] && x[2] == y[2] && x[3] == y[3]);
    assert(x[4] == y[4] && x[5] == y[5] && x[6] == y[6] && x[7] == y[7]);
    assert(x[8] == y[8] && x[9] == y[9] && x[10] == y[10] && x[11] == y[11]);
    assert(x[12] == y[12] && x[13] == y[13] && x[14] == y[14] && x[15] == y[15]);
    assert(a == b) by (bit_vector)
        requires
            ((a >> 120u128) & 0xff) as u8 == ((b >> 120u128) & 0xff) as u8,
            ((a >> 112u128) & 0xff) as u8 == ((b >> 112u128) & 0xff) as u8,
            ((a >> 104u128) & 0xff) as u8 == ((b >> 104u128) & 0xff) as u8,
            ((a >> 96u128) & 0xff) as u8 == ((b >> 96u128) & 0xff) as u8,
            ((a >> 88u128) & 0xff) as u8 == ((b >> 88u128) & 0xff) as u8,
            ((a >> 80u128) & 0xff) as u8 == ((b >> 80u128) & 0xff) as u8,
            ((a >> 72u128) & 0xff) as u8 == ((b >> 72u128) & 0xff) as u8,
            ((a >> 64u128) & 0xff) as u8 == ((b >> 64u128) & 0xff) as u8,
            ((a >> 56u128) & 0xff) as u8 == ((b >> 56u128) & 0xff) as u8,
            ((a >> 48u128) & 0xff) as u8 == ((b >> 48u128) & 0xff) as u8,
            ((a >> 40u128) & 0xff) as u8 == ((b >> 40u128) & 0xff) as u8,
            ((a >> 32u128) & 0xff) as u8 == ((b >> 32u128) & 0xff) as u8,
            ((a >> 24u128) & 0xff) as u8 == ((b >> 24u128) & 0xff) as u8,
            ((a >> 16u128) & 0xff) as u8 == ((b >> 16u128) & 0xff) as u8,
            ((a >> 8u128) & 0xff) as u8 == ((b >> 8u128) & 0xff) as u8,
            ((a >> 0u128) & 0xff) as u8 == ((b >> 0u128) & 0xff) as u8,
    ;
}

/// Different steps, or steps from different rows, hash different things.
proof fn lemma_step_inputs(p: u64, s: Step, q: u64, t: Step)
    requires
        step_input(p, s) == step_input(q, t),
    ensures
        p == q,
        s == t,
{
    let x = step_input(p, s);
    let y = step_input(q, t);
    lemma_auto_spec_u64_to_from_le_bytes();
    assert(x[0] == spec_u64_to_le_bytes(p) && y[0] == spec_u64_to_le_bytes(q));
    assert(x[1][0] == s.0.code() && y[1][0] == t.0.code());
    assert(x[2] == encode_utf8(s.1) && y[2] == encode_utf8(t.1));
    encode_utf8_decode_utf8(s.1);
    encode_utf8_decode_utf8(t.1);
}

/// The last thing that is hashed on a way down gives the id.
spec fn last_input(id: u128, way: Seq<Step>) -> Seq<Seq<u8>> {
    if way.len() == 0 {
        seq![big_endian(id)]
    } else {
        step_input(path_id(seed_of(id), way.drop_last()), way.last())
    }
}

proof fn lemma_last_input(id: u128, way: Seq<Step>)
    ensures
        is_hashed(id, way, last_input(id, way)),
        path_id(seed_of(id), way) == DefaultHasher::spec_finish(last_input(id, way)),
{
}

/// What is hashed on a shorter way is hashed on the whole.
proof fn lemma_no_collision_above(a: u128, x: Seq<Step>, b: u128, y: Seq<Step>)
    requires
        no_collision(a, x, b, y),
        x.len() > 0,
        y.len() > 0,
    ensures
        no_collision(a, x.drop_last(), b, y.drop_last()),
{
}

/// Where nothing that is hashed on two ways down collides, the ids at their
/// ends are the same exactly where the connection is the same and so is every
/// step.
pub proof fn ids_tell_ways_apart(a: u128, x: Seq<Step>, b: u128, y: Seq<Step>)
    requires
        no_collision(a, x, b, y),
    ensures
        path_id(seed_of(a), x) as usize == path_id(seed_of(b), y) as usize <==> a == b && x == y,
    decreases x.len(),
{
    lemma_last_input(a, x);
    lemma_last_input(b, y);
    let p = last_input(a, x);
    let q = last_input(b, y);
    if path_id(seed_of(a), x) as usize == path_id(seed_of(b), y) as usize {
        assert(p == q);
        if x.len() == 0 && y.len() == 0 {
            assert(p[0] == big_endian(a) && q[0] == big_endian(b));
            lemma_octets(a, b);
            assert(x =~= y);
        } else if x.len() == 0 || y.len() == 0 {
            assert(p.len() != q.len());
        } else {
            lemma_step_inputs(
                path_id(seed_of(a), x.drop_last()),
                x.last(),
                path_id(seed_of(b), y.drop_last()),
                y.last(),
            );
            lemma_no_collision_above(a, x, b, y);
            ids_tell_ways_apart(a, x.drop_last(), b, y.drop_last());
            assert(x =~= x.drop_last().push(x.last()));
            assert(y =~= y.drop_last().push(y.last()));
        }
    }
}

/// Two rows, of one connection or of two, have the same id exactly where they
/// are rows of the same connection with the same way down to them.
pub proof fn rows_share_an_id_where_they_share_a_way(s: ServerView, i: int, t: ServerView, j: int)
    requires
        0 <= i < server_rows(s).len(),
        0 <= j < server_rows(t).len(),
        no_collision(s.id, trail(server_rows(s), i), t.id, trail(server_rows(t), j)),
    ensures
        server_entries(s)[i].id == server_entries(t)[j].id <==> s.id == t.id && trail(
            server_rows(s),
            i,
        ) == trail(server_rows(t), j),
{
    ids_tell_ways_apart(s.id, trail(server_rows(s), i), t.id, trail(server_rows(t), j));
}

/// The same of the rows of two sidebars: where in a list a row stands, and what
/// else is in the list, does not matter to its id.
pub proof fn rows_of_two_sidebars_share_an_id_where_they_share_a_way(
    a: Seq<ServerView>,
    x: int,
    i: int,
    b: Seq<ServerView>,
    y: int,
    j: int,
)
    requires
        0 <= x < a.len(),
        0 <= y < b.len(),
        0 <= i < server_rows(a[x]).len(),
        0 <= j < server_rows(b[y]).len(),
        no_collision(a[x].id, trail(server_rows(a[x]), i), b[y].id, trail(server_rows(b[y]), j)),
    ensures
        sidebar(a)[run_start(a, x) + i].id == sidebar(b)[run_start(b, y) + j].id <==> a[x].id
            == b[y].id && trail(server_rows(a[x]), i) == trail(server_rows(b[y]), j),
{
    every_connection_has_a_run(a, x);
    every_connection_has_a_run(b, y);
    let (from, to) = (run_start(a, x), run_start(a, x + 1));
    assert(sidebar(a).subrange(from, to)[i] == server_entries(a[x])[i]);
    let (from, to) = (run_start(b, y), run_start(b, y + 1));
    assert(sidebar(b).subrange(from, to)[j] == server_entries(b[y])[j]);
    rows_share_an_id_where_they_share_a_way(a[x], i, b[y], j);
}

/// Where rows that hang from the same row are told apart, no two rows of a
/// connection share an id.
pub proof fn rows_of_a_connection_have_ids_of_their_own(server: ServerView, i: int, j: int)
    requires
        siblings_differ(server_rows(server)),
        0 <= i < j < server_rows(server).len(),
        no_collision(
            server.id,
            trail(server_rows(server), i),
            server.id,
            trail(server_rows(server), j),
        ),
    ensures
        server_entries(server)[i].id != server_entries(server)[j].id,
{
    the_tree_is_in_visit_order(server);
    every_row_has_a_way_of_its_own(server_rows(server), i, j);
    rows_share_an_id_where_they_share_a_way(server, i, server, j);
}

} // verus!
