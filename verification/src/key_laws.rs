//! What holds of the folders keys are drawn in.
use crate::catalog::KeyInfo;
use crate::keys::{
    folder_row, folders, in_order, key_before, key_rows, keys_are_drawn_in_order, leaf, leaf_name,
    opened, ordered, path, shared,
};
use crate::order::{lemma_before_total, lemma_path_irreflexive, path_before, points};
use crate::tree::{key_database_rows, trail, KeysView, NodeKind, Row, Step};
use vstd::prelude::*;

verus! {

/// The way down through some folders.
pub open spec fn folder_way(folder: Seq<Seq<char>>) -> Seq<Step> {
    Seq::new(folder.len(), |i: int| (NodeKind::KeyFolder, folder[i]))
}

/// The way down to a key: its folders, and its own name.
pub open spec fn key_way(info: KeyInfo) -> Seq<Step> {
    folder_way(folders(info.key@)).push((NodeKind::Key, leaf_name(info)))
}

/// Whether every key can be drawn so deep: none has so many segments that its
/// row would be deeper than depths go.
pub open spec fn countable(list: Seq<KeyInfo>, depth: nat) -> bool {
    forall|i: int|
        0 <= i < list.len() ==> depth + path((#[trigger] list[i]).key@).len() <= usize::MAX
}

/// Whether the rows of some keys stand somewhere in a tree, with rows enough
/// above them for their depth.
pub open spec fn stand_at(
    all: Seq<Row>,
    start: int,
    keys: Seq<KeyInfo>,
    list: Seq<KeyInfo>,
    depth: nat,
) -> bool {
    &&& 0 <= start
    &&& start + key_rows(keys, list, depth).len() <= all.len()
    &&& all.subrange(start, start + key_rows(keys, list, depth).len()) == key_rows(
        keys,
        list,
        depth,
    )
    &&& depth <= trail(all, start - 1).len()
}

/// The way down to where the keys stand.
pub open spec fn way_in(all: Seq<Row>, start: int, depth: nat) -> Seq<Step> {
    trail(all, start - 1).take(depth as int)
}

/// The way down to a row is made by the rows before it.
proof fn lemma_trail_prefix(a: Seq<Row>, b: Seq<Row>, at: int)
    requires
        at < a.len() <= b.len(),
        forall|i: int| 0 <= i < a.len() ==> a[i] == b[i],
    ensures
        trail(a, at) == trail(b, at),
    decreases at + 1,
{
    if at >= 0 {
        lemma_trail_prefix(a, b, at - 1);
        assert(a[at] == b[at]);
    }
}

/// Two paths share what they agree on from the start, and no more.
proof fn lemma_shared_at_least(a: Seq<Seq<char>>, b: Seq<Seq<char>>, n: int)
    requires
        0 <= n <= a.len(),
        n <= b.len(),
        forall|i: int| 0 <= i < n ==> a[i] == b[i],
    ensures
        shared(a, b) >= n,
    decreases n,
{
    if n > 0 {
        let (x, y) = (a.drop_first(), b.drop_first());
        assert forall|i: int| 0 <= i < n - 1 implies x[i] == y[i] by {
            assert(x[i] == a[i + 1] && y[i] == b[i + 1]);
        }
        lemma_shared_at_least(x, y, n - 1);
    }
}

proof fn lemma_shared_agrees(a: Seq<Seq<char>>, b: Seq<Seq<char>>)
    ensures
        shared(a, b) <= a.len(),
        shared(a, b) <= b.len(),
        forall|i: int| 0 <= i < shared(a, b) ==> a[i] == b[i],
    decreases a.len(),
{
    if a.len() > 0 && b.len() > 0 && a[0] == b[0] {
        let (x, y) = (a.drop_first(), b.drop_first());
        lemma_shared_agrees(x, y);
        assert forall|i: int| 0 <= i < shared(a, b) implies a[i] == b[i] by {
            if i > 0 {
                assert(x[i - 1] == a[i] && y[i - 1] == b[i]);
            }
        }
    }
}

/// What stands between two paths that begin alike begins as they do.
proof fn lemma_between(a: Seq<Seq<char>>, b: Seq<Seq<char>>, c: Seq<Seq<char>>, n: int)
    requires
        0 <= n < a.len(),
        n < c.len(),
        forall|i: int| 0 <= i < n ==> a[i] == c[i],
        !path_before(b, a),
        !path_before(c, b),
    ensures
        n < b.len(),
        forall|i: int| 0 <= i < n ==> a[i] == b[i],
    decreases n,
{
    if n > 0 {
        assert(b.len() > 0);
        assert(a[0] == c[0]);
        if b[0] != a[0] {
            if points(b[0]) == points(a[0]) {
                assert forall|i: int| 0 <= i < b[0].len() implies b[0][i] == a[0][i] by {
                    assert(points(b[0])[i] == points(a[0])[i]);
                }
                assert(b[0].len() == points(b[0]).len() && a[0].len() == points(a[0]).len());
                assert(b[0] =~= a[0]);
            }
            lemma_before_total(points(a[0]), points(b[0]));
        }
        let (x, y, z) = (a.drop_first(), b.drop_first(), c.drop_first());
        assert forall|i: int| 0 <= i < n - 1 implies x[i] == z[i] by {
            assert(x[i] == a[i + 1] && z[i] == c[i + 1]);
        }
        lemma_between(x, y, z, n - 1);
        assert forall|i: int| 0 <= i < n implies a[i] == b[i] by {
            if i > 0 {
                assert(x[i - 1] == a[i] && y[i - 1] == b[i]);
            }
        }
    }
}

/// A key that is not before another has a path that is not.
proof fn lemma_path_order(x: KeyInfo, y: KeyInfo)
    requires
        !key_before(x, y),
    ensures
        !path_before(path(x.key@), path(y.key@)),
{
    lemma_path_irreflexive(path(y.key@));
}

/// The folders the key before the last is under.
spec fn open_before(list: Seq<KeyInfo>) -> Seq<Seq<char>> {
    if list.len() <= 1 {
        Seq::empty()
    } else {
        folders(list[list.len() - 2].key@)
    }
}

/// Some rows with the rows of some keys after them.
spec fn drawn(above: Seq<Row>, keys: Seq<KeyInfo>, list: Seq<KeyInfo>, depth: nat) -> Seq<Row> {
    above + key_rows(keys, list, depth)
}

/// The first keys of a list can be drawn as deep as all of them.
proof fn lemma_countable(list: Seq<KeyInfo>, depth: nat, n: int)
    requires
        countable(list, depth),
        0 <= n <= list.len(),
    ensures
        countable(list.take(n), depth),
{
    let front = list.take(n);
    assert forall|i: int| 0 <= i < front.len() implies depth + path((#[trigger] front[i]).key@).len()
        <= usize::MAX by {
        assert(front[i] == list[i]);
    }
}

/// The folders that are opened in front of the last key have the way that the
/// key's path says, and so has the key.
proof fn lemma_last_key(above: Seq<Row>, keys: Seq<KeyInfo>, list: Seq<KeyInfo>, depth: nat)
    requires
        list.len() > 0,
        countable(list, depth),
        depth <= trail(above, above.len() - 1).len(),
    ensures
        ({
            let mine = folders(list.last().key@);
            let from = shared(open_before(list), mine) as int;
            let base = way_in(above, above.len() as int, depth);
            let a = drawn(above, keys, list.drop_last(), depth);
            let all = drawn(above, keys, list, depth);
            &&& from <= mine.len()
            &&& all.len() == a.len() + (mine.len() - from) + 1
            &&& forall|i: int| 0 <= i < a.len() ==> #[trigger] all[i] == a[i]
            &&& forall|i: int|
                0 <= i < mine.len() - from ==> (#[trigger] all[a.len() + i]).kind is KeyFolder
                    && trail(all, a.len() + i) == base + folder_way(mine.take(from + i + 1))
            &&& all.last() == leaf(list.last(), depth)
            &&& trail(all, all.len() - 1) == base + key_way(list.last())
        }),
    decreases list.len(), 1int,
{
    let info = list.last();
    let mine = folders(info.key@);
    let open = open_before(list);
    let from = shared(open, mine) as int;
    let base = way_in(above, above.len() as int, depth);
    lemma_shared_agrees(open, mine);
    let front = list.drop_last();
    let a = drawn(above, keys, front, depth);
    let b = opened(keys, path(info.key@), from, mine.len() as int, depth);
    let all = drawn(above, keys, list, depth);
    assert(list[list.len() - 1] == info);
    assert(key_rows(keys, list, depth) == key_rows(keys, front, depth) + b + seq![
        leaf(info, depth),
    ]);
    assert(all =~= a + b + seq![leaf(info, depth)]);
    // What is open when the folders of the last key begin.
    let before = trail(all, a.len() - 1);
    assert(before.len() >= depth + from && before.take(depth as int) == base && (forall|i: int|
        0 <= i < from ==> #[trigger] before[depth + i] == (NodeKind::KeyFolder, mine[i]))) by {
        lemma_trail_prefix(a, all, a.len() - 1);
        if front.len() > 0 {
            assert(front =~= list.take(list.len() - 1));
            lemma_countable(list, depth, list.len() - 1);
            lemma_last_key(above, keys, front, depth);
            assert(front.last() == list[list.len() - 2]);
            assert(before == base + key_way(front.last()));
            assert(before.take(depth as int) =~= base);
            assert forall|i: int| 0 <= i < from implies #[trigger] before[depth + i] == (
                NodeKind::KeyFolder,
                mine[i],
            ) by {
                assert(folder_way(open)[i] == (NodeKind::KeyFolder, open[i]));
                assert(before[depth + i] == key_way(front.last())[i]);
            }
        } else {
            assert(a =~= above);
        }
    }
    lemma_opened_ways(keys, info, all, a.len() as int, from, mine.len() - from, base, depth);
    assert forall|i: int| 0 <= i < mine.len() - from implies (
    #[trigger] all[a.len() + i]).kind is KeyFolder && trail(all, a.len() + i) == base + folder_way(
        mine.take(from + i + 1),
    ) by {
        assert(all[a.len() + i] == b[i]);
        lemma_opened_ways(keys, info, all, a.len() as int, from, i + 1, base, depth);
    }
    let under = trail(all, all.len() - 2);
    assert(all.len() - 2 == a.len() + (mine.len() - from) - 1);
    assert(all.last() == leaf(info, depth));
    assert(all.last().depth == depth + mine.len());
    assert forall|i: int| 0 <= i < mine.len() implies #[trigger] under[depth + i] == folder_way(
        mine,
    )[i] by {}
    assert(under.take(depth + mine.len() as int) =~= base + folder_way(mine)) by {
        assert forall|i: int| 0 <= i < depth + mine.len() implies under[i] == (base + folder_way(
            mine,
        ))[i] by {
            if i < depth {
                assert(under.take(depth as int)[i] == base[i]);
            } else {
                assert(under[depth + (i - depth)] == folder_way(mine)[i - depth]);
            }
        }
    }
    assert(trail(all, all.len() - 1) =~= base + key_way(info));
}

/// Folder after folder, the way grows by one segment of the path.
proof fn lemma_opened_ways(
    keys: Seq<KeyInfo>,
    info: KeyInfo,
    all: Seq<Row>,
    start: int,
    from: int,
    count: int,
    base: Seq<Step>,
    depth: nat,
)
    requires
        0 <= start,
        0 <= from,
        0 <= count <= folders(info.key@).len() - from,
        start + count <= all.len(),
        depth + path(info.key@).len() <= usize::MAX,
        base.len() == depth,
        forall|i: int|
            0 <= i < count ==> #[trigger] all[start + i] == folder_row(
                keys,
                path(info.key@),
                from + i,
                depth,
            ),
        trail(all, start - 1).len() >= depth + from,
        trail(all, start - 1).take(depth as int) == base,
        forall|i: int|
            0 <= i < from ==> #[trigger] trail(all, start - 1)[depth + i] == (
                NodeKind::KeyFolder,
                folders(info.key@)[i],
            ),
    ensures
        count > 0 ==> trail(all, start + count - 1) == base + folder_way(
            folders(info.key@).take(from + count),
        ),
        trail(all, start + count - 1).len() >= depth + from + count,
        trail(all, start + count - 1).take(depth as int) == base,
        forall|i: int|
            0 <= i < from + count ==> #[trigger] trail(all, start + count - 1)[depth + i] == (
                NodeKind::KeyFolder,
                folders(info.key@)[i],
            ),
    decreases count,
{
    let mine = folders(info.key@);
    if count > 0 {
        lemma_opened_ways(keys, info, all, start, from, count - 1, base, depth);
        let at = start + count - 1;
        let above = trail(all, at - 1);
        assert(all[start + (count - 1)] == folder_row(
            keys,
            path(info.key@),
            from + count - 1,
            depth,
        ));
        assert(all[at].depth == depth + from + count - 1);
        assert(all[at].name == mine[from + count - 1]);
        let way = base + folder_way(mine.take(from + count));
        assert forall|i: int| 0 <= i < way.len() implies trail(all, at)[i] == way[i] by {
            if i < depth {
                assert(above.take(depth as int)[i] == base[i]);
            } else if i < depth + from + count - 1 {
                assert(above[depth + (i - depth)] == (NodeKind::KeyFolder, mine[i - depth]));
            }
        }
        assert(trail(all, at) =~= way);
        assert(way.take(depth as int) =~= base);
        assert forall|i: int| 0 <= i < from + count implies #[trigger] trail(all, at)[depth + i]
            == (NodeKind::KeyFolder, mine[i]) by {
            assert(way[depth + i] == folder_way(mine.take(from + count))[i]);
        }
    }
}

/// The rows of the first keys are the first rows.
proof fn lemma_rows_prefix(keys: Seq<KeyInfo>, list: Seq<KeyInfo>, depth: nat, n: int)
    requires
        0 <= n <= list.len(),
    ensures
        key_rows(keys, list.take(n), depth).len() <= key_rows(keys, list, depth).len(),
        forall|i: int|
            0 <= i < key_rows(keys, list.take(n), depth).len() ==> key_rows(
                keys,
                list.take(n),
                depth,
            )[i] == key_rows(keys, list, depth)[i],
    decreases list.len(),
{
    if n == list.len() {
        assert(list.take(n) =~= list);
    } else {
        let front = list.drop_last();
        assert(front.take(n) =~= list.take(n));
        lemma_rows_prefix(keys, front, depth, n);
        assert forall|i: int| 0 <= i < key_rows(keys, list.take(n), depth).len() implies key_rows(
            keys,
            list.take(n),
            depth,
        )[i] == key_rows(keys, list, depth)[i] by {
            assert(key_rows(keys, list, depth)[i] == key_rows(keys, front, depth)[i]);
        }
    }
}

/// The rows of keys that stand in a tree have the ways there that they have
/// with nothing after them.
proof fn lemma_standing(
    all: Seq<Row>,
    start: int,
    keys: Seq<KeyInfo>,
    list: Seq<KeyInfo>,
    depth: nat,
    at: int,
)
    requires
        stand_at(all, start, keys, list, depth),
        -1 <= at < start + key_rows(keys, list, depth).len(),
    ensures
        trail(all, at) == trail(drawn(all.take(start), keys, list, depth), at),
        start <= at ==> all[at] == drawn(all.take(start), keys, list, depth)[at],
        way_in(all.take(start), start, depth) == way_in(all, start, depth),
        depth <= trail(all.take(start), start - 1).len(),
{
    let above = all.take(start);
    let rows = key_rows(keys, list, depth);
    let part = drawn(above, keys, list, depth);
    assert forall|i: int| 0 <= i < part.len() implies part[i] == all[i] by {
        if i >= start {
            assert(all.subrange(start, start + rows.len())[i - start] == rows[i - start]);
        }
    }
    lemma_trail_prefix(part, all, at);
    lemma_trail_prefix(above, all, start - 1);
}

/// Where the row of a key is, counted from where the keys begin.
pub open spec fn key_place(keys: Seq<KeyInfo>, list: Seq<KeyInfo>, depth: nat, n: int) -> int {
    key_rows(keys, list.take(n + 1), depth).len() - 1
}

/// The names on the way down to a key's row spell the key: wherever in a tree
/// the keys stand, below that each folder is one segment of the key, in order,
/// and its own row the last.
pub proof fn the_way_down_spells_the_key(
    all: Seq<Row>,
    start: int,
    keys: Seq<KeyInfo>,
    list: Seq<KeyInfo>,
    depth: nat,
    n: int,
)
    requires
        stand_at(all, start, keys, list, depth),
        countable(list, depth),
        0 <= n < list.len(),
    ensures
        0 <= key_place(keys, list, depth, n) < key_rows(keys, list, depth).len(),
        all[start + key_place(keys, list, depth, n)] == leaf(list[n], depth),
        trail(all, start + key_place(keys, list, depth, n)) == way_in(all, start, depth) + key_way(
            list[n],
        ),
        path(list[n].key@).len() > 0 ==> Seq::new(
            key_way(list[n]).len(),
            |i: int| key_way(list[n])[i].1,
        ) == path(list[n].key@),
{
    let above = all.take(start);
    let front = list.take(n + 1);
    let place = key_place(keys, list, depth, n);
    lemma_countable(list, depth, n + 1);
    lemma_standing(all, start, keys, list, depth, -1);
    lemma_last_key(above, keys, front, depth);
    lemma_rows_prefix(keys, list, depth, n + 1);
    lemma_standing(all, start, keys, list, depth, start + place);
    let (few, many) = (drawn(above, keys, front, depth), drawn(above, keys, list, depth));
    assert forall|i: int| 0 <= i < few.len() implies few[i] == many[i] by {
        if i >= start {
            assert(few[i] == key_rows(keys, front, depth)[i - start]);
            assert(many[i] == key_rows(keys, list, depth)[i - start]);
        }
    }
    lemma_trail_prefix(few, many, start + place);
    assert(few.last() == few[start + place]);
    assert(front.last() == list[n]);
    if path(list[n].key@).len() > 0 {
        assert(Seq::new(key_way(list[n]).len(), |i: int| key_way(list[n])[i].1) =~= path(
            list[n].key@,
        ));
    }
}

/// Whether a row's way is that of a folder one of the keys is under.
spec fn is_folder_of(base: Seq<Step>, list: Seq<KeyInfo>, way: Seq<Step>, m: int) -> bool {
    &&& 0 <= m < list.len()
    &&& base.len() < way.len() < base.len() + path(list[m].key@).len()
    &&& way == base + folder_way(path(list[m].key@).take(way.len() - base.len()))
}

/// Every folder's row is that of a folder one of the keys is under.
proof fn lemma_folder_rows(
    above: Seq<Row>,
    keys: Seq<KeyInfo>,
    list: Seq<KeyInfo>,
    depth: nat,
    i: int,
) -> (m: int)
    requires
        countable(list, depth),
        depth <= trail(above, above.len() - 1).len(),
        above.len() <= i < drawn(above, keys, list, depth).len(),
        drawn(above, keys, list, depth)[i].kind is KeyFolder,
    ensures
        is_folder_of(
            way_in(above, above.len() as int, depth),
            list,
            trail(drawn(above, keys, list, depth), i),
            m,
        ),
    decreases list.len(),
{
    let front = list.drop_last();
    let base = way_in(above, above.len() as int, depth);
    let a = drawn(above, keys, front, depth);
    let all = drawn(above, keys, list, depth);
    let mine = folders(list.last().key@);
    let from = shared(open_before(list), mine) as int;
    lemma_last_key(above, keys, list, depth);
    if i < a.len() {
        assert(front =~= list.take(list.len() - 1));
        lemma_countable(list, depth, list.len() - 1);
        assert(all[i] == a[i]);
        let m = lemma_folder_rows(above, keys, front, depth, i);
        lemma_trail_prefix(a, all, i);
        assert(front[m] == list[m]);
        m
    } else {
        let c = i - a.len();
        assert(c < mine.len() - from);
        assert(all[a.len() + c].kind is KeyFolder);
        let way = trail(all, i);
        assert(mine.take(from + c + 1) =~= path(list.last().key@).take(way.len() - base.len()));
        list.len() - 1
    }
}

/// No folder of the last key that is opened in front of it is open already or
/// was closed before: the keys under a folder stand together.
proof fn lemma_new_folder(
    above: Seq<Row>,
    keys: Seq<KeyInfo>,
    list: Seq<KeyInfo>,
    depth: nat,
    i: int,
    j: int,
)
    requires
        ordered(list),
        countable(list, depth),
        depth <= trail(above, above.len() - 1).len(),
        list.len() > 0,
        above.len() <= i < drawn(above, keys, list.drop_last(), depth).len() <= j < drawn(
            above,
            keys,
            list,
            depth,
        ).len(),
        drawn(above, keys, list, depth)[i].kind is KeyFolder,
        drawn(above, keys, list, depth)[j].kind is KeyFolder,
    ensures
        trail(drawn(above, keys, list, depth), i) != trail(drawn(above, keys, list, depth), j),
{
    let front = list.drop_last();
    let base = way_in(above, above.len() as int, depth);
    let a = drawn(above, keys, front, depth);
    let all = drawn(above, keys, list, depth);
    let last = list.len() - 1;
    let mine = folders(list.last().key@);
    let from = shared(open_before(list), mine) as int;
    lemma_last_key(above, keys, list, depth);
    let c = j - a.len();
    assert(all[a.len() + c].kind is KeyFolder);
    assert(c < mine.len() - from);
    let folder = mine.take(from + c + 1);
    assert(trail(all, j) == base + folder_way(folder));
    if trail(all, i) == trail(all, j) {
        assert(front =~= list.take(list.len() - 1));
        lemma_countable(list, depth, list.len() - 1);
        assert(all[i] == a[i]);
        let m = lemma_folder_rows(above, keys, front, depth, i);
        lemma_trail_prefix(a, all, i);
        let size = folder.len() as int;
        let way = base + folder_way(folder);
        assert(way.len() == depth + size);
        let (p, q, r) = (path(list[m].key@), path(list[last - 1].key@), path(list[last].key@));
        assert(front[m] == list[m]);
        assert forall|k: int| 0 <= k < size implies p[k] == r[k] by {
            assert(way[depth + k] == (NodeKind::KeyFolder, folder[k]));
            assert((base + folder_way(p.take(size)))[depth + k] == (
                NodeKind::KeyFolder,
                p.take(size)[k],
            ));
            assert(folder[k] == mine[k] && mine[k] == r[k]);
        }
        if m < last - 1 {
            assert(!key_before(list[last - 1], list[m]));
            assert(!key_before(list[last], list[last - 1]));
            lemma_path_order(list[last - 1], list[m]);
            lemma_path_order(list[last], list[last - 1]);
            lemma_between(p, q, r, size);
        }
        let open = open_before(list);
        assert(open == folders(list[last - 1].key@));
        assert forall|k: int| 0 <= k < size implies open[k] == mine[k] by {
            assert(open[k] == q[k] && mine[k] == r[k]);
            assert(p[k] == r[k]);
        }
        lemma_shared_at_least(open, mine, size);
    }
}

/// In keys that are in order, no folder comes twice.
proof fn lemma_folders_once(
    above: Seq<Row>,
    keys: Seq<KeyInfo>,
    list: Seq<KeyInfo>,
    depth: nat,
    i: int,
    j: int,
)
    requires
        ordered(list),
        countable(list, depth),
        depth <= trail(above, above.len() - 1).len(),
        above.len() <= i < j < drawn(above, keys, list, depth).len(),
        drawn(above, keys, list, depth)[i].kind is KeyFolder,
        drawn(above, keys, list, depth)[j].kind is KeyFolder,
    ensures
        trail(drawn(above, keys, list, depth), i) != trail(drawn(above, keys, list, depth), j),
    decreases list.len(),
{
    let front = list.drop_last();
    let base = way_in(above, above.len() as int, depth);
    let a = drawn(above, keys, front, depth);
    let all = drawn(above, keys, list, depth);
    let mine = folders(list.last().key@);
    let from = shared(open_before(list), mine) as int;
    lemma_last_key(above, keys, list, depth);
    if j < a.len() {
        assert(front =~= list.take(list.len() - 1));
        lemma_countable(list, depth, list.len() - 1);
        assert(ordered(front)) by {
            assert forall|x: int, y: int| 0 <= x < y < front.len() implies !key_before(
                #[trigger] front[y],
                #[trigger] front[x],
            ) by {
                assert(front[x] == list[x] && front[y] == list[y]);
            }
        }
        assert(all[i] == a[i] && all[j] == a[j]);
        lemma_folders_once(above, keys, front, depth, i, j);
        lemma_trail_prefix(a, all, i);
        lemma_trail_prefix(a, all, j);
    } else if i < a.len() {
        lemma_new_folder(above, keys, list, depth, i, j);
    } else {
        let (x, y) = (i - a.len(), j - a.len());
        assert(all[a.len() + x].kind is KeyFolder && all[a.len() + y].kind is KeyFolder);
        assert((base + folder_way(mine.take(from + x + 1))).len() != (base + folder_way(
            mine.take(from + y + 1),
        )).len());
    }
}

/// Among the rows keys are drawn as, no folder comes twice, wherever in a tree
/// they stand: two rows of folders have different ways down to them.
pub proof fn no_folder_comes_twice(
    all: Seq<Row>,
    start: int,
    keys: Seq<KeyInfo>,
    depth: nat,
    i: int,
    j: int,
)
    requires
        stand_at(all, start, keys, in_order(keys), depth),
        countable(keys, depth),
        start <= i < j < start + key_rows(keys, in_order(keys), depth).len(),
        all[i].kind is KeyFolder,
        all[j].kind is KeyFolder,
    ensures
        trail(all, i) != trail(all, j),
{
    broadcast use vstd::seq_lib::group_to_multiset_ensures;

    let list = in_order(keys);
    keys_are_drawn_in_order(keys);
    assert forall|k: int| 0 <= k < list.len() implies depth + path((#[trigger] list[k]).key@).len()
        <= usize::MAX by {
        assert(list.contains(list[k]));
        assert(list.to_multiset().count(list[k]) > 0);
        assert(keys.contains(list[k]));
    }
    lemma_standing(all, start, keys, list, depth, i);
    lemma_standing(all, start, keys, list, depth, j);
    lemma_folders_once(all.take(start), keys, list, depth, i, j);
}

/// The keys of the open database stand right below its row, wherever that is.
pub proof fn keys_stand_below_their_database(
    above: Seq<Row>,
    after: Seq<Row>,
    keys: KeysView,
    at: int,
    depth: nat,
)
    requires
        keys.keyspace.databases@[at].index == keys.keyspace.current,
        depth <= trail(above, above.len() - 1).len(),
    ensures
        stand_at(
            above + key_database_rows(keys, at, depth) + after,
            above.len() + 1 as int,
            keys.keys,
            in_order(keys.keys),
            depth + 1,
        ),
{
    let part = key_database_rows(keys, at, depth);
    let all = above + part + after;
    let rows = key_rows(keys.keys, in_order(keys.keys), depth + 1);
    let start = above.len() as int;
    assert(all.subrange(start + 1, start + 1 + rows.len()) =~= rows);
    lemma_trail_prefix(above, all, start - 1);
    assert(all[start] == part[0]);
    assert(all[start].depth == depth);
    assert(trail(all, start).len() == depth + 1);
}

} // verus!
