//! The left panel's tree: which rows are drawn, how, and what a click does.
use crate::browsing::{key_opened, relation_opened};
use crate::casing::{lowercase, to_lowercase};
use crate::catalog::KeyType;
use crate::connecting::{connection_opened, database_opened, origin_focused};
use crate::icon::{IconColor, IconName, Paint};
use crate::list::Disclosure;
use crate::lists::{first, group_views, lemma_first};
use crate::showing::{connection_place, group_showing};
use crate::text::{contains, has, texts, trim, trimmed};
use crate::tree::{entries, Entry, Goal, NodeKind, Target, TreeNode};
use crate::window::{
    group_window, lemma_same_frame, then_do, well_formed, Act, Effect, WindowView, Workspace,
};
use std::collections::HashSet;
use vstd::prelude::*;

verus! {

broadcast use {
    group_views,
    group_window,
    group_showing,
    vstd::std_specs::hash::group_hash_axioms,
};

/// The icon and the colour of a row. Colour carries the category so a long
/// tree can be scanned without reading. A key takes its glyph from what it
/// holds, which is the one thing a keyspace has instead of a schema.
pub open spec fn face_of(kind: NodeKind, target: Option<Goal>) -> (IconName, IconColor) {
    match target {
        Some(Goal::Key(_, holds)) => match holds {
            KeyType::Text => (IconName::TextA, IconColor::Custom(Paint::TextLiteral)),
            KeyType::List => (IconName::BulletList, IconColor::Custom(Paint::Number)),
            KeyType::Hash => (IconName::BracketsCurly, IconColor::Custom(Paint::Keyword)),
            KeyType::Members => (IconName::Layers, IconColor::Custom(Paint::TypeName)),
            KeyType::SortedSet => (IconName::SortAsc, IconColor::Custom(Paint::Function)),
            KeyType::Stream => (IconName::History, IconColor::Custom(Paint::Info)),
            KeyType::Other(_) => (IconName::File, IconColor::Muted),
        },
        _ => match kind {
            NodeKind::Connection => (IconName::Plug, IconColor::Custom(Paint::Accent)),
            NodeKind::Database => (IconName::Database, IconColor::Custom(Paint::Accent)),
            NodeKind::SchemaGroup => (IconName::Folder, IconColor::Subtle),
            NodeKind::TableGroup => (IconName::Folder, IconColor::Subtle),
            NodeKind::FunctionGroup => (IconName::Folder, IconColor::Subtle),
            NodeKind::Schema => (IconName::Layers, IconColor::Muted),
            NodeKind::Table => (IconName::Table, IconColor::Custom(Paint::Warning)),
            NodeKind::View => (IconName::Eye, IconColor::Custom(Paint::Success)),
            NodeKind::MaterializedView => (
                IconName::EyeFilled,
                IconColor::Custom(Paint::Success),
            ),
            NodeKind::Function => (IconName::BracketsCurly, IconColor::Muted),
            NodeKind::RoleGroup => (IconName::Users, IconColor::Subtle),
            NodeKind::Role => (IconName::User, IconColor::Muted),
            NodeKind::RoleGroupMember => (IconName::Users, IconColor::Muted),
            NodeKind::KeyDatabase => (IconName::Database, IconColor::Custom(Paint::Accent)),
            NodeKind::KeyFolder => (IconName::Folder, IconColor::Subtle),
            NodeKind::Key => (IconName::Key, IconColor::Muted),
        },
    }
}

/// The icon and the colour of a row.
pub fn icon_for(node: &TreeNode) -> (face: (IconName, IconColor))
    ensures
        face == face_of(node.kind, node.row().target),
{
    if let Some(Target::Key(_, holds)) = &node.target {
        return match holds {
            KeyType::Text => (IconName::TextA, IconColor::Custom(Paint::TextLiteral)),
            KeyType::List => (IconName::BulletList, IconColor::Custom(Paint::Number)),
            KeyType::Hash => (IconName::BracketsCurly, IconColor::Custom(Paint::Keyword)),
            KeyType::Members => (IconName::Layers, IconColor::Custom(Paint::TypeName)),
            KeyType::SortedSet => (IconName::SortAsc, IconColor::Custom(Paint::Function)),
            KeyType::Stream => (IconName::History, IconColor::Custom(Paint::Info)),
            // A type this build has never heard of. It is still a key and still
            // has a name.
            KeyType::Other(_) => (IconName::File, IconColor::Muted),
        };
    }
    match node.kind {
        NodeKind::Connection => (IconName::Plug, IconColor::Custom(Paint::Accent)),
        NodeKind::Database => (IconName::Database, IconColor::Custom(Paint::Accent)),
        NodeKind::SchemaGroup | NodeKind::TableGroup | NodeKind::FunctionGroup => (
            IconName::Folder,
            IconColor::Subtle,
        ),
        NodeKind::Schema => (IconName::Layers, IconColor::Muted),
        NodeKind::Table => (IconName::Table, IconColor::Custom(Paint::Warning)),
        NodeKind::View => (IconName::Eye, IconColor::Custom(Paint::Success)),
        NodeKind::MaterializedView => (IconName::EyeFilled, IconColor::Custom(Paint::Success)),
        NodeKind::Function => (IconName::BracketsCurly, IconColor::Muted),
        NodeKind::RoleGroup => (IconName::Users, IconColor::Subtle),
        NodeKind::Role => (IconName::User, IconColor::Muted),
        NodeKind::RoleGroupMember => (IconName::Users, IconColor::Muted),
        NodeKind::KeyDatabase => (IconName::Database, IconColor::Custom(Paint::Accent)),
        NodeKind::KeyFolder => (IconName::Folder, IconColor::Subtle),
        NodeKind::Key => (IconName::Key, IconColor::Muted),
    }
}

/// The rows above a row and the row itself, by their ids, from the root down.
/// Depth is enough to recover them because the tree is stored flattened in
/// visit order.
pub open spec fn lineage(list: Seq<Entry>, at: int) -> Seq<usize>
    decreases at + 1,
{
    if at < 0 {
        Seq::empty()
    } else {
        let above = lineage(list, at - 1);
        let cut = if above.len() > list[at].row.depth {
            above.take(list[at].row.depth as int)
        } else {
            above
        };
        cut.push(list[at].id)
    }
}

/// Whether a row is kept by a needle: a row with the needle in its lower-cased
/// name is under it, or is it.
pub open spec fn is_kept(list: Seq<Entry>, folded: Seq<Seq<char>>, needle: Seq<char>, id: usize) -> bool {
    exists|i: int|
        0 <= i < list.len() && has(folded[i], needle) && (#[trigger] lineage(list, i)).contains(id)
}

/// The lower-cased names of some rows.
pub open spec fn folded_rows(list: Seq<Entry>) -> Seq<Seq<char>> {
    Seq::new(list.len(), |i: int| lowercase(list[i].row.name))
}

/// Whether a row is closed.
pub open spec fn is_shut(entry: Entry, collapsed: Seq<usize>) -> bool {
    collapsed.contains(entry.id) && entry.row.expandable
}

/// Whether a row is above another: every row from it down to the other is
/// deeper.
pub open spec fn is_above(list: Seq<Entry>, j: int, i: int) -> bool {
    &&& 0 <= j < i
    &&& forall|k: int| j < k <= i ==> (#[trigger] list[k]).row.depth > list[j].row.depth
}

/// Whether a row is out of sight: a closed row is above it.
pub open spec fn is_hidden(list: Seq<Entry>, collapsed: Seq<usize>, i: int) -> bool {
    exists|j: int| #[trigger] is_above(list, j, i) && is_shut(list[j], collapsed)
}

/// A colour a connection was tagged with.
#[derive(Clone, Copy, PartialEq, Eq, Structural, Debug)]
pub struct Tag {
    pub connection: u128,
    pub paint: Option<Paint>,
}

/// Whether a tag is a connection's.
pub open spec fn is_tag_of(connection: u128) -> spec_fn(Tag) -> bool {
    |tag: Tag| tag.connection == connection
}

/// The colour of a row: the root of a tagged connection wears its tag, because
/// there is more than one server on screen and the guardrail is worth nothing
/// if every root wears the colour of the one in front.
pub open spec fn row_color(entry: Entry, tags: Seq<Tag>) -> IconColor {
    let plain = face_of(entry.row.kind, entry.row.target).1;
    let at = first(tags, is_tag_of(entry.connection));
    if entry.row.kind is Connection && at < tags.len() {
        match tags[at].paint {
            Some(paint) => IconColor::Custom(paint),
            None => plain,
        }
    } else {
        plain
    }
}

/// A row of the tree as it is drawn.
#[derive(Clone, Copy, PartialEq, Eq, Structural, Debug)]
pub struct TreeRow {
    /// Which row of the tree it is.
    pub place: usize,
    pub id: usize,
    pub indent: usize,
    pub disclosure: Disclosure,
    pub icon: IconName,
    pub color: IconColor,
    pub selected: bool,
}

/// A row of the tree as it is drawn. While the tree is filtered, nothing in it
/// is closed: a match five levels down is useless if the branch above it is.
pub open spec fn row_face(
    list: Seq<Entry>,
    at: int,
    collapsed: Seq<usize>,
    filtered: bool,
    selected: Option<usize>,
    tags: Seq<Tag>,
) -> TreeRow {
    let entry = list[at];
    TreeRow {
        place: at as usize,
        id: entry.id,
        indent: entry.row.depth as usize,
        disclosure: if !entry.row.expandable {
            Disclosure::Leaf
        } else if !filtered && collapsed.contains(entry.id) {
            Disclosure::Collapsed
        } else {
            Disclosure::Expanded
        },
        icon: face_of(entry.row.kind, entry.row.target).0,
        color: row_color(entry, tags),
        selected: selected == Some(entry.id),
    }
}

/// Whether a row is drawn: with a filter, where it is kept, and without one,
/// where no closed row is above it.
pub open spec fn is_drawn(
    list: Seq<Entry>,
    at: int,
    collapsed: Seq<usize>,
    folded: Seq<Seq<char>>,
    needle: Option<Seq<char>>,
) -> bool {
    match needle {
        Some(needle) => is_kept(list, folded, needle, list[at].id),
        None => !is_hidden(list, collapsed, at),
    }
}

/// The first rows of the tree that are drawn, in order.
pub open spec fn drawn_rows(
    list: Seq<Entry>,
    count: int,
    collapsed: Seq<usize>,
    folded: Seq<Seq<char>>,
    needle: Option<Seq<char>>,
    selected: Option<usize>,
    tags: Seq<Tag>,
) -> Seq<TreeRow>
    decreases count,
{
    if count <= 0 {
        Seq::empty()
    } else {
        let before = drawn_rows(list, count - 1, collapsed, folded, needle, selected, tags);
        if is_drawn(list, count - 1, collapsed, folded, needle) {
            before.push(row_face(list, count - 1, collapsed, needle is Some, selected, tags))
        } else {
            before
        }
    }
}

/// What is asked of the tree, lower-cased, and nothing where nothing is.
pub open spec fn needle_of(query: Seq<char>) -> Option<Seq<char>> {
    if trimmed(query).len() == 0 {
        None
    } else {
        Some(lowercase(trimmed(query)))
    }
}

/// Whether some ids have one.
fn has_id(ids: &Vec<usize>, id: usize) -> (answer: bool)
    ensures
        answer == ids@.contains(id),
{
    let mut at: usize = 0;
    while at < ids.len()
        invariant
            at <= ids@.len(),
            forall|i: int| 0 <= i < at ==> (#[trigger] ids@[i]) != id,
        decreases ids@.len() - at,
    {
        if ids[at] == id {
            return true;
        }
        at += 1;
    }
    false
}

/// Ids to show for a needle: every row whose lower-cased name has it, and the
/// rows above needed to reach them.
pub fn kept_by(tree: &Vec<TreeNode>, folded: &Vec<String>, needle: &str) -> (keep: HashSet<usize>)
    requires
        folded@.len() == tree@.len(),
    ensures
        forall|id: usize|
            keep@.contains(id) <==> #[trigger] is_kept(
                entries(tree@),
                texts(folded@),
                needle@,
                id,
            ),
{
    let ghost list = entries(tree@);
    let mut keep: HashSet<usize> = HashSet::new();
    let mut above: Vec<usize> = Vec::new();
    let mut at: usize = 0;
    assert(lineage(list, -1) =~= above@);
    while at < tree.len()
        invariant
            at <= tree@.len(),
            folded@.len() == tree@.len(),
            list == entries(tree@),
            above@ == lineage(list, at - 1),
            forall|id: usize| #[trigger]
                keep@.contains(id) <==> exists|i: int|
                    0 <= i < at && has(texts(folded@)[i], needle@) && (#[trigger] lineage(
                        list,
                        i,
                    )).contains(id),
        decreases tree@.len() - at,
    {
        let ghost had = keep@;
        assert(list[at as int] == tree@[at as int].entry());
        if above.len() > tree[at].depth {
            above.truncate(tree[at].depth);
        }
        above.push(tree[at].id);
        assert(above@ =~= lineage(list, at as int));
        assert(texts(folded@)[at as int] == folded@[at as int]@);
        if contains(folded[at].as_str(), needle) {
            let mut place: usize = 0;
            while place < above.len()
                invariant
                    place <= above@.len(),
                    forall|id: usize| #[trigger]
                        keep@.contains(id) == (had.contains(id) || above@.take(
                            place as int,
                        ).contains(id)),
                decreases above@.len() - place,
            {
                let ghost before = keep@;
                let one = above[place];
                keep.insert(one);
                assert(keep@ == before.insert(one));
                assert(above@.take(place + 1) =~= above@.take(place as int).push(
                    above@[place as int],
                ));
                let ghost shorter = above@.take(place as int);
                let ghost longer = above@.take(place + 1);
                assert forall|id: usize| #[trigger]
                    longer.contains(id) == (shorter.contains(id) || id == one) by {
                    if shorter.contains(id) {
                        let k = choose|k: int| 0 <= k < shorter.len() && shorter[k] == id;
                        assert(longer[k] == id);
                    }
                    assert(longer[place as int] == one);
                    if longer.contains(id) && id != one {
                        let k = choose|k: int| 0 <= k < longer.len() && longer[k] == id;
                        assert(shorter[k] == id);
                    }
                }
                assert forall|id: usize| #[trigger]
                    keep@.contains(id) == (had.contains(id) || longer.contains(id)) by {
                    assert(before.contains(id) == (had.contains(id) || shorter.contains(id)));
                    assert(keep@.contains(id) == (before.contains(id) || id == one));
                }
                place += 1;
            }
            assert(above@.take(place as int) =~= above@);
        }
        let ghost mine = has(texts(folded@)[at as int], needle@);
        assert forall|id: usize| #[trigger]
            keep@.contains(id) <==> exists|i: int|
                0 <= i < at + 1 && has(texts(folded@)[i], needle@) && (#[trigger] lineage(
                    list,
                    i,
                )).contains(id) by {
            let here = mine && lineage(list, at as int).contains(id);
            assert(keep@.contains(id) == (had.contains(id) || here));
            if had.contains(id) {
                let i = choose|i: int|
                    0 <= i < at && has(texts(folded@)[i], needle@) && (#[trigger] lineage(
                        list,
                        i,
                    )).contains(id);
                assert(lineage(list, i).contains(id));
            }
            if here {
                assert(lineage(list, at as int).contains(id));
            }
        }
        at += 1;
    }
    proof {
        assert forall|id: usize|
            keep@.contains(id) <==> #[trigger] is_kept(list, texts(folded@), needle@, id) by {}
    }
    keep
}

/// The lower-cased names of the rows of a tree.
fn fold_names(tree: &Vec<TreeNode>) -> (folded: Vec<String>)
    ensures
        texts(folded@) == folded_rows(entries(tree@)),
{
    let mut folded: Vec<String> = Vec::new();
    let mut at: usize = 0;
    while at < tree.len()
        invariant
            at <= tree@.len(),
            folded@.len() == at,
            forall|i: int| 0 <= i < at ==> (#[trigger] folded@[i])@ == lowercase(tree@[i].name@),
        decreases tree@.len() - at,
    {
        folded.push(to_lowercase(tree[at].name.as_str()));
        at += 1;
    }
    assert(texts(folded@) =~= folded_rows(entries(tree@)));
    folded
}

/// Ids to show for a query: every row whose name has it, whatever the letter
/// case, and the rows above needed to reach them.
pub fn matching_nodes(tree: &Vec<TreeNode>, query: &str) -> (keep: HashSet<usize>)
    ensures
        forall|id: usize|
            keep@.contains(id) <==> #[trigger] is_kept(
                entries(tree@),
                folded_rows(entries(tree@)),
                lowercase(query@),
                id,
            ),
{
    let needle = to_lowercase(query);
    let folded = fold_names(tree);
    assert(folded@.len() == tree@.len()) by {
        assert(texts(folded@).len() == tree@.len());
    }
    kept_by(tree, &folded, needle.as_str())
}

/// The colour of a row.
fn color_of(node: &TreeNode, tags: &Vec<Tag>) -> (color: IconColor)
    ensures
        color == row_color(node.entry(), tags@),
{
    let plain = icon_for(node).1;
    let ghost meant = is_tag_of(node.origin.connection);
    let mut at: usize = 0;
    while at < tags.len()
        invariant
            at <= tags@.len(),
            meant == is_tag_of(node.origin.connection),
            plain == face_of(node.kind, node.row().target).1,
            forall|i: int| 0 <= i < at ==> !meant(#[trigger] tags@[i]),
        decreases tags@.len() - at,
    {
        if tags[at].connection == node.origin.connection {
            proof {
                lemma_first(tags@, meant, at as int);
            }
            if node.kind == NodeKind::Connection {
                if let Some(paint) = tags[at].paint {
                    return IconColor::Custom(paint);
                }
            }
            return plain;
        }
        at += 1;
    }
    proof {
        lemma_first(tags@, meant, at as int);
    }
    plain
}

/// A row of the tree as it is drawn.
fn row_of(
    tree: &Vec<TreeNode>,
    at: usize,
    collapsed: &Vec<usize>,
    filtered: bool,
    selected: Option<usize>,
    tags: &Vec<Tag>,
) -> (row: TreeRow)
    requires
        at < tree@.len(),
    ensures
        row == row_face(entries(tree@), at as int, collapsed@, filtered, selected, tags@),
{
    let node = &tree[at];
    assert(entries(tree@)[at as int] == node.entry());
    let chosen = match selected {
        Some(id) => id == node.id,
        None => false,
    };
    TreeRow {
        place: at,
        id: node.id,
        indent: node.depth,
        disclosure: if !node.expandable {
            Disclosure::Leaf
        } else if !filtered && has_id(collapsed, node.id) {
            Disclosure::Collapsed
        } else {
            Disclosure::Expanded
        },
        icon: icon_for(node).0,
        color: color_of(node, tags),
        selected: chosen,
    }
}

/// The rows that a filter leaves.
fn filtered_rows(
    tree: &Vec<TreeNode>,
    collapsed: &Vec<usize>,
    query: &str,
    selected: Option<usize>,
    tags: &Vec<Tag>,
) -> (rows: Vec<TreeRow>)
    ensures
        rows@ == drawn_rows(
            entries(tree@),
            tree@.len() as int,
            collapsed@,
            folded_rows(entries(tree@)),
            Some(lowercase(query@)),
            selected,
            tags@,
        ),
{
    let keep = matching_nodes(tree, query);
    let ghost list = entries(tree@);
    let ghost folded = folded_rows(list);
    let ghost needle = Some(lowercase(query@));
    let mut rows: Vec<TreeRow> = Vec::new();
    let mut at: usize = 0;
    while at < tree.len()
        invariant
            at <= tree@.len(),
            list == entries(tree@),
            folded == folded_rows(list),
            needle == Some(lowercase(query@)),
            forall|id: usize|
                keep@.contains(id) <==> #[trigger] is_kept(list, folded, lowercase(query@), id),
            rows@ == drawn_rows(list, at as int, collapsed@, folded, needle, selected, tags@),
        decreases tree@.len() - at,
    {
        assert(list[at as int] == tree@[at as int].entry());
        assert(is_drawn(list, at as int, collapsed@, folded, needle) == is_kept(
            list,
            folded,
            lowercase(query@),
            tree@[at as int].id,
        ));
        if keep.contains(&tree[at].id) {
            rows.push(row_of(tree, at, collapsed, true, selected, tags));
        }
        at += 1;
    }
    rows
}

/// The rows that no closed row is above.
fn open_rows(
    tree: &Vec<TreeNode>,
    collapsed: &Vec<usize>,
    selected: Option<usize>,
    tags: &Vec<Tag>,
) -> (rows: Vec<TreeRow>)
    ensures
        rows@ == drawn_rows(
            entries(tree@),
            tree@.len() as int,
            collapsed@,
            folded_rows(entries(tree@)),
            None,
            selected,
            tags@,
        ),
{
    let ghost list = entries(tree@);
    let ghost folded = folded_rows(list);
    let mut rows: Vec<TreeRow> = Vec::new();
    let mut below: Option<usize> = None;
    let ghost mut closed: int = -1;
    let mut at: usize = 0;
    while at < tree.len()
        invariant
            at <= tree@.len(),
            list == entries(tree@),
            folded == folded_rows(list),
            rows@ == drawn_rows(list, at as int, collapsed@, folded, None, selected, tags@),
            covering(list, collapsed@, at as int, below, closed),
        decreases tree@.len() - at,
    {
        let node = &tree[at];
        assert(list[at as int] == node.entry());
        let hidden = match below {
            Some(depth) => node.depth > depth,
            None => false,
        };
        proof {
            lemma_covering(list, collapsed@, at as int, below, closed);
        }
        if !hidden {
            below = None;
            if has_id(collapsed, node.id) && node.expandable {
                below = Some(node.depth);
                proof {
                    closed = at as int;
                }
            }
            rows.push(row_of(tree, at, collapsed, false, selected, tags));
        }
        at += 1;
    }
    rows
}

/// What the walk knows before a row: the closed row that is above the ones it
/// is passing over and that is itself in sight, or that there is none.
spec fn covering(
    list: Seq<Entry>,
    collapsed: Seq<usize>,
    at: int,
    below: Option<usize>,
    closed: int,
) -> bool {
    match below {
        Some(depth) => {
            &&& 0 <= closed < at
            &&& is_shut(list[closed], collapsed)
            &&& list[closed].row.depth == depth
            &&& !is_hidden(list, collapsed, closed)
            &&& forall|k: int| closed < k < at ==> (#[trigger] list[k]).row.depth > depth
        },
        None => forall|j: int|
            0 <= j < at && #[trigger] is_shut(list[j], collapsed) ==> exists|k: int|
                j < k < at && (#[trigger] list[k]).row.depth <= list[j].row.depth,
    }
}

/// A row is out of sight exactly where the walk passes over it, and what the
/// walk knows after it is right.
proof fn lemma_covering(
    list: Seq<Entry>,
    collapsed: Seq<usize>,
    at: int,
    below: Option<usize>,
    closed: int,
)
    requires
        0 <= at < list.len(),
        list[at].row.depth <= usize::MAX,
        covering(list, collapsed, at, below, closed),
    ensures
        is_hidden(list, collapsed, at) <==> (below matches Some(depth) && list[at].row.depth
            > depth),
        is_hidden(list, collapsed, at) ==> covering(list, collapsed, at + 1, below, closed),
        !is_hidden(list, collapsed, at) && is_shut(list[at], collapsed) ==> covering(
            list,
            collapsed,
            at + 1,
            Some(list[at].row.depth as usize),
            at,
        ),
        !is_hidden(list, collapsed, at) && !is_shut(list[at], collapsed) ==> covering(
            list,
            collapsed,
            at + 1,
            None,
            closed,
        ),
{
    match below {
        Some(depth) => {
            if list[at].row.depth > depth {
                assert(is_above(list, closed, at));
            } else {
                assert forall|j: int| #[trigger] is_above(list, j, at) implies !is_shut(
                    list[j],
                    collapsed,
                ) by {
                    if is_shut(list[j], collapsed) {
                        if j < closed {
                            assert(is_above(list, j, closed)) by {
                                assert forall|k: int| j < k <= closed implies (
                                #[trigger] list[k]).row.depth > list[j].row.depth by {}
                            }
                            assert(false);
                        } else if j == closed {
                            assert(list[at].row.depth > list[j].row.depth);
                        } else {
                            assert(list[j].row.depth > depth);
                            assert(list[at].row.depth > list[j].row.depth);
                        }
                    }
                }
                assert forall|j: int|
                    0 <= j < at + 1 && #[trigger] is_shut(list[j], collapsed) && j
                        != at implies exists|k: int|
                    j < k < at + 1 && (#[trigger] list[k]).row.depth <= list[j].row.depth by {
                    if j == closed {
                        assert(list[at].row.depth <= list[j].row.depth);
                    } else if j > closed {
                        assert(list[j].row.depth > depth);
                        assert(list[at].row.depth <= list[j].row.depth);
                    } else {
                        if forall|k: int|
                            j < k < at + 1 ==> (#[trigger] list[k]).row.depth > list[j].row.depth {
                            assert(is_above(list, j, closed));
                            assert(false);
                        }
                    }
                }
            }
        },
        None => {
            assert forall|j: int| #[trigger] is_above(list, j, at) implies !is_shut(
                list[j],
                collapsed,
            ) by {
                if is_shut(list[j], collapsed) {
                    let k = choose|k: int|
                        j < k < at && (#[trigger] list[k]).row.depth <= list[j].row.depth;
                    assert(list[k].row.depth > list[j].row.depth);
                }
            }
            assert forall|j: int|
                0 <= j < at && #[trigger] is_shut(list[j], collapsed) implies exists|k: int|
                j < k < at + 1 && (#[trigger] list[k]).row.depth <= list[j].row.depth by {
                let k = choose|k: int|
                    j < k < at && (#[trigger] list[k]).row.depth <= list[j].row.depth;
                assert(list[k].row.depth <= list[j].row.depth);
            }
        },
    }
}

/// The rows of the tree that are drawn, for what is typed into its filter.
pub fn render_tree(
    tree: &Vec<TreeNode>,
    collapsed: &Vec<usize>,
    query: &str,
    selected: Option<usize>,
    tags: &Vec<Tag>,
) -> (rows: Vec<TreeRow>)
    ensures
        rows@ == drawn_rows(
            entries(tree@),
            tree@.len() as int,
            collapsed@,
            folded_rows(entries(tree@)),
            needle_of(query@),
            selected,
            tags@,
        ),
{
    let asked = trim(query);
    if asked.as_str().unicode_len() == 0 {
        open_rows(tree, collapsed, selected, tags)
    } else {
        filtered_rows(tree, collapsed, asked.as_str(), selected, tags)
    }
}

/// A row that matches is drawn, and so is everything above it: whatever is
/// closed, a filter shows the way down to what it found.
pub proof fn a_match_is_shown_with_the_way_to_it(
    list: Seq<Entry>,
    collapsed: Seq<usize>,
    folded: Seq<Seq<char>>,
    needle: Seq<char>,
    at: int,
    above: int,
)
    requires
        0 <= above <= at < list.len(),
        has(folded[at], needle),
        lineage(list, at).contains(list[above].id),
    ensures
        is_drawn(list, above, collapsed, folded, Some(needle)),
{
    assert(lineage(list, at).contains(list[above].id));
}

/// Closing a row takes everything under it out of sight and nothing else: a row
/// that is not under it is drawn as it was.
pub proof fn closing_a_row_hides_what_is_under_it(
    list: Seq<Entry>,
    collapsed: Seq<usize>,
    shut: int,
    at: int,
)
    requires
        0 <= shut < list.len(),
        0 <= at < list.len(),
        list[shut].row.expandable,
        forall|i: int|
            0 <= i < list.len() && i != shut ==> (#[trigger] list[i]).id != list[shut].id,
    ensures
        is_above(list, shut, at) ==> is_hidden(list, collapsed.push(list[shut].id), at),
        !is_above(list, shut, at) ==> is_hidden(list, collapsed.push(list[shut].id), at)
            == is_hidden(list, collapsed, at),
{
    let more = collapsed.push(list[shut].id);
    assert(more[collapsed.len() as int] == list[shut].id);
    assert(is_shut(list[shut], more));
    assert forall|j: int| 0 <= j < list.len() && j != shut implies (#[trigger] is_shut(
        list[j],
        more,
    )) == is_shut(list[j], collapsed) by {
        if more.contains(list[j].id) {
            let k = choose|k: int| 0 <= k < more.len() && more[k] == list[j].id;
            assert(collapsed[k] == list[j].id);
        }
        if collapsed.contains(list[j].id) {
            let k = choose|k: int| 0 <= k < collapsed.len() && collapsed[k] == list[j].id;
            assert(more[k] == list[j].id);
        }
    }
    if !is_above(list, shut, at) {
        if is_hidden(list, collapsed, at) {
            let j = choose|j: int| #[trigger] is_above(list, j, at) && is_shut(list[j], collapsed);
            assert(is_shut(list[j], more));
        }
        if is_hidden(list, more, at) {
            let j = choose|j: int| #[trigger] is_above(list, j, at) && is_shut(list[j], more);
            assert(is_shut(list[j], collapsed));
        }
    }
}

/// The rows of the database tab: the list of connections until there is
/// anything to draw a tree of.
#[derive(Debug)]
pub enum DatabaseTab {
    Connections,
    Tree(Vec<TreeRow>),
    NoMatches,
}

/// Whether something is the database tab of a window.
pub open spec fn is_database_tab(
    tab: DatabaseTab,
    window: WindowView,
    query: Seq<char>,
    tags: Seq<Tag>,
) -> bool {
    let rows = drawn_rows(
        window.tree,
        window.tree.len() as int,
        window.collapsed,
        folded_rows(window.tree),
        needle_of(query),
        window.selected_node,
        tags,
    );
    let bare = window.connections.len() == 0 && window.session is None;
    match tab {
        DatabaseTab::Connections => bare,
        DatabaseTab::Tree(drawn) => !bare && drawn@ == rows && rows.len() > 0,
        DatabaseTab::NoMatches => !bare && rows.len() == 0,
    }
}

/// Which rows are closed after one is turned.
pub open spec fn turned(collapsed: Seq<usize>, id: usize) -> Seq<usize> {
    if collapsed.contains(id) {
        collapsed.filter(other_ids(id))
    } else {
        collapsed.push(id)
    }
}

/// The ids that are not one.
pub open spec fn other_ids(id: usize) -> spec_fn(usize) -> bool {
    |other: usize| other != id
}

/// Whether a row of the tree goes by an id.
pub open spec fn is_row(id: usize) -> spec_fn(Entry) -> bool {
    |entry: Entry| entry.id == id
}

/// What a click on a row of the tree asks for, once it is selected.
#[derive(Debug)]
pub enum Click {
    Nothing,
    /// A connection with nothing under it is a door.
    Connect(u128),
    /// The database of a connection.
    Database(u128, Option<String>, String),
    /// What the row is about, on the session it came out of.
    Open(u128, Option<String>, Target),
    /// A row with nothing to open is opened itself.
    Turn,
}

/// What a click asks for, as a value.
#[verifier::ext_equal]
pub enum ClickView {
    Nothing,
    Connect(u128),
    Database(u128, Option<Seq<char>>, Seq<char>),
    Open(u128, Option<Seq<char>>, Goal),
    Turn,
}

impl View for Click {
    type V = ClickView;

    open spec fn view(&self) -> ClickView {
        match self {
            Click::Nothing => ClickView::Nothing,
            Click::Connect(id) => ClickView::Connect(*id),
            Click::Database(id, database, name) => ClickView::Database(
                *id,
                crate::text::maybe(*database),
                name@,
            ),
            Click::Open(id, database, target) => ClickView::Open(
                *id,
                crate::text::maybe(*database),
                target.goal(),
            ),
            Click::Turn => ClickView::Turn,
        }
    }
}

/// What a click on a row asks for.
pub open spec fn asked(entry: Entry) -> ClickView {
    if entry.row.kind is Connection && !entry.row.expandable {
        ClickView::Connect(entry.connection)
    } else if entry.row.kind is Database {
        ClickView::Database(entry.connection, entry.database, entry.row.name)
    } else {
        match entry.row.target {
            Some(goal) => ClickView::Open(entry.connection, entry.database, goal),
            None => if entry.row.expandable {
                ClickView::Turn
            } else {
                ClickView::Nothing
            },
        }
    }
}

/// What a click on an id asks for: nothing, where no row goes by it any more.
pub open spec fn asked_of(list: Seq<Entry>, id: usize) -> ClickView {
    let at = first(list, is_row(id));
    if at < list.len() {
        asked(list[at])
    } else {
        ClickView::Nothing
    }
}

/// What a row points at opened. A key's tab is named by whoever draws keys.
pub open spec fn goal_opened(
    window: WindowView,
    goal: Goal,
    title: Seq<char>,
    detail: Seq<char>,
) -> WindowView {
    match goal {
        Goal::Relation(schema, name) => relation_opened(window, (schema, name), None),
        Goal::Key(key, kind) => key_opened(window, key, kind, title, detail),
    }
}

/// What a click asked for done. The server a row came out of is the one the
/// window describes before anything is opened on it: the tab about to be made
/// binds to that.
#[verifier::opaque]
pub open spec fn click_done(
    window: WindowView,
    id: usize,
    click: ClickView,
    title: Seq<char>,
    detail: Seq<char>,
) -> WindowView {
    match click {
        ClickView::Nothing => window,
        ClickView::Connect(connection) => {
            let at = connection_place(window.connections, connection);
            if at < window.connections.len() {
                connection_opened(window, window.connections[at], None)
            } else {
                window
            }
        },
        ClickView::Database(connection, database, name) => database_opened(
            origin_focused(window, connection, database),
            name,
        ),
        ClickView::Open(connection, database, goal) => goal_opened(
            origin_focused(window, connection, database),
            goal,
            title,
            detail,
        ),
        ClickView::Turn => WindowView { collapsed: turned(window.collapsed, id), ..window },
    }
}

/// A row clicked: it is selected, and what it asks for is done.
pub open spec fn row_clicked(
    window: WindowView,
    id: usize,
    title: Seq<char>,
    detail: Seq<char>,
) -> WindowView {
    then_do(
        click_done(
            WindowView { selected_node: Some(id), ..window },
            id,
            asked_of(window.tree, id),
            title,
            detail,
        ),
        Act::Notify,
    )
}

/// A row clicked with the other button: it is selected, and a relation opens
/// its menu. Its verbs are about tables, and there is none to put under a key.
pub open spec fn row_menu_asked(window: WindowView, id: usize) -> WindowView {
    let selected = WindowView { selected_node: Some(id), ..window };
    let at = first(window.tree, is_row(id));
    let opened = if at < window.tree.len() {
        match window.tree[at].row.target {
            Some(Goal::Relation(schema, name)) => then_do(
                selected,
                Act::ObjectMenu((schema, name)),
            ),
            _ => selected,
        }
    } else {
        selected
    };
    then_do(opened, Act::Notify)
}

/// A row opened or closed by its chevron.
pub open spec fn row_turned(window: WindowView, id: usize) -> WindowView {
    then_do(WindowView { collapsed: turned(window.collapsed, id), ..window }, Act::Notify)
}

/// A copy of what a row opens.
fn copy_target(target: &Target) -> (copy: Target)
    ensures
        copy.goal() == target.goal(),
{
    match target {
        Target::Relation(relation) => Target::Relation(relation.clone()),
        Target::Key(key, kind) => Target::Key(crate::session::same_bytes(key), kind.clone()),
    }
}

impl Workspace {
    /// Where the row that goes by an id is in the tree, and the length of the
    /// tree where there is none.
    fn row_place(&self, id: usize) -> (at: usize)
        ensures
            at == first(self@.tree, is_row(id)),
            at <= self.tree@.len(),
    {
        let ghost list = self@.tree;
        let mut at: usize = 0;
        while at < self.tree.len() && self.tree[at].id != id
            invariant
                at <= self.tree@.len(),
                list == entries(self.tree@),
                forall|i: int| 0 <= i < at ==> !is_row(id)(#[trigger] list[i]),
            decreases self.tree@.len() - at,
        {
            assert(list[at as int] == self.tree@[at as int].entry());
            at += 1;
        }
        proof {
            if at < list.len() {
                assert(list[at as int] == self.tree@[at as int].entry());
            }
            lemma_first(list, is_row(id), at as int);
        }
        at
    }

    /// Open a row or close it.
    fn turn(&mut self, id: usize)
        ensures
            final(self)@ == (WindowView {
                collapsed: turned(old(self)@.collapsed, id),
                ..old(self)@
            }),
    {
        if has_id(&self.collapsed, id) {
            let ghost all = self.collapsed@;
            let mut kept: Vec<usize> = Vec::new();
            let mut at: usize = 0;
            assert(all.take(0).filter(other_ids(id)) =~= Seq::empty()) by {
                reveal(Seq::filter);
            }
            while at < self.collapsed.len()
                invariant
                    at <= self.collapsed@.len(),
                    self@ == old(self)@,
                    all == self.collapsed@,
                    kept@ == all.take(at as int).filter(other_ids(id)),
                decreases self.collapsed@.len() - at,
            {
                proof {
                    crate::lists::lemma_filter_step(all, other_ids(id), at as int);
                }
                if self.collapsed[at] != id {
                    kept.push(self.collapsed[at]);
                }
                at += 1;
            }
            assert(all.take(at as int) =~= all);
            self.collapsed = kept;
        } else {
            self.collapsed.push(id);
        }
        assert(self@ =~= (WindowView {
            collapsed: turned(old(self)@.collapsed, id),
            ..old(self)@
        }));
    }

    /// Open a row or close it, by its chevron.
    pub fn toggle_row(&mut self, id: usize)
        requires
            well_formed(old(self)@),
        ensures
            final(self)@ == row_turned(old(self)@, id),
            well_formed(final(self)@),
    {
        self.turn(id);
        proof {
            lemma_same_frame(self@, old(self)@);
        }
        self.say(Effect::Notify);
    }

    /// What a click on a row asks for.
    fn click_at(&self, id: usize) -> (click: Click)
        ensures
            click@ == asked_of(self@.tree, id),
    {
        let at = self.row_place(id);
        if at < self.tree.len() {
            let node = &self.tree[at];
            assert(self@.tree[at as int] == node.entry());
            if node.kind == NodeKind::Connection && !node.expandable {
                Click::Connect(node.origin.connection)
            } else if node.kind == NodeKind::Database {
                Click::Database(
                    node.origin.connection,
                    crate::settings::copy_text(&node.origin.database),
                    node.name.clone(),
                )
            } else {
                match &node.target {
                    Some(target) => Click::Open(
                        node.origin.connection,
                        crate::settings::copy_text(&node.origin.database),
                        copy_target(target),
                    ),
                    None => if node.expandable {
                        Click::Turn
                    } else {
                        Click::Nothing
                    },
                }
            }
        } else {
            Click::Nothing
        }
    }

    /// Do what a click asked for.
    fn follow_click(&mut self, id: usize, click: &Click, title: String, detail: String)
        requires
            well_formed(old(self)@),
        ensures
            final(self)@ == click_done(old(self)@, id, click@, title@, detail@),
            well_formed(final(self)@),
    {
        reveal(click_done);
        match click {
            Click::Nothing => {},
            Click::Connect(connection) => {
                let at = self.find_connection(*connection);
                if at < self.connections.len() {
                    assert(self@.connections[at as int] == self.connections@[at as int]@);
                    let config = self.connections[at].clone();
                    self.open_connection(config);
                }
            },
            Click::Database(connection, database, name) => {
                self.focus_origin(*connection, database);
                self.open_database(name.as_str());
            },
            Click::Open(connection, database, target) => {
                self.focus_origin(*connection, database);
                self.open_target(target, title, detail);
            },
            Click::Turn => {
                self.turn(id);
                proof {
                    lemma_same_frame(self@, old(self)@);
                }
            },
        }
    }

    /// A row clicked: it is selected, and what it asks for is done. A key's tab
    /// is named by whoever draws keys.
    ///
    /// A relation opens on the first click. A schema or a folder has nothing to
    /// open, so the click does the only thing it could have meant. A connection
    /// with nothing under it is a door: the click is the one that connects.
    pub fn click_row(&mut self, id: usize, title: String, detail: String) -> (click: Click)
        requires
            well_formed(old(self)@),
        ensures
            final(self)@ == row_clicked(old(self)@, id, title@, detail@),
            click@ == asked_of(old(self)@.tree, id),
            well_formed(final(self)@),
    {
        let click = self.click_at(id);
        self.selected_node = Some(id);
        let ghost selected = WindowView { selected_node: Some(id), ..old(self)@ };
        assert(self@ =~= selected);
        proof {
            lemma_same_frame(self@, old(self)@);
        }
        self.follow_click(id, &click, title, detail);
        self.say(Effect::Notify);
        click
    }

    /// A row clicked with the other button. It is selected first, so the menu is
    /// about the row it came out of.
    pub fn click_row_secondary(&mut self, id: usize)
        requires
            well_formed(old(self)@),
        ensures
            final(self)@ == row_menu_asked(old(self)@, id),
            well_formed(final(self)@),
    {
        let at = self.row_place(id);
        self.selected_node = Some(id);
        let ghost selected = WindowView { selected_node: Some(id), ..old(self)@ };
        assert(self@ =~= selected);
        proof {
            lemma_same_frame(self@, old(self)@);
        }
        if at < self.tree.len() {
            assert(self@.tree[at as int] == self.tree@[at as int].entry());
            let relation = match &self.tree[at].target {
                Some(target) => match target.relation() {
                    Some(relation) => Some(relation.clone()),
                    None => None,
                },
                None => None,
            };
            if let Some(relation) = relation {
                self.say(Effect::ObjectMenu(relation));
            }
        }
        self.say(Effect::Notify);
    }

    /// Open whatever a tree row points at. A key's tab is named by whoever
    /// draws keys.
    ///
    /// The one place that knows both kinds of target, so that everything which
    /// merely has one can hand it over without asking which engine it came from.
    pub fn open_target(&mut self, target: &Target, title: String, detail: String)
        requires
            well_formed(old(self)@),
        ensures
            final(self)@ == goal_opened(old(self)@, target.goal(), title@, detail@),
            well_formed(final(self)@),
    {
        match target {
            Target::Relation(relation) => self.open_relation(relation),
            Target::Key(key, kind) => self.open_key(
                crate::session::same_bytes(key),
                kind.clone(),
                title,
                detail,
            ),
        }
    }

    /// The rows of the database tab.
    pub fn render_database_tab(&self, query: &str, tags: &Vec<Tag>) -> (tab: DatabaseTab)
        ensures
            is_database_tab(tab, self@, query@, tags@),
    {
        if self.connections.len() == 0 && self.session.is_none() {
            return DatabaseTab::Connections;
        }
        let rows = render_tree(&self.tree, &self.collapsed, query, self.selected_node, tags);
        if rows.len() == 0 {
            DatabaseTab::NoMatches
        } else {
            DatabaseTab::Tree(rows)
        }
    }
}

} // verus!
