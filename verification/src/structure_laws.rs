//! What is done to a table in its editor, and what the editor says of it.
use crate::lists::{first, lemma_first};
use crate::structure::{
    column_added, column_removed, demonstrated, editor_title, is_changed, is_editable, keyed,
    lemma_origin_place, marker_of, nulled, savable, server_owned, shown_text, ColumnView, DraftView,
    EditorView, Field, Slot,
};
use crate::text::{is_space, trimmed};
use crate::text_laws::trimming_takes_the_ends_off;
use vstd::prelude::*;

verus! {

/// A tick says whether its column may be null, and changes nothing else of that
/// column or of any other.
pub proof fn a_tick_changes_one_box(draft: DraftView, index: int, on: bool, other: int)
    requires
        0 <= index,
        0 <= other < draft.columns.len(),
    ensures
        ({
            let after = nulled(draft, index, on);
            let (was, now) = (draft.columns[other], after.columns[other]);
            &&& after.columns.len() == draft.columns.len()
            &&& after.name == draft.name && after.comment == draft.comment
            &&& other != index ==> now == was
            &&& other == index ==> now.nullable == on && now.name == was.name && now.kind == was.kind
                && now.is_pk == was.is_pk && now.comment == was.comment && now.origin == was.origin
                && now.default == was.default
        }),
{
}

/// A column put into the key is in it and cannot be null; one taken out of it
/// is out of it, and may be null where it could be before. No other column
/// hears of it.
pub proof fn the_key_is_picked_column_by_column(draft: DraftView, index: int, on: bool, other: int)
    requires
        0 <= index,
        0 <= other < draft.columns.len(),
    ensures
        ({
            let after = keyed(draft, index, on);
            let (was, now) = (draft.columns[other], after.columns[other]);
            &&& after.columns.len() == draft.columns.len()
            &&& other != index ==> now == was
            &&& other == index ==> now.is_pk == on && now.name == was.name && now.kind == was.kind
                && now.comment == was.comment && now.origin == was.origin && now.default
                == was.default
            &&& other == index && on ==> !now.nullable
            &&& other == index && !on ==> now.nullable == was.nullable
        }),
{
}

/// A column is added behind the others, with its name open for typing, and
/// taken out from between them; the others keep their order.
pub proof fn columns_come_and_go(editor: EditorView, blank: ColumnView, index: int, other: int)
    requires
        0 <= index < editor.draft.columns.len() < usize::MAX,
        0 <= other < editor.draft.columns.len(),
        editor.editing != Some(Slot::Column(editor.draft.columns.len() as usize, Field::Name)),
    ensures
        ({
            let was = editor.draft.columns;
            let added = column_added(editor, blank);
            let removed = column_removed(editor, index);
            &&& added.draft.columns.len() == was.len() + 1
            &&& added.draft.columns[other] == was[other]
            &&& added.draft.columns[was.len() as int] == blank
            &&& added.editing == Some(Slot::Column(was.len() as usize, Field::Name))
            &&& added.before == blank.name
            &&& added.original == editor.original && added.reference == editor.reference
            &&& removed.draft.columns.len() == was.len() - 1
            &&& other < index ==> removed.draft.columns[other] == was[other]
            &&& other > index ==> removed.draft.columns[other - 1] == was[other]
            &&& removed.editing is None
            &&& removed.original == editor.original && removed.reference == editor.reference
        }),
{
}

/// There is something to save where the draft is not what the server has, and
/// it can be saved where nothing is wrong with it; a table that is not there
/// yet is always something to save.
pub proof fn what_is_right_and_new_can_be_saved(editor: EditorView, problems: nat)
    ensures
        is_changed(editor) <==> editor.draft != editor.original,
        problems > 0 ==> !savable(editor, problems),
        editor.reference is None ==> savable(editor, 0),
        editor.reference is Some ==> (savable(editor, 0) <==> editor.draft != editor.original),
{
}

/// A row says what saving does to its column: adds it where the server has none
/// by it, changes it where the server's is another, and nothing where it is the
/// same.
pub proof fn a_row_says_what_saving_does(editor: EditorView, column: ColumnView, at: int)
    ensures
        column.origin is None ==> marker_of(editor, column) is Added,
        column.origin is Some && 0 <= at < editor.original.columns.len()
            && editor.original.columns[at].origin == column.origin && (forall|i: int|
            0 <= i < at ==> (#[trigger] editor.original.columns[i]).origin != column.origin) ==> (
        marker_of(editor, column) is Number <==> editor.original.columns[at] == column) && !(
        marker_of(editor, column) is Added),
{
    if column.origin is Some && 0 <= at < editor.original.columns.len()
        && editor.original.columns[at].origin == column.origin && (forall|i: int|
        0 <= i < at ==> (#[trigger] editor.original.columns[i]).origin != column.origin) {
        lemma_origin_place(editor.original.columns, column.origin->Some_0, at);
    }
}

/// An editor is called what its draft is, trimmed, so that a new name shows
/// before it is saved; one without a name is a new table's.
pub proof fn an_editor_is_called_what_its_draft_is(editor: EditorView)
    ensures
        (forall|i: int| 0 <= i < editor.draft.name.len() ==> is_space(#[trigger] editor.draft.name[i]))
            ==> editor_title(editor) == "New Table"@,
        !(forall|i: int|
            0 <= i < editor.draft.name.len() ==> is_space(#[trigger] editor.draft.name[i]))
            ==> editor_title(editor) == trimmed(editor.draft.name),
{
    let name = editor.draft.name;
    let ends = trimming_takes_the_ends_off(name);
    if forall|i: int| 0 <= i < name.len() ==> is_space(#[trigger] name[i]) {
        if ends.0 < ends.1 {
            assert(is_space(name[ends.0]));
        }
    }
}

/// A cell with nothing but white space in it shows a dash, and any other what
/// it holds.
pub proof fn an_empty_cell_shows_a_dash(text: Seq<char>, at: int)
    ensures
        0 <= at < text.len() && !is_space(text[at]) ==> shown_text(text) == text,
        (forall|i: int| 0 <= i < text.len() ==> is_space(#[trigger] text[i])) ==> shown_text(text)
            == "—"@,
{
    if 0 <= at < text.len() && !is_space(text[at]) {
        assert(!is_space(text[at]));
    }
}

/// A change that is staged to be shown requires the first column that is the
/// server's and not kept by it, and adds one column behind the rest; the other
/// columns stay as they are.
pub proof fn a_change_is_staged_to_be_shown(draft: DraftView, blank: ColumnView, at: int, other: int)
    requires
        0 <= at < draft.columns.len(),
        draft.columns[at].origin is Some,
        !server_owned(draft.columns[at]),
        forall|i: int|
            0 <= i < at ==> server_owned(#[trigger] draft.columns[i])
                || draft.columns[i].origin is None,
        0 <= other < draft.columns.len(),
    ensures
        ({
            let after = demonstrated(draft, blank);
            &&& after.columns.len() == draft.columns.len() + 1
            &&& other != at ==> after.columns[other] == draft.columns[other]
            &&& !after.columns[at].nullable
            &&& after.columns[at].comment == "Where to write."@
            &&& after.columns[at].name == draft.columns[at].name
            &&& after.columns[draft.columns.len() as int].name == "archived_at"@
        }),
{
    lemma_first(draft.columns, is_editable(), at);
}

} // verus!
