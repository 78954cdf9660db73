//! The editor of a table as it is drawn.
use crate::lists::{group_views, seen};
use crate::structure::{
    editor_title, is_changed, marker_of, note_for, savable, server_note, server_owned, shown_text,
    slot_text, static_text, Cell, ColumnDraft, EditorView, Field, Marker, Slot, StructureEditor,
};
use crate::text::{has_ink, maybe, texts};
use vstd::prelude::*;

verus! {

broadcast use group_views;

/// A cell that can be typed into, as a value.
#[verifier::ext_equal]
pub struct CellView {
    pub text: Seq<char>,
    pub empty: bool,
}

impl View for Cell {
    type V = CellView;

    open spec fn view(&self) -> CellView {
        CellView { text: self.text@, empty: self.empty }
    }
}

/// A cell that can be typed into, while it is not. Nothing for the one that is
/// open.
pub open spec fn cell_of(editor: EditorView, slot: Slot, placeholder: Seq<char>) -> Option<CellView> {
    let text = slot_text(editor.draft, slot);
    if editor.editing == Some(slot) {
        None
    } else if has_ink(text) {
        Some(CellView { text, empty: false })
    } else {
        Some(CellView { text: placeholder, empty: true })
    }
}

/// Something in a row of a table: a cell, or what the server says and nobody
/// types over.
#[derive(Debug)]
pub enum Place {
    Field(Option<Cell>),
    Fixed(String),
}

/// Something in a row of a table, as a value.
pub enum PlaceView {
    Field(Option<CellView>),
    Fixed(Seq<char>),
}

impl View for Place {
    type V = PlaceView;

    open spec fn view(&self) -> PlaceView {
        match self {
            Place::Field(cell) => PlaceView::Field(seen(*cell)),
            Place::Fixed(text) => PlaceView::Fixed(text@),
        }
    }
}

/// The row of a column.
#[derive(Debug)]
pub struct ColumnFace {
    pub striped: bool,
    /// What the row will do when it is saved, said in the margin rather than
    /// in a column of its own: it applies to two rows out of forty.
    pub marker: Marker,
    /// The number in the margin where there is no marker, counted from one.
    pub number: usize,
    pub name: Option<Cell>,
    pub kind: Place,
    pub nullable: bool,
    /// Whether the box for nulls is off.
    pub nullable_fixed: bool,
    pub key: bool,
    pub default: Place,
    pub comment: Option<Cell>,
}

/// The row of a column, as a value.
#[verifier::ext_equal]
pub struct ColumnFaceView {
    pub striped: bool,
    pub marker: Marker,
    pub number: int,
    pub name: Option<CellView>,
    pub kind: PlaceView,
    pub nullable: bool,
    pub nullable_fixed: bool,
    pub key: bool,
    pub default: PlaceView,
    pub comment: Option<CellView>,
}

impl View for ColumnFace {
    type V = ColumnFaceView;

    open spec fn view(&self) -> ColumnFaceView {
        ColumnFaceView {
            striped: self.striped,
            marker: self.marker,
            number: self.number as int,
            name: seen(self.name),
            kind: self.kind@,
            nullable: self.nullable,
            nullable_fixed: self.nullable_fixed,
            key: self.key,
            default: self.default@,
            comment: seen(self.comment),
        }
    }
}

/// The row of a column. The server's own columns are shown and left alone: a
/// field that pretends otherwise is a lie with a caret in it.
pub open spec fn column_face(editor: EditorView, index: int) -> ColumnFaceView {
    let column = editor.draft.columns[index];
    let owned = server_owned(column);
    ColumnFaceView {
        striped: index % 2 == 1,
        marker: marker_of(editor, column),
        number: index + 1,
        name: cell_of(editor, Slot::Column(index as usize, Field::Name), "name"@),
        kind: if owned {
            PlaceView::Fixed(shown_text(column.kind))
        } else {
            PlaceView::Field(cell_of(editor, Slot::Column(index as usize, Field::Type), "type"@))
        },
        nullable: column.nullable,
        nullable_fixed: owned,
        key: column.is_pk,
        default: if owned {
            PlaceView::Fixed(shown_text(note_for(column)))
        } else {
            PlaceView::Field(cell_of(editor, Slot::Column(index as usize, Field::Default), "—"@))
        },
        comment: cell_of(editor, Slot::Column(index as usize, Field::Comment), "—"@),
    }
}

/// The bar over a table.
#[derive(Debug)]
pub struct ToolbarFace {
    pub schema: String,
    pub title: String,
    /// What the button that saves says.
    pub save: String,
    pub can_revert: bool,
    pub can_save: bool,
}

/// What the button that saves says.
pub open spec fn save_label(creating: bool) -> Seq<char> {
    if creating {
        "Create Table"@
    } else {
        "Save Changes"@
    }
}

/// What stands over the columns.
pub open spec fn heading_list() -> Seq<Seq<char>> {
    seq!["#"@, "Name"@, "Type"@, "Null"@, "Key"@, "Default"@, "Comment"@]
}

/// The editor of a table as it is drawn.
#[derive(Debug)]
pub struct EditorFace {
    pub toolbar: ToolbarFace,
    pub name: Option<Cell>,
    pub comment: Option<Cell>,
    pub headings: Vec<String>,
    pub columns: Vec<ColumnFace>,
    /// The first thing that is wrong, which is the one to go and mend.
    pub notice: Option<String>,
}

/// What stands over the columns.
pub fn header_row() -> (headings: Vec<String>)
    ensures
        texts(headings@) == heading_list(),
{
    let mut headings: Vec<String> = Vec::new();
    headings.push("#".to_owned());
    headings.push("Name".to_owned());
    headings.push("Type".to_owned());
    headings.push("Null".to_owned());
    headings.push("Key".to_owned());
    headings.push("Default".to_owned());
    headings.push("Comment".to_owned());
    assert(texts(headings@) =~= heading_list());
    headings
}

impl StructureEditor {
    /// The bar over the table.
    pub fn render_toolbar(&self, creating: bool, dirty: bool, can_save: bool) -> (bar: ToolbarFace)
        ensures
            bar.schema@ == self@.draft.schema,
            bar.title@ == editor_title(self@),
            bar.save@ == save_label(creating),
            bar.can_revert == dirty,
            bar.can_save == can_save,
    {
        ToolbarFace {
            schema: self.schema(),
            title: self.title(),
            save: if creating {
                "Create Table".to_owned()
            } else {
                "Save Changes".to_owned()
            },
            can_revert: dirty,
            can_save,
        }
    }

    /// The table's own name and comment.
    pub fn render_identity(&self) -> (cells: (Option<Cell>, Option<Cell>))
        ensures
            seen(cells.0) == cell_of(self@, Slot::TableName, "table_name"@),
            seen(cells.1) == cell_of(self@, Slot::TableComment, "—"@),
    {
        (self.field(Slot::TableName, "table_name"), self.field(Slot::TableComment, "—"))
    }

    /// The row of a column.
    pub fn render_column(&self, index: usize) -> (row: ColumnFace)
        requires
            index < self.draft.columns@.len(),
        ensures
            row@ == column_face(self@, index as int),
    {
        assert(self@.draft.columns[index as int] == self.draft.columns@[index as int]@);
        let column: &ColumnDraft = &self.draft.columns[index];
        let owned = column.is_server_owned();
        let count: usize = self.draft.columns.len();
        assert(index < count);
        let kind = if owned {
            Place::Fixed(static_text(column.kind.as_str()))
        } else {
            Place::Field(self.field(Slot::Column(index, Field::Type), "type"))
        };
        let default = if owned {
            Place::Fixed(static_text(server_note(column).as_str()))
        } else {
            Place::Field(self.field(Slot::Column(index, Field::Default), "—"))
        };
        let row = ColumnFace {
            striped: index % 2 == 1,
            marker: self.marker(index),
            number: index + 1,
            name: self.field(Slot::Column(index, Field::Name), "name"),
            kind,
            nullable: column.nullable,
            nullable_fixed: owned,
            key: column.is_pk,
            default,
            comment: self.field(Slot::Column(index, Field::Comment), "—"),
        };
        assert(row@ =~= column_face(self@, index as int));
        row
    }

    /// The editor as it is drawn, given what is wrong with the draft.
    pub fn render(&self, problems: &Vec<String>) -> (face: EditorFace)
        ensures
            face.toolbar.schema@ == self@.draft.schema,
            face.toolbar.title@ == editor_title(self@),
            face.toolbar.save@ == save_label(self@.reference is None),
            face.toolbar.can_revert == is_changed(self@),
            face.toolbar.can_save == savable(self@, problems@.len()),
            seen(face.name) == cell_of(self@, Slot::TableName, "table_name"@),
            seen(face.comment) == cell_of(self@, Slot::TableComment, "—"@),
            texts(face.headings@) == heading_list(),
            face.columns@.len() == self@.draft.columns.len(),
            forall|i: int|
                0 <= i < face.columns@.len() ==> (#[trigger] face.columns@[i])@ == column_face(
                    self@,
                    i,
                ),
            maybe(face.notice) == if problems@.len() == 0 {
                None
            } else {
                Some(problems@[0]@)
            },
    {
        let toolbar = self.render_toolbar(
            self.is_creating(),
            self.is_dirty(),
            self.can_save(problems),
        );
        let (name, comment) = self.render_identity();
        let mut columns: Vec<ColumnFace> = Vec::new();
        let mut at: usize = 0;
        while at < self.draft.columns.len()
            invariant
                at <= self.draft.columns@.len(),
                columns@.len() == at,
                forall|i: int|
                    0 <= i < at ==> (#[trigger] columns@[i])@ == column_face(self@, i),
            decreases self.draft.columns@.len() - at,
        {
            columns.push(self.render_column(at));
            at += 1;
        }
        EditorFace {
            toolbar,
            name,
            comment,
            headings: header_row(),
            columns,
            notice: if problems.len() == 0 {
                None
            } else {
                Some(problems[0].clone())
            },
        }
    }
}

/// A column the server owns is never drawn as something to type into.
pub proof fn what_the_server_owns_is_left_alone(editor: EditorView, index: int)
    requires
        0 <= index < editor.draft.columns.len(),
        server_owned(editor.draft.columns[index]),
    ensures
        column_face(editor, index).kind is Fixed,
        column_face(editor, index).default is Fixed,
        column_face(editor, index).nullable_fixed,
{
}

} // verus!
