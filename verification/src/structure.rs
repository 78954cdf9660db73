//! Designing a table.
//!
//! The editor holds two drafts: the table as the server described it, and the
//! table as it is being edited. Every question worth asking is a comparison of
//! the two: whether anything changed, what changed, and what would make the
//! first look like the second. Nothing is a flag, so nothing can disagree with
//! what is on screen.
use crate::catalog::RelationRef;
use crate::icon::{IconColor, IconName};
use crate::lists::{first, group_views, lemma_first, views};
use crate::text::{has_ink, is_blank, maybe, same, same_maybe, trim, trimmed};
use vstd::prelude::*;

verus! {

broadcast use group_views;

/// A column as it is being edited.
#[derive(Debug)]
pub struct ColumnDraft {
    pub name: String,
    pub kind: String,
    pub default: String,
    pub comment: String,
    pub nullable: bool,
    pub is_pk: bool,
    /// What the column was called when the catalog described it, and nothing
    /// for one that is not on the server yet.
    pub origin: Option<String>,
    /// How the server numbers it, where it does.
    pub identity: Option<String>,
    /// Whether the server works it out from the others.
    pub generated: bool,
}

/// A column as it is being edited, as a value.
#[verifier::ext_equal]
pub struct ColumnView {
    pub name: Seq<char>,
    pub kind: Seq<char>,
    pub default: Seq<char>,
    pub comment: Seq<char>,
    pub nullable: bool,
    pub is_pk: bool,
    pub origin: Option<Seq<char>>,
    pub identity: Option<Seq<char>>,
    pub generated: bool,
}

impl View for ColumnDraft {
    type V = ColumnView;

    open spec fn view(&self) -> ColumnView {
        ColumnView {
            name: self.name@,
            kind: self.kind@,
            default: self.default@,
            comment: self.comment@,
            nullable: self.nullable,
            is_pk: self.is_pk,
            origin: maybe(self.origin),
            identity: maybe(self.identity),
            generated: self.generated,
        }
    }
}

/// Whether a column's type and default are the server's to say.
pub open spec fn server_owned(column: ColumnView) -> bool {
    column.identity is Some || column.generated
}

/// Whether a column is not on the server yet.
pub open spec fn is_new_column(column: ColumnView) -> bool {
    column.origin is None
}

impl ColumnDraft {
    /// Whether the column's type and default are the server's to say.
    pub fn is_server_owned(&self) -> (answer: bool)
        ensures
            answer == server_owned(self@),
    {
        self.identity.is_some() || self.generated
    }

    /// Whether the column is not on the server yet.
    pub fn is_new(&self) -> (answer: bool)
        ensures
            answer == is_new_column(self@),
    {
        self.origin.is_none()
    }

    /// Whether two columns are alike in everything.
    pub fn same_as(&self, other: &ColumnDraft) -> (answer: bool)
        ensures
            answer == (self@ == other@),
    {
        same(self.name.as_str(), other.name.as_str()) && same(
            self.kind.as_str(),
            other.kind.as_str(),
        ) && same(self.default.as_str(), other.default.as_str()) && same(
            self.comment.as_str(),
            other.comment.as_str(),
        ) && self.nullable == other.nullable && self.is_pk == other.is_pk && same_maybe(
            &self.origin,
            &other.origin,
        ) && same_maybe(&self.identity, &other.identity) && self.generated == other.generated
    }

    /// A copy.
    fn copy(&self) -> (copy: ColumnDraft)
        ensures
            copy@ == self@,
    {
        ColumnDraft {
            name: self.name.clone(),
            kind: self.kind.clone(),
            default: self.default.clone(),
            comment: self.comment.clone(),
            nullable: self.nullable,
            is_pk: self.is_pk,
            origin: crate::settings::copy_text(&self.origin),
            identity: crate::settings::copy_text(&self.identity),
            generated: self.generated,
        }
    }
}

/// A table as it is being edited.
#[derive(Debug)]
pub struct TableDraft {
    pub schema: String,
    pub name: String,
    pub comment: String,
    pub columns: Vec<ColumnDraft>,
}

/// A table as it is being edited, as a value.
#[verifier::ext_equal]
pub struct DraftView {
    pub schema: Seq<char>,
    pub name: Seq<char>,
    pub comment: Seq<char>,
    pub columns: Seq<ColumnView>,
}

impl View for TableDraft {
    type V = DraftView;

    open spec fn view(&self) -> DraftView {
        DraftView {
            schema: self.schema@,
            name: self.name@,
            comment: self.comment@,
            columns: views(self.columns@),
        }
    }
}

/// A table with nothing to it.
pub open spec fn no_table() -> DraftView {
    DraftView {
        schema: Seq::empty(),
        name: Seq::empty(),
        comment: Seq::empty(),
        columns: Seq::empty(),
    }
}

impl TableDraft {
    /// A table with nothing to it.
    fn nothing() -> (draft: TableDraft)
        ensures
            draft@ == no_table(),
    {
        let draft = TableDraft {
            schema: String::new(),
            name: String::new(),
            comment: String::new(),
            columns: Vec::new(),
        };
        assert(draft@ =~= no_table());
        draft
    }

    /// Whether two tables are alike in everything.
    pub fn same_as(&self, other: &TableDraft) -> (answer: bool)
        ensures
            answer == (self@ == other@),
    {
        if !(same(self.schema.as_str(), other.schema.as_str()) && same(
            self.name.as_str(),
            other.name.as_str(),
        ) && same(self.comment.as_str(), other.comment.as_str())) {
            return false;
        }
        if self.columns.len() != other.columns.len() {
            assert(self@.columns.len() != other@.columns.len());
            return false;
        }
        let mut at: usize = 0;
        while at < self.columns.len()
            invariant
                at <= self.columns@.len(),
                self.columns@.len() == other.columns@.len(),
                forall|i: int|
                    0 <= i < at ==> (#[trigger] self.columns@[i])@ == other.columns@[i]@,
            decreases self.columns@.len() - at,
        {
            if !self.columns[at].same_as(&other.columns[at]) {
                assert(self@.columns[at as int] != other@.columns[at as int]);
                return false;
            }
            at += 1;
        }
        assert(self@.columns =~= other@.columns);
        true
    }

    /// A copy.
    pub fn copy(&self) -> (copy: TableDraft)
        ensures
            copy@ == self@,
    {
        let mut columns: Vec<ColumnDraft> = Vec::new();
        let mut at: usize = 0;
        while at < self.columns.len()
            invariant
                at <= self.columns@.len(),
                columns@.len() == at,
                forall|i: int| 0 <= i < at ==> (#[trigger] columns@[i])@ == self.columns@[i]@,
            decreases self.columns@.len() - at,
        {
            columns.push(self.columns[at].copy());
            at += 1;
        }
        assert(views(columns@) =~= views(self.columns@));
        TableDraft {
            schema: self.schema.clone(),
            name: self.name.clone(),
            comment: self.comment.clone(),
            columns,
        }
    }
}

/// A text of a column.
#[derive(Clone, Copy, PartialEq, Eq, Structural, Debug)]
pub enum Field {
    Name,
    Type,
    Default,
    Comment,
}

/// Which text is being typed into. One is open at a time.
#[derive(Clone, Copy, PartialEq, Eq, Structural, Debug)]
pub enum Slot {
    TableName,
    TableComment,
    Column(usize, Field),
}

/// A text of a column.
pub open spec fn field_text(column: ColumnView, field: Field) -> Seq<char> {
    match field {
        Field::Name => column.name,
        Field::Type => column.kind,
        Field::Default => column.default,
        Field::Comment => column.comment,
    }
}

/// A column with another text.
pub open spec fn with_field(column: ColumnView, field: Field, text: Seq<char>) -> ColumnView {
    match field {
        Field::Name => ColumnView { name: text, ..column },
        Field::Type => ColumnView { kind: text, ..column },
        Field::Default => ColumnView { default: text, ..column },
        Field::Comment => ColumnView { comment: text, ..column },
    }
}

/// The text at a slot, and nothing for one that is not there.
pub open spec fn slot_text(draft: DraftView, slot: Slot) -> Seq<char> {
    match slot {
        Slot::TableName => draft.name,
        Slot::TableComment => draft.comment,
        Slot::Column(index, field) => if index < draft.columns.len() {
            field_text(draft.columns[index as int], field)
        } else {
            Seq::empty()
        },
    }
}

/// A draft with another text at a slot. A slot that is not there takes none.
pub open spec fn written(draft: DraftView, slot: Slot, text: Seq<char>) -> DraftView {
    match slot {
        Slot::TableName => DraftView { name: text, ..draft },
        Slot::TableComment => DraftView { comment: text, ..draft },
        Slot::Column(index, field) => if index < draft.columns.len() {
            DraftView {
                columns: draft.columns.update(
                    index as int,
                    with_field(draft.columns[index as int], field, text),
                ),
                ..draft
            }
        } else {
            draft
        },
    }
}

/// A draft with a column's box ticked, or not.
pub open spec fn nulled(draft: DraftView, index: int, on: bool) -> DraftView {
    if index < draft.columns.len() {
        DraftView {
            columns: draft.columns.update(
                index,
                ColumnView { nullable: on, ..draft.columns[index] },
            ),
            ..draft
        }
    } else {
        draft
    }
}

/// A draft with a column in the key, or out of it. A key column that can be
/// null is not a key a server will accept, so saying it is one says the rest
/// too.
pub open spec fn keyed(draft: DraftView, index: int, on: bool) -> DraftView {
    if index < draft.columns.len() {
        let column = draft.columns[index];
        DraftView {
            columns: draft.columns.update(
                index,
                ColumnView { is_pk: on, nullable: column.nullable && !on, ..column },
            ),
            ..draft
        }
    } else {
        draft
    }
}

/// The editor of a table.
pub struct StructureEditor {
    /// The table on the server, or nothing while designing a new one.
    pub reference: Option<RelationRef>,
    /// The table as the catalog last described it. A save is told from this,
    /// not from whatever the editor was first drawn with.
    pub original: TableDraft,
    pub draft: TableDraft,
    pub editing: Option<Slot>,
    /// What the open field held when it was opened, so Escape has something to
    /// put back.
    pub before: String,
}

/// The editor of a table, as a value.
#[verifier::ext_equal]
pub struct EditorView {
    pub reference: Option<(Seq<char>, Seq<char>)>,
    pub original: DraftView,
    pub draft: DraftView,
    pub editing: Option<Slot>,
    pub before: Seq<char>,
}

impl View for StructureEditor {
    type V = EditorView;

    open spec fn view(&self) -> EditorView {
        EditorView {
            reference: match self.reference {
                Some(reference) => Some(reference.parts()),
                None => None,
            },
            original: self.original@,
            draft: self.draft@,
            editing: self.editing,
            before: self.before@,
        }
    }
}

/// The editor of a table that exists, as it opens.
pub open spec fn opened(reference: (Seq<char>, Seq<char>), table: DraftView) -> EditorView {
    EditorView {
        reference: Some(reference),
        original: table,
        draft: table,
        editing: None,
        before: Seq::empty(),
    }
}

/// The editor of a table that does not exist yet, as it opens. It has nothing
/// on the server to be told from.
pub open spec fn started(blank: DraftView) -> EditorView {
    EditorView {
        reference: None,
        original: no_table(),
        draft: blank,
        editing: None,
        before: Seq::empty(),
    }
}

/// Whether there is anything to revert.
pub open spec fn is_changed(editor: EditorView) -> bool {
    editor.draft != editor.original
}

/// Whether Save is on, given what is wrong with the draft.
pub open spec fn savable(editor: EditorView, problems: nat) -> bool {
    (editor.reference is None || is_changed(editor)) && problems == 0
}

/// What the tab is called: after the draft, not after the table, so a rename
/// shows up before it is saved.
pub open spec fn editor_title(editor: EditorView) -> Seq<char> {
    let name = trimmed(editor.draft.name);
    if name.len() == 0 {
        "New Table"@
    } else {
        name
    }
}

/// What a save writes: a table that is not there is created, never altered.
#[derive(Clone, Copy, PartialEq, Eq, Structural, Debug)]
pub enum Plan {
    Create,
    Alter,
}

/// A field opened for typing. One that is open stays as it is.
pub open spec fn field_opened(editor: EditorView, slot: Slot) -> EditorView {
    if editor.editing == Some(slot) {
        editor
    } else {
        EditorView { editing: Some(slot), before: slot_text(editor.draft, slot), ..editor }
    }
}

/// What has been typed taken into the draft.
pub open spec fn absorbed(editor: EditorView, text: Seq<char>) -> EditorView {
    match editor.editing {
        Some(slot) => EditorView { draft: written(editor.draft, slot, text), ..editor },
        None => editor,
    }
}

/// The open field put back to what it held when it was opened.
pub open spec fn field_reverted(editor: EditorView) -> EditorView {
    match editor.editing {
        Some(slot) => EditorView {
            draft: written(editor.draft, slot, editor.before),
            editing: None,
            ..editor
        },
        None => editor,
    }
}

/// A column added at the end, with its name open for typing.
pub open spec fn column_added(editor: EditorView, blank: ColumnView) -> EditorView {
    let longer = EditorView {
        draft: DraftView { columns: editor.draft.columns.push(blank), ..editor.draft },
        ..editor
    };
    field_opened(longer, Slot::Column(editor.draft.columns.len() as usize, Field::Name))
}

/// A column taken out of the draft.
pub open spec fn column_removed(editor: EditorView, index: int) -> EditorView {
    if index < editor.draft.columns.len() {
        EditorView {
            draft: DraftView { columns: editor.draft.columns.remove(index), ..editor.draft },
            editing: None,
            ..editor
        }
    } else {
        editor
    }
}

/// Whether a column is on the server and the editor's to change.
pub open spec fn is_editable() -> spec_fn(ColumnView) -> bool {
    |column: ColumnView| !server_owned(column) && !is_new_column(column)
}

/// The column a demonstration adds.
pub open spec fn demo_column(blank: ColumnView) -> ColumnView {
    ColumnView {
        name: "archived_at"@,
        kind: "timestamp with time zone"@,
        comment: "When it stopped counting."@,
        ..blank
    }
}

/// A change staged for a demonstration: one column made required and
/// commented, one new column added.
pub open spec fn demonstrated(draft: DraftView, blank: ColumnView) -> DraftView {
    let at = first(draft.columns, is_editable());
    let required = if at < draft.columns.len() {
        draft.columns.update(
            at,
            ColumnView { nullable: false, comment: "Where to write."@, ..draft.columns[at] },
        )
    } else {
        draft.columns
    };
    DraftView { columns: required.push(demo_column(blank)), ..draft }
}

/// Everything put back as the server has it.
pub open spec fn all_reverted(editor: EditorView) -> EditorView {
    EditorView { draft: editor.original, editing: None, ..editor }
}

/// The table taken as the catalog now describes it.
pub open spec fn adopted(
    editor: EditorView,
    reference: (Seq<char>, Seq<char>),
    table: DraftView,
) -> EditorView {
    EditorView {
        reference: Some(reference),
        original: table,
        draft: table,
        editing: None,
        ..editor
    }
}

/// Where the first column is that came from the same column of the server.
pub open spec fn origin_place(columns: Seq<ColumnView>, origin: Seq<char>) -> int
    decreases columns.len(),
{
    if columns.len() == 0 {
        0
    } else if columns[0].origin == Some(origin) {
        0
    } else {
        1 + origin_place(columns.drop_first(), origin)
    }
}

/// Whether a column has been edited since the catalog described it. A new one
/// has not.
pub open spec fn column_changed(editor: EditorView, column: ColumnView) -> bool {
    match column.origin {
        None => false,
        Some(origin) => {
            let place = origin_place(editor.original.columns, origin);
            place >= editor.original.columns.len() || editor.original.columns[place] != column
        },
    }
}

/// What a row will do when Save is pressed.
#[derive(Clone, Copy, PartialEq, Eq, Structural, Debug)]
pub enum Marker {
    /// Nothing: the row has its number.
    Number,
    Added,
    Edited,
}

/// What a row will do when Save is pressed.
pub open spec fn marker_of(editor: EditorView, column: ColumnView) -> Marker {
    if is_new_column(column) {
        Marker::Added
    } else if column_changed(editor, column) {
        Marker::Edited
    } else {
        Marker::Number
    }
}

/// The place of a column that came from one of the server's is a place, and
/// the column there came from it.
pub proof fn lemma_origin_place(columns: Seq<ColumnView>, origin: Seq<char>, at: int)
    requires
        0 <= at <= columns.len(),
        at < columns.len() ==> columns[at].origin == Some(origin),
        forall|i: int| 0 <= i < at ==> (#[trigger] columns[i]).origin != Some(origin),
    ensures
        origin_place(columns, origin) == at,
    decreases columns.len(),
{
    if at > 0 {
        let rest = columns.drop_first();
        assert forall|i: int| 0 <= i < at - 1 implies (#[trigger] rest[i]).origin != Some(
            origin,
        ) by {
            assert(rest[i] == columns[i + 1]);
        }
        assert(columns[0].origin != Some(origin));
        lemma_origin_place(rest, origin, at - 1);
    }
}

/// The word that says why there is nothing to type in a column's default.
pub open spec fn note_for(column: ColumnView) -> Seq<char> {
    if column.identity is Some {
        "identity"@
    } else {
        "generated"@
    }
}

/// The word that says why there is nothing to type in a column's default.
pub fn server_note(column: &ColumnDraft) -> (note: String)
    ensures
        note@ == note_for(column@),
{
    match &column.identity {
        Some(_) => "identity".to_owned(),
        None => "generated".to_owned(),
    }
}

/// The text of a cell that cannot be typed into.
pub open spec fn shown_text(text: Seq<char>) -> Seq<char> {
    if has_ink(text) {
        text
    } else {
        "\u{2014}"@
    }
}

/// The text of a cell that cannot be typed into.
pub fn static_text(text: &str) -> (shown: String)
    ensures
        shown@ == shown_text(text@),
{
    if is_blank(text) {
        "\u{2014}".to_owned()
    } else {
        text.to_owned()
    }
}

/// The number of a cell: the same from frame to frame, and that of no other
/// cell.
pub open spec fn number_of(slot: Slot) -> int {
    match slot {
        Slot::TableName => 0,
        Slot::TableComment => 1,
        Slot::Column(index, field) => 2 + index * 4 + match field {
            Field::Name => 0int,
            Field::Type => 1,
            Field::Default => 2,
            Field::Comment => 3,
        },
    }
}

/// The number of a cell.
pub fn slot_id(slot: Slot) -> (id: u128)
    ensures
        id == number_of(slot),
{
    match slot {
        Slot::TableName => 0,
        Slot::TableComment => 1,
        Slot::Column(index, field) => {
            let offset: u128 = match field {
                Field::Name => 0,
                Field::Type => 1,
                Field::Default => 2,
                Field::Comment => 3,
            };
            2 + (index as u128) * 4 + offset
        },
    }
}

/// No two cells have the same number.
pub proof fn cells_are_told_apart(a: Slot, b: Slot)
    requires
        number_of(a) == number_of(b),
    ensures
        a == b,
{
}

/// A cell that can be typed into, as it is drawn while it is not.
#[derive(Debug)]
pub struct Cell {
    pub text: String,
    /// Whether the text stands in for one that is not there.
    pub empty: bool,
}

impl StructureEditor {
    /// An editor for a table that exists.
    pub fn editing(reference: RelationRef, table: TableDraft) -> (editor: StructureEditor)
        ensures
            editor@ == opened(reference.parts(), table@),
    {
        Self::new(Some(reference), table)
    }

    /// An editor for a table that does not exist yet.
    pub fn creating(blank: TableDraft) -> (editor: StructureEditor)
        ensures
            editor@ == started(blank@),
    {
        Self::new(None, blank)
    }

    /// An editor on a draft.
    fn new(reference: Option<RelationRef>, draft: TableDraft) -> (editor: StructureEditor)
        ensures
            editor@ == match reference {
                Some(reference) => opened(reference.parts(), draft@),
                None => started(draft@),
            },
    {
        let original = match &reference {
            // A table being created has nothing on the server to be told from,
            // and an original that matched the first draft would make Save
            // look like it had nothing to do.
            None => TableDraft::nothing(),
            Some(_) => draft.copy(),
        };
        let editor = StructureEditor {
            reference,
            original,
            draft,
            editing: None,
            before: String::new(),
        };
        assert(editor@ =~= match reference {
            Some(reference) => opened(reference.parts(), draft@),
            None => started(draft@),
        });
        editor
    }

    /// Take the table as the catalog now describes it.
    ///
    /// Called after a save has gone through, so that the next save is told
    /// from what the server did, which is not always what was asked for.
    pub fn adopt(&mut self, reference: RelationRef, table: TableDraft)
        ensures
            final(self)@ == adopted(old(self)@, reference.parts(), table@),
    {
        self.reference = Some(reference);
        self.draft = table.copy();
        self.original = table;
        self.editing = None;
        assert(self@ =~= adopted(old(self)@, reference.parts(), table@));
    }

    /// Whether the table is not on the server yet.
    pub fn is_creating(&self) -> (answer: bool)
        ensures
            answer == (self@.reference is None),
    {
        self.reference.is_none()
    }

    /// Whether anything has been changed.
    pub fn is_dirty(&self) -> (answer: bool)
        ensures
            answer == is_changed(self@),
    {
        !self.draft.same_as(&self.original)
    }

    /// What the tab is called.
    pub fn title(&self) -> (title: String)
        ensures
            title@ == editor_title(self@),
    {
        let name = trim(self.draft.name.as_str());
        if name.as_str().unicode_len() == 0 {
            "New Table".to_owned()
        } else {
            name
        }
    }

    /// The schema the table is in.
    pub fn schema(&self) -> (schema: String)
        ensures
            schema@ == self@.draft.schema,
    {
        self.draft.schema.clone()
    }

    /// Where the table will be once this save lands.
    pub fn target(&self) -> (reference: RelationRef)
        ensures
            reference.parts() == (self@.draft.schema, self@.draft.name),
    {
        RelationRef::new(self.draft.schema.as_str(), self.draft.name.as_str())
    }

    /// What a save writes.
    pub fn plan(&self) -> (plan: Plan)
        ensures
            plan == if self@.reference is None {
                Plan::Create
            } else {
                Plan::Alter
            },
    {
        if self.is_creating() {
            Plan::Create
        } else {
            Plan::Alter
        }
    }

    /// Whether Save is on, given what is wrong with the draft.
    pub fn can_save(&self, problems: &Vec<String>) -> (answer: bool)
        ensures
            answer == savable(self@, problems@.len()),
    {
        (self.is_creating() || self.is_dirty()) && problems.len() == 0
    }

    /// Open a field for typing. Says what its box is to hold, and nothing
    /// where the field was open.
    pub fn open_field(&mut self, slot: Slot) -> (text: Option<String>)
        ensures
            final(self)@ == field_opened(old(self)@, slot),
            maybe(text) == if old(self)@.editing == Some(slot) {
                None
            } else {
                Some(slot_text(old(self)@.draft, slot))
            },
    {
        if self.editing == Some(slot) {
            return None;
        }
        let text = self.text_of(slot);
        self.before = text.clone();
        self.editing = Some(slot);
        assert(self@ =~= field_opened(old(self)@, slot));
        Some(text)
    }

    /// Done typing.
    pub fn close_field(&mut self)
        ensures
            final(self)@ == (EditorView { editing: None, ..old(self)@ }),
    {
        self.editing = None;
        assert(self@ =~= (EditorView { editing: None, ..old(self)@ }));
    }

    /// Put back what was there when the field was opened.
    pub fn revert_field(&mut self)
        ensures
            final(self)@ == field_reverted(old(self)@),
    {
        if let Some(slot) = self.editing {
            let before = self.before.clone();
            self.write(slot, before);
        }
        self.editing = None;
        assert(self@ =~= field_reverted(old(self)@));
    }

    /// Take what has been typed into the draft.
    pub fn absorb(&mut self, text: String)
        ensures
            final(self)@ == absorbed(old(self)@, text@),
    {
        if let Some(slot) = self.editing {
            self.write(slot, text);
        }
        assert(self@ =~= absorbed(old(self)@, text@));
    }

    /// The text at a slot.
    pub fn text_of(&self, slot: Slot) -> (text: String)
        ensures
            text@ == slot_text(self@.draft, slot),
    {
        match slot {
            Slot::TableName => self.draft.name.clone(),
            Slot::TableComment => self.draft.comment.clone(),
            Slot::Column(index, field) => {
                if index >= self.draft.columns.len() {
                    let text = String::new();
                    assert(text@ =~= Seq::empty());
                    return text;
                }
                assert(self@.draft.columns[index as int] == self.draft.columns@[index as int]@);
                let column = &self.draft.columns[index];
                match field {
                    Field::Name => column.name.clone(),
                    Field::Type => column.kind.clone(),
                    Field::Default => column.default.clone(),
                    Field::Comment => column.comment.clone(),
                }
            },
        }
    }

    /// Put a text at a slot.
    fn write(&mut self, slot: Slot, text: String)
        ensures
            final(self)@ == (EditorView {
                draft: written(old(self)@.draft, slot, text@),
                ..old(self)@
            }),
    {
        match slot {
            Slot::TableName => {
                self.draft.name = text;
            },
            Slot::TableComment => {
                self.draft.comment = text;
            },
            Slot::Column(index, field) => {
                if index < self.draft.columns.len() {
                    let ghost columns = self.draft.columns@;
                    match field {
                        Field::Name => {
                            self.draft.columns[index].name = text;
                        },
                        Field::Type => {
                            self.draft.columns[index].kind = text;
                        },
                        Field::Default => {
                            self.draft.columns[index].default = text;
                        },
                        Field::Comment => {
                            self.draft.columns[index].comment = text;
                        },
                    }
                    assert(self.draft.columns@ =~= columns.update(
                        index as int,
                        self.draft.columns@[index as int],
                    ));
                    assert(self.draft.columns@[index as int]@ =~= with_field(
                        columns[index as int]@,
                        field,
                        text@,
                    ));
                }
            },
        }
        assert(self@.draft =~= written(old(self)@.draft, slot, text@));
    }

    /// Add a column, and open its name: an empty row that has to be clicked
    /// before it can be typed in is an extra click every time.
    pub fn add_column(&mut self, blank: ColumnDraft) -> (text: Option<String>)
        requires
            old(self).draft.columns@.len() < usize::MAX,
        ensures
            final(self)@ == column_added(old(self)@, blank@),
            maybe(text) == if old(self)@.editing == Some(
                Slot::Column(old(self)@.draft.columns.len() as usize, Field::Name),
            ) {
                None
            } else {
                Some(blank@.name)
            },
    {
        let index = self.draft.columns.len();
        self.draft.columns.push(blank);
        let ghost longer = EditorView {
            draft: DraftView { columns: old(self)@.draft.columns.push(blank@), ..old(self)@.draft },
            ..old(self)@
        };
        assert(self@ =~= longer);
        self.open_field(Slot::Column(index, Field::Name))
    }

    /// Take a column out of the draft.
    ///
    /// No confirmation here. Nothing has been sent yet, and Revert puts the
    /// whole table back.
    pub fn remove_column(&mut self, index: usize)
        ensures
            final(self)@ == column_removed(old(self)@, index as int),
    {
        if index >= self.draft.columns.len() {
            return ;
        }
        self.draft.columns.remove(index);
        self.editing = None;
        assert(self@ =~= column_removed(old(self)@, index as int));
    }

    /// Stage a change for a demonstration.
    pub fn demo_change(&mut self, blank: ColumnDraft)
        ensures
            final(self)@ == (EditorView {
                draft: demonstrated(old(self)@.draft, blank@),
                ..old(self)@
            }),
    {
        let mut at: usize = 0;
        let ghost all = self@.draft.columns;
        while at < self.draft.columns.len() && (self.draft.columns[at].is_server_owned()
            || self.draft.columns[at].is_new())
            invariant
                at <= self.draft.columns@.len(),
                all == self@.draft.columns,
                forall|i: int| 0 <= i < at ==> !is_editable()(#[trigger] all[i]),
            decreases self.draft.columns@.len() - at,
        {
            assert(all[at as int] == self.draft.columns@[at as int]@);
            at += 1;
        }
        proof {
            if at < all.len() {
                assert(all[at as int] == self.draft.columns@[at as int]@);
            }
            lemma_first(all, is_editable(), at as int);
        }
        if at < self.draft.columns.len() {
            let ghost columns = self.draft.columns@;
            self.draft.columns[at].nullable = false;
            self.draft.columns[at].comment = "Where to write.".to_owned();
            assert(self.draft.columns@ =~= columns.update(
                at as int,
                self.draft.columns@[at as int],
            ));
            assert(self.draft.columns@[at as int]@ =~= (ColumnView {
                nullable: false,
                comment: "Where to write."@,
                ..all[at as int]
            }));
        }
        let column = ColumnDraft {
            name: "archived_at".to_owned(),
            kind: "timestamp with time zone".to_owned(),
            comment: "When it stopped counting.".to_owned(),
            ..blank
        };
        assert(column@ =~= demo_column(blank@));
        self.draft.columns.push(column);
        assert(self@.draft =~= demonstrated(old(self)@.draft, blank@));
    }

    /// Put everything back as the server has it.
    pub fn revert(&mut self)
        ensures
            final(self)@ == all_reverted(old(self)@),
    {
        self.draft = self.original.copy();
        self.editing = None;
        assert(self@ =~= all_reverted(old(self)@));
    }

    /// Tick the box that says a column may be null, or not.
    pub fn set_nullable(&mut self, index: usize, on: bool)
        ensures
            final(self)@ == (EditorView {
                draft: nulled(old(self)@.draft, index as int, on),
                ..old(self)@
            }),
    {
        if index < self.draft.columns.len() {
            let ghost columns = self.draft.columns@;
            self.draft.columns[index].nullable = on;
            assert(self.draft.columns@ =~= columns.update(
                index as int,
                self.draft.columns@[index as int],
            ));
        }
        assert(self@.draft =~= nulled(old(self)@.draft, index as int, on));
    }

    /// Tick the box that puts a column in the key, or not.
    pub fn set_key(&mut self, index: usize, on: bool)
        ensures
            final(self)@ == (EditorView {
                draft: keyed(old(self)@.draft, index as int, on),
                ..old(self)@
            }),
    {
        if index < self.draft.columns.len() {
            let ghost columns = self.draft.columns@;
            self.draft.columns[index].is_pk = on;
            if on {
                self.draft.columns[index].nullable = false;
            }
            assert(self.draft.columns@ =~= columns.update(
                index as int,
                self.draft.columns@[index as int],
            ));
        }
        assert(self@.draft =~= keyed(old(self)@.draft, index as int, on));
    }

    /// Whether a column has been edited since the catalog described it.
    pub fn changed(&self, column: &ColumnDraft) -> (answer: bool)
        ensures
            answer == column_changed(self@, column@),
    {
        let origin = match &column.origin {
            Some(origin) => origin,
            None => {
                return false;
            },
        };
        let mut at: usize = 0;
        while at < self.original.columns.len()
            invariant
                at <= self.original.columns@.len(),
                column@.origin == Some(origin@),
                forall|i: int|
                    0 <= i < at ==> (#[trigger] self@.original.columns[i]).origin != Some(origin@),
            decreases self.original.columns@.len() - at,
        {
            let was = &self.original.columns[at];
            assert(self@.original.columns[at as int] == was@);
            let theirs = match &was.origin {
                Some(theirs) => same(theirs.as_str(), origin.as_str()),
                None => false,
            };
            if theirs {
                proof {
                    lemma_origin_place(self@.original.columns, origin@, at as int);
                }
                return !was.same_as(column);
            }
            at += 1;
        }
        proof {
            lemma_origin_place(self@.original.columns, origin@, at as int);
        }
        true
    }

    /// What a row will do when Save is pressed, said in the margin.
    pub fn marker(&self, index: usize) -> (marker: Marker)
        requires
            index < self.draft.columns@.len(),
        ensures
            marker == marker_of(self@, self@.draft.columns[index as int]),
    {
        assert(self@.draft.columns[index as int] == self.draft.columns@[index as int]@);
        let column = &self.draft.columns[index];
        if column.is_new() {
            Marker::Added
        } else if self.changed(column) {
            Marker::Edited
        } else {
            Marker::Number
        }
    }

    /// A cell that can be typed into, while it is not: its text, and what
    /// stands in for it where there is none. Nothing for the one that is open.
    pub fn field(&self, slot: Slot, placeholder: &str) -> (cell: Option<Cell>)
        ensures
            cell is None <==> self@.editing == Some(slot),
            cell matches Some(cell) ==> {
                let text = slot_text(self@.draft, slot);
                &&& cell.empty == !has_ink(text)
                &&& cell.text@ == if has_ink(text) {
                    text
                } else {
                    placeholder@
                }
            },
    {
        if self.editing == Some(slot) {
            return None;
        }
        let text = self.text_of(slot);
        if is_blank(text.as_str()) {
            Some(Cell { text: placeholder.to_owned(), empty: true })
        } else {
            Some(Cell { text, empty: false })
        }
    }
}

impl Marker {
    /// How a row says what it will do.
    pub fn icon(self) -> (icon: Option<(IconName, IconColor)>)
        ensures
            icon == match self {
                Marker::Number => None,
                Marker::Added => Some((IconName::Plus, IconColor::Accent)),
                Marker::Edited => Some((IconName::Pen, IconColor::Warning)),
            },
    {
        match self {
            Marker::Number => None,
            Marker::Added => Some((IconName::Plus, IconColor::Accent)),
            Marker::Edited => Some((IconName::Pen, IconColor::Warning)),
        }
    }
}

/// A table just opened is a table nobody has changed: there is nothing to
/// revert, Save is off, and no row says it will do anything, as long as the
/// catalog names no two of its columns alike.
pub proof fn a_table_just_opened_has_nothing_to_save(
    reference: (Seq<char>, Seq<char>),
    table: DraftView,
    problems: nat,
    at: int,
)
    requires
        0 <= at < table.columns.len(),
        table.columns[at].origin is Some,
        forall|i: int|
            0 <= i < at ==> (#[trigger] table.columns[i]).origin != table.columns[at].origin,
    ensures
        !is_changed(opened(reference, table)),
        !savable(opened(reference, table), problems),
        marker_of(opened(reference, table), table.columns[at]) is Number,
{
    lemma_origin_place(table.columns, table.columns[at].origin->Some_0, at);
}

/// Reverting leaves nothing to save of a table that exists, whatever was done
/// to it, and gives it back its name.
pub proof fn reverting_leaves_nothing_to_save(editor: EditorView, problems: nat)
    requires
        editor.reference is Some,
    ensures
        !is_changed(all_reverted(editor)),
        !savable(all_reverted(editor), problems),
        all_reverted(editor).draft == editor.original,
{
}

/// What comes back from the server leaves nothing to save again.
pub proof fn adopting_leaves_nothing_to_save(
    editor: EditorView,
    reference: (Seq<char>, Seq<char>),
    table: DraftView,
    problems: nat,
)
    ensures
        !is_changed(adopted(editor, reference, table)),
        !savable(adopted(editor, reference, table), problems),
{
}

/// Escape undoes the typing: whatever was typed into a field since it was
/// opened, putting it back leaves the draft as it was when it was opened.
pub proof fn escape_undoes_the_typing(editor: EditorView, slot: Slot, text: Seq<char>)
    requires
        editor.editing != Some(slot),
    ensures
        field_reverted(absorbed(field_opened(editor, slot), text)).draft == editor.draft,
        field_reverted(absorbed(field_opened(editor, slot), text)).editing is None,
{
    let back = field_reverted(absorbed(field_opened(editor, slot), text));
    if let Slot::Column(index, field) = slot {
        if index < editor.draft.columns.len() {
            let column = editor.draft.columns[index as int];
            assert(with_field(with_field(column, field, text), field, field_text(column, field))
                =~= column);
            assert(back.draft.columns =~= editor.draft.columns);
        }
    }
    assert(back.draft =~= editor.draft);
}

/// What is typed is what is read: the last text put at a slot that is there is
/// the one it holds, and no other slot hears of it.
pub proof fn typing_changes_one_cell(draft: DraftView, slot: Slot, text: Seq<char>, other: Slot)
    requires
        slot matches Slot::Column(index, _) ==> index < draft.columns.len(),
    ensures
        slot_text(written(draft, slot, text), slot) == text,
        other != slot ==> slot_text(written(draft, slot, text), other) == slot_text(draft, other),
{
}

/// A column put in the key is one that cannot be null.
pub proof fn a_key_column_is_required(draft: DraftView, index: int)
    requires
        0 <= index < draft.columns.len(),
    ensures
        keyed(draft, index, true).columns[index].is_pk,
        !keyed(draft, index, true).columns[index].nullable,
{
}

/// A table that does not exist yet can be saved as soon as nothing is wrong
/// with it.
pub proof fn a_new_table_is_saved_once_nothing_is_wrong(blank: DraftView, problems: nat)
    ensures
        savable(started(blank), problems) <==> problems == 0,
{
}

} // verus!
