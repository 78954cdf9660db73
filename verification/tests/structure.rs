use tupli::catalog::RelationRef;
use tupli::designing::PreviewSheet;
use tupli::icon::IconName;
use tupli::structure::{
    server_note, slot_id, static_text, ColumnDraft, Field, Marker, Plan, Slot, StructureEditor,
    TableDraft,
};
use tupli::structure_face::{header_row, Place};
use tupli::window::StructurePreview;

fn column(name: &str, kind: &str, nullable: bool) -> ColumnDraft {
    ColumnDraft {
        name: name.to_string(),
        kind: kind.to_string(),
        default: String::new(),
        comment: String::new(),
        nullable,
        is_pk: false,
        origin: Some(name.to_string()),
        identity: None,
        generated: false,
    }
}

fn blank() -> ColumnDraft {
    ColumnDraft { origin: None, ..column("", "", true) }
}

fn users() -> TableDraft {
    TableDraft {
        schema: "public".to_string(),
        name: "users".to_string(),
        comment: String::new(),
        columns: vec![
            ColumnDraft {
                is_pk: true,
                identity: Some("by default".to_string()),
                ..column("id", "bigint", false)
            },
            column("email", "text", false),
        ],
    }
}

fn new_table() -> TableDraft {
    TableDraft {
        schema: "public".to_string(),
        name: String::new(),
        comment: String::new(),
        columns: vec![ColumnDraft { origin: None, is_pk: true, ..column("id", "bigint", false) }],
    }
}

fn editing() -> StructureEditor {
    StructureEditor::editing(RelationRef::new("public", "users"), users())
}

fn sound() -> Vec<String> {
    Vec::new()
}

#[test]
fn a_table_just_opened_has_nothing_to_save() {
    let editor = editing();
    assert!(!editor.is_dirty());
    assert!(!editor.can_save(&sound()));
    assert_eq!(editor.plan(), Plan::Alter);
    assert_eq!(editor.title(), "users");
}

#[test]
fn renaming_the_table_renames_the_tab_and_reverting_puts_it_back() {
    let mut editor = editing();
    editor.draft.name = "people".to_string();
    assert_eq!(editor.title(), "people");
    assert!(editor.is_dirty());
    assert_eq!(editor.plan(), Plan::Alter);
    assert_eq!(editor.original.name, "users");
    editor.revert();
    assert_eq!(editor.title(), "users");
    assert!(!editor.is_dirty());
}

#[test]
fn adopting_the_saved_table_leaves_nothing_to_save_again() {
    let mut editor = editing();
    editor.draft.columns[1].nullable = true;
    assert!(editor.is_dirty());
    let mut saved = users();
    saved.columns[1].nullable = true;
    editor.adopt(RelationRef::new("public", "users"), saved);
    assert!(!editor.is_dirty());
    assert!(!editor.can_save(&sound()));
}

#[test]
fn a_new_table_is_created_once_it_has_a_name() {
    let mut editor = StructureEditor::creating(new_table());
    assert!(editor.is_creating());
    let problems = vec!["The table needs a name.".to_string()];
    assert!(!editor.can_save(&problems), "a table with no name is not savable");

    editor.draft.name = "invoices".to_string();
    assert!(editor.can_save(&sound()));
    assert_eq!(editor.plan(), Plan::Create);
    let target = editor.target();
    assert_eq!(target.qualified(), "public.invoices");
}

#[test]
fn a_cell_is_typed_into_and_escape_undoes_it() {
    let mut editor = editing();
    let slot = Slot::Column(1, Field::Name);
    assert_eq!(editor.open_field(slot).as_deref(), Some("email"));
    editor.absorb("mail".to_string());
    assert_eq!(editor.text_of(slot), "mail");
    assert_eq!(editor.draft.columns[0].name, "id", "the other cells stay");
    assert!(editor.is_dirty());
    editor.revert_field();
    assert_eq!(editor.text_of(slot), "email");
    assert!(!editor.is_dirty());
    assert!(editor.editing.is_none());
}

#[test]
fn a_cell_that_is_left_keeps_what_was_typed() {
    let mut editor = editing();
    editor.open_field(Slot::TableComment);
    editor.absorb("people who pay".to_string());
    editor.close_field();
    assert_eq!(editor.draft.comment, "people who pay");
    editor.absorb("nothing is open".to_string());
    assert_eq!(editor.draft.comment, "people who pay");
}

#[test]
fn a_column_is_added_and_taken_away() {
    let mut editor = editing();
    editor.add_column(blank());
    assert_eq!(editor.draft.columns.len(), 3);
    assert!(editor.draft.columns[2].is_new());
    assert_eq!(editor.marker(2), Marker::Added);
    assert_eq!(editor.marker(0), Marker::Number);
    editor.remove_column(2);
    assert_eq!(editor.draft.columns.len(), 2);
    editor.remove_column(9);
    assert_eq!(editor.draft.columns.len(), 2);
    assert!(!editor.is_dirty());
}

#[test]
fn a_key_column_cannot_be_empty() {
    let mut editor = editing();
    editor.set_nullable(1, true);
    assert!(editor.draft.columns[1].nullable);
    assert_eq!(editor.marker(1), Marker::Edited);
    assert!(editor.changed(&editor.draft.columns[1]));
    editor.set_key(1, true);
    assert!(editor.draft.columns[1].is_pk);
    assert!(!editor.draft.columns[1].nullable);
    editor.set_key(1, false);
    assert!(!editor.draft.columns[1].is_pk);
}

#[test]
fn what_the_server_owns_is_noted() {
    let draft = users();
    assert!(draft.columns[0].is_server_owned());
    assert!(!draft.columns[1].is_server_owned());
    let mut generated = column("total", "numeric", true);
    generated.generated = true;
    assert!(generated.is_server_owned());
    assert_ne!(server_note(&draft.columns[0]), server_note(&generated));
    assert_ne!(static_text(""), "");
    assert_eq!(static_text("bigint"), "bigint");
}

#[test]
fn no_two_cells_share_a_name() {
    let mut seen = std::collections::HashSet::new();
    assert!(seen.insert(slot_id(Slot::TableName)));
    assert!(seen.insert(slot_id(Slot::TableComment)));
    for index in 0..50 {
        for field in [Field::Name, Field::Type, Field::Default, Field::Comment] {
            assert!(seen.insert(slot_id(Slot::Column(index, field))));
        }
    }
}

#[test]
fn an_empty_cell_shows_what_belongs_in_it() {
    let editor = editing();
    let cell = editor.field(Slot::TableComment, "comment").expect("a cell");
    assert!(cell.empty);
    assert_eq!(cell.text, "comment");
    let cell = editor.field(Slot::TableName, "name").expect("a cell");
    assert_eq!((cell.text.as_str(), cell.empty), ("users", false));
}

#[test]
fn a_copy_is_the_same_table() {
    let draft = users();
    assert!(draft.same_as(&draft.copy()));
    let mut other = draft.copy();
    other.columns[0].comment = "x".to_string();
    assert!(!draft.same_as(&other));
    assert!(!draft.columns[0].same_as(&other.columns[0]));
}

#[test]
fn markers_have_their_glyphs() {
    assert!(Marker::Number.icon().is_none());
    let (added, _) = Marker::Added.icon().expect("a glyph");
    assert_eq!(added, IconName::Plus);
}

fn sheet(statements: &[&str], creating: bool) -> PreviewSheet {
    StructurePreview {
        editor: 0,
        statements: statements.iter().map(|s| s.to_string()).collect(),
        creating,
        from: None,
        to: RelationRef::new("public", "users"),
    }
    .render()
}

#[test]
fn a_dropped_column_is_never_slipped_in() {
    let quiet = sheet(&["ALTER TABLE public.users ADD COLUMN plan text"], false);
    assert!(quiet.notice.is_none());
    assert!(!quiet.danger);
    let loud = sheet(&["ALTER TABLE public.users DROP COLUMN plan"], false);
    assert_eq!(
        loud.notice.as_deref(),
        Some("A column is dropped, with everything in it. This cannot be undone.")
    );
    let both = sheet(&["A DROP COLUMN b", "A DROP COLUMN c"], false);
    assert_eq!(
        both.notice.as_deref(),
        Some("2 columns are dropped, with everything in them. This cannot be undone.")
    );
    assert_eq!(loud.lines.len(), 1);
    assert_ne!(sheet(&["CREATE TABLE x ()"], true).confirm, loud.confirm);
}

#[test]
fn a_table_is_drawn_row_by_row() {
    let editor = editing();
    let face = editor.render(&sound());
    assert_eq!((face.toolbar.schema.as_str(), face.toolbar.title.as_str()), ("public", "users"));
    assert_eq!(face.toolbar.save, "Save Changes");
    assert!(!face.toolbar.can_revert && !face.toolbar.can_save);
    assert_eq!(face.headings, header_row());
    assert_eq!(face.headings, ["#", "Name", "Type", "Null", "Key", "Default", "Comment"]);
    assert!(face.notice.is_none());
    assert_eq!(face.columns.len(), 2);
    let id = &face.columns[0];
    assert!(!id.striped && id.key && id.nullable_fixed);
    assert_eq!(id.number, 1);
    assert!(matches!(&id.kind, Place::Fixed(text) if text == "bigint"));
    assert!(matches!(&id.default, Place::Fixed(text) if text == "identity"));
    let email = &face.columns[1];
    assert!(email.striped && !email.nullable_fixed);
    assert!(matches!(&email.kind, Place::Field(Some(cell)) if cell.text == "text"));
    assert!(matches!(&email.default, Place::Field(Some(cell)) if cell.text == "—" && cell.empty));
}

#[test]
fn the_first_thing_wrong_is_the_one_that_is_said() {
    let editor = StructureEditor::creating(new_table());
    let problems = vec!["The table needs a name.".to_string(), "And a key.".to_string()];
    let face = editor.render(&problems);
    assert_eq!(face.toolbar.save, "Create Table");
    assert!(!face.toolbar.can_save);
    assert_eq!(face.notice.as_deref(), Some("The table needs a name."));
    assert_eq!(face.name.expect("a cell").text, "table_name");
}
