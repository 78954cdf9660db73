//! What is chosen, kept and shown of a choice.
use crate::catalog::{ConfigView, RoleSet};
use crate::connecting::{connection_kept, connection_opened};
use crate::designing::{drop_notice, drops, preview_lines, statement_count};
use crate::history::{outcome_face, Outcome};
use crate::icon::IconName;
use crate::lists::group_views;
use crate::settings::{theme_choice, Appearance, Settings};
use crate::settings_window::{chosen, ChoiceView, Knob, Ramp, SettingsView};
use crate::sheet::{note_of, FormRow};
use crate::structure::{slot_text, EditorView, Slot};
use crate::structure_face::cell_of;
use crate::text::{decimal, has, has_ink};
use crate::tree::roles_rows;
use crate::window::WindowView;
use vstd::prelude::*;

verus! {

broadcast use group_views;

/// A choice changes the setting it is about and no other: a switch stands as it
/// was turned, a size is the one that was picked, and a theme is the one for its
/// appearance, which it brings along.
pub proof fn a_choice_changes_one_setting(
    settings: SettingsView,
    on: bool,
    shown: Appearance,
    name: Seq<char>,
    appearance: Appearance,
)
    ensures
        chosen(settings, ChoiceView::Turn(Knob::RestoreSession, on), shown) == (SettingsView {
            restore_session: Some(on),
            ..settings
        }),
        chosen(settings, ChoiceView::Turn(Knob::ReopenConnection, on), shown) == (SettingsView {
            reopen_connection: Some(on),
            ..settings
        }),
        chosen(settings, ChoiceView::Turn(Knob::LineNumbers, on), shown) == (SettingsView {
            line_numbers: Some(on),
            ..settings
        }),
        chosen(settings, ChoiceView::Turn(Knob::Zebra, on), shown) == (SettingsView {
            zebra: Some(on),
            ..settings
        }),
        chosen(settings, ChoiceView::Turn(Knob::MatchSystem, true), shown) == (SettingsView {
            appearance: None,
            ..settings
        }),
        chosen(
            settings,
            ChoiceView::Turn(Knob::MatchSystem, false),
            Appearance::Dark,
        ).appearance == Some("dark"@),
        chosen(
            settings,
            ChoiceView::Turn(Knob::MatchSystem, false),
            Appearance::Light,
        ).appearance == Some("light"@),
        chosen(settings, ChoiceView::Pick(Ramp::TabSize, 0), shown).tab_size == Some(2usize),
        chosen(settings, ChoiceView::Pick(Ramp::TabSize, 1), shown).tab_size == Some(4usize),
        chosen(settings, ChoiceView::Pick(Ramp::TabSize, 2), shown).tab_size == Some(8usize),
        chosen(settings, ChoiceView::Pick(Ramp::PageSize, 0), shown).page_size == Some(200usize),
        chosen(settings, ChoiceView::Pick(Ramp::PageSize, 4), shown).page_size == Some(
            200_000usize,
        ),
        chosen(settings, ChoiceView::Theme(name, Appearance::Dark), shown) == (SettingsView {
            dark_theme: Some(name),
            appearance: Some("dark"@),
            ..settings
        }),
        chosen(settings, ChoiceView::Theme(name, Appearance::Light), shown) == (SettingsView {
            light_theme: Some(name),
            appearance: Some("light"@),
            ..settings
        }),
        chosen(settings, ChoiceView::Face(name), shown) == (SettingsView {
            mono_family: Some(name),
            ..settings
        }),
        chosen(settings, ChoiceView::Appearance(appearance), shown) == chosen(
            settings,
            ChoiceView::Turn(Knob::MatchSystem, false),
            appearance,
        ),
{
}

/// A theme is the one the environment names, where it names one, and otherwise
/// the one that was chosen for the appearance, dark or light.
pub proof fn a_theme_is_the_one_for_its_appearance(
    settings: Settings,
    appearance: Appearance,
    named: Seq<char>,
)
    ensures
        has_ink(named) ==> theme_choice(settings, appearance, Some(named)) == named,
        !has_ink(named) ==> theme_choice(settings, appearance, Some(named)) == theme_choice(
            settings,
            appearance,
            None,
        ),
        settings.dark_theme matches Some(theme) ==> theme_choice(settings, Appearance::Dark, None)
            == theme@,
        settings.light_theme matches Some(theme) ==> theme_choice(settings, Appearance::Light, None)
            == theme@,
        settings.dark_theme is None ==> theme_choice(settings, Appearance::Dark, None).len() == 0,
        settings.light_theme is None ==> theme_choice(settings, Appearance::Light, None).len() == 0,
{
}

/// A connection that is kept is opened, with what is saved afterwards in the
/// window; where nothing could be saved, it is opened all the same.
pub proof fn a_kept_connection_is_opened(
    window: WindowView,
    config: ConfigView,
    password: Option<Seq<char>>,
    saved: Seq<ConfigView>,
)
    ensures
        connection_kept(window, config, password, None) == connection_opened(
            window,
            config,
            password,
        ),
        connection_kept(window, config, password, Some(saved)) == connection_opened(
            (WindowView { connections: saved, ..window }),
            config,
            password,
        ),
{
}

/// How a statement ended is told by its icon: waiting, done, failed and canceled
/// are four different ones.
pub proof fn an_ending_has_its_icon(one: Outcome, other: Outcome)
    ensures
        outcome_face(true, one).0 == IconName::Clock,
        outcome_face(false, Outcome::Done).0 == IconName::CircleCheck,
        outcome_face(false, Outcome::Failed).0 == IconName::CircleXmark,
        outcome_face(false, Outcome::Canceled).0 == IconName::Ban,
        outcome_face(false, one).0 == outcome_face(false, other).0 ==> one == other,
        outcome_face(false, one).0 != outcome_face(true, other).0,
{
}

/// What is wrong with a field is said before what it is for, and one with
/// neither says nothing.
pub proof fn what_is_wrong_is_said_first(row: FormRow)
    ensures
        row.error matches Some(text) ==> note_of(row) is Some && note_of(row)->Some_0.0 == text@,
        row.error is None && row.hint is Some ==> note_of(row) is Some && note_of(row)->Some_0.0
            == row.hint->Some_0@,
        row.error is None && row.hint is None ==> note_of(row) is None,
{
}

/// Every role of a server with more than one is listed, in order, under a
/// heading that counts them; the one alone is not.
pub proof fn every_role_is_listed(set: RoleSet, at: int)
    requires
        0 <= at < set.roles@.len(),
    ensures
        set.roles@.len() == 1 ==> roles_rows(set).len() == 0,
        set.roles@.len() > 1 ==> {
            let rows = roles_rows(set);
            &&& rows.len() == set.roles@.len() + 1
            &&& rows[0].name == "roles"@ && rows[0].depth == 1
            &&& rows[at + 1].name == set.roles@[at].name@
            &&& rows[at + 1].depth == 2 && !rows[at + 1].expandable && rows[at + 1].target is None
            &&& set.roles@[at].can_login ==> rows[at + 1].kind is Role
            &&& !set.roles@[at].can_login ==> rows[at + 1].kind is RoleGroupMember
        },
{
}

/// A cell that is typed into is not drawn as one; any other shows what it holds,
/// or what would go there where it holds nothing.
pub proof fn a_cell_shows_what_it_holds(editor: EditorView, slot: Slot, placeholder: Seq<char>)
    ensures
        ({
            let cell = cell_of(editor, slot, placeholder);
            let text = slot_text(editor.draft, slot);
            &&& editor.editing == Some(slot) ==> cell is None
            &&& editor.editing != Some(slot) && has_ink(text) ==> cell is Some && cell->Some_0.text
                == text && !cell->Some_0.empty
            &&& editor.editing != Some(slot) && !has_ink(text) ==> cell is Some
                && cell->Some_0.text == placeholder && cell->Some_0.empty
        }),
{
}

/// A preview shows every statement, counts them, and says out loud how many
/// columns they drop, where they drop any.
pub proof fn a_preview_says_what_is_dropped(
    statements: Seq<Seq<char>>,
    more: Seq<char>,
    at: int,
    n: nat,
)
    ensures
        preview_lines(statements).len() == statements.len(),
        0 <= at < statements.len() ==> preview_lines(statements)[at] == statements[at] + ";"@,
        drops(Seq::empty()) == 0,
        has(more, " DROP COLUMN "@) ==> drops(statements.push(more)) == drops(statements) + 1,
        !(has(more, " DROP COLUMN "@)) ==> drops(statements.push(more)) == drops(statements),
        drop_notice(0) is None,
        drop_notice(1) == Some(
            "A column is dropped, with everything in it. This cannot be undone."@,
        ),
        n > 1 ==> drop_notice(n) == Some(
            decimal(n) + " columns are dropped, with everything in them. This cannot be undone."@,
        ),
        statement_count(1) == "1 statement"@,
        n != 1 ==> statement_count(n) == decimal(n) + " statements"@,
{
    assert(statements.push(more).drop_last() =~= statements);
}

} // verus!
