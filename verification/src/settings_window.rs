//! The settings window.
//!
//! It owns no choices. Every control reads the settings and hands a choice
//! back, and the same settings draw the control again, so a switch cannot end
//! up flicked but not applied. A control is there only if it does something, so
//! the panes are short.
use crate::icon::IconName;
use crate::lists::group_views;
use crate::settings::{
    appearance_of, appearance_word, density_of, density_word, is_page_size, is_tab_size,
    page_size_list, page_sizes, tab_size_list, tab_sizes, Appearance, Density, Settings,
    DEFAULT_PAGE_SIZE, DEFAULT_TAB_SIZE,
};
use crate::sizes::{
    mono_size_list, mono_sizes, snapped, DEFAULT_MONO_SIZE, ELEVEN, FOURTEEN, SIXTEEN, TWELVE,
};
use crate::text::{ascii_lowered, lowered, maybe, same};
use vstd::prelude::*;

verus! {

broadcast use group_views;

/// Which pane is showing.
#[derive(Clone, Copy, PartialEq, Eq, Structural, Debug)]
pub enum Pane {
    General,
    Appearance,
    Editor,
    Data,
    Connections,
    Shortcuts,
    Advanced,
}

/// The panes in the order they are listed. General first because it is where
/// someone looking for a setting they cannot name will start.
pub open spec fn pane_list() -> Seq<Pane> {
    seq![
        Pane::General,
        Pane::Appearance,
        Pane::Editor,
        Pane::Data,
        Pane::Connections,
        Pane::Shortcuts,
        Pane::Advanced,
    ]
}

/// What a pane is called.
pub open spec fn pane_label(pane: Pane) -> Seq<char> {
    match pane {
        Pane::General => "General"@,
        Pane::Appearance => "Appearance"@,
        Pane::Editor => "Editor"@,
        Pane::Data => "Data"@,
        Pane::Connections => "Connections"@,
        Pane::Shortcuts => "Shortcuts"@,
        Pane::Advanced => "Advanced"@,
    }
}

impl Pane {
    /// Every pane, in the order they are listed.
    pub fn all() -> (panes: Vec<Pane>)
        ensures
            panes@ == pane_list(),
    {
        let mut panes: Vec<Pane> = Vec::new();
        panes.push(Pane::General);
        panes.push(Pane::Appearance);
        panes.push(Pane::Editor);
        panes.push(Pane::Data);
        panes.push(Pane::Connections);
        panes.push(Pane::Shortcuts);
        panes.push(Pane::Advanced);
        assert(panes@ =~= pane_list());
        panes
    }

    /// What the pane is called.
    pub fn label(self) -> (label: String)
        ensures
            label@ == pane_label(self),
    {
        match self {
            Pane::General => "General".to_owned(),
            Pane::Appearance => "Appearance".to_owned(),
            Pane::Editor => "Editor".to_owned(),
            Pane::Data => "Data".to_owned(),
            Pane::Connections => "Connections".to_owned(),
            Pane::Shortcuts => "Shortcuts".to_owned(),
            Pane::Advanced => "Advanced".to_owned(),
        }
    }

    /// The first pane of a name, whatever its letter case.
    pub fn named(name: &str) -> (found: Option<Pane>)
        ensures
            match found {
                Some(pane) => ascii_lowered(pane_label(pane)) == ascii_lowered(name@),
                None => forall|pane: Pane|
                    ascii_lowered(#[trigger] pane_label(pane)) != ascii_lowered(name@),
            },
    {
        let wanted = lowered(name);
        let panes = Self::all();
        let mut at: usize = 0;
        while at < panes.len()
            invariant
                at <= panes@.len(),
                panes@ == pane_list(),
                wanted@ == ascii_lowered(name@),
                forall|i: int|
                    0 <= i < at ==> ascii_lowered(pane_label(#[trigger] panes@[i])) != wanted@,
            decreases panes@.len() - at,
        {
            let label = lowered(panes[at].label().as_str());
            if same(label.as_str(), wanted.as_str()) {
                return Some(panes[at]);
            }
            at += 1;
        }
        assert forall|pane: Pane|
            ascii_lowered(#[trigger] pane_label(pane)) != ascii_lowered(name@) by {
            let list = pane_list();
            assert(list[0] is General && list[1] is Appearance && list[2] is Editor && list[3]
                is Data && list[4] is Connections && list[5] is Shortcuts && list[6] is Advanced);
            assert(exists|i: int| 0 <= i < list.len() && list[i] == pane);
        }
        None
    }

    /// The icon beside the name.
    pub fn icon(self) -> (icon: IconName)
        ensures
            icon == match self {
                Pane::General => IconName::Gear,
                Pane::Appearance => IconName::Sun,
                Pane::Editor => IconName::Code,
                Pane::Data => IconName::Table,
                Pane::Connections => IconName::Plug,
                Pane::Shortcuts => IconName::Command,
                Pane::Advanced => IconName::CircleInfo,
            },
    {
        match self {
            Pane::General => IconName::Gear,
            Pane::Appearance => IconName::Sun,
            Pane::Editor => IconName::Code,
            Pane::Data => IconName::Table,
            Pane::Connections => IconName::Plug,
            Pane::Shortcuts => IconName::Command,
            Pane::Advanced => IconName::CircleInfo,
        }
    }
}

/// Every pane can be reached: each is in the list the sidebar is built from,
/// once.
pub proof fn every_pane_is_listed_once(pane: Pane)
    ensures
        pane_list().contains(pane),
        pane_list().no_duplicates(),
{
    let list = pane_list();
    assert(list[0] is General && list[1] is Appearance && list[2] is Editor && list[3] is Data
        && list[4] is Connections && list[5] is Shortcuts && list[6] is Advanced);
    assert(exists|i: int| 0 <= i < list.len() && list[i] == pane);
}

/// The window, between frames.
#[derive(Debug)]
pub struct SettingsWindow {
    pub pane: Pane,
    pub booted: bool,
}

impl SettingsWindow {
    /// The window as it opens.
    pub fn new() -> (window: SettingsWindow)
        ensures
            window == (SettingsWindow { pane: Pane::General, booted: false }),
    {
        SettingsWindow { pane: Pane::General, booted: false }
    }

    /// Show a pane.
    pub fn show_pane(&mut self, pane: Pane)
        ensures
            *final(self) == (SettingsWindow { pane, ..*old(self) }),
    {
        self.pane = pane;
    }

    /// A frame begins. Says whether the window is to take the keyboard, which
    /// it does on its first frame.
    pub fn begin_frame(&mut self) -> (takes_keyboard: bool)
        ensures
            takes_keyboard == !old(self).booted,
            *final(self) == (SettingsWindow { booted: true, ..*old(self) }),
    {
        let first = !self.booted;
        self.booted = true;
        first
    }

    /// Whether a keystroke closes the window. Nothing in it is uncommitted, so
    /// there is nothing to ask about on the way out.
    pub fn on_key(&self, key: &str, platform: bool) -> (closes: bool)
        ensures
            closes == (key@ == "escape"@ || (key@ == "w"@ && platform)),
    {
        same(key, "escape") || (same(key, "w") && platform)
    }
}

/// The settings, as a value.
#[verifier::ext_equal]
pub struct SettingsView {
    pub appearance: Option<Seq<char>>,
    pub dark_theme: Option<Seq<char>>,
    pub light_theme: Option<Seq<char>>,
    pub mono_family: Option<Seq<char>>,
    pub mono_size: Option<u32>,
    pub tab_size: Option<usize>,
    pub row_density: Option<Seq<char>>,
    pub line_numbers: Option<bool>,
    pub page_size: Option<usize>,
    pub zebra: Option<bool>,
    pub restore_session: Option<bool>,
    pub reopen_connection: Option<bool>,
}

impl View for Settings {
    type V = SettingsView;

    open spec fn view(&self) -> SettingsView {
        SettingsView {
            appearance: maybe(self.appearance),
            dark_theme: maybe(self.dark_theme),
            light_theme: maybe(self.light_theme),
            mono_family: maybe(self.mono_family),
            mono_size: self.mono_size,
            tab_size: self.tab_size,
            row_density: maybe(self.row_density),
            line_numbers: self.line_numbers,
            page_size: self.page_size,
            zebra: self.zebra,
            restore_session: self.restore_session,
            reopen_connection: self.reopen_connection,
        }
    }
}

/// A switch.
#[derive(Clone, Copy, PartialEq, Eq, Structural, Debug)]
pub enum Knob {
    RestoreSession,
    ReopenConnection,
    /// Follow the system between light and dark.
    MatchSystem,
    LineNumbers,
    Zebra,
}

/// A choice out of a few that are laid out.
#[derive(Clone, Copy, PartialEq, Eq, Structural, Debug)]
pub enum Ramp {
    RowDensity,
    MonoSize,
    TabSize,
    PageSize,
}

/// Something chosen in the window.
#[derive(Debug)]
pub enum Choice {
    Turn(Knob, bool),
    /// An option of a row, by its place.
    Pick(Ramp, usize),
    Theme(String, Appearance),
    Face(String),
    Appearance(Appearance),
}

/// Something chosen, as a value.
#[verifier::ext_equal]
pub enum ChoiceView {
    Turn(Knob, bool),
    Pick(Ramp, usize),
    Theme(Seq<char>, Appearance),
    Face(Seq<char>),
    Appearance(Appearance),
}

impl View for Choice {
    type V = ChoiceView;

    open spec fn view(&self) -> ChoiceView {
        match self {
            Choice::Turn(knob, on) => ChoiceView::Turn(*knob, *on),
            Choice::Pick(ramp, index) => ChoiceView::Pick(*ramp, *index),
            Choice::Theme(name, appearance) => ChoiceView::Theme(name@, *appearance),
            Choice::Face(family) => ChoiceView::Face(family@),
            Choice::Appearance(appearance) => ChoiceView::Appearance(*appearance),
        }
    }
}

/// The row height an option stands for.
pub open spec fn density_at(index: usize) -> Density {
    if index == 0 {
        Density::Compact
    } else if index == 2 {
        Density::Comfortable
    } else {
        Density::Default
    }
}

/// The option a row height is.
pub open spec fn density_place(density: Density) -> usize {
    match density {
        Density::Compact => 0,
        Density::Default => 1,
        Density::Comfortable => 2,
    }
}

/// Whether an option is one there is.
pub open spec fn is_option(choice: ChoiceView) -> bool {
    match choice {
        ChoiceView::Pick(Ramp::MonoSize, index) => index < mono_size_list().len(),
        ChoiceView::Pick(Ramp::TabSize, index) => index < tab_size_list().len(),
        ChoiceView::Pick(Ramp::PageSize, index) => index < page_size_list().len(),
        _ => true,
    }
}

/// The settings after a choice. `shown` is the appearance on screen, which is
/// what stays when the system is no longer followed.
pub open spec fn chosen(settings: SettingsView, choice: ChoiceView, shown: Appearance) -> SettingsView {
    match choice {
        ChoiceView::Turn(Knob::RestoreSession, on) => SettingsView {
            restore_session: Some(on),
            ..settings
        },
        ChoiceView::Turn(Knob::ReopenConnection, on) => SettingsView {
            reopen_connection: Some(on),
            ..settings
        },
        ChoiceView::Turn(Knob::MatchSystem, on) => SettingsView {
            appearance: if on {
                None
            } else {
                Some(appearance_word(shown))
            },
            ..settings
        },
        ChoiceView::Turn(Knob::LineNumbers, on) => SettingsView {
            line_numbers: Some(on),
            ..settings
        },
        ChoiceView::Turn(Knob::Zebra, on) => SettingsView { zebra: Some(on), ..settings },
        ChoiceView::Pick(Ramp::RowDensity, index) => SettingsView {
            row_density: Some(density_word(density_at(index))),
            ..settings
        },
        ChoiceView::Pick(Ramp::MonoSize, index) => SettingsView {
            mono_size: Some(mono_size_list()[index as int]),
            ..settings
        },
        ChoiceView::Pick(Ramp::TabSize, index) => SettingsView {
            tab_size: Some(tab_size_list()[index as int]),
            ..settings
        },
        ChoiceView::Pick(Ramp::PageSize, index) => SettingsView {
            page_size: Some(page_size_list()[index as int]),
            ..settings
        },
        ChoiceView::Theme(name, appearance) => {
            let dressed = match appearance {
                Appearance::Dark => SettingsView { dark_theme: Some(name), ..settings },
                Appearance::Light => SettingsView { light_theme: Some(name), ..settings },
            };
            SettingsView { appearance: Some(appearance_word(appearance)), ..dressed }
        },
        ChoiceView::Face(family) => SettingsView { mono_family: Some(family), ..settings },
        ChoiceView::Appearance(appearance) => SettingsView {
            appearance: Some(appearance_word(appearance)),
            ..settings
        },
    }
}

impl Settings {
    /// Choose something.
    pub fn take_choice(&mut self, choice: &Choice, shown: Appearance)
        requires
            is_option(choice@),
        ensures
            final(self)@ == chosen(old(self)@, choice@, shown),
    {
        match choice {
            Choice::Turn(knob, on) => match knob {
                Knob::RestoreSession => self.set_restore_session(*on),
                Knob::ReopenConnection => self.set_reopen_connection(*on),
                Knob::MatchSystem => if *on {
                    self.follow_system();
                } else {
                    self.set_appearance(shown);
                },
                Knob::LineNumbers => self.set_line_numbers(*on),
                Knob::Zebra => self.set_zebra(*on),
            },
            Choice::Pick(ramp, index) => match ramp {
                Ramp::RowDensity => {
                    let density = if *index == 0 {
                        Density::Compact
                    } else if *index == 2 {
                        Density::Comfortable
                    } else {
                        Density::Default
                    };
                    self.set_row_density(density);
                },
                Ramp::MonoSize => {
                    let sizes = mono_sizes();
                    self.set_mono_size(sizes[*index]);
                },
                Ramp::TabSize => {
                    let sizes = tab_sizes();
                    self.set_tab_size(sizes[*index]);
                },
                Ramp::PageSize => {
                    let sizes = page_sizes();
                    self.set_page_size(sizes[*index]);
                },
            },
            Choice::Theme(name, appearance) => self.choose_theme(name.as_str(), *appearance),
            Choice::Face(family) => self.set_mono_family(family.as_str()),
            Choice::Appearance(appearance) => self.set_appearance(*appearance),
        }
    }
}

/// How a switch stands.
pub open spec fn is_on(settings: SettingsView, knob: Knob) -> bool {
    match knob {
        Knob::RestoreSession => settings.restore_session != Some(false),
        Knob::ReopenConnection => settings.reopen_connection != Some(false),
        Knob::MatchSystem => appearance_of(settings.appearance) is None,
        Knob::LineNumbers => settings.line_numbers != Some(false),
        Knob::Zebra => settings.zebra != Some(false),
    }
}

/// The code size that is in effect.
pub open spec fn mono_size_of(settings: SettingsView) -> u32 {
    match settings.mono_size {
        Some(bits) => snapped(bits),
        None => DEFAULT_MONO_SIZE,
    }
}

/// The indent width that is in effect.
pub open spec fn tab_size_of(settings: SettingsView) -> usize {
    match settings.tab_size {
        Some(size) => if is_tab_size(size) {
            size
        } else {
            DEFAULT_TAB_SIZE
        },
        None => DEFAULT_TAB_SIZE,
    }
}

/// The row cap that is in effect.
pub open spec fn page_size_of(settings: SettingsView) -> usize {
    match settings.page_size {
        Some(size) => if is_page_size(size) {
            size
        } else {
            DEFAULT_PAGE_SIZE
        },
        None => DEFAULT_PAGE_SIZE,
    }
}

/// Which option of a row is lit.
pub open spec fn is_lit(settings: SettingsView, ramp: Ramp, index: usize) -> bool {
    match ramp {
        Ramp::RowDensity => index == density_place(density_of(settings.row_density)),
        Ramp::MonoSize => index < 5 && mono_size_list()[index as int] == mono_size_of(settings),
        Ramp::TabSize => index < 3 && tab_size_list()[index as int] == tab_size_of(settings),
        Ramp::PageSize => index < 5 && page_size_list()[index as int] == page_size_of(settings),
    }
}

/// Whatever is chosen is what the control then shows: a switch stands where it
/// was turned to, and the option that was picked is the one that is lit.
pub proof fn a_choice_shows(settings: SettingsView, choice: ChoiceView, shown: Appearance)
    requires
        is_option(choice),
        choice matches ChoiceView::Pick(Ramp::RowDensity, index) ==> index < 3,
    ensures
        choice matches ChoiceView::Turn(knob, on) ==> is_on(chosen(settings, choice, shown), knob)
            == on,
        choice matches ChoiceView::Pick(ramp, index) ==> is_lit(
            chosen(settings, choice, shown),
            ramp,
            index,
        ),
{
    reveal_strlit("dark");
    reveal_strlit("light");
    reveal_strlit("compact");
    reveal_strlit("default");
    reveal_strlit("comfortable");
    assert("dark"@.len() != "light"@.len());
    assert("compact"@[2] == 'm' && "default"@[2] == 'f');
    assert("compact"@.len() == 7 && "comfortable"@.len() == 11 && "default"@.len() == 7);
    if let ChoiceView::Pick(ramp, index) = choice {
        assert(index == 0 || index == 1 || index == 2 || index == 3 || index == 4);
    }
    let sizes = mono_size_list();
    assert(sizes[0] == ELEVEN && sizes[1] == TWELVE && sizes[2] == DEFAULT_MONO_SIZE && sizes[3]
        == FOURTEEN && sizes[4] == SIXTEEN);
    let tabs = tab_size_list();
    assert(tabs[0] == 2 && tabs[1] == 4 && tabs[2] == 8);
    let pages = page_size_list();
    assert(pages[0] == 200 && pages[1] == 1_000 && pages[2] == 10_000 && pages[3] == 50_000
        && pages[4] == 200_000);
}

/// One option of each row is lit, and no more.
pub proof fn one_option_of_a_row_is_lit(settings: SettingsView, ramp: Ramp, a: usize, b: usize)
    requires
        is_lit(settings, ramp, a),
        is_lit(settings, ramp, b),
    ensures
        a == b,
{
    let sizes = mono_size_list();
    assert(sizes[0] == ELEVEN && sizes[1] == TWELVE && sizes[2] == DEFAULT_MONO_SIZE && sizes[3]
        == FOURTEEN && sizes[4] == SIXTEEN);
    let tabs = tab_size_list();
    assert(tabs[0] == 2 && tabs[1] == 4 && tabs[2] == 8);
    let pages = page_size_list();
    assert(pages[0] == 200 && pages[1] == 1_000 && pages[2] == 10_000 && pages[3] == 50_000
        && pages[4] == 200_000);
}

} // verus!
