//! What you chose, as opposed to what you arrived at.
//!
//! Every field is optional and every reader has a default, which is what makes
//! a saved file forward- and backward-compatible without a version number: one
//! that the file does not have falls back. Values that name a thing are stored
//! as words rather than as indices, because an index means whatever the order
//! of a list happened to be on the day it was written.
use crate::sizes::{nearest, snapped, DEFAULT_MONO_SIZE};
use crate::text::{has_ink, is_blank, maybe, same};
use vstd::prelude::*;

verus! {

/// Light or dark.
#[derive(Clone, Copy, PartialEq, Eq, Structural, Debug)]
pub enum Appearance {
    Dark,
    Light,
}

/// How tall a row in the grid is.
#[derive(Clone, Copy, PartialEq, Eq, Structural, Debug)]
pub enum Density {
    Compact,
    Default,
    Comfortable,
}

/// The indent width of a window nobody has set.
pub const DEFAULT_TAB_SIZE: usize = 4;

/// The row cap of a window nobody has set. A page, not a download: the pager
/// is right there for the rest.
pub const DEFAULT_PAGE_SIZE: usize = 1_000;

/// Whether an indent width is one that is offered.
pub open spec fn is_tab_size(size: usize) -> bool {
    size == 2 || size == 4 || size == 8
}

/// Whether a row cap is one that is offered.
pub open spec fn is_page_size(size: usize) -> bool {
    size == 200 || size == 1_000 || size == 10_000 || size == 50_000 || size == 200_000
}

/// The indent widths that are offered, in the order they are.
pub open spec fn tab_size_list() -> Seq<usize> {
    seq![2usize, 4, 8]
}

/// The row caps that are offered, in the order they are.
pub open spec fn page_size_list() -> Seq<usize> {
    seq![200usize, 1_000, 10_000, 50_000, 200_000]
}

/// The indent widths offered.
pub fn tab_sizes() -> (sizes: Vec<usize>)
    ensures
        sizes@ == tab_size_list(),
{
    let mut sizes: Vec<usize> = Vec::new();
    sizes.push(2);
    sizes.push(4);
    sizes.push(8);
    assert(sizes@ =~= tab_size_list());
    sizes
}

/// The row caps offered for browsing a table.
pub fn page_sizes() -> (sizes: Vec<usize>)
    ensures
        sizes@ == page_size_list(),
{
    let mut sizes: Vec<usize> = Vec::new();
    sizes.push(200);
    sizes.push(1_000);
    sizes.push(10_000);
    sizes.push(50_000);
    sizes.push(200_000);
    assert(sizes@ =~= page_size_list());
    sizes
}

/// What somebody picked on purpose.
#[derive(Debug)]
pub struct Settings {
    /// `"dark"` or `"light"`, and nothing to follow the system.
    pub appearance: Option<String>,
    /// The theme to use in each appearance, by name.
    ///
    /// Two fields rather than one because following the system into light mode
    /// should not cost you the dark theme you picked.
    pub dark_theme: Option<String>,
    pub light_theme: Option<String>,
    /// The code face, by family name. Empty or missing means "whatever this
    /// machine has".
    pub mono_family: Option<String>,
    /// The code size in points, as the bits of a single-precision number.
    pub mono_size: Option<u32>,
    pub tab_size: Option<usize>,
    /// `"compact"`, `"default"` or `"comfortable"`: how tall a grid row is.
    pub row_density: Option<String>,
    /// Whether the console shows a line-number gutter.
    pub line_numbers: Option<bool>,
    /// The limit on browsing a table.
    pub page_size: Option<usize>,
    /// Whether every other grid row is shaded.
    pub zebra: Option<bool>,
    /// Whether the tabs and the half-written statement come back at launch.
    pub restore_session: Option<bool>,
    /// Whether the connection the last session was on is reopened at launch.
    pub reopen_connection: Option<bool>,
}

impl Default for Settings {
    /// Nothing chosen.
    fn default() -> (settings: Settings)
        ensures
            settings == unset(),
    {
        Settings {
            appearance: None,
            dark_theme: None,
            light_theme: None,
            mono_family: None,
            mono_size: None,
            tab_size: None,
            row_density: None,
            line_numbers: None,
            page_size: None,
            zebra: None,
            restore_session: None,
            reopen_connection: None,
        }
    }
}

/// Nothing chosen.
pub open spec fn unset() -> Settings {
    Settings {
        appearance: None,
        dark_theme: None,
        light_theme: None,
        mono_family: None,
        mono_size: None,
        tab_size: None,
        row_density: None,
        line_numbers: None,
        page_size: None,
        zebra: None,
        restore_session: None,
        reopen_connection: None,
    }
}

impl Clone for Settings {
    fn clone(&self) -> (copy: Self)
        ensures
            copy == *self,
    {
        Settings {
            appearance: copy_text(&self.appearance),
            dark_theme: copy_text(&self.dark_theme),
            light_theme: copy_text(&self.light_theme),
            mono_family: copy_text(&self.mono_family),
            mono_size: self.mono_size,
            tab_size: self.tab_size,
            row_density: copy_text(&self.row_density),
            line_numbers: self.line_numbers,
            page_size: self.page_size,
            zebra: self.zebra,
            restore_session: self.restore_session,
            reopen_connection: self.reopen_connection,
        }
    }
}

/// A copy of an optional text.
pub(crate) fn copy_text(text: &Option<String>) -> (copy: Option<String>)
    ensures
        copy == *text,
{
    match text {
        Some(text) => Some(text.clone()),
        None => None,
    }
}

/// The word an appearance is stored as.
pub open spec fn appearance_word(appearance: Appearance) -> Seq<char> {
    match appearance {
        Appearance::Dark => "dark"@,
        Appearance::Light => "light"@,
    }
}

/// The word a density is stored as.
pub open spec fn density_word(density: Density) -> Seq<char> {
    match density {
        Density::Compact => "compact"@,
        Density::Default => "default"@,
        Density::Comfortable => "comfortable"@,
    }
}

/// The appearance a word stands for, if it stands for one.
pub open spec fn appearance_of(word: Option<Seq<char>>) -> Option<Appearance> {
    match word {
        Some(word) => if word == "dark"@ {
            Some(Appearance::Dark)
        } else if word == "light"@ {
            Some(Appearance::Light)
        } else {
            None
        },
        None => None,
    }
}

/// The density a word stands for, the default where it stands for none.
pub open spec fn density_of(word: Option<Seq<char>>) -> Density {
    match word {
        Some(word) => if word == "compact"@ {
            Density::Compact
        } else if word == "comfortable"@ {
            Density::Comfortable
        } else {
            Density::Default
        },
        None => Density::Default,
    }
}

/// The word an appearance is stored as.
pub fn name_of(appearance: Appearance) -> (word: String)
    ensures
        word@ == appearance_word(appearance),
{
    match appearance {
        Appearance::Dark => "dark".to_owned(),
        Appearance::Light => "light".to_owned(),
    }
}

/// The theme that is used in an appearance: the one the environment names, or
/// the one chosen for it, or none.
pub open spec fn theme_choice(
    settings: Settings,
    appearance: Appearance,
    environment: Option<Seq<char>>,
) -> Seq<char> {
    let named = match environment {
        Some(name) => has_ink(name),
        None => false,
    };
    let chosen = match appearance {
        Appearance::Dark => maybe(settings.dark_theme),
        Appearance::Light => maybe(settings.light_theme),
    };
    if named {
        environment->Some_0
    } else {
        match chosen {
            Some(name) => name,
            None => Seq::empty(),
        }
    }
}

impl Settings {
    /// The saved appearance, if it is one that is known. An unrecognised word
    /// is not an error: it is a file from a build that had a theme this one
    /// does not, so it falls back rather than failing.
    pub fn appearance(&self) -> (appearance: Option<Appearance>)
        ensures
            appearance == appearance_of(maybe(self.appearance)),
    {
        match &self.appearance {
            Some(word) => if same(word.as_str(), "dark") {
                Some(Appearance::Dark)
            } else if same(word.as_str(), "light") {
                Some(Appearance::Light)
            } else {
                None
            },
            None => None,
        }
    }

    /// Be light or dark, whatever the system says.
    pub fn set_appearance(&mut self, appearance: Appearance)
        ensures
            maybe(final(self).appearance) == Some(appearance_word(appearance)),
            *final(self) == (Settings { appearance: final(self).appearance, ..*old(self) }),
    {
        self.appearance = Some(name_of(appearance));
    }

    /// Hand the choice back to the system.
    pub fn follow_system(&mut self)
        ensures
            *final(self) == (Settings { appearance: None, ..*old(self) }),
    {
        self.appearance = None;
    }

    /// Use this theme, and be whatever appearance it is.
    ///
    /// One call rather than two, because to a person these are not two
    /// decisions: picking a light theme is picking to be in light mode.
    pub fn choose_theme(&mut self, name: &str, appearance: Appearance)
        ensures
            maybe(final(self).appearance) == Some(appearance_word(appearance)),
            appearance is Dark ==> maybe(final(self).dark_theme) == Some(name@)
                && final(self).light_theme == old(self).light_theme,
            appearance is Light ==> maybe(final(self).light_theme) == Some(name@)
                && final(self).dark_theme == old(self).dark_theme,
            *final(self) == (Settings {
                appearance: final(self).appearance,
                dark_theme: final(self).dark_theme,
                light_theme: final(self).light_theme,
                ..*old(self)
            }),
    {
        self.set_theme_name(appearance, name);
        self.set_appearance(appearance);
    }

    /// The chosen theme for an appearance, or nothing for the built-in one.
    ///
    /// `environment` is the theme a launch was told to use, which wins unless
    /// it is blank.
    pub fn theme_name(&self, appearance: Appearance, environment: &Option<String>) -> (name: String)
        ensures
            name@ == theme_choice(*self, appearance, maybe(*environment)),
    {
        if let Some(name) = environment {
            if !is_blank(name.as_str()) {
                return name.clone();
            }
        }
        let chosen = match appearance {
            Appearance::Dark => &self.dark_theme,
            Appearance::Light => &self.light_theme,
        };
        match chosen {
            Some(name) => name.clone(),
            None => String::new(),
        }
    }

    /// Choose the theme for an appearance.
    pub fn set_theme_name(&mut self, appearance: Appearance, name: &str)
        ensures
            appearance is Dark ==> maybe(final(self).dark_theme) == Some(name@) && *final(self) == (
            Settings { dark_theme: final(self).dark_theme, ..*old(self) }),
            appearance is Light ==> maybe(final(self).light_theme) == Some(name@) && *final(self)
                == (Settings { light_theme: final(self).light_theme, ..*old(self) }),
    {
        match appearance {
            Appearance::Dark => {
                self.dark_theme = Some(name.to_owned());
            },
            Appearance::Light => {
                self.light_theme = Some(name.to_owned());
            },
        }
    }

    /// The chosen code face, or nothing, meaning that the machine decides.
    pub fn mono_family(&self) -> (family: String)
        ensures
            family@ == match maybe(self.mono_family) {
                Some(family) => family,
                None => Seq::empty(),
            },
    {
        match &self.mono_family {
            Some(family) => family.clone(),
            None => String::new(),
        }
    }

    /// Choose the code face.
    pub fn set_mono_family(&mut self, family: &str)
        ensures
            maybe(final(self).mono_family) == Some(family@),
            *final(self) == (Settings { mono_family: final(self).mono_family, ..*old(self) }),
    {
        self.mono_family = Some(family.to_owned());
    }

    /// The code size, as the bits of a single-precision number, snapped to one
    /// that is offered.
    pub fn mono_size(&self) -> (bits: u32)
        ensures
            bits == match self.mono_size {
                Some(bits) => snapped(bits),
                None => DEFAULT_MONO_SIZE,
            },
    {
        match self.mono_size {
            Some(bits) => nearest(bits),
            None => DEFAULT_MONO_SIZE,
        }
    }

    /// Choose the code size, given as the bits of a single-precision number.
    pub fn set_mono_size(&mut self, bits: u32)
        ensures
            *final(self) == (Settings { mono_size: Some(bits), ..*old(self) }),
    {
        self.mono_size = Some(bits);
    }

    /// The indent width, if it is one that is offered, and the default
    /// otherwise.
    pub fn tab_size(&self) -> (size: usize)
        ensures
            size == match self.tab_size {
                Some(size) => if is_tab_size(size) {
                    size
                } else {
                    DEFAULT_TAB_SIZE
                },
                None => DEFAULT_TAB_SIZE,
            },
    {
        match self.tab_size {
            Some(size) => if size == 2 || size == 4 || size == 8 {
                size
            } else {
                DEFAULT_TAB_SIZE
            },
            None => DEFAULT_TAB_SIZE,
        }
    }

    /// Choose the indent width.
    pub fn set_tab_size(&mut self, size: usize)
        ensures
            *final(self) == (Settings { tab_size: Some(size), ..*old(self) }),
    {
        self.tab_size = Some(size);
    }

    /// How tall a grid row is.
    pub fn row_density(&self) -> (density: Density)
        ensures
            density == density_of(maybe(self.row_density)),
    {
        match &self.row_density {
            Some(word) => if same(word.as_str(), "compact") {
                Density::Compact
            } else if same(word.as_str(), "comfortable") {
                Density::Comfortable
            } else {
                Density::Default
            },
            None => Density::Default,
        }
    }

    /// Choose how tall a grid row is.
    pub fn set_row_density(&mut self, density: Density)
        ensures
            maybe(final(self).row_density) == Some(density_word(density)),
            *final(self) == (Settings { row_density: final(self).row_density, ..*old(self) }),
    {
        let word = match density {
            Density::Compact => "compact".to_owned(),
            Density::Default => "default".to_owned(),
            Density::Comfortable => "comfortable".to_owned(),
        };
        self.row_density = Some(word);
    }

    /// Whether the console has a line-number gutter: on unless it was turned
    /// off.
    pub fn line_numbers(&self) -> (on: bool)
        ensures
            on == (self.line_numbers != Some(false)),
    {
        match self.line_numbers {
            Some(on) => on,
            None => true,
        }
    }

    /// Turn the line-number gutter on or off.
    pub fn set_line_numbers(&mut self, on: bool)
        ensures
            *final(self) == (Settings { line_numbers: Some(on), ..*old(self) }),
    {
        self.line_numbers = Some(on);
    }

    /// Whether every other row is shaded: on unless it was turned off.
    pub fn zebra(&self) -> (on: bool)
        ensures
            on == (self.zebra != Some(false)),
    {
        match self.zebra {
            Some(on) => on,
            None => true,
        }
    }

    /// Turn the shading of every other row on or off.
    pub fn set_zebra(&mut self, on: bool)
        ensures
            *final(self) == (Settings { zebra: Some(on), ..*old(self) }),
    {
        self.zebra = Some(on);
    }

    /// The row cap, as a value.
    pub open spec fn spec_page_size(&self) -> usize {
        match self.page_size {
            Some(size) => if is_page_size(size) {
                size
            } else {
                DEFAULT_PAGE_SIZE
            },
            None => DEFAULT_PAGE_SIZE,
        }
    }

    /// The row cap on browsing a table, if it is one that is offered, and the
    /// default otherwise.
    pub fn page_size(&self) -> (size: usize)
        ensures
            size == self.spec_page_size(),
    {
        match self.page_size {
            Some(size) => if size == 200 || size == 1_000 || size == 10_000 || size == 50_000
                || size == 200_000 {
                size
            } else {
                DEFAULT_PAGE_SIZE
            },
            None => DEFAULT_PAGE_SIZE,
        }
    }

    /// Choose the row cap.
    pub fn set_page_size(&mut self, size: usize)
        ensures
            *final(self) == (Settings { page_size: Some(size), ..*old(self) }),
    {
        self.page_size = Some(size);
    }

    /// Whether the tabs come back at launch: on unless it was turned off.
    /// Coming back to what you were doing is the behaviour someone who has
    /// never opened the settings expects.
    pub fn restore_session(&self) -> (on: bool)
        ensures
            on == (self.restore_session != Some(false)),
    {
        match self.restore_session {
            Some(on) => on,
            None => true,
        }
    }

    /// Turn the return of the tabs at launch on or off.
    pub fn set_restore_session(&mut self, on: bool)
        ensures
            *final(self) == (Settings { restore_session: Some(on), ..*old(self) }),
    {
        self.restore_session = Some(on);
    }

    /// Whether the last connection is reopened at launch: on unless it was
    /// turned off.
    pub fn reopen_connection(&self) -> (on: bool)
        ensures
            on == (self.reopen_connection != Some(false)),
    {
        match self.reopen_connection {
            Some(on) => on,
            None => true,
        }
    }

    /// Turn reopening the last connection on or off.
    pub fn set_reopen_connection(&mut self, on: bool)
        ensures
            *final(self) == (Settings { reopen_connection: Some(on), ..*old(self) }),
    {
        self.reopen_connection = Some(on);
    }
}

/// The words that are stored stand for what they were stored for: an
/// appearance or a density that was set is the one that is read back.
pub proof fn a_stored_word_reads_back(appearance: Appearance, density: Density)
    ensures
        appearance_of(Some(appearance_word(appearance))) == Some(appearance),
        density_of(Some(density_word(density))) == density,
{
    reveal_strlit("dark");
    reveal_strlit("light");
    reveal_strlit("compact");
    reveal_strlit("default");
    reveal_strlit("comfortable");
    assert("dark"@[0] != "light"@[0]);
    assert("compact"@[3] != "comfortable"@[3]);
    assert("compact"@[0] != "default"@[0]);
    assert("comfortable"@[0] != "default"@[0]);
}

/// The sizes that are offered are the ones that are accepted, and the defaults
/// are among them.
pub proof fn what_is_offered_is_accepted(size: usize)
    ensures
        tab_size_list().contains(size) <==> is_tab_size(size),
        page_size_list().contains(size) <==> is_page_size(size),
        is_tab_size(DEFAULT_TAB_SIZE),
        is_page_size(DEFAULT_PAGE_SIZE),
{
    let tabs = tab_size_list();
    let pages = page_size_list();
    assert(tabs[0] == 2 && tabs[1] == 4 && tabs[2] == 8);
    assert(pages[0] == 200 && pages[1] == 1_000 && pages[2] == 10_000 && pages[3] == 50_000
        && pages[4] == 200_000);
}

} // verus!
