//! What each pane of the settings window shows.
use crate::casing::{lowercase, to_lowercase};
use crate::catalog::{ConfigView, ConnectionConfig};
use crate::icon::IconName;
use crate::lists::{group_views, views};
use crate::settings::{density_of, page_size_list, tab_size_list, Appearance, Density, Settings};
use crate::settings_window::{
    density_place, is_lit, is_on, mono_size_of, page_size_of, tab_size_of, Knob, Pane, Ramp,
    SettingsView,
};
use crate::sizes::{
    mono_size_list, size_words, DEFAULT_MONO_SIZE, ELEVEN, FOURTEEN, SIXTEEN, TWELVE,
};
use crate::text::{
    chars_of, contains, decimal, decimal_text, has, maybe, push_chars, push_decimal, same, starts,
    starts_with, texts,
};
use crate::wording::{grouped, push_grouped};
use vstd::prelude::*;

verus! {

broadcast use group_views;

/// A theme there is.
#[derive(Debug)]
pub struct Theme {
    pub name: String,
    pub appearance: Appearance,
}

/// A theme of the list.
#[derive(Debug)]
pub struct ThemeRow {
    /// Which of the themes it is.
    pub theme: usize,
    pub name: String,
    pub appearance: Appearance,
    /// Whether it is the one on screen.
    pub selected: bool,
}

/// A theme of the list, as a value.
#[verifier::ext_equal]
pub struct ThemeRowView {
    pub theme: usize,
    pub name: Seq<char>,
    pub appearance: Appearance,
    pub selected: bool,
}

impl View for ThemeRow {
    type V = ThemeRowView;

    open spec fn view(&self) -> ThemeRowView {
        ThemeRowView {
            theme: self.theme,
            name: self.name@,
            appearance: self.appearance,
            selected: self.selected,
        }
    }
}

/// The themes whose lower-cased names have the needle in them, in order.
pub open spec fn theme_rows(
    themes: Seq<Theme>,
    folded: Seq<Seq<char>>,
    needle: Seq<char>,
    on_screen: Seq<char>,
    count: int,
) -> Seq<ThemeRowView>
    decreases count,
{
    if count <= 0 {
        Seq::empty()
    } else {
        let before = theme_rows(themes, folded, needle, on_screen, count - 1);
        let theme = themes[count - 1];
        if needle.len() == 0 || has(folded[count - 1], needle) {
            before.push(
                ThemeRowView {
                    theme: (count - 1) as usize,
                    name: theme.name@,
                    appearance: theme.appearance,
                    selected: theme.name@ == on_screen,
                },
            )
        } else {
            before
        }
    }
}

/// The lower-cased names of some themes.
pub open spec fn folded_names(themes: Seq<Theme>) -> Seq<Seq<char>> {
    Seq::new(themes.len(), |i: int| lowercase(themes[i].name@))
}

/// The themes whose lower-cased names have the needle in them. The tick is
/// against the theme on screen, not the one saved for the other appearance.
pub fn matching_themes(
    themes: &Vec<Theme>,
    folded: &Vec<String>,
    needle: &str,
    on_screen: &str,
) -> (rows: Vec<ThemeRow>)
    requires
        folded@.len() == themes@.len(),
    ensures
        views(rows@) == theme_rows(
            themes@,
            texts(folded@),
            needle@,
            on_screen@,
            themes@.len() as int,
        ),
{
    let mut rows: Vec<ThemeRow> = Vec::new();
    let mut at: usize = 0;
    assert(views(rows@) =~= Seq::empty());
    while at < themes.len()
        invariant
            at <= themes@.len(),
            folded@.len() == themes@.len(),
            views(rows@) == theme_rows(themes@, texts(folded@), needle@, on_screen@, at as int),
        decreases themes@.len() - at,
    {
        assert(texts(folded@)[at as int] == folded@[at as int]@);
        if needle.unicode_len() == 0 || contains(folded[at].as_str(), needle) {
            rows.push(
                ThemeRow {
                    theme: at,
                    name: themes[at].name.clone(),
                    appearance: themes[at].appearance,
                    selected: same(themes[at].name.as_str(), on_screen),
                },
            );
        }
        at += 1;
    }
    rows
}

/// The themes that a filter leaves.
pub fn filtered_themes(themes: &Vec<Theme>, filter: &str, on_screen: &str) -> (rows: Vec<ThemeRow>)
    ensures
        views(rows@) == theme_rows(
            themes@,
            folded_names(themes@),
            lowercase(filter@),
            on_screen@,
            themes@.len() as int,
        ),
{
    let needle = to_lowercase(filter);
    let mut folded: Vec<String> = Vec::new();
    let mut at: usize = 0;
    while at < themes.len()
        invariant
            at <= themes@.len(),
            folded@.len() == at,
            forall|i: int| 0 <= i < at ==> (#[trigger] folded@[i])@ == lowercase(themes@[i].name@),
        decreases themes@.len() - at,
    {
        folded.push(to_lowercase(themes[at].name.as_str()));
        at += 1;
    }
    assert(texts(folded@) =~= folded_names(themes@));
    matching_themes(themes, &folded, needle.as_str(), on_screen)
}

/// A code face of the list.
#[derive(Debug)]
pub struct FaceRow {
    pub family: String,
    pub selected: bool,
}

impl View for FaceRow {
    type V = (Seq<char>, bool);

    open spec fn view(&self) -> (Seq<char>, bool) {
        (self.family@, self.selected)
    }
}

/// The code face that is lit: the one that was chosen, and where none was, the
/// one this machine came up with.
pub open spec fn lit_face(settings: SettingsView, resolved: Seq<char>) -> Seq<char> {
    match settings.mono_family {
        Some(family) => if family.len() == 0 {
            resolved
        } else {
            family
        },
        None => resolved,
    }
}

/// The code faces of a machine.
pub open spec fn face_rows(installed: Seq<Seq<char>>, lit: Seq<char>) -> Seq<(Seq<char>, bool)> {
    Seq::new(installed.len(), |i: int| (installed[i], installed[i] == lit))
}

/// The control of a row.
#[derive(Debug)]
pub enum Control {
    Switch(Knob, bool),
    Segments(Ramp, Vec<String>, usize),
    Themes(Vec<ThemeRow>),
    Faces(Vec<FaceRow>),
    /// A fact, not a knob.
    Fact(String),
}

/// The control of a row, as a value.
#[verifier::ext_equal]
pub enum ControlView {
    Switch(Knob, bool),
    Segments(Ramp, Seq<Seq<char>>, usize),
    Themes(Seq<ThemeRowView>),
    Faces(Seq<(Seq<char>, bool)>),
    Fact(Seq<char>),
}

impl View for Control {
    type V = ControlView;

    open spec fn view(&self) -> ControlView {
        match self {
            Control::Switch(knob, on) => ControlView::Switch(*knob, *on),
            Control::Segments(ramp, options, selected) => ControlView::Segments(
                *ramp,
                texts(options@),
                *selected,
            ),
            Control::Themes(rows) => ControlView::Themes(views(rows@)),
            Control::Faces(rows) => ControlView::Faces(views(rows@)),
            Control::Fact(text) => ControlView::Fact(text@),
        }
    }
}

/// A row of a pane. A hint of nothing is no hint.
#[derive(Debug)]
pub struct Line {
    pub label: String,
    pub hint: String,
    pub control: Control,
}

/// A row of a pane, as a value.
#[verifier::ext_equal]
pub struct LineView {
    pub label: Seq<char>,
    pub hint: Seq<char>,
    pub control: ControlView,
}

impl View for Line {
    type V = LineView;

    open spec fn view(&self) -> LineView {
        LineView { label: self.label@, hint: self.hint@, control: self.control@ }
    }
}

/// A headed group of rows.
#[derive(Debug)]
pub struct Section {
    pub title: String,
    pub lines: Vec<Line>,
}

/// A headed group of rows, as a value.
#[verifier::ext_equal]
pub struct SectionView {
    pub title: Seq<char>,
    pub lines: Seq<LineView>,
}

impl View for Section {
    type V = SectionView;

    open spec fn view(&self) -> SectionView {
        SectionView { title: self.title@, lines: views(self.lines@) }
    }
}

/// A row of a pane.
fn line(label: &str, hint: &str, control: Control) -> (line: Line)
    ensures
        line@ == (LineView { label: label@, hint: hint@, control: control@ }),
{
    Line { label: label.to_owned(), hint: hint.to_owned(), control }
}

/// A group of one row.
fn single(title: &str, only: Line) -> (section: Section)
    ensures
        section@ == (SectionView { title: title@, lines: seq![only@] }),
{
    let mut lines: Vec<Line> = Vec::new();
    lines.push(only);
    assert(views(lines@) =~= seq![only@]);
    Section { title: title.to_owned(), lines }
}

/// A group of two rows.
fn double(title: &str, upper: Line, lower: Line) -> (section: Section)
    ensures
        section@ == (SectionView { title: title@, lines: seq![upper@, lower@] }),
{
    let mut lines: Vec<Line> = Vec::new();
    lines.push(upper);
    lines.push(lower);
    assert(views(lines@) =~= seq![upper@, lower@]);
    Section { title: title.to_owned(), lines }
}

/// A switch, as it stands.
pub open spec fn switch_of(settings: SettingsView, knob: Knob) -> ControlView {
    ControlView::Switch(knob, is_on(settings, knob))
}

/// What comes back at launch.
pub open spec fn general_page(settings: SettingsView) -> Seq<SectionView> {
    seq![
        SectionView {
            title: "At launch"@,
            lines: seq![
                LineView {
                    label: "Restore"@,
                    hint: "Bring back the tabs and the half-written statement from last time."@,
                    control: switch_of(settings, Knob::RestoreSession),
                },
                LineView {
                    label: "Reconnect"@,
                    hint: "Open the connection the last session was on."@,
                    control: switch_of(settings, Knob::ReopenConnection),
                },
            ],
        },
    ]
}

/// What comes back at launch.
pub fn general(settings: &Settings) -> (sections: Vec<Section>)
    ensures
        views(sections@) == general_page(settings@),
{
    let restore = line(
        "Restore",
        "Bring back the tabs and the half-written statement from last time.",
        Control::Switch(Knob::RestoreSession, settings.restore_session()),
    );
    let reconnect = line(
        "Reconnect",
        "Open the connection the last session was on.",
        Control::Switch(Knob::ReopenConnection, settings.reopen_connection()),
    );
    let mut sections: Vec<Section> = Vec::new();
    sections.push(double("At launch", restore, reconnect));
    assert(views(sections@) =~= general_page(settings@));
    sections
}

/// The row heights as they are written.
pub open spec fn density_words() -> Seq<Seq<char>> {
    seq!["Compact"@, "Default"@, "Comfortable"@]
}

/// The themes and the row height.
pub open spec fn appearance_page(
    settings: SettingsView,
    themes: Seq<Theme>,
    filter: Seq<char>,
    on_screen: Seq<char>,
) -> Seq<SectionView> {
    seq![
        SectionView {
            title: "Theme"@,
            lines: seq![
                LineView {
                    label: "Match System"@,
                    hint: "Follow macOS between light and dark, using the last theme you picked for each."@,
                    control: switch_of(settings, Knob::MatchSystem),
                },
                LineView {
                    label: "Theme"@,
                    hint: "Light or dark is whichever one you pick. Zed's format \u{2014} drop more into ~/Library/Application Support/tupli/themes."@,
                    control: ControlView::Themes(
                        theme_rows(
                            themes,
                            folded_names(themes),
                            lowercase(filter),
                            on_screen,
                            themes.len() as int,
                        ),
                    ),
                },
            ],
        },
        SectionView {
            title: "Rows"@,
            lines: seq![
                LineView {
                    label: "Row height"@,
                    hint: "How tall a row in the results grid is."@,
                    control: ControlView::Segments(
                        Ramp::RowDensity,
                        density_words(),
                        density_place(density_of(settings.row_density)),
                    ),
                },
            ],
        },
    ]
}

/// The row heights, with the one in effect lit.
fn density_control(settings: &Settings) -> (control: Control)
    ensures
        control@ == ControlView::Segments(
            Ramp::RowDensity,
            density_words(),
            density_place(density_of(maybe(settings.row_density))),
        ),
{
    let mut options: Vec<String> = Vec::new();
    options.push("Compact".to_owned());
    options.push("Default".to_owned());
    options.push("Comfortable".to_owned());
    assert(texts(options@) =~= density_words());
    let selected: usize = match settings.row_density() {
        Density::Compact => 0,
        Density::Default => 1,
        Density::Comfortable => 2,
    };
    Control::Segments(Ramp::RowDensity, options, selected)
}

/// The themes and the row height. `on_screen` is the theme that is showing.
pub fn appearance(
    settings: &Settings,
    themes: &Vec<Theme>,
    filter: &str,
    on_screen: &str,
) -> (sections: Vec<Section>)
    ensures
        views(sections@) == appearance_page(settings@, themes@, filter@, on_screen@),
{
    let system = settings.appearance().is_none();
    let follow = line(
        "Match System",
        "Follow macOS between light and dark, using the last theme you picked for each.",
        Control::Switch(Knob::MatchSystem, system),
    );
    let list = line(
        "Theme",
        "Light or dark is whichever one you pick. Zed's format \u{2014} drop more into ~/Library/Application Support/tupli/themes.",
        Control::Themes(filtered_themes(themes, filter, on_screen)),
    );
    let height = line(
        "Row height",
        "How tall a row in the results grid is.",
        density_control(settings),
    );
    let mut sections: Vec<Section> = Vec::new();
    sections.push(double("Theme", follow, list));
    sections.push(single("Rows", height));
    assert(views(sections@) =~= appearance_page(settings@, themes@, filter@, on_screen@));
    sections
}

/// The indent widths as they are written.
pub open spec fn tab_size_words() -> Seq<Seq<char>> {
    seq!["2"@, "4"@, "8"@]
}

/// The option an indent width is.
pub open spec fn tab_size_place(size: usize) -> usize {
    if size == 2 {
        0
    } else if size == 8 {
        2
    } else {
        1
    }
}

/// The option a code size is.
pub open spec fn mono_size_place(bits: u32) -> usize {
    if bits == ELEVEN {
        0
    } else if bits == TWELVE {
        1
    } else if bits == FOURTEEN {
        3
    } else if bits == SIXTEEN {
        4
    } else {
        2
    }
}

/// The code face and how code is typed.
pub open spec fn editor_page(
    settings: SettingsView,
    installed: Seq<Seq<char>>,
    resolved: Seq<char>,
) -> Seq<SectionView> {
    seq![
        SectionView {
            title: "Code"@,
            lines: seq![
                LineView {
                    label: "Font"@,
                    hint: "The face used by the console, the grid and every value."@,
                    control: ControlView::Faces(face_rows(installed, lit_face(settings, resolved))),
                },
                LineView {
                    label: "Size"@,
                    hint: ""@,
                    control: ControlView::Segments(
                        Ramp::MonoSize,
                        size_words(),
                        mono_size_place(mono_size_of(settings)),
                    ),
                },
            ],
        },
        SectionView {
            title: "Typing"@,
            lines: seq![
                LineView {
                    label: "Indent"@,
                    hint: "Spaces per indent step. Tab never inserts a tab character."@,
                    control: ControlView::Segments(
                        Ramp::TabSize,
                        tab_size_words(),
                        tab_size_place(tab_size_of(settings)),
                    ),
                },
                LineView {
                    label: "Gutter"@,
                    hint: "Line numbers down the left of the console."@,
                    control: switch_of(settings, Knob::LineNumbers),
                },
            ],
        },
    ]
}

/// The code faces of a machine, with the one in effect lit.
fn face_control(settings: &Settings, installed: &Vec<String>, resolved: &str) -> (control: Control)
    ensures
        control@ == ControlView::Faces(face_rows(texts(installed@), lit_face(settings@, resolved@))),
{
    let chosen = settings.mono_family();
    let lit: String = if chosen.as_str().unicode_len() == 0 {
        resolved.to_owned()
    } else {
        chosen
    };
    assert(lit@ == lit_face(settings@, resolved@)) by {
        if settings@.mono_family is None {
            assert(chosen@ =~= Seq::empty());
        }
    }
    let ghost all = texts(installed@);
    let mut rows: Vec<FaceRow> = Vec::new();
    let mut at: usize = 0;
    assert(views(rows@) =~= face_rows(all, lit@).take(0));
    while at < installed.len()
        invariant
            at <= installed@.len(),
            all == texts(installed@),
            views(rows@) == face_rows(all, lit@).take(at as int),
        decreases installed@.len() - at,
    {
        let ghost had = views(rows@);
        let selected = same(installed[at].as_str(), lit.as_str());
        rows.push(FaceRow { family: installed[at].clone(), selected });
        assert(face_rows(all, lit@).take(at + 1) =~= had.push((all[at as int], selected)));
        at += 1;
    }
    assert(face_rows(all, lit@).take(at as int) =~= face_rows(all, lit@));
    Control::Faces(rows)
}

/// The code sizes, with the one in effect lit.
fn mono_size_control(settings: &Settings) -> (control: Control)
    ensures
        control@ == ControlView::Segments(
            Ramp::MonoSize,
            size_words(),
            mono_size_place(mono_size_of(settings@)),
        ),
{
    let mut options: Vec<String> = Vec::new();
    options.push("11".to_owned());
    options.push("12".to_owned());
    options.push("12.5".to_owned());
    options.push("14".to_owned());
    options.push("16".to_owned());
    assert(texts(options@) =~= size_words());
    let size = settings.mono_size();
    let selected: usize = if size == ELEVEN {
        0
    } else if size == TWELVE {
        1
    } else if size == FOURTEEN {
        3
    } else if size == SIXTEEN {
        4
    } else {
        2
    };
    Control::Segments(Ramp::MonoSize, options, selected)
}

/// The indent widths, with the one in effect lit.
fn tab_size_control(settings: &Settings) -> (control: Control)
    ensures
        control@ == ControlView::Segments(
            Ramp::TabSize,
            tab_size_words(),
            tab_size_place(tab_size_of(settings@)),
        ),
{
    let mut options: Vec<String> = Vec::new();
    options.push("2".to_owned());
    options.push("4".to_owned());
    options.push("8".to_owned());
    assert(texts(options@) =~= tab_size_words());
    let size = settings.tab_size();
    let selected: usize = if size == 2 {
        0
    } else if size == 8 {
        2
    } else {
        1
    };
    Control::Segments(Ramp::TabSize, options, selected)
}

/// The code face and how code is typed. `resolved` is the face this machine
/// came up with.
pub fn editor(settings: &Settings, installed: &Vec<String>, resolved: &str) -> (sections: Vec<
    Section,
>)
    ensures
        views(sections@) == editor_page(settings@, texts(installed@), resolved@),
{
    let font = line(
        "Font",
        "The face used by the console, the grid and every value.",
        face_control(settings, installed, resolved),
    );
    let size = line("Size", "", mono_size_control(settings));
    let indent = line(
        "Indent",
        "Spaces per indent step. Tab never inserts a tab character.",
        tab_size_control(settings),
    );
    let gutter = line(
        "Gutter",
        "Line numbers down the left of the console.",
        Control::Switch(Knob::LineNumbers, settings.line_numbers()),
    );
    let mut sections: Vec<Section> = Vec::new();
    sections.push(double("Code", font, size));
    sections.push(double("Typing", indent, gutter));
    assert(views(sections@) =~= editor_page(settings@, texts(installed@), resolved@));
    sections
}

/// `50000` as `50 000`, with a thin space: a five-digit row count is unreadable
/// run together, and a comma would be wrong in half the world.
pub fn thousands(n: usize) -> (text: String)
    ensures
        text@ == grouped(n as nat, '\u{2009}'),
{
    let mut text = String::new();
    push_grouped(&mut text, n as u64, '\u{2009}');
    assert(text@ =~= grouped(n as nat, '\u{2009}'));
    text
}

/// The row caps as they are written.
pub open spec fn page_size_words() -> Seq<Seq<char>> {
    Seq::new(5, |i: int| grouped(page_size_list()[i] as nat, '\u{2009}'))
}

/// The option a row cap is, and that of the default where it is none.
pub open spec fn page_size_place(size: usize) -> usize {
    if size == 200 {
        0
    } else if size == 10_000 {
        2
    } else if size == 50_000 {
        3
    } else if size == 200_000 {
        4
    } else {
        1
    }
}

/// How a table is browsed.
pub open spec fn data_page(settings: SettingsView) -> Seq<SectionView> {
    seq![
        SectionView {
            title: "Browsing a table"@,
            lines: seq![
                LineView {
                    label: "Row limit"@,
                    hint: "The limit applied when a table is opened. Every row is fetched before anything is drawn, so a bigger number costs time on a slow link as well as memory \u{2014} the pager reaches the rest either way."@,
                    control: ControlView::Segments(
                        Ramp::PageSize,
                        page_size_words(),
                        page_size_place(page_size_of(settings)),
                    ),
                },
            ],
        },
        SectionView {
            title: "The grid"@,
            lines: seq![
                LineView {
                    label: "Shading"@,
                    hint: "Shade every other row."@,
                    control: switch_of(settings, Knob::Zebra),
                },
            ],
        },
    ]
}

/// The row caps, with the one in effect lit.
fn page_size_control(settings: &Settings) -> (control: Control)
    ensures
        control@ == ControlView::Segments(
            Ramp::PageSize,
            page_size_words(),
            page_size_place(page_size_of(settings@)),
        ),
{
    let mut options: Vec<String> = Vec::new();
    options.push(thousands(200));
    options.push(thousands(1_000));
    options.push(thousands(10_000));
    options.push(thousands(50_000));
    options.push(thousands(200_000));
    proof {
        let list = page_size_list();
        assert(list[0] == 200 && list[1] == 1_000 && list[2] == 10_000 && list[3] == 50_000
            && list[4] == 200_000);
        let words = texts(options@);
        assert(words[0] == page_size_words()[0]);
        assert(words[1] == page_size_words()[1]);
        assert(words[2] == page_size_words()[2]);
        assert(words[3] == page_size_words()[3]);
        assert(words[4] == page_size_words()[4]);
        assert(words =~= page_size_words());
    }
    let size = settings.page_size();
    let selected: usize = if size == 200 {
        0
    } else if size == 10_000 {
        2
    } else if size == 50_000 {
        3
    } else if size == 200_000 {
        4
    } else {
        1
    };
    Control::Segments(Ramp::PageSize, options, selected)
}

/// How a table is browsed.
pub fn data(settings: &Settings) -> (sections: Vec<Section>)
    ensures
        views(sections@) == data_page(settings@),
{
    let limit = line(
        "Row limit",
        "The limit applied when a table is opened. Every row is fetched before anything is drawn, so a bigger number costs time on a slow link as well as memory \u{2014} the pager reaches the rest either way.",
        page_size_control(settings),
    );
    let shading = line(
        "Shading",
        "Shade every other row.",
        Control::Switch(Knob::Zebra, settings.zebra()),
    );
    let mut sections: Vec<Section> = Vec::new();
    sections.push(single("Browsing a table", limit));
    sections.push(single("The grid", shading));
    assert(views(sections@) =~= data_page(settings@));
    sections
}

/// The option a row shows as lit is the one that stands for what is in effect.
pub proof fn what_is_lit_is_in_effect(settings: SettingsView)
    ensures
        is_lit(settings, Ramp::MonoSize, mono_size_place(mono_size_of(settings))),
        is_lit(settings, Ramp::TabSize, tab_size_place(tab_size_of(settings))),
        is_lit(settings, Ramp::PageSize, page_size_place(page_size_of(settings))),
        is_lit(settings, Ramp::RowDensity, density_place(density_of(settings.row_density))),
{
    let sizes = mono_size_list();
    assert(sizes[0] == ELEVEN && sizes[1] == TWELVE && sizes[2] == DEFAULT_MONO_SIZE && sizes[3]
        == FOURTEEN && sizes[4] == SIXTEEN);
    let tabs = tab_size_list();
    assert(tabs[0] == 2 && tabs[1] == 4 && tabs[2] == 8);
    let pages = page_size_list();
    assert(pages[0] == 200 && pages[1] == 1_000 && pages[2] == 10_000 && pages[3] == 50_000
        && pages[4] == 200_000);
}

/// A saved connection of the list.
#[derive(Debug)]
pub struct ConnectionRow {
    pub id: u128,
    pub name: String,
    pub meta: String,
}

impl View for ConnectionRow {
    type V = (u128, Seq<char>, Seq<char>);

    open spec fn view(&self) -> (u128, Seq<char>, Seq<char>) {
        (self.id, self.name@, self.meta@)
    }
}

/// Where a connection goes, on one line.
pub open spec fn address(config: ConfigView) -> Seq<char> {
    config.user + "@"@ + config.host + ":"@ + decimal(config.port as nat) + "/"@ + config.database
}

/// Where a connection goes, on one line.
pub fn address_of(config: &ConnectionConfig) -> (text: String)
    ensures
        text@ == address(config@),
{
    let mut text = config.user.clone();
    text.append("@");
    text.append(config.host.as_str());
    text.append(":");
    push_decimal(&mut text, config.port as u64);
    text.append("/");
    text.append(config.database.as_str());
    assert(text@ =~= address(config@));
    text
}

/// The saved connections.
#[derive(Debug)]
pub struct ConnectionsPage {
    pub title: String,
    pub count: String,
    /// What stands in place of a list with nothing in it.
    pub note: Option<String>,
    pub rows: Vec<ConnectionRow>,
    /// The button under the list.
    pub button: PageButton,
}

/// A button of a page.
#[derive(Debug)]
pub struct PageButton {
    pub label: String,
    pub icon: IconName,
}

/// The rows of the saved connections.
pub open spec fn connection_rows(connections: Seq<ConfigView>) -> Seq<(u128, Seq<char>, Seq<char>)> {
    Seq::new(
        connections.len(),
        |i: int| (connections[i].id, connections[i].name, address(connections[i])),
    )
}

/// Whether a page is the one of some saved connections: how many there are
/// beside the heading, a line that says so where there are none, each with
/// where it goes, and a button for one more.
pub open spec fn is_connections_page(page: ConnectionsPage, saved: Seq<ConfigView>) -> bool {
    &&& page.title@ == "Saved connections"@
    &&& page.count@ == decimal(saved.len())
    &&& maybe(page.note) == if saved.len() == 0 {
        Some("Nothing saved yet \u{2014} the first connection you keep shows up here."@)
    } else {
        None
    }
    &&& views(page.rows@) == connection_rows(saved)
    &&& page.button.label@ == "New Connection\u{2026}"@
    &&& page.button.icon == IconName::Plus
}

/// The saved connections, each with where it goes.
pub fn connections(saved: &Vec<ConnectionConfig>) -> (page: ConnectionsPage)
    ensures
        is_connections_page(page, views(saved@)),
{
    let ghost all = views(saved@);
    let mut rows: Vec<ConnectionRow> = Vec::new();
    let mut at: usize = 0;
    assert(views(rows@) =~= connection_rows(all).take(0));
    while at < saved.len()
        invariant
            at <= saved@.len(),
            all == views(saved@),
            views(rows@) == connection_rows(all).take(at as int),
        decreases saved@.len() - at,
    {
        let ghost had = views(rows@);
        let config = &saved[at];
        assert(all[at as int] == config@);
        rows.push(
            ConnectionRow { id: config.id, name: config.name.clone(), meta: address_of(config) },
        );
        assert(connection_rows(all).take(at + 1) =~= had.push(connection_rows(all)[at as int]));
        at += 1;
    }
    assert(connection_rows(all).take(at as int) =~= connection_rows(all));
    let note = if saved.len() == 0 {
        Some("Nothing saved yet \u{2014} the first connection you keep shows up here.".to_owned())
    } else {
        None
    };
    ConnectionsPage {
        title: "Saved connections".to_owned(),
        count: decimal_text(saved.len() as u64),
        note,
        rows,
        button: PageButton { label: "New Connection\u{2026}".to_owned(), icon: IconName::Plus },
    }
}

/// A gesture and the keys that make it.
#[derive(Debug)]
pub struct Shortcut {
    pub label: String,
    pub keys: String,
}

impl View for Shortcut {
    type V = (Seq<char>, Seq<char>);

    open spec fn view(&self) -> (Seq<char>, Seq<char>) {
        (self.label@, self.keys@)
    }
}

/// A command and the keys that run it, where there are any.
#[derive(Debug)]
pub struct Bound {
    pub label: String,
    pub keys: Option<String>,
}

/// The commands that keys run, in order.
pub open spec fn bound_commands(commands: Seq<Bound>) -> Seq<(Seq<char>, Seq<char>)>
    decreases commands.len(),
{
    if commands.len() == 0 {
        Seq::empty()
    } else {
        let before = bound_commands(commands.drop_last());
        match commands.last().keys {
            Some(keys) => before.push((commands.last().label@, keys@)),
            None => before,
        }
    }
}

/// The gestures that find things.
pub open spec fn finding() -> Seq<(Seq<char>, Seq<char>)> {
    seq![
        ("Command Palette"@, "\u{2318}K"@),
        ("Go to Object"@, "\u{2318}P"@),
        ("Run a Command"@, "\u{21e7}\u{2318}P"@),
        ("Go to Line"@, "\u{2318}K then :"@),
    ]
}

/// The gestures that edit.
pub open spec fn editing() -> Seq<(Seq<char>, Seq<char>)> {
    seq![
        ("Undo"@, "\u{2318}Z"@),
        ("Redo"@, "\u{21e7}\u{2318}Z"@),
        ("Select All"@, "\u{2318}A"@),
        ("Copy"@, "\u{2318}C"@),
        ("Cut"@, "\u{2318}X"@),
        ("Paste"@, "\u{2318}V"@),
        ("Indent"@, "\u{21e5}"@),
        ("Outdent"@, "\u{21e7}\u{21e5}"@),
    ]
}

/// A shortcut table, under its heading.
#[derive(Debug)]
pub struct ShortcutTable {
    pub title: String,
    pub rows: Vec<Shortcut>,
}

impl View for ShortcutTable {
    type V = (Seq<char>, Seq<(Seq<char>, Seq<char>)>);

    open spec fn view(&self) -> (Seq<char>, Seq<(Seq<char>, Seq<char>)>) {
        (self.title@, views(self.rows@))
    }
}

/// The shortcut tables, in the order they stand.
#[derive(Debug)]
pub struct ShortcutTables {
    pub finding: ShortcutTable,
    pub commands: ShortcutTable,
    pub editing: ShortcutTable,
}

/// Whether some tables are the ones of a list of commands.
pub open spec fn are_tables(tables: ShortcutTables, commands: Seq<Bound>) -> bool {
    &&& tables.finding@ == ("Finding things"@, finding())
    &&& tables.commands@ == ("Commands"@, bound_commands(commands))
    &&& tables.editing@ == ("Editing"@, editing())
}

/// A gesture and its keys.
fn shortcut(label: &str, keys: &str) -> (row: Shortcut)
    ensures
        row@ == (label@, keys@),
{
    Shortcut { label: label.to_owned(), keys: keys.to_owned() }
}

/// Every gesture that works, and only those: a keystroke listed here that does
/// nothing is a lie in the one place it is least forgivable.
pub fn shortcuts(commands: &Vec<Bound>) -> (tables: ShortcutTables)
    ensures
        are_tables(tables, commands@),
{
    let mut found: Vec<Shortcut> = Vec::new();
    found.push(shortcut("Command Palette", "\u{2318}K"));
    found.push(shortcut("Go to Object", "\u{2318}P"));
    found.push(shortcut("Run a Command", "\u{21e7}\u{2318}P"));
    found.push(shortcut("Go to Line", "\u{2318}K then :"));
    assert(views(found@) =~= finding());
    let mut edits: Vec<Shortcut> = Vec::new();
    edits.push(shortcut("Undo", "\u{2318}Z"));
    edits.push(shortcut("Redo", "\u{21e7}\u{2318}Z"));
    edits.push(shortcut("Select All", "\u{2318}A"));
    edits.push(shortcut("Copy", "\u{2318}C"));
    edits.push(shortcut("Cut", "\u{2318}X"));
    edits.push(shortcut("Paste", "\u{2318}V"));
    edits.push(shortcut("Indent", "\u{21e5}"));
    edits.push(shortcut("Outdent", "\u{21e7}\u{21e5}"));
    assert(views(edits@) =~= editing());
    let mut bound: Vec<Shortcut> = Vec::new();
    let mut at: usize = 0;
    assert(views(bound@) =~= bound_commands(commands@.take(0)));
    while at < commands.len()
        invariant
            at <= commands@.len(),
            views(bound@) == bound_commands(commands@.take(at as int)),
        decreases commands@.len() - at,
    {
        assert(commands@.take(at + 1).drop_last() =~= commands@.take(at as int));
        if let Some(keys) = &commands[at].keys {
            bound.push(shortcut(commands[at].label.as_str(), keys.as_str()));
        }
        at += 1;
    }
    assert(commands@.take(at as int) =~= commands@);
    ShortcutTables {
        finding: ShortcutTable { title: "Finding things".to_owned(), rows: found },
        commands: ShortcutTable { title: "Commands".to_owned(), rows: bound },
        editing: ShortcutTable { title: "Editing".to_owned(), rows: edits },
    }
}

/// Whether a path is a directory or in it. A sibling whose name goes on where
/// the directory's ends is neither.
pub open spec fn is_within(path: Seq<char>, directory: Seq<char>) -> bool {
    &&& directory.len() > 0
    &&& starts(path, directory)
    &&& path.len() == directory.len() || path[directory.len() as int] == '/'
}

/// A path with the home directory written as a tilde, the way every other
/// program writes it. Nothing but the home directory is written so.
pub open spec fn tilde(path: Seq<char>, home: Option<Seq<char>>) -> Seq<char> {
    match home {
        Some(home) => if is_within(path, home) {
            "~"@ + path.skip(home.len() as int)
        } else {
            path
        },
        None => path,
    }
}

/// A path with the home directory written as a tilde.
pub fn display_path(path: &str, home: &Option<String>) -> (text: String)
    ensures
        text@ == tilde(path@, maybe(*home)),
{
    if let Some(home) = home {
        let size: usize = home.as_str().unicode_len();
        if size > 0 && starts_with(path, home.as_str()) {
            let chars = chars_of(path);
            if chars.len() == size || chars[size] == '/' {
                let mut text = "~".to_owned();
                push_chars(&mut text, &chars, size, chars.len());
                assert(text@ =~= "~"@ + path@.skip(home@.len() as int));
                return text;
            }
        }
    }
    path.to_owned()
}

/// Where the program keeps its things.
#[derive(Debug)]
pub struct Places {
    pub version: String,
    pub data: String,
    pub database: String,
    pub logs: String,
    pub home: Option<String>,
}

/// Facts, not knobs: where the program keeps its things and what it is.
pub open spec fn advanced_page(places: Places) -> Seq<SectionView> {
    let home = maybe(places.home);
    seq![
        SectionView {
            title: "About"@,
            lines: seq![
                LineView {
                    label: "Version"@,
                    hint: ""@,
                    control: ControlView::Fact(places.version@),
                },
                LineView {
                    label: "Data folder"@,
                    hint: ""@,
                    control: ControlView::Fact(tilde(places.data@, home)),
                },
                LineView {
                    label: "Database"@,
                    hint: ""@,
                    control: ControlView::Fact(tilde(places.database@, home)),
                },
                LineView {
                    label: "Logs"@,
                    hint: ""@,
                    control: ControlView::Fact(tilde(places.logs@, home)),
                },
            ],
        },
    ]
}

/// The facts, with a line under them.
#[derive(Debug)]
pub struct AdvancedPage {
    pub sections: Vec<Section>,
    pub note: String,
}

/// Whether a page is the one of some places.
pub open spec fn is_advanced_page(page: AdvancedPage, places: Places) -> bool {
    &&& views(page.sections@) == advanced_page(places)
    &&& page.note@ == "Connections, history and saved queries all live in that one file."@
}

/// Facts, not knobs: where the program keeps its things and what it is.
pub fn advanced(places: &Places) -> (page: AdvancedPage)
    ensures
        is_advanced_page(page, *places),
{
    let mut lines: Vec<Line> = Vec::new();
    lines.push(line("Version", "", Control::Fact(places.version.clone())));
    lines.push(
        line(
            "Data folder",
            "",
            Control::Fact(display_path(places.data.as_str(), &places.home)),
        ),
    );
    lines.push(
        line(
            "Database",
            "",
            Control::Fact(display_path(places.database.as_str(), &places.home)),
        ),
    );
    lines.push(
        line("Logs", "", Control::Fact(display_path(places.logs.as_str(), &places.home))),
    );
    let mut sections: Vec<Section> = Vec::new();
    let ghost rows = views(lines@);
    assert(rows =~= advanced_page(*places)[0].lines);
    sections.push(Section { title: "About".to_owned(), lines });
    assert(views(sections@) =~= advanced_page(*places));
    AdvancedPage {
        sections,
        note: "Connections, history and saved queries all live in that one file.".to_owned(),
    }
}

/// What the panes are drawn from.
#[derive(Debug)]
pub struct Shelf {
    pub settings: Settings,
    pub themes: Vec<Theme>,
    /// The theme that is showing.
    pub on_screen: String,
    pub filter: String,
    /// The code faces of this machine.
    pub installed: Vec<String>,
    /// The one it came up with.
    pub resolved: String,
    pub connections: Vec<ConnectionConfig>,
    pub commands: Vec<Bound>,
    pub places: Places,
}

/// What a pane shows.
#[derive(Debug)]
pub enum Page {
    Sections(Vec<Section>),
    Connections(ConnectionsPage),
    Shortcuts(ShortcutTables),
    Advanced(AdvancedPage),
}

/// Whether a page is the one of a pane.
pub open spec fn is_page(page: Page, pane: Pane, shelf: Shelf) -> bool {
    match pane {
        Pane::General => page matches Page::Sections(sections) && views(sections@) == general_page(
            shelf.settings@,
        ),
        Pane::Appearance => page matches Page::Sections(sections) && views(sections@)
            == appearance_page(
            shelf.settings@,
            shelf.themes@,
            shelf.filter@,
            shelf.on_screen@,
        ),
        Pane::Editor => page matches Page::Sections(sections) && views(sections@) == editor_page(
            shelf.settings@,
            texts(shelf.installed@),
            shelf.resolved@,
        ),
        Pane::Data => page matches Page::Sections(sections) && views(sections@) == data_page(
            shelf.settings@,
        ),
        Pane::Connections => page matches Page::Connections(page) && is_connections_page(
            page,
            views(shelf.connections@),
        ),
        Pane::Shortcuts => page matches Page::Shortcuts(tables) && are_tables(
            tables,
            shelf.commands@,
        ),
        Pane::Advanced => page matches Page::Advanced(page) && is_advanced_page(
            page,
            shelf.places,
        ),
    }
}

/// What a pane shows.
pub fn body(pane: Pane, shelf: &Shelf) -> (page: Page)
    ensures
        is_page(page, pane, *shelf),
{
    match pane {
        Pane::General => Page::Sections(general(&shelf.settings)),
        Pane::Appearance => Page::Sections(
            appearance(
                &shelf.settings,
                &shelf.themes,
                shelf.filter.as_str(),
                shelf.on_screen.as_str(),
            ),
        ),
        Pane::Editor => Page::Sections(
            editor(&shelf.settings, &shelf.installed, shelf.resolved.as_str()),
        ),
        Pane::Data => Page::Sections(data(&shelf.settings)),
        Pane::Connections => Page::Connections(connections(&shelf.connections)),
        Pane::Shortcuts => Page::Shortcuts(shortcuts(&shelf.commands)),
        Pane::Advanced => Page::Advanced(advanced(&shelf.places)),
    }
}

} // verus!
