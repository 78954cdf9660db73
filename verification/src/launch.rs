//! How a window starts: what it was built with, and what its switches ask for.
use crate::browsing::value_focused;
use crate::catalog::{ConfigView, ConnectionConfig, RelationRef};
use crate::connecting::connection_opened;
use crate::flags::{
    cell_in, cell_named, chips_in, chips_named, cut, inspector_in, inspector_named, operation_in,
    operation_named, results_in, results_named, sidebar_in, sidebar_named, table_named, tables_in,
    tables_named,
};
use crate::lists::{first, group_views, views};
use crate::naming::{parse_number, parsed};
use crate::pane::{chip_opened, filter_of, with_filter, FilterView, Pane, PaneView, ResultsTab};
use crate::settings::{is_page_size, Settings};
use crate::showing::{connection_place, group_showing};
use crate::text::{maybe, same, split, texts};
use crate::window::{
    active_pane, group_window, lemma_same_frame, name, names, then_do, well_formed, with_active,
    Act, Effect, Focus, InspectorTab, ObjectOp, PendingView, SidebarTab, WindowView, Workspace,
};
use vstd::prelude::*;

verus! {

broadcast use {group_views, group_window, group_showing};

/// The switches of a launch, each with what it was set to.
pub struct Switches {
    pub sidebar: Option<String>,
    pub results_tab: Option<String>,
    pub inspector: Option<String>,
    pub page: Option<String>,
    pub page_size: Option<String>,
    pub expand: Option<String>,
    pub filter: Option<String>,
    pub filter_raw: bool,
    pub composer: bool,
    pub open: Option<String>,
    pub key: Option<String>,
    pub switch: Option<String>,
    pub after: Option<String>,
    /// The connection whose password is asked about.
    pub keychain: Option<String>,
    pub follow: bool,
    pub cell: Option<String>,
    pub menu: Option<String>,
    pub sheet: Option<String>,
    pub design: Option<String>,
    pub design_sheet: bool,
    pub decoder: Option<String>,
    pub complete: Option<String>,
    pub switcher: bool,
}

/// What a launch is told about where to connect.
pub enum Destination {
    /// Nothing.
    Unset,
    /// Something that names no connection.
    Unreadable,
    To(ConnectionConfig),
}

/// What is read of the grid and the operators while a filter is seeded.
pub struct FilterFacts {
    /// How each operator is spelled, by its place in the list of operators.
    pub words: Vec<String>,
    /// What the seeded conditions spell.
    pub spelled: String,
    /// The first column of the grid, and nothing where it has none.
    pub first_column: String,
}

/// The sidebar tab a switch names, and the one there was where it names none.
pub open spec fn sidebar_over(switch: Option<String>, was: SidebarTab) -> SidebarTab {
    match switch {
        Some(word) => match sidebar_in(word@) {
            Some(tab) => tab,
            None => was,
        },
        None => was,
    }
}

/// The same of the inspector.
pub open spec fn inspector_over(switch: Option<String>, was: InspectorTab) -> InspectorTab {
    match switch {
        Some(word) => match inspector_in(word@) {
            Some(tab) => tab,
            None => was,
        },
        None => was,
    }
}

/// The same of the results.
pub open spec fn results_over(switch: Option<String>, was: ResultsTab) -> ResultsTab {
    match switch {
        Some(word) => match results_in(word@) {
            Some(tab) => tab,
            None => was,
        },
        None => was,
    }
}

/// The number a switch spells, and the one there was where it spells none.
pub open spec fn number_over(switch: Option<String>, was: Option<usize>) -> Option<usize> {
    match switch {
        Some(text) => match parsed(text@) {
            Some(n) => Some(n),
            None => was,
        },
        None => was,
    }
}

/// The settings with the page size a switch names, where it is one that is
/// offered.
pub open spec fn page_size_over(switch: Option<String>, was: Settings) -> Settings {
    match number_over(switch, None) {
        Some(size) => if is_page_size(size) {
            Settings { page_size: Some(size), ..was }
        } else {
            was
        },
        None => was,
    }
}

/// What a switch is set to, and what there was where it is not set.
pub open spec fn text_over(switch: Option<String>, was: Option<Seq<char>>) -> Option<Seq<char>> {
    match switch {
        Some(text) => Some(text@),
        None => was,
    }
}

/// The table a switch names, and the one there was where it names none.
pub open spec fn table_over(
    switch: Option<String>,
    was: Option<(Seq<char>, Seq<char>)>,
) -> Option<(Seq<char>, Seq<char>)> {
    match switch {
        Some(text) => match cut(text@, '.') {
            Some(table) => Some(table),
            None => was,
        },
        None => was,
    }
}

/// The tables a switch names, after the ones there were.
pub open spec fn tables_over(
    switch: Option<String>,
    was: Seq<(Seq<char>, Seq<char>)>,
) -> Seq<(Seq<char>, Seq<char>)> {
    match switch {
        Some(spec) => was + tables_in(split(spec@, ',')),
        None => was,
    }
}

/// The cell a switch names, and the one there was where it names none.
pub open spec fn cell_over(
    switch: Option<String>,
    was: Option<(usize, usize)>,
) -> Option<(usize, usize)> {
    match switch {
        Some(text) => match cell_in(text@) {
            Some(cell) => Some(cell),
            None => was,
        },
        None => was,
    }
}

/// The object a switch names, with the operation another names.
pub open spec fn demo_over(
    switch: Option<String>,
    sheet: Option<String>,
    was: Option<((Seq<char>, Seq<char>), Option<ObjectOp>)>,
) -> Option<((Seq<char>, Seq<char>), Option<ObjectOp>)> {
    match table_over(switch, None) {
        Some(table) => Some(
            (
                table,
                match sheet {
                    Some(word) => operation_in(word@),
                    None => None,
                },
            ),
        ),
        None => was,
    }
}

/// The table a switch asks to design, or a new one.
pub open spec fn design_over(
    switch: Option<String>,
    preview: bool,
    was: Option<(Option<(Seq<char>, Seq<char>)>, bool)>,
) -> Option<(Option<(Seq<char>, Seq<char>)>, bool)> {
    match switch {
        Some(text) => match cut(text@, '.') {
            Some(table) => Some((Some(table), preview)),
            None => if text@ == "new"@ {
                Some((None, preview))
            } else {
                was
            },
        },
        None => was,
    }
}

/// The parts of the window a launch asks to see.
#[verifier::opaque]
pub open spec fn faces_set(window: WindowView, switches: Switches) -> WindowView {
    let pane = active_pane(window);
    let sided = WindowView {
        sidebar_tab: sidebar_over(switches.sidebar, window.sidebar_tab),
        inspector_tab: inspector_over(switches.inspector, window.inspector_tab),
        ..window
    };
    with_active(
        sided,
        PaneView { results_tab: results_over(switches.results_tab, pane.results_tab), ..pane },
    )
}

/// The numbers a launch asks for: the page, the size of one, the field shown
/// whole. One that is no number, or no size that is offered, is passed over.
#[verifier::opaque]
pub open spec fn numbers_set(window: WindowView, switches: Switches) -> WindowView {
    WindowView {
        pending: PendingView {
            page: number_over(switches.page, window.pending.page),
            ..window.pending
        },
        settings: page_size_over(switches.page_size, window.settings),
        expanded_field: number_over(switches.expand, window.expanded_field),
        ..window
    }
}

/// The filter a launch asks for, on the showing tab.
#[verifier::opaque]
pub open spec fn filter_seeded(
    window: WindowView,
    switches: Switches,
    facts: FilterFacts,
) -> WindowView {
    match switches.filter {
        None => window,
        Some(spec) => {
            let pane = active_pane(window);
            let chips = chips_in(split(spec@, ','), texts(facts.words@));
            let chipped = with_filter(pane, FilterView { chips, ..filter_of(pane) });
            let filtered = if switches.filter_raw {
                let raw = with_filter(
                    chipped,
                    FilterView { raw: true, text: facts.spelled@, ..filter_of(chipped) },
                );
                then_do(
                    with_active(window, PaneView { clause: filter_of(raw).text, ..raw }),
                    Act::SetClause(window.active_pane),
                )
            } else {
                with_active(window, chipped)
            };
            if switches.composer {
                value_focused(
                    then_do(
                        with_active(
                            filtered,
                            chip_opened(active_pane(filtered), None, facts.first_column@),
                        ),
                        Act::SetChipValue(window.active_pane),
                    ),
                )
            } else {
                filtered
            }
        },
    }
}

/// What waits for a catalog, a walk or some rows.
#[verifier::opaque]
pub open spec fn waiting_set(window: WindowView, switches: Switches) -> WindowView {
    let was = window.pending;
    WindowView {
        pending: PendingView {
            open: tables_over(switches.open, was.open),
            key: text_over(switches.key, was.key),
            switch: text_over(switches.switch, was.switch),
            after: table_over(switches.after, was.after),
            follow: was.follow || switches.follow,
            cell: cell_over(switches.cell, was.cell),
            demo: demo_over(switches.menu, switches.sheet, was.demo),
            design: design_over(switches.design, switches.design_sheet, was.design),
            decoder: text_over(switches.decoder, was.decoder),
            complete: maybe(switches.complete),
            switcher: switches.switcher,
            ..was
        },
        ..window
    }
}

/// The connection the window was on last time opened again, on the database
/// that was open. One that is gone is not reopened.
pub open spec fn reopened(window: WindowView) -> WindowView {
    match window.reopen {
        None => window,
        Some(id) => {
            let taken = WindowView { reopen: None, ..window };
            let at = connection_place(window.connections, id);
            if at < window.connections.len() {
                let settled = WindowView { reopen_database: None, ..taken };
                connection_opened(
                    settled,
                    match window.reopen_database {
                        Some(database) => if database.len() > 0 {
                            ConfigView { database, ..window.connections[at] }
                        } else {
                            window.connections[at]
                        },
                        None => window.connections[at],
                    },
                    None,
                )
            } else {
                taken
            }
        },
    }
}

/// The window after its first frame: what the switches ask for, and the
/// connection they or the last session name.
pub open spec fn booted(
    window: WindowView,
    switches: Switches,
    facts: FilterFacts,
    destination: Destination,
) -> WindowView {
    let set = waiting_set(
        filter_seeded(numbers_set(faces_set(window, switches), switches), switches, facts),
        switches,
    );
    match destination {
        Destination::To(config) => connection_opened(set, config@, None),
        Destination::Unreadable => set,
        Destination::Unset => reopened(set),
    }
}

impl Workspace {
    /// Show the parts a launch asks to see.
    fn set_faces(&mut self, switches: &Switches)
        requires
            well_formed(old(self)@),
        ensures
            final(self)@ == faces_set(old(self)@, *switches),
            well_formed(final(self)@),
    {
        reveal(faces_set);
        self.sidebar_tab = pick_sidebar(&switches.sidebar, self.sidebar_tab);
        self.inspector_tab = pick_inspector(&switches.inspector, self.inspector_tab);
        proof {
            lemma_same_frame(self@, old(self)@);
        }
        let at = self.active_at();
        let ghost before = *self;
        let tab = pick_results(&switches.results_tab, self.panes[at].results_tab);
        self.panes[at].results_tab = tab;
        assert(self.panes@ =~= before.panes@.update(at as int, self.panes@[at as int]));
        proof {
            Self::lemma_pane_changed(before, *self, at as int);
        }
        assert(self.panes@[at as int]@ =~= (PaneView {
            results_tab: tab,
            ..active_pane(old(self)@)
        }));
        assert(before@ =~= (WindowView {
            sidebar_tab: before@.sidebar_tab,
            inspector_tab: before@.inspector_tab,
            ..old(self)@
        }));
    }

    /// Set the numbers a launch asks for.
    fn set_numbers(&mut self, switches: &Switches)
        requires
            well_formed(old(self)@),
        ensures
            final(self)@ == numbers_set(old(self)@, *switches),
            well_formed(final(self)@),
    {
        reveal(numbers_set);
        self.pending.page = pick_number(&switches.page, self.pending.page);
        self.expanded_field = pick_number(&switches.expand, self.expanded_field);
        if let Some(size) = pick_number(&switches.page_size, None) {
            if size == 200 || size == 1_000 || size == 10_000 || size == 50_000 || size == 200_000 {
                self.settings.set_page_size(size);
            }
        }
        assert(self@ =~= numbers_set(old(self)@, *switches));
        proof {
            lemma_same_frame(self@, old(self)@);
        }
    }

    /// Put the filter a launch asks for on the showing tab.
    fn seed_filter(&mut self, switches: &Switches, facts: &FilterFacts)
        requires
            well_formed(old(self)@),
        ensures
            final(self)@ == filter_seeded(old(self)@, *switches, *facts),
            well_formed(final(self)@),
    {
        reveal(filter_seeded);
        if let Some(spec) = &switches.filter {
            let chips = chips_named(spec.as_str(), &facts.words);
            let at = self.active_at();
            let ghost before = *self;
            self.panes[at].seed_filter(chips, switches.filter_raw, &facts.spelled);
            assert(self.panes@ =~= before.panes@.update(at as int, self.panes@[at as int]));
            proof {
                Self::lemma_pane_changed(before, *self, at as int);
            }
            if switches.filter_raw {
                self.say(Effect::SetClause(self.active_pane));
            }
            if switches.composer {
                self.open_chip(None, facts.first_column.clone());
            }
        }
    }

    /// Note what waits for a catalog, a walk or some rows.
    fn set_waiting(&mut self, switches: &Switches)
        requires
            well_formed(old(self)@),
        ensures
            final(self)@ == waiting_set(old(self)@, *switches),
            well_formed(final(self)@),
    {
        reveal(waiting_set);
        if let Some(spec) = &switches.open {
            let mut tables = tables_named(spec.as_str());
            let ghost had = self.pending.open@;
            let ghost more = tables@;
            self.pending.open.append(&mut tables);
            assert(names(self.pending.open@) =~= names(had) + names(more));
        }
        pick_text(&switches.key, &mut self.pending.key);
        pick_text(&switches.switch, &mut self.pending.switch);
        pick_table(&switches.after, &mut self.pending.after);
        self.pending.follow = self.pending.follow || switches.follow;
        self.pending.cell = pick_cell(&switches.cell, self.pending.cell);
        pick_demo(&switches.menu, &switches.sheet, &mut self.pending.demo);
        pick_design(&switches.design, switches.design_sheet, &mut self.pending.design);
        pick_text(&switches.decoder, &mut self.pending.decoder);
        self.pending.complete = match &switches.complete {
            Some(text) => Some(text.clone()),
            None => None,
        };
        self.pending.switcher = switches.switcher;
        assert(self@.pending =~= waiting_set(old(self)@, *switches).pending);
        assert(self@ =~= waiting_set(old(self)@, *switches));
        proof {
            lemma_same_frame(self@, old(self)@);
        }
    }

    /// Open the connection the window was on last time.
    fn reopen_last(&mut self)
        requires
            well_formed(old(self)@),
        ensures
            final(self)@ == reopened(old(self)@),
            well_formed(final(self)@),
    {
        let Some(id) = self.reopen else {
            return ;
        };
        self.reopen = None;
        assert(self@ =~= (WindowView { reopen: None, ..old(self)@ }));
        proof {
            lemma_same_frame(self@, old(self)@);
        }
        let at = self.find_connection(id);
        if at >= self.connections.len() {
            return ;
        }
        let database = self.reopen_database.take();
        let ghost settled = WindowView { reopen: None, reopen_database: None, ..old(self)@ };
        assert(self@ =~= settled);
        proof {
            lemma_same_frame(self@, old(self)@);
        }
        let ghost saved = self@.connections[at as int];
        assert(saved == self.connections@[at as int]@);
        let config = self.connections[at].clone();
        // Back onto the database that was open, not the one the connection
        // was saved with: restored table tabs name a relation in it.
        let config = match database {
            Some(database) => if database.as_str().unicode_len() > 0 {
                let moved = ConnectionConfig { database, ..config };
                assert(moved@ =~= (ConfigView { database: database@, ..saved }));
                moved
            } else {
                config
            },
            None => config,
        };
        self.open_connection(config);
    }

    /// Honour the switches that let a launch start in a state that would
    /// otherwise take clicks to reach, and open the connection they name or
    /// the last one. A value that says nothing is passed over rather than
    /// being allowed to stop a launch: `Switches::ignored` lists those.
    pub fn boot_from_environment(
        &mut self,
        switches: &Switches,
        facts: &FilterFacts,
        destination: Destination,
    )
        requires
            well_formed(old(self)@),
        ensures
            final(self)@ == booted(old(self)@, *switches, *facts, destination),
            well_formed(final(self)@),
    {
        self.set_faces(switches);
        self.set_numbers(switches);
        self.seed_filter(switches, facts);
        self.set_waiting(switches);
        match destination {
            Destination::To(config) => self.open_connection(config),
            Destination::Unreadable => {},
            Destination::Unset => self.reopen_last(),
        }
    }

    /// Begin a frame. The first is the one with a window to focus into, and the
    /// console is what you came here to type in, so it starts focused.
    pub fn begin_frame(
        &mut self,
        switches: &Switches,
        facts: &FilterFacts,
        destination: Destination,
    ) -> (first: bool)
        requires
            well_formed(old(self)@),
        ensures
            first == !old(self)@.booted,
            final(self)@ == frame_begun(old(self)@, *switches, *facts, destination),
            final(self)@.booted,
            well_formed(final(self)@),
    {
        if self.booted {
            return false;
        }
        self.say(Effect::Focus(Focus::Console));
        self.boot_from_environment(switches, facts, destination);
        let ghost after = self@;
        self.booted = true;
        assert(self@ =~= (WindowView { booted: true, ..after }));
        proof {
            lemma_same_frame(self@, after);
        }
        true
    }
}

/// A frame begun. The first one puts the keyboard in the console and does what
/// the launch asked for; no other does.
pub open spec fn frame_begun(
    window: WindowView,
    switches: Switches,
    facts: FilterFacts,
    destination: Destination,
) -> WindowView {
    if window.booted {
        window
    } else {
        WindowView {
            booted: true,
            ..booted(
                then_do(window, Act::Focus(Focus::Console)),
                switches,
                facts,
                destination,
            )
        }
    }
}

/// A window starts once: a frame after the first changes nothing, whatever the
/// launch asked for.
pub proof fn a_window_starts_once(
    window: WindowView,
    switches: Switches,
    facts: FilterFacts,
    destination: Destination,
    again: Switches,
    then_facts: FilterFacts,
    elsewhere: Destination,
)
    ensures
        ({
            let begun = frame_begun(window, switches, facts, destination);
            begun.booted && frame_begun(begun, again, then_facts, elsewhere) == begun
        }),
{
}

/// The sidebar tab a switch names, and the one there was.
fn pick_sidebar(switch: &Option<String>, was: SidebarTab) -> (tab: SidebarTab)
    ensures
        tab == sidebar_over(*switch, was),
{
    match switch {
        Some(word) => match sidebar_named(word.as_str()) {
            Some(tab) => tab,
            None => was,
        },
        None => was,
    }
}

/// The face of the inspector a switch names, and the one there was.
fn pick_inspector(switch: &Option<String>, was: InspectorTab) -> (tab: InspectorTab)
    ensures
        tab == inspector_over(*switch, was),
{
    match switch {
        Some(word) => match inspector_named(word.as_str()) {
            Some(tab) => tab,
            None => was,
        },
        None => was,
    }
}

/// The face of the results a switch names, and the one there was.
fn pick_results(switch: &Option<String>, was: ResultsTab) -> (tab: ResultsTab)
    ensures
        tab == results_over(*switch, was),
{
    match switch {
        Some(word) => match results_named(word.as_str()) {
            Some(tab) => tab,
            None => was,
        },
        None => was,
    }
}

/// The number a switch spells, and the one there was.
fn pick_number(switch: &Option<String>, was: Option<usize>) -> (n: Option<usize>)
    ensures
        n == number_over(*switch, was),
{
    match switch {
        Some(text) => match parse_number(text.as_str()) {
            Some(n) => Some(n),
            None => was,
        },
        None => was,
    }
}

/// The cell a switch names, and the one there was.
fn pick_cell(switch: &Option<String>, was: Option<(usize, usize)>) -> (cell: Option<(usize, usize)>)
    ensures
        cell == cell_over(*switch, was),
{
    match switch {
        Some(text) => match cell_named(text.as_str()) {
            Some(cell) => Some(cell),
            None => was,
        },
        None => was,
    }
}

/// Take what a switch is set to over what there was.
fn pick_text(switch: &Option<String>, place: &mut Option<String>)
    ensures
        maybe(*final(place)) == text_over(*switch, maybe(*old(place))),
{
    if let Some(text) = switch {
        *place = Some(text.clone());
    }
}

/// Take the table a switch names over the one there was.
fn pick_table(switch: &Option<String>, place: &mut Option<RelationRef>)
    ensures
        name(*final(place)) == table_over(*switch, name(*old(place))),
{
    if let Some(text) = switch {
        if let Some(table) = table_named(text.as_str()) {
            *place = Some(table);
        }
    }
}

/// An object and what to do with it, as a value.
pub open spec fn demo_view(
    demo: Option<(RelationRef, Option<ObjectOp>)>,
) -> Option<((Seq<char>, Seq<char>), Option<ObjectOp>)> {
    match demo {
        Some(demo) => Some((demo.0.parts(), demo.1)),
        None => None,
    }
}

/// Take the object a switch names over the one there was.
fn pick_demo(
    switch: &Option<String>,
    sheet: &Option<String>,
    place: &mut Option<(RelationRef, Option<ObjectOp>)>,
)
    ensures
        demo_view(*final(place)) == demo_over(*switch, *sheet, demo_view(*old(place))),
{
    if let Some(text) = switch {
        if let Some(table) = table_named(text.as_str()) {
            let op = match sheet {
                Some(word) => operation_named(word.as_str()),
                None => None,
            };
            *place = Some((table, op));
        }
    }
}

/// A design to be shown, as a value.
pub open spec fn design_view(
    design: Option<(Option<RelationRef>, bool)>,
) -> Option<(Option<(Seq<char>, Seq<char>)>, bool)> {
    match design {
        Some(design) => Some((name(design.0), design.1)),
        None => None,
    }
}

/// Take the design a switch asks for over the one there was.
fn pick_design(
    switch: &Option<String>,
    preview: bool,
    place: &mut Option<(Option<RelationRef>, bool)>,
)
    ensures
        design_view(*final(place)) == design_over(*switch, preview, design_view(*old(place))),
{
    if let Some(spec) = switch {
        match table_named(spec.as_str()) {
            Some(table) => {
                *place = Some((Some(table), preview));
            },
            None => {
                if same(spec.as_str(), "new") {
                    *place = Some((None, preview));
                }
            },
        }
    }
}

impl Pane {
    /// Put conditions into the filter of the showing tab, or what they spell.
    fn seed_filter(&mut self, chips: Vec<crate::pane::Chip>, raw: bool, spelled: &String)
        ensures
            final(self)@ == ({
                let pane = old(self)@;
                let chipped = with_filter(
                    pane,
                    (FilterView { chips: views(chips@), ..filter_of(pane) }),
                );
                if raw {
                    let written = with_filter(
                        chipped,
                        (FilterView { raw: true, text: spelled@, ..filter_of(chipped) }),
                    );
                    PaneView { clause: filter_of(written).text, ..written }
                } else {
                    chipped
                }
            }),
    {
        let at = self.active_tab;
        if at < self.tabs.len() {
            let ghost before = self.tabs@;
            self.tabs[at].filter.chips = chips;
            if raw {
                self.tabs[at].filter.raw = true;
                self.tabs[at].filter.text = spelled.clone();
                self.clause = spelled.clone();
            }
            assert(self.tabs@ =~= before.update(at as int, self.tabs@[at as int]));
        } else if raw {
            self.clause = String::new();
        }
        proof {
            let pane = old(self)@;
            let chipped = with_filter(
                pane,
                (FilterView { chips: views(chips@), ..filter_of(pane) }),
            );
            if raw {
                let written = with_filter(
                    chipped,
                    (FilterView { raw: true, text: spelled@, ..filter_of(chipped) }),
                );
                assert(self@ =~= (PaneView { clause: filter_of(written).text, ..written }));
            } else {
                assert(self@ =~= chipped);
            }
        }
    }
}

} // verus!
