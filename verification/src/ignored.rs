//! The switches of a launch that are passed over because what they are set to
//! says nothing.
use crate::flags::{
    cell_in, cell_named, cut, inspector_in, inspector_named, operation_in, operation_named,
    results_in, results_named, sidebar_in, sidebar_named, table_named,
};
use crate::launch::{
    cell_over, demo_over, design_over, inspector_over, number_over, page_size_over, results_over,
    sidebar_over, table_over, Switches,
};
use crate::lists::{group_views, views};
use crate::naming::{parse_number, parsed};
use crate::pane::ResultsTab;
use crate::settings::{is_page_size, Settings};
use crate::text::{maybe, same, split, split_on, texts, trim, trimmed};
use crate::window::{InspectorTab, ObjectOp, SidebarTab};
use vstd::prelude::*;

verus! {

broadcast use group_views;

/// A switch that can be set to something that says nothing.
#[derive(Clone, Copy, PartialEq, Eq, Structural, Debug)]
pub enum Switch {
    Sidebar,
    ResultsTab,
    Inspector,
    Page,
    PageSize,
    Expand,
    Open,
    After,
    Keychain,
    Cell,
    Sheet,
    Menu,
    Design,
}

/// A switch that was passed over, with what it was set to.
#[derive(Debug)]
pub struct Ignored {
    pub switch: Switch,
    pub value: String,
}

/// A switch that was passed over, as a value.
pub struct IgnoredView {
    pub switch: Switch,
    pub value: Seq<char>,
}

impl View for Ignored {
    type V = IgnoredView;

    open spec fn view(&self) -> IgnoredView {
        IgnoredView { switch: self.switch, value: self.value@ }
    }
}

/// The id that `uuid` reads in a text, which is none where it reads none.
pub uninterp spec fn uuid_in(text: Seq<char>) -> Option<u128>;

/// `uuid::Uuid::parse_str` reads an id in any of the forms it writes one in,
/// and `as_u128` gives it as one number. Which texts it reads is left to it:
/// all that is said is that a text is read the same way every time.
#[verifier::external_body]
fn read_uuid(text: &str) -> (id: Option<u128>)
    ensures
        id == uuid_in(text@),
{
    uuid::Uuid::parse_str(text).ok().map(|id| id.as_u128())
}

/// Whether what a switch is set to says nothing. `id` is what the id of a
/// connection was read as.
pub open spec fn says_nothing(switch: Switch, value: Seq<char>, id: Option<u128>) -> bool {
    match switch {
        Switch::Sidebar => sidebar_in(value) is None,
        Switch::ResultsTab => results_in(value) is None,
        Switch::Inspector => inspector_in(value) is None,
        Switch::Page | Switch::Expand => parsed(value) is None,
        Switch::PageSize => !(parsed(value) matches Some(size) && is_page_size(size)),
        Switch::Open | Switch::After | Switch::Menu => cut(value, '.') is None,
        Switch::Keychain => id is None,
        Switch::Cell => cell_in(value) is None,
        Switch::Sheet => operation_in(value) is None,
        Switch::Design => cut(value, '.') is None && value != "new"@,
    }
}

/// A switch, where it is set and passed over.
pub open spec fn passed_over(switch: Switch, value: Option<Seq<char>>, id: Option<u128>) -> Seq<
    IgnoredView,
> {
    match value {
        Some(value) => if says_nothing(switch, value, id) {
            seq![IgnoredView { switch, value }]
        } else {
            Seq::empty()
        },
        None => Seq::empty(),
    }
}

/// The pieces of a list of tables that name none, in order. One with nothing
/// in it is no piece.
pub open spec fn pieces_passed_over(pieces: Seq<Seq<char>>) -> Seq<IgnoredView>
    decreases pieces.len(),
{
    if pieces.len() == 0 {
        Seq::empty()
    } else {
        let before = pieces_passed_over(pieces.drop_last());
        let piece = trimmed(pieces.last());
        if piece.len() > 0 && cut(piece, '.') is None {
            before.push(IgnoredView { switch: Switch::Open, value: piece })
        } else {
            before
        }
    }
}

/// The tables a launch asks to open that are none.
pub open spec fn tables_passed_over(value: Option<Seq<char>>) -> Seq<IgnoredView> {
    match value {
        Some(spec) => pieces_passed_over(split(spec, ',')),
        None => Seq::empty(),
    }
}

/// The switches of a launch that are passed over, in the order they are read.
/// The one that names an operation is read only where an object is named to
/// carry it out on. `id` is what the id of a connection was read as.
pub open spec fn ignored_in(switches: Switches, id: Option<u128>) -> Seq<IgnoredView> {
    passed_over(Switch::Sidebar, maybe(switches.sidebar), id) + passed_over(
        Switch::ResultsTab,
        maybe(switches.results_tab),
        id,
    ) + passed_over(Switch::Inspector, maybe(switches.inspector), id) + passed_over(
        Switch::Page,
        maybe(switches.page),
        id,
    ) + passed_over(Switch::PageSize, maybe(switches.page_size), id) + passed_over(
        Switch::Expand,
        maybe(switches.expand),
        id,
    ) + tables_passed_over(maybe(switches.open)) + passed_over(
        Switch::After,
        maybe(switches.after),
        id,
    ) + passed_over(Switch::Keychain, maybe(switches.keychain), id) + passed_over(
        Switch::Cell,
        maybe(switches.cell),
        id,
    ) + passed_over(
        Switch::Sheet,
        if switches.menu is Some {
            maybe(switches.sheet)
        } else {
            None
        },
        id,
    ) + passed_over(Switch::Menu, maybe(switches.menu), id) + passed_over(
        Switch::Design,
        maybe(switches.design),
        id,
    )
}

/// Whether what a switch is set to says nothing.
fn is_nothing(switch: Switch, value: &str, id: Option<u128>) -> (answer: bool)
    ensures
        answer == says_nothing(switch, value@, id),
{
    match switch {
        Switch::Sidebar => sidebar_named(value).is_none(),
        Switch::ResultsTab => results_named(value).is_none(),
        Switch::Inspector => inspector_named(value).is_none(),
        Switch::Page | Switch::Expand => parse_number(value).is_none(),
        Switch::PageSize => match parse_number(value) {
            Some(size) => !(size == 200 || size == 1_000 || size == 10_000 || size == 50_000
                || size == 200_000),
            None => true,
        },
        Switch::Open | Switch::After | Switch::Menu => table_named(value).is_none(),
        Switch::Keychain => id.is_none(),
        Switch::Cell => cell_named(value).is_none(),
        Switch::Sheet => operation_named(value).is_none(),
        Switch::Design => table_named(value).is_none() && !same(value, "new"),
    }
}

/// Note a switch, where it is set and passed over.
fn note(out: &mut Vec<Ignored>, switch: Switch, value: &Option<String>, id: Option<u128>)
    ensures
        views(final(out)@) == views(old(out)@) + passed_over(switch, maybe(*value), id),
{
    let ghost had = views(out@);
    if let Some(value) = value {
        if is_nothing(switch, value.as_str(), id) {
            out.push(Ignored { switch, value: value.clone() });
        }
    }
    assert(views(out@) =~= had + passed_over(switch, maybe(*value), id));
}

/// Note the tables a launch asks to open that are none.
fn note_tables(out: &mut Vec<Ignored>, value: &Option<String>)
    ensures
        views(final(out)@) == views(old(out)@) + tables_passed_over(maybe(*value)),
{
    let ghost had = views(out@);
    if let Some(spec) = value {
        let pieces = split_on(spec.as_str(), ',');
        let ghost all = texts(pieces@);
        let mut at: usize = 0;
        assert(views(out@) =~= had + pieces_passed_over(all.take(0)));
        while at < pieces.len()
            invariant
                at <= pieces@.len(),
                all == texts(pieces@),
                views(out@) == had + pieces_passed_over(all.take(at as int)),
            decreases pieces@.len() - at,
        {
            assert(all.take(at + 1).drop_last() =~= all.take(at as int));
            let piece = trim(pieces[at].as_str());
            if piece.as_str().unicode_len() > 0 && table_named(piece.as_str()).is_none() {
                out.push(Ignored { switch: Switch::Open, value: piece });
            }
            assert(views(out@) =~= had + pieces_passed_over(all.take(at + 1)));
            at += 1;
        }
        assert(all.take(at as int) =~= all);
    } else {
        assert(views(out@) =~= had + tables_passed_over(None));
    }
}

/// What is wrong with what a switch is set to.
pub open spec fn complaint_of(switch: Switch) -> Seq<char> {
    match switch {
        Switch::Sidebar | Switch::ResultsTab | Switch::Inspector => "is not a tab"@,
        Switch::Page => "is not a page"@,
        Switch::PageSize => "is not one of [200, 1000, 10000, 50000, 200000]"@,
        Switch::Expand => "is not a column index"@,
        Switch::Open | Switch::After | Switch::Menu => "is not schema.table"@,
        Switch::Keychain => "is not a uuid"@,
        Switch::Cell => "is not row,column"@,
        Switch::Sheet => "is not an operation"@,
        Switch::Design => "is not schema.table or `new`"@,
    }
}

/// The variable a switch is set by.
pub open spec fn variable_of(switch: Switch) -> Seq<char> {
    match switch {
        Switch::Sidebar => "TUPLI_SIDEBAR"@,
        Switch::ResultsTab => "TUPLI_RESULTS_TAB"@,
        Switch::Inspector => "TUPLI_INSPECTOR"@,
        Switch::Page => "TUPLI_PAGE"@,
        Switch::PageSize => "TUPLI_PAGE_SIZE"@,
        Switch::Expand => "TUPLI_EXPAND"@,
        Switch::Open => "TUPLI_OPEN"@,
        Switch::After => "TUPLI_AFTER"@,
        Switch::Keychain => "TUPLI_KEYCHAIN"@,
        Switch::Cell => "TUPLI_CELL"@,
        Switch::Sheet => "TUPLI_SHEET"@,
        Switch::Menu => "TUPLI_MENU"@,
        Switch::Design => "TUPLI_DESIGN"@,
    }
}

impl Switch {
    /// The variable the switch is set by.
    pub fn variable(self) -> (name: &'static str)
        ensures
            name@ == variable_of(self),
    {
        match self {
            Switch::Sidebar => "TUPLI_SIDEBAR",
            Switch::ResultsTab => "TUPLI_RESULTS_TAB",
            Switch::Inspector => "TUPLI_INSPECTOR",
            Switch::Page => "TUPLI_PAGE",
            Switch::PageSize => "TUPLI_PAGE_SIZE",
            Switch::Expand => "TUPLI_EXPAND",
            Switch::Open => "TUPLI_OPEN",
            Switch::After => "TUPLI_AFTER",
            Switch::Keychain => "TUPLI_KEYCHAIN",
            Switch::Cell => "TUPLI_CELL",
            Switch::Sheet => "TUPLI_SHEET",
            Switch::Menu => "TUPLI_MENU",
            Switch::Design => "TUPLI_DESIGN",
        }
    }

    /// What is wrong with what the switch is set to.
    pub fn complaint(self) -> (text: &'static str)
        ensures
            text@ == complaint_of(self),
    {
        match self {
            Switch::Sidebar | Switch::ResultsTab | Switch::Inspector => "is not a tab",
            Switch::Page => "is not a page",
            Switch::PageSize => "is not one of [200, 1000, 10000, 50000, 200000]",
            Switch::Expand => "is not a column index",
            Switch::Open | Switch::After | Switch::Menu => "is not schema.table",
            Switch::Keychain => "is not a uuid",
            Switch::Cell => "is not row,column",
            Switch::Sheet => "is not an operation",
            Switch::Design => "is not schema.table or `new`",
        }
    }
}

impl Switches {
    /// The connection whose password a launch asks about.
    pub fn keychain_id(&self) -> (id: Option<u128>)
        ensures
            id == match self.keychain {
                Some(text) => uuid_in(text@),
                None => None,
            },
    {
        match &self.keychain {
            Some(text) => read_uuid(text.as_str()),
            None => None,
        }
    }

    /// The switches that are passed over, where the id of a connection was
    /// read as `id`.
    pub fn ignored_given(&self, id: Option<u128>) -> (ignored: Vec<Ignored>)
        ensures
            views(ignored@) == ignored_in(*self, id),
    {
        let mut out: Vec<Ignored> = Vec::new();
        assert(views(out@) =~= Seq::empty());
        note(&mut out, Switch::Sidebar, &self.sidebar, id);
        assert(views(out@) =~= passed_over(Switch::Sidebar, maybe(self.sidebar), id));
        note(&mut out, Switch::ResultsTab, &self.results_tab, id);
        note(&mut out, Switch::Inspector, &self.inspector, id);
        note(&mut out, Switch::Page, &self.page, id);
        note(&mut out, Switch::PageSize, &self.page_size, id);
        note(&mut out, Switch::Expand, &self.expand, id);
        note_tables(&mut out, &self.open);
        note(&mut out, Switch::After, &self.after, id);
        note(&mut out, Switch::Keychain, &self.keychain, id);
        note(&mut out, Switch::Cell, &self.cell, id);
        if self.menu.is_some() {
            note(&mut out, Switch::Sheet, &self.sheet, id);
        } else {
            assert(views(out@) =~= views(out@) + passed_over(Switch::Sheet, None, id));
        }
        note(&mut out, Switch::Menu, &self.menu, id);
        note(&mut out, Switch::Design, &self.design, id);
        out
    }

    /// The switches that are passed over: a value that says nothing is noted
    /// and ignored rather than being allowed to stop a launch.
    pub fn ignored(&self) -> (ignored: Vec<Ignored>)
        ensures
            views(ignored@) == ignored_in(
                *self,
                match self.keychain {
                    Some(text) => uuid_in(text@),
                    None => None,
                },
            ),
    {
        self.ignored_given(self.keychain_id())
    }
}

/// A value that is noted is ignored: whatever the switch would have set stays
/// as it was.
pub proof fn an_ignored_switch_changes_nothing(
    value: String,
    id: Option<u128>,
    sidebar: SidebarTab,
    results: ResultsTab,
    inspector: InspectorTab,
    number: Option<usize>,
    settings: Settings,
    table: Option<(Seq<char>, Seq<char>)>,
    cell: Option<(usize, usize)>,
    demo: Option<((Seq<char>, Seq<char>), Option<ObjectOp>)>,
    design: Option<(Option<(Seq<char>, Seq<char>)>, bool)>,
    sheet: Option<String>,
    preview: bool,
)
    ensures
        says_nothing(Switch::Sidebar, value@, id) ==> sidebar_over(Some(value), sidebar) == sidebar,
        says_nothing(Switch::ResultsTab, value@, id) ==> results_over(Some(value), results)
            == results,
        says_nothing(Switch::Inspector, value@, id) ==> inspector_over(Some(value), inspector)
            == inspector,
        says_nothing(Switch::Page, value@, id) ==> number_over(Some(value), number) == number,
        says_nothing(Switch::PageSize, value@, id) ==> page_size_over(Some(value), settings)
            == settings,
        says_nothing(Switch::Expand, value@, id) ==> number_over(Some(value), number) == number,
        says_nothing(Switch::After, value@, id) ==> table_over(Some(value), table) == table,
        says_nothing(Switch::Cell, value@, id) ==> cell_over(Some(value), cell) == cell,
        says_nothing(Switch::Menu, value@, id) ==> demo_over(Some(value), sheet, demo) == demo,
        says_nothing(Switch::Design, value@, id) ==> design_over(Some(value), preview, design)
            == design,
{
}

} // verus!
