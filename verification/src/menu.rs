//! Context menus: their rows, how tall they are, and where they open.
use crate::icon::{IconColor, IconName};
use crate::lists::{group_views, views};
use crate::text::maybe;
use vstd::prelude::*;

verus! {

broadcast use group_views;

/// The height of a row, in points.
pub const ITEM_HEIGHT: u64 = 24;

/// The room above and below the rows.
pub const PADDING_Y: u64 = 4;

/// The height of a hairline between groups.
pub const SEPARATOR_HEIGHT: u64 = 7;

/// How wide a menu is that does not say.
pub const MENU_WIDTH: i64 = 200;

/// How close to the edge of the window a menu may come.
pub const MARGIN: i64 = 6;

/// One row of a menu.
#[derive(Debug)]
pub struct MenuItem {
    pub label: String,
    pub icon: Option<IconName>,
    /// The keystroke that does the same thing. Only ever a reminder.
    pub shortcut: Option<String>,
    /// For the items that destroy something, and only for those.
    pub danger: bool,
    pub disabled: bool,
}

/// One row of a menu, as a value.
#[verifier::ext_equal]
pub struct ItemView {
    pub label: Seq<char>,
    pub icon: Option<IconName>,
    pub shortcut: Option<Seq<char>>,
    pub danger: bool,
    pub disabled: bool,
}

impl View for MenuItem {
    type V = ItemView;

    open spec fn view(&self) -> ItemView {
        ItemView {
            label: self.label@,
            icon: self.icon,
            shortcut: maybe(self.shortcut),
            danger: self.danger,
            disabled: self.disabled,
        }
    }
}

impl MenuItem {
    /// A row that can be chosen.
    pub fn new(label: &str) -> (item: MenuItem)
        ensures
            item@ == plain_item(label@),
    {
        MenuItem {
            label: label.to_owned(),
            icon: None,
            shortcut: None,
            danger: false,
            disabled: false,
        }
    }

    /// With an icon before its label.
    pub fn icon(self, icon: IconName) -> (item: MenuItem)
        ensures
            item@ == (ItemView { icon: Some(icon), ..self@ }),
    {
        MenuItem { icon: Some(icon), ..self }
    }

    /// With the keystroke that does the same thing.
    pub fn shortcut(self, shortcut: &str) -> (item: MenuItem)
        ensures
            item@ == (ItemView { shortcut: Some(shortcut@), ..self@ }),
    {
        MenuItem { shortcut: Some(shortcut.to_owned()), ..self }
    }

    /// As one that destroys something.
    pub fn danger(self) -> (item: MenuItem)
        ensures
            item@ == (ItemView { danger: true, ..self@ }),
    {
        MenuItem { danger: true, ..self }
    }

    /// As one that cannot be chosen.
    pub fn disabled(self, disabled: bool) -> (item: MenuItem)
        ensures
            item@ == (ItemView { disabled, ..self@ }),
    {
        MenuItem { disabled, ..self }
    }

    /// The colour of the row's text.
    pub fn ink(&self) -> (ink: Ink)
        ensures
            ink == ink_of(self@),
    {
        if self.disabled {
            Ink::Disabled
        } else if self.danger {
            Ink::Danger
        } else {
            Ink::Text
        }
    }

    /// The colour of the row's icon.
    pub fn icon_color(&self) -> (color: IconColor)
        ensures
            color == icon_ink(self@),
    {
        if self.disabled {
            IconColor::Disabled
        } else if self.danger {
            IconColor::Danger
        } else {
            IconColor::Muted
        }
    }

    /// The row as it is drawn.
    fn face(self) -> (face: RowFace)
        ensures
            face@ == row_face(EntryView::Item(self@)),
    {
        let ink = self.ink();
        let color = self.icon_color();
        RowFace::Item(
            ItemFace {
                icon: match self.icon {
                    Some(icon) => Some((icon, color)),
                    None => None,
                },
                label: self.label,
                ink,
                shortcut: self.shortcut,
                live: !self.disabled,
            },
        )
    }
}

/// A row that can be chosen, with nothing but its label.
pub open spec fn plain_item(label: Seq<char>) -> ItemView {
    ItemView { label, icon: None, shortcut: None, danger: false, disabled: false }
}

/// The colour of a row's icon: as its text, but quieter where the text is plain.
pub open spec fn icon_ink(item: ItemView) -> IconColor {
    if item.disabled {
        IconColor::Disabled
    } else if item.danger {
        IconColor::Danger
    } else {
        IconColor::Muted
    }
}

/// The colour of a row's text.
#[derive(Clone, Copy, PartialEq, Eq, Structural, Debug)]
pub enum Ink {
    Text,
    Danger,
    Disabled,
}

/// The colour of a row's text: a row that cannot be chosen says so before it
/// says what it would destroy.
pub open spec fn ink_of(item: ItemView) -> Ink {
    if item.disabled {
        Ink::Disabled
    } else if item.danger {
        Ink::Danger
    } else {
        Ink::Text
    }
}

/// A row, or a hairline between two groups of them.
#[derive(Debug)]
pub enum Entry {
    Item(MenuItem),
    Separator,
}

/// A row or a hairline, as a value.
#[verifier::ext_equal]
pub enum EntryView {
    Item(ItemView),
    Separator,
}

impl View for Entry {
    type V = EntryView;

    open spec fn view(&self) -> EntryView {
        match self {
            Entry::Item(item) => EntryView::Item(item@),
            Entry::Separator => EntryView::Separator,
        }
    }
}

/// A row of a menu as it is drawn.
#[derive(Debug)]
pub struct ItemFace {
    pub icon: Option<(IconName, IconColor)>,
    pub label: String,
    pub ink: Ink,
    pub shortcut: Option<String>,
    /// Whether it answers the pointer.
    pub live: bool,
}

/// A row or a hairline as it is drawn.
#[derive(Debug)]
pub enum RowFace {
    Item(ItemFace),
    Separator,
}

/// A row or a hairline as it is drawn, as a value.
#[verifier::ext_equal]
pub enum RowView {
    Item {
        icon: Option<(IconName, IconColor)>,
        label: Seq<char>,
        ink: Ink,
        shortcut: Option<Seq<char>>,
        live: bool,
    },
    Separator,
}

impl View for RowFace {
    type V = RowView;

    open spec fn view(&self) -> RowView {
        match self {
            RowFace::Item(item) => RowView::Item {
                icon: item.icon,
                label: item.label@,
                ink: item.ink,
                shortcut: maybe(item.shortcut),
                live: item.live,
            },
            RowFace::Separator => RowView::Separator,
        }
    }
}

/// What is drawn of an entry.
pub open spec fn row_face(entry: EntryView) -> RowView {
    match entry {
        EntryView::Item(item) => RowView::Item {
            icon: match item.icon {
                Some(icon) => Some((icon, icon_ink(item))),
                None => None,
            },
            label: item.label,
            ink: ink_of(item),
            shortcut: item.shortcut,
            live: !item.disabled,
        },
        EntryView::Separator => RowView::Separator,
    }
}

/// What is drawn of some entries.
pub open spec fn row_faces(entries: Seq<EntryView>) -> Seq<RowView> {
    Seq::new(entries.len(), |i: int| row_face(entries[i]))
}

/// A menu as it is drawn: where it starts, how big it is, and its rows.
#[derive(Debug)]
pub struct MenuFace {
    pub left: i64,
    pub top: i64,
    pub width: i64,
    pub height: i64,
    pub rows: Vec<RowFace>,
}

/// The rows of a menu without the hairlines that separate nothing from what
/// follows, so far.
pub open spec fn gathered(entries: Seq<EntryView>) -> Seq<EntryView>
    decreases entries.len(),
{
    if entries.len() == 0 {
        Seq::empty()
    } else {
        let before = gathered(entries.drop_last());
        if entries.last() is Separator && (before.len() == 0 || before.last() is Separator) {
            before
        } else {
            before.push(entries.last())
        }
    }
}

/// The rows of a menu without leading, trailing and doubled hairlines.
pub open spec fn tidied(entries: Seq<EntryView>) -> Seq<EntryView> {
    let all = gathered(entries);
    if all.len() > 0 && all.last() is Separator {
        all.drop_last()
    } else {
        all
    }
}

/// The rows of a menu, without its hairlines.
pub open spec fn items_of(entries: Seq<EntryView>) -> Seq<EntryView>
    decreases entries.len(),
{
    if entries.len() == 0 {
        Seq::empty()
    } else if entries.last() is Item {
        items_of(entries.drop_last()).push(entries.last())
    } else {
        items_of(entries.drop_last())
    }
}

/// Whether every hairline of a menu separates something.
pub open spec fn is_tidy(entries: Seq<EntryView>) -> bool {
    &&& entries.len() > 0 ==> entries[0] is Item && entries.last() is Item
    &&& forall|i: int, j: int|
        0 <= i < entries.len() && j == i + 1 && j < entries.len() ==> (
        #[trigger] entries[i]) is Item || (#[trigger] entries[j]) is Item
}

/// What is gathered starts with a row, and never has two hairlines together.
proof fn lemma_gathered(entries: Seq<EntryView>)
    ensures
        ({
            let all = gathered(entries);
            &&& all.len() > 0 ==> all[0] is Item
            &&& forall|i: int, j: int|
                0 <= i < all.len() && j == i + 1 && j < all.len() ==> (#[trigger] all[i]) is Item
                    || (#[trigger] all[j]) is Item
            &&& items_of(all) == items_of(entries)
        }),
    decreases entries.len(),
{
    if entries.len() > 0 {
        lemma_gathered(entries.drop_last());
        let before = gathered(entries.drop_last());
        let all = gathered(entries);
        if all != before {
            assert(all.drop_last() =~= before);
        }
    }
}

/// A tidied menu has every row it had, in order, and every hairline in it
/// separates something.
pub proof fn a_tidied_menu_keeps_its_rows(entries: Seq<EntryView>)
    ensures
        is_tidy(tidied(entries)),
        items_of(tidied(entries)) == items_of(entries),
{
    lemma_gathered(entries);
    let all = gathered(entries);
    let out = tidied(entries);
    if all.len() > 0 && all.last() is Separator {
        if all.len() > 1 {
            assert(all[all.len() - 2] is Item || all[all.len() - 1] is Item);
        }
    }
}

/// Gathering a tidy menu changes nothing.
proof fn lemma_gathered_tidy(entries: Seq<EntryView>)
    requires
        entries.len() > 0 ==> entries[0] is Item,
        forall|i: int, j: int|
            0 <= i < entries.len() && j == i + 1 && j < entries.len() ==> (
            #[trigger] entries[i]) is Item || (#[trigger] entries[j]) is Item,
    ensures
        gathered(entries) == entries,
    decreases entries.len(),
{
    if entries.len() > 0 {
        let before = entries.drop_last();
        lemma_gathered_tidy(before);
        if entries.len() > 1 {
            assert(entries[entries.len() - 2] is Item || entries[entries.len() - 1] is Item);
        }
        assert(before.push(entries.last()) =~= entries);
    }
}

/// Tidying a second time changes nothing.
pub proof fn tidying_twice_is_tidying_once(entries: Seq<EntryView>)
    ensures
        tidied(tidied(entries)) == tidied(entries),
{
    a_tidied_menu_keeps_its_rows(entries);
    lemma_gathered_tidy(tidied(entries));
}

/// Drop leading, trailing and doubled hairlines.
pub fn tidy(entries: Vec<Entry>) -> (out: Vec<Entry>)
    ensures
        views(out@) == tidied(views(entries@)),
{
    let ghost all = views(entries@);
    let mut rest = entries;
    let mut out: Vec<Entry> = Vec::new();
    let mut taken: usize = 0;
    let count = rest.len();
    assert(views(out@) =~= gathered(all.take(0)));
    assert(rest@ =~= rest@.skip(0));
    let ghost whole = rest@;
    while rest.len() > 0
        invariant
            taken <= count,
            count == whole.len(),
            all == views(whole),
            rest@ == whole.skip(taken as int),
            views(out@) == gathered(all.take(taken as int)),
        decreases rest@.len(),
    {
        let entry = rest.remove(0);
        assert(entry == whole[taken as int]);
        assert(rest@ =~= whole.skip(taken + 1));
        assert(all.take(taken + 1).drop_last() =~= all.take(taken as int));
        assert(all[taken as int] == entry@);
        let idle = match &entry {
            Entry::Separator => ends_in_separator(&out) || out.len() == 0,
            Entry::Item(_) => false,
        };
        if !idle {
            out.push(entry);
        }
        taken += 1;
    }
    assert(all.take(taken as int) =~= all);
    if ends_in_separator(&out) {
        out.pop();
        assert(views(out@) =~= gathered(all).drop_last());
    }
    out
}

/// Whether the last of some entries is a hairline.
fn ends_in_separator(entries: &Vec<Entry>) -> (answer: bool)
    ensures
        answer == (entries@.len() > 0 && views(entries@).last() is Separator),
{
    if entries.len() == 0 {
        return false;
    }
    assert(views(entries@).last() == entries@.last()@);
    match &entries[entries.len() - 1] {
        Entry::Separator => true,
        Entry::Item(_) => false,
    }
}

/// How tall some entries are together.
pub open spec fn rows_height(entries: Seq<EntryView>) -> nat
    decreases entries.len(),
{
    if entries.len() == 0 {
        0
    } else {
        rows_height(entries.drop_last()) + (if entries.last() is Item {
            ITEM_HEIGHT as nat
        } else {
            SEPARATOR_HEIGHT as nat
        })
    }
}

/// A menu that has been asked for.
#[derive(Debug)]
pub struct ContextMenu {
    /// Where the pointer was when it was asked for.
    pub at: (i64, i64),
    pub entries: Vec<Entry>,
    pub width: i64,
}

impl View for ContextMenu {
    type V = Seq<EntryView>;

    open spec fn view(&self) -> Seq<EntryView> {
        views(self.entries@)
    }
}

impl ContextMenu {
    /// A menu with nothing in it.
    pub fn new() -> (menu: ContextMenu)
        ensures
            menu@ == Seq::<EntryView>::empty(),
            menu.at == (0i64, 0i64),
            menu.width == MENU_WIDTH,
    {
        let menu = ContextMenu { at: (0, 0), entries: Vec::new(), width: MENU_WIDTH };
        assert(menu@ =~= Seq::<EntryView>::empty());
        menu
    }

    /// Where the pointer was when the menu was asked for.
    pub fn at(self, at: (i64, i64)) -> (menu: ContextMenu)
        ensures
            menu == (ContextMenu { at, ..self }),
    {
        ContextMenu { at, ..self }
    }

    /// As wide as that.
    pub fn width(self, width: i64) -> (menu: ContextMenu)
        ensures
            menu == (ContextMenu { width, ..self }),
    {
        ContextMenu { width, ..self }
    }

    /// With one more row.
    pub fn item(self, item: MenuItem) -> (menu: ContextMenu)
        ensures
            menu@ == self@.push(EntryView::Item(item@)),
            menu.at == self.at && menu.width == self.width,
    {
        let mut entries = self.entries;
        entries.push(Entry::Item(item));
        ContextMenu { at: self.at, entries, width: self.width }
    }

    /// With a hairline. Two in a row, or one at either end, are dropped when
    /// the menu is built, so one can be added after a group that turned out to
    /// be empty.
    pub fn separator(self) -> (menu: ContextMenu)
        ensures
            menu@ == self@.push(EntryView::Separator),
            menu.at == self.at && menu.width == self.width,
    {
        let mut entries = self.entries;
        entries.push(Entry::Separator);
        ContextMenu { at: self.at, entries, width: self.width }
    }

    /// With some more rows, which may be none.
    pub fn items(self, items: Vec<MenuItem>) -> (menu: ContextMenu)
        ensures
            menu@ == self@ + Seq::new(items@.len(), |i: int| EntryView::Item(items@[i]@)),
            menu.at == self.at && menu.width == self.width,
    {
        let ghost all = items@;
        let ghost asked = self;
        let ghost had = self@;
        let ghost more = Seq::new(all.len(), |i: int| EntryView::Item(all[i]@));
        let mut menu = self;
        let mut rest = items;
        assert(rest@ =~= all.skip(0));
        assert(menu@ =~= had + more.take(0));
        while rest.len() > 0
            invariant
                rest@.len() <= all.len(),
                rest@ == all.skip(all.len() - rest@.len()),
                more == Seq::new(all.len(), |i: int| EntryView::Item(all[i]@)),
                menu@ == had + more.take(all.len() - rest@.len()),
                menu.at == asked.at && menu.width == asked.width,
            decreases rest@.len(),
        {
            let ghost at = all.len() - rest@.len();
            let item = rest.remove(0);
            assert(item == all[at]);
            menu = menu.item(item);
            assert(rest@ =~= all.skip(at + 1));
            assert(menu@ =~= had + more.take(at + 1));
        }
        assert(more.take(all.len() as int) =~= more);
        menu
    }

    /// How tall the menu will be, without the hairlines that are dropped.
    /// Computed rather than measured, because where it opens has to be decided
    /// before it is laid out.
    pub fn height(&self) -> (height: u64)
        requires
            self@.len() < 0x1_0000_0000,
        ensures
            height == rows_height(tidied(self@)) + 2 * PADDING_Y,
    {
        let ghost all = self@;
        let mut content: u64 = 0;
        let mut some = false;
        let mut hairline = false;
        let mut at: usize = 0;
        assert(all.take(0) =~= Seq::empty());
        while at < self.entries.len()
            invariant
                at <= self.entries@.len(),
                all == views(self.entries@),
                all.len() < 0x1_0000_0000,
                content == rows_height(gathered(all.take(at as int))),
                some == (gathered(all.take(at as int)).len() > 0),
                hairline == (some && gathered(all.take(at as int)).last() is Separator),
                content <= at * 24,
            decreases self.entries@.len() - at,
        {
            let ghost before = gathered(all.take(at as int));
            assert(all.take(at + 1).drop_last() =~= all.take(at as int));
            assert(all.take(at + 1).last() == all[at as int]);
            assert(all[at as int] == self.entries@[at as int]@);
            assert(before.push(all[at as int]).drop_last() =~= before);
            match &self.entries[at] {
                Entry::Item(_) => {
                    content = content + ITEM_HEIGHT;
                    some = true;
                    hairline = false;
                },
                Entry::Separator => {
                    if some && !hairline {
                        content = content + SEPARATOR_HEIGHT;
                        hairline = true;
                    }
                },
            }
            at += 1;
        }
        assert(all.take(at as int) =~= all);
        if hairline {
            content = content - SEPARATOR_HEIGHT;
        }
        content + PADDING_Y * 2
    }

    /// The menu as it is drawn in a window of some size: at the pointer, or on
    /// the other side of it where there is no room, and without the hairlines
    /// that separate nothing.
    pub fn render(self, room: (i64, i64)) -> (face: MenuFace)
        requires
            self@.len() < 0x1_0000_0000,
            -0x4000_0000_0000_0000 < self.at.0 < 0x4000_0000_0000_0000,
            -0x4000_0000_0000_0000 < self.at.1 < 0x4000_0000_0000_0000,
            0 <= self.width < 0x3fff_ffff_ffff_fff0,
        ensures
            face.left == start_of(self.at.0 as int, self.width as int, room.0 as int),
            face.top == start_of(self.at.1 as int, face.height as int, room.1 as int),
            face.width == self.width,
            face.height == rows_height(tidied(self@)) + 2 * PADDING_Y,
            views(face.rows@) == row_faces(tidied(self@)),
    {
        proof {
            lemma_tidied_len(self@);
            lemma_rows_height(tidied(self@));
        }
        let height: i64 = self.height() as i64;
        let left = place(self.at.0, self.width, room.0);
        let top = place(self.at.1, height, room.1);
        let width = self.width;
        let entries = tidy(self.entries);
        let ghost all = views(entries@);
        let ghost kept = entries@;
        let mut rows: Vec<RowFace> = Vec::new();
        for entry in rest: entries
            invariant
                rest.seq() == kept,
                all == views(kept),
                views(rows@) == row_faces(all).take(rest.index() as int),
        {
            let ghost had = views(rows@);
            let ghost at = rest.index() as int;
            assert(entry@ == all[at]);
            rows.push(
                match entry {
                    Entry::Item(item) => item.face(),
                    Entry::Separator => RowFace::Separator,
                },
            );
            assert(row_faces(all).take(at + 1) =~= had.push(row_faces(all)[at]));
        }
        assert(row_faces(all).take(kept.len() as int) =~= row_faces(all));
        MenuFace { left, top, width, height, rows }
    }
}

/// Tidying adds nothing.
proof fn lemma_tidied_len(entries: Seq<EntryView>)
    ensures
        gathered(entries).len() <= entries.len(),
        tidied(entries).len() <= entries.len(),
    decreases entries.len(),
{
    if entries.len() > 0 {
        lemma_tidied_len(entries.drop_last());
    }
}

/// No entry is taller than a row.
proof fn lemma_rows_height(entries: Seq<EntryView>)
    ensures
        rows_height(entries) <= entries.len() * ITEM_HEIGHT,
    decreases entries.len(),
{
    if entries.len() > 0 {
        lemma_rows_height(entries.drop_last());
    }
}

/// Where a menu starts along one side of the window: at the pointer, and on
/// the other side of it where there is no room. Flipped rather than slid: a
/// menu that was slid covers the thing it is about.
pub open spec fn start_of(at: int, extent: int, room: int) -> int {
    if at + extent + MARGIN > room {
        if at - extent > MARGIN {
            at - extent
        } else {
            MARGIN as int
        }
    } else {
        at
    }
}

/// Where a menu starts along one side of the window.
pub fn place(at: i64, extent: i64, room: i64) -> (start: i64)
    requires
        -0x4000_0000_0000_0000 < at < 0x4000_0000_0000_0000,
        0 <= extent < 0x3fff_ffff_ffff_fff0,
    ensures
        start == start_of(at as int, extent as int, room as int),
{
    if at + extent + MARGIN > room {
        if at - extent > MARGIN {
            at - extent
        } else {
            MARGIN
        }
    } else {
        at
    }
}

/// A menu no bigger than the window with its margins opens inside it, wherever
/// in it the pointer is, unless it has to open on both sides of the pointer.
pub proof fn a_menu_opens_inside_the_window(at: int, extent: int, room: int)
    requires
        MARGIN <= at <= room,
        0 <= extent,
        extent + 2 * MARGIN <= room,
    ensures
        MARGIN <= start_of(at, extent, room),
        start_of(at, extent, room) + extent <= room,
{
}

} // verus!
