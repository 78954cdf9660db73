use tupli::icon::{IconColor, IconName};
use tupli::menu::{
    place, tidy, ContextMenu, Entry, Ink, MenuItem, RowFace, ITEM_HEIGHT, MARGIN, MENU_WIDTH,
    PADDING_Y, SEPARATOR_HEIGHT,
};

fn kinds(entries: &[Entry]) -> Vec<&'static str> {
    entries
        .iter()
        .map(|entry| match entry {
            Entry::Item(_) => "item",
            Entry::Separator => "sep",
        })
        .collect()
}

#[test]
fn separators_that_separate_nothing_are_dropped() {
    let entries = vec![
        Entry::Separator,
        Entry::Item(MenuItem::new("Open")),
        Entry::Separator,
        Entry::Separator,
        Entry::Item(MenuItem::new("Drop")),
        Entry::Separator,
    ];
    assert_eq!(kinds(&tidy(entries)), vec!["item", "sep", "item"]);
}

#[test]
fn a_menu_of_nothing_but_separators_is_empty() {
    assert!(tidy(vec![Entry::Separator, Entry::Separator]).is_empty());
}

#[test]
fn height_counts_every_row_and_the_padding() {
    let menu = ContextMenu::new().item(MenuItem::new("a")).separator().item(MenuItem::new("b"));
    assert_eq!(menu.height(), ITEM_HEIGHT * 2 + SEPARATOR_HEIGHT + PADDING_Y * 2);
    assert_eq!(menu.height(), 63);
}

#[test]
fn an_empty_menu_is_its_padding() {
    assert_eq!(ContextMenu::new().height(), PADDING_Y * 2);
    assert_eq!(ContextMenu::new().separator().height(), PADDING_Y * 2, "nothing to separate");
}

#[test]
fn a_dangerous_row_is_drawn_as_one_unless_it_is_off() {
    assert_eq!(MenuItem::new("Copy").ink(), Ink::Text);
    assert_eq!(MenuItem::new("Drop").danger().ink(), Ink::Danger);
    assert_eq!(MenuItem::new("Drop").danger().disabled(true).ink(), Ink::Disabled);
    let item = MenuItem::new("Copy").shortcut("c");
    assert_eq!(item.shortcut.as_deref(), Some("c"));
}

#[test]
fn tidying_again_changes_nothing() {
    let once = tidy(vec![
        Entry::Separator,
        Entry::Item(MenuItem::new("a")),
        Entry::Separator,
        Entry::Separator,
        Entry::Item(MenuItem::new("b")),
    ]);
    let before = kinds(&once);
    assert_eq!(kinds(&tidy(once)), before);
}

#[test]
fn a_menu_without_room_opens_on_the_other_side() {
    assert_eq!(place(100, 200, 1000), 100);
    assert_eq!(place(950, 200, 1000), 750);
    assert_eq!(place(150, 200, 300), MARGIN);
    assert_eq!(place(500, 2000, 1000), MARGIN);
}

#[test]
fn a_menu_is_as_tall_as_the_rows_that_are_drawn() {
    let menu = ContextMenu::new()
        .separator()
        .item(MenuItem::new("a"))
        .separator()
        .separator()
        .item(MenuItem::new("b"))
        .separator();
    assert_eq!(menu.height(), ITEM_HEIGHT * 2 + SEPARATOR_HEIGHT + PADDING_Y * 2);
    let face = menu.at((100, 50)).render((1000, 800));
    assert_eq!((face.left, face.top), (100, 50));
    assert_eq!((face.width, face.height), (MENU_WIDTH, 63));
    let drawn: Vec<_> = face
        .rows
        .iter()
        .map(|row| match row {
            RowFace::Item(item) => item.label.as_str(),
            RowFace::Separator => "-",
        })
        .collect();
    assert_eq!(drawn, ["a", "-", "b"]);
}

#[test]
fn a_menu_at_the_corner_opens_away_from_it() {
    let menu = ContextMenu::new().at((990, 790)).width(216).item(MenuItem::new("a"));
    let face = menu.render((1000, 800));
    assert_eq!((face.left, face.top), (990 - 216, 790 - 32));
    assert_eq!(face.width, 216);
}

#[test]
fn an_icon_is_coloured_as_its_row_is() {
    let copy = MenuItem::new("Copy").icon(IconName::Code);
    assert_eq!(copy.icon_color(), IconColor::Muted);
    assert_eq!(MenuItem::new("Drop").danger().icon_color(), IconColor::Danger);
    let off = MenuItem::new("Drop").icon(IconName::Trash).danger().disabled(true);
    assert_eq!(off.icon_color(), IconColor::Disabled);
    let face = ContextMenu::new().item(copy).item(off).render((1000, 800));
    match &face.rows[0] {
        RowFace::Item(item) => {
            assert_eq!(item.icon, Some((IconName::Code, IconColor::Muted)));
            assert_eq!(item.ink, Ink::Text);
            assert!(item.live);
        }
        RowFace::Separator => panic!("a row"),
    }
    match &face.rows[1] {
        RowFace::Item(item) => {
            assert_eq!(item.icon, Some((IconName::Trash, IconColor::Disabled)));
            assert!(!item.live);
        }
        RowFace::Separator => panic!("a row"),
    }
}
