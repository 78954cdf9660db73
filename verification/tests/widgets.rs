use tupli::assets::{bundled_themes, Assets};
use tupli::badge::{Badge, BadgeStyle, BadgeTone, Tinted};
use tupli::button::{Button, ButtonSize, ButtonVariant};
use tupli::catalog::{Capabilities, ConnectionConfig, SafetyLevel};
use tupli::chrome::{
    Axis, Cursor, Divider, EmptyState, ResizeHandle, SectionHeader, Toolbar,
};
use tupli::dragging::{DragTarget, PanelMetrics, Panels, Spot};
use tupli::history::{
    render_history, render_history_aside, scope_at, shown_entries, HistoryEntry, HistoryLine,
    HistoryList, HistoryScope, Outcome,
};
use tupli::elide::ElidedLabel;
use tupli::icon::{Icon, IconColor, IconName, IconSize, Paint};
use tupli::menu::{ContextMenu, MenuItem};
use tupli::label::{Elide, Label, LabelSize, Weight};
use tupli::list::{Affordance, Disclosure, ListItem};
use tupli::select::{outer, Extent, Popup, Segmented};
use tupli::sheet::{FormRow, Notice, NoticeTone, Sheet, SHEET_WIDTH};
use tupli::spinner::{Spinner, PERIOD};
use tupli::styled_ext::{h_flex, v_flex, Direction, StyledExt};
use tupli::tab::{Tab, TabBar, Trailing};
use tupli::tint::{palette, tint, tint_wash, ConnectionColor, Shade};
use tupli::titlebar::{Ground, Titlebar};

#[test]
fn an_icon_is_drawn_in_its_colour() {
    let plain = Icon::new(IconName::Table).render(false);
    assert_eq!((plain.side, plain.primary, plain.duo), (14, Some(Paint::Text), None));
    let duo = Icon::new(IconName::Table).size(IconSize::Large).color(IconColor::Inherit);
    let face = duo.render(true);
    assert_eq!((face.side, face.primary, face.duo), (20, None, Some(Paint::Accent)));
    assert_eq!(duo.duo_color(IconColor::Danger).render(true).duo, Some(Paint::Danger));
    assert_eq!(duo.duo_color(IconColor::Inherit).render(true).duo, Some(Paint::Accent));
    assert_eq!(duo.flat().render(true).duo, None);
}

#[test]
fn a_spinner_turns_in_its_own_time() {
    let face = Spinner::new().render();
    assert_eq!((face.glyph, face.side, face.period), (IconName::Loader, 14, PERIOD));
    assert_eq!(face.paint, Some(Paint::TextMuted));
    let loud = Spinner::new().size(IconSize::Medium).color(IconColor::Accent).render();
    assert_eq!((loud.side, loud.paint), (16, Some(Paint::Accent)));
}

#[test]
fn a_button_that_is_off_says_so_and_does_nothing() {
    let on = Button::new("Save").variant(ButtonVariant::Accent).size(ButtonSize::Large).render();
    assert!(on.live);
    assert_eq!((on.icon, on.label.as_deref(), on.trailing_icon), (None, Some("Save"), None));
    assert_eq!((on.height, on.padding, on.width), (32, 14, None));
    assert_eq!(on.skin.bg, Some(Paint::Accent));
    let off = Button::new("Save")
        .variant(ButtonVariant::Accent)
        .content_color(IconColor::Danger)
        .disabled(true)
        .render();
    assert!(!off.live);
    assert_eq!(off.skin.bg, Some(Paint::Surface));
    assert_eq!(off.skin.border, Some(Paint::Border));
    assert_eq!(off.skin.content, IconColor::Disabled);
}

#[test]
fn an_icon_button_is_square() {
    let face = Button::icon(IconName::Plus).render();
    assert_eq!((face.icon, face.label.as_deref()), (Some(IconName::Plus), None));
    assert_eq!((face.width, face.padding), (Some(24), 0));
    assert_eq!(face.skin.content, IconColor::Muted);
    let wide = Button::icon(IconName::Plus).full_width().render();
    assert_eq!(wide.width, None);
    let lit = Button::new("x").selected(true).render();
    assert_eq!(lit.skin.bg, Some(Paint::Active));
    let iconed = Button::new("x").start_icon(IconName::Plus).end_icon(IconName::Check);
    assert_eq!((iconed.icon, iconed.trailing_icon), (Some(IconName::Plus), Some(IconName::Check)));
    let face = iconed.label("y").render();
    assert_eq!(face.label.as_deref(), Some("y"));
    assert_eq!((face.icon, face.trailing_icon), (Some(IconName::Plus), Some(IconName::Check)));
}

#[test]
fn a_label_is_cut_unless_it_wraps() {
    let face = Label::new("name").render();
    assert_eq!((face.size, face.paint, face.weight), (LabelSize::Default, Some(Paint::Text), Weight::Normal));
    assert_eq!(face.cut, Some(Elide::End));
    assert_eq!(Label::new("name").elide_start().render().cut, Some(Elide::Start));
    assert_eq!(Label::new("name").wrap().render().cut, None);
    let code = Label::new("1").mono().strong().muted().size(LabelSize::Code).render();
    assert!(code.mono);
    assert_eq!((code.weight, code.paint), (Weight::Semibold, Some(Paint::TextMuted)));
}

#[test]
fn a_badge_is_tinted_in_its_tone() {
    let soft = Badge::new("pk").tone(BadgeTone::Danger).render();
    assert_eq!(soft.bg, Some(Tinted { paint: Paint::Danger, percent: 16 }));
    assert_eq!((soft.fg, soft.text.as_str()), (Paint::Danger, "pk"));
    let outline = Badge::new("pk").tone(BadgeTone::Success).kind(BadgeStyle::Outline).render();
    assert_eq!(outline.border, Some(Tinted { paint: Paint::Success, percent: 45 }));
    let solid = Badge::new("pk").kind(BadgeStyle::Solid).render();
    assert_eq!(solid.fg, Paint::TextOnAccent);
}

#[test]
fn a_badge_in_capitals_is_written_in_capitals() {
    assert_eq!(Badge::new("straße").caps().render().text, "STRASSE");
    assert_eq!(SectionHeader::new("Roles").render(), "ROLES");
}

#[test]
fn a_selected_row_does_not_hover() {
    let row = ListItem::new("users").icon(IconName::Table).icon_color(IconColor::Warning);
    let face = row.render();
    assert!(face.hovers && face.bg.is_none());
    assert_eq!(face.icon, Some((IconName::Table, IconColor::Warning)));
    assert_eq!(face.affordance, Affordance::Nothing);
    let lit = row.selected(true).disclosure(Disclosure::Expanded).render();
    assert_eq!(lit.bg, Some(Paint::Selected));
    assert_eq!(lit.icon, Some((IconName::Table, IconColor::Default)));
    assert_eq!(lit.affordance, Affordance::Glyph(IconName::ChevronDown));
    let away = ListItem::new("x").selected(true).inactive(true).disclosure(Disclosure::Leaf);
    assert_eq!(away.render().bg, Some(Paint::SelectedInactive));
    assert_eq!(away.render().affordance, Affordance::Room);
    let full = ListItem::new("x").meta("12k").indent(3).mono().elide_middle();
    assert_eq!((full.meta.as_deref(), full.indent, full.mono), (Some("12k"), 3, true));
}

#[test]
fn a_tab_shows_the_pin_before_the_dot() {
    let tab = Tab::new("q").dirty(true).closable(true).pinned(true).active(true);
    assert_eq!(tab.render().trailing, Trailing::Pin(IconColor::Muted));
    let dirty = Tab::new("q").dirty(true).closable(true);
    assert_eq!(dirty.render().trailing, Trailing::Dot(Paint::TextSubtle));
    assert_eq!(Tab::new("q").closable(true).render().trailing, Trailing::Close);
    assert_eq!(Tab::new("q").closable(false).render().trailing, Trailing::Nothing);
    assert_eq!(Tab::new("q").active(true).render().bg, Some(Paint::TabActive));
}

#[test]
fn a_strip_has_no_seam_at_its_ends() {
    let bar = TabBar::new().tab(Tab::new("a").active(true)).tab(Tab::new("b"));
    let face = bar.render(28);
    assert_eq!((face.height, face.top_line), (28, true));
    assert!(!face.tabs[0].left_seam);
    assert!(face.tabs[0].right_seam);
    assert!(!face.tabs[1].left_seam && !face.tabs[1].right_seam);
    let stacked = TabBar::new().tab(Tab::new("a").active(true)).tab(Tab::new("b")).stacked();
    let face = stacked.render(28);
    assert!(face.seam_over && !face.tabs[0].right_seam);
    let nested = TabBar::new().nested().render(28);
    assert_eq!((nested.height, nested.top_line), (27, false));
}

#[test]
fn a_wrong_row_says_what_is_wrong_instead_of_its_hint() {
    let row = FormRow::new("Host").hint("localhost");
    let (text, _) = row.note().expect("the hint");
    assert_eq!(text, "localhost");
    let (text, color) = row.error("no such host").note().expect("the error");
    assert_eq!((text.as_str(), color), ("no such host", IconColor::Custom(Paint::Danger)));
    assert!(FormRow::new("Host").plain().note().is_none());
}

#[test]
fn a_sheet_has_a_footer_when_something_is_in_it() {
    let mut sheet = Sheet::new("Save").subtitle("2 statements");
    assert_eq!(sheet.width, SHEET_WIDTH);
    assert!(!sheet.has_footer());
    sheet.footer_end = 1;
    assert!(sheet.has_footer());
    assert_eq!(sheet.width(600).width, 600);
    let face = Notice::new(NoticeTone::Danger, "gone").detail("for good").render();
    assert_eq!((face.ink, face.wash), (Paint::Danger, Paint::DangerWash));
    assert_ne!(Notice::new(NoticeTone::Info, "x").render().icon, face.icon);
}

#[test]
fn a_handle_shows_which_way_it_moves() {
    let (paint, cursor) = ResizeHandle::new(Axis::Vertical).active(true).render();
    assert_eq!((paint, cursor), (Paint::Accent, Cursor::LeftRight));
    let (paint, cursor) = ResizeHandle::new(Axis::Horizontal).invisible_line().render();
    assert_eq!((paint, cursor), (Paint::Transparent, Cursor::UpDown));
    assert_eq!(Divider::horizontal().inset(8).inset, 8);
    assert_eq!(Divider::vertical().axis, Axis::Vertical);
    assert!(Toolbar::new().bordered);
    assert!(!Toolbar::new().borderless().bordered);
    assert!(Toolbar::new().transparent().transparent);
    assert!(!SectionHeader::new("x").flush().inset);
}

#[test]
fn one_segment_is_lit() {
    let control = Segmented::new(vec!["a".to_string(), "b".to_string(), "c".to_string()]);
    let lit: Vec<bool> = control.selected(1).render().iter().map(|s| s.bg.is_some()).collect();
    assert_eq!(lit, [false, true, false]);
    let popup = Popup::new("Menlo").render();
    assert_ne!(popup.ink, Popup::new("Menlo").disabled(true).render().ink);
    assert_eq!(
        outer(Extent { x: 10, y: 20, width: 30, height: 40 }),
        Extent { x: 9, y: 19, width: 32, height: 42 }
    );
}

#[test]
fn a_row_and_a_column_are_told_apart() {
    let row = h_flex();
    assert!(row.flex && row.centered);
    assert_eq!(row.direction, Some(Direction::Row));
    let column = v_flex();
    assert_eq!(column.direction, Some(Direction::Column));
    assert_eq!(row.when_true(true, |l| l.v_flex()).direction, Some(Direction::Column));
    assert_eq!(row.when_true(false, |l| l.v_flex()), row);
}

#[test]
fn bundled_files_are_found_by_their_paths() {
    let assets = Assets {
        paths: ["icons/a.svg", "themes/x.json", "themes/y.txt"].iter().map(|p| p.to_string()).collect(),
    };
    assert_eq!(assets.list("themes/"), ["themes/x.json", "themes/y.txt"]);
    assert!(assets.list("fonts/").is_empty());
    let themes = bundled_themes(vec![
        ("icons/a.svg".to_string(), vec![1]),
        ("themes/x.json".to_string(), vec![2]),
        ("themes/y.txt".to_string(), vec![3]),
    ]);
    assert_eq!(themes, [("themes/x.json".to_string(), vec![2])]);
}

#[test]
fn a_tag_is_washed_out_over_a_large_area() {
    let red = Shade { hue: 2, saturation: 72, lightness: 62, alpha: 100 };
    assert_eq!(tint(ConnectionColor::Red, true), Some(red));
    assert_eq!(tint_wash(ConnectionColor::Red, true), Some(Shade { alpha: 20, ..red }));
    assert_eq!(
        tint_wash(ConnectionColor::Red, false),
        Some(Shade { lightness: 50, alpha: 14, ..red })
    );
    assert_eq!(tint(ConnectionColor::Untagged, true), None);
    let colours = palette();
    assert_eq!(colours.len(), 9);
    for (i, a) in colours.iter().enumerate() {
        for b in &colours[i + 1..] {
            assert_ne!(tint(*a, true), tint(*b, true));
        }
    }
}

fn panels() -> Panels {
    Panels {
        left_width: 240,
        right_width: 300,
        dock_height: 200,
        narrowest: 160,
        widest: 480,
        lowest: 100,
        highest: 600,
        drag: None,
    }
}

#[test]
fn a_drag_moves_one_seam_and_no_further_than_it_may() {
    let mut panels = panels();
    panels.begin_drag(DragTarget::LeftPanel, Spot { x: 240, y: 0 });
    assert!(panels.dragging(DragTarget::LeftPanel));
    assert_eq!(panels.current_drag_target(), Some(DragTarget::LeftPanel));
    panels.update_drag(Spot { x: 300, y: 0 });
    assert_eq!(panels.left_width, 300);
    panels.update_drag(Spot { x: 2000, y: 0 });
    assert_eq!(panels.left_width, 480);
    panels.update_drag(Spot { x: 240, y: 0 });
    assert_eq!(panels.left_width, 240, "coming back undoes it");
    assert!(panels.end_drag());
    assert!(!panels.end_drag());
    panels.begin_drag(DragTarget::BottomDock, Spot { x: 0, y: 500 });
    panels.update_drag(Spot { x: 0, y: 450 });
    assert_eq!(panels.dock_height, 250);
    assert!(panels.shield_moved(Spot { x: 0, y: 450 }, false), "a button let go elsewhere");
    assert_eq!(panels.drag, None);
    panels.begin_drag(DragTarget::RightPanel, Spot { x: 900, y: 0 });
    assert!(!panels.shield_moved(Spot { x: 880, y: 0 }, true));
    assert_eq!(panels.right_width, 320);
}

#[test]
fn the_titlebar_says_where_it_is_and_lights_up_when_it_is_nowhere() {
    let face = Titlebar::new("local".to_string())
        .database("app".to_string())
        .sidebar(Some(240))
        .vibrant(true)
        .panels(true, false, false)
        .connected(false)
        .render();
    assert!(face.dot);
    assert_eq!(face.path, ["local", "app"]);
    assert_eq!(face.ground, [Ground::Sidebar { width: 240, vibrant: true }, Ground::Page]);
    let ids: Vec<_> = face.right.iter().map(|c| c.id.as_str()).collect();
    assert_eq!(ids, ["toggle-left-panel", "toggle-bottom-dock", "toggle-right-panel"]);
    assert!(!Titlebar::new("local".to_string()).render().dot);
}

fn entry(id: i64, started_at: i64, outcome: Outcome) -> HistoryEntry {
    HistoryEntry {
        id,
        connection: Some(1),
        started_at,
        line: format!("select {id}"),
        outcome,
        pending: false,
        took: Some("5 ms".to_string()),
        error: None,
        notices: Vec::new(),
    }
}

fn local() -> ConnectionConfig {
    ConnectionConfig {
        id: 1,
        name: "local".to_string(),
        display_name: "local".to_string(),
        user: "me".to_string(),
        host: "localhost".to_string(),
        port: 5432,
        database: "app".to_string(),
        safety: SafetyLevel::Normal,
        capabilities: Capabilities::postgres(),
    }
}

#[test]
fn the_history_is_headed_by_its_days() {
    let day = 86_400_000;
    let list = vec![
        entry(3, 10 * day + 5, Outcome::Done),
        entry(2, 10 * day + 1, Outcome::Failed),
        entry(1, 9 * day, Outcome::Done),
    ];
    let drawn =
        render_history(&list, HistoryScope::Everything, &Vec::new(), &vec![local()], 10 * day + 9, 0);
    let lines = match drawn {
        HistoryList::Lines(lines) => lines,
        HistoryList::Empty(..) => panic!("there is history"),
    };
    let headings: Vec<_> = lines
        .iter()
        .filter_map(|line| match line {
            HistoryLine::Heading(text) => Some(text.as_str()),
            _ => None,
        })
        .collect();
    assert_eq!(headings, ["Today", "Yesterday"]);
    let entries: Vec<_> = lines
        .iter()
        .filter_map(|line| match line {
            HistoryLine::Entry(at, ..) => Some(*at),
            _ => None,
        })
        .collect();
    assert_eq!(entries, [0, 1, 2]);
}

#[test]
fn a_window_shows_what_it_ran_itself() {
    let list = vec![entry(3, 3, Outcome::Done), entry(2, 2, Outcome::Done)];
    assert_eq!(shown_entries(&list, HistoryScope::Everything, &vec![2]), [0, 1]);
    assert_eq!(shown_entries(&list, HistoryScope::ThisWindow, &vec![2]), [1]);
    let drawn = render_history(&list, HistoryScope::ThisWindow, &Vec::new(), &Vec::new(), 9, 0);
    assert!(matches!(drawn, HistoryList::Empty(..)));
    assert_ne!(scope_at(0), scope_at(1));
    let mut failed = entry(1, 1, Outcome::Failed);
    failed.error = Some("syntax error".to_string());
    let aside = render_history_aside(&failed, &vec![local()], true);
    assert!(aside.iter().any(|line| matches!(
        line,
        HistoryLine::Aside(text, _) if text.contains("syntax error")
    )));
}

#[test]
fn an_empty_region_offers_what_would_fill_it() {
    let state = EmptyState::new(IconName::Plug, "No connections").description("x").action("Add");
    assert_eq!(state.title, "No connections");
    assert_eq!((state.description.as_deref(), state.action.as_deref()), (Some("x"), Some("Add")));
}

#[test]
fn a_label_is_set_in_the_code_face_where_that_is_asked_for() {
    let label = ElidedLabel::new("users").size(LabelSize::Small).color(IconColor::Muted);
    assert!(!label.mono);
    assert!(label.when_mono(true).when_mono(false).mono);
    assert!(!ElidedLabel::new("users").when_mono(false).mono);
}

#[test]
fn rows_and_tabs_are_added_in_order() {
    let menu = ContextMenu::new()
        .item(MenuItem::new("a"))
        .items(vec![MenuItem::new("b"), MenuItem::new("c")])
        .items(Vec::new());
    assert_eq!(menu.entries.len(), 3);
    let bar = TabBar::new().tab(Tab::new("a")).tabs(vec![Tab::new("b"), Tab::new("c")]);
    let labels: Vec<_> = bar.tabs.iter().map(|tab| tab.label.as_str()).collect();
    assert_eq!(labels, ["a", "b", "c"]);
}

#[test]
fn a_seam_stops_where_its_region_may_go_no_further() {
    let metrics =
        PanelMetrics { panel_default_width: 240, panel_min_width: 160, dock_default_height: 260 };
    let mut panels = Panels::new(None, None, Some(400), metrics);
    assert_eq!((panels.left_width, panels.right_width, panels.dock_height), (240, 300, 400));
    panels.begin_drag(DragTarget::LeftPanel, Spot { x: 240, y: 0 });
    panels.update_drag(Spot { x: 5000, y: 0 });
    assert_eq!(panels.left_width, 640);
    panels.update_drag(Spot { x: 0, y: 0 });
    assert_eq!(panels.left_width, 160);
    panels.begin_drag(DragTarget::BottomDock, Spot { x: 0, y: 500 });
    panels.update_drag(Spot { x: 0, y: -5000 });
    assert_eq!(panels.dock_height, 900);
    panels.update_drag(Spot { x: 0, y: 5000 });
    assert_eq!(panels.dock_height, 90);
}

#[test]
fn a_strip_without_a_band_has_no_height() {
    assert_eq!(TabBar::new().render(0).height, 0);
    assert_eq!(TabBar::new().nested().render(1).height, 0);
}
