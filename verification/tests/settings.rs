use serde_json::Value;
use tupli::catalog::{Capabilities, ConnectionConfig, SafetyLevel};
use tupli::settings::{
    name_of, page_sizes, tab_sizes, Appearance, Density, Settings, DEFAULT_PAGE_SIZE,
    DEFAULT_TAB_SIZE,
};
use tupli::icon::IconName;
use tupli::settings_pages::{
    address_of, advanced, appearance, body, connections, data, display_path, editor,
    filtered_themes, general, matching_themes, shortcuts, thousands, Bound, Control, Page, Places,
    Shelf, Theme,
};
use tupli::settings_window::{Choice, Knob, Pane, Ramp, SettingsWindow};
use tupli::sizes::{mono_sizes, nearest, DEFAULT_MONO_SIZE, FOURTEEN};

fn put<T: Into<Value>>(map: &mut serde_json::Map<String, Value>, name: &str, value: Option<T>) {
    if let Some(value) = value {
        map.insert(name.to_string(), value.into());
    }
}

fn written(settings: &Settings) -> String {
    let mut map = serde_json::Map::new();
    put(&mut map, "appearance", settings.appearance.clone());
    put(&mut map, "dark_theme", settings.dark_theme.clone());
    put(&mut map, "light_theme", settings.light_theme.clone());
    put(&mut map, "mono_family", settings.mono_family.clone());
    put(&mut map, "mono_size", settings.mono_size.map(|bits| f32::from_bits(bits) as f64));
    put(&mut map, "tab_size", settings.tab_size);
    put(&mut map, "row_density", settings.row_density.clone());
    put(&mut map, "line_numbers", settings.line_numbers);
    put(&mut map, "page_size", settings.page_size);
    put(&mut map, "zebra", settings.zebra);
    put(&mut map, "restore_session", settings.restore_session);
    put(&mut map, "reopen_connection", settings.reopen_connection);
    Value::Object(map).to_string()
}

fn read(text: &str) -> Settings {
    let value: Value = serde_json::from_str(text).unwrap();
    let word = |name: &str| value.get(name).and_then(|v| v.as_str()).map(|v| v.to_string());
    let flag = |name: &str| value.get(name).and_then(|v| v.as_bool());
    let count = |name: &str| value.get(name).and_then(|v| v.as_u64()).map(|v| v as usize);
    Settings {
        appearance: word("appearance"),
        dark_theme: word("dark_theme"),
        light_theme: word("light_theme"),
        mono_family: word("mono_family"),
        mono_size: value.get("mono_size").and_then(|v| v.as_f64()).map(|v| (v as f32).to_bits()),
        tab_size: count("tab_size"),
        row_density: word("row_density"),
        line_numbers: flag("line_numbers"),
        page_size: count("page_size"),
        zebra: flag("zebra"),
        restore_session: flag("restore_session"),
        reopen_connection: flag("reopen_connection"),
    }
}

fn points(settings: &Settings) -> f32 {
    f32::from_bits(settings.mono_size())
}

#[test]
fn an_appearance_survives_a_round_trip() {
    let mut settings = Settings::default();
    settings.set_appearance(Appearance::Light);
    let back = read(&written(&settings));
    assert_eq!(back.appearance(), Some(Appearance::Light));
}

#[test]
fn a_theme_this_build_does_not_have_is_not_an_error() {
    let settings = read(r#"{"appearance":"solarized"}"#);
    assert_eq!(settings.appearance(), None);
}

#[test]
fn settings_from_an_older_build_still_load() {
    let settings = read("{}");
    assert_eq!(settings.appearance(), None);
    assert_eq!(settings.mono_size(), DEFAULT_MONO_SIZE);
    assert_eq!(settings.page_size(), DEFAULT_PAGE_SIZE);
    assert!(settings.restore_session());
}

#[test]
fn a_setting_this_build_no_longer_has_is_ignored() {
    let settings = read(r#"{"accent":"chartreuse"}"#);
    assert_eq!(written(&settings), written(&Settings::default()));
}

#[test]
fn a_size_the_ramp_does_not_have_snaps_to_the_nearest_one() {
    let settings = read(r#"{"mono_size":13.6}"#);
    assert_eq!(points(&settings), 14.);
    let settings = read(r#"{"mono_size":1.0}"#);
    assert_eq!(points(&settings), 11.);
}

#[test]
fn a_page_size_from_nowhere_is_ignored() {
    let settings = read(r#"{"page_size":7}"#);
    assert_eq!(settings.page_size(), DEFAULT_PAGE_SIZE);
}

#[test]
fn every_knob_survives_a_round_trip() {
    let mut settings = Settings::default();
    settings.set_appearance(Appearance::Dark);
    settings.set_mono_family("Menlo");
    settings.set_mono_size(14f32.to_bits());
    settings.set_tab_size(2);
    settings.set_row_density(Density::Comfortable);
    settings.set_page_size(1_000);
    settings.set_line_numbers(false);
    settings.set_zebra(false);
    settings.set_restore_session(false);
    settings.set_reopen_connection(false);

    let back = read(&written(&settings));
    assert_eq!(written(&back), written(&settings));
    assert_eq!(back.mono_family(), "Menlo");
    assert_eq!(points(&back), 14.);
    assert_eq!(back.tab_size(), 2);
    assert_eq!(back.row_density(), Density::Comfortable);
    assert_eq!(back.page_size(), 1_000);
    assert!(!back.line_numbers());
    assert!(!back.zebra());
    assert!(!back.restore_session());
    assert!(!back.reopen_connection());
}

#[test]
fn a_size_prints_without_a_trailing_zero() {
    let sections = editor(&Settings::default(), &Vec::new(), "Menlo");
    let labels = sections
        .iter()
        .flat_map(|section| section.lines.iter())
        .find_map(|line| match &line.control {
            Control::Segments(Ramp::MonoSize, labels, _) => Some(labels.clone()),
            _ => None,
        })
        .expect("the sizes");
    let sizes: Vec<f32> = mono_sizes().iter().map(|bits| f32::from_bits(*bits)).collect();
    let of = |points: f32| labels[sizes.iter().position(|size| *size == points).unwrap()].clone();
    assert_eq!(of(14.), "14");
    assert_eq!(of(12.5), "12.5");
}

#[test]
fn a_row_count_is_grouped_in_threes() {
    assert_eq!(thousands(1_000), "1\u{2009}000");
    assert_eq!(thousands(50_000), "50\u{2009}000");
    assert_eq!(thousands(200_000), "200\u{2009}000");
    assert_eq!(thousands(7), "7");
}

#[test]
fn a_pane_can_be_found_by_name() {
    assert_eq!(Pane::named("shortcuts"), Some(Pane::Shortcuts));
    assert_eq!(Pane::named("Appearance"), Some(Pane::Appearance));
    assert_eq!(Pane::named("nowhere"), None);
}

#[test]
fn every_pane_has_a_name_and_an_icon() {
    assert_eq!(Pane::all().len(), 7);
    for pane in Pane::all() {
        assert!(!pane.label().is_empty());
        let _ = pane.icon();
    }
}

#[test]
fn a_path_under_home_is_written_with_a_tilde() {
    let home = "/home/someone".to_string();
    let path = format!("{home}/Library/x");
    assert_eq!(display_path(&path, &Some(home)), "~/Library/x");
    assert_eq!(display_path(&path, &None), path);
    assert_eq!(display_path("/var/log", &Some("/home/someone".to_string())), "/var/log");
    assert_eq!(display_path("/home/alice/x", &Some("/home/al".to_string())), "/home/alice/x");
    assert_eq!(display_path("/home/al", &Some("/home/al".to_string())), "~");
}

#[test]
fn a_size_is_never_off_the_ramp() {
    for points in [-4f32, 0., 0.1, 11.4, 11.5, 12.2, 12.3, 13.2, 13.3, 15., 15.1, 99., f32::MAX] {
        assert!(mono_sizes().contains(&nearest(points.to_bits())), "{points}");
    }
    assert_eq!(nearest((-3.5f32).to_bits()), 11f32.to_bits());
    assert_eq!(nearest((-0.0f32).to_bits()), 11f32.to_bits());
    assert_eq!(nearest(12.2f32.to_bits()), 12f32.to_bits());
    assert_eq!(nearest(12.3f32.to_bits()), DEFAULT_MONO_SIZE);
    assert_eq!(nearest(13.3f32.to_bits()), FOURTEEN);
    assert_eq!(nearest(99f32.to_bits()), 16f32.to_bits());
    assert_eq!(nearest(f32::NAN.to_bits()), 11f32.to_bits());
}

#[test]
fn each_appearance_has_a_theme_of_its_own() {
    let mut settings = Settings::default();
    settings.set_theme_name(Appearance::Dark, "Midnight");
    settings.set_theme_name(Appearance::Light, "Paper");
    assert_eq!(settings.theme_name(Appearance::Dark, &None), "Midnight");
    assert_eq!(settings.theme_name(Appearance::Light, &None), "Paper");
    settings.choose_theme("Ink", Appearance::Dark);
    assert_eq!(settings.theme_name(Appearance::Dark, &None), "Ink");
    assert_eq!(settings.theme_name(Appearance::Light, &None), "Paper");
    settings.follow_system();
    assert_eq!(settings.appearance(), None);
    assert_ne!(name_of(Appearance::Dark), name_of(Appearance::Light));
}

#[test]
fn an_unset_knob_is_at_its_default() {
    let settings = Settings::default();
    assert_eq!(settings.tab_size(), DEFAULT_TAB_SIZE);
    assert!(tab_sizes().contains(&DEFAULT_TAB_SIZE));
    assert!(page_sizes().contains(&DEFAULT_PAGE_SIZE));
    assert!(settings.line_numbers() && settings.zebra());
    assert!(settings.reopen_connection());
    assert_eq!(settings.row_density(), Density::Default);
}

#[test]
fn a_choice_is_what_the_settings_show() {
    let mut settings = Settings::default();
    settings.take_choice(&Choice::Turn(Knob::Zebra, false), Appearance::Dark);
    assert!(!settings.zebra());
    settings.take_choice(&Choice::Pick(Ramp::TabSize, 0), Appearance::Dark);
    assert_eq!(settings.tab_size(), tab_sizes()[0]);
    settings.take_choice(&Choice::Pick(Ramp::MonoSize, 4), Appearance::Dark);
    assert_eq!(settings.mono_size(), mono_sizes()[4]);
    settings.take_choice(&Choice::Face("Menlo".to_string()), Appearance::Dark);
    assert_eq!(settings.mono_family(), "Menlo");
    settings.take_choice(&Choice::Theme("Paper".to_string(), Appearance::Light), Appearance::Dark);
    assert_eq!(settings.theme_name(Appearance::Light, &None), "Paper");
    settings.take_choice(&Choice::Turn(Knob::MatchSystem, false), Appearance::Light);
    assert_eq!(settings.appearance(), Some(Appearance::Light));
    settings.take_choice(&Choice::Turn(Knob::MatchSystem, true), Appearance::Light);
    assert_eq!(settings.appearance(), None);
}

fn themes() -> Vec<Theme> {
    vec![
        Theme { name: "Midnight".to_string(), appearance: Appearance::Dark },
        Theme { name: "Paper".to_string(), appearance: Appearance::Light },
    ]
}

#[test]
fn themes_are_found_whatever_their_case() {
    let all = filtered_themes(&themes(), "", "Paper");
    assert_eq!(all.len(), 2);
    assert!(!all[0].selected && all[1].selected);
    let some = filtered_themes(&themes(), "MID", "Paper");
    assert_eq!(some.len(), 1);
    assert_eq!(some[0].name, "Midnight");
    let folded = vec!["x".to_string(), "y".to_string()];
    assert_eq!(matching_themes(&themes(), &folded, "y", "Paper")[0].theme, 1);
}

fn config(name: &str) -> ConnectionConfig {
    ConnectionConfig {
        id: 1,
        name: name.to_string(),
        display_name: name.to_string(),
        user: "me".to_string(),
        host: "localhost".to_string(),
        port: 5432,
        database: "app".to_string(),
        safety: SafetyLevel::Normal,
        capabilities: Capabilities::postgres(),
    }
}

fn places() -> Places {
    Places {
        version: "1.2.3".to_string(),
        data: "/home/someone/data".to_string(),
        database: "/home/someone/data/db".to_string(),
        logs: "/var/log".to_string(),
        home: Some("/home/someone".to_string()),
    }
}

fn facts(sections: &[tupli::settings_pages::Section]) -> Vec<String> {
    sections
        .iter()
        .flat_map(|section| section.lines.iter())
        .filter_map(|line| match &line.control {
            Control::Fact(text) => Some(text.clone()),
            _ => None,
        })
        .collect()
}

#[test]
fn what_a_page_lights_is_what_is_in_effect() {
    let mut settings = Settings::default();
    settings.set_page_size(200);
    settings.set_restore_session(false);
    let switches: Vec<(Knob, bool)> = general(&settings)
        .iter()
        .flat_map(|section| section.lines.iter())
        .filter_map(|line| match line.control {
            Control::Switch(knob, on) => Some((knob, on)),
            _ => None,
        })
        .collect();
    assert!(switches.contains(&(Knob::RestoreSession, false)));
    assert!(switches.contains(&(Knob::ReopenConnection, true)));
    let lit = data(&settings)
        .iter()
        .flat_map(|section| section.lines.iter())
        .find_map(|line| match line.control {
            Control::Segments(Ramp::PageSize, _, at) => Some(at),
            _ => None,
        })
        .expect("the page sizes");
    assert_eq!(page_sizes()[lit], settings.page_size());
    assert!(!appearance(&settings, &themes(), "", "Paper").is_empty());
}

#[test]
fn places_are_told_from_home() {
    let page = advanced(&places());
    assert!(facts(&page.sections).contains(&"~/data/db".to_string()));
    assert!(facts(&page.sections).contains(&"/var/log".to_string()));
    assert_eq!(page.sections[0].title, "About");
    assert_eq!(page.note, "Connections, history and saved queries all live in that one file.");
}

#[test]
fn a_connection_is_listed_by_its_address() {
    assert_eq!(address_of(&config("local")), "me@localhost:5432/app");
    let page = connections(&vec![config("local")]);
    assert_eq!(page.rows.len(), 1);
    assert!(page.note.is_none());
    assert_eq!((page.title.as_str(), page.count.as_str()), ("Saved connections", "1"));
    assert_eq!((page.button.label.as_str(), page.button.icon), ("New Connection…", IconName::Plus));
    assert_eq!(
        connections(&Vec::new()).note.as_deref(),
        Some("Nothing saved yet — the first connection you keep shows up here.")
    );
}

#[test]
fn only_bound_commands_are_listed_with_their_keys() {
    let tables = shortcuts(&vec![
        Bound { label: "Run".to_string(), keys: Some("cmd-enter".to_string()) },
        Bound { label: "Format".to_string(), keys: None },
    ]);
    assert_eq!(tables.commands.rows.len(), 1);
    assert_eq!(tables.commands.rows[0].keys, "cmd-enter");
    assert!(!tables.finding.rows.is_empty() && !tables.editing.rows.is_empty());
    let titles = [&tables.finding.title, &tables.commands.title, &tables.editing.title];
    assert_eq!(titles, ["Finding things", "Commands", "Editing"]);
}

#[test]
fn every_pane_has_a_page() {
    let shelf = Shelf {
        settings: Settings::default(),
        themes: themes(),
        on_screen: "Paper".to_string(),
        filter: String::new(),
        installed: vec!["Menlo".to_string()],
        resolved: "Menlo".to_string(),
        connections: vec![config("local")],
        commands: Vec::new(),
        places: places(),
    };
    assert!(matches!(body(Pane::General, &shelf), Page::Sections(_)));
    assert!(matches!(body(Pane::Connections, &shelf), Page::Connections(_)));
    assert!(matches!(body(Pane::Shortcuts, &shelf), Page::Shortcuts(_)));
    assert!(matches!(body(Pane::Advanced, &shelf), Page::Advanced(_)));
}

#[test]
fn the_settings_take_the_keyboard_once() {
    let mut window = SettingsWindow::new();
    assert_eq!(window.pane, Pane::General);
    assert!(window.begin_frame());
    assert!(!window.begin_frame());
    window.show_pane(Pane::Data);
    assert_eq!(window.pane, Pane::Data);
    assert!(window.on_key("escape", false));
    assert!(window.on_key("w", true));
    assert!(!window.on_key("w", false));
}
