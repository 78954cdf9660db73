use tupli::elide::{cut, fit, Measure};

/// Every character one unit wide, so that a test can say "eighteen characters
/// of room" and mean it.
fn fit_in(text: &str, room: usize) -> String {
    let n = text.chars().count() as u64;
    let measure = Measure {
        starts: (0..=n).collect(),
        ends: (0..=n).rev().collect(),
        ellipsis: 1,
    };
    fit(text, room as u64, &measure)
}

#[test]
fn a_name_that_fits_is_left_alone() {
    assert_eq!(fit_in("conversations", 20), "conversations");
    assert_eq!(fit_in("conversations", 13), "conversations");
}

#[test]
fn the_last_word_is_what_survives_a_narrow_panel() {
    assert_eq!(fit_in("conversation_annotations", 18), "conver…annotations");
    assert_eq!(fit_in("kysely_migration_lock", 12), "kysely…lock");
}

#[test]
fn sibling_names_stay_apart() {
    let room = 18;
    let names = [
        "conversation_annotations",
        "conversation_interactions",
        "conversation_messages",
        "conversation_sessions",
    ];
    let fitted: Vec<_> = names.iter().map(|n| fit_in(n, room)).collect();
    let unique: std::collections::HashSet<_> = fitted.iter().collect();
    assert_eq!(unique.len(), names.len(), "{fitted:?}");
}

#[test]
fn a_last_word_too_long_for_the_row_elides_its_own_start() {
    assert_eq!(fit_in("public_transactions", 8), "…actions");
    assert_eq!(fit_in("public_transactions", 1), "…");
}

#[test]
fn a_name_without_underscores_gives_up_its_middle() {
    assert_eq!(fit_in("abcdefghijkl", 8), "a…ghijkl");
}

#[test]
fn no_room_at_all_is_not_a_panic() {
    assert_eq!(fit_in("conversation_annotations", 0), "…");
    assert_eq!(fit_in("", 0), "");
}

#[test]
fn a_trailing_underscore_is_not_an_empty_last_word() {
    let fitted = fit_in("some_table_name_", 10);
    assert!(fitted.contains('…'), "{fitted}");
    assert!(fitted.ends_with("name_"), "{fitted}");
}

#[test]
fn multibyte_names_are_cut_on_character_boundaries() {
    let fitted = fit_in("ααααβββββ", 5);
    assert!(fitted.contains('…'), "{fitted}");
}

#[test]
fn a_name_is_cut_behind_its_last_underscore() {
    assert_eq!(cut("kysely_migration_lock"), 17);
    assert_eq!(cut("abcdefghijkl"), 6);
    assert_eq!(cut("trailing_"), 4);
    assert_eq!(cut(""), 0);
    // Nine letters of two bytes: the middle byte is inside the fifth.
    assert_eq!(cut("\u{3b1}\u{3b1}\u{3b1}\u{3b1}\u{3b2}\u{3b2}\u{3b2}\u{3b2}\u{3b2}"), 10);
    let name = "r\u{e9}sum\u{e9}_\u{e9}tat";
    assert_eq!(name.split_at(cut(name)), ("r\u{e9}sum\u{e9}_", "\u{e9}tat"));
}

#[test]
fn what_is_drawn_is_never_wider_than_its_room() {
    for text in ["conversation_annotations", "abcdefghijkl", "a_b", "αβγδ_ε", "____"] {
        for room in 1..30 {
            assert!(fit_in(text, room).chars().count() <= room, "{text} in {room}");
        }
    }
}
