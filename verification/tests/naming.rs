use tupli::browsing::{browse_sql, order_by_clause, tiebreak, Browse};
use tupli::clock::{day_heading, day_of, format_clock};
use tupli::flags::{
    cell_named, chip_named, chips_named, inspector_named, operation_named, operator_named,
    results_named, sidebar_named, split_once, table_named, tables_named,
};
use tupli::keys::segments;
use tupli::naming::{clip, flag_number, parse_number, suggest_name};
use tupli::pane::{Join, ResultsTab};
use tupli::saving::id_for_save;
use tupli::text::{chars_of, push_chars, runs_of, trim, words_of};
use tupli::window::{InspectorTab, ObjectOp, SavedQuery, SidebarTab};
use tupli::wording::{count_of, plural, scanned, short_version, ttl_meta};

#[test]
fn a_count_of_one_is_singular() {
    assert_eq!(count_of(1, "row"), "1 row");
    assert_eq!(count_of(0, "row"), "0 rows");
    assert_eq!(count_of(20_000, "row"), "20,000 rows");
}

#[test]
fn a_noun_ending_in_x_takes_es() {
    assert_eq!(count_of(1, "index"), "1 index");
    assert_eq!(count_of(3, "index"), "3 indexes");
    assert_eq!(count_of(2, "foreign key"), "2 foreign keys");
}

#[test]
fn an_unnamed_query_is_named_after_its_first_words() {
    assert_eq!(
        suggest_name("select id, email\n  from users\n where id = 1"),
        "select id, email from users where"
    );
    assert_eq!(suggest_name("   \n  "), "Untitled query");
}

#[test]
fn a_second_save_under_the_same_name_replaces_the_first() {
    let mine = uuid::Uuid::new_v4().as_u128();
    let theirs = uuid::Uuid::new_v4().as_u128();
    let existing = uuid::Uuid::new_v4().as_u128();
    let saved = vec![SavedQuery {
        id: existing,
        connection: Some(mine),
        name: "Revenue".to_string(),
        sql: "select 1".to_string(),
        updated_at: 0,
    }];
    let fresh = uuid::Uuid::new_v4().as_u128();

    assert_eq!(
        id_for_save(&saved, "Revenue", Some(mine), fresh),
        existing,
        "the same name on the same connection is the same query"
    );
    assert_eq!(
        id_for_save(&saved, "Revenue", Some(theirs), fresh),
        fresh,
        "the same name on another connection is another query"
    );
    assert_eq!(
        id_for_save(&saved, "Revenue", None, fresh),
        fresh,
        "an unattached query does not replace a connection's own"
    );
    assert_eq!(id_for_save(&saved, "Costs", Some(mine), fresh), fresh);
}

#[test]
fn a_statement_that_opens_with_a_comment_is_named_after_it() {
    assert_eq!(
        suggest_name("-- Monthly recurring revenue by plan\nselect 1"),
        "Monthly recurring revenue by plan"
    );
    assert_eq!(
        suggest_name("-- Monthly recurring revenue by plan, current month\nselect 1"),
        "Monthly recurring revenue by plan",
        "the qualifier after the comma is not part of the title"
    );
    assert_eq!(
        suggest_name(&format!("-- {}\nselect 1", "word ".repeat(20))),
        "word word word word word word word word word",
        "a comment that runs on is cut on a word boundary"
    );
}

#[test]
fn the_status_bar_reports_a_version_not_a_package() {
    assert_eq!(short_version("17.9 (Debian 17.9-1.pgdg13+1)"), "17.9");
    assert_eq!(short_version("16.2"), "16.2");
    assert_eq!(
        short_version("something unexpected"),
        "something",
        "a string in an unknown shape still yields its first word"
    );
    assert_eq!(short_version(""), "", "and an empty one stays empty");
}

#[test]
fn a_long_first_line_is_cut_on_a_word() {
    assert_eq!(clip("a short name", 48), "a short name");
    assert_eq!(clip("aaaa bbbb cccc", 8), "aaaa");
    assert_eq!(clip("aaaa bbbb cccc", 9), "aaaa bbbb");
    assert_eq!(clip(",; stops at either end ;,", 48), " stops at either end ");
}

#[test]
fn numbers_are_read_as_they_are_written() {
    assert_eq!(parse_number("42"), Some(42));
    assert_eq!(parse_number("+42"), Some(42));
    assert_eq!(parse_number(""), None);
    assert_eq!(parse_number("-1"), None);
    assert_eq!(parse_number("4 2"), None);
    assert_eq!(parse_number("99999999999999999999999"), None);
    assert_eq!(flag_number("50_000"), Some(50_000));
    assert_eq!(flag_number(" 7 "), None);
    assert_eq!(flag_number("seven"), None);
}

#[test]
fn a_count_takes_the_word_for_it() {
    assert_eq!(plural(1, "table", "tables"), "1 table");
    assert_eq!(plural(0, "table", "tables"), "0 tables");
    assert_eq!(plural(12, "table", "tables"), "12 tables");
}

#[test]
fn a_walk_that_stopped_early_says_so() {
    assert_eq!(scanned(8409, true), "8,409 keys");
    assert_eq!(scanned(1, true), "1 key");
    assert_eq!(scanned(8409, false), "8,409 scanned");
}

#[test]
fn a_key_that_stays_has_no_time_left_to_tell() {
    assert_eq!(ttl_meta(None, &"2m".to_string()), None);
    assert_eq!(ttl_meta(Some(-1), &"2m".to_string()), None);
    assert_eq!(ttl_meta(Some(120), &"2m".to_string()).as_deref(), Some("2m"));
}

#[test]
fn a_key_is_cut_at_its_colons() {
    assert_eq!(segments(b"user:42:name"), ["user", "42", "name"]);
    assert_eq!(segments(b"user::1"), ["user", "", "1"]);
    assert_eq!(segments(b"plain"), ["plain"]);
    assert_eq!(segments(b""), [""]);
    for key in [&b"user:42:name"[..], b"::", b"a:", "\u{e9}:\u{2026}:\u{1f511}".as_bytes()] {
        let pieces = segments(key);
        assert_eq!(pieces.len(), 1 + key.iter().filter(|byte| **byte == b':').count());
        assert!(pieces.iter().all(|piece| !piece.contains(':')));
        assert_eq!(pieces.join(":").as_bytes(), key);
    }
    assert_eq!(segments("caf\u{e9}:1".as_bytes()), ["caf\u{e9}", "1"]);
}

#[test]
fn a_key_that_is_no_text_has_no_segments() {
    assert!(segments(&[0xff, b':', 0xfe]).is_empty());
}

#[test]
fn text_is_put_together_from_its_characters() {
    let chars = chars_of("a\u{e9}\u{1f600}b");
    let mut out = String::from("> ");
    push_chars(&mut out, &chars, 1, 3);
    assert_eq!(out, "> \u{e9}\u{1f600}");
    assert_eq!(trim(" \t x y \n"), "x y");
    assert_eq!(words_of("  one  two\nthree "), ["one", "two", "three"]);
    assert_eq!(runs_of("select (1);", &vec!['(', ';']).concat(), "select1)");
}

#[test]
fn a_clock_is_read_in_the_local_zone() {
    assert_eq!(format_clock(0, 0), "00:00:00");
    assert_eq!(format_clock(3_661_000, 0), "01:01:01");
    assert_eq!(format_clock(0, 3600), "01:00:00");
    assert_eq!(format_clock(0, -1), "23:59:59");
    assert_eq!(day_of(86_400_000, 0), 1);
    assert_eq!(day_of(-1, 0), -1);
}

#[test]
fn a_day_is_named_from_where_it_is_read() {
    assert_eq!(day_heading(10, 10), "Today");
    assert_eq!(day_heading(10, 9), "Yesterday");
    assert_eq!(day_heading(10, 8), "2 days ago");
    assert_eq!(day_heading(10, 4), "6 days ago");
    assert_eq!(day_heading(10, 3), "1 weeks ago");
    assert_eq!(day_heading(30, 2), "4 weeks ago");
}

#[test]
fn a_switch_names_what_it_asks_for() {
    assert_eq!(split_once("a=b=c", '='), Some(("a".to_string(), "b=c".to_string())));
    assert_eq!(split_once("abc", '='), None);
    let table = table_named("public.users").unwrap();
    assert_eq!((table.schema.as_str(), table.name.as_str()), ("public", "users"));
    assert!(table_named("users").is_none());
    let tables = tables_named("public.users,public.orders");
    assert_eq!(tables.len(), 2);
    assert_eq!(tables[1].name, "orders");
    assert_eq!(cell_named("3,4"), Some((3, 4)));
    assert_eq!(cell_named("3"), None);
    assert!(matches!(sidebar_named("history"), Some(SidebarTab::History)));
    assert!(sidebar_named("nowhere").is_none());
    assert!(matches!(results_named("ddl"), Some(ResultsTab::Ddl)));
    assert!(matches!(inspector_named("table"), Some(InspectorTab::Table)));
    assert!(matches!(operation_named("drop"), Some(ObjectOp::Drop)));
    assert!(operation_named("explode").is_none());
}

#[test]
fn a_filter_is_read_from_a_switch() {
    let words: Vec<String> = ["=", "<>", "is null"].iter().map(|w| w.to_string()).collect();
    assert_eq!(operator_named(&words, "<>"), Some(1));
    assert_eq!(operator_named(&words, "~~"), None);
    let chip = chip_named("plan = pro", &words).unwrap();
    assert_eq!((chip.column.as_str(), chip.op, chip.value.as_str()), ("plan", 0, "pro"));
    assert!(matches!(chip.join, Join::And));
    let other = chip_named(" or plan <> free trial ", &words).unwrap();
    assert_eq!((other.column.as_str(), other.op, other.value.as_str()), ("plan", 1, "free trial"));
    assert!(matches!(other.join, Join::Or));
    assert!(chip_named("plan", &words).is_none());
    assert!(chip_named("plan ~~ x", &words).is_none());
    let chips = chips_named("plan = pro, nonsense, or seats <> 3", &words);
    assert_eq!(chips.len(), 2);
    assert_eq!(chips[1].column, "seats");
}

fn users(order: Option<(String, bool)>, key: Vec<String>, predicate: &str) -> Browse {
    Browse {
        schema: "public".to_string(),
        name: "users".to_string(),
        predicate: predicate.to_string(),
        order,
        key,
    }
}

#[test]
fn a_table_is_read_a_page_at_a_time() {
    let key = vec!["id".to_string()];
    assert_eq!(
        browse_sql(&users(None, key.clone(), ""), 0, 1000, false),
        "select * from public.users limit 1000"
    );
    assert_eq!(
        browse_sql(&users(None, key.clone(), " "), 0, 1000, true),
        "select * from public.users order by id asc limit 1000"
    );
    assert_eq!(
        browse_sql(&users(None, key, ""), 2, 1000, true),
        "select * from public.users order by id asc limit 1000 offset 2000"
    );
}

#[test]
fn rows_are_told_apart_by_the_key_after_the_order() {
    let by_plan = Some(("plan".to_string(), true));
    assert_eq!(order_by_clause(&by_plan), " order by plan desc nulls last");
    assert_eq!(order_by_clause(&None), "");
    let key = vec!["tenant".to_string(), "id".to_string()];
    assert_eq!(tiebreak(&key, true), ", tenant asc, id asc");
    assert_eq!(tiebreak(&key, false), " order by tenant asc, id asc");
    assert_eq!(tiebreak(&Vec::new(), true), "");
    assert_eq!(
        browse_sql(&users(by_plan, key, " plan = 'pro' "), 1, 200, true),
        "select * from public.users where plan = 'pro' order by plan desc nulls last, tenant asc, id asc limit 200 offset 200"
    );
}
