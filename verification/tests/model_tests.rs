use agent_kanban::clock::{rfc3339, timestamp_now};
use agent_kanban::model::{
    recover_interrupted_runs, Board, Card, CardStatus, Column, RunRecord, Status,
};
use agent_kanban::text::{
    contains, cursor_at_line_col, first_nonblank_line, insert_char, line_col, parse_u64, remove_char, summarize_output,
    trim, truncate_chars, with_cursor,
};

#[test]
fn prompt_joins_title_and_body() {
    let card = Card::new("Fix login", "Check the session cookie.");
    assert_eq!(card.prompt(), "Fix login\n\nCheck the session cookie.");
}

#[test]
fn prompt_with_blank_parts() {
    assert_eq!(Card::new("  ", " \n").prompt(), "");
    assert_eq!(Card::new(" T ", "").prompt(), "T");
    assert_eq!(Card::new("", "\tB\t").prompt(), "B");
}

#[test]
fn new_card_shape() {
    let card = Card::new("A", "b");
    assert_eq!(card.status, Status::Capture);
    assert_eq!(card.revision_count, 0);
    assert!(card.agent_log.is_empty());
    assert_eq!(card.created_at, card.updated_at);
    let id: Vec<char> = card.id.chars().collect();
    assert_eq!(id.len(), 36);
    assert_eq!(id[8], '-');
    assert_eq!(id[13], '-');
    assert_eq!(id[14], '4');
    assert!("89ab".contains(id[19]));
    assert_ne!(Card::new("A", "b").id, card.id);
    assert!(card.created_at.ends_with('Z'));
    assert_eq!(card.created_at.len(), 20);
}

#[test]
fn log_and_badge() {
    let mut card = Card::new("A", "");
    assert!(card.last_log().is_none());
    assert!(card.rev_badge().is_none());
    card.log("note", "hello", "2024-05-06T07:08:09Z");
    let e = card.last_log().unwrap();
    assert_eq!(e.kind, "note");
    assert_eq!(e.message, "hello");
    assert_eq!(e.at, "2024-05-06T07:08:09Z");
    assert_eq!(card.updated_at, "2024-05-06T07:08:09Z");
    card.revision_count = 12;
    assert_eq!(card.rev_badge().unwrap(), "rev 12");
}

#[test]
fn status_columns_move_one_step() {
    assert_eq!(Status::Capture.saturating_left(), Status::Capture);
    assert_eq!(Status::Capture.saturating_right(), Status::Todo);
    assert_eq!(Status::Todo.saturating_right(), Status::InProgress);
    assert_eq!(Status::Done.saturating_right(), Status::Done);
    assert_eq!(Status::Review.saturating_left(), Status::InProgress);
    let titles: Vec<&str> = Status::ALL.iter().map(|s| s.title()).collect();
    assert_eq!(titles, vec!["Capture", "To Do", "In Progress", "Review", "Done"]);
    for s in Status::ALL {
        if s != Status::Capture {
            assert_eq!(s.saturating_left().saturating_right(), s);
        }
    }
}

#[test]
fn three_column_layout() {
    assert_eq!(Column::from_number(1), Some(Column::Backlog));
    assert_eq!(Column::from_number(3), Some(Column::Done));
    assert_eq!(Column::from_number(0), None);
    assert_eq!(Column::from_number(4), None);
    assert_eq!(Column::Running.index(), 1);
    assert_eq!(Column::from_index(5), Column::Done);
    assert_eq!(Column::Backlog.saturating_prev(), Column::Backlog);
    assert_eq!(Column::Running.saturating_next(), Column::Done);
    assert_eq!(Column::Done.title(), "Done");
    assert_eq!(CardStatus::Success.label(), "ok");
    assert_eq!(CardStatus::Failed.glyph(), "✗");
    assert_eq!(CardStatus::Idle.glyph(), "·");
}

#[test]
fn board_lookup_and_moves() {
    let mut board = Board::default();
    let mut a = Card::new("A", "");
    a.id = "a".to_string();
    let mut b = Card::new("B", "");
    b.id = "b".to_string();
    b.status = Status::Review;
    let mut c = Card::new("C", "");
    c.id = "c".to_string();
    board.add_card(a);
    board.add_card(b);
    board.add_card(c);

    let capture: Vec<&str> = board.cards_in(Status::Capture).iter().map(|c| c.title.as_str()).collect();
    assert_eq!(capture, vec!["A", "C"]);
    let order: Vec<&str> = board.cards_in_board_order().iter().map(|c| c.title.as_str()).collect();
    assert_eq!(order, vec!["A", "C", "B"]);
    assert_eq!(board.get("b").unwrap().title, "B");
    assert!(board.get("zz").is_none());
    assert!(board.move_card("c", Status::Done));
    assert!(!board.move_card("zz", Status::Done));
    assert_eq!(board.get("c").unwrap().status, Status::Done);
    board.get_mut("a").unwrap().title = "A2".to_string();
    assert_eq!(board.cards[0].title, "A2");
    let removed = board.remove_card("b").unwrap();
    assert_eq!(removed.title, "B");
    assert_eq!(board.cards.len(), 2);
    assert!(board.remove_card("b").is_none());
    assert_eq!(board.position("c"), Some(1));
}

#[test]
fn truncation() {
    assert_eq!(truncate_chars("hello", 5), "hello");
    assert_eq!(truncate_chars("hello", 3), "hel…");
    assert_eq!(truncate_chars("héllo", 2), "hé…");
    assert_eq!(truncate_chars("", 0), "");
    assert_eq!(summarize_output("  \n ", 10), "(no output)");
    assert_eq!(summarize_output("  ok  ", 10), "ok");
    assert_eq!(summarize_output(" abcdef ", 3), "abc…");
}

#[test]
fn trimming_uses_unicode_whitespace() {
    assert_eq!(trim("\u{3000} a b \u{85}"), "a b");
    assert_eq!(trim("\u{200b}x"), "\u{200b}x");
    assert_eq!(trim("   "), "");
}

#[test]
fn line_col_helpers() {
    assert_eq!(line_col("ab\ncd", 0), (0, 0));
    assert_eq!(line_col("ab\ncd", 3), (1, 0));
    assert_eq!(cursor_at_line_col("ab\ncd", 1, 1), 4);
    assert_eq!(cursor_at_line_col("ab\ncd", 0, 99), 2);
}

#[test]
fn line_col_edges() {
    assert_eq!(line_col("ab\ncd", 99), (1, 2));
    assert_eq!(line_col("", 5), (0, 0));
    assert_eq!(line_col("a\n", 2), (1, 0));
    assert_eq!(cursor_at_line_col("ab\ncd", 5, 0), 5);
    assert_eq!(cursor_at_line_col("ab\n", 1, 3), 3);
    assert_eq!(cursor_at_line_col("", 0, 0), 0);
}

#[test]
fn cursor_roundtrip_on_values() {
    let text = "first\n\nthird line\nx";
    for c in 0..=text.chars().count() + 2 {
        let (l, col) = line_col(text, c);
        assert_eq!(
            cursor_at_line_col(text, l, col),
            c.min(text.chars().count())
        );
    }
}

#[test]
fn char_edits() {
    let mut s = "héllo".to_string();
    insert_char(&mut s, 1, 'X');
    assert_eq!(s, "hXéllo");
    insert_char(&mut s, 99, '!');
    assert_eq!(s, "hXéllo!");
    remove_char(&mut s, 2);
    assert_eq!(s, "hXllo!");
    remove_char(&mut s, 99);
    assert_eq!(s, "hXllo!");
    assert_eq!(with_cursor("ab", 1, true), "a▏b");
    assert_eq!(with_cursor("ab", 9, true), "ab▏");
    assert_eq!(with_cursor("ab", 0, false), "ab");
}

#[test]
fn searching_and_numbers() {
    assert!(contains("abc", ""));
    assert!(contains("x [stub:fail] y", "[stub:fail]"));
    assert!(!contains("ab", "abc"));
    assert_eq!(parse_u64("42"), Some(42));
    assert_eq!(parse_u64("+7"), Some(7));
    assert_eq!(parse_u64("+"), None);
    assert_eq!(parse_u64(""), None);
    assert_eq!(parse_u64("-1"), None);
    assert_eq!(parse_u64("18446744073709551615"), Some(u64::MAX));
    assert_eq!(parse_u64("18446744073709551616"), None);
    assert_eq!(parse_u64("1a"), None);
}

#[test]
fn rfc3339_dates() {
    assert_eq!(rfc3339(0), "1970-01-01T00:00:00Z");
    assert_eq!(rfc3339(951_782_400), "2000-02-29T00:00:00Z");
    assert_eq!(rfc3339(1_700_000_000), "2023-11-14T22:13:20Z");
    assert_eq!(rfc3339(1_709_251_199), "2024-02-29T23:59:59Z");
    assert_eq!(rfc3339(1_735_689_600), "2025-01-01T00:00:00Z");
    let now = timestamp_now();
    assert_eq!(now.len(), 20);
}

#[test]
fn recover_moves_running_cards_to_done_fail() {
    let mut runs = vec![RunRecord {
        column: Column::Running,
        status: CardStatus::Running,
        last_summary: None,
    }];
    assert_eq!(recover_interrupted_runs(&mut runs), 1);
    let run = &runs[0];
    assert_eq!(run.column, Column::Done);
    assert_eq!(run.status, CardStatus::Failed);
    assert!(run.last_summary.as_deref().unwrap().contains("interrupted"));
}

#[test]
fn recover_leaves_idle_running_column_alone() {
    let mut runs = vec![RunRecord {
        column: Column::Running,
        status: CardStatus::Idle,
        last_summary: None,
    }];
    assert_eq!(recover_interrupted_runs(&mut runs), 0);
    assert_eq!(runs[0].column, Column::Running);
    assert_eq!(runs[0].status, CardStatus::Idle);
}

#[test]
fn recover_keeps_a_real_summary_and_replaces_a_blank_one() {
    let mut runs = vec![
        RunRecord {
            column: Column::Running,
            status: CardStatus::Running,
            last_summary: Some("half done".to_string()),
        },
        RunRecord {
            column: Column::Running,
            status: CardStatus::Running,
            last_summary: Some("  \n ".to_string()),
        },
        RunRecord {
            column: Column::Done,
            status: CardStatus::Success,
            last_summary: Some("ok".to_string()),
        },
    ];
    assert_eq!(recover_interrupted_runs(&mut runs), 2);
    assert_eq!(runs[0].last_summary.as_deref(), Some("half done"));
    assert_eq!(
        runs[1].last_summary.as_deref(),
        Some("Run interrupted (app quit or crashed).")
    );
    assert_eq!(runs[2].status, CardStatus::Success);
    assert_eq!(runs[2].last_summary.as_deref(), Some("ok"));
    assert_eq!(recover_interrupted_runs(&mut runs), 0);
}

#[test]
fn summary_preview_takes_first_nonblank_line() {
    let mut run = RunRecord {
        column: Column::Done,
        status: CardStatus::Success,
        last_summary: None,
    };
    assert_eq!(run.summary_preview(10), "");
    run.last_summary = Some("\n   \n  patched the login flow  \nsecond line".to_string());
    assert_eq!(run.summary_preview(100), "patched the login flow");
    assert_eq!(run.summary_preview(7), "patched…");
    run.last_summary = Some(" \n\t\n".to_string());
    assert_eq!(run.summary_preview(5), "");
    assert_eq!(first_nonblank_line("a\r\nb"), "a");
}
