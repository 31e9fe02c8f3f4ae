use agent_kanban::app::{
    line_col, press, Action, App, EditorCommit, EditorField, EditorState, Key, KeyCode, Mode,
    Polled,
};
use agent_kanban::dispatch::{run_dispatch, DispatchConfig, DispatchOutcome, DispatchPlan};
use agent_kanban::model::{Board, Card, Status};
use agent_kanban::screen::{
    card_line, column_heading, editor_meta, editor_scroll, empty_column_hint, header_tag,
    review_line, status_text,
};

const NOW: &str = "2024-01-01T00:00:00Z";

fn app_in_tmp() -> App {
    let (app, action) = App::load_from(
        Board::default(),
        "board.json",
        DispatchConfig::stub_for_tests("."),
        0,
        NOW,
    );
    assert_eq!(action, Action::Nothing);
    app
}

fn todo_card(title: &str) -> Card {
    let mut card = Card::new(title, "");
    card.status = Status::Todo;
    card.body = "do the work".into();
    card
}

fn ctrl(c: char) -> Key {
    let mut k = press(KeyCode::Char(c));
    k.ctrl = true;
    k
}

/// Runs a key; a quit request is carried out at once, as the event loop does.
fn key(app: &mut App, k: Key) -> Action {
    let a = app.handle_key(k, NOW);
    if a == Action::Quit {
        app.quit(None, NOW);
    }
    a
}

/// The in-process dispatcher: a claimed card's stub outcome arrives on the next wake.
struct Runner {
    pending: Option<DispatchOutcome>,
}

impl Runner {
    fn tick(&mut self, app: &mut App, now_ms: u64) {
        let polled = match self.pending.take() {
            Some(o) => Polled::Outcome(o),
            None => Polled::Empty,
        };
        let (_, claimed) = app.on_tick(polled, now_ms, NOW);
        if let Some(card) = claimed {
            app.dispatch_launched(&card);
            match run_dispatch(&app.dispatch_config, &card) {
                DispatchPlan::Finished(o) => self.pending = Some(o),
                DispatchPlan::Spawn(_) => panic!("stub expected"),
            }
        }
    }

    fn pump(&mut self, app: &mut App) {
        for _ in 0..80 {
            self.tick(app, 0);
            if app.inflight.is_none()
                && !app.board.cards.iter().any(|c| c.status == Status::InProgress)
            {
                return;
            }
        }
        panic!("dispatch still in progress");
    }
}

#[test]
fn n_creates_card_in_capture_and_persists() {
    let mut app = app_in_tmp();
    key(&mut app, press(KeyCode::Char('n')));
    for ch in "Ship it".chars() {
        key(&mut app, press(KeyCode::Char(ch)));
    }
    let a = key(&mut app, press(KeyCode::Enter));
    assert_eq!(a, Action::Save);

    assert_eq!(app.board.cards.len(), 1);
    assert_eq!(app.board.cards[0].title, "Ship it");
    assert_eq!(app.board.cards[0].status, Status::Capture);
    assert!(app.board.cards[0].body.is_empty());
}

#[test]
fn hl_and_arrows_move_card_across_columns() {
    let mut app = app_in_tmp();
    app.board.add_card(Card::new("A", ""));
    app.selected_id = Some(app.board.cards[0].id.clone());

    key(&mut app, press(KeyCode::Char('l')));
    assert_eq!(app.board.cards[0].status, Status::Todo);
    key(&mut app, press(KeyCode::Right));
    assert_eq!(app.board.cards[0].status, Status::InProgress);
    key(&mut app, press(KeyCode::Char('h')));
    assert_eq!(app.board.cards[0].status, Status::Todo);
    key(&mut app, press(KeyCode::Left));
    assert_eq!(app.board.cards[0].status, Status::Capture);
    key(&mut app, press(KeyCode::Char('h')));
    assert_eq!(app.board.cards[0].status, Status::Capture);
}

#[test]
fn enter_opens_fullscreen_editor_and_saves_body() {
    let mut app = app_in_tmp();
    app.board.add_card(Card::new("Title", ""));
    app.selected_id = Some(app.board.cards[0].id.clone());
    key(&mut app, press(KeyCode::Enter));
    assert!(matches!(app.mode, Mode::Editor(_)));
    for ch in "body and context".chars() {
        key(&mut app, press(KeyCode::Char(ch)));
    }
    let a = key(&mut app, ctrl('s'));
    assert_eq!(a, Action::Save);
    assert_eq!(app.board.cards[0].body, "body and context");
}

#[test]
fn editor_up_down_and_ctrl_t_queue_capture_to_todo() {
    let mut app = app_in_tmp();
    let mut card = Card::new("Enrich me", "");
    card.body = "line1\nline2".into();
    app.board.add_card(card);
    app.selected_id = Some(app.board.cards[0].id.clone());
    key(&mut app, press(KeyCode::Enter));
    key(&mut app, press(KeyCode::Up));
    match &app.mode {
        Mode::Editor(state) => {
            assert_eq!(line_col(&state.body, state.cursor), (0, 5));
        }
        _ => panic!("expected editor"),
    }
    key(&mut app, press(KeyCode::Down));
    match &app.mode {
        Mode::Editor(state) => {
            assert_eq!(line_col(&state.body, state.cursor).0, 1);
        }
        _ => panic!("expected editor"),
    }
    key(&mut app, ctrl('t'));
    assert_eq!(app.board.cards[0].status, Status::Todo);
    assert_eq!(app.board.cards[0].last_log().unwrap().kind, "edit");
}

#[test]
fn r_on_non_review_is_noop() {
    let mut app = app_in_tmp();
    app.board.add_card(Card::new("Inbox", ""));
    app.selected_id = Some(app.board.cards[0].id.clone());
    key(&mut app, press(KeyCode::Char('r')));
    assert_eq!(app.board.cards[0].status, Status::Capture);
    assert!(matches!(app.mode, Mode::Board));
    assert_eq!(app.board.cards[0].revision_count, 0);
}

#[test]
fn review_r_accept_moves_to_done() {
    let mut app = app_in_tmp();
    let mut card = Card::new("In review", "");
    card.status = Status::Review;
    app.board.add_card(card);
    app.selected_id = Some(app.board.cards[0].id.clone());
    app.focused = Status::Review;
    key(&mut app, press(KeyCode::Char('r')));
    assert!(matches!(app.mode, Mode::ReviewPrompt { .. }));
    let a = key(&mut app, press(KeyCode::Char('a')));
    assert_eq!(a, Action::Save);
    assert_eq!(app.board.cards[0].status, Status::Done);
    assert_eq!(app.board.cards[0].last_log().unwrap().kind, "accept");
}

#[test]
fn review_r_revise_edits_body_and_returns_to_todo() {
    let mut app = app_in_tmp();
    let mut card = Card::new("Needs work", "");
    card.status = Status::Review;
    card.body = "first pass".into();
    app.board.add_card(card);
    app.selected_id = Some(app.board.cards[0].id.clone());
    app.focused = Status::Review;
    key(&mut app, press(KeyCode::Char('r')));
    key(&mut app, press(KeyCode::Char('v')));
    assert!(matches!(
        app.mode,
        Mode::Editor(EditorState {
            commit: EditorCommit::Revise,
            ..
        })
    ));
    for ch in " — please add tests".chars() {
        key(&mut app, press(KeyCode::Char(ch)));
    }
    key(&mut app, ctrl('s'));
    assert_eq!(app.board.cards[0].status, Status::Todo);
    assert_eq!(app.board.cards[0].revision_count, 1);
    assert!(app.board.cards[0].body.contains("please add tests"));
    assert_eq!(app.board.cards[0].last_log().unwrap().kind, "revise");
    assert!(app.board.cards[0].rev_badge().unwrap().contains("rev 1"));
}

#[test]
fn stub_dispatch_success_moves_todo_to_review_with_log() {
    let mut app = app_in_tmp();
    let mut runner = Runner { pending: None };
    app.board.add_card(todo_card("Implement M2"));
    app.selected_id = Some(app.board.cards[0].id.clone());

    runner.tick(&mut app, 0);
    assert_eq!(app.board.cards[0].status, Status::InProgress);
    assert!(app.inflight.is_some());
    assert_eq!(app.board.cards[0].last_log().unwrap().kind, "dispatch");

    runner.pump(&mut app);
    assert_eq!(app.board.cards[0].status, Status::Review);
    assert_eq!(app.board.cards[0].revision_count, 0);
    assert!(app.board.cards[0].agent_log.iter().any(|e| e.kind == "success"));
    assert!(
        app.board.cards.iter().all(|c| c.status != Status::InProgress),
        "must not leave a card in In Progress"
    );
}

#[test]
fn stub_dispatch_fail_returns_todo_bumps_rev_and_logs_error() {
    let mut app = app_in_tmp();
    let mut runner = Runner { pending: None };
    app.dispatch_config.stub_fail = true;
    app.board.add_card(todo_card("Broken"));
    runner.tick(&mut app, 0);
    assert_eq!(app.board.cards[0].status, Status::InProgress);
    runner.pump(&mut app);
    assert_eq!(app.board.cards[0].status, Status::Todo);
    assert_eq!(app.board.cards[0].revision_count, 1);
    assert!(app.board.cards[0].agent_log.iter().any(|e| e.kind == "error"));
    assert!(app.inflight.is_none());
}

#[test]
fn stub_dispatch_picks_one_todo_at_a_time() {
    let mut app = app_in_tmp();
    let mut runner = Runner { pending: None };
    app.dispatch_config.interval_ms = 3_600_000;
    app.last_dispatch_wake_ms = 0;
    app.board.add_card(todo_card("First"));
    app.board.add_card(todo_card("Second"));

    runner.tick(&mut app, 3_600_000);
    let in_progress: Vec<_> = app
        .board
        .cards
        .iter()
        .filter(|c| c.status == Status::InProgress)
        .collect();
    let todo: Vec<_> = app.board.cards.iter().filter(|c| c.status == Status::Todo).collect();
    assert_eq!(in_progress.len(), 1);
    assert_eq!(todo.len(), 1);
    assert_eq!(in_progress[0].title, "First");
    assert_eq!(todo[0].title, "Second");
}

#[test]
fn failed_card_is_not_immediately_redispatched() {
    let mut app = app_in_tmp();
    let mut runner = Runner { pending: None };
    app.dispatch_config.stub_fail = true;
    app.board.add_card(todo_card("No loop"));
    runner.pump(&mut app);
    assert_eq!(app.board.cards[0].revision_count, 1);
    runner.tick(&mut app, 0);
    runner.tick(&mut app, 0);
    assert!(app.inflight.is_none());
    assert_eq!(app.board.cards[0].status, Status::Todo);
    assert_eq!(app.board.cards[0].revision_count, 1);
}

#[test]
fn quit_does_not_leave_in_progress() {
    let mut app = app_in_tmp();
    let mut runner = Runner { pending: None };
    app.board.add_card(todo_card("Abort me"));
    runner.tick(&mut app, 0);
    assert_eq!(app.board.cards[0].status, Status::InProgress);
    let a = app.handle_key(press(KeyCode::Char('q')), NOW);
    assert_eq!(a, Action::Quit);
    app.quit(runner.pending.take(), NOW);
    assert!(app.should_quit);
    assert_ne!(app.board.cards[0].status, Status::InProgress);
}

#[test]
fn quit_without_an_answer_marks_the_run_interrupted() {
    let mut app = app_in_tmp();
    let mut runner = Runner { pending: None };
    app.board.add_card(todo_card("Slow"));
    runner.tick(&mut app, 0);
    assert_eq!(app.quit(None, NOW), Action::Save);
    assert!(app.should_quit);
    let card = &app.board.cards[0];
    assert_eq!(card.status, Status::Todo);
    assert_eq!(card.revision_count, 1);
    assert_eq!(
        card.last_log().unwrap().message,
        "interrupted on quit: interrupted on quit"
    );
}

#[test]
fn load_reclaims_orphaned_in_progress() {
    let mut board = Board::default();
    let mut card = todo_card("Stuck");
    card.status = Status::InProgress;
    board.add_card(card);
    let (app, action) =
        App::load_from(board, "board.json", DispatchConfig::stub_for_tests("."), 0, NOW);
    assert_eq!(action, Action::Save);
    assert_eq!(app.board.cards[0].status, Status::Todo);
    assert_eq!(app.board.cards[0].revision_count, 1);
    assert_eq!(app.board.cards[0].last_log().unwrap().kind, "error");
}

#[test]
fn quit_saves() {
    let mut app = app_in_tmp();
    app.board.add_card(Card::new("Keep", ""));
    let a = app.handle_key(press(KeyCode::Char('q')), NOW);
    assert_eq!(a, Action::Quit);
    assert_eq!(app.quit(None, NOW), Action::Save);
    assert!(app.should_quit);
    assert_eq!(app.board.cards[0].title, "Keep");
}

#[test]
fn jk_selects_only_within_column() {
    let mut app = app_in_tmp();
    app.board.add_card(Card::new("One", ""));
    app.board.add_card(Card::new("Two", ""));
    let mut other = Card::new("Other col", "");
    other.status = Status::Done;
    app.board.add_card(other);
    app.focused = Status::Capture;
    app.selected_id = Some(app.board.cards[0].id.clone());
    key(&mut app, press(KeyCode::Char('j')));
    assert_eq!(app.selected_id.as_deref(), Some(app.board.cards[1].id.as_str()));
    key(&mut app, press(KeyCode::Char('j')));
    assert_eq!(
        app.selected_id.as_deref(),
        Some(app.board.cards[1].id.as_str()),
        "j must stay in Capture, not jump to Done"
    );
    key(&mut app, press(KeyCode::Char('k')));
    assert_eq!(app.selected_id.as_deref(), Some(app.board.cards[0].id.as_str()));
}

#[test]
fn load_selects_first_capture_card() {
    let mut board = Board::default();
    let mut done = Card::new("Done one", "");
    done.status = Status::Done;
    board.add_card(done);
    board.add_card(Card::new("Captured", ""));
    let (app, action) =
        App::load_from(board, "b.json", DispatchConfig::stub_for_tests("."), 5, NOW);
    assert_eq!(action, Action::Nothing);
    assert_eq!(app.selected_id.as_deref(), Some(app.board.cards[1].id.as_str()));
    assert_eq!(app.focused, Status::Capture);
    assert_eq!(app.last_dispatch_wake_ms, 5);
    assert_eq!(app.board_path, "b.json");
}

#[test]
fn help_and_title_prompt_keys() {
    let mut app = app_in_tmp();
    key(&mut app, press(KeyCode::Char('?')));
    assert!(matches!(app.mode, Mode::Help));
    key(&mut app, press(KeyCode::Esc));
    assert!(matches!(app.mode, Mode::Board));
    key(&mut app, press(KeyCode::Char('n')));
    for ch in "abc".chars() {
        key(&mut app, press(KeyCode::Char(ch)));
    }
    key(&mut app, press(KeyCode::Left));
    key(&mut app, press(KeyCode::Backspace));
    key(&mut app, press(KeyCode::Char('X')));
    match &app.mode {
        Mode::InlineTitle(t) => {
            assert_eq!(t.buffer, "aXc");
            assert_eq!(t.cursor, 2);
        }
        _ => panic!("expected the title prompt"),
    }
    key(&mut app, press(KeyCode::Esc));
    assert!(matches!(app.mode, Mode::Board));
    assert_eq!(app.status_message, "New card cancelled.");
    key(&mut app, press(KeyCode::Char('n')));
    key(&mut app, press(KeyCode::Char(' ')));
    assert_eq!(key(&mut app, press(KeyCode::Enter)), Action::Nothing);
    assert_eq!(app.status_message, "Title is required.");
    assert!(app.board.cards.is_empty());
}

#[test]
fn released_keys_and_ctrl_c() {
    let mut app = app_in_tmp();
    let mut k = press(KeyCode::Char('n'));
    k.press = false;
    assert_eq!(app.handle_key(k, NOW), Action::Nothing);
    assert!(matches!(app.mode, Mode::Board));
    assert_eq!(app.handle_key(ctrl('c'), NOW), Action::Quit);
}

#[test]
fn editor_keys_and_empty_title() {
    let mut app = app_in_tmp();
    app.board.add_card(Card::new("T", ""));
    app.selected_id = Some(app.board.cards[0].id.clone());
    key(&mut app, press(KeyCode::Enter));
    key(&mut app, press(KeyCode::Tab));
    match &app.mode {
        Mode::Editor(s) => {
            assert_eq!(s.field, EditorField::Title);
            assert_eq!(s.cursor, 1);
        }
        _ => panic!("expected editor"),
    }
    key(&mut app, press(KeyCode::Backspace));
    key(&mut app, press(KeyCode::Enter));
    match &app.mode {
        Mode::Editor(s) => {
            assert_eq!(s.title, "");
            assert_eq!(s.field, EditorField::Body);
        }
        _ => panic!("expected editor"),
    }
    assert_eq!(key(&mut app, ctrl('s')), Action::Nothing);
    assert_eq!(app.status_message, "Title is required.");
    assert!(matches!(app.mode, Mode::Editor(_)));
    key(&mut app, press(KeyCode::Esc));
    assert!(matches!(app.mode, Mode::Board));
    assert_eq!(app.board.cards[0].title, "T");
}

#[test]
fn editor_home_end_and_page_moves() {
    let mut app = app_in_tmp();
    let mut card = Card::new("T", "");
    card.body = "abc\nde\nfghij".into();
    app.board.add_card(card);
    app.selected_id = Some(app.board.cards[0].id.clone());
    key(&mut app, press(KeyCode::Enter));
    key(&mut app, press(KeyCode::Home));
    let cur = |app: &App| match &app.mode {
        Mode::Editor(s) => s.cursor,
        _ => usize::MAX,
    };
    assert_eq!(cur(&app), 7);
    key(&mut app, press(KeyCode::PageUp));
    assert_eq!(cur(&app), 0);
    key(&mut app, press(KeyCode::End));
    assert_eq!(cur(&app), 3);
    key(&mut app, press(KeyCode::Down));
    assert_eq!(cur(&app), 6);
    key(&mut app, ctrl('a'));
    assert_eq!(cur(&app), 0);
    key(&mut app, ctrl('e'));
    assert_eq!(cur(&app), 12);
    key(&mut app, press(KeyCode::Delete));
    key(&mut app, press(KeyCode::Left));
    key(&mut app, press(KeyCode::Delete));
    match &app.mode {
        Mode::Editor(s) => assert_eq!(s.body, "abc\nde\nfghi"),
        _ => panic!("expected editor"),
    }
}

#[test]
fn persist_reports_failures() {
    let mut app = app_in_tmp();
    app.persist(Ok(()));
    assert_eq!(app.status_message, "");
    app.persist(Err("disk full".to_string()));
    assert_eq!(app.status_message, "save failed: disk full");
}

#[test]
fn move_and_edit_end_cooldown() {
    let mut app = app_in_tmp();
    let mut runner = Runner { pending: None };
    app.dispatch_config.stub_fail = true;
    app.board.add_card(todo_card("Flaky"));
    app.selected_id = Some(app.board.cards[0].id.clone());
    runner.pump(&mut app);
    assert_eq!(app.dispatch_cooldown.len(), 1);
    app.focused = Status::Todo;
    key(&mut app, press(KeyCode::Char('h')));
    assert!(app.dispatch_cooldown.is_empty());
    assert_eq!(app.status_message, "Moved to Capture.");
    key(&mut app, press(KeyCode::Char('h')));
    assert_eq!(app.status_message, "Already at Capture.");
}

#[test]
fn dispatch_waits_for_interval_and_mode() {
    let mut app = app_in_tmp();
    app.dispatch_config.interval_ms = 1000;
    app.board.add_card(todo_card("Later"));
    assert!(app.maybe_start_dispatch(500, NOW).is_none());
    app.mode = Mode::Help;
    assert!(app.maybe_start_dispatch(1500, NOW).is_none());
    app.mode = Mode::Board;
    let c = app.maybe_start_dispatch(1500, NOW).unwrap();
    assert_eq!(c.status, Status::InProgress);
    assert_eq!(app.last_dispatch_wake_ms, 1500);
    app.dispatch_launched(&c);
    assert_eq!(app.status_message, "Dispatching (stub): Later");
    assert_eq!(app.dispatching_title().unwrap(), "Later");
    assert!(app.maybe_start_dispatch(9000, NOW).is_none());
    assert_eq!(app.poll_dispatch(Polled::Disconnected, NOW), Action::Save);
    assert_eq!(
        app.board.cards[0].last_log().unwrap().message,
        "dispatcher thread ended unexpectedly"
    );
}

#[test]
fn screen_texts() {
    assert_eq!(column_heading(true, Status::Todo, 3), " ▸ To Do (3) ");
    assert_eq!(column_heading(false, Status::Done, 0), "   Done (0) ");
    assert_eq!(empty_column_hint(Status::Capture), "n to capture");
    assert_eq!(empty_column_hint(Status::Review), "empty");
    assert_eq!(header_tag(true), "M2 · v0.2 · stub");
    let mut card = Card::new("A fairly long card title", "");
    card.revision_count = 2;
    let line = card_line(&card, true, 18);
    assert_eq!(line.marker, "▶ ");
    assert_eq!(line.badge.as_deref(), Some("rev 2"));
    assert_eq!(line.title, "A fairly…");
    let line = card_line(&card, false, 0);
    assert_eq!(line.marker, "  ");
    assert_eq!(line.title, "A fair…");
    card.id = "id1".into();
    assert_eq!(
        editor_meta(Some(&card), 0, 4),
        " Capture  ·  rev 2  ·  Ln 1, Col 5  ·  id1 "
    );
    assert_eq!(editor_meta(None, 2, 0), " Ln 3, Col 1 ");
    assert_eq!(review_line(None), "  (missing)  (rev 0)");
    assert_eq!(review_line(Some(&card)), "  A fairly long card title  (rev 2)");
    assert_eq!(editor_scroll(5, 2, 10, true), 2);
    assert_eq!(editor_scroll(0, 12, 10, true), 3);
    assert_eq!(editor_scroll(4, 12, 10, false), 4);
    assert_eq!(editor_scroll(4, 8, 10, true), 4);
    let app = app_in_tmp();
    assert_eq!(status_text(&app), "press ? for keys");
}

#[test]
fn board_changes_ask_for_a_save() {
    let mut app = app_in_tmp();
    app.board.add_card(Card::new("A", ""));
    app.selected_id = Some(app.board.cards[0].id.clone());
    assert_eq!(key(&mut app, press(KeyCode::Char('h'))), Action::Nothing);
    assert_eq!(app.board.cards[0].status, Status::Capture);
    assert_eq!(key(&mut app, press(KeyCode::Char('j'))), Action::Nothing);
    assert_eq!(app.board.cards[0].status, Status::Capture);
    assert_eq!(key(&mut app, press(KeyCode::Char('l'))), Action::Save);
    assert_eq!(app.board.cards[0].status, Status::Todo);
}

#[test]
fn cooldown_holds_each_id_once() {
    let mut board = Board::default();
    let mut card = todo_card("Stuck twice");
    card.status = Status::InProgress;
    board.add_card(card);
    let (mut app, _) =
        App::load_from(board, "board.json", DispatchConfig::stub_for_tests("."), 0, NOW);
    let id = app.board.cards[0].id.clone();
    assert_eq!(app.dispatch_cooldown, vec![id.clone()]);
    app.board.cards[0].status = Status::InProgress;
    assert_eq!(app.reclaim_orphaned_in_progress(NOW), Action::Save);
    assert_eq!(app.board.cards[0].revision_count, 2);
    assert_eq!(app.dispatch_cooldown, vec![id]);
}
