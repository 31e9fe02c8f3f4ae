//! The application state and its transitions: keys, the full-screen editor,
//! the review prompt, and the dispatcher's interval wake. Each transition
//! takes the state and an event and gives the next state and the action the
//! caller performs (saving the board, quitting, starting an agent run).

use vstd::prelude::*;

use crate::dispatch::{
    log_text, opt_view, ConfigView, DispatchConfig, DispatchOutcome, OutcomeKind,
};
use crate::model::{
    bumped, in_board_order, in_column, index_of_id, is_first_with_id, is_uuid_v4_text,
    lemma_index_of_id, Board, Card, CardView, Status,
};
use crate::clock::rfc3339_text;
pub use crate::text::{cursor_at_line_col, line_col};
use crate::text::{
    char_count, chars_of, cursor_at, decimal, insert_char, inserted_at, line_col_at, min_int, owned,
    push_decimal, push_str, remove_char, removed_at, trim, trimmed,
};

verus! {

// ---------------------------------------------------------------------------
// State
// ---------------------------------------------------------------------------
#[derive(Clone, Copy, PartialEq, Eq, Structural, Debug)]
pub enum EditorField {
    Title,
    Body,
}

#[derive(Clone, Copy, PartialEq, Eq, Structural, Debug)]
pub enum EditorCommit {
    /// Persist title/body; leave status unchanged.
    Save,
    /// Review revise: persist, bump `revision_count`, return to To Do.
    Revise,
}

/// The full-screen editor on one card.
pub struct EditorState {
    pub card_id: String,
    pub title: String,
    pub body: String,
    pub field: EditorField,
    pub cursor: usize,
    pub preferred_col: usize,
    pub scroll: u16,
    pub commit: EditorCommit,
}

/// The one-line title prompt for a new card.
pub struct InlineTitle {
    pub buffer: String,
    pub cursor: usize,
}

pub enum Mode {
    Board,
    Help,
    InlineTitle(InlineTitle),
    Editor(EditorState),
    ReviewPrompt { card_id: String },
}

/// The card an agent run is working on.
pub struct Inflight {
    pub card_id: String,
}

pub struct App {
    pub board: Board,
    pub board_path: String,
    pub focused: Status,
    pub selected_id: Option<String>,
    pub mode: Mode,
    pub status_message: String,
    pub should_quit: bool,
    pub dispatch_config: DispatchConfig,
    /// When the dispatcher last woke, in milliseconds on the caller's clock.
    pub last_dispatch_wake_ms: u64,
    pub inflight: Option<Inflight>,
    /// Cards that failed dispatch this session; skipped until a human edit/move/revise.
    pub dispatch_cooldown: Vec<String>,
}

// ---------------------------------------------------------------------------
// Events and actions
// ---------------------------------------------------------------------------
#[derive(Clone, Copy, PartialEq, Eq, Structural, Debug)]
pub enum KeyCode {
    Char(char),
    Enter,
    Esc,
    Backspace,
    Delete,
    Left,
    Right,
    Up,
    Down,
    Home,
    End,
    PageUp,
    PageDown,
    Tab,
    BackTab,
    Other,
}

/// A key event: the key, whether Ctrl was held, and whether it was a press
/// (rather than a repeat or a release).
#[derive(Clone, Copy, PartialEq, Eq, Structural, Debug)]
pub struct Key {
    pub code: KeyCode,
    pub ctrl: bool,
    pub press: bool,
}

/// A plain press of `code`.
pub fn press(code: KeyCode) -> (k: Key)
    ensures
        k == (Key { code, ctrl: false, press: true }),
{
    Key { code, ctrl: false, press: true }
}

/// What the caller does after a transition.
#[derive(Clone, Copy, PartialEq, Eq, Structural, Debug)]
pub enum Action {
    Nothing,
    /// Write the board to its file, then report the result to `App::persist`.
    Save,
    /// Stop the agent run if there is one, then call `App::quit`.
    Quit,
}

/// What polling the agent run's channel gave.
pub enum Polled {
    Outcome(DispatchOutcome),
    Empty,
    Disconnected,
}

// ---------------------------------------------------------------------------
// Views
// ---------------------------------------------------------------------------
#[verifier::ext_equal]
pub struct EditorView {
    pub card_id: Seq<char>,
    pub title: Seq<char>,
    pub body: Seq<char>,
    pub field: EditorField,
    pub cursor: usize,
    pub preferred_col: usize,
    pub scroll: u16,
    pub commit: EditorCommit,
}

#[verifier::ext_equal]
pub enum ModeView {
    Board,
    Help,
    InlineTitle { buffer: Seq<char>, cursor: usize },
    Editor(EditorView),
    ReviewPrompt { card_id: Seq<char> },
}

#[verifier::ext_equal]
pub struct AppView {
    pub board: Seq<CardView>,
    pub board_path: Seq<char>,
    pub focused: Status,
    pub selected: Option<Seq<char>>,
    pub mode: ModeView,
    pub status_message: Seq<char>,
    pub should_quit: bool,
    pub config: ConfigView,
    pub last_wake: u64,
    pub inflight: Option<Seq<char>>,
    pub cooldown: Seq<Seq<char>>,
}

impl View for EditorState {
    type V = EditorView;

    open spec fn view(&self) -> EditorView {
        EditorView {
            card_id: self.card_id@,
            title: self.title@,
            body: self.body@,
            field: self.field,
            cursor: self.cursor,
            preferred_col: self.preferred_col,
            scroll: self.scroll,
            commit: self.commit,
        }
    }
}

impl View for Mode {
    type V = ModeView;

    open spec fn view(&self) -> ModeView {
        match self {
            Mode::Board => ModeView::Board,
            Mode::Help => ModeView::Help,
            Mode::InlineTitle(t) => ModeView::InlineTitle { buffer: t.buffer@, cursor: t.cursor },
            Mode::Editor(e) => ModeView::Editor(e@),
            Mode::ReviewPrompt { card_id } => ModeView::ReviewPrompt { card_id: card_id@ },
        }
    }
}

pub open spec fn inflight_view(i: Option<Inflight>) -> Option<Seq<char>> {
    match i {
        Some(f) => Some(f.card_id@),
        None => None,
    }
}

pub open spec fn ids_view(v: Seq<String>) -> Seq<Seq<char>> {
    v.map_values(|s: String| s@)
}

impl View for App {
    type V = AppView;

    open spec fn view(&self) -> AppView {
        AppView {
            board: self.board@,
            board_path: self.board_path@,
            focused: self.focused,
            selected: opt_view(self.selected_id),
            mode: self.mode@,
            status_message: self.status_message@,
            should_quit: self.should_quit,
            config: self.dispatch_config@,
            last_wake: self.last_dispatch_wake_ms,
            inflight: inflight_view(self.inflight),
            cooldown: ids_view(self.dispatch_cooldown@),
        }
    }
}

// ---------------------------------------------------------------------------
// Board helpers over views
// ---------------------------------------------------------------------------
/// The first card with id `id`.
pub open spec fn card_with_id(board: Seq<CardView>, id: Seq<char>) -> Option<CardView> {
    match index_of_id(board, id) {
        Some(i) => Some(board[i]),
        None => None,
    }
}

/// The board with the first card of id `id` replaced by `c`.
pub open spec fn replace_card(board: Seq<CardView>, id: Seq<char>, c: CardView) -> Seq<CardView> {
    match index_of_id(board, id) {
        Some(i) => board.update(i, c),
        None => board,
    }
}

/// The cooldown list with `id` added unless it is there already.
pub open spec fn cooldown_insert(c: Seq<Seq<char>>, id: Seq<char>) -> Seq<Seq<char>> {
    if c.contains(id) {
        c
    } else {
        c.push(id)
    }
}

/// The cooldown list without `id`.
pub open spec fn cooldown_remove(c: Seq<Seq<char>>, id: Seq<char>) -> Seq<Seq<char>>
    decreases c.len(),
{
    if c.len() == 0 {
        c
    } else {
        let rest = cooldown_remove(c.drop_last(), id);
        if c.last() == id {
            rest
        } else {
            rest.push(c.last())
        }
    }
}

impl AppView {
    pub open spec fn with_message(self, m: Seq<char>) -> AppView {
        AppView { status_message: m, ..self }
    }

    pub open spec fn with_mode(self, mode: ModeView) -> AppView {
        AppView { mode, ..self }
    }

    /// The selected card, if the selection names one.
    pub open spec fn selected_card(self) -> Option<CardView> {
        match self.selected {
            Some(id) => card_with_id(self.board, id),
            None => None,
        }
    }
}

// ---------------------------------------------------------------------------
// Transition specifications
// ---------------------------------------------------------------------------
/// The selection repaired: a selected card that exists sets the focus;
/// otherwise the first card of the focused column, or else the first card in
/// board order, is selected and its column focused.
pub open spec fn ensured_selection(s: AppView) -> AppView {
    let kept = match s.selected {
        Some(id) => card_with_id(s.board, id) is Some,
        None => false,
    };
    if kept {
        AppView { focused: s.selected_card()->0.status, ..s }
    } else {
        let col = in_column(s.board, s.focused);
        let all = in_board_order(s.board);
        let sel = if col.len() > 0 {
            Some(col[0].id)
        } else if all.len() > 0 {
            Some(all[0].id)
        } else {
            None
        };
        let s2 = AppView { selected: sel, ..s };
        match s2.selected_card() {
            Some(c) => AppView { focused: c.status, ..s2 },
            None => s2,
        }
    }
}

/// `j`/`k`: step the selection through the focused column, staying inside it.
pub open spec fn selected_in_column(s: AppView, delta: int) -> AppView {
    let col = in_column(s.board, s.focused);
    if col.len() == 0 {
        AppView { selected: None, ..s }
    } else {
        let current = match s.selected {
            Some(id) => match index_of_id(col, id) {
                Some(i) => i,
                None => 0,
            },
            None => 0,
        };
        let next = if delta < 0 {
            if current + delta < 0 {
                0
            } else {
                current + delta
            }
        } else {
            min_int(current + delta, col.len() - 1)
        };
        AppView { selected: Some(col[next].id), ..s }
    }
}

/// `h`/`l`: move the selected card one column left or right.
pub open spec fn shifted(s: AppView, dir: int) -> (AppView, Action) {
    match s.selected {
        None => (s.with_message("No card selected."@), Action::Nothing),
        Some(id) => match card_with_id(s.board, id) {
            None => (s, Action::Nothing),
            Some(c) => {
                let next = if dir < 0 {
                    c.status.left_of()
                } else {
                    c.status.right_of()
                };
                if next == c.status {
                    (s.with_message("Already at "@ + c.status.title_text() + "."@), Action::Nothing)
                } else {
                    (
                        AppView {
                            board: replace_card(s.board, id, c.with_status(next)),
                            cooldown: cooldown_remove(s.cooldown, id),
                            focused: next,
                            status_message: "Moved to "@ + next.title_text() + "."@,
                            ..s
                        },
                        Action::Save,
                    )
                }
            },
        },
    }
}

/// A finished agent run applied to its card: success sends it to Review,
/// failure back to To Do with one more revision and a cooldown.
pub open spec fn outcome_applied(
    s: AppView,
    id: Seq<char>,
    kind: OutcomeKind,
    message: Seq<char>,
    now: Seq<char>,
) -> (AppView, Action) {
    match card_with_id(s.board, id) {
        None => (s, Action::Nothing),
        Some(c) => {
            let c2 = match kind {
                OutcomeKind::Success => c.with_status(Status::Review).logged(
                    "success"@,
                    message,
                    now,
                ),
                OutcomeKind::Failure => c.with_status(Status::Todo).revised().logged(
                    "error"@,
                    message,
                    now,
                ),
            };
            let msg = match kind {
                OutcomeKind::Success => "Agent finished → Review ("@ + c.title + ")"@,
                OutcomeKind::Failure => "Agent failed → To Do (rev "@ + decimal(
                    c2.revision_count as nat,
                ) + ") — "@ + c.title,
            };
            let cooldown = match kind {
                OutcomeKind::Success => s.cooldown,
                OutcomeKind::Failure => cooldown_insert(s.cooldown, id),
            };
            let focused = if s.selected == Some(id) {
                c2.status
            } else {
                s.focused
            };
            (
                AppView {
                    board: replace_card(s.board, id, c2),
                    status_message: msg,
                    cooldown,
                    focused,
                    ..s
                },
                Action::Save,
            )
        },
    }
}

/// The ids of the cards in progress, in board order.
pub open spec fn in_progress_ids(board: Seq<CardView>) -> Seq<Seq<char>> {
    in_column(board, Status::InProgress).map_values(|c: CardView| c.id)
}

/// Cards left In Progress by an ended process go back to To Do: for each such
/// id in turn, the first card with that id gets one more revision and an
/// error entry, and the id a cooldown.
pub open spec fn reclaim_ids(s: AppView, ids: Seq<Seq<char>>, now: Seq<char>) -> AppView
    decreases ids.len(),
{
    if ids.len() == 0 {
        s
    } else {
        let prev = reclaim_ids(s, ids.drop_last(), now);
        let id = ids.last();
        match card_with_id(prev.board, id) {
            Some(c) => AppView {
                board: replace_card(
                    prev.board,
                    id,
                    c.with_status(Status::Todo).revised().logged(
                        "error"@,
                        "reclaimed: process ended while card was in progress"@,
                        now,
                    ),
                ),
                cooldown: cooldown_insert(prev.cooldown, id),
                ..prev
            },
            None => prev,
        }
    }
}

pub open spec fn reclaimed(s: AppView, now: Seq<char>) -> (AppView, Action) {
    let ids = in_progress_ids(s.board);
    if ids.len() == 0 {
        (s, Action::Nothing)
    } else {
        let r = reclaim_ids(s, ids, now);
        let focused = match s.selected {
            Some(id) => if ids.contains(id) {
                Status::Todo
            } else {
                r.focused
            },
            None => r.focused,
        };
        (AppView { focused, ..r }, Action::Save)
    }
}

/// The active field's text.
pub open spec fn active_text(e: EditorView) -> Seq<char> {
    match e.field {
        EditorField::Title => e.title,
        EditorField::Body => e.body,
    }
}

/// The column of a cursor in `text`, the cursor clamped to the text.
pub open spec fn col_of(text: Seq<char>, cursor: int) -> int {
    line_col_at(text, min_int(cursor, text.len() as int)).1
}

pub open spec fn line_of(text: Seq<char>, cursor: int) -> int {
    line_col_at(text, min_int(cursor, text.len() as int)).0
}

/// The editor on `field`, with the cursor at the end of its text.
pub open spec fn field_set(e: EditorView, field: EditorField) -> EditorView {
    let cursor = match field {
        EditorField::Title => e.title.len(),
        EditorField::Body => e.body.len(),
    };
    let pref = match field {
        EditorField::Title => cursor as int,
        EditorField::Body => col_of(e.body, cursor as int),
    };
    EditorView { field, cursor: cursor as usize, preferred_col: pref as usize, ..e }
}

pub open spec fn other_field(f: EditorField) -> EditorField {
    match f {
        EditorField::Title => EditorField::Body,
        EditorField::Body => EditorField::Title,
    }
}

pub open spec fn cursor_set(e: EditorView, pos: int) -> EditorView {
    let text = active_text(e);
    let k = min_int(pos, text.len() as int);
    EditorView { cursor: k as usize, preferred_col: col_of(text, k) as usize, ..e }
}

pub open spec fn clamp(x: int, lo: int, hi: int) -> int {
    if x < lo {
        lo
    } else if x > hi {
        hi
    } else {
        x
    }
}

pub open spec fn cursor_moved(e: EditorView, delta: int) -> EditorView {
    let text = active_text(e);
    let k = clamp(e.cursor + delta, 0, text.len() as int);
    EditorView { cursor: k as usize, preferred_col: col_of(text, k) as usize, ..e }
}

/// The number of newlines in `s`.
pub open spec fn newlines(s: Seq<char>) -> nat
    decreases s.len(),
{
    if s.len() == 0 {
        0
    } else {
        newlines(s.drop_last()) + if s.last() == '\n' {
            1nat
        } else {
            0nat
        }
    }
}

/// Up/Down (and Page Up/Down) by `dir` lines in the body, keeping the
/// preferred column; Down from the title enters the body.
pub open spec fn moved_vertically(e: EditorView, dir: int) -> EditorView {
    match e.field {
        EditorField::Title => if dir > 0 {
            field_set(e, EditorField::Body)
        } else {
            e
        },
        EditorField::Body => {
            let line = line_of(e.body, e.cursor as int);
            let target = clamp(line + dir, 0, newlines(e.body) as int);
            let cursor = cursor_at(e.body, target as nat, e.preferred_col as nat);
            let new_line = line_of(e.body, cursor);
            EditorView {
                cursor: cursor as usize,
                scroll: if new_line < e.scroll {
                    new_line as u16
                } else {
                    e.scroll
                },
                ..e
            }
        },
    }
}

pub open spec fn moved_home(e: EditorView) -> EditorView {
    match e.field {
        EditorField::Title => EditorView { cursor: 0, preferred_col: 0, ..e },
        EditorField::Body => {
            let line = line_of(e.body, e.cursor as int);
            EditorView {
                cursor: cursor_at(e.body, line as nat, 0) as usize,
                preferred_col: 0,
                ..e
            }
        },
    }
}

pub open spec fn moved_end(e: EditorView) -> EditorView {
    match e.field {
        EditorField::Title => EditorView {
            cursor: e.title.len() as usize,
            preferred_col: e.title.len() as usize,
            ..e
        },
        EditorField::Body => {
            let line = line_of(e.body, e.cursor as int);
            let cursor = cursor_at(e.body, line as nat, usize::MAX as nat);
            EditorView { cursor: cursor as usize, preferred_col: col_of(e.body, cursor) as usize, ..e }
        },
    }
}

pub open spec fn with_active_text(e: EditorView, text: Seq<char>) -> EditorView {
    match e.field {
        EditorField::Title => EditorView { title: text, ..e },
        EditorField::Body => EditorView { body: text, ..e },
    }
}

/// Typing `ch` at the cursor; a newline is refused in the title.
pub open spec fn typed(e: EditorView, ch: char) -> EditorView {
    if e.field == EditorField::Title && ch == '\n' {
        e
    } else {
        let t = inserted_at(active_text(e), e.cursor as int, ch);
        EditorView {
            cursor: (e.cursor + 1) as usize,
            preferred_col: col_of(t, e.cursor + 1) as usize,
            ..with_active_text(e, t)
        }
    }
}

pub open spec fn backspaced(e: EditorView) -> EditorView {
    if e.cursor == 0 {
        e
    } else {
        let t = removed_at(active_text(e), e.cursor - 1);
        EditorView {
            cursor: (e.cursor - 1) as usize,
            preferred_col: col_of(t, e.cursor - 1) as usize,
            ..with_active_text(e, t)
        }
    }
}

pub open spec fn deleted(e: EditorView) -> EditorView {
    let t = removed_at(active_text(e), e.cursor as int);
    EditorView { preferred_col: col_of(t, e.cursor as int) as usize, ..with_active_text(e, t) }
}

/// The editor opened on a card, cursor at the end of the body.
pub open spec fn editor_for(c: CardView, commit: EditorCommit) -> EditorView {
    EditorView {
        card_id: c.id,
        title: c.title,
        body: c.body,
        field: EditorField::Body,
        cursor: c.body.len() as usize,
        preferred_col: col_of(c.body, c.body.len() as int) as usize,
        scroll: 0,
        commit,
    }
}

pub open spec fn editor_opened_for(s: AppView, c: CardView, commit: EditorCommit) -> AppView {
    AppView {
        mode: ModeView::Editor(editor_for(c, commit)),
        status_message: match commit {
            EditorCommit::Save => "Editor — Tab title/body, ↑↓ lines, Ctrl+S save, Ctrl+T save→To Do, Esc cancel."@,
            EditorCommit::Revise => "Revise body/comments — Ctrl+S returns the card to To Do (rev + 1)."@,
        },
        ..s
    }
}

/// Saving the editor: the title is required; the card takes the edited
/// title and body and leaves the cooldown; a revise returns it to To Do with
/// one more revision; `queue_todo` moves a Capture card to To Do.
pub open spec fn editor_committed(s: AppView, e: EditorView, queue_todo: bool, now: Seq<char>) -> (
    AppView,
    Action,
) {
    let title = trimmed(e.title);
    let id = e.card_id;
    if title.len() == 0 {
        (s.with_message("Title is required."@), Action::Nothing)
    } else {
        let s2 = match card_with_id(s.board, id) {
            Some(c) => {
                let edited = CardView { title, body: e.body, updated_at: now, ..c };
                let cooldown = cooldown_remove(s.cooldown, id);
                match e.commit {
                    EditorCommit::Revise => {
                        let c2 = edited.with_status(Status::Todo).revised().logged(
                            "revise"@,
                            "revised from Review; returned to To Do"@,
                            now,
                        );
                        AppView {
                            board: replace_card(s.board, id, c2),
                            cooldown,
                            focused: Status::Todo,
                            status_message: "Revised → To Do (rev "@ + decimal(
                                c2.revision_count as nat,
                            ) + ")."@,
                            ..s
                        }
                    },
                    EditorCommit::Save => if queue_todo && c.status == Status::Capture {
                        AppView {
                            board: replace_card(
                                s.board,
                                id,
                                edited.with_status(Status::Todo).logged(
                                    "edit"@,
                                    "enriched and queued to To Do"@,
                                    now,
                                ),
                            ),
                            cooldown,
                            focused: Status::Todo,
                            status_message: "Saved and moved to To Do."@,
                            ..s
                        }
                    } else {
                        AppView {
                            board: replace_card(s.board, id, edited),
                            cooldown,
                            status_message: "Card updated."@,
                            ..s
                        }
                    },
                }
            },
            None => s,
        };
        (AppView { selected: Some(id), mode: ModeView::Board, ..s2 }, Action::Save)
    }
}

/// The card a new title makes: a fresh id and creation time, the trimmed
/// title, an empty body, in Capture.
pub open spec fn new_card_view(title: Seq<char>, id: Seq<char>, stamp: Seq<char>) -> CardView {
    CardView {
        id,
        title,
        body: Seq::empty(),
        status: Status::Capture,
        revision_count: 0,
        agent_log: Seq::empty(),
        created_at: stamp,
        updated_at: stamp,
    }
}

/// A fresh id and creation time as `Card::new` makes them.
pub open spec fn is_fresh(id: Seq<char>, stamp: Seq<char>) -> bool {
    is_uuid_v4_text(id) && exists|secs: nat| stamp == rfc3339_text(secs)
}

/// Enter in the title prompt: a non-blank title creates a card in Capture and
/// selects it.
pub open spec fn title_committed(s: AppView, buffer: Seq<char>, id: Seq<char>, stamp: Seq<char>) -> (
    AppView,
    Action,
) {
    let title = trimmed(buffer);
    if title.len() == 0 {
        (s.with_message("Title is required."@), Action::Nothing)
    } else {
        (
            AppView {
                board: s.board.push(new_card_view(title, id, stamp)),
                selected: Some(id),
                focused: Status::Capture,
                mode: ModeView::Board,
                status_message: "Card created in Capture."@,
                ..s
            },
            Action::Save,
        )
    }
}

/// `r` on the board: opens the review prompt for a selected card in Review.
pub open spec fn review_opened(s: AppView) -> AppView {
    match s.selected_card() {
        None => s.with_message("No card selected."@),
        Some(c) => if c.status != Status::Review {
            s.with_message("r accepts or revises a card in Review."@)
        } else {
            AppView {
                mode: ModeView::ReviewPrompt { card_id: c.id },
                status_message: "Review — a accept → Done, v revise (edit body) → To Do."@,
                ..s
            }
        },
    }
}

/// Accepting a card in review sends it to Done.
pub open spec fn review_accepted(s: AppView, id: Seq<char>, now: Seq<char>) -> (AppView, Action) {
    match card_with_id(s.board, id) {
        None => (s.with_mode(ModeView::Board), Action::Nothing),
        Some(c) => if c.status != Status::Review {
            (
                AppView {
                    mode: ModeView::Board,
                    status_message: "Card is no longer in Review."@,
                    ..s
                },
                Action::Nothing,
            )
        } else {
            (
                AppView {
                    board: replace_card(
                        s.board,
                        id,
                        c.with_status(Status::Done).logged("accept"@, "accepted from Review"@, now),
                    ),
                    focused: Status::Done,
                    selected: Some(id),
                    mode: ModeView::Board,
                    status_message: "Accepted → Done."@,
                    ..s
                },
                Action::Save,
            )
        },
    }
}

/// Revising a card in review opens the editor on it.
pub open spec fn review_revised(s: AppView, id: Seq<char>) -> AppView {
    match card_with_id(s.board, id) {
        None => s.with_mode(ModeView::Board),
        Some(c) => editor_opened_for(AppView { selected: Some(id), ..s }, c, EditorCommit::Revise),
    }
}

/// The editor and the state's other parts after an editor operation.
pub open spec fn with_editor(s: AppView, e: EditorView) -> AppView {
    s.with_mode(ModeView::Editor(e))
}

/// A key in the editor.
pub open spec fn editor_key(s: AppView, e: EditorView, key: Key, now: Seq<char>) -> (AppView, Action) {
    let ctrl_done = key.ctrl && match key.code {
        KeyCode::Char(c) => c == 's' || c == 't' || c == 'a' || c == 'e',
        KeyCode::Home | KeyCode::End => true,
        _ => false,
    };
    if ctrl_done {
        match key.code {
            KeyCode::Char('s') => editor_committed(s, e, false, now),
            KeyCode::Char('t') => editor_committed(s, e, true, now),
            KeyCode::Char('a') | KeyCode::Home => (with_editor(s, cursor_set(e, 0)), Action::Nothing),
            _ => (with_editor(s, cursor_set(e, active_text(e).len() as int)), Action::Nothing),
        }
    } else {
        match key.code {
            KeyCode::Esc => (
                AppView { mode: ModeView::Board, status_message: "Edit cancelled."@, ..s },
                Action::Nothing,
            ),
            KeyCode::Tab | KeyCode::BackTab => (
                with_editor(s, field_set(e, other_field(e.field))),
                Action::Nothing,
            ),
            KeyCode::Enter => if e.field == EditorField::Title {
                (with_editor(s, field_set(e, EditorField::Body)), Action::Nothing)
            } else {
                (with_editor(s, typed(e, '\n')), Action::Nothing)
            },
            KeyCode::Backspace => (with_editor(s, backspaced(e)), Action::Nothing),
            KeyCode::Delete => (with_editor(s, deleted(e)), Action::Nothing),
            KeyCode::Left => (with_editor(s, cursor_moved(e, -1)), Action::Nothing),
            KeyCode::Right => (with_editor(s, cursor_moved(e, 1)), Action::Nothing),
            KeyCode::Up => (with_editor(s, moved_vertically(e, -1)), Action::Nothing),
            KeyCode::Down => (with_editor(s, moved_vertically(e, 1)), Action::Nothing),
            KeyCode::PageUp => (with_editor(s, moved_vertically(e, -10)), Action::Nothing),
            KeyCode::PageDown => (with_editor(s, moved_vertically(e, 10)), Action::Nothing),
            KeyCode::Home => (with_editor(s, moved_home(e)), Action::Nothing),
            KeyCode::End => (with_editor(s, moved_end(e)), Action::Nothing),
            KeyCode::Char(ch) => if !key.ctrl {
                (with_editor(s, typed(e, ch)), Action::Nothing)
            } else {
                (s, Action::Nothing)
            },
            _ => (s, Action::Nothing),
        }
    }
}

/// A key in the title prompt (other than Enter, which creates the card).
pub open spec fn title_key(s: AppView, buffer: Seq<char>, cursor: usize, key: Key) -> AppView {
    let set = |b: Seq<char>, c: int| s.with_mode(ModeView::InlineTitle { buffer: b, cursor: c as usize });
    match key.code {
        KeyCode::Esc => AppView {
            mode: ModeView::Board,
            status_message: "New card cancelled."@,
            ..s
        },
        KeyCode::Backspace => if cursor > 0 {
            set(removed_at(buffer, cursor - 1), cursor - 1)
        } else {
            s
        },
        KeyCode::Delete => set(removed_at(buffer, cursor as int), cursor as int),
        KeyCode::Left => set(buffer, if cursor > 0 { cursor - 1 } else { 0 }),
        KeyCode::Right => set(buffer, min_int(cursor + 1, buffer.len() as int)),
        KeyCode::Char(ch) => if !key.ctrl && ch != '\n' {
            set(inserted_at(buffer, cursor as int, ch), cursor + 1)
        } else {
            s
        },
        _ => s,
    }
}

/// A key on the board.
pub open spec fn board_key(s: AppView, key: Key, now: Seq<char>) -> (AppView, Action) {
    match key.code {
        KeyCode::Char('q') => (s, Action::Quit),
        KeyCode::Char('?') => (s.with_mode(ModeView::Help), Action::Nothing),
        KeyCode::Char('j') | KeyCode::Down => (selected_in_column(s, 1), Action::Nothing),
        KeyCode::Char('k') | KeyCode::Up => (selected_in_column(s, -1), Action::Nothing),
        KeyCode::Char('h') | KeyCode::Left => shifted(s, -1),
        KeyCode::Char('l') | KeyCode::Right => shifted(s, 1),
        KeyCode::Char('n') => (
            AppView {
                mode: ModeView::InlineTitle { buffer: Seq::empty(), cursor: 0 },
                status_message: "New card title — Enter creates in Capture, Esc cancels."@,
                ..s
            },
            Action::Nothing,
        ),
        KeyCode::Char('r') => (review_opened(s), Action::Nothing),
        KeyCode::Enter => match s.selected_card() {
            None => (s.with_message("No card selected. Press n to create one."@), Action::Nothing),
            Some(c) => (editor_opened_for(s, c, EditorCommit::Save), Action::Nothing),
        },
        _ => (s, Action::Nothing),
    }
}

/// A key in the review prompt.
pub open spec fn review_key(s: AppView, card_id: Seq<char>, key: Key, now: Seq<char>) -> (AppView, Action) {
    match key.code {
        KeyCode::Esc => (
            AppView { mode: ModeView::Board, status_message: "Review cancelled."@, ..s },
            Action::Nothing,
        ),
        KeyCode::Char('q') => (s, Action::Quit),
        KeyCode::Char('a') | KeyCode::Enter => review_accepted(s, card_id, now),
        KeyCode::Char('v') | KeyCode::Char('e') => (review_revised(s, card_id), Action::Nothing),
        _ => (s, Action::Nothing),
    }
}

/// Any key: releases and repeats do nothing; Ctrl+C quits from anywhere;
/// otherwise the mode decides. A new card takes the fresh `id` and `stamp`.
pub open spec fn key_step(s: AppView, key: Key, now: Seq<char>, id: Seq<char>, stamp: Seq<char>) -> (
    AppView,
    Action,
) {
    if !key.press {
        (s, Action::Nothing)
    } else if key.ctrl && key.code == KeyCode::Char('c') {
        (s, Action::Quit)
    } else {
        match s.mode {
            ModeView::Help => match key.code {
                KeyCode::Char('q') => (s, Action::Quit),
                _ => (s.with_mode(ModeView::Board), Action::Nothing),
            },
            ModeView::InlineTitle { buffer, cursor } => match key.code {
                KeyCode::Enter => title_committed(s, buffer, id, stamp),
                _ => (title_key(s, buffer, cursor, key), Action::Nothing),
            },
            ModeView::Editor(e) => editor_key(s, e, key, now),
            ModeView::ReviewPrompt { card_id } => review_key(s, card_id, key, now),
            ModeView::Board => board_key(s, key, now),
        }
    }
}

/// Keys only grow the cursor by one: the cursor of the title prompt or the
/// editor must have room for that.
pub open spec fn cursor_has_room(s: AppView) -> bool {
    match s.mode {
        ModeView::InlineTitle { cursor, .. } => cursor < usize::MAX,
        ModeView::Editor(e) => e.cursor < usize::MAX,
        _ => true,
    }
}

/// The first To Do card, in board order, that is not cooling down.
pub open spec fn next_dispatch(board: Seq<CardView>, cooldown: Seq<Seq<char>>) -> Option<Seq<char>> {
    first_not_cooling(in_column(board, Status::Todo), cooldown, 0)
}

pub open spec fn first_not_cooling(col: Seq<CardView>, cooldown: Seq<Seq<char>>, i: int) -> Option<
    Seq<char>,
>
    decreases col.len() - i,
{
    if i < 0 || i >= col.len() {
        None
    } else if !cooldown.contains(col[i].id) {
        Some(col[i].id)
    } else {
        first_not_cooling(col, cooldown, i + 1)
    }
}

/// Milliseconds from `since` to `now`, zero when the clock reads earlier.
pub open spec fn elapsed_ms(now: u64, since: u64) -> u64 {
    if now >= since {
        (now - since) as u64
    } else {
        0
    }
}

/// The interval wake: with dispatching on, nothing in flight, the board
/// showing and the interval elapsed, the wake time moves to `now_ms` and the
/// next To Do card goes In Progress with a `dispatch` entry.
pub open spec fn dispatch_claimed(s: AppView, now_ms: u64, now: Seq<char>) -> (AppView, Option<CardView>) {
    if !s.config.enabled || s.inflight is Some || !(s.mode is Board) || elapsed_ms(now_ms, s.last_wake)
        < s.config.interval_ms {
        (s, None)
    } else {
        let s1 = AppView { last_wake: now_ms, ..s };
        match next_dispatch(s.board, s.cooldown) {
            None => (s1, None),
            Some(id) => match card_with_id(s.board, id) {
                None => (s1, None),
                Some(c) => {
                    let c2 = c.with_status(Status::InProgress).logged(
                        "dispatch"@,
                        "picked from To Do"@,
                        now,
                    );
                    (
                        AppView {
                            board: replace_card(s.board, id, c2),
                            focused: if s.selected == Some(id) {
                                Status::InProgress
                            } else {
                                s.focused
                            },
                            ..s1
                        },
                        Some(c2),
                    )
                },
            },
        }
    }
}

/// Polling the agent run: an outcome (or a lost worker) ends the run.
pub open spec fn polled(s: AppView, p: Option<(OutcomeKind, Seq<char>)>, now: Seq<char>) -> (
    AppView,
    Action,
) {
    match s.inflight {
        None => (s, Action::Nothing),
        Some(id) => match p {
            Some(o) => outcome_applied(AppView { inflight: None, ..s }, id, o.0, o.1, now),
            None => (s, Action::Nothing),
        },
    }
}

/// Stopping the agent run on quit: the run's outcome, with a failure (or no
/// answer) marked as interrupted.
pub open spec fn cancelled(s: AppView, received: Option<(OutcomeKind, Seq<char>)>, now: Seq<char>) -> (
    AppView,
    Action,
) {
    match s.inflight {
        None => (s, Action::Nothing),
        Some(id) => {
            let o = match received {
                Some(r) => r,
                None => (OutcomeKind::Failure, log_text("interrupted on quit"@)),
            };
            let o2 = match o.0 {
                OutcomeKind::Success => o,
                OutcomeKind::Failure => (
                    OutcomeKind::Failure,
                    log_text("interrupted on quit: "@ + o.1),
                ),
            };
            outcome_applied(AppView { inflight: None, ..s }, id, o2.0, o2.1, now)
        },
    }
}

pub open spec fn outcome_view(o: Option<DispatchOutcome>) -> Option<(OutcomeKind, Seq<char>)> {
    match o {
        Some(d) => Some((d.kind, d.message@)),
        None => None,
    }
}

pub open spec fn polled_view(p: Polled) -> Option<(OutcomeKind, Seq<char>)> {
    match p {
        Polled::Outcome(d) => Some((d.kind, d.message@)),
        Polled::Empty => None,
        Polled::Disconnected => Some(
            (OutcomeKind::Failure, log_text("dispatcher thread ended unexpectedly"@)),
        ),
    }
}

/// The run started on a card: it is in flight, and the status line says so.
pub open spec fn launched(s: AppView, c: CardView) -> AppView {
    AppView {
        inflight: Some(c.id),
        status_message: "Dispatching ("@ + (if s.config.stub {
            "stub"@
        } else {
            "grok"@
        }) + "): "@ + c.title,
        ..s
    }
}

/// Quitting: the run (if any) is stopped, cards still In Progress are
/// reclaimed, and the board is saved.
pub open spec fn quitting(s: AppView, received: Option<(OutcomeKind, Seq<char>)>, now: Seq<char>) -> AppView {
    let s1 = cancelled(s, received, now).0;
    let s2 = reclaimed(s1, now).0;
    AppView { should_quit: true, ..s2 }
}

/// A board just read from disk, shown on the board screen with the first
/// Capture card (else the first card) selected, before any repair.
pub open spec fn opened(board: Seq<CardView>, path: Seq<char>, config: ConfigView, now_ms: u64) -> AppView {
    let cap = in_column(board, Status::Capture);
    let all = in_board_order(board);
    let sel = if cap.len() > 0 {
        Some(cap[0].id)
    } else if all.len() > 0 {
        Some(all[0].id)
    } else {
        None
    };
    let focused = match sel {
        Some(id) => match card_with_id(board, id) {
            Some(c) => c.status,
            None => Status::Capture,
        },
        None => Status::Capture,
    };
    AppView {
        board,
        board_path: path,
        focused,
        selected: sel,
        mode: ModeView::Board,
        status_message: Seq::empty(),
        should_quit: false,
        config,
        last_wake: now_ms,
        inflight: None,
        cooldown: Seq::empty(),
    }
}

/// The state for a board just read from disk.
pub open spec fn loaded(
    board: Seq<CardView>,
    path: Seq<char>,
    config: ConfigView,
    now_ms: u64,
    now: Seq<char>,
) -> (AppView, Action) {
    reclaimed(ensured_selection(opened(board, path, config, now_ms)), now)
}

// ---------------------------------------------------------------------------
// Cooldown list
// ---------------------------------------------------------------------------
proof fn lemma_push_contains(s: Seq<Seq<char>>, a: Seq<char>, x: Seq<char>)
    ensures
        s.push(a).contains(x) <==> (s.contains(x) || x == a),
{
    if s.contains(x) {
        let k = choose|k: int| 0 <= k < s.len() && s[k] == x;
        assert(s.push(a)[k] == x);
    }
    if x == a {
        assert(s.push(a)[s.len() as int] == x);
    }
    if s.push(a).contains(x) && x != a {
        let k = choose|k: int| 0 <= k < s.push(a).len() && s.push(a)[k] == x;
        assert(k < s.len());
        assert(s[k] == x);
    }
}

/// Removing `id` from the cooldown list drops every copy of it and keeps every other id.
pub proof fn lemma_cooldown_remove_absent(c: Seq<Seq<char>>, id: Seq<char>)
    ensures
        !cooldown_remove(c, id).contains(id),
        forall|x: Seq<char>| x != id ==> (cooldown_remove(c, id).contains(x) <==> c.contains(x)),
    decreases c.len(),
{
    if c.len() > 0 {
        let d = c.drop_last();
        let l = c.last();
        lemma_cooldown_remove_absent(d, id);
        let r = cooldown_remove(d, id);
        assert(c =~= d.push(l));
        assert forall|x: Seq<char>| x != id implies (cooldown_remove(c, id).contains(x) <==> c.contains(x)) by {
            lemma_push_contains(d, l, x);
            lemma_push_contains(r, l, x);
        }
        lemma_push_contains(r, l, id);
    }
}

fn cooldown_has(c: &Vec<String>, id: &str) -> (b: bool)
    ensures
        b == ids_view(c@).contains(id@),
{
    let key = owned(id);
    let mut i: usize = 0;
    while i < c.len()
        invariant
            i <= c.len(),
            key@ == id@,
            forall|j: int| 0 <= j < i ==> ids_view(c@)[j] != id@,
        decreases c.len() - i,
    {
        if c[i] == key {
            assert(ids_view(c@)[i as int] == id@);
            return true;
        }
        i = i + 1;
    }
    false
}

fn cooldown_add(c: &mut Vec<String>, id: &str)
    ensures
        ids_view(final(c)@) == cooldown_insert(ids_view(old(c)@), id@),
{
    if !cooldown_has(c, id) {
        c.push(owned(id));
        assert(ids_view(final(c)@) =~= ids_view(old(c)@).push(id@));
    }
}

fn cooldown_drop(c: &mut Vec<String>, id: &str)
    ensures
        ids_view(final(c)@) == cooldown_remove(ids_view(old(c)@), id@),
{
    let key = owned(id);
    let mut kept: Vec<String> = Vec::new();
    let mut i: usize = 0;
    while i < c.len()
        invariant
            i <= c.len(),
            key@ == id@,
            ids_view(kept@) == cooldown_remove(ids_view(c@).take(i as int), id@),
        decreases c.len() - i,
    {
        assert(ids_view(c@).take(i + 1).drop_last() =~= ids_view(c@).take(i as int));
        if c[i] != key {
            kept.push(c[i].clone());
            assert(ids_view(kept@) =~= cooldown_remove(ids_view(c@).take(i as int), id@).push(
                c@[i as int]@,
            ));
        }
        i = i + 1;
    }
    assert(ids_view(c@).take(c.len() as int) =~= ids_view(c@));
    *c = kept;
}

// ---------------------------------------------------------------------------
// Editor operations
// ---------------------------------------------------------------------------
fn active_len(e: &EditorState) -> (n: usize)
    ensures
        n == active_text(e@).len(),
{
    match e.field {
        EditorField::Title => char_count(e.title.as_str()),
        EditorField::Body => char_count(e.body.as_str()),
    }
}

fn column_at(text: &str, cursor: usize) -> (c: usize)
    ensures
        c == col_of(text@, cursor as int),
{
    line_col(text, cursor).1
}

fn editor_set_field(e: &mut EditorState, field: EditorField)
    ensures
        final(e)@ == field_set(old(e)@, field),
{
    e.field = field;
    e.cursor = match field {
        EditorField::Title => char_count(e.title.as_str()),
        EditorField::Body => char_count(e.body.as_str()),
    };
    e.preferred_col = match field {
        EditorField::Title => e.cursor,
        EditorField::Body => column_at(e.body.as_str(), e.cursor),
    };
    assert(e@ =~= field_set(old(e)@, field));
}

fn editor_set_cursor(e: &mut EditorState, pos: usize)
    ensures
        final(e)@ == cursor_set(old(e)@, pos as int),
{
    let len = active_len(e);
    e.cursor = if pos < len {
        pos
    } else {
        len
    };
    e.preferred_col = match e.field {
        EditorField::Title => column_at(e.title.as_str(), e.cursor),
        EditorField::Body => column_at(e.body.as_str(), e.cursor),
    };
    assert(e@ =~= cursor_set(old(e)@, pos as int));
}

fn editor_move_cursor(e: &mut EditorState, delta: i8)
    ensures
        final(e)@ == cursor_moved(old(e)@, delta as int),
{
    let len = active_len(e);
    let target: usize = if delta < 0 {
        let back = (-(delta as i16)) as usize;
        if e.cursor < back {
            0
        } else if e.cursor - back > len {
            len
        } else {
            e.cursor - back
        }
    } else {
        let fwd = delta as usize;
        if e.cursor >= len || len - e.cursor < fwd {
            len
        } else {
            e.cursor + fwd
        }
    };
    e.cursor = target;
    e.preferred_col = match e.field {
        EditorField::Title => column_at(e.title.as_str(), e.cursor),
        EditorField::Body => column_at(e.body.as_str(), e.cursor),
    };
    assert(e@ =~= cursor_moved(old(e)@, delta as int));
}

proof fn lemma_newlines_step(s: Seq<char>, i: int)
    requires
        0 <= i < s.len(),
    ensures
        newlines(s.take(i + 1)) == newlines(s.take(i)) + if s[i] == '\n' {
            1nat
        } else {
            0nat
        },
{
    assert(s.take(i + 1).drop_last() =~= s.take(i));
}

/// The number of newlines in `text`, so one less than its lines.
fn count_newlines(text: &str) -> (n: usize)
    ensures
        n == newlines(text@),
{
    let cs = chars_of(text);
    let mut n: usize = 0;
    let mut i: usize = 0;
    while i < cs.len()
        invariant
            i <= cs.len(),
            cs@ == text@,
            n == newlines(cs@.take(i as int)),
            n <= i,
        decreases cs.len() - i,
    {
        proof {
            lemma_newlines_step(cs@, i as int);
        }
        if cs[i] == '\n' {
            n = n + 1;
        }
        i = i + 1;
    }
    assert(cs@.take(cs.len() as int) =~= cs@);
    n
}

proof fn lemma_line_of_bound(text: Seq<char>, cursor: int)
    requires
        0 <= cursor,
    ensures
        0 <= line_of(text, cursor) <= newlines(text),
        0 <= col_of(text, cursor),
{
    let k = min_int(cursor, text.len() as int);
    lemma_line_col_newlines(text, k);
    assert(text.take(text.len() as int) =~= text);
    lemma_newlines_mono(text, k);
}

proof fn lemma_line_col_newlines(s: Seq<char>, k: int)
    requires
        0 <= k <= s.len(),
    ensures
        line_col_at(s, k).0 == newlines(s.take(k)),
        line_col_at(s, k).1 >= 0,
    decreases k,
{
    if k > 0 {
        lemma_line_col_newlines(s, k - 1);
        lemma_newlines_step(s, k - 1);
    }
}

proof fn lemma_newlines_mono(s: Seq<char>, k: int)
    requires
        0 <= k <= s.len(),
    ensures
        newlines(s.take(k)) <= newlines(s),
    decreases s.len() - k,
{
    if k < s.len() {
        lemma_newlines_mono(s, k + 1);
        lemma_newlines_step(s, k);
    } else {
        assert(s.take(k) =~= s);
    }
}

fn editor_vertical(e: &mut EditorState, dir: i8)
    ensures
        final(e)@ == moved_vertically(old(e)@, dir as int),
{
    match e.field {
        EditorField::Title => {
            if dir > 0 {
                editor_set_field(e, EditorField::Body);
            }
        },
        EditorField::Body => {
            let (line, _) = line_col(e.body.as_str(), e.cursor);
            let last_line = count_newlines(e.body.as_str());
            proof {
                lemma_line_of_bound(e.body@, e.cursor as int);
            }
            let target: usize = if dir < 0 {
                let back = (-(dir as i16)) as usize;
                if line < back {
                    0
                } else {
                    line - back
                }
            } else {
                let fwd = dir as usize;
                if last_line - line < fwd {
                    last_line
                } else {
                    line + fwd
                }
            };
            e.cursor = cursor_at_line_col(e.body.as_str(), target, e.preferred_col);
            let (new_line, _) = line_col(e.body.as_str(), e.cursor);
            if new_line < e.scroll as usize {
                e.scroll = new_line as u16;
            }
        },
    }
    assert(e@ =~= moved_vertically(old(e)@, dir as int));
}

fn editor_home(e: &mut EditorState)
    ensures
        final(e)@ == moved_home(old(e)@),
{
    match e.field {
        EditorField::Title => {
            e.cursor = 0;
            e.preferred_col = 0;
        },
        EditorField::Body => {
            let (line, _) = line_col(e.body.as_str(), e.cursor);
            e.cursor = cursor_at_line_col(e.body.as_str(), line, 0);
            e.preferred_col = 0;
        },
    }
    assert(e@ =~= moved_home(old(e)@));
}

fn editor_end(e: &mut EditorState)
    ensures
        final(e)@ == moved_end(old(e)@),
{
    match e.field {
        EditorField::Title => {
            e.cursor = char_count(e.title.as_str());
            e.preferred_col = e.cursor;
        },
        EditorField::Body => {
            let (line, _) = line_col(e.body.as_str(), e.cursor);
            e.cursor = cursor_at_line_col(e.body.as_str(), line, usize::MAX);
            e.preferred_col = column_at(e.body.as_str(), e.cursor);
        },
    }
    assert(e@ =~= moved_end(old(e)@));
}

fn editor_insert(e: &mut EditorState, ch: char)
    requires
        old(e).cursor < usize::MAX,
    ensures
        final(e)@ == typed(old(e)@, ch),
{
    if e.field == EditorField::Title && ch == '\n' {
        return;
    }
    match e.field {
        EditorField::Title => {
            insert_char(&mut e.title, e.cursor, ch);
            e.cursor = e.cursor + 1;
            e.preferred_col = column_at(e.title.as_str(), e.cursor);
        },
        EditorField::Body => {
            insert_char(&mut e.body, e.cursor, ch);
            e.cursor = e.cursor + 1;
            e.preferred_col = column_at(e.body.as_str(), e.cursor);
        },
    }
    assert(e@ =~= typed(old(e)@, ch));
}

fn editor_backspace(e: &mut EditorState)
    ensures
        final(e)@ == backspaced(old(e)@),
{
    if e.cursor == 0 {
        return;
    }
    match e.field {
        EditorField::Title => {
            remove_char(&mut e.title, e.cursor - 1);
            e.cursor = e.cursor - 1;
            e.preferred_col = column_at(e.title.as_str(), e.cursor);
        },
        EditorField::Body => {
            remove_char(&mut e.body, e.cursor - 1);
            e.cursor = e.cursor - 1;
            e.preferred_col = column_at(e.body.as_str(), e.cursor);
        },
    }
    assert(e@ =~= backspaced(old(e)@));
}

fn editor_delete(e: &mut EditorState)
    ensures
        final(e)@ == deleted(old(e)@),
{
    match e.field {
        EditorField::Title => {
            remove_char(&mut e.title, e.cursor);
            e.preferred_col = column_at(e.title.as_str(), e.cursor);
        },
        EditorField::Body => {
            remove_char(&mut e.body, e.cursor);
            e.preferred_col = column_at(e.body.as_str(), e.cursor);
        },
    }
    assert(e@ =~= deleted(old(e)@));
}

// ---------------------------------------------------------------------------
// Transitions
// ---------------------------------------------------------------------------
fn bump(n: u32) -> (r: u32)
    ensures
        r == bumped(n),
{
    if n == u32::MAX {
        n
    } else {
        n + 1
    }
}

impl App {
    /// The state for a freshly read board: the first Capture card (else the
    /// first card) selected and its column focused, then cards left In
    /// Progress reclaimed. The dispatcher's wake time starts at `now_ms`.
    pub fn load_from(
        board: Board,
        board_path: &str,
        dispatch_config: DispatchConfig,
        now_ms: u64,
        now: &str,
    ) -> (r: (App, Action))
        ensures
            r.0@ == loaded(board@, board_path@, dispatch_config@, now_ms, now@).0,
            r.1 == loaded(board@, board_path@, dispatch_config@, now_ms, now@).1,
    {
        let sel: Option<String> = {
            let cap = board.cards_in(Status::Capture);
            if cap.len() > 0 {
                Some(cap[0].id.clone())
            } else {
                let all = board.cards_in_board_order();
                if all.len() > 0 {
                    Some(all[0].id.clone())
                } else {
                    None
                }
            }
        };
        let focused = match &sel {
            Some(id) => match board.get(id.as_str()) {
                Some(c) => c.status,
                None => Status::Capture,
            },
            None => Status::Capture,
        };
        let mut app = App {
            board,
            board_path: owned(board_path),
            focused,
            selected_id: sel,
            mode: Mode::Board,
            status_message: String::new(),
            should_quit: false,
            dispatch_config,
            last_dispatch_wake_ms: now_ms,
            inflight: None,
            dispatch_cooldown: Vec::new(),
        };
        assert(app@.cooldown =~= Seq::<Seq<char>>::empty());
        app.ensure_selection();
        let a = app.reclaim_orphaned_in_progress(now);
        (app, a)
    }

    /// The selected card.
    pub fn selected_card(&self) -> (r: Option<&Card>)
        ensures
            match self@.selected_card() {
                Some(c) => r is Some && r->0@ == c,
                None => r is None,
            },
    {
        match &self.selected_id {
            Some(id) => self.board.get(id.as_str()),
            None => None,
        }
    }

    /// The title of the card an agent run is working on.
    pub fn dispatching_title(&self) -> (r: Option<String>)
        ensures
            opt_view(r) == match self@.inflight {
                Some(id) => match card_with_id(self@.board, id) {
                    Some(c) => Some(c.title),
                    None => None,
                },
                None => None,
            },
    {
        match &self.inflight {
            Some(f) => match self.board.get(f.card_id.as_str()) {
                Some(c) => Some(c.title.clone()),
                None => None,
            },
            None => None,
        }
    }

    /// Reports a save: a failure shows on the status line.
    pub fn persist(&mut self, saved: Result<(), String>)
        ensures
            final(self)@ == match saved {
                Ok(_) => old(self)@,
                Err(e) => old(self)@.with_message("save failed: "@ + e@),
            },
    {
        match saved {
            Ok(_) => {},
            Err(e) => {
                let mut m = owned("save failed: ");
                push_str(&mut m, e.as_str());
                self.status_message = m;
            },
        }
    }

    fn ensure_selection(&mut self)
        ensures
            final(self)@ == ensured_selection(old(self)@),
    {
        if let Some(id) = &self.selected_id {
            if let Some(card) = self.board.get(id.as_str()) {
                self.focused = card.status;
                assert(self@ =~= ensured_selection(old(self)@));
                return;
            }
        }
        let first: Option<String> = {
            let col = self.board.cards_in(self.focused);
            if col.len() > 0 {
                Some(col[0].id.clone())
            } else {
                let all = self.board.cards_in_board_order();
                if all.len() > 0 {
                    Some(all[0].id.clone())
                } else {
                    None
                }
            }
        };
        self.selected_id = first;
        if let Some(id) = &self.selected_id {
            if let Some(card) = self.board.get(id.as_str()) {
                self.focused = card.status;
            }
        }
        assert(self@ =~= ensured_selection(old(self)@));
    }

    fn select_in_column(&mut self, delta: i8)
        ensures
            final(self)@ == selected_in_column(old(self)@, delta as int),
    {
        let col = self.board.cards_in(self.focused);
        if col.len() == 0 {
            self.selected_id = None;
            assert(self@ =~= selected_in_column(old(self)@, delta as int));
            return;
        }
        let ghost colv = in_column(self@.board, self.focused);
        let mut current: usize = 0;
        match &self.selected_id {
            Some(id) => {
                let key = id.clone();
                let mut i: usize = 0;
                let mut found = false;
                while i < col.len() && !found
                    invariant
                        i <= col.len(),
                        col@.map_values(|c: &Card| c@) == colv,
                        key@ == id@,
                        found ==> i < col.len() && colv[i as int].id == id@,
                        forall|j: int| 0 <= j < i ==> colv[j].id != id@,
                    decreases col.len() + 1 - i - (if found { 1int } else { 0int }),
                {
                    assert(colv[i as int] == col@[i as int]@);
                    if col[i].id == key {
                        found = true;
                    } else {
                        i = i + 1;
                    }
                }
                proof {
                    lemma_index_of_id(colv, id@);
                }
                if found {
                    assert(is_first_with_id(colv, i as int, id@));
                    current = i;
                } else {
                    proof {
                        if index_of_id(colv, id@) is Some {
                            let k = index_of_id(colv, id@)->0;
                            assert(colv[k].id == id@);
                        }
                    }
                }
            },
            None => {},
        }
        let last = col.len() - 1;
        let t: i128 = current as i128 + delta as i128;
        let next: usize = if t < 0 {
            0
        } else if t > last as i128 {
            last
        } else {
            t as usize
        };
        self.selected_id = Some(col[next].id.clone());
        assert(self@ =~= selected_in_column(old(self)@, delta as int));
    }
}

impl App {
    fn shift_selected(&mut self, dir: i8) -> (a: Action)
        ensures
            final(self)@ == shifted(old(self)@, dir as int).0,
            a == shifted(old(self)@, dir as int).1,
    {
        let id = match &self.selected_id {
            Some(id) => id.clone(),
            None => {
                self.status_message = owned("No card selected.");
                assert(self@ =~= shifted(old(self)@, dir as int).0);
                return Action::Nothing;
            },
        };
        let i = match self.board.position(id.as_str()) {
            Some(i) => i,
            None => {
                return Action::Nothing;
            },
        };
        let current = self.board.cards[i].status;
        let next = if dir < 0 {
            current.saturating_left()
        } else {
            current.saturating_right()
        };
        if next == current {
            let mut m = owned("Already at ");
            push_str(&mut m, current.title());
            push_str(&mut m, ".");
            self.status_message = m;
            assert(self@ =~= shifted(old(self)@, dir as int).0);
            return Action::Nothing;
        }
        self.board.move_card(id.as_str(), next);
        cooldown_drop(&mut self.dispatch_cooldown, id.as_str());
        self.focused = next;
        let mut m = owned("Moved to ");
        push_str(&mut m, next.title());
        push_str(&mut m, ".");
        self.status_message = m;
        assert(self@ =~= shifted(old(self)@, dir as int).0);
        Action::Save
    }

    fn apply_outcome(&mut self, id: &str, outcome: &DispatchOutcome, now: &str) -> (a: Action)
        ensures
            final(self)@ == outcome_applied(old(self)@, id@, outcome.kind, outcome.message@, now@).0,
            a == outcome_applied(old(self)@, id@, outcome.kind, outcome.message@, now@).1,
    {
        let i = match self.board.position(id) {
            Some(i) => i,
            None => {
                return Action::Nothing;
            },
        };
        let mut c = self.board.cards[i].clone();
        let ghost c0 = c@;
        let title = c.title.clone();
        match outcome.kind {
            OutcomeKind::Success => {
                c.status = Status::Review;
                c.log("success", outcome.message.as_str(), now);
                let mut m = owned("Agent finished → Review (");
                push_str(&mut m, title.as_str());
                push_str(&mut m, ")");
                self.status_message = m;
            },
            OutcomeKind::Failure => {
                c.status = Status::Todo;
                c.revision_count = bump(c.revision_count);
                c.log("error", outcome.message.as_str(), now);
                cooldown_add(&mut self.dispatch_cooldown, id);
                let mut m = owned("Agent failed → To Do (rev ");
                push_decimal(&mut m, c.revision_count as u64);
                push_str(&mut m, ") — ");
                push_str(&mut m, title.as_str());
                self.status_message = m;
            },
        }
        let status = c.status;
        proof {
            assert(c@.agent_log =~= match outcome.kind {
                OutcomeKind::Success => c0.with_status(Status::Review).logged("success"@, outcome.message@, now@),
                OutcomeKind::Failure => c0.with_status(Status::Todo).revised().logged("error"@, outcome.message@, now@),
            }.agent_log);
        }
        self.board.replace_at(i, c);
        let is_selected = match &self.selected_id {
            Some(sel) => same_id(sel.as_str(), id),
            None => false,
        };
        if is_selected {
            self.focused = status;
        }
        assert(self@ =~= outcome_applied(old(self)@, id@, outcome.kind, outcome.message@, now@).0);
        Action::Save
    }

    /// Crash or unclean exit: In Progress means the agent was working. Each such
    /// card returns to To Do with one more revision, an error entry and a cooldown.
    pub fn reclaim_orphaned_in_progress(&mut self, now: &str) -> (a: Action)
        ensures
            final(self)@ == reclaimed(old(self)@, now@).0,
            a == reclaimed(old(self)@, now@).1,
    {
        let ids: Vec<String> = {
            let col = self.board.cards_in(Status::InProgress);
            let mut ids: Vec<String> = Vec::new();
            let mut k: usize = 0;
            while k < col.len()
                invariant
                    k <= col.len(),
                    ids_view(ids@) =~= col@.map_values(|c: &Card| c@).map_values(
                        |c: CardView| c.id,
                    ).take(k as int),
                decreases col.len() - k,
            {
                let ghost before = ids@;
                let x = col[k].id.clone();
                ids.push(x);
                assert(ids@ == before.push(x));
                assert(ids_view(ids@) =~= ids_view(before).push(x@));
                let ghost m = col@.map_values(|c: &Card| c@).map_values(|c: CardView| c.id);
                assert(m[k as int] == x@);
                assert(m.take(k + 1) =~= m.take(k as int).push(m[k as int]));
                k = k + 1;
            }
            assert(col@.map_values(|c: &Card| c@).map_values(|c: CardView| c.id).take(
                col.len() as int,
            ) =~= col@.map_values(|c: &Card| c@).map_values(|c: CardView| c.id));
            ids
        };
        let ghost all_ids = in_progress_ids(old(self)@.board);
        assert(ids_view(ids@) =~= all_ids);
        if ids.len() == 0 {
            return Action::Nothing;
        }
        let ghost s0 = self@;
        let mut k: usize = 0;
        while k < ids.len()
            invariant
                k <= ids.len(),
                ids_view(ids@) == all_ids,
                s0 == old(self)@,
                self@ == reclaim_ids(s0, all_ids.take(k as int), now@),
                self@.selected == s0.selected,
                self@.focused == s0.focused,
            decreases ids.len() - k,
        {
            let ghost prev = self@;
            assert(all_ids.take(k + 1).drop_last() =~= all_ids.take(k as int));
            assert(all_ids.take(k + 1).last() == ids@[k as int]@);
            match self.board.position(ids[k].as_str()) {
                Some(i) => {
                    let mut c = self.board.cards[i].clone();
                    c.status = Status::Todo;
                    c.revision_count = bump(c.revision_count);
                    c.log("error", "reclaimed: process ended while card was in progress", now);
                    self.board.replace_at(i, c);
                    cooldown_add(&mut self.dispatch_cooldown, ids[k].as_str());
                },
                None => {},
            }
            k = k + 1;
            assert(self@ =~= reclaim_ids(s0, all_ids.take(k as int), now@));
        }
        assert(all_ids.take(ids.len() as int) =~= all_ids);
        let mut hit = false;
        match &self.selected_id {
            Some(sel) => {
                let mut k: usize = 0;
                while k < ids.len()
                    invariant
                        k <= ids.len(),
                        ids_view(ids@) == all_ids,
                        hit ==> all_ids.contains(sel@),
                        !hit ==> forall|j: int| 0 <= j < k ==> all_ids[j] != sel@,
                    decreases ids.len() - k,
                {
                    assert(all_ids[k as int] == ids@[k as int]@);
                    if same_id(ids[k].as_str(), sel.as_str()) {
                        hit = true;
                    }
                    k = k + 1;
                }
                proof {
                    if !hit && all_ids.contains(sel@) {
                        let j = choose|j: int| 0 <= j < all_ids.len() && all_ids[j] == sel@;
                        assert(all_ids[j] != sel@);
                    }
                }
            },
            None => {},
        }
        assert(hit == (match old(self)@.selected {
            Some(id) => all_ids.contains(id),
            None => false,
        }));
        if hit {
            self.focused = Status::Todo;
        }
        assert(self@ =~= reclaimed(old(self)@, now@).0);
        Action::Save
    }

    fn next_dispatch_card_id(&self) -> (r: Option<String>)
        ensures
            opt_view(r) == next_dispatch(self@.board, self@.cooldown),
    {
        let col = self.board.cards_in(Status::Todo);
        let ghost colv = in_column(self@.board, Status::Todo);
        let mut i: usize = 0;
        while i < col.len()
            invariant
                i <= col.len(),
                col@.map_values(|c: &Card| c@) == colv,
                colv == in_column(self@.board, Status::Todo),
                first_not_cooling(colv, self@.cooldown, 0) == first_not_cooling(colv, self@.cooldown, i as int),
            decreases col.len() - i,
        {
            assert(colv[i as int] == col@[i as int]@);
            if !cooldown_has(&self.dispatch_cooldown, col[i].id.as_str()) {
                let r = col[i].id.clone();
                assert(!self@.cooldown.contains(colv[i as int].id));
                assert(first_not_cooling(colv, self@.cooldown, i as int) == Some(colv[i as int].id));
                return Some(r);
            }
            i = i + 1;
        }
        None
    }

    /// The interval wake (see `dispatch_claimed`): the claimed card, which the
    /// caller saves, starts a run on, and reports with `dispatch_launched`.
    pub fn maybe_start_dispatch(&mut self, now_ms: u64, now: &str) -> (r: Option<Card>)
        ensures
            final(self)@ == dispatch_claimed(old(self)@, now_ms, now@).0,
            match dispatch_claimed(old(self)@, now_ms, now@).1 {
                Some(c) => r is Some && r->0@ == c,
                None => r is None,
            },
    {
        if !self.dispatch_config.enabled || self.inflight.is_some() {
            return None;
        }
        let on_board = match &self.mode {
            Mode::Board => true,
            _ => false,
        };
        if !on_board {
            return None;
        }
        let elapsed = if now_ms >= self.last_dispatch_wake_ms {
            now_ms - self.last_dispatch_wake_ms
        } else {
            0
        };
        if elapsed < self.dispatch_config.interval_ms {
            return None;
        }
        self.last_dispatch_wake_ms = now_ms;
        let id = match self.next_dispatch_card_id() {
            Some(id) => id,
            None => {
                assert(self@ =~= dispatch_claimed(old(self)@, now_ms, now@).0);
                return None;
            },
        };
        let i = match self.board.position(id.as_str()) {
            Some(i) => i,
            None => {
                assert(self@ =~= dispatch_claimed(old(self)@, now_ms, now@).0);
                return None;
            },
        };
        let mut c = self.board.cards[i].clone();
        c.status = Status::InProgress;
        c.log("dispatch", "picked from To Do", now);
        let snapshot = c.clone();
        self.board.replace_at(i, c);
        let is_selected = match &self.selected_id {
            Some(sel) => same_id(sel.as_str(), id.as_str()),
            None => false,
        };
        if is_selected {
            self.focused = Status::InProgress;
        }
        assert(self@ =~= dispatch_claimed(old(self)@, now_ms, now@).0);
        Some(snapshot)
    }

    /// Records the run just started on `card`.
    pub fn dispatch_launched(&mut self, card: &Card)
        ensures
            final(self)@ == launched(old(self)@, card@),
    {
        self.inflight = Some(Inflight { card_id: card.id.clone() });
        let mut m = owned("Dispatching (");
        if self.dispatch_config.stub {
            push_str(&mut m, "stub");
        } else {
            push_str(&mut m, "grok");
        }
        push_str(&mut m, "): ");
        push_str(&mut m, card.title.as_str());
        self.status_message = m;
        assert(self@ =~= launched(old(self)@, card@));
    }

    /// Finishes the run in flight when its channel has an outcome, or has lost
    /// its worker.
    pub fn poll_dispatch(&mut self, p: Polled, now: &str) -> (a: Action)
        ensures
            final(self)@ == polled(old(self)@, polled_view(p), now@).0,
            a == polled(old(self)@, polled_view(p), now@).1,
    {
        let id = match &self.inflight {
            Some(f) => f.card_id.clone(),
            None => {
                return Action::Nothing;
            },
        };
        match p {
            Polled::Outcome(o) => {
                self.inflight = None;
                self.apply_outcome(id.as_str(), &o, now)
            },
            Polled::Empty => Action::Nothing,
            Polled::Disconnected => {
                self.inflight = None;
                let o = DispatchOutcome::failure("dispatcher thread ended unexpectedly");
                self.apply_outcome(id.as_str(), &o, now)
            },
        }
    }

    fn cancel_inflight(&mut self, received: Option<DispatchOutcome>, now: &str) -> (a: Action)
        ensures
            final(self)@ == cancelled(old(self)@, outcome_view(received), now@).0,
            a == cancelled(old(self)@, outcome_view(received), now@).1,
    {
        let id = match &self.inflight {
            Some(f) => f.card_id.clone(),
            None => {
                return Action::Nothing;
            },
        };
        self.inflight = None;
        let outcome = match received {
            Some(o) => o,
            None => DispatchOutcome::failure("interrupted on quit"),
        };
        let outcome = match outcome.kind {
            OutcomeKind::Success => outcome,
            OutcomeKind::Failure => {
                let mut m = owned("interrupted on quit: ");
                push_str(&mut m, outcome.message.as_str());
                DispatchOutcome::failure(m.as_str())
            },
        };
        self.apply_outcome(id.as_str(), &outcome, now)
    }

    /// Quits: stops the run in flight with what it `received` (if anything),
    /// reclaims cards left In Progress, and asks for a save.
    pub fn quit(&mut self, received: Option<DispatchOutcome>, now: &str) -> (a: Action)
        ensures
            final(self)@ == quitting(old(self)@, outcome_view(received), now@),
            a == Action::Save,
    {
        self.cancel_inflight(received, now);
        self.reclaim_orphaned_in_progress(now);
        self.should_quit = true;
        Action::Save
    }

    /// Interval wake: finish a run that has ended, then maybe claim one To Do
    /// card. The board is to be saved when either step changed it.
    pub fn on_tick(&mut self, p: Polled, now_ms: u64, now: &str) -> (r: (Action, Option<Card>))
        ensures
            final(self)@ == dispatch_claimed(polled(old(self)@, polled_view(p), now@).0, now_ms, now@).0,
            r.0 == if polled(old(self)@, polled_view(p), now@).1 == Action::Save
                || dispatch_claimed(polled(old(self)@, polled_view(p), now@).0, now_ms, now@).1 is Some {
                Action::Save
            } else {
                Action::Nothing
            },
            match dispatch_claimed(polled(old(self)@, polled_view(p), now@).0, now_ms, now@).1 {
                Some(c) => r.1 is Some && r.1->0@ == c,
                None => r.1 is None,
            },
    {
        let a = self.poll_dispatch(p, now);
        let claimed = self.maybe_start_dispatch(now_ms, now);
        let act = if a == Action::Save || claimed.is_some() {
            Action::Save
        } else {
            Action::Nothing
        };
        (act, claimed)
    }
}

/// Whether two ids are the same text.
fn same_id(a: &str, b: &str) -> (r: bool)
    ensures
        r == (a@ == b@),
{
    crate::text::same_text(a, b)
}

impl App {
    fn start_inline_title(&mut self)
        ensures
            final(self)@ == (AppView {
                mode: ModeView::InlineTitle { buffer: Seq::empty(), cursor: 0 },
                status_message: "New card title — Enter creates in Capture, Esc cancels."@,
                ..old(self)@
            }),
    {
        self.mode = Mode::InlineTitle(InlineTitle { buffer: String::new(), cursor: 0 });
        self.status_message = owned("New card title — Enter creates in Capture, Esc cancels.");
        assert(self@ =~= (AppView {
            mode: ModeView::InlineTitle { buffer: Seq::empty(), cursor: 0 },
            status_message: "New card title — Enter creates in Capture, Esc cancels."@,
            ..old(self)@
        }));
    }

    fn commit_inline_title(&mut self) -> (a: Action)
        requires
            old(self)@.mode is InlineTitle,
        ensures
            final(self)@ == title_committed(
                old(self)@,
                old(self)@.mode->buffer,
                final(self)@.board.last().id,
                final(self)@.board.last().created_at,
            ).0,
            a == title_committed(
                old(self)@,
                old(self)@.mode->buffer,
                final(self)@.board.last().id,
                final(self)@.board.last().created_at,
            ).1,
            final(self)@.board.len() > old(self)@.board.len() ==> is_fresh(
                final(self)@.board.last().id,
                final(self)@.board.last().created_at,
            ),
    {
        let title = match &self.mode {
            Mode::InlineTitle(state) => trim(state.buffer.as_str()),
            _ => {
                return Action::Nothing;
            },
        };
        if char_count(title.as_str()) == 0 {
            self.status_message = owned("Title is required.");
            assert(self@ =~= old(self)@.with_message("Title is required."@));
            return Action::Nothing;
        }
        let card = Card::new(title.as_str(), "");
        proof {
            reveal_strlit("");
        }
        self.selected_id = Some(card.id.clone());
        self.focused = Status::Capture;
        self.board.add_card(card);
        self.mode = Mode::Board;
        self.status_message = owned("Card created in Capture.");
        proof {
            let c = self@.board.last();
            assert(c.body =~= Seq::<char>::empty());
            assert(c.agent_log =~= Seq::<crate::model::LogEntryView>::empty());
            assert(c =~= new_card_view(trimmed(old(self)@.mode->buffer), c.id, c.created_at));
        }
        assert(self@ =~= title_committed(
            old(self)@,
            old(self)@.mode->buffer,
            self@.board.last().id,
            self@.board.last().created_at,
        ).0);
        Action::Save
    }

    fn handle_inline_title_key(&mut self, key: Key) -> (a: Action)
        requires
            old(self)@.mode is InlineTitle,
            old(self)@.mode->InlineTitle_cursor < usize::MAX,
            key.code != KeyCode::Enter,
        ensures
            final(self)@ == title_key(
                old(self)@,
                old(self)@.mode->buffer,
                old(self)@.mode->InlineTitle_cursor,
                key,
            ),
            a == Action::Nothing,
    {
        let ghost s = old(self)@;
        let ghost buffer = s.mode->buffer;
        let ghost cursor = s.mode->InlineTitle_cursor;
        match key.code {
            KeyCode::Esc => {
                self.mode = Mode::Board;
                self.status_message = owned("New card cancelled.");
            },
            KeyCode::Backspace => {
                if let Mode::InlineTitle(state) = &mut self.mode {
                    if state.cursor > 0 {
                        remove_char(&mut state.buffer, state.cursor - 1);
                        state.cursor = state.cursor - 1;
                    }
                }
            },
            KeyCode::Delete => {
                if let Mode::InlineTitle(state) = &mut self.mode {
                    remove_char(&mut state.buffer, state.cursor);
                }
            },
            KeyCode::Left => {
                if let Mode::InlineTitle(state) = &mut self.mode {
                    state.cursor = if state.cursor > 0 {
                        state.cursor - 1
                    } else {
                        0
                    };
                }
            },
            KeyCode::Right => {
                if let Mode::InlineTitle(state) = &mut self.mode {
                    let n = char_count(state.buffer.as_str());
                    state.cursor = if state.cursor + 1 < n {
                        state.cursor + 1
                    } else {
                        n
                    };
                }
            },
            KeyCode::Char(ch) => {
                if !key.ctrl && ch != '\n' {
                    if let Mode::InlineTitle(state) = &mut self.mode {
                        insert_char(&mut state.buffer, state.cursor, ch);
                        state.cursor = state.cursor + 1;
                    }
                }
            },
            _ => {},
        }
        assert(self@ =~= title_key(s, buffer, cursor, key));
        Action::Nothing
    }

    fn open_review_prompt(&mut self)
        ensures
            final(self)@ == review_opened(old(self)@),
    {
        let (id, status) = match self.selected_card() {
            Some(c) => (c.id.clone(), c.status),
            None => {
                self.status_message = owned("No card selected.");
                assert(self@ =~= review_opened(old(self)@));
                return;
            },
        };
        if status != Status::Review {
            self.status_message = owned("r accepts or revises a card in Review.");
            assert(self@ =~= review_opened(old(self)@));
            return;
        }
        self.mode = Mode::ReviewPrompt { card_id: id };
        self.status_message = owned("Review — a accept → Done, v revise (edit body) → To Do.");
        assert(self@ =~= review_opened(old(self)@));
    }

    fn accept_review(&mut self, now: &str) -> (a: Action)
        requires
            old(self)@.mode is ReviewPrompt,
        ensures
            final(self)@ == review_accepted(old(self)@, old(self)@.mode->card_id, now@).0,
            a == review_accepted(old(self)@, old(self)@.mode->card_id, now@).1,
    {
        let id = match &self.mode {
            Mode::ReviewPrompt { card_id } => card_id.clone(),
            _ => {
                return Action::Nothing;
            },
        };
        let i = match self.board.position(id.as_str()) {
            Some(i) => i,
            None => {
                self.mode = Mode::Board;
                assert(self@ =~= review_accepted(old(self)@, id@, now@).0);
                return Action::Nothing;
            },
        };
        if self.board.cards[i].status != Status::Review {
            self.mode = Mode::Board;
            self.status_message = owned("Card is no longer in Review.");
            assert(self@ =~= review_accepted(old(self)@, id@, now@).0);
            return Action::Nothing;
        }
        let mut c = self.board.cards[i].clone();
        c.status = Status::Done;
        c.log("accept", "accepted from Review", now);
        self.board.replace_at(i, c);
        self.focused = Status::Done;
        self.selected_id = Some(id);
        self.mode = Mode::Board;
        self.status_message = owned("Accepted → Done.");
        assert(self@ =~= review_accepted(old(self)@, old(self)@.mode->card_id, now@).0);
        Action::Save
    }

    fn open_editor_for(&mut self, card: &Card, commit: EditorCommit)
        ensures
            final(self)@ == editor_opened_for(old(self)@, card@, commit),
    {
        let cursor = char_count(card.body.as_str());
        let preferred_col = column_at(card.body.as_str(), cursor);
        self.mode = Mode::Editor(
            EditorState {
                card_id: card.id.clone(),
                title: card.title.clone(),
                body: card.body.clone(),
                field: EditorField::Body,
                cursor,
                preferred_col,
                scroll: 0,
                commit,
            },
        );
        self.status_message = match commit {
            EditorCommit::Save => owned(
                "Editor — Tab title/body, ↑↓ lines, Ctrl+S save, Ctrl+T save→To Do, Esc cancel.",
            ),
            EditorCommit::Revise => owned(
                "Revise body/comments — Ctrl+S returns the card to To Do (rev + 1).",
            ),
        };
        assert(self@ =~= editor_opened_for(old(self)@, card@, commit));
    }

    fn revise_review(&mut self)
        requires
            old(self)@.mode is ReviewPrompt,
        ensures
            final(self)@ == review_revised(old(self)@, old(self)@.mode->card_id),
    {
        let id = match &self.mode {
            Mode::ReviewPrompt { card_id } => card_id.clone(),
            _ => {
                return;
            },
        };
        let card = match self.board.get(id.as_str()) {
            Some(c) => c.clone(),
            None => {
                self.mode = Mode::Board;
                assert(self@ =~= review_revised(old(self)@, id@));
                return;
            },
        };
        self.selected_id = Some(id);
        self.open_editor_for(&card, EditorCommit::Revise);
    }

    fn open_editor(&mut self, commit: EditorCommit)
        ensures
            final(self)@ == match old(self)@.selected_card() {
                None => old(self)@.with_message("No card selected. Press n to create one."@),
                Some(c) => editor_opened_for(old(self)@, c, commit),
            },
    {
        let card = match self.selected_card() {
            Some(c) => c.clone(),
            None => {
                self.status_message = owned("No card selected. Press n to create one.");
                assert(self@ =~= old(self)@.with_message("No card selected. Press n to create one."@));
                return;
            },
        };
        self.open_editor_for(&card, commit);
    }

    fn commit_editor(&mut self, queue_todo: bool, now: &str) -> (a: Action)
        requires
            old(self)@.mode is Editor,
        ensures
            final(self)@ == editor_committed(old(self)@, old(self)@.mode->Editor_0, queue_todo, now@).0,
            a == editor_committed(old(self)@, old(self)@.mode->Editor_0, queue_todo, now@).1,
    {
        let ghost e = old(self)@.mode->Editor_0;
        let (id, title, body, commit) = match &self.mode {
            Mode::Editor(state) => (
                state.card_id.clone(),
                trim(state.title.as_str()),
                state.body.clone(),
                state.commit,
            ),
            _ => {
                return Action::Nothing;
            },
        };
        if char_count(title.as_str()) == 0 {
            self.status_message = owned("Title is required.");
            assert(self@ =~= editor_committed(old(self)@, e, queue_todo, now@).0);
            return Action::Nothing;
        }
        match self.board.position(id.as_str()) {
            Some(i) => {
                let mut c = self.board.cards[i].clone();
                c.title = title;
                c.body = body;
                c.touch(now);
                cooldown_drop(&mut self.dispatch_cooldown, id.as_str());
                match commit {
                    EditorCommit::Revise => {
                        c.status = Status::Todo;
                        c.revision_count = bump(c.revision_count);
                        c.log("revise", "revised from Review; returned to To Do", now);
                        self.focused = Status::Todo;
                        let mut m = owned("Revised → To Do (rev ");
                        push_decimal(&mut m, c.revision_count as u64);
                        push_str(&mut m, ").");
                        self.status_message = m;
                    },
                    EditorCommit::Save => {
                        if queue_todo && c.status == Status::Capture {
                            c.status = Status::Todo;
                            c.log("edit", "enriched and queued to To Do", now);
                            self.focused = Status::Todo;
                            self.status_message = owned("Saved and moved to To Do.");
                        } else {
                            self.status_message = owned("Card updated.");
                        }
                    },
                }
                self.board.replace_at(i, c);
            },
            None => {},
        }
        self.selected_id = Some(id);
        self.mode = Mode::Board;
        assert(self@ =~= editor_committed(old(self)@, e, queue_todo, now@).0);
        Action::Save
    }

    fn handle_editor_key(&mut self, key: Key, now: &str) -> (a: Action)
        requires
            old(self)@.mode is Editor,
            old(self)@.mode->Editor_0.cursor < usize::MAX,
        ensures
            final(self)@ == editor_key(old(self)@, old(self)@.mode->Editor_0, key, now@).0,
            a == editor_key(old(self)@, old(self)@.mode->Editor_0, key, now@).1,
    {
        let ghost s = old(self)@;
        let ghost e = s.mode->Editor_0;
        if key.ctrl {
            match key.code {
                KeyCode::Char('s') => {
                    return self.commit_editor(false, now);
                },
                KeyCode::Char('t') => {
                    return self.commit_editor(true, now);
                },
                KeyCode::Char('a') | KeyCode::Home => {
                    if let Mode::Editor(state) = &mut self.mode {
                        editor_set_cursor(state, 0);
                    }
                    assert(self@ =~= with_editor(s, cursor_set(e, 0)));
                    return Action::Nothing;
                },
                KeyCode::Char('e') | KeyCode::End => {
                    if let Mode::Editor(state) = &mut self.mode {
                        let len = active_len(state);
                        editor_set_cursor(state, len);
                    }
                    assert(self@ =~= with_editor(s, cursor_set(e, active_text(e).len() as int)));
                    return Action::Nothing;
                },
                _ => {},
            }
        }
        match key.code {
            KeyCode::Esc => {
                self.mode = Mode::Board;
                self.status_message = owned("Edit cancelled.");
            },
            KeyCode::Tab | KeyCode::BackTab => {
                if let Mode::Editor(state) = &mut self.mode {
                    let f = match state.field {
                        EditorField::Title => EditorField::Body,
                        EditorField::Body => EditorField::Title,
                    };
                    editor_set_field(state, f);
                }
            },
            KeyCode::Enter => {
                if let Mode::Editor(state) = &mut self.mode {
                    if state.field == EditorField::Title {
                        editor_set_field(state, EditorField::Body);
                    } else {
                        editor_insert(state, '\n');
                    }
                }
            },
            KeyCode::Backspace => {
                if let Mode::Editor(state) = &mut self.mode {
                    editor_backspace(state);
                }
            },
            KeyCode::Delete => {
                if let Mode::Editor(state) = &mut self.mode {
                    editor_delete(state);
                }
            },
            KeyCode::Left => {
                if let Mode::Editor(state) = &mut self.mode {
                    editor_move_cursor(state, -1);
                }
            },
            KeyCode::Right => {
                if let Mode::Editor(state) = &mut self.mode {
                    editor_move_cursor(state, 1);
                }
            },
            KeyCode::Up => {
                if let Mode::Editor(state) = &mut self.mode {
                    editor_vertical(state, -1);
                }
            },
            KeyCode::Down => {
                if let Mode::Editor(state) = &mut self.mode {
                    editor_vertical(state, 1);
                }
            },
            KeyCode::PageUp => {
                if let Mode::Editor(state) = &mut self.mode {
                    editor_vertical(state, -10);
                }
            },
            KeyCode::PageDown => {
                if let Mode::Editor(state) = &mut self.mode {
                    editor_vertical(state, 10);
                }
            },
            KeyCode::Home => {
                if let Mode::Editor(state) = &mut self.mode {
                    editor_home(state);
                }
            },
            KeyCode::End => {
                if let Mode::Editor(state) = &mut self.mode {
                    editor_end(state);
                }
            },
            KeyCode::Char(ch) => {
                if !key.ctrl {
                    if let Mode::Editor(state) = &mut self.mode {
                        editor_insert(state, ch);
                    }
                }
            },
            _ => {},
        }
        assert(self@ =~= editor_key(s, e, key, now@).0);
        Action::Nothing
    }

    fn handle_board_key(&mut self, key: Key, now: &str) -> (a: Action)
        requires
            old(self)@.mode is Board,
        ensures
            final(self)@ == board_key(old(self)@, key, now@).0,
            a == board_key(old(self)@, key, now@).1,
    {
        match key.code {
            KeyCode::Char('q') => Action::Quit,
            KeyCode::Char('?') => {
                self.mode = Mode::Help;
                assert(self@ =~= old(self)@.with_mode(ModeView::Help));
                Action::Nothing
            },
            KeyCode::Char('j') | KeyCode::Down => {
                self.select_in_column(1);
                Action::Nothing
            },
            KeyCode::Char('k') | KeyCode::Up => {
                self.select_in_column(-1);
                Action::Nothing
            },
            KeyCode::Char('h') | KeyCode::Left => self.shift_selected(-1),
            KeyCode::Char('l') | KeyCode::Right => self.shift_selected(1),
            KeyCode::Char('n') => {
                self.start_inline_title();
                Action::Nothing
            },
            KeyCode::Char('r') => {
                self.open_review_prompt();
                Action::Nothing
            },
            KeyCode::Enter => {
                self.open_editor(EditorCommit::Save);
                Action::Nothing
            },
            _ => Action::Nothing,
        }
    }

    fn handle_review_prompt_key(&mut self, key: Key, now: &str) -> (a: Action)
        requires
            old(self)@.mode is ReviewPrompt,
        ensures
            final(self)@ == review_key(old(self)@, old(self)@.mode->card_id, key, now@).0,
            a == review_key(old(self)@, old(self)@.mode->card_id, key, now@).1,
    {
        match key.code {
            KeyCode::Esc => {
                self.mode = Mode::Board;
                self.status_message = owned("Review cancelled.");
                assert(self@ =~= review_key(old(self)@, old(self)@.mode->card_id, key, now@).0);
                Action::Nothing
            },
            KeyCode::Char('q') => Action::Quit,
            KeyCode::Char('a') | KeyCode::Enter => self.accept_review(now),
            KeyCode::Char('v') | KeyCode::Char('e') => {
                self.revise_review();
                Action::Nothing
            },
            _ => Action::Nothing,
        }
    }
}

impl App {
    /// Handles one key event; see `key_step`. A card created by the key is
    /// the board's last card, with a fresh id and creation time.
    #[verifier::spinoff_prover]
    #[verifier::rlimit(50)]
    pub fn handle_key(&mut self, key: Key, now: &str) -> (a: Action)
        requires
            cursor_has_room(old(self)@),
        ensures
            final(self)@ == key_step(
                old(self)@,
                key,
                now@,
                final(self)@.board.last().id,
                final(self)@.board.last().created_at,
            ).0,
            a == key_step(
                old(self)@,
                key,
                now@,
                final(self)@.board.last().id,
                final(self)@.board.last().created_at,
            ).1,
            final(self)@.board.len() > old(self)@.board.len() ==> is_fresh(
                final(self)@.board.last().id,
                final(self)@.board.last().created_at,
            ),
    {
        if !key.press {
            return Action::Nothing;
        }
        if key.ctrl && key.code == KeyCode::Char('c') {
            return Action::Quit;
        }
        let which: u8 = match &self.mode {
            Mode::Board => 0,
            Mode::Help => 1,
            Mode::InlineTitle(_) => 2,
            Mode::Editor(_) => 3,
            Mode::ReviewPrompt { .. } => 4,
        };
        if which == 1 {
            self.handle_help_key(key)
        } else if which == 2 {
            if key.code == KeyCode::Enter {
                self.commit_inline_title()
            } else {
                self.handle_inline_title_key(key)
            }
        } else if which == 3 {
            self.handle_editor_key(key, now)
        } else if which == 4 {
            self.handle_review_prompt_key(key, now)
        } else {
            self.handle_board_key(key, now)
        }
    }

    fn handle_help_key(&mut self, key: Key) -> (a: Action)
        ensures
            final(self)@ == match key.code {
                KeyCode::Char('q') => old(self)@,
                _ => old(self)@.with_mode(ModeView::Board),
            },
            a == match key.code {
                KeyCode::Char('q') => Action::Quit,
                _ => Action::Nothing,
            },
    {
        match key.code {
            KeyCode::Char('q') => Action::Quit,
            _ => {
                self.mode = Mode::Board;
                assert(self@ =~= old(self)@.with_mode(ModeView::Board));
                Action::Nothing
            },
        }
    }
}


} // verus!
