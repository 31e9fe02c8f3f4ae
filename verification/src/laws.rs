//! Properties of the board and its transitions that span more than one
//! operation or hold of every state.

use vstd::prelude::*;

use crate::app::{
    cooldown_insert, launched, opened, lemma_cooldown_remove_absent,
    active_text, backspaced, card_with_id, cooldown_remove, dispatch_claimed, editor_committed,
    ensured_selection, first_not_cooling, in_progress_ids, loaded, next_dispatch, outcome_applied,
    quitting, reclaim_ids, reclaimed, selected_in_column, shifted, typed, cancelled, key_step,
    polled, board_key, editor_key, review_key, title_key, Action, AppView, EditorField,
    EditorView, Key, KeyCode, ModeView,
};
use crate::dispatch::{log_text, ConfigView, OutcomeKind};
use crate::model::{in_column, index_of_id, is_first_with_id, lemma_index_of_id, CardView, Status};
use crate::text::{inserted_at, min_int, removed_at};

verus! {

/// No two cards share an id.
pub open spec fn unique_ids(board: Seq<CardView>) -> bool {
    forall|i: int, j: int| 0 <= i < j < board.len() ==> board[i].id != board[j].id
}

proof fn lemma_unique_index(board: Seq<CardView>, j: int)
    requires
        unique_ids(board),
        0 <= j < board.len(),
    ensures
        index_of_id(board, board[j].id) == Some(j),
{
    lemma_index_of_id(board, board[j].id);
    assert(is_first_with_id(board, j, board[j].id));
}

proof fn lemma_in_column_has(b: Seq<CardView>, st: Status, j: int)
    requires
        0 <= j < b.len(),
        b[j].status == st,
    ensures
        in_column(b, st).contains(b[j]),
    decreases b.len(),
{
    let d = b.drop_last();
    let rest = in_column(d, st);
    if j == b.len() - 1 {
        assert(in_column(b, st) == rest.push(b[j]));
        assert(in_column(b, st)[rest.len() as int] == b[j]);
    } else {
        lemma_in_column_has(d, st, j);
        assert(d[j] == b[j]);
        let k = choose|k: int| 0 <= k < rest.len() && rest[k] == b[j];
        if b.last().status == st {
            assert(in_column(b, st)[k] == b[j]);
        } else {
            assert(in_column(b, st)[k] == b[j]);
        }
    }
}

/// Every card of a column is a card of the board with that status.
pub proof fn lemma_in_column_from(b: Seq<CardView>, st: Status, k: int)
    requires
        0 <= k < in_column(b, st).len(),
    ensures
        exists|j: int| 0 <= j < b.len() && b[j] == in_column(b, st)[k] && b[j].status == st,
    decreases b.len(),
{
    let d = b.drop_last();
    let rest = in_column(d, st);
    if b.len() > 0 {
        if b.last().status == st && k == rest.len() {
            assert(b[b.len() - 1] == in_column(b, st)[k]);
        } else {
            assert(in_column(b, st)[k] == rest[k]);
            lemma_in_column_from(d, st, k);
            let j = choose|j: int| 0 <= j < d.len() && d[j] == rest[k] && d[j].status == st;
            assert(b[j] == d[j]);
        }
    }
}

/// An id is in progress exactly when some card with it is In Progress.
pub proof fn lemma_in_progress_ids(b: Seq<CardView>, x: Seq<char>)
    ensures
        in_progress_ids(b).contains(x) <==> exists|j: int|
            0 <= j < b.len() && b[j].id == x && b[j].status == Status::InProgress,
{
    let col = in_column(b, Status::InProgress);
    let ids = in_progress_ids(b);
    if ids.contains(x) {
        let k = choose|k: int| 0 <= k < ids.len() && ids[k] == x;
        lemma_in_column_from(b, Status::InProgress, k);
    }
    if exists|j: int| 0 <= j < b.len() && b[j].id == x && b[j].status == Status::InProgress {
        let j = choose|j: int| 0 <= j < b.len() && b[j].id == x && b[j].status == Status::InProgress;
        lemma_in_column_has(b, Status::InProgress, j);
        let k = choose|k: int| 0 <= k < col.len() && col[k] == b[j];
        assert(ids[k] == x);
    }
}

/// Reclaiming a list of ids keeps every card's id and puts exactly the cards
/// named in the list in To Do.
proof fn lemma_reclaim_shape(s: AppView, ids: Seq<Seq<char>>, now: Seq<char>)
    requires
        unique_ids(s.board),
    ensures
        reclaim_ids(s, ids, now).board.len() == s.board.len(),
        forall|j: int|
            0 <= j < s.board.len() ==> #[trigger] reclaim_ids(s, ids, now).board[j].id
                == s.board[j].id,
        forall|j: int|
            0 <= j < s.board.len() ==> (#[trigger] reclaim_ids(s, ids, now).board[j]).status == if ids.contains(s.board[j].id) {
                Status::Todo
            } else {
                s.board[j].status
            },
        unique_ids(reclaim_ids(s, ids, now).board),
    decreases ids.len(),
{
    if ids.len() > 0 {
        let d = ids.drop_last();
        let id = ids.last();
        lemma_reclaim_shape(s, d, now);
        let prev = reclaim_ids(s, d, now);
        let r = reclaim_ids(s, ids, now);
        assert forall|x: Seq<char>| #[trigger] ids.contains(x) <==> (d.contains(x) || x == id) by {
            if ids.contains(x) {
                let k = choose|k: int| 0 <= k < ids.len() && ids[k] == x;
                if k < d.len() {
                    assert(d[k] == x);
                }
            }
            if d.contains(x) {
                let k = choose|k: int| 0 <= k < d.len() && d[k] == x;
                assert(ids[k] == x);
            }
            if x == id {
                assert(ids[ids.len() - 1] == x);
            }
        }
        lemma_index_of_id(prev.board, id);
        match index_of_id(prev.board, id) {
            Some(i) => {
                assert(r.board == prev.board.update(i, r.board[i]));
                assert forall|j: int| 0 <= j < s.board.len() implies #[trigger] r.board[j].id
                    == s.board[j].id by {
                    if j != i {
                        assert(r.board[j] == prev.board[j]);
                    }
                }
                assert forall|j: int|
                    0 <= j < s.board.len() implies (#[trigger] r.board[j]).status == if ids.contains(
                        s.board[j].id,
                    ) {
                        Status::Todo
                    } else {
                        s.board[j].status
                    } by {
                    if j != i {
                        assert(r.board[j] == prev.board[j]);
                        assert(prev.board[j].id != id);
                    }
                }
            },
            None => {
                assert forall|j: int|
                    0 <= j < s.board.len() implies (#[trigger] r.board[j]).status == if ids.contains(
                        s.board[j].id,
                    ) {
                        Status::Todo
                    } else {
                        s.board[j].status
                    } by {
                    assert(prev.board[j].id != id);
                }
            },
        }
    }
}

/// After a reclaim, no card of a board with distinct ids is left In Progress.
pub proof fn lemma_reclaim_clears_in_progress(s: AppView, now: Seq<char>)
    requires
        unique_ids(s.board),
    ensures
        forall|j: int|
            0 <= j < reclaimed(s, now).0.board.len() ==> (#[trigger] reclaimed(s, now).0.board[j]).status
                != Status::InProgress,
        reclaimed(s, now).0.board.len() == s.board.len(),
{
    let ids = in_progress_ids(s.board);
    lemma_reclaim_shape(s, ids, now);
    assert forall|j: int|
        0 <= j < reclaimed(s, now).0.board.len() implies (#[trigger] reclaimed(
        s,
        now,
    ).0.board[j]).status != Status::InProgress by {
        lemma_in_progress_ids(s.board, s.board[j].id);
        if s.board[j].status == Status::InProgress {
            assert(ids.contains(s.board[j].id));
        } else if ids.contains(s.board[j].id) {
            let k = choose|k: int|
                0 <= k < s.board.len() && s.board[k].id == s.board[j].id && s.board[k].status
                    == Status::InProgress;
            assert(k != j);
        }
        if ids.len() == 0 {
            if s.board[j].status == Status::InProgress {
                assert(ids.contains(s.board[j].id));
            }
        }
    }
}

/// Applying an outcome keeps the board's ids.
proof fn lemma_outcome_keeps_ids(
    s: AppView,
    id: Seq<char>,
    kind: OutcomeKind,
    message: Seq<char>,
    now: Seq<char>,
)
    requires
        unique_ids(s.board),
    ensures
        unique_ids(outcome_applied(s, id, kind, message, now).0.board),
        outcome_applied(s, id, kind, message, now).0.board.len() == s.board.len(),
{
    lemma_index_of_id(s.board, id);
    let r = outcome_applied(s, id, kind, message, now).0;
    match index_of_id(s.board, id) {
        Some(i) => {
            assert forall|a: int, b: int| 0 <= a < b < r.board.len() implies r.board[a].id
                != r.board[b].id by {
                assert(r.board[a].id == s.board[a].id);
                assert(r.board[b].id == s.board[b].id);
            }
        },
        None => {},
    }
}

/// Quitting never leaves a card In Progress, whatever the run in flight
/// answered (or if it never answered).
pub proof fn lemma_quit_leaves_nothing_in_progress(
    s: AppView,
    received: Option<(OutcomeKind, Seq<char>)>,
    now: Seq<char>,
)
    requires
        unique_ids(s.board),
    ensures
        forall|j: int|
            0 <= j < quitting(s, received, now).board.len() ==> (#[trigger] quitting(
                s,
                received,
                now,
            ).board[j]).status != Status::InProgress,
        quitting(s, received, now).should_quit,
{
    let s1 = cancelled(s, received, now).0;
    match s.inflight {
        None => {},
        Some(id) => {
            let o = match received {
                Some(r) => r,
                None => (OutcomeKind::Failure, crate::dispatch::log_text("interrupted on quit"@)),
            };
            let o2 = match o.0 {
                OutcomeKind::Success => o,
                OutcomeKind::Failure => (
                    OutcomeKind::Failure,
                    crate::dispatch::log_text("interrupted on quit: "@ + o.1),
                ),
            };
            lemma_outcome_keeps_ids(AppView { inflight: None, ..s }, id, o2.0, o2.1, now);
        },
    }
    lemma_reclaim_clears_in_progress(s1, now);
}

/// A board read from disk never comes up with a card In Progress.
pub proof fn lemma_load_leaves_nothing_in_progress(
    board: Seq<CardView>,
    path: Seq<char>,
    config: crate::dispatch::ConfigView,
    now_ms: u64,
    now: Seq<char>,
)
    requires
        unique_ids(board),
    ensures
        forall|j: int|
            0 <= j < loaded(board, path, config, now_ms, now).0.board.len() ==> (#[trigger] loaded(
                board,
                path,
                config,
                now_ms,
                now,
            ).0.board[j]).status != Status::InProgress,
{
    let cap = in_column(board, Status::Capture);
    let all = crate::model::in_board_order(board);
    let sel = if cap.len() > 0 {
        Some(cap[0].id)
    } else if all.len() > 0 {
        Some(all[0].id)
    } else {
        None
    };
    let focused = match sel {
        Some(id) => match card_with_id(board, id) {
            Some(c) => c.status,
            None => Status::Capture,
        },
        None => Status::Capture,
    };
    let s0 = AppView {
        board,
        board_path: path,
        focused,
        selected: sel,
        mode: ModeView::Board,
        status_message: Seq::empty(),
        should_quit: false,
        config,
        last_wake: now_ms,
        inflight: None,
        cooldown: Seq::empty(),
    };
    lemma_reclaim_clears_in_progress(ensured_selection(s0), now);
}

proof fn lemma_first_not_cooling_skips(col: Seq<CardView>, cooldown: Seq<Seq<char>>, i: int)
    ensures
        first_not_cooling(col, cooldown, i) matches Some(x) ==> !cooldown.contains(x),
    decreases col.len() - i,
{
    if 0 <= i < col.len() && cooldown.contains(col[i].id) {
        lemma_first_not_cooling_skips(col, cooldown, i + 1);
    }
}

/// The dispatcher never picks a card that is cooling down.
pub proof fn lemma_dispatch_skips_cooldown(board: Seq<CardView>, cooldown: Seq<Seq<char>>)
    ensures
        next_dispatch(board, cooldown) matches Some(id) ==> !cooldown.contains(id),
{
    lemma_first_not_cooling_skips(in_column(board, Status::Todo), cooldown, 0);
}

/// A failed run puts its card on cooldown, so the next wake does not pick it
/// again.
pub proof fn lemma_failed_card_not_redispatched(
    s: AppView,
    id: Seq<char>,
    message: Seq<char>,
    now: Seq<char>,
)
    requires
        card_with_id(s.board, id) is Some,
    ensures
        outcome_applied(s, id, OutcomeKind::Failure, message, now).0.cooldown.contains(id),
        next_dispatch(
            outcome_applied(s, id, OutcomeKind::Failure, message, now).0.board,
            outcome_applied(s, id, OutcomeKind::Failure, message, now).0.cooldown,
        ) != Some(id),
{
    let r = outcome_applied(s, id, OutcomeKind::Failure, message, now).0;
    if !s.cooldown.contains(id) {
        assert(r.cooldown[s.cooldown.len() as int] == id);
    }
    lemma_dispatch_skips_cooldown(r.board, r.cooldown);
}

proof fn lemma_cooldown_remove_gone(c: Seq<Seq<char>>, id: Seq<char>)
    ensures
        !cooldown_remove(c, id).contains(id),
    decreases c.len(),
{
    if c.len() > 0 {
        lemma_cooldown_remove_gone(c.drop_last(), id);
        let rest = cooldown_remove(c.drop_last(), id);
        if c.last() != id {
            assert forall|k: int| 0 <= k < rest.push(c.last()).len() implies rest.push(
                c.last(),
            )[k] != id by {
                if k < rest.len() {
                    assert(rest[k] != id);
                }
            }
        }
    }
}

/// Moving a card by hand ends its cooldown, and moves it exactly one column.
pub proof fn lemma_move_ends_cooldown(s: AppView, dir: int)
    ensures
        shifted(s, dir).1 == Action::Save ==> {
            let id = s.selected->0;
            let c = card_with_id(s.board, id)->0;
            &&& !shifted(s, dir).0.cooldown.contains(id)
            &&& card_with_id(shifted(s, dir).0.board, id) == Some(
                c.with_status(shifted(s, dir).0.focused),
            )
            &&& shifted(s, dir).0.focused.rank() == c.status.rank() + if dir < 0 {
                -1int
            } else {
                1int
            }
        },
{
    if shifted(s, dir).1 == Action::Save {
        let id = s.selected->0;
        lemma_cooldown_remove_gone(s.cooldown, id);
        lemma_index_of_id(s.board, id);
        let i = index_of_id(s.board, id)->0;
        let b2 = shifted(s, dir).0.board;
        assert(is_first_with_id(b2, i, id)) by {
            assert forall|j: int| 0 <= j < i implies b2[j].id != id by {
                assert(b2[j] == s.board[j]);
            }
        }
        lemma_index_of_id(b2, id);
    }
}

/// Saving the editor ends the card's cooldown.
pub proof fn lemma_edit_ends_cooldown(s: AppView, e: EditorView, queue_todo: bool, now: Seq<char>)
    ensures
        card_with_id(s.board, e.card_id) is Some && editor_committed(s, e, queue_todo, now).1
            == Action::Save ==> !editor_committed(s, e, queue_todo, now).0.cooldown.contains(
            e.card_id,
        ),
{
    lemma_cooldown_remove_gone(s.cooldown, e.card_id);
}

/// `j`/`k` keep the selection inside the focused column: afterwards the
/// selection names a card of that column, or nothing when it is empty.
pub proof fn lemma_selection_stays_in_column(s: AppView, delta: int)
    ensures
        match selected_in_column(s, delta).selected {
            Some(id) => exists|k: int|
                0 <= k < in_column(s.board, s.focused).len() && in_column(s.board, s.focused)[k].id
                    == id,
            None => in_column(s.board, s.focused).len() == 0,
        },
        selected_in_column(s, delta).focused == s.focused,
{
    let col = in_column(s.board, s.focused);
    if col.len() > 0 {
        lemma_index_of_id(col, s.selected->0);
        let current = match s.selected {
            Some(id) => match index_of_id(col, id) {
                Some(i) => i,
                None => 0,
            },
            None => 0,
        };
        let next = if delta < 0 {
            if current + delta < 0 {
                0
            } else {
                current + delta
            }
        } else {
            min_int(current + delta, col.len() - 1)
        };
        assert(0 <= next < col.len());
        assert(col[next].id == selected_in_column(s, delta).selected->0);
    }
}

/// After the selection is repaired, a selected card that exists sets the focus.
pub proof fn lemma_selection_sets_focus(s: AppView)
    ensures
        ensured_selection(s).selected_card() matches Some(c) ==> ensured_selection(s).focused
            == c.status,
{
}

/// Typing a character and then Backspace gives back the field's text and
/// the cursor, when the cursor stands within the text.
pub proof fn lemma_type_then_backspace(e: EditorView, ch: char)
    requires
        e.cursor <= active_text(e).len(),
        e.cursor < usize::MAX,
        !(e.field == EditorField::Title && ch == '\n'),
    ensures
        active_text(backspaced(typed(e, ch))) == active_text(e),
        backspaced(typed(e, ch)).cursor == e.cursor,
        backspaced(typed(e, ch)).field == e.field,
        backspaced(typed(e, ch)).title == e.title || e.field == EditorField::Title,
        backspaced(typed(e, ch)).body == e.body || e.field == EditorField::Body,
{
    let t = active_text(e);
    let k = e.cursor as int;
    assert(min_int(k, t.len() as int) == k);
    assert(removed_at(inserted_at(t, k, ch), k) =~= t);
}

/// Running a card once claims at most one To Do card, and nothing while a run
/// is in flight.
pub proof fn lemma_dispatch_claims_one(s: AppView, now_ms: u64, now: Seq<char>)
    requires
        unique_ids(s.board),
    ensures
        s.inflight is Some ==> dispatch_claimed(s, now_ms, now).0 == s && dispatch_claimed(
            s,
            now_ms,
            now,
        ).1 is None,
        dispatch_claimed(s, now_ms, now).1 is None ==> dispatch_claimed(s, now_ms, now).0.board
            == s.board,
        dispatch_claimed(s, now_ms, now).1 matches Some(c) ==> exists|i: int|
            0 <= i < s.board.len() && s.board[i].status == Status::Todo && c.status
                == Status::InProgress && c.id == s.board[i].id && dispatch_claimed(
                s,
                now_ms,
                now,
            ).0.board == s.board.update(i, c),
{
    let r = dispatch_claimed(s, now_ms, now);
    if let Some(c) = r.1 {
        let id = next_dispatch(s.board, s.cooldown)->0;
        let col = in_column(s.board, Status::Todo);
        lemma_next_dispatch_in_column(col, s.cooldown, 0);
        let k = choose|k: int| 0 <= k < col.len() && col[k].id == id;
        lemma_in_column_from(s.board, Status::Todo, k);
        let j = choose|j: int| 0 <= j < s.board.len() && s.board[j] == col[k] && s.board[j].status
            == Status::Todo;
        lemma_unique_index(s.board, j);
    }
}

proof fn lemma_next_dispatch_in_column(col: Seq<CardView>, cooldown: Seq<Seq<char>>, i: int)
    ensures
        first_not_cooling(col, cooldown, i) matches Some(x) ==> exists|k: int|
            0 <= k < col.len() && col[k].id == x,
    decreases col.len() - i,
{
    if 0 <= i < col.len() && cooldown.contains(col[i].id) {
        lemma_next_dispatch_in_column(col, cooldown, i + 1);
    }
}

proof fn lemma_board_key_saves(s: AppView, key: Key, now: Seq<char>)
    ensures
        board_key(s, key, now).0.board != s.board ==> board_key(s, key, now).1 == Action::Save,
{
    match key.code {
        KeyCode::Char('h') | KeyCode::Left => {},
        KeyCode::Char('l') | KeyCode::Right => {},
        _ => {},
    }
}

proof fn lemma_editor_key_saves(s: AppView, e: EditorView, key: Key, now: Seq<char>)
    ensures
        editor_key(s, e, key, now).0.board != s.board ==> editor_key(s, e, key, now).1
            == Action::Save,
{
}

proof fn lemma_review_key_saves(s: AppView, card_id: Seq<char>, key: Key, now: Seq<char>)
    ensures
        review_key(s, card_id, key, now).0.board != s.board ==> review_key(s, card_id, key, now).1
            == Action::Save,
{
}

proof fn lemma_title_key_keeps_board(s: AppView, buffer: Seq<char>, cursor: usize, key: Key)
    ensures
        title_key(s, buffer, cursor, key).board == s.board,
{
}

/// Every key that changes the board asks for a save: creating, editing,
/// moving and reviewing a card are written at once.
pub proof fn lemma_board_changes_are_saved(
    s: AppView,
    key: Key,
    now: Seq<char>,
    id: Seq<char>,
    stamp: Seq<char>,
)
    ensures
        key_step(s, key, now, id, stamp).0.board != s.board ==> key_step(s, key, now, id, stamp).1
            == Action::Save,
{
    if key.press && !(key.ctrl && key.code == KeyCode::Char('c')) {
        match s.mode {
            ModeView::Help => {},
            ModeView::InlineTitle { buffer, cursor } => {
                lemma_title_key_keeps_board(s, buffer, cursor, key);
            },
            ModeView::Editor(e) => {
                lemma_editor_key_saves(s, e, key, now);
            },
            ModeView::ReviewPrompt { card_id } => {
                lemma_review_key_saves(s, card_id, key, now);
            },
            ModeView::Board => {
                lemma_board_key_saves(s, key, now);
            },
        }
    }
}

/// The interval wake and a finished run ask for a save whenever they change
/// the board.
pub proof fn lemma_wake_changes_are_saved(
    s: AppView,
    p: Option<(OutcomeKind, Seq<char>)>,
    now_ms: u64,
    now: Seq<char>,
)
    ensures
        polled(s, p, now).0.board != s.board ==> polled(s, p, now).1 == Action::Save,
        dispatch_claimed(s, now_ms, now).0.board != s.board ==> dispatch_claimed(
            s,
            now_ms,
            now,
        ).1 is Some,
{
}

// ---------------------------------------------------------------------------
// The cooldown list holds each id once
// ---------------------------------------------------------------------------
proof fn lemma_push_unique(c: Seq<Seq<char>>, x: Seq<char>)
    requires
        c.no_duplicates(),
        !c.contains(x),
    ensures
        c.push(x).no_duplicates(),
{
    let d = c.push(x);
    assert forall|i: int, j: int| 0 <= i < d.len() && 0 <= j < d.len() && i != j implies d[i] != d[j] by {
        if i == c.len() {
            assert(d[j] == c[j]);
        } else if j == c.len() {
            assert(d[i] == c[i]);
        } else {
            assert(d[i] == c[i] && d[j] == c[j]);
        }
    }
}

proof fn lemma_insert_unique(c: Seq<Seq<char>>, id: Seq<char>)
    requires
        c.no_duplicates(),
    ensures
        cooldown_insert(c, id).no_duplicates(),
{
    if !c.contains(id) {
        lemma_push_unique(c, id);
    }
}

proof fn lemma_remove_unique(c: Seq<Seq<char>>, id: Seq<char>)
    requires
        c.no_duplicates(),
    ensures
        cooldown_remove(c, id).no_duplicates(),
    decreases c.len(),
{
    if c.len() > 0 {
        let d = c.drop_last();
        let l = c.last();
        assert(d.no_duplicates()) by {
            assert forall|i: int, j: int| 0 <= i < d.len() && 0 <= j < d.len() && i != j implies d[i] != d[j] by {
                assert(d[i] == c[i] && d[j] == c[j]);
            }
        }
        lemma_remove_unique(d, id);
        if l != id {
            lemma_cooldown_remove_absent(d, id);
            if d.contains(l) {
                let k = choose|k: int| 0 <= k < d.len() && d[k] == l;
                assert(c[k] == c[c.len() - 1]);
            }
            lemma_push_unique(cooldown_remove(d, id), l);
        }
    }
}

proof fn lemma_outcome_keeps_unique(
    s: AppView,
    id: Seq<char>,
    kind: OutcomeKind,
    message: Seq<char>,
    now: Seq<char>,
)
    requires
        s.cooldown.no_duplicates(),
    ensures
        outcome_applied(s, id, kind, message, now).0.cooldown.no_duplicates(),
{
    lemma_insert_unique(s.cooldown, id);
}

proof fn lemma_reclaim_ids_keeps_unique(s: AppView, ids: Seq<Seq<char>>, now: Seq<char>)
    requires
        s.cooldown.no_duplicates(),
    ensures
        reclaim_ids(s, ids, now).cooldown.no_duplicates(),
    decreases ids.len(),
{
    if ids.len() > 0 {
        lemma_reclaim_ids_keeps_unique(s, ids.drop_last(), now);
        lemma_insert_unique(reclaim_ids(s, ids.drop_last(), now).cooldown, ids.last());
    }
}

proof fn lemma_reclaimed_keeps_unique(s: AppView, now: Seq<char>)
    requires
        s.cooldown.no_duplicates(),
    ensures
        reclaimed(s, now).0.cooldown.no_duplicates(),
{
    lemma_reclaim_ids_keeps_unique(s, in_progress_ids(s.board), now);
}

proof fn lemma_board_key_keeps_unique(s: AppView, key: Key, now: Seq<char>)
    requires
        s.cooldown.no_duplicates(),
    ensures
        board_key(s, key, now).0.cooldown.no_duplicates(),
{
    if let Some(id) = s.selected {
        lemma_remove_unique(s.cooldown, id);
    }
}

proof fn lemma_editor_key_keeps_unique(s: AppView, e: EditorView, key: Key, now: Seq<char>)
    requires
        s.cooldown.no_duplicates(),
    ensures
        editor_key(s, e, key, now).0.cooldown.no_duplicates(),
{
    lemma_remove_unique(s.cooldown, e.card_id);
}

proof fn lemma_review_key_keeps_unique(s: AppView, card_id: Seq<char>, key: Key, now: Seq<char>)
    requires
        s.cooldown.no_duplicates(),
    ensures
        review_key(s, card_id, key, now).0.cooldown.no_duplicates(),
{
}

proof fn lemma_key_step_keeps_unique(s: AppView, key: Key, now: Seq<char>, id: Seq<char>, stamp: Seq<char>)
    requires
        s.cooldown.no_duplicates(),
    ensures
        key_step(s, key, now, id, stamp).0.cooldown.no_duplicates(),
{
    if key.press && !(key.ctrl && key.code == KeyCode::Char('c')) {
        match s.mode {
            ModeView::Help => {},
            ModeView::InlineTitle { buffer, cursor } => {
                lemma_title_key_keeps_cooldown(s, buffer, cursor, key);
            },
            ModeView::Editor(e) => {
                lemma_editor_key_keeps_unique(s, e, key, now);
            },
            ModeView::ReviewPrompt { card_id } => {
                lemma_review_key_keeps_unique(s, card_id, key, now);
            },
            ModeView::Board => {
                lemma_board_key_keeps_unique(s, key, now);
            },
        }
    }
}

proof fn lemma_title_key_keeps_cooldown(s: AppView, buffer: Seq<char>, cursor: usize, key: Key)
    ensures
        title_key(s, buffer, cursor, key).cooldown == s.cooldown,
{
}

/// The cooldown list never holds an id twice: a freshly loaded state starts
/// that way, and every key, tick, finished run, launch, reclaim and quit keeps
/// it so.
pub proof fn lemma_cooldown_stays_unique(
    s: AppView,
    key: Key,
    now: Seq<char>,
    id: Seq<char>,
    stamp: Seq<char>,
    p: Option<(OutcomeKind, Seq<char>)>,
    now_ms: u64,
    received: Option<(OutcomeKind, Seq<char>)>,
    c: CardView,
    board: Seq<CardView>,
    path: Seq<char>,
    config: ConfigView,
)
    ensures
        loaded(board, path, config, now_ms, now).0.cooldown.no_duplicates(),
        s.cooldown.no_duplicates() ==> {
            &&& key_step(s, key, now, id, stamp).0.cooldown.no_duplicates()
            &&& polled(s, p, now).0.cooldown.no_duplicates()
            &&& dispatch_claimed(s, now_ms, now).0.cooldown.no_duplicates()
            &&& launched(s, c).cooldown.no_duplicates()
            &&& reclaimed(s, now).0.cooldown.no_duplicates()
            &&& quitting(s, received, now).cooldown.no_duplicates()
        },
{
    assert(Seq::<Seq<char>>::empty().no_duplicates());
    lemma_reclaimed_keeps_unique(ensured_selection(opened(board, path, config, now_ms)), now);
    if s.cooldown.no_duplicates() {
        lemma_key_step_keeps_unique(s, key, now, id, stamp);
        if let Some(i) = s.inflight {
            if let Some(o) = p {
                lemma_outcome_keeps_unique(AppView { inflight: None, ..s }, i, o.0, o.1, now);
            }
        }
        lemma_reclaimed_keeps_unique(s, now);
        let s1 = cancelled(s, received, now).0;
        if let Some(i) = s.inflight {
            let o = match received {
                Some(r) => r,
                None => (OutcomeKind::Failure, log_text("interrupted on quit"@)),
            };
            let o2 = match o.0 {
                OutcomeKind::Success => o,
                OutcomeKind::Failure => (OutcomeKind::Failure, log_text("interrupted on quit: "@ + o.1)),
            };
            lemma_outcome_keeps_unique(AppView { inflight: None, ..s }, i, o2.0, o2.1, now);
        }
        lemma_reclaimed_keeps_unique(s1, now);
    }
}

} // verus!
