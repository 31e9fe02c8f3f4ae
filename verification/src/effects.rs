//! What each transition does to the card it acts on, stated field by field:
//! its status, title, body, revision count and the log entry it gains.

use vstd::prelude::*;

use crate::app::{
    cancelled, card_with_id, dispatch_claimed, editor_committed, elapsed_ms, in_progress_ids,
    outcome_applied, polled, reclaim_ids, reclaimed, replace_card, review_accepted, title_committed,
    Action, AppView, EditorCommit, EditorView, ModeView,
};
use crate::dispatch::{grok_reply, json_parses, json_summary, last_line, log_text, OutcomeKind};
use crate::laws::{lemma_in_column_from, lemma_in_progress_ids, unique_ids};
use crate::model::in_column;
use crate::model::{index_of_id, is_first_with_id, lemma_index_of_id, CardView, LogEntryView, Status};
use crate::text::trimmed;

verus! {

/// Replacing the card found under `id` by one with the same id leaves exactly
/// that replacement under `id`.
proof fn lemma_replaced_card(board: Seq<CardView>, id: Seq<char>, c2: CardView)
    requires
        card_with_id(board, id) is Some,
        c2.id == id,
    ensures
        card_with_id(board, id)->0.id == id,
        card_with_id(replace_card(board, id, c2), id) == Some(c2),
        replace_card(board, id, c2).len() == board.len(),
{
    lemma_index_of_id(board, id);
    let i = index_of_id(board, id)->0;
    let b2 = board.update(i, c2);
    assert(is_first_with_id(b2, i, id));
    lemma_index_of_id(b2, id);
}

/// The card found under `id` carries that id.
proof fn lemma_found_card_id(board: Seq<CardView>, id: Seq<char>)
    ensures
        card_with_id(board, id) matches Some(c) ==> c.id == id,
{
    lemma_index_of_id(board, id);
}

/// The interval wake starts no run and changes nothing while dispatching is
/// off, a run is in flight, another screen is open, or the interval has not
/// yet passed since the last wake.
pub proof fn lemma_wake_idle_unless_due(s: AppView, now_ms: u64, now: Seq<char>)
    ensures
        !s.config.enabled ==> dispatch_claimed(s, now_ms, now) == (s, None::<CardView>),
        s.inflight is Some ==> dispatch_claimed(s, now_ms, now) == (s, None::<CardView>),
        !(s.mode is Board) ==> dispatch_claimed(s, now_ms, now) == (s, None::<CardView>),
        elapsed_ms(now_ms, s.last_wake) < s.config.interval_ms ==> dispatch_claimed(s, now_ms, now)
            == (s, None::<CardView>),
{
}

/// A card the wake claims was not cooling down, and the wake was due; on the
/// board it is now In Progress, with its title, body and revisions as they
/// were and a `dispatch` entry stamped `now` added to its log.
pub proof fn lemma_claimed_card(s: AppView, now_ms: u64, now: Seq<char>)
    ensures
        dispatch_claimed(s, now_ms, now).1 matches Some(c) ==> {
            &&& s.config.enabled
            &&& s.inflight is None
            &&& s.mode is Board
            &&& elapsed_ms(now_ms, s.last_wake) >= s.config.interval_ms
            &&& card_with_id(s.board, c.id) matches Some(old_c) && {
                &&& c.status == Status::InProgress
                &&& c.title == old_c.title
                &&& c.body == old_c.body
                &&& c.revision_count == old_c.revision_count
                &&& c.agent_log == old_c.agent_log.push(
                    LogEntryView { at: now, kind: "dispatch"@, message: "picked from To Do"@ },
                )
            }
            &&& !s.cooldown.contains(c.id)
            &&& card_with_id(dispatch_claimed(s, now_ms, now).0.board, c.id) == Some(c)
        },
{
    let r = dispatch_claimed(s, now_ms, now);
    if let Some(c) = r.1 {
        let id = crate::app::next_dispatch(s.board, s.cooldown)->0;
        lemma_found_card_id(s.board, id);
        lemma_replaced_card(s.board, id, c);
        crate::laws::lemma_dispatch_skips_cooldown(s.board, s.cooldown);
    }
}

/// A finished run applied to a card that is on the board: the card keeps its
/// title and body and gains one log entry stamped `now` holding the run's own
/// message. Success sends it to Review with its revisions unchanged; failure
/// sends it to To Do with one more revision (held at the maximum) and puts its
/// id in the cooldown. A run for a card no longer on the board changes nothing.
pub proof fn lemma_outcome_on_card(
    s: AppView,
    id: Seq<char>,
    kind: OutcomeKind,
    message: Seq<char>,
    now: Seq<char>,
)
    ensures
        card_with_id(s.board, id) is None ==> outcome_applied(s, id, kind, message, now) == (
            s,
            Action::Nothing,
        ),
        card_with_id(s.board, id) matches Some(old_c) ==> {
            let r = outcome_applied(s, id, kind, message, now);
            &&& r.1 == Action::Save
            &&& card_with_id(r.0.board, id) matches Some(c) && {
                &&& c.title == old_c.title
                &&& c.body == old_c.body
                &&& c.agent_log == old_c.agent_log.push(
                    LogEntryView {
                        at: now,
                        kind: if kind == OutcomeKind::Success {
                            "success"@
                        } else {
                            "error"@
                        },
                        message,
                    },
                )
                &&& kind == OutcomeKind::Success ==> c.status == Status::Review
                    && c.revision_count == old_c.revision_count
                &&& kind == OutcomeKind::Failure ==> c.status == Status::Todo
                    && c.revision_count == (if old_c.revision_count == u32::MAX {
                    old_c.revision_count as int
                } else {
                    old_c.revision_count + 1
                })
            }
            &&& kind == OutcomeKind::Success ==> r.0.cooldown == s.cooldown
            &&& kind == OutcomeKind::Failure ==> r.0.cooldown.contains(id)
        },
{
    if let Some(old_c) = card_with_id(s.board, id) {
        lemma_found_card_id(s.board, id);
        let c2 = match kind {
            OutcomeKind::Success => old_c.with_status(Status::Review).logged("success"@, message, now),
            OutcomeKind::Failure => old_c.with_status(Status::Todo).revised().logged(
                "error"@,
                message,
                now,
            ),
        };
        lemma_replaced_card(s.board, id, c2);
        if kind == OutcomeKind::Failure && !s.cooldown.contains(id) {
            assert(s.cooldown.push(id)[s.cooldown.len() as int] == id);
        }
    }
}

/// Polling a run that has answered ends it: nothing is in flight any more,
/// and the card the run was on gains a log entry holding the answer's message
/// (`success` or `error`, as the answer says).
pub proof fn lemma_poll_logs_answer(
    s: AppView,
    id: Seq<char>,
    kind: OutcomeKind,
    message: Seq<char>,
    now: Seq<char>,
)
    requires
        s.inflight == Some(id),
        card_with_id(s.board, id) is Some,
    ensures
        ({
            let r = polled(s, Some((kind, message)), now);
            &&& r.0.inflight is None
            &&& r.1 == Action::Save
            &&& card_with_id(r.0.board, id) matches Some(c) && c.agent_log.last() == (LogEntryView {
                at: now,
                kind: if kind == OutcomeKind::Success {
                    "success"@
                } else {
                    "error"@
                },
                message,
            })
        }),
{
    lemma_outcome_on_card(AppView { inflight: None, ..s }, id, kind, message, now);
}

/// The agent's reply: blank output is an error; output that is one JSON value
/// as a whole (once trimmed) is read as that value, whatever its last line
/// holds; otherwise its last line, trimmed, is read if it is one JSON value;
/// otherwise it is an error.
pub proof fn lemma_reply_reads_whole_output_first(stdout: Seq<char>)
    ensures
        trimmed(stdout).len() == 0 ==> grok_reply(stdout) is Err,
        trimmed(stdout).len() > 0 && json_parses(trimmed(stdout)) ==> grok_reply(stdout) == Ok::<
            Seq<char>,
            Seq<char>,
        >(json_summary(trimmed(stdout))),
        trimmed(stdout).len() > 0 && !json_parses(trimmed(stdout)) && json_parses(
            trimmed(last_line(trimmed(stdout))),
        ) ==> grok_reply(stdout) == Ok::<Seq<char>, Seq<char>>(
            json_summary(trimmed(last_line(trimmed(stdout)))),
        ),
        trimmed(stdout).len() > 0 && !json_parses(trimmed(stdout)) && !json_parses(
            trimmed(last_line(trimmed(stdout))),
        ) ==> grok_reply(stdout) is Err,
{
}

/// Saving the editor: a blank title changes nothing but the status line. A
/// non-blank one returns to the board with the card selected and asks for a
/// save; the card takes the trimmed edited title and the edited body, keeps
/// its id and creation time, and is updated `now`. A revise sends it to To Do
/// with one more revision and a `revise` entry; a save that queues a Capture
/// card sends it to To Do with an `edit` entry; any other save keeps its
/// status, revisions and log.
pub proof fn lemma_editor_save_stores_edits(s: AppView, e: EditorView, queue_todo: bool, now: Seq<char>)
    ensures
        trimmed(e.title).len() == 0 ==> {
            let r = editor_committed(s, e, queue_todo, now);
            &&& r.1 == Action::Nothing
            &&& r.0.board == s.board
            &&& r.0.mode == s.mode
        },
        trimmed(e.title).len() > 0 ==> {
            let r = editor_committed(s, e, queue_todo, now);
            &&& r.1 == Action::Save
            &&& r.0.mode == ModeView::Board
            &&& r.0.selected == Some(e.card_id)
        },
        trimmed(e.title).len() > 0 && card_with_id(s.board, e.card_id) is None ==> editor_committed(
            s,
            e,
            queue_todo,
            now,
        ).0.board == s.board,
        trimmed(e.title).len() > 0 ==> (card_with_id(s.board, e.card_id) matches Some(old_c) ==> {
            let r = editor_committed(s, e, queue_todo, now);
            card_with_id(r.0.board, e.card_id) matches Some(c) && {
                &&& c.title == trimmed(e.title)
                &&& c.body == e.body
                &&& c.id == old_c.id
                &&& c.created_at == old_c.created_at
                &&& c.updated_at == now
                &&& e.commit == EditorCommit::Revise ==> {
                    &&& c.status == Status::Todo
                    &&& c.revision_count == (if old_c.revision_count == u32::MAX {
                        old_c.revision_count as int
                    } else {
                        old_c.revision_count + 1
                    })
                    &&& c.agent_log == old_c.agent_log.push(
                        LogEntryView {
                            at: now,
                            kind: "revise"@,
                            message: "revised from Review; returned to To Do"@,
                        },
                    )
                }
                &&& e.commit == EditorCommit::Save && queue_todo && old_c.status == Status::Capture
                    ==> {
                    &&& c.status == Status::Todo
                    &&& c.revision_count == old_c.revision_count
                    &&& c.agent_log == old_c.agent_log.push(
                        LogEntryView { at: now, kind: "edit"@, message: "enriched and queued to To Do"@ },
                    )
                }
                &&& e.commit == EditorCommit::Save && !(queue_todo && old_c.status == Status::Capture)
                    ==> {
                    &&& c.status == old_c.status
                    &&& c.revision_count == old_c.revision_count
                    &&& c.agent_log == old_c.agent_log
                }
            }
        }),
{
    let id = e.card_id;
    if trimmed(e.title).len() > 0 {
        if let Some(old_c) = card_with_id(s.board, id) {
            lemma_found_card_id(s.board, id);
            let edited = CardView { title: trimmed(e.title), body: e.body, updated_at: now, ..old_c };
            let c2 = match e.commit {
                EditorCommit::Revise => edited.with_status(Status::Todo).revised().logged(
                    "revise"@,
                    "revised from Review; returned to To Do"@,
                    now,
                ),
                EditorCommit::Save => if queue_todo && old_c.status == Status::Capture {
                    edited.with_status(Status::Todo).logged("edit"@, "enriched and queued to To Do"@, now)
                } else {
                    edited
                },
            };
            lemma_replaced_card(s.board, id, c2);
        }
    }
}

/// Accepting a card that is in Review sends it to Done and asks for a save;
/// its title, body and revision count stay as they were, and it gains an
/// `accept` entry stamped `now`. A card missing or no longer in Review is
/// left alone: the board is unchanged and nothing is saved.
pub proof fn lemma_accept_keeps_revisions(s: AppView, id: Seq<char>, now: Seq<char>)
    ensures
        card_with_id(s.board, id) matches Some(old_c) ==> (old_c.status == Status::Review ==> {
            let r = review_accepted(s, id, now);
            &&& r.1 == Action::Save
            &&& r.0.mode == ModeView::Board
            &&& card_with_id(r.0.board, id) matches Some(c) && {
                &&& c.status == Status::Done
                &&& c.title == old_c.title
                &&& c.body == old_c.body
                &&& c.revision_count == old_c.revision_count
                &&& c.agent_log == old_c.agent_log.push(
                    LogEntryView { at: now, kind: "accept"@, message: "accepted from Review"@ },
                )
            }
        }),
        !(match card_with_id(s.board, id) {
            Some(old_c) => old_c.status == Status::Review,
            None => false,
        }) ==> {
            let r = review_accepted(s, id, now);
            &&& r.1 == Action::Nothing
            &&& r.0.board == s.board
        },
{
    if let Some(old_c) = card_with_id(s.board, id) {
        lemma_found_card_id(s.board, id);
        if old_c.status == Status::Review {
            lemma_replaced_card(
                s.board,
                id,
                old_c.with_status(Status::Done).logged("accept"@, "accepted from Review"@, now),
            );
        }
    }
}

/// Stopping the run in flight on quit ends it and logs on its card what came
/// of it: a success keeps the agent's message and goes to Review; a failure,
/// or no answer at all, is logged as an interruption and goes to To Do (no
/// answer counts as a failure whose message is itself "interrupted on quit").
pub proof fn lemma_quit_logs_interruption(
    s: AppView,
    id: Seq<char>,
    received: Option<(OutcomeKind, Seq<char>)>,
    now: Seq<char>,
)
    requires
        s.inflight == Some(id),
        card_with_id(s.board, id) is Some,
    ensures
        ({
            let r = cancelled(s, received, now);
            &&& r.0.inflight is None
            &&& card_with_id(r.0.board, id) matches Some(c) && {
                &&& c.agent_log.last() == match received {
                    Some((OutcomeKind::Success, m)) => LogEntryView { at: now, kind: "success"@, message: m },
                    Some((OutcomeKind::Failure, m)) => LogEntryView {
                        at: now,
                        kind: "error"@,
                        message: log_text("interrupted on quit: "@ + m),
                    },
                    None => LogEntryView {
                        at: now,
                        kind: "error"@,
                        message: log_text("interrupted on quit: "@ + log_text("interrupted on quit"@)),
                    },
                }
                &&& c.status == match received {
                    Some((OutcomeKind::Success, _)) => Status::Review,
                    _ => Status::Todo,
                }
            }
        }),
{
    let s0 = AppView { inflight: None, ..s };
    match received {
        Some((OutcomeKind::Success, m)) => lemma_outcome_on_card(s0, id, OutcomeKind::Success, m, now),
        Some((OutcomeKind::Failure, m)) => lemma_outcome_on_card(
            s0,
            id,
            OutcomeKind::Failure,
            log_text("interrupted on quit: "@ + m),
            now,
        ),
        None => lemma_outcome_on_card(
            s0,
            id,
            OutcomeKind::Failure,
            log_text("interrupted on quit: "@ + log_text("interrupted on quit"@)),
            now,
        ),
    }
}

/// Enter in the title prompt: a blank title adds no card and saves nothing.
/// Otherwise exactly one card is added at the end of the board, everything
/// before it unchanged: the trimmed title, an empty body, in Capture, with no
/// revisions and an empty log, under the fresh `id` and created and updated
/// at `stamp`; it becomes the selection, its column is focused, and the board
/// is saved.
pub proof fn lemma_title_creates_one_card(s: AppView, buffer: Seq<char>, id: Seq<char>, stamp: Seq<char>)
    ensures
        trimmed(buffer).len() == 0 ==> title_committed(s, buffer, id, stamp).0.board == s.board
            && title_committed(s, buffer, id, stamp).1 == Action::Nothing,
        trimmed(buffer).len() > 0 ==> {
            let r = title_committed(s, buffer, id, stamp);
            &&& r.1 == Action::Save
            &&& r.0.board.len() == s.board.len() + 1
            &&& r.0.board.drop_last() == s.board
            &&& r.0.board.last() == (CardView {
                id,
                title: trimmed(buffer),
                body: Seq::empty(),
                status: Status::Capture,
                revision_count: 0,
                agent_log: Seq::empty(),
                created_at: stamp,
                updated_at: stamp,
            })
            &&& r.0.selected == Some(id)
            &&& r.0.focused == Status::Capture
            &&& r.0.mode == ModeView::Board
        },
{
    if trimmed(buffer).len() > 0 {
        let r = title_committed(s, buffer, id, stamp);
        assert(r.0.board.drop_last() =~= s.board);
    }
}

proof fn lemma_column_ids_distinct(b: Seq<CardView>, st: Status)
    requires
        unique_ids(b),
    ensures
        in_column(b, st).map_values(|c: CardView| c.id).no_duplicates(),
    decreases b.len(),
{
    if b.len() > 0 {
        let d = b.drop_last();
        assert(unique_ids(d)) by {
            assert forall|i: int, j: int| 0 <= i < j < d.len() implies d[i].id != d[j].id by {
                assert(d[i] == b[i] && d[j] == b[j]);
            }
        }
        lemma_column_ids_distinct(d, st);
        let rest = in_column(d, st);
        let m = rest.map_values(|c: CardView| c.id);
        if b.last().status == st {
            let x = b.last().id;
            assert(!m.contains(x)) by {
                if m.contains(x) {
                    let k = choose|k: int| 0 <= k < m.len() && m[k] == x;
                    lemma_in_column_from(d, st, k);
                    let j = choose|j: int| 0 <= j < d.len() && d[j] == rest[k] && d[j].status == st;
                    assert(d[j] == b[j]);
                    assert(b[j].id != b[b.len() - 1].id);
                }
            }
            let n = in_column(b, st).map_values(|c: CardView| c.id);
            assert(n =~= m.push(x));
            assert forall|i: int, j: int| 0 <= i < n.len() && 0 <= j < n.len() && i != j implies n[i]
                != n[j] by {
                if i == m.len() {
                    assert(n[j] == m[j]);
                } else if j == m.len() {
                    assert(n[i] == m[i]);
                } else {
                    assert(n[i] == m[i] && n[j] == m[j]);
                }
            }
        } else {
            assert(in_column(b, st) == rest);
        }
    }
}

/// What a reclaim does to one card.
spec fn reclaimed_card(c: CardView, now: Seq<char>) -> CardView {
    c.with_status(Status::Todo).revised().logged(
        "error"@,
        "reclaimed: process ended while card was in progress"@,
        now,
    )
}

proof fn lemma_reclaim_ids_cards(s: AppView, ids: Seq<Seq<char>>, now: Seq<char>)
    requires
        unique_ids(s.board),
        ids.no_duplicates(),
    ensures
        reclaim_ids(s, ids, now).board.len() == s.board.len(),
        forall|j: int|
            0 <= j < s.board.len() ==> #[trigger] reclaim_ids(s, ids, now).board[j] == if ids.contains(
                s.board[j].id,
            ) {
                reclaimed_card(s.board[j], now)
            } else {
                s.board[j]
            },
    decreases ids.len(),
{
    if ids.len() > 0 {
        let d = ids.drop_last();
        let id = ids.last();
        assert(d.no_duplicates()) by {
            assert forall|i: int, j: int| 0 <= i < d.len() && 0 <= j < d.len() && i != j implies d[i]
                != d[j] by {
                assert(d[i] == ids[i] && d[j] == ids[j]);
            }
        }
        lemma_reclaim_ids_cards(s, d, now);
        let prev = reclaim_ids(s, d, now);
        let r = reclaim_ids(s, ids, now);
        assert(!d.contains(id)) by {
            if d.contains(id) {
                let k = choose|k: int| 0 <= k < d.len() && d[k] == id;
                assert(ids[k] == ids[ids.len() - 1]);
            }
        }
        assert forall|x: Seq<char>| #[trigger] ids.contains(x) <==> (d.contains(x) || x == id) by {
            if ids.contains(x) {
                let k = choose|k: int| 0 <= k < ids.len() && ids[k] == x;
                if k < d.len() {
                    assert(d[k] == x);
                }
            }
            if d.contains(x) {
                let k = choose|k: int| 0 <= k < d.len() && d[k] == x;
                assert(ids[k] == x);
            }
            if x == id {
                assert(ids[ids.len() - 1] == x);
            }
        }
        assert forall|j: int| 0 <= j < s.board.len() implies #[trigger] prev.board[j].id == s.board[j].id by {
            assert(prev.board[j] == if d.contains(s.board[j].id) {
                reclaimed_card(s.board[j], now)
            } else {
                s.board[j]
            });
        }
        lemma_index_of_id(prev.board, id);
        match index_of_id(prev.board, id) {
            Some(i) => {
                assert(prev.board[i] == s.board[i]);
                assert(r.board == prev.board.update(i, reclaimed_card(s.board[i], now)));
                assert forall|j: int| 0 <= j < s.board.len() implies #[trigger] r.board[j] == if ids.contains(
                    s.board[j].id,
                ) {
                    reclaimed_card(s.board[j], now)
                } else {
                    s.board[j]
                } by {
                    if j != i {
                        assert(r.board[j] == prev.board[j]);
                        assert(s.board[j].id != s.board[i].id);
                    }
                }
            },
            None => {
                assert forall|j: int| 0 <= j < s.board.len() implies #[trigger] r.board[j] == if ids.contains(
                    s.board[j].id,
                ) {
                    reclaimed_card(s.board[j], now)
                } else {
                    s.board[j]
                } by {
                    assert(prev.board[j].id != id);
                }
            },
        }
    }
}

/// Reclaiming cards left In Progress, on a board with distinct ids: each such
/// card goes to To Do with one more revision (held at the maximum) and an
/// `error` entry stamped `now`, keeping its id, title and body; every other
/// card stays exactly as it was. A save is asked for exactly when some card
/// was In Progress.
pub proof fn lemma_reclaim_each_card(s: AppView, now: Seq<char>)
    requires
        unique_ids(s.board),
    ensures
        reclaimed(s, now).0.board.len() == s.board.len(),
        forall|j: int|
            0 <= j < s.board.len() && s.board[j].status != Status::InProgress ==> #[trigger] reclaimed(
                s,
                now,
            ).0.board[j] == s.board[j],
        forall|j: int|
            0 <= j < s.board.len() && s.board[j].status == Status::InProgress ==> {
                let c = #[trigger] reclaimed(s, now).0.board[j];
                let o = s.board[j];
                &&& c.status == Status::Todo
                &&& c.id == o.id
                &&& c.title == o.title
                &&& c.body == o.body
                &&& c.revision_count == (if o.revision_count == u32::MAX {
                    o.revision_count as int
                } else {
                    o.revision_count + 1
                })
                &&& c.agent_log == o.agent_log.push(
                    LogEntryView {
                        at: now,
                        kind: "error"@,
                        message: "reclaimed: process ended while card was in progress"@,
                    },
                )
            },
        reclaimed(s, now).1 == Action::Save <==> exists|j: int|
            0 <= j < s.board.len() && s.board[j].status == Status::InProgress,
{
    let ids = in_progress_ids(s.board);
    lemma_column_ids_distinct(s.board, Status::InProgress);
    lemma_reclaim_ids_cards(s, ids, now);
    assert forall|j: int| 0 <= j < s.board.len() implies (ids.contains(s.board[j].id) <==> s.board[j].status
        == Status::InProgress) by {
        lemma_in_progress_ids(s.board, s.board[j].id);
        if ids.contains(s.board[j].id) && s.board[j].status != Status::InProgress {
            let k = choose|k: int|
                0 <= k < s.board.len() && s.board[k].id == s.board[j].id && s.board[k].status
                    == Status::InProgress;
            assert(k != j);
        }
    }
    if exists|j: int| 0 <= j < s.board.len() && s.board[j].status == Status::InProgress {
        let j = choose|j: int| 0 <= j < s.board.len() && s.board[j].status == Status::InProgress;
        assert(ids.contains(s.board[j].id));
    }
    if ids.len() > 0 {
        let x = ids[0];
        assert(ids.contains(x));
        lemma_in_progress_ids(s.board, x);
    }
}

} // verus!
