//! The board model: five status columns, cards with an agent log, and the
//! board that holds them in insertion order.

use vstd::prelude::*;

use crate::clock::{rfc3339_text, timestamp_now};
use crate::text::{
    blank, decimal, first_filled_line, first_nonblank_line, owned, push_decimal, push_str,
    string_of_range, trim_bounds, trimmed, chars_of, truncate_chars, truncated,
};

verus! {

// ---------------------------------------------------------------------------
// Status: the five columns of the board
// ---------------------------------------------------------------------------
/// Where a card stands on the board; each status is one column, left to right.
#[derive(Clone, Copy, PartialEq, Eq, Structural, Debug)]
pub enum Status {
    Capture,
    Todo,
    InProgress,
    Review,
    Done,
}

impl Status {
    pub const ALL: [Status; 5] = [
        Status::Capture,
        Status::Todo,
        Status::InProgress,
        Status::Review,
        Status::Done,
    ];

    /// The column's position, 0 for Capture to 4 for Done.
    pub open spec fn rank(self) -> int {
        match self {
            Status::Capture => 0,
            Status::Todo => 1,
            Status::InProgress => 2,
            Status::Review => 3,
            Status::Done => 4,
        }
    }

    pub open spec fn title_text(self) -> Seq<char> {
        match self {
            Status::Capture => "Capture"@,
            Status::Todo => "To Do"@,
            Status::InProgress => "In Progress"@,
            Status::Review => "Review"@,
            Status::Done => "Done"@,
        }
    }

    /// The column heading.
    pub fn title(self) -> (t: &'static str)
        ensures
            t@ == self.title_text(),
    {
        match self {
            Status::Capture => "Capture",
            Status::Todo => "To Do",
            Status::InProgress => "In Progress",
            Status::Review => "Review",
            Status::Done => "Done",
        }
    }

    pub open spec fn left_of(self) -> Status {
        match self {
            Status::Capture => Status::Capture,
            Status::Todo => Status::Capture,
            Status::InProgress => Status::Todo,
            Status::Review => Status::InProgress,
            Status::Done => Status::Review,
        }
    }

    pub open spec fn right_of(self) -> Status {
        match self {
            Status::Capture => Status::Todo,
            Status::Todo => Status::InProgress,
            Status::InProgress => Status::Review,
            Status::Review => Status::Done,
            Status::Done => Status::Done,
        }
    }

    /// The column to the left; Capture stays.
    pub fn saturating_left(self) -> (s: Status)
        ensures
            s == self.left_of(),
            s.rank() == if self.rank() == 0 { 0 } else { self.rank() - 1 },
    {
        match self {
            Status::Capture => Status::Capture,
            Status::Todo => Status::Capture,
            Status::InProgress => Status::Todo,
            Status::Review => Status::InProgress,
            Status::Done => Status::Review,
        }
    }

    /// The column to the right; Done stays.
    pub fn saturating_right(self) -> (s: Status)
        ensures
            s == self.right_of(),
            s.rank() == if self.rank() == 4 { 4 } else { self.rank() + 1 },
    {
        match self {
            Status::Capture => Status::Todo,
            Status::Todo => Status::InProgress,
            Status::InProgress => Status::Review,
            Status::Review => Status::Done,
            Status::Done => Status::Done,
        }
    }
}

/// Moving one column left and then right (or right, then left) returns a
/// status to itself, except at the two ends, where the first move stays put.
pub proof fn lemma_left_right_inverse(s: Status)
    ensures
        s != Status::Capture ==> s.left_of().right_of() == s,
        s != Status::Done ==> s.right_of().left_of() == s,
        s.rank() == 0 <==> s.left_of() == s,
        s.rank() == 4 <==> s.right_of() == s,
{
}

// ---------------------------------------------------------------------------
// Column and CardStatus: the three-column layout and the run states
// ---------------------------------------------------------------------------
/// A column of the three-column layout (Backlog, Running, Done).
#[derive(Clone, Copy, PartialEq, Eq, Structural, Debug)]
pub enum Column {
    Backlog,
    Running,
    Done,
}

impl Column {
    pub const ALL: [Column; 3] = [Column::Backlog, Column::Running, Column::Done];

    pub open spec fn position(self) -> nat {
        match self {
            Column::Backlog => 0,
            Column::Running => 1,
            Column::Done => 2,
        }
    }

    pub fn title(self) -> (t: &'static str)
        ensures
            t@ == match self {
                Column::Backlog => "Backlog"@,
                Column::Running => "Running"@,
                Column::Done => "Done"@,
            },
    {
        match self {
            Column::Backlog => "Backlog",
            Column::Running => "Running",
            Column::Done => "Done",
        }
    }

    /// The column numbered `n` from 1.
    pub fn from_number(n: u8) -> (c: Option<Column>)
        ensures
            1 <= n <= 3 ==> c is Some && c->0.position() == n - 1,
            !(1 <= n <= 3) ==> c is None,
    {
        match n {
            1 => Some(Column::Backlog),
            2 => Some(Column::Running),
            3 => Some(Column::Done),
            _ => None,
        }
    }

    pub fn index(self) -> (i: usize)
        ensures
            i == self.position(),
    {
        match self {
            Column::Backlog => 0,
            Column::Running => 1,
            Column::Done => 2,
        }
    }

    /// The column at position `i`, counted modulo 3.
    pub fn from_index(i: usize) -> (c: Column)
        ensures
            c.position() == i % 3,
    {
        Self::ALL[i % 3]
    }

    pub fn saturating_prev(self) -> (c: Column)
        ensures
            c.position() == if self.position() == 0 { 0 } else { self.position() - 1 },
    {
        match self {
            Column::Backlog => Column::Backlog,
            Column::Running => Column::Backlog,
            Column::Done => Column::Running,
        }
    }

    pub fn saturating_next(self) -> (c: Column)
        ensures
            c.position() == if self.position() == 2 { 2 } else { self.position() + 1 },
    {
        match self {
            Column::Backlog => Column::Running,
            Column::Running => Column::Done,
            Column::Done => Column::Done,
        }
    }
}

/// Each column number from 1 to 3 names the column at that position, and back.
pub proof fn lemma_column_numbering(c: Column)
    ensures
        c.position() < 3,
        (c.position() + 3) % 3 == c.position(),
{
}

/// The state of an agent run on a card.
#[derive(Clone, Copy, PartialEq, Eq, Structural, Debug)]
pub enum CardStatus {
    Idle,
    Running,
    Success,
    Failed,
}

impl CardStatus {
    pub fn label(self) -> (t: &'static str)
        ensures
            t@ == match self {
                CardStatus::Idle => "idle"@,
                CardStatus::Running => "running"@,
                CardStatus::Success => "ok"@,
                CardStatus::Failed => "fail"@,
            },
    {
        match self {
            CardStatus::Idle => "idle",
            CardStatus::Running => "running",
            CardStatus::Success => "ok",
            CardStatus::Failed => "fail",
        }
    }

    pub fn glyph(self) -> (t: &'static str)
        ensures
            t@ == match self {
                CardStatus::Idle => "·"@,
                CardStatus::Running => "●"@,
                CardStatus::Success => "✓"@,
                CardStatus::Failed => "✗"@,
            },
    {
        match self {
            CardStatus::Idle => "·",
            CardStatus::Running => "●",
            CardStatus::Success => "✓",
            CardStatus::Failed => "✗",
        }
    }
}

// ---------------------------------------------------------------------------
// Run records: a card's place in the three-column layout and its last run
// ---------------------------------------------------------------------------
/// Where a card stands in the three-column layout, how its last agent run
/// went, and that run's summary.
pub struct RunRecord {
    pub column: Column,
    pub status: CardStatus,
    pub last_summary: Option<String>,
}

pub struct RunRecordView {
    pub column: Column,
    pub status: CardStatus,
    pub last_summary: Option<Seq<char>>,
}

impl View for RunRecord {
    type V = RunRecordView;

    open spec fn view(&self) -> RunRecordView {
        RunRecordView {
            column: self.column,
            status: self.status,
            last_summary: match self.last_summary {
                Some(t) => Some(t@),
                None => None,
            },
        }
    }
}

/// The summary a run left in Running gets when it had none worth keeping.
pub open spec fn interrupted_note() -> Seq<char> {
    "Run interrupted (app quit or crashed)."@
}

impl RunRecordView {
    /// The first non-blank line of the summary, trimmed and cut to
    /// `max_chars`; empty without a summary.
    pub open spec fn preview(self, max_chars: int) -> Seq<char> {
        match self.last_summary {
            Some(t) => truncated(first_filled_line(t, 0), max_chars),
            None => Seq::empty(),
        }
    }

    /// A record still Running lands in Done as failed, keeping a non-blank
    /// summary and otherwise noting the interruption; others stay as they are.
    pub open spec fn recovered(self) -> RunRecordView {
        if self.status == CardStatus::Running {
            RunRecordView {
                column: Column::Done,
                status: CardStatus::Failed,
                last_summary: Some(
                    match self.last_summary {
                        Some(t) => if trimmed(t).len() > 0 {
                            t
                        } else {
                            interrupted_note()
                        },
                        None => interrupted_note(),
                    },
                ),
            }
        } else {
            self
        }
    }
}

/// How many records are Running.
pub open spec fn running_count(runs: Seq<RunRecordView>) -> nat
    decreases runs.len(),
{
    if runs.len() == 0 {
        0
    } else {
        running_count(runs.drop_last()) + if runs.last().status == CardStatus::Running {
            1nat
        } else {
            0nat
        }
    }
}

impl RunRecord {
    /// The first non-blank line of the last summary, trimmed and cut to
    /// `max_chars` characters (a cut ends in `…`); empty without a summary.
    pub fn summary_preview(&self, max_chars: usize) -> (r: String)
        ensures
            r@ == self@.preview(max_chars as int),
    {
        match &self.last_summary {
            Some(t) => {
                let line = first_nonblank_line(t.as_str());
                truncate_chars(line.as_str(), max_chars)
            },
            None => String::new(),
        }
    }
}

/// Records left Running (after a crash or a quit) land in Done as failed, so
/// none stays stuck in Running; returns how many there were.
pub fn recover_interrupted_runs(runs: &mut Vec<RunRecord>) -> (n: usize)
    ensures
        final(runs)@.len() == old(runs)@.len(),
        forall|i: int| 0 <= i < old(runs)@.len() ==> #[trigger] final(runs)@[i]@ == old(runs)@[i]@.recovered(),
        forall|i: int| 0 <= i < final(runs)@.len() ==> #[trigger] final(runs)@[i].status != CardStatus::Running,
        n == running_count(old(runs)@.map_values(|r: RunRecord| r@)),
{
    let ghost old_views = runs@.map_values(|r: RunRecord| r@);
    let ghost start = runs@;
    let mut recovered: usize = 0;
    let mut i: usize = 0;
    while i < runs.len()
        invariant
            i <= runs.len(),
            runs@.len() == start.len(),
            old_views == start.map_values(|r: RunRecord| r@),
            forall|k: int| 0 <= k < i ==> #[trigger] runs@[k]@ == start[k]@.recovered(),
            forall|k: int| i <= k < runs@.len() ==> #[trigger] runs@[k] == start[k],
            recovered == running_count(old_views.take(i as int)),
            recovered <= i,
        decreases runs.len() - i,
    {
        assert(old_views.take(i + 1).drop_last() =~= old_views.take(i as int));
        if runs[i].status == CardStatus::Running {
            let note = match &runs[i].last_summary {
                Some(t) => if !blank(t.as_str()) {
                    Some(owned(t.as_str()))
                } else {
                    Some(owned("Run interrupted (app quit or crashed)."))
                },
                None => Some(owned("Run interrupted (app quit or crashed).")),
            };
            proof {
                reveal_strlit("Run interrupted (app quit or crashed).");
            }
            runs.set(i, RunRecord { column: Column::Done, status: CardStatus::Failed, last_summary: note });
            recovered = recovered + 1;
        }
        i = i + 1;
    }
    assert(old_views.take(runs.len() as int) =~= old_views);
    assert forall|k: int| 0 <= k < runs@.len() implies #[trigger] runs@[k].status != CardStatus::Running by {
        assert(runs@[k]@ == start[k]@.recovered());
    }
    recovered
}

/// Recovering twice does no more than recovering once.
pub proof fn lemma_recover_idempotent(r: RunRecordView)
    ensures
        r.recovered().recovered() == r.recovered(),
{
}

// ---------------------------------------------------------------------------
// Card identifiers
// ---------------------------------------------------------------------------
pub open spec fn is_lower_hex(c: char) -> bool {
    let u = c as u32;
    (48 <= u && u <= 57) || (97 <= u && u <= 102)
}

/// The hyphenated lower-case text of a random (version 4, RFC 4122 variant) UUID.
pub open spec fn is_uuid_v4_text(s: Seq<char>) -> bool {
    &&& s.len() == 36
    &&& forall|i: int|
        0 <= i < 36 ==> if i == 8 || i == 13 || i == 18 || i == 23 {
            s[i] == '-'
        } else {
            is_lower_hex(#[trigger] s[i])
        }
    &&& s[14] == '4'
    &&& (s[19] == '8' || s[19] == '9' || s[19] == 'a' || s[19] == 'b')
}

/// A fresh card id: `uuid::Uuid::new_v4()`, rendered by its `Display` impl,
/// which writes the hyphenated lower-case form. The id is random; only its
/// shape is stated.
#[verifier::external_body]
fn new_card_id() -> (id: String)
    ensures
        is_uuid_v4_text(id@),
{
    uuid::Uuid::new_v4().to_string()
}

// ---------------------------------------------------------------------------
// Agent log and cards
// ---------------------------------------------------------------------------
/// One entry of a card's agent log.
pub struct AgentLogEntry {
    pub at: String,
    pub kind: String,
    pub message: String,
}

#[verifier::ext_equal]
pub struct LogEntryView {
    pub at: Seq<char>,
    pub kind: Seq<char>,
    pub message: Seq<char>,
}

impl View for AgentLogEntry {
    type V = LogEntryView;

    open spec fn view(&self) -> LogEntryView {
        LogEntryView { at: self.at@, kind: self.kind@, message: self.message@ }
    }
}

impl Clone for AgentLogEntry {
    fn clone(&self) -> (r: Self)
        ensures
            r@ == self@,
    {
        AgentLogEntry { at: self.at.clone(), kind: self.kind.clone(), message: self.message.clone() }
    }
}

/// A card on the board.
pub struct Card {
    pub id: String,
    pub title: String,
    pub body: String,
    pub status: Status,
    pub revision_count: u32,
    pub agent_log: Vec<AgentLogEntry>,
    pub created_at: String,
    pub updated_at: String,
}

#[verifier::ext_equal]
pub struct CardView {
    pub id: Seq<char>,
    pub title: Seq<char>,
    pub body: Seq<char>,
    pub status: Status,
    pub revision_count: u32,
    pub agent_log: Seq<LogEntryView>,
    pub created_at: Seq<char>,
    pub updated_at: Seq<char>,
}

pub open spec fn log_view(log: Seq<AgentLogEntry>) -> Seq<LogEntryView> {
    log.map_values(|e: AgentLogEntry| e@)
}

impl View for Card {
    type V = CardView;

    open spec fn view(&self) -> CardView {
        CardView {
            id: self.id@,
            title: self.title@,
            body: self.body@,
            status: self.status,
            revision_count: self.revision_count,
            agent_log: log_view(self.agent_log@),
            created_at: self.created_at@,
            updated_at: self.updated_at@,
        }
    }
}

/// `n + 1`, held at `u32::MAX`.
pub open spec fn bumped(n: u32) -> u32 {
    if n == u32::MAX {
        n
    } else {
        (n + 1) as u32
    }
}

impl CardView {
    /// The card with one more log entry at `now`, which is also its update time.
    pub open spec fn logged(self, kind: Seq<char>, message: Seq<char>, now: Seq<char>) -> CardView {
        CardView {
            agent_log: self.agent_log.push(LogEntryView { at: now, kind, message }),
            updated_at: now,
            ..self
        }
    }

    pub open spec fn with_status(self, status: Status) -> CardView {
        CardView { status, ..self }
    }

    /// The card with its revision count bumped (held at `u32::MAX`).
    pub open spec fn revised(self) -> CardView {
        CardView { revision_count: bumped(self.revision_count), ..self }
    }

    /// What `Card::prompt` gives.
    pub open spec fn prompt_text(self) -> Seq<char> {
        let t = trimmed(self.title);
        let b = trimmed(self.body);
        if t.len() == 0 && b.len() == 0 {
            Seq::empty()
        } else if b.len() == 0 {
            t
        } else if t.len() == 0 {
            b
        } else {
            t + "\n\n"@ + b
        }
    }

    /// The `rev N` badge, shown once a card has been revised.
    pub open spec fn badge(self) -> Option<Seq<char>> {
        if self.revision_count > 0 {
            Some("rev "@ + decimal(self.revision_count as nat))
        } else {
            None
        }
    }
}

impl Clone for Card {
    fn clone(&self) -> (r: Self)
        ensures
            r@ == self@,
    {
        let mut log: Vec<AgentLogEntry> = Vec::new();
        let mut i: usize = 0;
        while i < self.agent_log.len()
            invariant
                i <= self.agent_log.len(),
                log_view(log@) =~= log_view(self.agent_log@.take(i as int)),
            decreases self.agent_log.len() - i,
        {
            let e = self.agent_log[i].clone();
            let ghost before = log@;
            log.push(e);
            assert(log@ == before.push(e));
            assert(log_view(log@) =~= log_view(before).push(e@));
            assert(log_view(self.agent_log@.take(i + 1)) =~= log_view(self.agent_log@.take(i as int)).push(self.agent_log@[i as int]@));
            i = i + 1;
        }
        assert(self.agent_log@.take(self.agent_log.len() as int) =~= self.agent_log@);
        Card {
            id: self.id.clone(),
            title: self.title.clone(),
            body: self.body.clone(),
            status: self.status,
            revision_count: self.revision_count,
            agent_log: log,
            created_at: self.created_at.clone(),
            updated_at: self.updated_at.clone(),
        }
    }
}

impl Card {
    /// A new card in Capture with a fresh random id, no revisions and an empty
    /// log, created and updated now.
    pub fn new(title: &str, body: &str) -> (c: Card)
        ensures
            c.title@ == title@,
            c.body@ == body@,
            c.status == Status::Capture,
            c.revision_count == 0,
            c.agent_log@.len() == 0,
            c.created_at@ == c.updated_at@,
            exists|secs: nat| c.created_at@ == rfc3339_text(secs),
            is_uuid_v4_text(c.id@),
    {
        let now = timestamp_now();
        Card {
            id: new_card_id(),
            title: owned(title),
            body: owned(body),
            status: Status::Capture,
            revision_count: 0,
            agent_log: Vec::new(),
            created_at: now.clone(),
            updated_at: now,
        }
    }

    /// Marks the card as updated at `now`.
    pub fn touch(&mut self, now: &str)
        ensures
            final(self)@ == (CardView { updated_at: now@, ..old(self)@ }),
    {
        self.updated_at = owned(now);
    }

    /// Appends an agent-log entry stamped `now`; the card counts as updated then.
    pub fn log(&mut self, kind: &str, message: &str, now: &str)
        ensures
            final(self)@ == old(self)@.logged(kind@, message@, now@),
    {
        self.agent_log.push(AgentLogEntry { at: owned(now), kind: owned(kind), message: owned(message) });
        self.updated_at = owned(now);
        assert(final(self)@.agent_log =~= old(self)@.agent_log.push(
            LogEntryView { at: now@, kind: kind@, message: message@ },
        ));
    }

    /// The latest agent-log entry.
    pub fn last_log(&self) -> (e: Option<&AgentLogEntry>)
        ensures
            self.agent_log@.len() == 0 ==> e is None,
            self.agent_log@.len() > 0 ==> e is Some && e->0@ == self@.agent_log.last(),
    {
        let n = self.agent_log.len();
        if n == 0 {
            None
        } else {
            Some(&self.agent_log[n - 1])
        }
    }

    /// `rev N` once the card has been revised at least once.
    pub fn rev_badge(&self) -> (b: Option<String>)
        ensures
            b matches Some(s) ==> self@.badge() == Some(s@),
            b is None ==> self@.badge() is None,
    {
        if self.revision_count > 0 {
            let mut s = owned("rev ");
            push_decimal(&mut s, self.revision_count as u64);
            Some(s)
        } else {
            None
        }
    }

    /// The trimmed title and body, joined by a blank line when both are present.
    pub fn prompt(&self) -> (p: String)
        ensures
            p@ == self@.prompt_text(),
    {
        let tc = chars_of(self.title.as_str());
        let bc = chars_of(self.body.as_str());
        let (ta, tb) = trim_bounds(&tc);
        let (ba, bb) = trim_bounds(&bc);
        let title_empty = !(ta < tb);
        let body_empty = !(ba < bb);
        if title_empty && body_empty {
            String::new()
        } else if body_empty {
            string_of_range(&tc, ta, tb)
        } else if title_empty {
            string_of_range(&bc, ba, bb)
        } else {
            let mut out = string_of_range(&tc, ta, tb);
            push_str(&mut out, "\n\n");
            let body = string_of_range(&bc, ba, bb);
            push_str(&mut out, body.as_str());
            out
        }
    }
}

// ---------------------------------------------------------------------------
// Board
// ---------------------------------------------------------------------------
/// All cards, in the order they were added.
pub struct Board {
    pub cards: Vec<Card>,
}

pub open spec fn cards_view(cards: Seq<Card>) -> Seq<CardView> {
    cards.map_values(|c: Card| c@)
}

impl View for Board {
    type V = Seq<CardView>;

    open spec fn view(&self) -> Seq<CardView> {
        cards_view(self.cards@)
    }
}

/// Position `i` holds the first card with id `id`.
pub open spec fn is_first_with_id(cards: Seq<CardView>, i: int, id: Seq<char>) -> bool {
    &&& 0 <= i < cards.len()
    &&& cards[i].id == id
    &&& forall|j: int| 0 <= j < i ==> cards[j].id != id
}

/// The position of the first card with id `id`, if any card has it.
pub open spec fn index_of_id(cards: Seq<CardView>, id: Seq<char>) -> Option<int> {
    if exists|i: int| is_first_with_id(cards, i, id) {
        Some(choose|i: int| is_first_with_id(cards, i, id))
    } else {
        None
    }
}

/// The cards with status `status`, in board order.
pub open spec fn in_column(cards: Seq<CardView>, status: Status) -> Seq<CardView>
    decreases cards.len(),
{
    if cards.len() == 0 {
        Seq::empty()
    } else {
        let rest = in_column(cards.drop_last(), status);
        if cards.last().status == status {
            rest.push(cards.last())
        } else {
            rest
        }
    }
}

/// The cards column by column, left to right, each column in board order.
pub open spec fn in_board_order(cards: Seq<CardView>) -> Seq<CardView> {
    in_column(cards, Status::Capture) + in_column(cards, Status::Todo) + in_column(
        cards,
        Status::InProgress,
    ) + in_column(cards, Status::Review) + in_column(cards, Status::Done)
}

/// The first card with a given id is unique, and when no card qualifies as
/// first, no card has the id at all.
pub proof fn lemma_index_of_id(cards: Seq<CardView>, id: Seq<char>)
    ensures
        index_of_id(cards, id) matches Some(i) ==> is_first_with_id(cards, i, id),
        index_of_id(cards, id) is None ==> forall|j: int| 0 <= j < cards.len() ==> cards[j].id != id,
        forall|i: int| is_first_with_id(cards, i, id) ==> index_of_id(cards, id) == Some(i),
{
    if exists|i: int| is_first_with_id(cards, i, id) {
        let i = choose|i: int| is_first_with_id(cards, i, id);
        assert forall|k: int| is_first_with_id(cards, k, id) implies k == i by {
            if k < i {
                assert(cards[k].id == id);
            } else if k > i {
                assert(cards[i].id == id);
            }
        }
    } else {
        assert forall|j: int| 0 <= j < cards.len() implies cards[j].id != id by {
            lemma_no_first_means_absent(cards, id, j);
        }
    }
}

proof fn lemma_no_first_means_absent(cards: Seq<CardView>, id: Seq<char>, j: int)
    requires
        0 <= j < cards.len(),
        !exists|i: int| is_first_with_id(cards, i, id),
    ensures
        cards[j].id != id,
    decreases j,
{
    if cards[j].id == id {
        assert(!is_first_with_id(cards, j, id));
        let k = choose|k: int| 0 <= k < j && cards[k].id == id;
        lemma_no_first_means_absent(cards, id, k);
    }
}

proof fn lemma_in_column_step(cards: Seq<CardView>, i: int, status: Status)
    requires
        0 <= i < cards.len(),
    ensures
        in_column(cards.take(i + 1), status) == if cards[i].status == status {
            in_column(cards.take(i), status).push(cards[i])
        } else {
            in_column(cards.take(i), status)
        },
{
    assert(cards.take(i + 1).drop_last() =~= cards.take(i));
}

impl Board {
    /// Where the first card with id `id` sits.
    pub fn position(&self, id: &str) -> (r: Option<usize>)
        ensures
            r matches Some(i) ==> index_of_id(self@, id@) == Some(i as int),
            r is None ==> index_of_id(self@, id@) is None,
    {
        let key = owned(id);
        let mut i: usize = 0;
        while i < self.cards.len()
            invariant
                i <= self.cards.len(),
                key@ == id@,
                forall|j: int| 0 <= j < i ==> self@[j].id != id@,
            decreases self.cards.len() - i,
        {
            if self.cards[i].id == key {
                proof {
                    lemma_index_of_id(self@, id@);
                    assert(is_first_with_id(self@, i as int, id@));
                }
                return Some(i);
            }
            i = i + 1;
        }
        proof {
            lemma_index_of_id(self@, id@);
            if index_of_id(self@, id@) is Some {
                let k = index_of_id(self@, id@)->0;
                assert(self@[k].id == id@);
            }
        }
        None
    }

    /// The cards in one column, in board order.
    pub fn cards_in(&self, status: Status) -> (r: Vec<&Card>)
        ensures
            r@.map_values(|c: &Card| c@) == in_column(self@, status),
    {
        let mut r: Vec<&Card> = Vec::new();
        let mut i: usize = 0;
        while i < self.cards.len()
            invariant
                i <= self.cards.len(),
                r@.map_values(|c: &Card| c@) =~= in_column(self@.take(i as int), status),
            decreases self.cards.len() - i,
        {
            proof {
                lemma_in_column_step(self@, i as int, status);
            }
            if self.cards[i].status == status {
                r.push(&self.cards[i]);
            }
            i = i + 1;
            assert(r@.map_values(|c: &Card| c@) =~= in_column(self@.take(i as int), status));
        }
        assert(self@.take(self.cards.len() as int) =~= self@);
        r
    }

    /// All cards, column by column from Capture to Done.
    pub fn cards_in_board_order(&self) -> (r: Vec<&Card>)
        ensures
            r@.map_values(|c: &Card| c@) == in_board_order(self@),
    {
        let mut r: Vec<&Card> = Vec::new();
        let mut k: usize = 0;
        while k < 5
            invariant
                k <= 5,
                r@.map_values(|c: &Card| c@) =~= columns_upto(self@, k as int),
            decreases 5 - k,
        {
            let mut part = self.cards_in(Status::ALL[k]);
            let ghost before = r@;
            r.append(&mut part);
            assert(r@.map_values(|c: &Card| c@) =~= before.map_values(|c: &Card| c@)
                + in_column(self@, Status::ALL[k as int]));
            k = k + 1;
        }
        proof {
            reveal_with_fuel(columns_upto, 6);
            assert(columns_upto(self@, 5) =~= in_board_order(self@));
        }
        r
    }

    /// The first card with id `id`.
    pub fn get(&self, id: &str) -> (r: Option<&Card>)
        ensures
            index_of_id(self@, id@) matches Some(i) ==> r is Some && r->0@ == self@[i],
            index_of_id(self@, id@) is None ==> r is None,
    {
        match self.position(id) {
            Some(i) => Some(&self.cards[i]),
            None => None,
        }
    }

    /// The first card with id `id`, for changing it in place.
    pub fn get_mut(&mut self, id: &str) -> (r: Option<&mut Card>)
        ensures
            index_of_id(old(self)@, id@) matches Some(i) ==> {
                &&& r is Some
                &&& *r->0 == old(self).cards@[i]
                &&& final(self).cards@ == old(self).cards@.update(i, *final(r->0))
            },
            index_of_id(old(self)@, id@) is None ==> r is None && final(self).cards@ == old(self).cards@,
    {
        match self.position(id) {
            Some(i) => Some(&mut self.cards[i]),
            None => None,
        }
    }

    /// Puts `card` at position `i`.
    pub fn replace_at(&mut self, i: usize, card: Card)
        requires
            i < old(self).cards.len(),
        ensures
            final(self)@ == old(self)@.update(i as int, card@),
    {
        self.cards.set(i, card);
        assert(final(self)@ =~= old(self)@.update(i as int, card@));
    }

    /// Adds a card at the end.
    pub fn add_card(&mut self, card: Card)
        ensures
            final(self)@ == old(self)@.push(card@),
    {
        self.cards.push(card);
        assert(final(self)@ =~= old(self)@.push(card@));
    }

    /// Takes the first card with id `id` off the board.
    pub fn remove_card(&mut self, id: &str) -> (r: Option<Card>)
        ensures
            index_of_id(old(self)@, id@) matches Some(i) ==> r is Some && r->0@ == old(self)@[i]
                && final(self)@ == old(self)@.remove(i),
            index_of_id(old(self)@, id@) is None ==> r is None && final(self)@ == old(self)@,
    {
        match self.position(id) {
            Some(i) => {
                let c = self.cards.remove(i);
                assert(final(self)@ =~= old(self)@.remove(i as int));
                Some(c)
            },
            None => None,
        }
    }

    /// Moves the first card with id `id` to `status`; false when there is none.
    pub fn move_card(&mut self, id: &str, status: Status) -> (moved: bool)
        ensures
            index_of_id(old(self)@, id@) matches Some(i) ==> moved && final(self)@ == old(
                self,
            )@.update(i, old(self)@[i].with_status(status)),
            index_of_id(old(self)@, id@) is None ==> !moved && final(self)@ == old(self)@,
    {
        match self.position(id) {
            Some(i) => {
                self.cards[i].status = status;
                assert(final(self)@ =~= old(self)@.update(
                    i as int,
                    old(self)@[i as int].with_status(status),
                ));
                true
            },
            None => false,
        }
    }
}

/// The first `k` columns, from Capture, concatenated.
pub open spec fn columns_upto(cards: Seq<CardView>, k: int) -> Seq<CardView>
    decreases k,
{
    if k <= 0 {
        Seq::empty()
    } else {
        columns_upto(cards, k - 1) + in_column(cards, Status::ALL@[k - 1])
    }
}

impl Default for Board {
    fn default() -> (b: Board)
        ensures
            b@ == Seq::<CardView>::empty(),
    {
        let b = Board { cards: Vec::new() };
        assert(b@ =~= Seq::<CardView>::empty());
        b
    }
}

} // verus!
