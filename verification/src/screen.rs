//! What the screen shows, as text: column headings, card lines, the status
//! line, the editor's position line and scroll, and the review prompt. The
//! caller lays these out and styles them.

use vstd::prelude::*;

use crate::app::{line_of, col_of, App, EditorField, EditorState, EditorView};
use crate::model::{Card, CardView, Status};
use crate::text::{
    char_count, decimal, line_col, min_int, owned, push_decimal, push_str,
    truncate_chars, truncated,
};

verus! {

/// ` ▸ To Do (3) ` for the focused column, `   To Do (3) ` for the others.
pub open spec fn heading_text(focused: bool, status: Status, count: nat) -> Seq<char> {
    " "@ + (if focused {
        "▸"@
    } else {
        " "@
    }) + " "@ + status.title_text() + " ("@ + decimal(count) + ") "@
}

pub fn column_heading(focused: bool, status: Status, count: usize) -> (r: String)
    ensures
        r@ == heading_text(focused, status, count as nat),
{
    let mut out = owned(" ");
    if focused {
        push_str(&mut out, "▸");
    } else {
        push_str(&mut out, " ");
    }
    push_str(&mut out, " ");
    push_str(&mut out, status.title());
    push_str(&mut out, " (");
    push_decimal(&mut out, count as u64);
    push_str(&mut out, ") ");
    out
}

/// The hint in an empty column.
pub fn empty_column_hint(status: Status) -> (r: &'static str)
    ensures
        r@ == if status == Status::Capture {
            "n to capture"@
        } else {
            "empty"@
        },
{
    if status == Status::Capture {
        "n to capture"
    } else {
        "empty"
    }
}

/// The parts of a card's line on the board.
pub struct CardLine {
    /// `▶ ` for the selected card, two spaces otherwise.
    pub marker: String,
    pub title: String,
    pub badge: Option<String>,
}

/// How many title characters fit beside the marker and the badge: the width
/// less four and the badge with its space, at least six.
pub open spec fn title_room(width: nat, badge: Option<Seq<char>>) -> int {
    let badge_width = match badge {
        Some(b) => b.len() + 1,
        None => 0,
    };
    let room = width - 4 - badge_width;
    if room < 6 {
        6
    } else {
        room
    }
}

pub fn card_line(card: &Card, selected: bool, width: u16) -> (r: CardLine)
    ensures
        r.marker@ == if selected {
            "▶ "@
        } else {
            "  "@
        },
        r.badge matches Some(b) ==> card@.badge() == Some(b@),
        r.badge is None ==> card@.badge() is None,
        r.title@ == truncated(card.title@, title_room(width as nat, card@.badge())),
{
    let badge = card.rev_badge();
    let w = width as usize;
    let room: usize = if w < 4 {
        6
    } else {
        let avail = w - 4;
        let left: usize = match &badge {
            Some(b) => {
                let n = char_count(b.as_str());
                if n >= avail {
                    0
                } else {
                    avail - n - 1
                }
            },
            None => avail,
        };
        if left < 6 {
            6
        } else {
            left
        }
    };
    let marker = if selected {
        owned("▶ ")
    } else {
        owned("  ")
    };
    CardLine { marker, title: truncate_chars(card.title.as_str(), room), badge }
}

/// The status line's message, or a hint when there is none.
pub fn status_text(app: &App) -> (r: String)
    ensures
        r@ == if app@.status_message.len() == 0 {
            "press ? for keys"@
        } else {
            app@.status_message
        },
{
    if char_count(app.status_message.as_str()) == 0 {
        owned("press ? for keys")
    } else {
        app.status_message.clone()
    }
}

/// The header's version tag.
pub fn header_tag(stub: bool) -> (r: &'static str)
    ensures
        r@ == if stub {
            "M2 · v0.2 · stub"@
        } else {
            "M2 · v0.2"@
        },
{
    if stub {
        "M2 · v0.2 · stub"
    } else {
        "M2 · v0.2"
    }
}

/// The 0-based line and column of the editor's cursor: the title is one line.
pub open spec fn editor_position(e: EditorView) -> (int, int) {
    match e.field {
        EditorField::Title => (0, e.cursor as int),
        EditorField::Body => (line_of(e.body, e.cursor as int), col_of(e.body, e.cursor as int)),
    }
}

pub fn cursor_position(state: &EditorState) -> (r: (usize, usize))
    ensures
        r.0 == editor_position(state@).0,
        r.1 == editor_position(state@).1,
{
    match state.field {
        EditorField::Title => (0, state.cursor),
        EditorField::Body => line_col(state.body.as_str(), state.cursor),
    }
}

/// The editor's heading details: the card's column, revision badge (`rev 0`
/// when none), 1-based line and column, and id; just the position when the
/// card is gone.
pub open spec fn meta_text(card: Option<CardView>, line: int, col: int) -> Seq<char> {
    match card {
        Some(c) => " "@ + c.status.title_text() + "  ·  "@ + (match c.badge() {
            Some(b) => b,
            None => "rev 0"@,
        }) + "  ·  Ln "@ + decimal((line + 1) as nat) + ", Col "@ + decimal((col + 1) as nat)
            + "  ·  "@ + c.id + " "@,
        None => " Ln "@ + decimal((line + 1) as nat) + ", Col "@ + decimal((col + 1) as nat)
            + " "@,
    }
}

pub fn editor_meta(card: Option<&Card>, line: usize, col: usize) -> (r: String)
    requires
        line < usize::MAX,
        col < usize::MAX,
    ensures
        r@ == meta_text(
            match card {
                Some(c) => Some(c@),
                None => None,
            },
            line as int,
            col as int,
        ),
{
    match card {
        Some(c) => {
            let mut out = owned(" ");
            push_str(&mut out, c.status.title());
            push_str(&mut out, "  ·  ");
            match c.rev_badge() {
                Some(b) => push_str(&mut out, b.as_str()),
                None => push_str(&mut out, "rev 0"),
            }
            push_str(&mut out, "  ·  Ln ");
            push_decimal(&mut out, (line + 1) as u64);
            push_str(&mut out, ", Col ");
            push_decimal(&mut out, (col + 1) as u64);
            push_str(&mut out, "  ·  ");
            push_str(&mut out, c.id.as_str());
            push_str(&mut out, " ");
            out
        },
        None => {
            let mut out = owned(" Ln ");
            push_decimal(&mut out, (line + 1) as u64);
            push_str(&mut out, ", Col ");
            push_decimal(&mut out, (col + 1) as u64);
            push_str(&mut out, " ");
            out
        },
    }
}

/// The body's scroll offset once the cursor's line is kept in a view of
/// `inner_h` rows (lines are counted in 16 bits).
pub open spec fn scrolled(scroll: u16, line: u16, inner_h: u16, body_focused: bool) -> u16 {
    if !body_focused {
        scroll
    } else if line < scroll {
        line
    } else if inner_h > 0 && line >= min_int(scroll + inner_h, u16::MAX as int) {
        (line - (inner_h - 1)) as u16
    } else {
        scroll
    }
}

pub fn editor_scroll(scroll: u16, line: usize, inner_h: u16, body_focused: bool) -> (r: u16)
    ensures
        r == scrolled(scroll, line as u16, inner_h, body_focused),
{
    if !body_focused {
        return scroll;
    }
    let l = line as u16;
    if l < scroll {
        l
    } else if inner_h > 0 && l >= scroll.saturating_add(inner_h) {
        l - (inner_h - 1)
    } else {
        scroll
    }
}

/// The review prompt's card line: its title and badge, or stand-ins when the
/// card is gone.
pub open spec fn review_line_text(card: Option<CardView>) -> Seq<char> {
    let title = match card {
        Some(c) => c.title,
        None => "(missing)"@,
    };
    let rev = match card {
        Some(c) => match c.badge() {
            Some(b) => b,
            None => "rev 0"@,
        },
        None => "rev 0"@,
    };
    "  "@ + title + "  ("@ + rev + ")"@
}

pub fn review_line(card: Option<&Card>) -> (r: String)
    ensures
        r@ == review_line_text(
            match card {
                Some(c) => Some(c@),
                None => None,
            },
        ),
{
    let mut out = owned("  ");
    match card {
        Some(c) => push_str(&mut out, c.title.as_str()),
        None => push_str(&mut out, "(missing)"),
    }
    push_str(&mut out, "  (");
    match card {
        Some(c) => match c.rev_badge() {
            Some(b) => push_str(&mut out, b.as_str()),
            None => push_str(&mut out, "rev 0"),
        },
        None => push_str(&mut out, "rev 0"),
    }
    push_str(&mut out, ")");
    out
}

} // verus!
