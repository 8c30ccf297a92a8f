//! What is shown of sessions and activities: how old a time is called, how
//! a state is marked, and how a text is fitted to a table.

use crate::text::{
    chars_of, decimal_of, first_chars, first_chars_of, halve_spaces, halved_spaces, on_one_line,
    push_decimal, replace_line_feeds, str_eq,
};
use crate::types::session::State;
use vstd::prelude::*;
use vstd::string::StringSliceAdditionalSpecFns;
use vstd::utf8::{decode_utf8, is_char_boundary};

verus! {

/// How a time is called that lies `seconds` back: by the minute under an
/// hour, by the hour under a day, by the day under a week; `None` for a
/// time further back, which is shown as a date. Minutes, hours and days
/// are full ones.
pub open spec fn age_text(seconds: int) -> Option<Seq<char>> {
    if seconds < 60 {
        Some("Just now"@)
    } else if seconds / 60 < 60 {
        Some(decimal_of((seconds / 60) as nat) + "m ago"@)
    } else if seconds / 3600 < 24 {
        Some(decimal_of((seconds / 3600) as nat) + "h ago"@)
    } else if seconds / 86400 < 7 {
        Some(decimal_of((seconds / 86400) as nat) + "d ago"@)
    } else {
        None
    }
}

/// How a time is called that lies `seconds` back; a time to come is
/// called as the present.
pub fn relative_age(seconds: i64) -> (text: Option<String>)
    ensures
        (match text {
            Some(t) => Some(t@),
            None => None,
        }) == age_text(seconds as int),
{
    if seconds < 60 {
        return Some("Just now".to_owned());
    }
    let (n, unit) = if seconds / 60 < 60 {
        (seconds / 60, "m ago")
    } else if seconds / 3600 < 24 {
        (seconds / 3600, "h ago")
    } else if seconds / 86400 < 7 {
        (seconds / 86400, "d ago")
    } else {
        return None;
    };
    let mut text = String::new();
    push_decimal(&mut text, n as u64);
    text.append(unit);
    proof {
        assert(text@ =~= decimal_of(n as nat) + unit@);
    }
    Some(text)
}

/// The state that the service writes as `word`.
pub open spec fn state_written(word: Seq<char>) -> Option<State> {
    if word == "STATE_UNSPECIFIED"@ {
        Some(State::StateUnspecified)
    } else if word == "QUEUED"@ {
        Some(State::Queued)
    } else if word == "PLANNING"@ {
        Some(State::Planning)
    } else if word == "AWAITING_PLAN_APPROVAL"@ {
        Some(State::AwaitingPlanApproval)
    } else if word == "AWAITING_USER_FEEDBACK"@ {
        Some(State::AwaitingUserFeedback)
    } else if word == "IN_PROGRESS"@ {
        Some(State::InProgress)
    } else if word == "PAUSED"@ {
        Some(State::Paused)
    } else if word == "FAILED"@ {
        Some(State::Failed)
    } else if word == "COMPLETED"@ {
        Some(State::Completed)
    } else {
        None
    }
}

/// The state that the service writes as `word`.
pub fn state_from_word(word: &str) -> (state: Option<State>)
    ensures
        state == state_written(word@),
{
    if str_eq(word, "STATE_UNSPECIFIED") {
        Some(State::StateUnspecified)
    } else if str_eq(word, "QUEUED") {
        Some(State::Queued)
    } else if str_eq(word, "PLANNING") {
        Some(State::Planning)
    } else if str_eq(word, "AWAITING_PLAN_APPROVAL") {
        Some(State::AwaitingPlanApproval)
    } else if str_eq(word, "AWAITING_USER_FEEDBACK") {
        Some(State::AwaitingUserFeedback)
    } else if str_eq(word, "IN_PROGRESS") {
        Some(State::InProgress)
    } else if str_eq(word, "PAUSED") {
        Some(State::Paused)
    } else if str_eq(word, "FAILED") {
        Some(State::Failed)
    } else if str_eq(word, "COMPLETED") {
        Some(State::Completed)
    } else {
        None
    }
}

/// How a state is marked in a table.
#[derive(Debug, Clone, Copy, PartialEq, Eq, Structural)]
pub enum StateMark {
    Plain,
    Cyan,
    Yellow,
    Magenta,
    Blue,
    Dimmed,
    Red,
    Green,
}

/// How the state that the service writes as `word` is marked: a word that
/// names no state is left plain.
pub fn state_mark(word: &str) -> (mark: StateMark)
    ensures
        mark == (match state_written(word@) {
            None => StateMark::Plain,
            Some(State::StateUnspecified) => StateMark::Plain,
            Some(State::Queued) => StateMark::Cyan,
            Some(State::Planning) => StateMark::Yellow,
            Some(State::AwaitingPlanApproval) => StateMark::Magenta,
            Some(State::AwaitingUserFeedback) => StateMark::Blue,
            Some(State::InProgress) => StateMark::Yellow,
            Some(State::Paused) => StateMark::Dimmed,
            Some(State::Failed) => StateMark::Red,
            Some(State::Completed) => StateMark::Green,
        }),
{
    match state_from_word(word) {
        None => StateMark::Plain,
        Some(State::StateUnspecified) => StateMark::Plain,
        Some(State::Queued) => StateMark::Cyan,
        Some(State::Planning) => StateMark::Yellow,
        Some(State::AwaitingPlanApproval) => StateMark::Magenta,
        Some(State::AwaitingUserFeedback) => StateMark::Blue,
        Some(State::InProgress) => StateMark::Yellow,
        Some(State::Paused) => StateMark::Dimmed,
        Some(State::Failed) => StateMark::Red,
        Some(State::Completed) => StateMark::Green,
    }
}

/// How many characters of a text a table shows.
pub const TABLE_CONTENT_WIDTH: usize = 80;

/// The text `content` as a table shows it: on one line, one space for
/// each two, the first 80 characters of that, and three dots behind them
/// where `content` takes more than 80 bytes.
pub open spec fn table_text(content: Seq<char>, bytes: nat) -> Seq<char> {
    first_chars_of(halved_spaces(on_one_line(content)), TABLE_CONTENT_WIDTH as nat) + (if bytes > TABLE_CONTENT_WIDTH {
        "..."@
    } else {
        Seq::empty()
    })
}

/// The text `content` as a table shows it.
pub fn table_content(content: &str) -> (shown: String)
    ensures
        shown@ == table_text(content@, content.len() as nat),
{
    let flat = halve_spaces(replace_line_feeds(content).as_str());
    let mut shown = first_chars(flat.as_str(), TABLE_CONTENT_WIDTH);
    let ghost cut = shown@;
    if content.len() > TABLE_CONTENT_WIDTH {
        shown.append("...");
    } else {
        proof {
            assert(shown@ =~= cut + Seq::<char>::empty());
        }
    }
    shown
}

/// The view of an optional text.
pub open spec fn opt_shown(shown: Option<String>) -> Option<Seq<char>> {
    match shown {
        Some(t) => Some(t@),
        None => None,
    }
}

/// The text `text`, which takes the `len` bytes `bytes`, cut to fit a
/// column of `width` bytes.
pub open spec fn shortened_text(text: Seq<char>, bytes: Seq<u8>, len: nat, width: nat) -> Option<
    Seq<char>,
> {
    if len <= width {
        Some(text)
    } else if width >= 3 && is_char_boundary(bytes, width - 3) {
        Some(decode_utf8(bytes.subrange(0, width - 3)) + "..."@)
    } else {
        None
    }
}

/// The text `text` cut to fit a column of `width` bytes: a text that fits
/// is shown as it is; of a longer one the first `width - 3` bytes are shown
/// and three dots behind them. `None` where that cut would fall into the
/// middle of a character, or the column is narrower than the dots.
pub fn shortened(text: &str, width: usize) -> (shown: Option<String>)
    ensures
        opt_shown(shown) == shortened_text(text@, text.spec_bytes(), text.len() as nat, width as nat),
{
    if text.len() <= width {
        return Some(text.to_owned());
    }
    if width < 3 || !text.is_char_boundary(width - 3) {
        return None;
    }
    let (head, _) = text.split_at(width - 3);
    proof {
        vstd::utf8::encode_utf8_decode_utf8(head@);
    }
    let mut shown = head.to_owned();
    shown.append("...");
    Some(shown)
}

/// How wide the column of titles is in a table that shows a title of
/// `title_len` bytes and has been `width` wide so far: wide enough for the
/// title, and at most 50 for its sake.
pub fn widened(width: usize, title_len: usize) -> (r: usize)
    ensures
        r == (if title_len <= 50 {
            if width >= title_len {
                width
            } else {
                title_len
            }
        } else if width >= 50 {
            width
        } else {
            50
        }),
{
    let wanted: usize = if title_len <= 50 {
        title_len
    } else {
        50
    };
    if width >= wanted {
        width
    } else {
        wanted
    }
}

/// How often `needle` stands in `hay`, read from the left: what is taken
/// as one occurrence is not read again. An empty `needle` stands nowhere.
pub open spec fn occurrences(hay: Seq<char>, needle: Seq<char>) -> nat
    decreases hay.len(),
{
    if needle.len() == 0 || hay.len() < needle.len() {
        0
    } else if hay.take(needle.len() as int) == needle {
        1 + occurrences(hay.skip(needle.len() as int), needle)
    } else {
        occurrences(hay.drop_first(), needle)
    }
}

/// How often `needle` stands in `hay`, read from the left.
pub fn count_occurrences(hay: &str, needle: &str) -> (count: usize)
    ensures
        count == occurrences(hay@, needle@),
{
    let h = chars_of(hay);
    let n = chars_of(needle);
    if n.len() == 0 || h.len() < n.len() {
        return 0;
    }
    let mut count: usize = 0;
    let mut i: usize = 0;
    proof {
        assert(h@.skip(0) =~= h@);
    }
    while i <= h.len() - n.len()
        invariant
            h@ == hay@,
            n@ == needle@,
            0 < n.len() <= h.len(),
            i <= h.len(),
            count <= i,
            count + occurrences(h@.skip(i as int), n@) == occurrences(h@, n@),
        decreases h.len() - i,
    {
        let ghost rest = h@.skip(i as int);
        let mut j: usize = 0;
        while j < n.len() && h[i + j] == n[j]
            invariant
                i + n.len() <= h.len(),
                j <= n.len(),
                forall|k: int| 0 <= k < j ==> h@[i + k] == n@[k],
            decreases n.len() - j,
        {
            j = j + 1;
        }
        if j == n.len() {
            proof {
                assert(rest.take(n.len() as int) =~= n@);
                assert(rest.skip(n.len() as int) =~= h@.skip(i + n.len()));
            }
            count = count + 1;
            i = i + n.len();
        } else {
            proof {
                assert(rest.take(n.len() as int)[j as int] != n@[j as int]);
                assert(rest.drop_first() =~= h@.skip(i + 1));
            }
            i = i + 1;
        }
    }
    count
}

} // verus!
