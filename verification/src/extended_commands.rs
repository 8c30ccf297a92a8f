//! What the commands beyond the plain service calls decide: which format
//! to put out, which sessions an issue names, which sessions to list, and
//! when watching a session ends.

use crate::commands::{matches_search, matches_state_word, search_admits, state_word_admits};
use crate::patterns::{groups, groups_of, match_views, opt_texts};
use crate::text::{chars_of, clone_opt_text, joined, opt_text, str_eq, string_of, texts};
use crate::types::session::{AutomationMode, Session, State};
use crate::unicode::{lowercase_of, str_to_lowercase, str_to_uppercase, uppercase_text_of};
use vstd::prelude::*;

verus! {

/// How the results of a command are put out.
#[derive(Debug, Clone, Copy, PartialEq, Eq, Structural)]
pub enum OutputFormat {
    Json,
    Table,
    Full,
}

/// A word that names no output format.
#[derive(Debug)]
pub struct UnknownOutputFormat {
    /// The word as it was given.
    pub given: String,
}

impl UnknownOutputFormat {
    /// The error in words.
    pub fn to_string(&self) -> (message: String)
        ensures
            message@ == "Unknown output format: "@ + self.given@
                + ". Valid options: json, table, full"@,
    {
        let mut message = joined("Unknown output format: ", self.given.as_str());
        message.append(". Valid options: json, table, full");
        message
    }
}

/// The output format that the word `lower` names, which is in lowercase.
pub open spec fn output_format_named(lower: Seq<char>) -> Option<OutputFormat> {
    if lower == "json"@ {
        Some(OutputFormat::Json)
    } else if lower == "table"@ {
        Some(OutputFormat::Table)
    } else if lower == "full"@ {
        Some(OutputFormat::Full)
    } else {
        None
    }
}

impl OutputFormat {
    /// The output format that the word `lower` names, which is in
    /// lowercase already.
    pub fn from_lowercase(lower: &str) -> (r: Option<Self>)
        ensures
            r == output_format_named(lower@),
    {
        if str_eq(lower, "json") {
            Some(OutputFormat::Json)
        } else if str_eq(lower, "table") {
            Some(OutputFormat::Table)
        } else if str_eq(lower, "full") {
            Some(OutputFormat::Full)
        } else {
            None
        }
    }

    /// The output format that the word `s` names, in whatever case it is
    /// written.
    pub fn from_str(s: &str) -> (r: Result<Self, UnknownOutputFormat>)
        ensures
            match output_format_named(lowercase_of(s@)) {
                Some(format) => r matches Ok(f) && f == format,
                None => r matches Err(e) && e.given@ == s@,
            },
    {
        let lower = str_to_lowercase(s);
        match Self::from_lowercase(lower.as_str()) {
            Some(format) => Ok(format),
            None => Err(UnknownOutputFormat { given: s.to_owned() }),
        }
    }
}

/// A session named by its place among the service's resources.
pub const SESSION_PATH_PATTERN: &'static str = "sessions/([a-zA-Z0-9_-]+)";

/// A session named in running text.
pub const SESSION_WORD_PATTERN: &'static str = "session[:\\s]+([a-zA-Z0-9_-]+)";

/// A session named by a link into the cloud console.
pub const CONSOLE_LINK_PATTERN: &'static str =
    "https://console\\.cloud\\.google\\.com/[^/]*/([a-zA-Z0-9_-]+)";

/// Which group of the patterns holds the id of a session: the first
/// behind the whole match.
pub const SESSION_ID_GROUP: usize = 1;

/// What the group of the id matched, among the groups `groups` of one
/// match: `None` where the match has no such group, or the group took no
/// part in it.
pub open spec fn id_group(groups: Seq<Option<Seq<char>>>) -> Option<Seq<char>> {
    if groups.len() > SESSION_ID_GROUP {
        groups[SESSION_ID_GROUP as int]
    } else {
        None
    }
}

/// What the group of the id matched in each of `matches`.
pub open spec fn id_groups(matches: Seq<Seq<Option<Seq<char>>>>) -> Seq<Option<Seq<char>>> {
    matches.map_values(|groups: Seq<Option<Seq<char>>>| id_group(groups))
}

/// `found` with those of `groups` added at its end, in their order, that
/// it does not hold yet.
pub open spec fn with_new_ids(found: Seq<Seq<char>>, groups: Seq<Option<Seq<char>>>) -> Seq<
    Seq<char>,
>
    decreases groups.len(),
{
    if groups.len() == 0 {
        found
    } else {
        let so_far = with_new_ids(found, groups.drop_last());
        match groups.last() {
            Some(id) => if so_far.contains(id) {
                so_far
            } else {
                so_far.push(id)
            },
            None => so_far,
        }
    }
}

/// `found` with the ids added that `pattern` finds in `text`.
pub open spec fn with_ids_of_pattern(
    found: Seq<Seq<char>>,
    pattern: Seq<char>,
    text: Seq<char>,
) -> Seq<Seq<char>> {
    match groups_of(pattern, text) {
        Some(matches) => with_new_ids(found, id_groups(matches)),
        None => found,
    }
}

/// `found` with the ids added that the three patterns find in `text`, one
/// pattern after the other.
pub open spec fn with_ids_of_comment(found: Seq<Seq<char>>, text: Seq<char>) -> Seq<Seq<char>> {
    with_ids_of_pattern(
        with_ids_of_pattern(
            with_ids_of_pattern(found, SESSION_PATH_PATTERN@, text),
            SESSION_WORD_PATTERN@,
            text,
        ),
        CONSOLE_LINK_PATTERN@,
        text,
    )
}

/// The ids of the sessions that `comments` name, each once, in the order
/// in which they are first found.
pub open spec fn session_ids_in(comments: Seq<Seq<char>>) -> Seq<Seq<char>>
    decreases comments.len(),
{
    if comments.len() == 0 {
        Seq::empty()
    } else {
        with_ids_of_comment(session_ids_in(comments.drop_last()), comments.last())
    }
}

/// Whether `list` holds the string `id`.
pub fn holds_string(list: &Vec<String>, id: &str) -> (r: bool)
    ensures
        r == texts(list@).contains(id@),
{
    let mut i: usize = 0;
    while i < list.len()
        invariant
            i <= list.len(),
            forall|j: int| 0 <= j < i ==> #[trigger] texts(list@)[j] != id@,
        decreases list.len() - i,
    {
        if str_eq(list[i].as_str(), id) {
            assert(texts(list@)[i as int] == id@);
            return true;
        }
        i = i + 1;
    }
    false
}

/// Adds those of `groups` at the end of `found`, in their order, that it
/// does not hold yet.
pub fn add_new_ids(found: &mut Vec<String>, groups: Vec<Option<String>>)
    ensures
        texts(final(found)@) == with_new_ids(texts(old(found)@), opt_texts(groups@)),
{
    let ghost start = texts(found@);
    let ghost all = opt_texts(groups@);
    let mut i: usize = 0;
    proof {
        assert(all.take(0) =~= Seq::<Option<Seq<char>>>::empty());
    }
    while i < groups.len()
        invariant
            i <= groups.len(),
            all == opt_texts(groups@),
            texts(found@) == with_new_ids(start, all.take(i as int)),
        decreases groups.len() - i,
    {
        proof {
            assert(all.take(i + 1).drop_last() =~= all.take(i as int));
            assert(all.take(i + 1).last() == all[i as int]);
        }
        if let Some(id) = &groups[i] {
            if !holds_string(found, id.as_str()) {
                let ghost before = texts(found@);
                found.push(id.clone());
                proof {
                    assert(texts(found@) =~= before.push(id@));
                }
            }
        }
        i = i + 1;
    }
    proof {
        assert(all.take(i as int) =~= all);
    }
}

/// What the group of the id matched in each of `matches`.
pub fn pick_id_groups(matches: &Vec<Vec<Option<String>>>) -> (picked: Vec<Option<String>>)
    ensures
        opt_texts(picked@) == id_groups(match_views(matches@)),
{
    let mut picked: Vec<Option<String>> = Vec::new();
    let mut i: usize = 0;
    while i < matches.len()
        invariant
            i <= matches.len(),
            picked.len() == i,
            forall|j: int|
                0 <= j < i ==> #[trigger] opt_texts(picked@)[j] == id_group(
                    match_views(matches@)[j],
                ),
        decreases matches.len() - i,
    {
        let found = &matches[i];
        let ghost before = opt_texts(picked@);
        if found.len() > SESSION_ID_GROUP {
            picked.push(clone_opt_text(&found[SESSION_ID_GROUP]));
            proof {
                assert(opt_texts(found@)[SESSION_ID_GROUP as int] == opt_text(
                    found@[SESSION_ID_GROUP as int],
                ));
            }
        } else {
            picked.push(None);
        }
        proof {
            assert(opt_texts(picked@) =~= before.push(id_group(match_views(matches@)[i as int])));
        }
        i = i + 1;
    }
    proof {
        assert(opt_texts(picked@) =~= id_groups(match_views(matches@)));
    }
    picked
}

/// Adds the ids that `pattern` finds in `text` to `found`.
fn add_ids_of_pattern(found: &mut Vec<String>, pattern: &str, text: &str)
    ensures
        texts(final(found)@) == with_ids_of_pattern(texts(old(found)@), pattern@, text@),
{
    if let Some(matches) = groups(pattern, text) {
        add_new_ids(found, pick_id_groups(&matches));
    }
}

/// The ids of the sessions that `comments` name, each once, in the order
/// in which they are first found: comment after comment, and in each
/// comment pattern after pattern.
pub fn extract_jules_session_ids(comments: &Vec<String>) -> (ids: Vec<String>)
    ensures
        texts(ids@) == session_ids_in(texts(comments@)),
{
    let ghost all = texts(comments@);
    let mut ids: Vec<String> = Vec::new();
    let mut i: usize = 0;
    proof {
        assert(all.take(0) =~= Seq::<Seq<char>>::empty());
        assert(texts(ids@) =~= Seq::<Seq<char>>::empty());
    }
    while i < comments.len()
        invariant
            i <= comments.len(),
            all == texts(comments@),
            texts(ids@) == session_ids_in(all.take(i as int)),
        decreases comments.len() - i,
    {
        proof {
            assert(all.take(i + 1).drop_last() =~= all.take(i as int));
            assert(all.take(i + 1).last() == comments@[i as int]@);
        }
        let text = comments[i].as_str();
        add_ids_of_pattern(&mut ids, SESSION_PATH_PATTERN, text);
        add_ids_of_pattern(&mut ids, SESSION_WORD_PATTERN, text);
        add_ids_of_pattern(&mut ids, CONSOLE_LINK_PATTERN, text);
        i = i + 1;
    }
    proof {
        assert(all.take(i as int) =~= all);
    }
    ids
}

/// A session with the state `state`, the title `title` and the prompt
/// `prompt` is listed under the filters given. A session of no known state
/// passes every state filter.
pub open spec fn session_listed(
    state_filter: Option<Seq<char>>,
    search: Option<Seq<char>>,
    state: Option<State>,
    title: Option<Seq<char>>,
    prompt: Seq<char>,
) -> bool {
    (match (state_filter, state) {
        (Some(word), Some(s)) => state_word_admits(lowercase_of(word), s),
        _ => true,
    }) && (match search {
        Some(text) => search_admits(text, title, prompt),
        None => true,
    })
}

/// Whether `session` is listed under the filters given.
pub fn lists_session(state_filter: &Option<String>, search: &Option<String>, session: &Session) -> (r:
    bool)
    ensures
        r == session_listed(
            opt_text(*state_filter),
            opt_text(*search),
            session.state,
            opt_text(session.title),
            session.prompt@,
        ),
{
    if let Some(word) = state_filter {
        if let Some(state) = session.state {
            let lower = str_to_lowercase(word.as_str());
            if !matches_state_word(lower.as_str(), state) {
                return false;
            }
        }
    }
    match search {
        Some(text) => matches_search(text.as_str(), session),
        None => true,
    }
}

/// What the word `mode` asks a session to do when it is done, in whatever
/// case it is written: a pull request, or nothing in particular.
pub fn automation_mode(mode: &str) -> (r: AutomationMode)
    ensures
        r == (if uppercase_text_of(mode@) == "AUTO_CREATE_PR"@ {
            AutomationMode::AutoCreatePr
        } else {
            AutomationMode::AutomationModeUnspecified
        }),
{
    let upper = str_to_uppercase(mode);
    if str_eq(upper.as_str(), "AUTO_CREATE_PR") {
        AutomationMode::AutoCreatePr
    } else {
        AutomationMode::AutomationModeUnspecified
    }
}

/// The pieces of `s` between the characters `sep`, in their order: one
/// more than `s` holds of `sep`.
pub open spec fn pieces_of(s: Seq<char>, sep: char) -> Seq<Seq<char>>
    decreases s.len(),
{
    if s.len() == 0 {
        seq![Seq::<char>::empty()]
    } else {
        let front = pieces_of(s.drop_last(), sep);
        if s.last() == sep {
            front.push(Seq::empty())
        } else {
            front.drop_last().push(front.last().push(s.last()))
        }
    }
}

/// The pieces of `s` between the characters `sep`, in their order.
pub fn split_on(s: &str, sep: char) -> (pieces: Vec<String>)
    ensures
        texts(pieces@) == pieces_of(s@, sep),
{
    let chars = chars_of(s);
    let mut pieces: Vec<String> = Vec::new();
    let mut start: usize = 0;
    let mut i: usize = 0;
    proof {
        assert(chars@.take(0) =~= Seq::<char>::empty());
        assert(texts(pieces@).push(chars@.subrange(0, 0)) =~= seq![Seq::<char>::empty()]);
    }
    while i < chars.len()
        invariant
            start <= i <= chars.len(),
            texts(pieces@).push(chars@.subrange(start as int, i as int)) == pieces_of(
                chars@.take(i as int),
                sep,
            ),
        decreases chars.len() - i,
    {
        let ghost done = texts(pieces@);
        let ghost open = chars@.subrange(start as int, i as int);
        proof {
            assert(chars@.take(i + 1).drop_last() =~= chars@.take(i as int));
            assert(chars@.take(i + 1).last() == chars@[i as int]);
            assert(done.push(open).drop_last() =~= done);
        }
        if chars[i] == sep {
            pieces.push(string_of(&chars, start, i));
            start = i + 1;
            proof {
                assert(texts(pieces@) =~= done.push(open));
                assert(chars@.subrange(start as int, i + 1) =~= Seq::<char>::empty());
            }
        } else {
            proof {
                assert(chars@.subrange(start as int, i + 1) =~= open.push(chars@[i as int]));
            }
        }
        i = i + 1;
    }
    let ghost done = texts(pieces@);
    pieces.push(string_of(&chars, start, i));
    proof {
        assert(chars@.take(i as int) =~= chars@);
        assert(texts(pieces@) =~= done.push(chars@.subrange(start as int, i as int)));
    }
    pieces
}

/// Where a pull request is, as its link says.
#[derive(Debug)]
pub struct PullRequestLocator {
    pub owner: String,
    pub repo: String,
    pub number: String,
}

/// The pieces of a link name a pull request: there are seven or more, and
/// the fifth is `pull`.
pub open spec fn names_pull_request(pieces: Seq<Seq<char>>) -> bool {
    pieces.len() >= 7 && pieces[4] == "pull"@
}

/// Where the pull request is that the link `pr_url` names: of the pieces
/// of the link between its slashes, the fourth is taken as the owner, the
/// fifth as the repository and the seventh as the number. `None` where the
/// pieces name no pull request.
pub fn locate_pull_request(pr_url: &str) -> (r: Option<PullRequestLocator>)
    ensures
        ({
            let pieces = pieces_of(pr_url@, '/');
            if names_pull_request(pieces) {
                r matches Some(at) && at.owner@ == pieces[3] && at.repo@ == pieces[4] && at.number@
                    == pieces[6]
            } else {
                r is None
            }
        }),
{
    let parts = split_on(pr_url, '/');
    if parts.len() < 7 || !str_eq(parts[4].as_str(), "pull") {
        return None;
    }
    Some(
        PullRequestLocator {
            owner: parts[3].clone(),
            repo: parts[4].clone(),
            number: parts[6].clone(),
        },
    )
}

/// What watching a session does after it has looked at the session.
#[derive(Debug, Clone, Copy, PartialEq, Eq, Structural)]
pub enum WatchStep {
    /// The session has ended or is paused: the watch is over.
    Stop,
    /// The session goes on: look at its latest activities, wait, and look
    /// again.
    Continue,
}

/// What watching does with a session in the state `state`: it stops for a
/// session that has ended or is paused, and goes on for any other, and for
/// one of no known state.
pub fn watch_step(state: Option<State>) -> (step: WatchStep)
    ensures
        step == (if state is Some && state->0.terminal() {
            WatchStep::Stop
        } else {
            WatchStep::Continue
        }),
{
    match state {
        Some(s) => if s.is_terminal() {
            WatchStep::Stop
        } else {
            WatchStep::Continue
        },
        None => WatchStep::Continue,
    }
}

/// What a watch remembers between two looks.
#[derive(Debug, Clone, Copy, PartialEq, Eq, Structural)]
pub struct Watch {
    /// How many activities the last look found.
    pub last_activity_count: usize,
}

impl Watch {
    /// A watch that has not looked yet.
    pub fn new() -> (w: Watch)
        ensures
            w.last_activity_count == 0,
    {
        Watch { last_activity_count: 0 }
    }

    /// Takes note that a look found `count` activities, and says whether
    /// that is another number than the look before found: then the latest
    /// are to be shown.
    pub fn note_activities(&mut self, count: usize) -> (changed: bool)
        ensures
            changed == (count != old(self).last_activity_count),
            final(self).last_activity_count == count,
    {
        let changed = count != self.last_activity_count;
        self.last_activity_count = count;
        changed
    }
}

} // verus!
