//! The commands of the plain command line: what each is given, and what
//! each decides before and after it asks the session service.

use crate::config::Config;
use crate::text::{contains_text, holds_text, opt_text, str_eq};
use crate::types::session::{
    AutomationMode, CreateSessionRequest, GitHubRepoContext, Session, SourceContext, State,
};
use crate::unicode::{
    lowercase_of, str_to_lowercase, str_to_uppercase, uppercase_text_of,
};
use vstd::prelude::*;

verus! {

/// What `active` is given.
#[derive(Debug, Clone)]
pub struct ActiveArgs {
    /// A text to look for in titles and prompts.
    pub search: Option<String>,
    /// How many sessions to show at most.
    pub limit: u32,
}

/// What `activities` is given.
#[derive(Debug, Clone)]
pub struct ActivitiesArgs {
    pub session_id: String,
    /// How many activities to show at most.
    pub limit: u32,
}

/// What `activity` is given.
#[derive(Debug, Clone)]
pub struct ActivityArgs {
    pub session_id: String,
    pub activity_id: String,
}

/// What `approve-plan` is given.
#[derive(Debug, Clone)]
pub struct ApprovePlanArgs {
    pub session_id: String,
}

/// What `completed` is given.
#[derive(Debug, Clone)]
pub struct CompletedArgs {
    /// A text to look for in titles and prompts.
    pub search: Option<String>,
    /// How many sessions to show at most.
    pub limit: u32,
}

/// What `config show` is given: nothing.
#[derive(Debug, Clone, Copy)]
pub struct ConfigShowArgs;

/// What `config init` is given: nothing.
#[derive(Debug, Clone, Copy)]
pub struct ConfigInitArgs;

/// What `config set` is given.
#[derive(Debug, Clone)]
pub struct ConfigSetArgs {
    /// The setting to change.
    pub key: String,
    /// Its new value.
    pub value: String,
}

/// What `create` is given.
#[derive(Debug, Clone)]
pub struct CreateArgs {
    /// What the agent is to do.
    pub prompt: String,
    /// The source to work on.
    pub source: String,
    pub title: Option<String>,
    /// The branch to start from.
    pub branch: Option<String>,
    /// Whether the plan waits for approval.
    pub require_approval: bool,
    /// `AUTO_CREATE_PR` or `MANUAL`.
    pub automation_mode: Option<String>,
}

/// What `failed` is given.
#[derive(Debug, Clone)]
pub struct FailedArgs {
    /// A text to look for in titles and prompts.
    pub search: Option<String>,
    /// How many sessions to show at most.
    pub limit: u32,
}

/// What `send-message` is given.
#[derive(Debug, Clone)]
pub struct SendMessageArgs {
    pub session_id: String,
    pub message: String,
}

/// What `session` is given.
#[derive(Debug, Clone)]
pub struct SessionArgs {
    pub id: String,
}

/// What `sessions` is given.
#[derive(Debug, Clone)]
pub struct SessionsArgs {
    /// `active`, `completed`, `failed` or `paused`.
    pub state: Option<String>,
    /// A text to look for in titles and prompts.
    pub search: Option<String>,
    /// How many sessions to show at most.
    pub limit: u32,
}

/// What `source` is given.
#[derive(Debug, Clone)]
pub struct SourceArgs {
    pub id: String,
}

/// What `sources` is given.
#[derive(Debug, Clone)]
pub struct SourcesArgs {
    pub filter: Option<String>,
    /// How many sources to show at most.
    pub limit: u32,
}

/// A session in the state `state` is among those that the word `word`
/// names, which is in lowercase. A word that names no group of states
/// leaves every session in.
pub open spec fn state_word_admits(word: Seq<char>, state: State) -> bool {
    if word == "active"@ {
        state.active()
    } else if word == "completed"@ {
        state == State::Completed
    } else if word == "failed"@ {
        state == State::Failed
    } else if word == "paused"@ {
        state == State::Paused
    } else {
        true
    }
}

/// Whether a session in the state `state` is among those that the word
/// `word` names, which is in lowercase.
pub fn matches_state_word(word: &str, state: State) -> (r: bool)
    ensures
        r == state_word_admits(word@, state),
{
    if str_eq(word, "active") {
        state.is_active()
    } else if str_eq(word, "completed") {
        state == State::Completed
    } else if str_eq(word, "failed") {
        state == State::Failed
    } else if str_eq(word, "paused") {
        state == State::Paused
    } else {
        true
    }
}

/// The text `search` stands in the title or in the prompt, case left
/// aside: in the lowercase form of one of them stands that of `search`.
pub open spec fn search_admits(search: Seq<char>, title: Option<Seq<char>>, prompt: Seq<char>) -> bool {
    (match title {
        Some(t) => holds_text(lowercase_of(t), lowercase_of(search)),
        None => false,
    }) || holds_text(lowercase_of(prompt), lowercase_of(search))
}

/// Whether the text `search` stands in the title or in the prompt of
/// `session`, case left aside.
pub fn matches_search(search: &str, session: &Session) -> (r: bool)
    ensures
        r == search_admits(search@, opt_text(session.title), session.prompt@),
{
    let needle = str_to_lowercase(search);
    let in_title = match &session.title {
        Some(title) => {
            let lower = str_to_lowercase(title.as_str());
            contains_text(lower.as_str(), needle.as_str())
        },
        None => false,
    };
    if in_title {
        return true;
    }
    let lower = str_to_lowercase(session.prompt.as_str());
    contains_text(lower.as_str(), needle.as_str())
}

/// A session with the state `state`, the title `title` and the prompt
/// `prompt` is listed by `sessions` under the filters given. A session
/// of no known state passes a state filter only where the filter is the
/// word `unknown`.
pub open spec fn session_listed(
    state_filter: Option<Seq<char>>,
    search: Option<Seq<char>>,
    state: Option<State>,
    title: Option<Seq<char>>,
    prompt: Seq<char>,
) -> bool {
    (match state_filter {
        Some(word) => match state {
            Some(s) => state_word_admits(lowercase_of(word), s),
            None => lowercase_of(word) == "unknown"@,
        },
        None => true,
    }) && (match search {
        Some(text) => search_admits(text, title, prompt),
        None => true,
    })
}

/// Whether `sessions` lists `session` under the filters of `args`.
pub fn lists_session(args: &SessionsArgs, session: &Session) -> (r: bool)
    ensures
        r == session_listed(
            opt_text(args.state),
            opt_text(args.search),
            session.state,
            opt_text(session.title),
            session.prompt@,
        ),
{
    if let Some(word) = &args.state {
        let lower = str_to_lowercase(word.as_str());
        let passes = match session.state {
            Some(state) => matches_state_word(lower.as_str(), state),
            None => str_eq(lower.as_str(), "unknown"),
        };
        if !passes {
            return false;
        }
    }
    match &args.search {
        Some(text) => matches_search(text.as_str(), session),
        None => true,
    }
}

/// A session is listed among those of one group of states: `in_group`
/// holds of its state, and the search text, if any, stands in its title or
/// prompt.
pub open spec fn listed_in_group(
    in_group: bool,
    search: Option<Seq<char>>,
    title: Option<Seq<char>>,
    prompt: Seq<char>,
) -> bool {
    in_group && (match search {
        Some(text) => search_admits(text, title, prompt),
        None => true,
    })
}

/// Whether `active` lists `session`.
pub fn lists_active(args: &ActiveArgs, session: &Session) -> (r: bool)
    ensures
        r == listed_in_group(
            session.state is Some && session.state->0.active(),
            opt_text(args.search),
            opt_text(session.title),
            session.prompt@,
        ),
{
    let in_group = match session.state {
        Some(state) => state.is_active(),
        None => false,
    };
    in_group && match &args.search {
        Some(text) => matches_search(text.as_str(), session),
        None => true,
    }
}

/// Whether `completed` lists `session`.
pub fn lists_completed(args: &CompletedArgs, session: &Session) -> (r: bool)
    ensures
        r == listed_in_group(
            session.state == Some(State::Completed),
            opt_text(args.search),
            opt_text(session.title),
            session.prompt@,
        ),
{
    let in_group = match session.state {
        Some(state) => state == State::Completed,
        None => false,
    };
    in_group && match &args.search {
        Some(text) => matches_search(text.as_str(), session),
        None => true,
    }
}

/// Whether `failed` lists `session`.
pub fn lists_failed(args: &FailedArgs, session: &Session) -> (r: bool)
    ensures
        r == listed_in_group(
            session.state == Some(State::Failed),
            opt_text(args.search),
            opt_text(session.title),
            session.prompt@,
        ),
{
    let in_group = match session.state {
        Some(state) => state == State::Failed,
        None => false,
    };
    in_group && match &args.search {
        Some(text) => matches_search(text.as_str(), session),
        None => true,
    }
}

/// What the word `upper` asks a session to do when it is done; the word is
/// in uppercase. `None`: the word asks for nothing that is known.
pub open spec fn automation_named(upper: Seq<char>) -> Option<AutomationMode> {
    if upper == "AUTO_CREATE_PR"@ {
        Some(AutomationMode::AutoCreatePr)
    } else if upper == "MANUAL"@ {
        Some(AutomationMode::AutomationModeUnspecified)
    } else {
        None
    }
}

/// What the word `upper` asks a session to do when it is done; the word is
/// in uppercase already.
pub fn automation_from_uppercase(upper: &str) -> (r: Option<AutomationMode>)
    ensures
        r == automation_named(upper@),
{
    if str_eq(upper, "AUTO_CREATE_PR") {
        Some(AutomationMode::AutoCreatePr)
    } else if str_eq(upper, "MANUAL") {
        Some(AutomationMode::AutomationModeUnspecified)
    } else {
        None
    }
}

/// What `create` asks the service for, given `args`: the branch only where
/// one is named, approval of the plan only where it is asked for, and the
/// automation that the word names, in whatever case it is written.
pub fn create_request(args: &CreateArgs) -> (request: CreateSessionRequest)
    ensures
        request.prompt@ == args.prompt@,
        request.source_context.source@ == args.source@,
        match args.branch {
            Some(b) => request.source_context.github_repo_context matches Some(c)
                && c.starting_branch@ == b@,
            None => request.source_context.github_repo_context is None,
        },
        opt_text(request.title) == opt_text(args.title),
        request.require_plan_approval == (if args.require_approval {
            Some(true)
        } else {
            None
        }),
        request.automation_mode == (match args.automation_mode {
            Some(word) => automation_named(uppercase_text_of(word@)),
            None => None,
        }),
{
    let github_repo_context = match &args.branch {
        Some(branch) => Some(GitHubRepoContext { starting_branch: branch.clone() }),
        None => None,
    };
    let automation_mode = match &args.automation_mode {
        Some(word) => {
            let upper = str_to_uppercase(word.as_str());
            automation_from_uppercase(upper.as_str())
        },
        None => None,
    };
    let title = match &args.title {
        Some(t) => Some(t.clone()),
        None => None,
    };
    CreateSessionRequest {
        prompt: args.prompt.clone(),
        source_context: SourceContext { source: args.source.clone(), github_repo_context },
        title,
        require_plan_approval: if args.require_approval {
            Some(true)
        } else {
            None
        },
        automation_mode,
    }
}

/// A setting that `config set` can change.
#[derive(Debug, Clone, Copy, PartialEq, Eq, Structural)]
pub enum Setting {
    ApiKey,
    ApiUrl,
    DefaultOwner,
    DefaultRepo,
}

/// The setting that `key` names.
pub open spec fn setting_named(key: Seq<char>) -> Option<Setting> {
    if key == "api_key"@ {
        Some(Setting::ApiKey)
    } else if key == "api_url"@ {
        Some(Setting::ApiUrl)
    } else if key == "default_owner"@ {
        Some(Setting::DefaultOwner)
    } else if key == "default_repo"@ {
        Some(Setting::DefaultRepo)
    } else {
        None
    }
}

/// Sets in `config` the setting that `args` names to the value that it
/// gives, and returns which one that was. Where the key names no setting,
/// `config` stays as it is.
pub fn apply_setting(config: &mut Config, args: &ConfigSetArgs) -> (changed: Option<Setting>)
    ensures
        changed == setting_named(args.key@),
        final(config).cache == old(config).cache,
        opt_text(final(config).api_key) == (if changed == Some(Setting::ApiKey) {
            Some(args.value@)
        } else {
            opt_text(old(config).api_key)
        }),
        opt_text(final(config).api_url) == (if changed == Some(Setting::ApiUrl) {
            Some(args.value@)
        } else {
            opt_text(old(config).api_url)
        }),
        opt_text(final(config).default_owner) == (if changed == Some(Setting::DefaultOwner) {
            Some(args.value@)
        } else {
            opt_text(old(config).default_owner)
        }),
        opt_text(final(config).default_repo) == (if changed == Some(Setting::DefaultRepo) {
            Some(args.value@)
        } else {
            opt_text(old(config).default_repo)
        }),
{
    let key = args.key.as_str();
    if str_eq(key, "api_key") {
        config.api_key = Some(args.value.clone());
        Some(Setting::ApiKey)
    } else if str_eq(key, "api_url") {
        config.api_url = Some(args.value.clone());
        Some(Setting::ApiUrl)
    } else if str_eq(key, "default_owner") {
        config.default_owner = Some(args.value.clone());
        Some(Setting::DefaultOwner)
    } else if str_eq(key, "default_repo") {
        config.default_repo = Some(args.value.clone());
        Some(Setting::DefaultRepo)
    } else {
        None
    }
}

} // verus!
