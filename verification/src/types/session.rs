//! Sessions: the units of work of the coding agent.

use vstd::prelude::*;

verus! {

/// A session.
#[derive(Debug, Clone)]
pub struct Session {
    /// The full resource name.
    pub name: String,
    pub id: String,
    /// What the agent was asked to do.
    pub prompt: String,
    pub source_context: SourceContext,
    pub title: Option<String>,
    pub require_plan_approval: Option<bool>,
    pub automation_mode: Option<AutomationMode>,
    pub create_time: Option<String>,
    pub update_time: Option<String>,
    pub state: Option<State>,
    /// Where the session can be seen on the web.
    pub url: Option<String>,
    pub outputs: Vec<SessionOutput>,
}

/// The state of a session.
#[derive(Debug, Clone, Copy, PartialEq, Eq, Structural)]
pub enum State {
    StateUnspecified,
    Queued,
    Planning,
    AwaitingPlanApproval,
    AwaitingUserFeedback,
    InProgress,
    Paused,
    Failed,
    Completed,
}

/// The name under which a state is shown.
pub open spec fn display_name_of(state: State) -> Seq<char> {
    match state {
        State::StateUnspecified => "Unspecified"@,
        State::Queued => "Queued"@,
        State::Planning => "Planning"@,
        State::AwaitingPlanApproval => "Awaiting Plan Approval"@,
        State::AwaitingUserFeedback => "Awaiting Feedback"@,
        State::InProgress => "In Progress"@,
        State::Paused => "Paused"@,
        State::Failed => "Failed"@,
        State::Completed => "Completed"@,
    }
}

impl State {
    /// The name under which the state is shown.
    pub fn display_name(&self) -> (name: &'static str)
        ensures
            name@ == display_name_of(*self),
    {
        match self {
            State::StateUnspecified => "Unspecified",
            State::Queued => "Queued",
            State::Planning => "Planning",
            State::AwaitingPlanApproval => "Awaiting Plan Approval",
            State::AwaitingUserFeedback => "Awaiting Feedback",
            State::InProgress => "In Progress",
            State::Paused => "Paused",
            State::Failed => "Failed",
            State::Completed => "Completed",
        }
    }

    /// The session is waiting or at work: it has neither ended nor been
    /// paused.
    pub open spec fn active(self) -> bool {
        self == State::Queued || self == State::Planning || self == State::AwaitingPlanApproval
            || self == State::AwaitingUserFeedback || self == State::InProgress
    }

    /// Whether the session is waiting or at work.
    pub fn is_active(&self) -> (r: bool)
        ensures
            r == self.active(),
    {
        match self {
            State::Queued
            | State::Planning
            | State::AwaitingPlanApproval
            | State::AwaitingUserFeedback
            | State::InProgress => true,
            _ => false,
        }
    }

    /// Nothing more happens in the session by itself: it has ended, well or
    /// not, or it is paused.
    pub open spec fn terminal(self) -> bool {
        self == State::Completed || self == State::Failed || self == State::Paused
    }

    /// Whether nothing more happens in the session by itself.
    pub fn is_terminal(&self) -> (r: bool)
        ensures
            r == self.terminal(),
    {
        match self {
            State::Completed | State::Failed | State::Paused => true,
            _ => false,
        }
    }
}

/// What a session does by itself when it is done.
#[derive(Debug, Clone, Copy, PartialEq, Eq, Structural)]
pub enum AutomationMode {
    AutomationModeUnspecified,
    AutoCreatePr,
}

/// The source that a session works on.
#[derive(Debug, Clone)]
pub struct SourceContext {
    pub source: String,
    pub github_repo_context: Option<GitHubRepoContext>,
}

/// Where in a repository on GitHub a session starts.
#[derive(Debug, Clone)]
pub struct GitHubRepoContext {
    pub starting_branch: String,
}

/// Something that a session has produced.
#[derive(Debug, Clone)]
pub struct SessionOutput {
    pub pull_request: Option<PullRequest>,
}

/// A pull request.
#[derive(Debug, Clone)]
pub struct PullRequest {
    pub url: String,
    pub title: String,
    pub description: String,
}

/// What is needed to make a session.
#[derive(Debug, Clone)]
pub struct CreateSessionRequest {
    pub prompt: String,
    pub source_context: SourceContext,
    pub title: Option<String>,
    pub require_plan_approval: Option<bool>,
    pub automation_mode: Option<AutomationMode>,
}

/// A message to a session.
#[derive(Debug, Clone)]
pub struct SendMessageRequest {
    pub prompt: String,
}

/// One page of sessions.
#[derive(Debug, Clone)]
pub struct ListSessionsResponse {
    pub sessions: Vec<Session>,
    pub next_page_token: Option<String>,
}

} // verus!
