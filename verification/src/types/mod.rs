//! The resources of the session service.

pub mod activity;
pub mod common;
pub mod error;
pub mod session;
pub mod source;

pub use activity::{
    Activity, AgentMessaged, Artifact, BashOutput, ChangeSet, GitPatch, ListActivitiesResponse,
    Media, Plan, PlanApproved, PlanGenerated, PlanStep, ProgressUpdated, SessionCompleted,
    SessionFailed, UserMessaged,
};
pub use common::ListResponse;
pub use error::{ApiError, ErrorDetail};
pub use session::{
    AutomationMode, CreateSessionRequest, GitHubRepoContext, ListSessionsResponse, PullRequest,
    SendMessageRequest, Session, SessionOutput, SourceContext, State,
};
pub use source::{GitHubBranch, GitHubRepo, ListSourcesResponse, Source};
