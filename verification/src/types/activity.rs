//! Activities: the events that a session emits, and what they carry.

use crate::text::{
    chars_of, clone_opt_text, joined, halve_spaces, halved_spaces, on_one_line, opt_text,
    replace_line_feeds, trim, trimmed,
};
use crate::unicode::{char_is_uppercase, char_to_uppercase, is_uppercase, uppercase_of};
use vstd::prelude::*;

verus! {

/// A message from the agent.
#[derive(Debug)]
pub struct AgentMessaged {
    pub agent_message: String,
}

/// What an [`AgentMessaged`] holds.
pub struct AgentMessagedView {
    pub agent_message: Seq<char>,
}

impl View for AgentMessaged {
    type V = AgentMessagedView;

    open spec fn view(&self) -> AgentMessagedView {
        AgentMessagedView {
            agent_message: self.agent_message@,
        }
    }
}

impl Clone for AgentMessaged {
    fn clone(&self) -> (r: Self)
        ensures
            r@ == self@,
    {
        AgentMessaged {
            agent_message: self.agent_message.clone(),
        }
    }
}

/// A message from the user.
#[derive(Debug)]
pub struct UserMessaged {
    pub user_message: String,
}

/// What a [`UserMessaged`] holds.
pub struct UserMessagedView {
    pub user_message: Seq<char>,
}

impl View for UserMessaged {
    type V = UserMessagedView;

    open spec fn view(&self) -> UserMessagedView {
        UserMessagedView {
            user_message: self.user_message@,
        }
    }
}

impl Clone for UserMessaged {
    fn clone(&self) -> (r: Self)
        ensures
            r@ == self@,
    {
        UserMessaged {
            user_message: self.user_message.clone(),
        }
    }
}

/// One step of a plan.
#[derive(Debug)]
pub struct PlanStep {
    pub id: String,
    pub title: String,
    pub description: Option<String>,
    pub index: Option<u32>,
}

/// What a [`PlanStep`] holds.
pub struct PlanStepView {
    pub id: Seq<char>,
    pub title: Seq<char>,
    pub description: Option<Seq<char>>,
    pub index: Option<u32>,
}

impl View for PlanStep {
    type V = PlanStepView;

    open spec fn view(&self) -> PlanStepView {
        PlanStepView {
            id: self.id@,
            title: self.title@,
            description: opt_text(self.description),
            index: self.index,
        }
    }
}

impl Clone for PlanStep {
    fn clone(&self) -> (r: Self)
        ensures
            r@ == self@,
    {
        PlanStep {
            id: self.id.clone(),
            title: self.title.clone(),
            description: clone_opt_text(&self.description),
            index: self.index,
        }
    }
}

/// The views of a sequence of steps.
pub open spec fn step_views(s: Seq<PlanStep>) -> Seq<PlanStepView> {
    s.map_values(|x: PlanStep| x@)
}

/// A copy of a list of steps.
pub fn clone_steps(v: &Vec<PlanStep>) -> (r: Vec<PlanStep>)
    ensures
        step_views(r@) == step_views(v@),
{
    let mut out: Vec<PlanStep> = Vec::new();
    let mut i: usize = 0;
    while i < v.len()
        invariant
            i <= v.len(),
            out.len() == i,
            forall|j: int| 0 <= j < i ==> out[j]@ == v[j]@,
        decreases v.len() - i,
    {
        out.push(v[i].clone());
        i = i + 1;
    }
    proof {
        assert(step_views(out@) =~= step_views(v@));
    }
    out
}

/// A plan: its steps in order.
#[derive(Debug)]
pub struct Plan {
    pub id: String,
    pub steps: Vec<PlanStep>,
    pub create_time: Option<String>,
}

/// What a [`Plan`] holds.
pub struct PlanView {
    pub id: Seq<char>,
    pub steps: Seq<PlanStepView>,
    pub create_time: Option<Seq<char>>,
}

impl View for Plan {
    type V = PlanView;

    open spec fn view(&self) -> PlanView {
        PlanView {
            id: self.id@,
            steps: step_views(self.steps@),
            create_time: opt_text(self.create_time),
        }
    }
}

impl Clone for Plan {
    fn clone(&self) -> (r: Self)
        ensures
            r@ == self@,
    {
        Plan {
            id: self.id.clone(),
            steps: clone_steps(&self.steps),
            create_time: clone_opt_text(&self.create_time),
        }
    }
}

/// The agent drew up a plan.
#[derive(Debug)]
pub struct PlanGenerated {
    pub plan: Plan,
}

/// What a [`PlanGenerated`] holds.
pub struct PlanGeneratedView {
    pub plan: PlanView,
}

impl View for PlanGenerated {
    type V = PlanGeneratedView;

    open spec fn view(&self) -> PlanGeneratedView {
        PlanGeneratedView {
            plan: self.plan@,
        }
    }
}

impl Clone for PlanGenerated {
    fn clone(&self) -> (r: Self)
        ensures
            r@ == self@,
    {
        PlanGenerated {
            plan: self.plan.clone(),
        }
    }
}

/// A plan was approved.
#[derive(Debug)]
pub struct PlanApproved {
    pub plan_id: String,
}

/// What a [`PlanApproved`] holds.
pub struct PlanApprovedView {
    pub plan_id: Seq<char>,
}

impl View for PlanApproved {
    type V = PlanApprovedView;

    open spec fn view(&self) -> PlanApprovedView {
        PlanApprovedView {
            plan_id: self.plan_id@,
        }
    }
}

impl Clone for PlanApproved {
    fn clone(&self) -> (r: Self)
        ensures
            r@ == self@,
    {
        PlanApproved {
            plan_id: self.plan_id.clone(),
        }
    }
}

/// A progress report.
#[derive(Debug)]
pub struct ProgressUpdated {
    pub title: Option<String>,
    pub description: Option<String>,
}

/// What a [`ProgressUpdated`] holds.
pub struct ProgressUpdatedView {
    pub title: Option<Seq<char>>,
    pub description: Option<Seq<char>>,
}

impl View for ProgressUpdated {
    type V = ProgressUpdatedView;

    open spec fn view(&self) -> ProgressUpdatedView {
        ProgressUpdatedView {
            title: opt_text(self.title),
            description: opt_text(self.description),
        }
    }
}

impl Clone for ProgressUpdated {
    fn clone(&self) -> (r: Self)
        ensures
            r@ == self@,
    {
        ProgressUpdated {
            title: clone_opt_text(&self.title),
            description: clone_opt_text(&self.description),
        }
    }
}

/// The session ended well.
#[derive(Debug)]
pub struct SessionCompleted {
}

/// What a [`SessionCompleted`] holds.
pub struct SessionCompletedView {
}

impl View for SessionCompleted {
    type V = SessionCompletedView;

    open spec fn view(&self) -> SessionCompletedView {
        SessionCompletedView {
        }
    }
}

impl Clone for SessionCompleted {
    fn clone(&self) -> (r: Self)
        ensures
            r@ == self@,
    {
        SessionCompleted {
        }
    }
}

/// The session ended in failure.
#[derive(Debug)]
pub struct SessionFailed {
    pub reason: String,
}

/// What a [`SessionFailed`] holds.
pub struct SessionFailedView {
    pub reason: Seq<char>,
}

impl View for SessionFailed {
    type V = SessionFailedView;

    open spec fn view(&self) -> SessionFailedView {
        SessionFailedView {
            reason: self.reason@,
        }
    }
}

impl Clone for SessionFailed {
    fn clone(&self) -> (r: Self)
        ensures
            r@ == self@,
    {
        SessionFailed {
            reason: self.reason.clone(),
        }
    }
}

/// A patch against a commit.
#[derive(Debug)]
pub struct GitPatch {
    pub unidiff_patch: Option<String>,
    pub base_commit_id: Option<String>,
    pub suggested_commit_message: Option<String>,
}

/// What a [`GitPatch`] holds.
pub struct GitPatchView {
    pub unidiff_patch: Option<Seq<char>>,
    pub base_commit_id: Option<Seq<char>>,
    pub suggested_commit_message: Option<Seq<char>>,
}

impl View for GitPatch {
    type V = GitPatchView;

    open spec fn view(&self) -> GitPatchView {
        GitPatchView {
            unidiff_patch: opt_text(self.unidiff_patch),
            base_commit_id: opt_text(self.base_commit_id),
            suggested_commit_message: opt_text(self.suggested_commit_message),
        }
    }
}

impl Clone for GitPatch {
    fn clone(&self) -> (r: Self)
        ensures
            r@ == self@,
    {
        GitPatch {
            unidiff_patch: clone_opt_text(&self.unidiff_patch),
            base_commit_id: clone_opt_text(&self.base_commit_id),
            suggested_commit_message: clone_opt_text(&self.suggested_commit_message),
        }
    }
}

/// A set of changes to a source.
#[derive(Debug)]
pub struct ChangeSet {
    pub source: String,
    pub git_patch: Option<GitPatch>,
}

/// What a [`ChangeSet`] holds.
pub struct ChangeSetView {
    pub source: Seq<char>,
    pub git_patch: Option<GitPatchView>,
}

impl View for ChangeSet {
    type V = ChangeSetView;

    open spec fn view(&self) -> ChangeSetView {
        ChangeSetView {
            source: self.source@,
            git_patch: match self.git_patch {
                Some(x) => Some(x@),
                None => None,
            },
        }
    }
}

impl Clone for ChangeSet {
    fn clone(&self) -> (r: Self)
        ensures
            r@ == self@,
    {
        ChangeSet {
            source: self.source.clone(),
            git_patch: match &self.git_patch {
                Some(x) => Some(x.clone()),
                None => None,
            },
        }
    }
}

/// Media data, base64 encoded.
#[derive(Debug)]
pub struct Media {
    pub data: String,
    pub mime_type: String,
}

/// What a [`Media`] holds.
pub struct MediaView {
    pub data: Seq<char>,
    pub mime_type: Seq<char>,
}

impl View for Media {
    type V = MediaView;

    open spec fn view(&self) -> MediaView {
        MediaView {
            data: self.data@,
            mime_type: self.mime_type@,
        }
    }
}

impl Clone for Media {
    fn clone(&self) -> (r: Self)
        ensures
            r@ == self@,
    {
        Media {
            data: self.data.clone(),
            mime_type: self.mime_type.clone(),
        }
    }
}

/// A shell command and what it printed.
#[derive(Debug)]
pub struct BashOutput {
    pub command: String,
    pub output: String,
    pub exit_code: Option<i32>,
}

/// What a [`BashOutput`] holds.
pub struct BashOutputView {
    pub command: Seq<char>,
    pub output: Seq<char>,
    pub exit_code: Option<i32>,
}

impl View for BashOutput {
    type V = BashOutputView;

    open spec fn view(&self) -> BashOutputView {
        BashOutputView {
            command: self.command@,
            output: self.output@,
            exit_code: self.exit_code,
        }
    }
}

impl Clone for BashOutput {
    fn clone(&self) -> (r: Self)
        ensures
            r@ == self@,
    {
        BashOutput {
            command: self.command.clone(),
            output: self.output.clone(),
            exit_code: self.exit_code,
        }
    }
}

/// What an activity produced.
#[derive(Debug)]
pub struct Artifact {
    pub change_set: Option<ChangeSet>,
    pub media: Option<Media>,
    pub bash_output: Option<BashOutput>,
}

/// What an [`Artifact`] holds.
pub struct ArtifactView {
    pub change_set: Option<ChangeSetView>,
    pub media: Option<MediaView>,
    pub bash_output: Option<BashOutputView>,
}

impl View for Artifact {
    type V = ArtifactView;

    open spec fn view(&self) -> ArtifactView {
        ArtifactView {
            change_set: match self.change_set {
                Some(x) => Some(x@),
                None => None,
            },
            media: match self.media {
                Some(x) => Some(x@),
                None => None,
            },
            bash_output: match self.bash_output {
                Some(x) => Some(x@),
                None => None,
            },
        }
    }
}

impl Clone for Artifact {
    fn clone(&self) -> (r: Self)
        ensures
            r@ == self@,
    {
        Artifact {
            change_set: match &self.change_set {
                Some(x) => Some(x.clone()),
                None => None,
            },
            media: match &self.media {
                Some(x) => Some(x.clone()),
                None => None,
            },
            bash_output: match &self.bash_output {
                Some(x) => Some(x.clone()),
                None => None,
            },
        }
    }
}

/// The views of a sequence of artifacts.
pub open spec fn artifact_views(s: Seq<Artifact>) -> Seq<ArtifactView> {
    s.map_values(|x: Artifact| x@)
}

/// A copy of a list of artifacts.
pub fn clone_artifacts(v: &Vec<Artifact>) -> (r: Vec<Artifact>)
    ensures
        artifact_views(r@) == artifact_views(v@),
{
    let mut out: Vec<Artifact> = Vec::new();
    let mut i: usize = 0;
    while i < v.len()
        invariant
            i <= v.len(),
            out.len() == i,
            forall|j: int| 0 <= j < i ==> out[j]@ == v[j]@,
        decreases v.len() - i,
    {
        out.push(v[i].clone());
        i = i + 1;
    }
    proof {
        assert(artifact_views(out@) =~= artifact_views(v@));
    }
    out
}

/// One event of a session. The fields from `agent_messaged` on say of which kind it is.
#[derive(Debug)]
pub struct Activity {
    pub name: String,
    pub id: String,
    pub description: Option<String>,
    pub create_time: String,
    pub originator: String,
    pub artifacts: Vec<Artifact>,
    pub agent_messaged: Option<AgentMessaged>,
    pub user_messaged: Option<UserMessaged>,
    pub plan_generated: Option<PlanGenerated>,
    pub plan_approved: Option<PlanApproved>,
    pub progress_updated: Option<ProgressUpdated>,
    pub session_completed: Option<SessionCompleted>,
    pub session_failed: Option<SessionFailed>,
}

/// What an [`Activity`] holds.
pub struct ActivityView {
    pub name: Seq<char>,
    pub id: Seq<char>,
    pub description: Option<Seq<char>>,
    pub create_time: Seq<char>,
    pub originator: Seq<char>,
    pub artifacts: Seq<ArtifactView>,
    pub agent_messaged: Option<AgentMessagedView>,
    pub user_messaged: Option<UserMessagedView>,
    pub plan_generated: Option<PlanGeneratedView>,
    pub plan_approved: Option<PlanApprovedView>,
    pub progress_updated: Option<ProgressUpdatedView>,
    pub session_completed: Option<SessionCompletedView>,
    pub session_failed: Option<SessionFailedView>,
}

impl View for Activity {
    type V = ActivityView;

    open spec fn view(&self) -> ActivityView {
        ActivityView {
            name: self.name@,
            id: self.id@,
            description: opt_text(self.description),
            create_time: self.create_time@,
            originator: self.originator@,
            artifacts: artifact_views(self.artifacts@),
            agent_messaged: match self.agent_messaged {
                Some(x) => Some(x@),
                None => None,
            },
            user_messaged: match self.user_messaged {
                Some(x) => Some(x@),
                None => None,
            },
            plan_generated: match self.plan_generated {
                Some(x) => Some(x@),
                None => None,
            },
            plan_approved: match self.plan_approved {
                Some(x) => Some(x@),
                None => None,
            },
            progress_updated: match self.progress_updated {
                Some(x) => Some(x@),
                None => None,
            },
            session_completed: match self.session_completed {
                Some(x) => Some(x@),
                None => None,
            },
            session_failed: match self.session_failed {
                Some(x) => Some(x@),
                None => None,
            },
        }
    }
}

impl Clone for Activity {
    fn clone(&self) -> (r: Self)
        ensures
            r@ == self@,
    {
        Activity {
            name: self.name.clone(),
            id: self.id.clone(),
            description: clone_opt_text(&self.description),
            create_time: self.create_time.clone(),
            originator: self.originator.clone(),
            artifacts: clone_artifacts(&self.artifacts),
            agent_messaged: match &self.agent_messaged {
                Some(x) => Some(x.clone()),
                None => None,
            },
            user_messaged: match &self.user_messaged {
                Some(x) => Some(x.clone()),
                None => None,
            },
            plan_generated: match &self.plan_generated {
                Some(x) => Some(x.clone()),
                None => None,
            },
            plan_approved: match &self.plan_approved {
                Some(x) => Some(x.clone()),
                None => None,
            },
            progress_updated: match &self.progress_updated {
                Some(x) => Some(x.clone()),
                None => None,
            },
            session_completed: match &self.session_completed {
                Some(x) => Some(x.clone()),
                None => None,
            },
            session_failed: match &self.session_failed {
                Some(x) => Some(x.clone()),
                None => None,
            },
        }
    }
}

/// The views of a sequence of activities.
pub open spec fn activity_views(s: Seq<Activity>) -> Seq<ActivityView> {
    s.map_values(|x: Activity| x@)
}

/// A copy of a list of activities.
pub fn clone_activities(v: &Vec<Activity>) -> (r: Vec<Activity>)
    ensures
        activity_views(r@) == activity_views(v@),
{
    let mut out: Vec<Activity> = Vec::new();
    let mut i: usize = 0;
    while i < v.len()
        invariant
            i <= v.len(),
            out.len() == i,
            forall|j: int| 0 <= j < i ==> out[j]@ == v[j]@,
        decreases v.len() - i,
    {
        out.push(v[i].clone());
        i = i + 1;
    }
    proof {
        assert(activity_views(out@) =~= activity_views(v@));
    }
    out
}

/// One page of a session's activities.
#[derive(Debug)]
pub struct ListActivitiesResponse {
    pub activities: Vec<Activity>,
    pub next_page_token: Option<String>,
}

/// What a [`ListActivitiesResponse`] holds.
pub struct ListActivitiesResponseView {
    pub activities: Seq<ActivityView>,
    pub next_page_token: Option<Seq<char>>,
}

impl View for ListActivitiesResponse {
    type V = ListActivitiesResponseView;

    open spec fn view(&self) -> ListActivitiesResponseView {
        ListActivitiesResponseView {
            activities: activity_views(self.activities@),
            next_page_token: opt_text(self.next_page_token),
        }
    }
}

impl Clone for ListActivitiesResponse {
    fn clone(&self) -> (r: Self)
        ensures
            r@ == self@,
    {
        ListActivitiesResponse {
            activities: clone_activities(&self.activities),
            next_page_token: clone_opt_text(&self.next_page_token),
        }
    }
}

/// `s` with a space in front of each uppercase character.
pub open spec fn spaced_out(s: Seq<char>) -> Seq<char>
    decreases s.len(),
{
    if s.len() == 0 {
        s
    } else if is_uppercase(s.last()) {
        spaced_out(s.drop_last()).push(' ').push(s.last())
    } else {
        spaced_out(s.drop_last()).push(s.last())
    }
}

/// The name `s`, written in camel case, as a title: the first character in
/// uppercase (the first character of its uppercase form), and a space in
/// front of each uppercase character behind it.
pub open spec fn title_case_of(s: Seq<char>) -> Seq<char> {
    if s.len() == 0 {
        s
    } else {
        seq![uppercase_of(s[0])[0]] + spaced_out(s.drop_first())
    }
}

/// A name in camel case as a title: `agentMessaged` as `Agent Messaged`.
pub fn camel_to_title_case(s: &str) -> (title: String)
    ensures
        title@ == title_case_of(s@),
{
    let chars = chars_of(s);
    let mut title = String::new();
    if chars.len() == 0 {
        return title;
    }
    let upper = char_to_uppercase(chars[0]);
    title.push(upper[0]);
    let ghost rest = chars@.drop_first();
    let mut i: usize = 1;
    proof {
        assert(rest.take(0) =~= Seq::<char>::empty());
        assert(title@ =~= seq![uppercase_of(chars@[0])[0]] + spaced_out(rest.take(0)));
    }
    while i < chars.len()
        invariant
            1 <= i <= chars.len(),
            rest == chars@.drop_first(),
            title@ == seq![uppercase_of(chars@[0])[0]] + spaced_out(rest.take(i - 1)),
        decreases chars.len() - i,
    {
        let c = chars[i];
        let ghost before = spaced_out(rest.take(i - 1));
        proof {
            assert(rest.take(i as int).drop_last() =~= rest.take(i - 1));
            assert(rest.take(i as int).last() == c);
        }
        if char_is_uppercase(c) {
            title.push(' ');
            title.push(c);
            proof {
                assert(title@ =~= seq![uppercase_of(chars@[0])[0]] + before.push(' ').push(c));
            }
        } else {
            title.push(c);
            proof {
                assert(title@ =~= seq![uppercase_of(chars@[0])[0]] + before.push(c));
            }
        }
        i = i + 1;
    }
    proof {
        assert(rest.take(i - 1) =~= rest);
    }
    title
}

/// The command of the first of `artifacts` that holds the output of a
/// shell command.
pub open spec fn first_command(artifacts: Seq<ArtifactView>) -> Option<Seq<char>>
    decreases artifacts.len(),
{
    if artifacts.len() == 0 {
        None
    } else {
        match artifacts[0].bash_output {
            Some(bash) => Some(bash.command),
            None => first_command(artifacts.drop_first()),
        }
    }
}

/// A command as it is shown: without whitespace at its ends, on one line,
/// with one space for each two.
pub open spec fn shown_command(command: Seq<char>) -> Seq<char> {
    halved_spaces(on_one_line(trimmed(command)))
}

/// What `text` is where there is one, else `fallback`.
pub open spec fn text_or(text: Option<Seq<char>>, fallback: Seq<char>) -> Seq<char> {
    match text {
        Some(t) => t,
        None => fallback,
    }
}

/// The text that an activity has to show: the message of a message, the
/// command or the title of a progress report, the reason of a failure;
/// for other activities there is none.
pub open spec fn content_of(a: ActivityView) -> Option<Seq<char>> {
    if let Some(m) = a.agent_messaged {
        Some(m.agent_message)
    } else if let Some(m) = a.user_messaged {
        Some(m.user_message)
    } else if let Some(p) = a.progress_updated {
        match first_command(a.artifacts) {
            Some(command) => Some("Ran: "@ + shown_command(command)),
            None => Some(
                text_or(p.title, "Progress update"@) + ": "@ + text_or(p.description, ""@),
            ),
        }
    } else if let Some(f) = a.session_failed {
        Some(f.reason)
    } else {
        None
    }
}

/// The name in camel case of the kind of an activity: that of the first
/// of its kind fields that is set.
pub open spec fn kind_field_of(a: ActivityView) -> Option<Seq<char>> {
    if a.agent_messaged is Some {
        Some("agentMessaged"@)
    } else if a.user_messaged is Some {
        Some("userMessaged"@)
    } else if a.plan_generated is Some {
        Some("planGenerated"@)
    } else if a.plan_approved is Some {
        Some("planApproved"@)
    } else if a.progress_updated is Some {
        Some("progressUpdated"@)
    } else if a.session_completed is Some {
        Some("sessionCompleted"@)
    } else if a.session_failed is Some {
        Some("sessionFailed"@)
    } else {
        None
    }
}

/// The kind of an activity as it is shown.
pub open spec fn activity_type_of(a: ActivityView) -> Seq<char> {
    match kind_field_of(a) {
        Some(field) => title_case_of(field),
        None => "[ERROR: No Activity Type]"@,
    }
}

impl Activity {
    /// The command of the first artifact that holds the output of a shell
    /// command.
    fn first_command(&self) -> (r: Option<&String>)
        ensures
            opt_text(match r {
                Some(s) => Some(*s),
                None => None,
            }) == first_command(self@.artifacts),
    {
        let mut i: usize = 0;
        proof {
            assert(self@.artifacts.skip(0) =~= self@.artifacts);
        }
        while i < self.artifacts.len()
            invariant
                i <= self.artifacts.len(),
                first_command(self@.artifacts) == first_command(self@.artifacts.skip(i as int)),
            decreases self.artifacts.len() - i,
        {
            proof {
                assert(self@.artifacts.skip(i as int)[0] == self.artifacts[i as int]@);
                assert(self@.artifacts.skip(i as int).drop_first() =~= self@.artifacts.skip(i + 1));
            }
            if let Some(bash) = &self.artifacts[i].bash_output {
                return Some(&bash.command);
            }
            i = i + 1;
        }
        None
    }

    /// The text that the activity has to show, if it has any.
    pub fn content(&self) -> (text: Option<String>)
        ensures
            opt_text(text) == content_of(self@),
    {
        if let Some(msg) = &self.agent_messaged {
            Some(msg.agent_message.clone())
        } else if let Some(msg) = &self.user_messaged {
            Some(msg.user_message.clone())
        } else if let Some(progress) = &self.progress_updated {
            match self.first_command() {
                Some(command) => {
                    let shown = halve_spaces(
                        replace_line_feeds(trim(command.as_str()).as_str()).as_str(),
                    );
                    Some(joined("Ran: ", shown.as_str()))
                },
                None => {
                    let title = match &progress.title {
                        Some(t) => t.as_str(),
                        None => "Progress update",
                    };
                    let desc = match &progress.description {
                        Some(d) => d.as_str(),
                        None => "",
                    };
                    let mut text = joined(title, ": ");
                    text.append(desc);
                    Some(text)
                },
            }
        } else if let Some(failed) = &self.session_failed {
            Some(failed.reason.clone())
        } else {
            None
        }
    }

    /// The kind of the activity as it is shown: `Agent Messaged` for a
    /// message of the agent, and so on; a marked text where the activity is
    /// of no kind.
    pub fn activity_type(&self) -> (kind: String)
        ensures
            kind@ == activity_type_of(self@),
    {
        if self.agent_messaged.is_some() {
            camel_to_title_case("agentMessaged")
        } else if self.user_messaged.is_some() {
            camel_to_title_case("userMessaged")
        } else if self.plan_generated.is_some() {
            camel_to_title_case("planGenerated")
        } else if self.plan_approved.is_some() {
            camel_to_title_case("planApproved")
        } else if self.progress_updated.is_some() {
            camel_to_title_case("progressUpdated")
        } else if self.session_completed.is_some() {
            camel_to_title_case("sessionCompleted")
        } else if self.session_failed.is_some() {
            camel_to_title_case("sessionFailed")
        } else {
            "[ERROR: No Activity Type]".to_owned()
        }
    }
}

} // verus!
