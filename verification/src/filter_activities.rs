//! Choosing among a session's activities: by kind, by what they produced,
//! and how many.

use crate::text::{joined, str_eq};
use crate::types::activity::{activity_views, Activity, ActivityView, ArtifactView};
use crate::unicode::{lowercase_of, str_to_lowercase};
use vstd::prelude::*;

verus! {

/// A kind of activity to choose.
#[derive(Debug, Clone, Copy, PartialEq, Eq, Structural)]
pub enum ActivityTypeFilter {
    AgentMessage,
    UserMessage,
    Plan,
    PlanApproved,
    Progress,
    Completed,
    Failed,
}

/// A word that names no kind of activity.
#[derive(Debug)]
pub struct UnknownActivityType {
    /// The word as it was given.
    pub given: String,
}

impl UnknownActivityType {
    /// The error in words.
    pub fn to_string(&self) -> (message: String)
        ensures
            message@ == "Unknown activity type: "@ + self.given@,
    {
        joined("Unknown activity type: ", self.given.as_str())
    }
}

/// The kind of activity that the word `lower` names, which is in lowercase.
pub open spec fn activity_type_named(lower: Seq<char>) -> Option<ActivityTypeFilter> {
    if lower == "agent-message"@ || lower == "agent"@ {
        Some(ActivityTypeFilter::AgentMessage)
    } else if lower == "user-message"@ || lower == "user"@ {
        Some(ActivityTypeFilter::UserMessage)
    } else if lower == "plan"@ || lower == "plan-generated"@ {
        Some(ActivityTypeFilter::Plan)
    } else if lower == "plan-approved"@ || lower == "approved"@ {
        Some(ActivityTypeFilter::PlanApproved)
    } else if lower == "progress"@ || lower == "progress-updated"@ {
        Some(ActivityTypeFilter::Progress)
    } else if lower == "completed"@ || lower == "session-completed"@ {
        Some(ActivityTypeFilter::Completed)
    } else if lower == "failed"@ || lower == "session-failed"@ || lower == "error"@ {
        Some(ActivityTypeFilter::Failed)
    } else {
        None
    }
}

impl ActivityTypeFilter {
    /// The kind of activity that the word `lower` names, which is in
    /// lowercase already.
    pub fn from_lowercase(lower: &str) -> (r: Option<Self>)
        ensures
            r == activity_type_named(lower@),
    {
        if str_eq(lower, "agent-message") || str_eq(lower, "agent") {
            Some(ActivityTypeFilter::AgentMessage)
        } else if str_eq(lower, "user-message") || str_eq(lower, "user") {
            Some(ActivityTypeFilter::UserMessage)
        } else if str_eq(lower, "plan") || str_eq(lower, "plan-generated") {
            Some(ActivityTypeFilter::Plan)
        } else if str_eq(lower, "plan-approved") || str_eq(lower, "approved") {
            Some(ActivityTypeFilter::PlanApproved)
        } else if str_eq(lower, "progress") || str_eq(lower, "progress-updated") {
            Some(ActivityTypeFilter::Progress)
        } else if str_eq(lower, "completed") || str_eq(lower, "session-completed") {
            Some(ActivityTypeFilter::Completed)
        } else if str_eq(lower, "failed") || str_eq(lower, "session-failed") || str_eq(
            lower,
            "error",
        ) {
            Some(ActivityTypeFilter::Failed)
        } else {
            None
        }
    }

    /// The kind of activity that the word `s` names, in whatever case it
    /// is written.
    pub fn parse(s: &str) -> (r: Result<Self, UnknownActivityType>)
        ensures
            match activity_type_named(lowercase_of(s@)) {
                Some(kind) => r matches Ok(k) && k == kind,
                None => r matches Err(e) && e.given@ == s@,
            },
    {
        let lower = str_to_lowercase(s);
        match Self::from_lowercase(lower.as_str()) {
            Some(kind) => Ok(kind),
            None => Err(UnknownActivityType { given: s.to_owned() }),
        }
    }

    /// An activity of this kind.
    pub open spec fn admits(self, a: ActivityView) -> bool {
        match self {
            ActivityTypeFilter::AgentMessage => a.agent_messaged is Some,
            ActivityTypeFilter::UserMessage => a.user_messaged is Some,
            ActivityTypeFilter::Plan => a.plan_generated is Some,
            ActivityTypeFilter::PlanApproved => a.plan_approved is Some,
            ActivityTypeFilter::Progress => a.progress_updated is Some,
            ActivityTypeFilter::Completed => a.session_completed is Some,
            ActivityTypeFilter::Failed => a.session_failed is Some,
        }
    }

    /// Whether `activity` is of this kind.
    pub fn matches(&self, activity: &Activity) -> (r: bool)
        ensures
            r == self.admits(activity@),
    {
        match self {
            ActivityTypeFilter::AgentMessage => activity.agent_messaged.is_some(),
            ActivityTypeFilter::UserMessage => activity.user_messaged.is_some(),
            ActivityTypeFilter::Plan => activity.plan_generated.is_some(),
            ActivityTypeFilter::PlanApproved => activity.plan_approved.is_some(),
            ActivityTypeFilter::Progress => activity.progress_updated.is_some(),
            ActivityTypeFilter::Completed => activity.session_completed.is_some(),
            ActivityTypeFilter::Failed => activity.session_failed.is_some(),
        }
    }
}

/// How activities are put out.
#[derive(Debug, Clone, Copy, PartialEq, Eq, Structural)]
pub enum OutputFormat {
    /// As JSON, complete.
    Json,
    /// As a table, cut to fit.
    Table,
    /// With every field, for reading.
    Full,
    /// The text alone.
    ContentOnly,
}

/// A word that names no output format.
#[derive(Debug)]
pub struct UnknownOutputFormat {
    /// The word as it was given.
    pub given: String,
}

impl UnknownOutputFormat {
    /// The error in words.
    pub fn to_string(&self) -> (message: String)
        ensures
            message@ == "Unknown output format: "@ + self.given@
                + ". Valid options: json, table, full, content-only"@,
    {
        let mut message = joined("Unknown output format: ", self.given.as_str());
        message.append(". Valid options: json, table, full, content-only");
        message
    }
}

/// The output format that the word `lower` names, which is in lowercase.
pub open spec fn output_format_named(lower: Seq<char>) -> Option<OutputFormat> {
    if lower == "json"@ {
        Some(OutputFormat::Json)
    } else if lower == "table"@ {
        Some(OutputFormat::Table)
    } else if lower == "full"@ {
        Some(OutputFormat::Full)
    } else if lower == "content"@ || lower == "content-only"@ {
        Some(OutputFormat::ContentOnly)
    } else {
        None
    }
}

impl OutputFormat {
    /// The output format that the word `lower` names, which is in
    /// lowercase already.
    pub fn from_lowercase(lower: &str) -> (r: Option<Self>)
        ensures
            r == output_format_named(lower@),
    {
        if str_eq(lower, "json") {
            Some(OutputFormat::Json)
        } else if str_eq(lower, "table") {
            Some(OutputFormat::Table)
        } else if str_eq(lower, "full") {
            Some(OutputFormat::Full)
        } else if str_eq(lower, "content") || str_eq(lower, "content-only") {
            Some(OutputFormat::ContentOnly)
        } else {
            None
        }
    }

    /// The output format that the word `s` names, in whatever case it is
    /// written.
    pub fn parse(s: &str) -> (r: Result<Self, UnknownOutputFormat>)
        ensures
            match output_format_named(lowercase_of(s@)) {
                Some(format) => r matches Ok(f) && f == format,
                None => r matches Err(e) && e.given@ == s@,
            },
    {
        let lower = str_to_lowercase(s);
        match Self::from_lowercase(lower.as_str()) {
            Some(format) => Ok(format),
            None => Err(UnknownOutputFormat { given: s.to_owned() }),
        }
    }
}

/// One of `filters` admits `a`.
pub open spec fn admitted_by_any(filters: Seq<ActivityTypeFilter>, a: ActivityView) -> bool {
    exists|i: int| 0 <= i < filters.len() && (#[trigger] filters[i]).admits(a)
}

/// One of `artifacts` holds the output of a shell command.
pub open spec fn holds_bash_output(artifacts: Seq<ArtifactView>) -> bool {
    exists|i: int| 0 <= i < artifacts.len() && (#[trigger] artifacts[i]).bash_output is Some
}

/// `a` passes: it is of one of the kinds `filters`, where there are any,
/// and holds the output of a shell command, where `has_bash_output` asks
/// for that.
pub open spec fn passes(
    filters: Seq<ActivityTypeFilter>,
    has_bash_output: bool,
    a: ActivityView,
) -> bool {
    (filters.len() == 0 || admitted_by_any(filters, a)) && (!has_bash_output || holds_bash_output(
        a.artifacts,
    ))
}

/// The entries of `s` that pass, in their order.
pub open spec fn passing(
    filters: Seq<ActivityTypeFilter>,
    has_bash_output: bool,
    s: Seq<ActivityView>,
) -> Seq<ActivityView>
    decreases s.len(),
{
    if s.len() == 0 {
        s
    } else if passes(filters, has_bash_output, s.last()) {
        passing(filters, has_bash_output, s.drop_last()).push(s.last())
    } else {
        passing(filters, has_bash_output, s.drop_last())
    }
}

/// The first `n` entries of `s`, or all of `s` where there are fewer or
/// no number is given.
pub open spec fn first_n(s: Seq<ActivityView>, n: Option<usize>) -> Seq<ActivityView> {
    match n {
        Some(n) => if n < s.len() {
            s.take(n as int)
        } else {
            s
        },
        None => s,
    }
}

/// Whether one of `filters` admits `activity`.
pub fn matches_any(filters: &Vec<ActivityTypeFilter>, activity: &Activity) -> (r: bool)
    ensures
        r == admitted_by_any(filters@, activity@),
{
    let mut i: usize = 0;
    while i < filters.len()
        invariant
            i <= filters.len(),
            forall|j: int| 0 <= j < i ==> !(#[trigger] filters@[j]).admits(activity@),
        decreases filters.len() - i,
    {
        if filters[i].matches(activity) {
            return true;
        }
        i = i + 1;
    }
    false
}

/// Whether one of the artifacts of `activity` holds the output of a shell
/// command.
pub fn has_bash_output(activity: &Activity) -> (r: bool)
    ensures
        r == holds_bash_output(activity@.artifacts),
{
    let mut i: usize = 0;
    while i < activity.artifacts.len()
        invariant
            i <= activity.artifacts.len(),
            forall|j: int| 0 <= j < i ==> (#[trigger] activity@.artifacts[j]).bash_output is None,
        decreases activity.artifacts.len() - i,
    {
        if activity.artifacts[i].bash_output.is_some() {
            assert(activity@.artifacts[i as int].bash_output is Some);
            return true;
        }
        i = i + 1;
    }
    false
}

/// The activities among `activities` that pass the filters, in their
/// order, and of those the first `last_n` where a number is given. With
/// the newest first, these are the latest.
pub fn select_activities(
    activities: &Vec<Activity>,
    type_filters: &Vec<ActivityTypeFilter>,
    has_bash: bool,
    last_n: Option<usize>,
) -> (selected: Vec<Activity>)
    ensures
        activity_views(selected@) == first_n(
            passing(type_filters@, has_bash, activity_views(activities@)),
            last_n,
        ),
{
    let ghost all = activity_views(activities@);
    let mut selected: Vec<Activity> = Vec::new();
    let mut i: usize = 0;
    proof {
        assert(activity_views(selected@) =~= passing(type_filters@, has_bash, all.take(0)));
    }
    while i < activities.len()
        invariant
            i <= activities.len(),
            all == activity_views(activities@),
            activity_views(selected@) == passing(type_filters@, has_bash, all.take(i as int)),
        decreases activities.len() - i,
    {
        let a = &activities[i];
        let ghost before = activity_views(selected@);
        proof {
            assert(all.take(i + 1).drop_last() =~= all.take(i as int));
            assert(all.take(i + 1).last() == a@);
        }
        if (type_filters.len() == 0 || matches_any(type_filters, a)) && (!has_bash
            || has_bash_output(a)) {
            selected.push(a.clone());
            proof {
                assert(activity_views(selected@) =~= before.push(a@));
            }
        }
        i = i + 1;
    }
    proof {
        assert(all.take(i as int) =~= all);
    }
    if let Some(n) = last_n {
        let ghost full = activity_views(selected@);
        selected.truncate(n);
        proof {
            if n < full.len() {
                assert(activity_views(selected@) =~= full.take(n as int));
            } else {
                assert(activity_views(selected@) =~= full);
            }
        }
    }
    selected
}

} // verus!
