//! Activities: their kind as it is shown, and the text they have to show.

use gules::types::activity::{
    camel_to_title_case, Activity, AgentMessaged, Artifact, BashOutput, Plan, PlanApproved,
    PlanGenerated, ProgressUpdated, SessionCompleted, SessionFailed, UserMessaged,
};

/// An activity of no kind, as the service would send it with these fields:
/// `{"name":"s/1/a/1","id":"1","createTime":"2025-10-26T00:00:00Z","originator":..,"artifacts":[]}`.
fn plain_activity(originator: &str) -> Activity {
    Activity {
        name: "s/1/a/1".to_string(),
        id: "1".to_string(),
        description: None,
        create_time: "2025-10-26T00:00:00Z".to_string(),
        originator: originator.to_string(),
        artifacts: vec![],
        agent_messaged: None,
        user_messaged: None,
        plan_generated: None,
        plan_approved: None,
        progress_updated: None,
        session_completed: None,
        session_failed: None,
    }
}

#[test]
fn test_camel_to_title_case() {
    assert_eq!(camel_to_title_case("agentMessaged"), "Agent Messaged");
    assert_eq!(camel_to_title_case("userMessaged"), "User Messaged");
    assert_eq!(camel_to_title_case("planGenerated"), "Plan Generated");
    assert_eq!(camel_to_title_case("planApproved"), "Plan Approved");
    assert_eq!(camel_to_title_case("progressUpdated"), "Progress Updated");
    assert_eq!(camel_to_title_case("sessionCompleted"), "Session Completed");
    assert_eq!(camel_to_title_case("sessionFailed"), "Session Failed");
    assert_eq!(camel_to_title_case("unknown"), "Unknown");

    // Test edge cases
    assert_eq!(camel_to_title_case("helloWorld"), "Hello World");
    assert_eq!(camel_to_title_case("HTTPRequest"), "H T T P Request");
    assert_eq!(camel_to_title_case("a"), "A");
    assert_eq!(camel_to_title_case(""), "");
}

#[test]
fn test_activity_type_conversion() {
    // Test each known activity type
    let mut agent = plain_activity("agent");
    agent.agent_messaged = Some(AgentMessaged {
        agent_message: "test".to_string(),
    });
    let mut user = plain_activity("user");
    user.user_messaged = Some(UserMessaged {
        user_message: "test".to_string(),
    });
    let mut plan = plain_activity("agent");
    plan.plan_generated = Some(PlanGenerated {
        plan: Plan {
            id: "p1".to_string(),
            steps: vec![],
            create_time: None,
        },
    });
    let mut approved = plain_activity("agent");
    approved.plan_approved = Some(PlanApproved {
        plan_id: "p1".to_string(),
    });
    let mut progress = plain_activity("agent");
    progress.progress_updated = Some(ProgressUpdated {
        title: None,
        description: Some("test".to_string()),
    });
    let mut completed = plain_activity("system");
    completed.session_completed = Some(SessionCompleted {});
    let mut failed = plain_activity("system");
    failed.session_failed = Some(SessionFailed {
        reason: "error".to_string(),
    });

    let test_cases = vec![
        (agent, "Agent Messaged"),
        (user, "User Messaged"),
        (plan, "Plan Generated"),
        (approved, "Plan Approved"),
        (progress, "Progress Updated"),
        (completed, "Session Completed"),
        (failed, "Session Failed"),
    ];

    for (activity, expected_type) in test_cases {
        assert_eq!(
            activity.activity_type(),
            expected_type,
            "Activity type mismatch for {}",
            expected_type
        );
    }
}

#[test]
fn test_activity_type_resilience() {
    // Test that we handle activity with no type gracefully
    let activity = plain_activity("agent");
    let activity_type = activity.activity_type();
    assert!(!activity_type.is_empty(), "Should return some activity type");
    assert!(
        activity_type.contains("[ERROR"),
        "Should have error marker: {}",
        activity_type
    );

    // A kind that is not known, such as `"codeReviewed":{"reviewId":"r1"}`,
    // has no field in an activity: what is left is an activity of no kind.
    let activity = plain_activity("agent");
    let activity_type = activity.activity_type();
    assert!(
        !activity_type.is_empty(),
        "Should handle unknown activity types gracefully"
    );
    assert!(
        activity_type.contains("[ERROR") || activity_type.contains("[UNKNOWN]"),
        "Should have error/unknown marker for unrecognized types: {}",
        activity_type
    );
}

#[test]
fn activity_type_takes_the_first_kind_that_is_set() {
    let mut activity = plain_activity("agent");
    activity.session_failed = Some(SessionFailed {
        reason: "late".to_string(),
    });
    activity.user_messaged = Some(UserMessaged {
        user_message: "early".to_string(),
    });
    assert_eq!(activity.activity_type(), "User Messaged");
    assert_eq!(activity.activity_type(), "User Messaged".to_string());
}

#[test]
fn title_case_uses_the_first_character_of_the_uppercase_form() {
    // The uppercase form of 'ß' is "SS"; the title takes its first character.
    assert_eq!(camel_to_title_case("ßeta"), "Seta");
    // An uppercase character beyond ASCII gets its space too.
    assert_eq!(camel_to_title_case("aÉb"), "A Éb");
}

#[test]
fn content_of_a_progress_report_with_a_command() {
    let mut activity = plain_activity("agent");
    activity.progress_updated = Some(ProgressUpdated {
        title: Some("Ran a command".to_string()),
        description: None,
    });
    activity.artifacts.push(Artifact {
        change_set: None,
        media: None,
        bash_output: None,
    });
    activity.artifacts.push(Artifact {
        change_set: None,
        media: None,
        bash_output: Some(BashOutput {
            command: "\n  cd /app\necho  do   setup \t\n".to_string(),
            output: "do setup".to_string(),
            exit_code: None,
        }),
    });
    activity.artifacts.push(Artifact {
        change_set: None,
        media: None,
        bash_output: Some(BashOutput {
            command: "second".to_string(),
            output: String::new(),
            exit_code: Some(0),
        }),
    });
    // Trimmed, line feeds as spaces, each two spaces as one, from the left:
    // "cd /app echo  do   setup" gives "cd /app echo do  setup".
    assert_eq!(
        activity.content(),
        Some("Ran: cd /app echo do  setup".to_string())
    );
}

#[test]
fn content_of_a_progress_report_without_a_command() {
    let mut activity = plain_activity("agent");
    activity.progress_updated = Some(ProgressUpdated {
        title: None,
        description: None,
    });
    assert_eq!(activity.content(), Some("Progress update: ".to_string()));
    activity.progress_updated = Some(ProgressUpdated {
        title: None,
        description: Some("half way".to_string()),
    });
    assert_eq!(
        activity.content(),
        Some("Progress update: half way".to_string())
    );
}

#[test]
fn content_prefers_the_message_of_the_agent() {
    let mut activity = plain_activity("agent");
    activity.agent_messaged = Some(AgentMessaged {
        agent_message: "from the agent".to_string(),
    });
    activity.user_messaged = Some(UserMessaged {
        user_message: "from the user".to_string(),
    });
    activity.session_failed = Some(SessionFailed {
        reason: "broken".to_string(),
    });
    assert_eq!(activity.content(), Some("from the agent".to_string()));
}

#[test]
fn content_is_none_for_plans_and_completion() {
    let mut activity = plain_activity("agent");
    activity.plan_approved = Some(PlanApproved {
        plan_id: "p1".to_string(),
    });
    activity.session_completed = Some(SessionCompleted {});
    assert_eq!(activity.content(), None);
}

#[test]
fn a_copy_of_an_activity_holds_the_same() {
    let mut activity = plain_activity("agent");
    activity.description = Some("described".to_string());
    activity.plan_generated = Some(PlanGenerated {
        plan: Plan {
            id: "p1".to_string(),
            steps: vec![gules::types::activity::PlanStep {
                id: "s1".to_string(),
                title: "first".to_string(),
                description: None,
                index: Some(1),
            }],
            create_time: Some("2025-10-26T00:00:00Z".to_string()),
        },
    });
    let copy = activity.clone();
    assert_eq!(format!("{:?}", copy), format!("{:?}", activity));
}
