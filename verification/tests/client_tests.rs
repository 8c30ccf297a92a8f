//! The paths of the service's resources, what is said of a failed request,
//! and how times, states and texts are shown.

use gules::client::{
    activities_endpoint, activity_endpoint, approve_plan_endpoint, failure_message, request_url,
    send_message_endpoint, session_endpoint, sessions_endpoint, source_endpoint,
    sources_endpoint, JulesConfig, DEFAULT_PAGE_SIZE,
};
use gules::display::{
    count_occurrences, relative_age, shortened, state_from_word, state_mark, table_content,
    widened, StateMark,
};
use gules::text::{joined, first_chars, push_decimal, strip_prefix};
use gules::types::error::{ApiError, ErrorDetail};
use gules::types::session::State;

#[test]
fn pages_of_sessions() {
    assert_eq!(DEFAULT_PAGE_SIZE, 30);
    assert_eq!(sessions_endpoint(None, None), "/sessions?pageSize=30");
    assert_eq!(sessions_endpoint(Some(5), None), "/sessions?pageSize=5");
    assert_eq!(
        sessions_endpoint(Some(100), Some("abc")),
        "/sessions?pageSize=100&pageToken=abc"
    );
    assert_eq!(
        sessions_endpoint(None, Some("")),
        "/sessions?pageSize=30&pageToken="
    );
    assert_eq!(sessions_endpoint(Some(0), None), "/sessions?pageSize=0");
    assert_eq!(
        sessions_endpoint(Some(u32::MAX), None),
        "/sessions?pageSize=4294967295"
    );
}

#[test]
fn paths_of_sessions() {
    assert_eq!(session_endpoint("123"), "/sessions/123");
    assert_eq!(send_message_endpoint("123"), "/sessions/123:sendMessage");
    assert_eq!(approve_plan_endpoint("123"), "/sessions/123:approvePlan");
    assert_eq!(
        activities_endpoint("s1", Some(50), None),
        "/sessions/s1/activities?pageSize=50"
    );
    assert_eq!(
        activities_endpoint("s1", None, Some("tok")),
        "/sessions/s1/activities?pageSize=30&pageToken=tok"
    );
    assert_eq!(activity_endpoint("s1", "a9"), "/sessions/s1/activities/a9");
}

#[test]
fn pages_of_sources_encode_the_filter() {
    assert_eq!(sources_endpoint(None, None, None), "/sources?pageSize=30");
    assert_eq!(
        sources_endpoint(Some("name:prod"), Some(10), None),
        "/sources?pageSize=10&filter=name%3Aprod"
    );
    assert_eq!(
        sources_endpoint(Some("a b/c~d_e-f.g"), None, Some("t")),
        "/sources?pageSize=30&filter=a%20b%2Fc~d_e-f.g&pageToken=t"
    );
    // Bytes beyond ASCII are written byte by byte, in uppercase digits.
    assert_eq!(
        sources_endpoint(Some("é"), None, None),
        "/sources?pageSize=30&filter=%C3%A9"
    );
    assert_eq!(
        sources_endpoint(Some(""), None, None),
        "/sources?pageSize=30&filter="
    );
}

#[test]
fn a_source_is_addressed_with_or_without_its_prefix() {
    assert_eq!(
        source_endpoint("sources/github/owner/repo"),
        "/sources/github/owner/repo"
    );
    assert_eq!(source_endpoint("github/owner/repo"), "/sources/github/owner/repo");
    assert_eq!(source_endpoint("sources/"), "/sources/");
    assert_eq!(source_endpoint("sources"), "/sources/sources");
    assert_eq!(source_endpoint(""), "/sources/");
    assert_eq!(
        source_endpoint("sources/sources/x"),
        "/sources/sources/x"
    );
}

#[test]
fn addresses_start_at_the_base() {
    let config = JulesConfig::default();
    assert_eq!(
        request_url(&config, "/sessions/1"),
        "https://jules.googleapis.com/v1alpha/sessions/1"
    );
    let config = JulesConfig {
        api_key: "k".to_string(),
        base_url: "http://localhost:1".to_string(),
    };
    assert_eq!(request_url(&config, ""), "http://localhost:1");
}

#[test]
fn failures_are_told_in_the_services_words_where_it_has_any() {
    let error = ApiError {
        error: ErrorDetail {
            code: 404,
            message: "Session not found".to_string(),
            status: "NOT_FOUND".to_string(),
        },
    };
    assert_eq!(
        failure_message("404 Not Found", "{...}", Some(&error)),
        "API error 404: Session not found (NOT_FOUND)"
    );
    assert_eq!(
        failure_message("500 Internal Server Error", "boom", None),
        "API error 500 Internal Server Error: boom"
    );
    assert_eq!(
        failure_message("502 Bad Gateway", "", None),
        "API error: HTTP 502 Bad Gateway"
    );
    let zero = ApiError {
        error: ErrorDetail {
            code: 0,
            message: String::new(),
            status: String::new(),
        },
    };
    assert_eq!(failure_message("x", "", Some(&zero)), "API error 0:  ()");
}

#[test]
fn numbers_are_written_in_decimal() {
    for n in [0u64, 7, 9, 10, 11, 99, 100, 101, 12345, u64::MAX] {
        let mut out = "n=".to_string();
        push_decimal(&mut out, n);
        assert_eq!(out, format!("n={}", n));
    }
}

#[test]
fn ages_are_told_by_the_largest_full_unit() {
    assert_eq!(relative_age(0), Some("Just now".to_string()));
    assert_eq!(relative_age(59), Some("Just now".to_string()));
    assert_eq!(relative_age(-500), Some("Just now".to_string()));
    assert_eq!(relative_age(i64::MIN), Some("Just now".to_string()));
    assert_eq!(relative_age(60), Some("1m ago".to_string()));
    assert_eq!(relative_age(119), Some("1m ago".to_string()));
    assert_eq!(relative_age(3599), Some("59m ago".to_string()));
    assert_eq!(relative_age(3600), Some("1h ago".to_string()));
    assert_eq!(relative_age(86399), Some("23h ago".to_string()));
    assert_eq!(relative_age(86400), Some("1d ago".to_string()));
    assert_eq!(relative_age(7 * 86400 - 1), Some("6d ago".to_string()));
    assert_eq!(relative_age(7 * 86400), None);
    assert_eq!(relative_age(i64::MAX), None);
}

#[test]
fn states_are_read_as_the_service_writes_them() {
    assert_eq!(state_from_word("STATE_UNSPECIFIED"), Some(State::StateUnspecified));
    assert_eq!(state_from_word("QUEUED"), Some(State::Queued));
    assert_eq!(state_from_word("PLANNING"), Some(State::Planning));
    assert_eq!(
        state_from_word("AWAITING_PLAN_APPROVAL"),
        Some(State::AwaitingPlanApproval)
    );
    assert_eq!(
        state_from_word("AWAITING_USER_FEEDBACK"),
        Some(State::AwaitingUserFeedback)
    );
    assert_eq!(state_from_word("IN_PROGRESS"), Some(State::InProgress));
    assert_eq!(state_from_word("PAUSED"), Some(State::Paused));
    assert_eq!(state_from_word("FAILED"), Some(State::Failed));
    assert_eq!(state_from_word("COMPLETED"), Some(State::Completed));
    assert_eq!(state_from_word("completed"), None);
    assert_eq!(state_from_word("InProgress"), None);
    assert_eq!(state_from_word(""), None);
}

#[test]
fn states_are_marked() {
    assert_eq!(state_mark("STATE_UNSPECIFIED"), StateMark::Plain);
    assert_eq!(state_mark("QUEUED"), StateMark::Cyan);
    assert_eq!(state_mark("PLANNING"), StateMark::Yellow);
    assert_eq!(state_mark("AWAITING_PLAN_APPROVAL"), StateMark::Magenta);
    assert_eq!(state_mark("AWAITING_USER_FEEDBACK"), StateMark::Blue);
    assert_eq!(state_mark("IN_PROGRESS"), StateMark::Yellow);
    assert_eq!(state_mark("PAUSED"), StateMark::Dimmed);
    assert_eq!(state_mark("FAILED"), StateMark::Red);
    assert_eq!(state_mark("COMPLETED"), StateMark::Green);
    assert_eq!(state_mark("unknown"), StateMark::Plain);
}

#[test]
fn texts_are_fitted_to_a_table() {
    assert_eq!(table_content("short"), "short");
    assert_eq!(table_content("two\nlines  here"), "two lines here");
    let long = "x".repeat(81);
    assert_eq!(table_content(&long), format!("{}...", "x".repeat(80)));
    let exact = "x".repeat(80);
    assert_eq!(table_content(&exact), exact);
    // 41 characters of two bytes each: more than 80 bytes, all shown, dots added.
    let wide = "é".repeat(41);
    assert_eq!(table_content(&wide), format!("{}...", wide));
    // What counts for the dots is the text as it came.
    let spaced = " ".repeat(100);
    assert_eq!(table_content(&spaced), format!("{}...", " ".repeat(50)));
}

#[test]
fn occurrences_are_counted_from_the_left() {
    assert_eq!(count_occurrences("a+\nb+\nc-\n", "+\n"), 2);
    assert_eq!(count_occurrences("a+\nb+\nc-\n", "-\n"), 1);
    assert_eq!(count_occurrences("aaaa", "aa"), 2);
    assert_eq!(count_occurrences("aaa", "aa"), 1);
    assert_eq!(count_occurrences("abc", ""), 0);
    assert_eq!(count_occurrences("", "a"), 0);
    assert_eq!(count_occurrences("ab", "abc"), 0);
    for (hay, needle) in [("+\n+\n", "+\n"), ("xyz", "y"), ("aXaXa", "aXa")] {
        assert_eq!(count_occurrences(hay, needle), hay.matches(needle).count());
    }
}

#[test]
fn texts_are_cut_and_joined_by_characters() {
    assert_eq!(first_chars("abcdef", 3), "abc");
    assert_eq!(first_chars("abc", 3), "abc");
    assert_eq!(first_chars("ab", 3), "ab");
    assert_eq!(first_chars("äöü", 2), "äö");
    assert_eq!(first_chars("abc", 0), "");
    assert_eq!(joined("ab", "cd"), "abcd");
    assert_eq!(joined("", ""), "");
    assert_eq!(strip_prefix("sources/x", "sources/"), "x");
    assert_eq!(strip_prefix("sources", "sources/"), "sources");
    assert_eq!(strip_prefix("x", ""), "x");
    assert_eq!(strip_prefix("abc", "abd"), "abc");
}

#[test]
fn texts_are_cut_to_fit_a_column() {
    assert_eq!(shortened("short", 20), Some("short".to_string()));
    assert_eq!(shortened("exactly twenty bytes", 20), Some("exactly twenty bytes".to_string()));
    assert_eq!(
        shortened("one more than twenty!", 20),
        Some("one more than twe...".to_string())
    );
    let long = "a".repeat(50);
    assert_eq!(shortened(&long, 20), Some(format!("{}...", "a".repeat(17))));
    assert_eq!(shortened("abcd", 3), Some("...".to_string()));
    assert_eq!(shortened("abc", 3), Some("abc".to_string()));
    assert_eq!(shortened("", 0), Some(String::new()));
    // A column narrower than the dots cannot show a text that does not fit.
    assert_eq!(shortened("abc", 2), None);
    // The cut falls behind a character of two bytes, or into it.
    assert_eq!(shortened("éa-----", 6), Some("éa...".to_string()));
    assert_eq!(shortened("aé-----", 5), None);
    assert_eq!(shortened("aé-----", 6), Some("aé...".to_string()));
}

#[test]
fn the_column_of_titles_grows_up_to_fifty() {
    assert_eq!(widened(20, 0), 20);
    assert_eq!(widened(20, 20), 20);
    assert_eq!(widened(20, 21), 21);
    assert_eq!(widened(20, 50), 50);
    assert_eq!(widened(20, 51), 50);
    assert_eq!(widened(50, 30), 50);
    assert_eq!(widened(60, 1000), 60);
    for (width, len) in [(20usize, 35usize), (45, 70), (0, 0)] {
        assert_eq!(widened(width, len), width.max(len.min(50)));
    }
}
