use sumo::json::Json;
use sumo::search::{
    created_job, effective_poll_interval, handle_error_status, is_aggregate_query, job_report, job_status_report, mentions_aggregate_keyword,
    next_offset, page_count, page_items, page_path, poll_step, progress_line, retry_decision, CallOutcome, PollStep,
    RetryDecision,
};

fn obj(members: Vec<(&str, Json)>) -> Json {
    Json::Object(members.into_iter().map(|(k, v)| (k.to_string(), v)).collect())
}

fn s(text: &str) -> Json {
    Json::Str(text.to_string())
}

#[test]
fn test_is_aggregate_query() {
    assert!(is_aggregate_query("error | count by _sourceCategory"));
    assert!(is_aggregate_query("* | sum(bytes) by host"));
    assert!(is_aggregate_query("error | avg(latency)"));
    assert!(is_aggregate_query("error | group by host"));
    assert!(is_aggregate_query("error | timeslice 1h | count by _timeslice"));
    assert!(is_aggregate_query("error | count by _sourceCategory | top 10 _sourceCategory by _count"));
    assert!(is_aggregate_query("error | count by _sourceCategory | sort by _count desc"));
    assert!(is_aggregate_query("\"status=\" | parse \"status=*\" as status | count by status"));
    assert!(is_aggregate_query("error | count by _sourceCategory | where _count > 100"));
    assert!(!is_aggregate_query("error"));
    assert!(!is_aggregate_query("_sourceCategory=prod error"));
    assert!(!is_aggregate_query("count something")); // no pipe
}

#[test]
fn aggregate_detection_lowercases_after_the_pipe() {
    assert!(is_aggregate_query("error | COUNT by host"));
    assert!(!is_aggregate_query("COUNT | nothing here"));
    assert!(mentions_aggregate_keyword("resort"));
    assert!(!mentions_aggregate_keyword("fields a, b"));
    assert!(!is_aggregate_query("error | limit 10"));
}

#[test]
fn error_statuses_get_their_messages() {
    let empty = obj(vec![]);
    assert_eq!(
        handle_error_status(401, &empty),
        Err("Authentication failed. Check credentials with 'sumo auth status'.".to_string())
    );
    assert_eq!(handle_error_status(404, &empty), Err("Search job not found (may have expired).".to_string()));
    assert_eq!(handle_error_status(429, &empty), Err("rate_limited".to_string()));
    assert_eq!(handle_error_status(200, &empty), Ok(()));
    assert_eq!(handle_error_status(302, &empty), Ok(()));
    let with_message = obj(vec![("message", s("Parse error at line 1"))]);
    assert_eq!(handle_error_status(400, &with_message), Err("Parse error at line 1".to_string()));
    let other = obj(vec![("code", s("x"))]);
    assert_eq!(handle_error_status(400, &other), Err("Bad request: {\"code\":\"x\"}".to_string()));
    assert_eq!(
        handle_error_status(500, &with_message),
        Err("API error (500 Internal Server Error): Parse error at line 1".to_string())
    );
    assert_eq!(handle_error_status(503, &empty), Err("API error (503 Service Unavailable): Unknown API error".to_string()));
}

#[test]
fn retry_policy() {
    assert!(matches!(retry_decision(0, CallOutcome::Answered(429)), RetryDecision::RetryAfter(1)));
    assert!(matches!(retry_decision(1, CallOutcome::Answered(429)), RetryDecision::RetryAfter(2)));
    assert!(matches!(retry_decision(2, CallOutcome::Answered(429)), RetryDecision::RetryAfter(4)));
    assert!(matches!(retry_decision(3, CallOutcome::Answered(429)), RetryDecision::Accept));
    assert!(matches!(retry_decision(0, CallOutcome::Answered(200)), RetryDecision::Accept));
    assert!(matches!(
        retry_decision(0, CallOutcome::Failed("Network error: refused".to_string())),
        RetryDecision::RetryAfter(2)
    ));
    match retry_decision(1, CallOutcome::Failed("Network error: refused".to_string())) {
        RetryDecision::Reject(m) => assert_eq!(m, "Network error: refused"),
        _ => panic!("a second network error is not retried"),
    }
    match retry_decision(0, CallOutcome::Failed("boom".to_string())) {
        RetryDecision::Reject(m) => assert_eq!(m, "boom"),
        _ => panic!("other failures are not retried"),
    }
}

#[test]
fn polling_states() {
    assert!(matches!(poll_step("DONE GATHERING RESULTS"), PollStep::Finished));
    assert!(matches!(poll_step("CANCELLED"), PollStep::Cancelled));
    assert!(matches!(poll_step("FORCE PAUSED"), PollStep::Paused));
    assert!(matches!(poll_step("GATHERING RESULTS"), PollStep::Wait));
    assert_eq!(progress_line(1234, 5), "\rSearching... 1234 messages, 5 records found");
    assert_eq!(effective_poll_interval(2), 2);
    assert_eq!(effective_poll_interval(60), 20);
}

#[test]
fn paging() {
    assert_eq!(page_count(0, 100, 0), Some(100));
    assert_eq!(page_count(0, 25000, 0), Some(10000));
    assert_eq!(page_count(0, 25000, 20000), Some(5000));
    assert_eq!(page_count(5, 100, 105), None);
    assert_eq!(page_count(0, 0, 0), None);
    assert_eq!(page_path("abc", true, 0, 100), "/v2/search/jobs/abc/records?offset=0&limit=100");
    assert_eq!(page_path("abc", false, 10000, 5000), "/v2/search/jobs/abc/messages?offset=10000&limit=5000");
    assert_eq!(next_offset(0, 10000, 10000), Some(10000));
    assert_eq!(next_offset(0, 42, 100), None);
    let body = obj(vec![("messages", Json::Array(vec![s("a"), s("b")]))]);
    let items = page_items(body, false);
    assert_eq!(items.len(), 2);
    let none = page_items(obj(vec![("messages", Json::Array(vec![s("a")]))]), true);
    assert!(none.is_empty());
}

#[test]
fn job_creation_and_status() {
    let created = obj(vec![("id", s("ABC123"))]);
    assert_eq!(created_job(202, &created), Ok("ABC123".to_string()));
    let no_id = obj(vec![("x", Json::Null)]);
    assert_eq!(
        created_job(202, &no_id),
        Err("Failed to get search job ID. Status: 202 Accepted, Response: {\"x\":null}".to_string())
    );
    assert_eq!(created_job(401, &created), Err("Authentication failed. Check credentials with 'sumo auth status'.".to_string()));
    let status = obj(vec![
        ("messageCount", Json::Number(sumo::json::JsonNumber::PosInt(12))),
        ("pendingErrors", Json::Array(vec![s("bad"), Json::Null])),
        ("pendingWarnings", Json::Array(vec![])),
        ("state", s("GATHERING RESULTS")),
    ]);
    assert_eq!(
        job_report("J1", &status),
        vec![
            "Job ID:        J1".to_string(),
            "State:         GATHERING RESULTS".to_string(),
            "Messages:      12".to_string(),
            "Records:       0".to_string(),
            "Pending Errors:".to_string(),
            "  - bad".to_string(),
            "  - unknown".to_string(),
        ]
    );
}

#[test]
fn job_status_reports() {
    let status = obj(vec![("state", s("DONE GATHERING RESULTS")), ("recordCount", Json::Number(sumo::json::JsonNumber::PosInt(3)))]);
    assert_eq!(
        job_status_report("J2", Ok((200, status))),
        Ok(vec![
            "Job ID:        J2".to_string(),
            "State:         DONE GATHERING RESULTS".to_string(),
            "Messages:      0".to_string(),
            "Records:       3".to_string(),
        ])
    );
    assert_eq!(
        job_status_report("J2", Ok((404, obj(vec![])))),
        Err("Search job not found (may have expired).".to_string())
    );
    assert_eq!(job_status_report("J2", Err("Network error: down".to_string())), Err("Network error: down".to_string()));
}
