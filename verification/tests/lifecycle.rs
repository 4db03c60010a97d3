use sumo::json::{Json, JsonNumber};
use sumo::lifecycle::{Action, Event, SearchRun, Stage, Step};
use sumo::search::SearchArgs;

fn obj(members: Vec<(&str, Json)>) -> Json {
    Json::Object(members.into_iter().map(|(k, v)| (k.to_string(), v)).collect())
}

fn s(text: &str) -> Json {
    Json::Str(text.to_string())
}

fn n(v: u64) -> Json {
    Json::Number(JsonNumber::PosInt(v))
}

fn args(query: &str, limit: u32, quiet: bool, poll_interval: u64) -> SearchArgs {
    SearchArgs {
        query: query.to_string(),
        from: "-15m".to_string(),
        to: "now".to_string(),
        timezone: "UTC".to_string(),
        limit,
        offset: 0,
        output: "text".to_string(),
        fields: None,
        by_receipt_time: false,
        raw: false,
        poll_interval,
        quiet,
        project: None,
    }
}

fn status(state: &str, messages: u64, records: u64) -> Event {
    Event::Replied(Ok((200, obj(vec![("state", s(state)), ("messageCount", n(messages)), ("recordCount", n(records))]))))
}

fn page(key: &str, count: usize) -> Event {
    let items: Vec<Json> = (0..count).map(|i| obj(vec![("_raw", s(&format!("line {i}")))])).collect();
    Event::Replied(Ok((200, obj(vec![(key, Json::Array(items))]))))
}

fn created(id: &str) -> Event {
    Event::Replied(Ok((200, obj(vec![("id", s(id))]))))
}

fn path_of(step: &Step) -> String {
    match &step.action {
        Action::Post(p, _) | Action::Poll(p) | Action::Get(p) | Action::Delete(p) => p.clone(),
        _ => String::new(),
    }
}

#[test]
fn a_search_runs_from_creation_to_deletion() {
    let (mut job, step) = SearchRun::start(&args("error", 100, false, 2), "2026-03-17T14:00:00".to_string(), "2026-03-17T15:00:00".to_string());
    assert!(matches!(job.stage, Stage::Create));
    assert!(step.notes.is_empty());
    match &step.action {
        Action::Post(path, Json::Object(members)) => {
            assert_eq!(path, "/v2/search/jobs");
            let keys: Vec<&str> = members.iter().map(|(k, _)| k.as_str()).collect();
            assert_eq!(keys, vec!["autoParsingMode", "byReceiptTime", "from", "query", "timeZone", "to"]);
            assert!(matches!(&members[2].1, Json::Str(t) if t == "2026-03-17T14:00:00"));
        }
        _ => panic!("the first step creates the job"),
    }

    let step = job.step(created("abc"));
    assert_eq!(step.notes, vec!["Search job created: abc\n".to_string()]);
    assert!(matches!(step.action, Action::Poll(_)));
    assert_eq!(path_of(&step), "/v2/search/jobs/abc");

    let step = job.step(status("GATHERING RESULTS", 5, 0));
    assert_eq!(step.notes, vec!["\rSearching... 5 messages, 0 records found".to_string()]);
    assert!(matches!(step.action, Action::Wait(2)));

    let step = job.step(Event::Waited);
    assert!(step.notes.is_empty());
    assert_eq!(path_of(&step), "/v2/search/jobs/abc");

    let step = job.step(status("DONE GATHERING RESULTS", 7, 0));
    assert_eq!(step.notes, vec!["\rSearching... 7 messages, 0 records found".to_string(), "\n".to_string()]);
    assert!(matches!(step.action, Action::Get(_)));
    assert_eq!(path_of(&step), "/v2/search/jobs/abc/messages?offset=0&limit=100");

    let step = job.step(page("messages", 7));
    match &step.action {
        Action::Show(results, aggregate) => {
            assert_eq!(results.len(), 7);
            assert!(!aggregate);
        }
        _ => panic!("a short page ends the paging"),
    }

    let step = job.step(Event::Shown(Ok(())));
    assert!(matches!(step.action, Action::Delete(_)));
    assert_eq!(path_of(&step), "/v2/search/jobs/abc");

    let step = job.step(Event::Deleted);
    assert!(matches!(step.action, Action::Finish(Ok(()))));
    assert!(matches!(job.stage, Stage::Done));
}

#[test]
fn ctrl_c_still_deletes_the_job() {
    let (mut job, _) = SearchRun::start(&args("error", 100, true, 2), "a".to_string(), "b".to_string());
    let step = job.step(created("j1"));
    assert!(step.notes.is_empty());
    let step = job.step(Event::Interrupted);
    assert_eq!(step.notes, vec!["\nSearch cancelled.\n".to_string()]);
    assert_eq!(path_of(&step), "/v2/search/jobs/j1");
    let step = job.step(Event::Deleted);
    assert!(matches!(step.action, Action::Finish(Ok(()))));
}

#[test]
fn a_job_the_server_cancels_is_deleted_and_fails() {
    let (mut job, _) = SearchRun::start(&args("error", 100, false, 2), "a".to_string(), "b".to_string());
    job.step(created("j2"));
    let step = job.step(status("CANCELLED", 0, 0));
    assert_eq!(step.notes, vec!["\rSearching... 0 messages, 0 records found".to_string()]);
    assert_eq!(path_of(&step), "/v2/search/jobs/j2");
    let step = job.step(Event::Deleted);
    match step.action {
        Action::Finish(Err(e)) => assert_eq!(e, "Search job was cancelled by the server."),
        _ => panic!("the run fails"),
    }
}

#[test]
fn a_failed_creation_ends_without_deleting() {
    let (mut job, _) = SearchRun::start(&args("error", 100, false, 2), "a".to_string(), "b".to_string());
    let step = job.step(Event::Replied(Ok((401, obj(vec![])))));
    match step.action {
        Action::Finish(Err(e)) => assert_eq!(e, "Authentication failed. Check credentials with 'sumo auth status'."),
        _ => panic!("the run fails at once"),
    }
    let (mut job, _) = SearchRun::start(&args("error", 100, false, 2), "a".to_string(), "b".to_string());
    let step = job.step(Event::Replied(Err("Network error: refused".to_string())));
    assert!(matches!(step.action, Action::Finish(Err(e)) if e == "Network error: refused"));
}

#[test]
fn an_error_while_polling_deletes_the_job_and_fails() {
    let (mut job, _) = SearchRun::start(&args("error", 100, false, 2), "a".to_string(), "b".to_string());
    job.step(created("j3"));
    let step = job.step(Event::Replied(Ok((404, obj(vec![])))));
    assert!(step.notes.is_empty());
    assert_eq!(path_of(&step), "/v2/search/jobs/j3");
    let step = job.step(Event::Deleted);
    assert!(matches!(step.action, Action::Finish(Err(e)) if e == "Search job not found (may have expired)."));
}

#[test]
fn pages_follow_until_the_limit() {
    let (mut job, _) = SearchRun::start(&args("error | count by host", 15000, true, 2), "a".to_string(), "b".to_string());
    assert!(job.aggregate);
    job.step(created("j4"));
    let step = job.step(status("FORCE PAUSED", 0, 20000));
    assert!(step.notes.is_empty());
    assert_eq!(path_of(&step), "/v2/search/jobs/j4/records?offset=0&limit=10000");
    let full = page("records", 10000);
    assert!(job.takes_page(match &full {
        Event::Replied(r) => r,
        _ => unreachable!(),
    }));
    let step = job.step(full);
    assert_eq!(path_of(&step), "/v2/search/jobs/j4/records?offset=10000&limit=5000");
    let step = job.step(page("records", 5000));
    match &step.action {
        Action::Show(results, aggregate) => {
            assert_eq!(results.len(), 15000);
            assert!(aggregate);
        }
        _ => panic!("the limit ends the paging"),
    }
}

#[test]
fn a_paused_job_is_announced_and_fetched() {
    let (mut job, _) = SearchRun::start(&args("error", 0, false, 2), "a".to_string(), "b".to_string());
    job.step(created("j5"));
    let step = job.step(status("FORCE PAUSED", 1, 0));
    assert_eq!(
        step.notes,
        vec![
            "\rSearching... 1 messages, 0 records found".to_string(),
            "\nSearch job force paused. Fetching available results...\n".to_string(),
        ]
    );
    // A limit of 0 asks for no page at all.
    assert!(matches!(&step.action, Action::Show(results, false) if results.is_empty()));
}

#[test]
fn long_poll_intervals_are_capped() {
    let (mut job, _) = SearchRun::start(&args("error", 100, true, 60), "a".to_string(), "b".to_string());
    assert_eq!(job.poll_secs, 20);
    job.step(created("j6"));
    let step = job.step(status("GATHERING RESULTS", 0, 0));
    assert!(step.notes.is_empty());
    assert!(matches!(step.action, Action::Wait(20)));
}

#[test]
fn show_failures_are_the_outcome() {
    let (mut job, _) = SearchRun::start(&args("error", 100, true, 2), "a".to_string(), "b".to_string());
    job.step(created("j7"));
    job.step(status("DONE GATHERING RESULTS", 0, 0));
    job.step(page("messages", 0));
    let step = job.step(Event::Shown(Err("CSV error: x".to_string())));
    assert_eq!(path_of(&step), "/v2/search/jobs/j7");
    let step = job.step(Event::Deleted);
    assert!(matches!(step.action, Action::Finish(Err(e)) if e == "CSV error: x"));
}
