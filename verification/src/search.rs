//! The search job's decisions: which queries aggregate, how the API's
//! answers are judged, when a call is retried, how polling proceeds and
//! how results are paged.

use vstd::prelude::*;
use vstd::string::StringExecFns;
use crate::text::{
    to_chars, from_chars, owned, concat, chars_eq, find_char, first_index_of, contains_chars, has_substring,
    to_lowercase, unicode_lowercase, u64_text, decimal,
};
use crate::json::{Json, str_member, str_member_of, compact_text, json_compact_text, get_spec};
use crate::time::{
    Timestamp, parse_time_at, time_at, clock_reading, now, request_time_text, chrono_format, request_layout,
};

verus! {

/// The arguments of a search.
pub struct SearchArgs {
    pub query: String,
    pub from: String,
    pub to: String,
    pub timezone: String,
    pub limit: u32,
    pub offset: u32,
    pub output: String,
    pub fields: Option<String>,
    pub by_receipt_time: bool,
    pub raw: bool,
    pub poll_interval: u64,
    pub quiet: bool,
    pub project: Option<String>,
}

/// The words after a pipe that mark a query as aggregating.
pub open spec fn aggregate_keywords() -> Seq<Seq<char>> {
    seq![
        "count"@, "sum"@, "avg"@, "min"@, "max"@, "first"@, "last"@, "pct"@, "stddev"@, "group"@,
        "timeslice"@, "top"@, "sort"@, "parse"@, "where"@,
    ]
}

fn aggregate_keyword(i: usize) -> (r: &'static str)
    requires
        i < 15,
    ensures
        r@ == aggregate_keywords()[i as int],
{
    if i == 0 { "count" } else if i == 1 { "sum" } else if i == 2 { "avg" } else if i == 3 { "min" }
    else if i == 4 { "max" } else if i == 5 { "first" } else if i == 6 { "last" } else if i == 7 { "pct" }
    else if i == 8 { "stddev" } else if i == 9 { "group" } else if i == 10 { "timeslice" }
    else if i == 11 { "top" } else if i == 12 { "sort" } else if i == 13 { "parse" }
    else { "where" }
}

/// Whether a (lower-cased) text contains one of the aggregation keywords.
pub open spec fn mentions_keyword(text: Seq<char>) -> bool {
    exists|i: int| 0 <= i < aggregate_keywords().len() && has_substring(text, #[trigger] aggregate_keywords()[i])
}

/// Whether `text` contains one of the aggregation keywords, anywhere in it
/// (`sort` also matches inside `resort`).
pub fn mentions_aggregate_keyword(text: &str) -> (r: bool)
    ensures
        r == mentions_keyword(text@),
{
    let t = to_chars(text);
    let mut i: usize = 0;
    while i < 15
        invariant
            i <= 15,
            t@ == text@,
            forall|k: int| 0 <= k < i ==> !has_substring(text@, #[trigger] aggregate_keywords()[k]),
        decreases 15 - i,
    {
        let kw = to_chars(aggregate_keyword(i));
        if contains_chars(t.as_slice(), kw.as_slice()) {
            assert(has_substring(text@, aggregate_keywords()[i as int]));
            return true;
        }
        i += 1;
    }
    assert(aggregate_keywords().len() == 15);
    false
}

/// A query aggregates when, after its first `|`, the lower-cased rest
/// mentions an aggregation keyword.
pub open spec fn is_aggregate_spec(q: Seq<char>) -> bool {
    match first_index_of(q, '|') {
        Some(p) => mentions_keyword(unicode_lowercase(q.skip(p + 1))),
        None => false,
    }
}

/// Whether a query aggregates, so that its results are records rather
/// than messages.
pub fn is_aggregate_query(query: &str) -> (r: bool)
    ensures
        r == is_aggregate_spec(query@),
{
    let q = to_chars(query);
    match find_char(q.as_slice(), '|') {
        Some(p) => {
            let n = q.len();
            assert(p < n);
            let mut rest: Vec<char> = Vec::new();
            let mut i: usize = p + 1;
            while i < q.len()
                invariant
                    p < q@.len(),
                    p + 1 <= i <= q@.len(),
                    rest@ == q@.subrange(p + 1, i as int),
                decreases q@.len() - i,
            {
                rest.push(q[i]);
                assert(q@.subrange(p + 1, i + 1) =~= q@.subrange(p + 1, i as int).push(q@[i as int]));
                i += 1;
            }
            assert(rest@ =~= q@.skip(p + 1));
            let rest_text = from_chars(rest.as_slice());
            let lowered = to_lowercase(rest_text.as_str());
            mentions_aggregate_keyword(lowered.as_str())
        }
        None => false,
    }
}

/// The canonical reason phrase of an HTTP status code, when it has one
/// (`http::StatusCode::canonical_reason`; nothing for codes outside
/// 100..=999).
pub uninterp spec fn http_reason(code: int) -> Option<Seq<char>>;

/// `reqwest::StatusCode::from_u16` then `canonical_reason`: the reason
/// phrase of a code. Named, not spelled out (it is a table).
#[verifier::external_body]
fn canonical_reason(code: u16) -> (r: Option<String>)
    ensures
        match (r, http_reason(code as int)) {
            (Some(a), Some(b)) => a@ == b,
            (None, None) => true,
            _ => false,
        },
{
    reqwest::StatusCode::from_u16(code).ok().and_then(|s| s.canonical_reason()).map(|t| t.to_string())
}

/// How a status code is displayed: the code, a space, and its reason
/// phrase (or `<unknown status code>`).
pub open spec fn status_text_spec(code: int) -> Seq<char> {
    decimal(code as nat) + " "@ + match http_reason(code) {
        Some(r) => r,
        None => "<unknown status code>"@,
    }
}

/// The display text of a status code, as `StatusCode`'s `Display` writes it.
pub fn status_text(code: u16) -> (r: String)
    ensures
        r@ == status_text_spec(code as int),
{
    let mut r = u64_text(code as u64);
    r.append(" ");
    match canonical_reason(code) {
        Some(reason) => r.append(reason.as_str()),
        None => r.append("<unknown status code>"),
    }
    proof {
        reveal_strlit(" ");
        reveal_strlit("<unknown status code>");
    }
    r
}

/// The error that tells the caller to retry: the API's rate limit.
pub open spec fn rate_limited_message() -> Seq<char> {
    "rate_limited"@
}

/// How an API answer is judged: success unless its status is 400 or more
/// and below 600; 401, 400, 404 and 429 get their own messages.
pub open spec fn status_error(code: int, body: Json) -> Option<Seq<char>> {
    if code == 401 {
        Some("Authentication failed. Check credentials with 'sumo auth status'."@)
    } else if code == 400 {
        Some(match str_member(body, "message"@) {
            Some(m) => m,
            None => "Bad request: "@ + json_compact_text(body),
        })
    } else if code == 404 {
        Some("Search job not found (may have expired)."@)
    } else if code == 429 {
        Some(rate_limited_message())
    } else if 400 <= code < 600 {
        Some("API error ("@ + status_text_spec(code) + "): "@ + match str_member(body, "message"@) {
            Some(m) => m,
            None => "Unknown API error"@,
        })
    } else {
        None
    }
}

/// Judges an API answer by its status and body.
pub fn handle_error_status(status: u16, body: &Json) -> (r: Result<(), String>)
    ensures
        match status_error(status as int, *body) {
            Some(m) => r matches Err(e) && e@ == m,
            None => r is Ok,
        },
{
    proof {
        reveal_strlit("Authentication failed. Check credentials with 'sumo auth status'.");
        reveal_strlit("message");
        reveal_strlit("Bad request: ");
        reveal_strlit("Search job not found (may have expired).");
        reveal_strlit("rate_limited");
        reveal_strlit("API error (");
        reveal_strlit("): ");
        reveal_strlit("Unknown API error");
    }
    if status == 401 {
        Err(owned("Authentication failed. Check credentials with 'sumo auth status'."))
    } else if status == 400 {
        match str_member_of(body, "message") {
            Some(m) => Err(m),
            None => Err(concat("Bad request: ", compact_text(body).as_str())),
        }
    } else if status == 404 {
        Err(owned("Search job not found (may have expired)."))
    } else if status == 429 {
        Err(owned("rate_limited"))
    } else if 400 <= status && status < 600 {
        let mut e = concat("API error (", status_text(status).as_str());
        e.append("): ");
        match str_member_of(body, "message") {
            Some(m) => e.append(m.as_str()),
            None => e.append("Unknown API error"),
        }
        Err(e)
    } else {
        Ok(())
    }
}


/// What one API call came to: an answer with this status, or a failure
/// with this message (network failures start with `Network error`).
pub enum CallOutcome {
    Answered(u16),
    Failed(String),
}

/// What to do after an API call.
pub enum RetryDecision {
    /// Hand the answer to the caller.
    Accept,
    /// Give up with this message.
    Reject(String),
    /// Wait this many seconds, then call again.
    RetryAfter(u64),
}

/// Whether a message reports a network failure.
pub open spec fn is_network_error(m: Seq<char>) -> bool {
    m.len() >= 13 && m.take(13) == "Network error"@
}

/// The pause before attempt `a` (1, 2 or 3) after a rate limit: 1, 2, 4
/// seconds.
pub open spec fn backoff_secs(a: int) -> int {
    if a == 1 { 1 } else if a == 2 { 2 } else { 4 }
}

/// The retry policy, for the call numbered `attempt` from 0: a rate-limited
/// answer (429) is retried while fewer than three retries were made, after
/// 1, 2, then 4 seconds; a network failure is retried once, after 2
/// seconds; any other answer is accepted and any other failure given up.
pub open spec fn retry_spec(attempt: int, outcome: CallOutcome) -> RetryDecision {
    match outcome {
        CallOutcome::Answered(code) => if code == 429 && attempt < 3 {
            RetryDecision::RetryAfter(backoff_secs(attempt + 1) as u64)
        } else {
            RetryDecision::Accept
        },
        CallOutcome::Failed(m) => if is_network_error(m@) && attempt < 1 {
            RetryDecision::RetryAfter(2)
        } else {
            RetryDecision::Reject(m)
        },
    }
}

fn starts_with_network_error(m: &str) -> (r: bool)
    ensures
        r == is_network_error(m@),
{
    let c = to_chars(m);
    let p = to_chars("Network error");
    proof {
        reveal_strlit("Network error");
    }
    if c.len() < 13 {
        return false;
    }
    let mut i: usize = 0;
    while i < 13
        invariant
            i <= 13,
            c@.len() >= 13,
            c@ == m@,
            p@ == "Network error"@,
            p@.len() == 13,
            forall|k: int| 0 <= k < i ==> c@[k] == p@[k],
        decreases 13 - i,
    {
        if c[i] != p[i] {
            assert(c@.take(13)[i as int] != p@[i as int]);
            return false;
        }
        i += 1;
    }
    assert(c@.take(13) =~= p@);
    true
}

/// Decides what follows call number `attempt` (from 0).
pub fn retry_decision(attempt: u32, outcome: CallOutcome) -> (r: RetryDecision)
    requires
        attempt <= 3,
    ensures
        r == retry_spec(attempt as int, outcome),
{
    match outcome {
        CallOutcome::Answered(code) => if code == 429 && attempt < 3 {
            RetryDecision::RetryAfter(if attempt == 0 { 1 } else if attempt == 1 { 2 } else { 4 })
        } else {
            RetryDecision::Accept
        },
        CallOutcome::Failed(m) => if starts_with_network_error(m.as_str()) && attempt < 1 {
            RetryDecision::RetryAfter(2)
        } else {
            RetryDecision::Reject(m)
        },
    }
}

/// What a poll of the job's status says to do next.
pub enum PollStep {
    /// All results are gathered: fetch them.
    Finished,
    /// The server paused the job: fetch what there is.
    Paused,
    /// The server cancelled the job.
    Cancelled,
    /// Wait and poll again.
    Wait,
}

/// The next step for a job in `state`.
pub open spec fn poll_spec(state: Seq<char>) -> PollStep {
    if state == "DONE GATHERING RESULTS"@ {
        PollStep::Finished
    } else if state == "CANCELLED"@ {
        PollStep::Cancelled
    } else if state == "FORCE PAUSED"@ {
        PollStep::Paused
    } else {
        PollStep::Wait
    }
}

/// Decides the next step for a job in `state`.
pub fn poll_step(state: &str) -> (r: PollStep)
    ensures
        r == poll_spec(state@),
{
    let s = to_chars(state);
    let done = to_chars("DONE GATHERING RESULTS");
    let cancelled = to_chars("CANCELLED");
    let paused = to_chars("FORCE PAUSED");
    proof {
        reveal_strlit("DONE GATHERING RESULTS");
        reveal_strlit("CANCELLED");
        reveal_strlit("FORCE PAUSED");
    }
    if chars_eq(s.as_slice(), done.as_slice()) {
        PollStep::Finished
    } else if chars_eq(s.as_slice(), cancelled.as_slice()) {
        PollStep::Cancelled
    } else if chars_eq(s.as_slice(), paused.as_slice()) {
        PollStep::Paused
    } else {
        PollStep::Wait
    }
}

/// The message for a job the server cancelled.
pub open spec fn server_cancelled_message() -> Seq<char> {
    "Search job was cancelled by the server."@
}

/// The message for a job the server cancelled.
pub fn server_cancelled() -> (r: String)
    ensures
        r@ == server_cancelled_message(),
{
    proof {
        reveal_strlit("Search job was cancelled by the server.");
    }
    owned("Search job was cancelled by the server.")
}

/// A job's state as its status reports it, `UNKNOWN` when missing.
pub open spec fn job_state_spec(body: Json) -> Seq<char> {
    match str_member(body, "state"@) {
        Some(s) => s,
        None => "UNKNOWN"@,
    }
}

/// A count in a job's status, 0 when missing or not a non-negative integer.
pub open spec fn job_count_spec(body: Json, key: Seq<char>) -> u64 {
    match crate::json::get_spec(body, key) {
        Some(v) => match crate::json::as_u64_spec(v) {
            Some(n) => n,
            None => 0,
        },
        None => 0,
    }
}

/// What a job's status reports: its state and its message and record counts.
pub struct JobStatus {
    pub state: String,
    pub messages: u64,
    pub records: u64,
}

/// Reads a job's status answer.
pub fn job_status_of(body: &Json) -> (r: JobStatus)
    ensures
        r.state@ == job_state_spec(*body),
        r.messages == job_count_spec(*body, "messageCount"@),
        r.records == job_count_spec(*body, "recordCount"@),
{
    proof {
        reveal_strlit("state");
        reveal_strlit("UNKNOWN");
        reveal_strlit("messageCount");
        reveal_strlit("recordCount");
    }
    let state = match str_member_of(body, "state") {
        Some(s) => s,
        None => owned("UNKNOWN"),
    };
    let messages = match body.get("messageCount") {
        Some(v) => match v.as_u64() {
            Some(n) => n,
            None => 0,
        },
        None => 0,
    };
    let records = match body.get("recordCount") {
        Some(v) => match v.as_u64() {
            Some(n) => n,
            None => 0,
        },
        None => 0,
    };
    JobStatus { state, messages, records }
}

/// The progress line shown while a job runs (it starts with a carriage
/// return so that it overwrites itself).
pub open spec fn progress_spec(messages: u64, records: u64) -> Seq<char> {
    "\rSearching... "@ + decimal(messages as nat) + " messages, "@ + decimal(records as nat) + " records found"@
}

/// The progress line for the counts so far.
pub fn progress_line(messages: u64, records: u64) -> (r: String)
    ensures
        r@ == progress_spec(messages, records),
{
    let mut r = owned("\rSearching... ");
    r.append(u64_text(messages).as_str());
    r.append(" messages, ");
    r.append(u64_text(records).as_str());
    r.append(" records found");
    proof {
        reveal_strlit("\rSearching... ");
        reveal_strlit(" messages, ");
        reveal_strlit(" records found");
    }
    r
}

/// The most results one page of the API returns.
pub const PAGE_SIZE: u32 = 10_000;

/// How many results to ask for next, when `offset` is reached from the
/// first `base_offset` with at most `limit` results in all: what remains of
/// the limit, at most a page; nothing once the limit is reached.
pub open spec fn page_count_spec(base_offset: u32, limit: u32, offset: u32) -> Option<u32> {
    let fetched = offset - base_offset;
    let remaining = if limit >= fetched { limit - fetched } else { 0 };
    if remaining == 0 {
        None
    } else if remaining < PAGE_SIZE {
        Some(remaining as u32)
    } else {
        Some(PAGE_SIZE)
    }
}

/// How many results the next page asks for.
pub fn page_count(base_offset: u32, limit: u32, offset: u32) -> (r: Option<u32>)
    requires
        base_offset <= offset,
    ensures
        r == page_count_spec(base_offset, limit, offset),
        r matches Some(c) ==> 0 < c <= PAGE_SIZE && (offset - base_offset) + c <= limit,
{
    let remaining = limit.saturating_sub(offset - base_offset);
    if remaining == 0 {
        None
    } else if remaining < PAGE_SIZE {
        Some(remaining)
    } else {
        Some(PAGE_SIZE)
    }
}

/// Where the page is fetched: the job's records (aggregates) or messages,
/// from `offset`, at most `count` of them.
pub open spec fn page_path_spec(job_id: Seq<char>, is_aggregate: bool, offset: u32, count: u32) -> Seq<char> {
    "/v2/search/jobs/"@ + job_id + "/"@ + (if is_aggregate { "records"@ } else { "messages"@ })
        + "?offset="@ + decimal(offset as nat) + "&limit="@ + decimal(count as nat)
}

/// The API path of a page.
pub fn page_path(job_id: &str, is_aggregate: bool, offset: u32, count: u32) -> (r: String)
    ensures
        r@ == page_path_spec(job_id@, is_aggregate, offset, count),
{
    let mut r = concat("/v2/search/jobs/", job_id);
    r.append("/");
    r.append(if is_aggregate { "records" } else { "messages" });
    r.append("?offset=");
    r.append(u64_text(offset as u64).as_str());
    r.append("&limit=");
    r.append(u64_text(count as u64).as_str());
    proof {
        reveal_strlit("/v2/search/jobs/");
        reveal_strlit("/");
        reveal_strlit("records");
        reveal_strlit("messages");
        reveal_strlit("?offset=");
        reveal_strlit("&limit=");
    }
    r
}

/// The results a page holds: the array under `records` (aggregates) or
/// `messages`; none when missing.
pub open spec fn page_items_spec(body: Json, is_aggregate: bool) -> Seq<Json> {
    let key = if is_aggregate { "records"@ } else { "messages"@ };
    match crate::json::get_spec(body, key) {
        Some(Json::Array(items)) => items@,
        _ => Seq::empty(),
    }
}

/// Takes a page's results out of its answer.
pub fn page_items(body: Json, is_aggregate: bool) -> (r: Vec<Json>)
    ensures
        r@ == page_items_spec(body, is_aggregate),
{
    proof {
        reveal_strlit("records");
        reveal_strlit("messages");
    }
    let key = if is_aggregate { "records" } else { "messages" };
    assert(key@ == (if is_aggregate { "records"@ } else { "messages"@ }));
    match body {
        Json::Object(mut entries) => {
            let wanted = owned(key);
            let mut i: usize = 0;
            assert(entries@.skip(0) =~= entries@);
            while i < entries.len()
                invariant
                    i <= entries@.len(),
                    wanted@ == key@,
                    crate::json::member(entries@, key@) == crate::json::member(entries@.skip(i as int), key@),
                    key@ == (if is_aggregate { "records"@ } else { "messages"@ }),
                    crate::json::get_spec(body, key@) == crate::json::member(entries@, key@),
                decreases entries@.len() - i,
            {
                assert(entries@.skip(i as int)[0] == entries@[i as int]);
                if entries[i].0 == wanted {
                    let (_k, v) = entries.remove(i);
                    return match v {
                        Json::Array(items) => items,
                        _ => Vec::new(),
                    };
                }
                assert(entries@.skip(i as int).drop_first() =~= entries@.skip(i + 1));
                i += 1;
            }
            Vec::new()
        }
        _ => Vec::new(),
    }
}

/// The offset after a page of `received` results when `asked` were asked
/// for; nothing when the page came short and there is no more.
pub open spec fn next_offset_spec(offset: u32, received: u32, asked: u32) -> Option<int> {
    if received < asked {
        None
    } else {
        Some(offset + received)
    }
}

/// The offset of the next page, if any.
pub fn next_offset(offset: u32, received: u32, asked: u32) -> (r: Option<u32>)
    requires
        received >= asked ==> offset + received <= u32::MAX,
    ensures
        match next_offset_spec(offset, received, asked) {
            Some(o) => r == Some(o as u32),
            None => r is None,
        },
{
    if received < asked {
        None
    } else {
        Some(offset + received)
    }
}

/// The poll interval actually used: at most 20 seconds, so that the
/// server keeps the job alive.
pub fn effective_poll_interval(requested: u64) -> (secs: u64)
    ensures
        secs == if requested < 20 { requested } else { 20 },
{
    if requested < 20 { requested } else { 20 }
}


/// The items of an array member of a job's status (none when missing).
pub open spec fn pending_items(body: Json, key: Seq<char>) -> Seq<Json> {
    match get_spec(body, key) {
        Some(Json::Array(items)) => items@,
        _ => Seq::empty(),
    }
}

/// How a pending error or warning is listed.
pub open spec fn pending_line(item: Json) -> Seq<char> {
    "  - "@ + match item {
        Json::Str(s) => s@,
        _ => "unknown"@,
    }
}

/// A titled list of pending errors or warnings; nothing when there are none.
pub open spec fn pending_section(title: Seq<char>, items: Seq<Json>) -> Seq<Seq<char>> {
    if items.len() == 0 {
        Seq::empty()
    } else {
        seq![title] + items.map_values(|x: Json| pending_line(x))
    }
}

/// The lines `status` prints for a job.
pub open spec fn job_report_spec(job_id: Seq<char>, body: Json) -> Seq<Seq<char>> {
    seq![
        "Job ID:        "@ + job_id,
        "State:         "@ + job_state_spec(body),
        "Messages:      "@ + decimal(job_count_spec(body, "messageCount"@) as nat),
        "Records:       "@ + decimal(job_count_spec(body, "recordCount"@) as nat),
    ] + pending_section("Pending Errors:"@, pending_items(body, "pendingErrors"@))
        + pending_section("Pending Warnings:"@, pending_items(body, "pendingWarnings"@))
}

fn push_pending(lines: &mut Vec<String>, title: &str, body: &Json, key: &str)
    ensures
        final(lines)@.map_values(|l: String| l@) == old(lines)@.map_values(|l: String| l@)
            + pending_section(title@, pending_items(*body, key@)),
{
    proof {
        reveal_strlit("  - ");
        reveal_strlit("unknown");
    }
    let ghost start = lines@.map_values(|l: String| l@);
    match body.get(key) {
        Some(Json::Array(items)) => {
            if items.len() == 0 {
                assert(start + pending_section(title@, pending_items(*body, key@)) =~= start);
                return;
            }
            lines.push(owned(title));
            let mut i: usize = 0;
            while i < items.len()
                invariant
                    i <= items@.len(),
                    items@ == pending_items(*body, key@),
                    lines@.map_values(|l: String| l@) == start + seq![title@]
                        + items@.take(i as int).map_values(|x: Json| pending_line(x)),
                decreases items@.len() - i,
            {
                let text = match &items[i] {
                    Json::Str(s) => {
                        proof {
                            reveal_strlit("  - ");
                        }
                        concat("  - ", s.as_str())
                    }
                    _ => {
                        let t = owned("  - unknown");
                        proof {
                            reveal_strlit("  - unknown");
                            reveal_strlit("  - ");
                            reveal_strlit("unknown");
                            assert(t@ =~= "  - "@ + "unknown"@);
                        }
                        t
                    }
                };
                proof {
                    reveal_strlit("  - unknown");
                    assert(text@ == pending_line(items@[i as int]));
                }
                let ghost before = lines@.map_values(|l: String| l@);
                lines.push(text);
                proof {
                    assert(start + seq![title@] + items@.take(i + 1).map_values(|x: Json| pending_line(x))
                        =~= (start + seq![title@] + items@.take(i as int).map_values(|x: Json| pending_line(x))).push(pending_line(items@[i as int])));
                    assert(items@.take(i + 1).map_values(|x: Json| pending_line(x))
                        =~= items@.take(i as int).map_values(|x: Json| pending_line(x)).push(pending_line(items@[i as int])));
                    assert(lines@.map_values(|l: String| l@) =~= before.push(text@));
                }
                i += 1;
            }
            assert(items@.take(items@.len() as int) =~= items@);
        }
        _ => {
            assert(start + pending_section(title@, pending_items(*body, key@)) =~= start);
        }
    }
}

/// The lines `status` prints for a job: its ID, state and counts, then
/// any pending errors and warnings.
pub fn job_report(job_id: &str, body: &Json) -> (r: Vec<String>)
    ensures
        r@.map_values(|l: String| l@) == job_report_spec(job_id@, *body),
{
    proof {
        reveal_strlit("Job ID:        ");
        reveal_strlit("State:         ");
        reveal_strlit("Messages:      ");
        reveal_strlit("Records:       ");
        reveal_strlit("Pending Errors:");
        reveal_strlit("Pending Warnings:");
        reveal_strlit("pendingErrors");
        reveal_strlit("pendingWarnings");
    }
    let status = job_status_of(body);
    let mut lines: Vec<String> = Vec::new();
    lines.push(concat("Job ID:        ", job_id));
    lines.push(concat("State:         ", status.state.as_str()));
    lines.push(concat("Messages:      ", u64_text(status.messages).as_str()));
    lines.push(concat("Records:       ", u64_text(status.records).as_str()));
    let ghost head = lines@.map_values(|l: String| l@);
    push_pending(&mut lines, "Pending Errors:", body, "pendingErrors");
    push_pending(&mut lines, "Pending Warnings:", body, "pendingWarnings");
    assert(lines@.map_values(|l: String| l@) =~= job_report_spec(job_id@, *body));
    lines
}

/// What `status` prints for a job, given the reply to its status request
/// (after retries): the report's lines, or the error that ends the command.
pub fn job_status_report(job_id: &str, reply: Result<(u16, Json), String>) -> (r: Result<Vec<String>, String>)
    ensures
        match reply {
            Err(m) => r matches Err(e) && e@ == m@,
            Ok((code, body)) => match status_error(code as int, body) {
                Some(m) => r matches Err(e) && e@ == m,
                None => r matches Ok(lines) && lines@.map_values(|l: String| l@) == job_report_spec(job_id@, body),
            },
        },
{
    let (code, body) = reply?;
    handle_error_status(code, &body)?;
    Ok(job_report(job_id, &body))
}

/// The body that creates a search job: the query, its time window and
/// time zone, whether to use receipt time, and automatic field parsing;
/// members in key order.
pub open spec fn request_members_ok(e: Seq<(String, Json)>, query: Seq<char>, from: Seq<char>, to: Seq<char>, time_zone: Seq<char>, by_receipt_time: bool) -> bool {
    &&& e.len() == 6
    &&& e[0].0@ == "autoParsingMode"@ && (e[0].1 matches Json::Str(v) && v@ == "AutoParse"@)
    &&& e[1].0@ == "byReceiptTime"@ && e[1].1 == Json::Bool(by_receipt_time)
    &&& e[2].0@ == "from"@ && (e[2].1 matches Json::Str(v) && v@ == from)
    &&& e[3].0@ == "query"@ && (e[3].1 matches Json::Str(v) && v@ == query)
    &&& e[4].0@ == "timeZone"@ && (e[4].1 matches Json::Str(v) && v@ == time_zone)
    &&& e[5].0@ == "to"@ && (e[5].1 matches Json::Str(v) && v@ == to)
}

/// The body of the request that creates the search job.
pub fn search_request(args: &SearchArgs, from: String, to: String) -> (r: Json)
    ensures
        r matches Json::Object(e) && request_members_ok(e@, args.query@, from@, to@, args.timezone@, args.by_receipt_time),
{
    let ghost fv = from@;
    let ghost tv = to@;
    let mut e: Vec<(String, Json)> = Vec::new();
    e.push((owned("autoParsingMode"), Json::Str(owned("AutoParse"))));
    e.push((owned("byReceiptTime"), Json::Bool(args.by_receipt_time)));
    e.push((owned("from"), Json::Str(from)));
    e.push((owned("query"), Json::Str(args.query.clone())));
    e.push((owned("timeZone"), Json::Str(args.timezone.clone())));
    e.push((owned("to"), Json::Str(to)));
    proof {
        reveal_strlit("autoParsingMode");
        reveal_strlit("AutoParse");
        reveal_strlit("byReceiptTime");
        reveal_strlit("from");
        reveal_strlit("query");
        reveal_strlit("timeZone");
        reveal_strlit("to");
    }
    Json::Object(e)
}

/// The message when a created job's answer lacks its ID.
pub open spec fn missing_id_message(status: int, body: Json) -> Seq<char> {
    "Failed to get search job ID. Status: "@ + status_text_spec(status) + ", Response: "@ + json_compact_text(body)
}

/// What the answer to creating a job gives: the job's ID, or why not.
pub open spec fn created_job_spec(status: int, body: Json) -> Result<Seq<char>, Seq<char>> {
    match status_error(status, body) {
        Some(m) => Err(m),
        None => match str_member(body, "id"@) {
            Some(id) => Ok(id),
            None => Err(missing_id_message(status, body)),
        },
    }
}

/// Reads the answer to creating a job.
pub fn created_job(status: u16, body: &Json) -> (r: Result<String, String>)
    ensures
        match (r, created_job_spec(status as int, *body)) {
            (Ok(a), Ok(b)) => a@ == b,
            (Err(a), Err(b)) => a@ == b,
            _ => false,
        },
{
    handle_error_status(status, body)?;
    proof {
        reveal_strlit("id");
        reveal_strlit("Failed to get search job ID. Status: ");
        reveal_strlit(", Response: ");
    }
    match str_member_of(body, "id") {
        Some(id) => Ok(id),
        None => {
            let mut e = concat("Failed to get search job ID. Status: ", status_text(status).as_str());
            e.append(", Response: ");
            e.append(compact_text(body).as_str());
            Err(e)
        }
    }
}

/// The search window as the request states it for the clock reading
/// `now`: both times as `YYYY-MM-DDTHH:MM:SS`, or the first time's error
/// (the start is read first).
pub open spec fn window_spec(from: Seq<char>, to: Seq<char>, now: Timestamp) -> Result<(Seq<char>, Seq<char>), Seq<char>> {
    match time_at(from, now) {
        Err(m) => Err(m),
        Ok(a) => match time_at(to, now) {
            Err(m) => Err(m),
            Ok(b) => Ok((
                chrono_format(a.0, a.1, request_layout()).unwrap(),
                chrono_format(b.0, b.1, request_layout()).unwrap(),
            )),
        },
    }
}

/// The view of a window.
pub open spec fn window_view(r: Result<(String, String), String>) -> Result<(Seq<char>, Seq<char>), Seq<char>> {
    match r {
        Ok((a, b)) => Ok((a@, b@)),
        Err(e) => Err(e@),
    }
}

/// The search window for the clock reading `now`: both times parsed (the
/// start first) and written as `YYYY-MM-DDTHH:MM:SS`.
pub fn search_window_at(from: &str, to: &str, now: &Timestamp) -> (r: Result<(String, String), String>)
    requires
        clock_reading(*now),
    ensures
        window_view(r) == window_spec(from@, to@, *now),
        r is Ok ==> (chrono_format(time_at(from@, *now)->Ok_0.0, time_at(from@, *now)->Ok_0.1, request_layout()) is Some
            && chrono_format(time_at(to@, *now)->Ok_0.0, time_at(to@, *now)->Ok_0.1, request_layout()) is Some),
{
    let start = parse_time_at(from, now)?;
    let end = parse_time_at(to, now)?;
    let a = match request_time_text(&start) {
        Some(t) => t,
        None => {
            assert(false);
            return Err(String::new());
        }
    };
    let b = match request_time_text(&end) {
        Some(t) => t,
        None => {
            assert(false);
            return Err(String::new());
        }
    };
    Ok((a, b))
}

/// The search window, both times read against one reading of the clock.
pub fn search_window(from: &str, to: &str) -> (r: Result<(String, String), String>)
    ensures
        exists|now: Timestamp| clock_reading(now) && window_view(r) == window_spec(from@, to@, now),
{
    let current = now();
    let r = search_window_at(from, to, &current);
    assert(clock_reading(current) && window_view(r) == window_spec(from@, to@, current));
    r
}

} // verus!
