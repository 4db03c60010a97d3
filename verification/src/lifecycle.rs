//! The life of one search job as a state machine: create the job, poll its
//! status until the results are gathered, fetch them page by page, have
//! them shown, and delete the job however the run ends. The caller performs
//! each action (an HTTP call, a pause, printing) and hands back what came of
//! it; the machine decides what follows.

use vstd::prelude::*;
use crate::json::Json;
use crate::text::{owned, concat};
use crate::search::{
    SearchArgs, PollStep, search_request, request_members_ok, created_job, created_job_spec,
    handle_error_status, status_error, job_status_of, job_state_spec, job_count_spec, progress_line,
    progress_spec, poll_step, poll_spec, server_cancelled, server_cancelled_message, page_count,
    page_count_spec, page_path, page_path_spec, page_items, page_items_spec, next_offset, is_aggregate_query,
    is_aggregate_spec, effective_poll_interval,
};

verus! {

/// Where a run stands: what it waits for.
pub enum Stage {
    /// The reply to the request that creates the job.
    Create,
    /// The reply to a status poll, or an interruption (Ctrl+C) before it.
    Poll,
    /// The end of the pause between two polls.
    Sleep,
    /// The reply to a request for a page of results.
    Fetch,
    /// The results being shown.
    Show,
    /// The job's deletion.
    Delete,
    /// Nothing: the run is over.
    Done,
}

/// What the caller does next.
pub enum Action {
    /// POST the body to the path; hand back the reply.
    Post(String, Json),
    /// Unless Ctrl+C was pressed, GET the job's status at the path and hand
    /// back the reply; otherwise hand back the interruption.
    Poll(String),
    /// Pause for this many seconds.
    Wait(u64),
    /// GET a page of results at the path; hand back the reply.
    Get(String),
    /// Show these results (aggregate records when the flag is set) and hand
    /// back whether that worked.
    Show(Vec<Json>, bool),
    /// DELETE the job at the path, whatever comes of it.
    Delete(String),
    /// End the run with this outcome.
    Finish(Result<(), String>),
}

/// What came of an action.
pub enum Event {
    /// A call's answer (status and body), or the message of its failure,
    /// after the retry policy has had its say.
    Replied(Result<(u16, Json), String>),
    /// Ctrl+C was pressed before a poll.
    Interrupted,
    /// The pause is over.
    Waited,
    /// The results were shown, or why they could not be.
    Shown(Result<(), String>),
    /// The deletion was attempted.
    Deleted,
}

/// One decision: notes to write to stderr as they are, then an action.
pub struct Step {
    pub notes: Vec<String>,
    pub action: Action,
}

/// A search run: its stage, its settings, the job and the paging so far.
pub struct SearchRun {
    pub stage: Stage,
    /// The job's ID, once it exists.
    pub job_id: String,
    /// Whether the query aggregates (records rather than messages).
    pub aggregate: bool,
    /// Whether progress notes are suppressed.
    pub quiet: bool,
    /// The pause between polls, in seconds.
    pub poll_secs: u64,
    /// The offset the first page starts at.
    pub base_offset: u32,
    /// The most results to fetch.
    pub limit: u32,
    /// The offset of the page in flight (or next).
    pub offset: u32,
    /// How many results the page in flight asks for.
    pub asked: u32,
    /// The results fetched so far.
    pub results: Vec<Json>,
    /// How the run ends, once that is decided.
    pub outcome: Result<(), String>,
}

/// The path that creates search jobs.
pub open spec fn create_path() -> Seq<char> {
    "/v2/search/jobs"@
}

/// The path of one job.
pub open spec fn job_path(id: Seq<char>) -> Seq<char> {
    "/v2/search/jobs/"@ + id
}

/// The view of a step's notes.
pub open spec fn notes_of(s: Step) -> Seq<Seq<char>> {
    s.notes@.map_values(|n: String| n@)
}

/// The view of an outcome.
pub open spec fn outcome_view(r: Result<(), String>) -> Result<(), Seq<char>> {
    match r {
        Ok(()) => Ok(()),
        Err(e) => Err(e@),
    }
}

/// What holds of every run: the pause between polls is at most 20 seconds
/// and paging never moves below the first offset.
pub open spec fn wf(r: SearchRun) -> bool {
    &&& r.poll_secs <= 20
    &&& r.base_offset <= r.offset
}

/// The settings of a run stay as they were.
pub open spec fn same_settings(o: SearchRun, n: SearchRun) -> bool {
    &&& n.aggregate == o.aggregate
    &&& n.quiet == o.quiet
    &&& n.poll_secs == o.poll_secs
    &&& n.base_offset == o.base_offset
    &&& n.limit == o.limit
}

/// The run moves on to deleting its job, to end with `outcome`.
pub open spec fn deleting(o: SearchRun, n: SearchRun, s: Step, outcome: Result<(), Seq<char>>) -> bool {
    &&& n.stage == Stage::Delete
    &&& n.job_id@ == o.job_id@
    &&& outcome_view(n.outcome) == outcome
    &&& s.action matches Action::Delete(p) && p@ == job_path(o.job_id@)
}

/// From `offset`, with `results` fetched so far, the run asks for the next
/// page, or shows the results when the limit is reached.
pub open spec fn paging(o: SearchRun, n: SearchRun, s: Step, offset: u32, results: Seq<Json>) -> bool {
    &&& n.job_id@ == o.job_id@
    &&& n.offset == offset
    &&& match page_count_spec(o.base_offset, o.limit, offset) {
        None => n.stage == Stage::Show && (s.action matches Action::Show(v, a) && v@ == results && a == o.aggregate),
        Some(c) => {
            &&& n.stage == Stage::Fetch
            &&& n.asked == c
            &&& n.results@ == results
            &&& s.action matches Action::Get(p) && p@ == page_path_spec(o.job_id@, o.aggregate, offset, c)
        },
    }
}

/// The note that the job exists.
pub open spec fn created_note(id: Seq<char>) -> Seq<char> {
    "Search job created: "@ + id + "\n"@
}

/// The note when Ctrl+C stops the polling.
pub open spec fn interrupted_note() -> Seq<char> {
    "\nSearch cancelled.\n"@
}

/// The note when the server paused the job.
pub open spec fn paused_note() -> Seq<char> {
    "\nSearch job force paused. Fetching available results...\n"@
}

/// `note` unless the run is quiet.
pub open spec fn unless_quiet(quiet: bool, note: Seq<char>) -> Seq<Seq<char>> {
    if quiet {
        Seq::empty()
    } else {
        seq![note]
    }
}

/// A page answer fits the counters: its length is a `u32`, and moving the
/// offset past it does not overflow (the offset is a `u32`).
pub open spec fn page_fits(o: SearchRun, body: Json) -> bool {
    let c = page_items_spec(body, o.aggregate).len();
    &&& c <= u32::MAX
    &&& c >= o.asked ==> o.offset + c <= u32::MAX
}

/// The events a run waits for in its stage.
pub open spec fn accepts(o: SearchRun, e: Event) -> bool {
    match o.stage {
        Stage::Create => e is Replied,
        Stage::Poll => e is Replied || e is Interrupted,
        Stage::Sleep => e is Waited,
        Stage::Fetch => match e {
            Event::Replied(Ok((code, body))) => status_error(code as int, body) is None ==> page_fits(o, body),
            Event::Replied(Err(_)) => true,
            _ => false,
        },
        Stage::Show => e is Shown,
        Stage::Delete => e is Deleted,
        Stage::Done => false,
    }
}

/// What a poll's answer leads to, once it is no error.
pub open spec fn after_status(o: SearchRun, n: SearchRun, s: Step, body: Json) -> bool {
    let progress = unless_quiet(o.quiet, progress_spec(
        job_count_spec(body, "messageCount"@),
        job_count_spec(body, "recordCount"@),
    ));
    match poll_spec(job_state_spec(body)) {
        PollStep::Finished => notes_of(s) == progress + unless_quiet(o.quiet, "\n"@)
            && paging(o, n, s, o.base_offset, Seq::empty()),
        PollStep::Paused => notes_of(s) == progress + unless_quiet(o.quiet, paused_note())
            && paging(o, n, s, o.base_offset, Seq::empty()),
        PollStep::Cancelled => notes_of(s) == progress && deleting(o, n, s, Err(server_cancelled_message())),
        PollStep::Wait => {
            &&& notes_of(s) == progress
            &&& n.stage == Stage::Sleep
            &&& n.job_id@ == o.job_id@
            &&& s.action == Action::Wait(o.poll_secs)
        },
    }
}

/// What a page's answer leads to, once it is no error.
pub open spec fn after_page(o: SearchRun, n: SearchRun, s: Step, body: Json) -> bool {
    let items = page_items_spec(body, o.aggregate);
    let results = o.results@ + items;
    &&& notes_of(s) == Seq::<Seq<char>>::empty()
    &&& if items.len() < o.asked {
        &&& n.stage == Stage::Show
        &&& n.job_id@ == o.job_id@
        &&& s.action matches Action::Show(v, a) && v@ == results && a == o.aggregate
    } else {
        paging(o, n, s, (o.offset + items.len()) as u32, results)
    }
}

/// While a page is in flight, the results fetched so far are exactly those
/// between the first offset and the page's, and the page keeps the total
/// within the limit.
pub open spec fn paging_invariant(r: SearchRun) -> bool {
    r.stage is Fetch ==> {
        &&& r.results@.len() == r.offset - r.base_offset
        &&& r.offset - r.base_offset + r.asked <= r.limit
    }
}

/// The answer to a page request holds no more results than were asked for.
pub open spec fn page_not_overfull(o: SearchRun, e: Event) -> bool {
    o.stage is Fetch ==> match e {
        Event::Replied(Ok((_, body))) => page_items_spec(body, o.aggregate).len() <= o.asked,
        _ => true,
    }
}

/// One transition: from run `o`, event `e` leads to run `n` and step `s`.
pub open spec fn step_spec(o: SearchRun, e: Event, n: SearchRun, s: Step) -> bool {
    &&& same_settings(o, n)
    &&& match o.stage {
        Stage::Create => match e {
            Event::Replied(Err(m)) => {
                &&& n.stage == Stage::Done
                &&& notes_of(s) == Seq::<Seq<char>>::empty()
                &&& s.action matches Action::Finish(Err(x)) && x@ == m@
            },
            Event::Replied(Ok((code, body))) => match created_job_spec(code as int, body) {
                Err(m) => {
                    &&& n.stage == Stage::Done
                    &&& notes_of(s) == Seq::<Seq<char>>::empty()
                    &&& s.action matches Action::Finish(Err(x)) && x@ == m
                },
                Ok(id) => {
                    &&& n.stage == Stage::Poll
                    &&& n.job_id@ == id
                    &&& notes_of(s) == unless_quiet(o.quiet, created_note(id))
                    &&& s.action matches Action::Poll(p) && p@ == job_path(id)
                },
            },
            _ => false,
        },
        Stage::Poll => match e {
            Event::Interrupted => notes_of(s) == seq![interrupted_note()] && deleting(o, n, s, Ok(())),
            Event::Replied(Err(m)) => notes_of(s) == Seq::<Seq<char>>::empty() && deleting(o, n, s, Err(m@)),
            Event::Replied(Ok((code, body))) => match status_error(code as int, body) {
                Some(m) => notes_of(s) == Seq::<Seq<char>>::empty() && deleting(o, n, s, Err(m)),
                None => after_status(o, n, s, body),
            },
            _ => false,
        },
        Stage::Sleep => match e {
            Event::Waited => {
                &&& n.stage == Stage::Poll
                &&& n.job_id@ == o.job_id@
                &&& notes_of(s) == Seq::<Seq<char>>::empty()
                &&& s.action matches Action::Poll(p) && p@ == job_path(o.job_id@)
            },
            _ => false,
        },
        Stage::Fetch => match e {
            Event::Replied(Err(m)) => notes_of(s) == Seq::<Seq<char>>::empty() && deleting(o, n, s, Err(m@)),
            Event::Replied(Ok((code, body))) => match status_error(code as int, body) {
                Some(m) => notes_of(s) == Seq::<Seq<char>>::empty() && deleting(o, n, s, Err(m)),
                None => after_page(o, n, s, body),
            },
            _ => false,
        },
        Stage::Show => match e {
            Event::Shown(r) => notes_of(s) == Seq::<Seq<char>>::empty() && deleting(o, n, s, outcome_view(r)),
            _ => false,
        },
        Stage::Delete => match e {
            Event::Deleted => {
                &&& n.stage == Stage::Done
                &&& notes_of(s) == Seq::<Seq<char>>::empty()
                &&& s.action matches Action::Finish(r) && outcome_view(r) == outcome_view(o.outcome)
            },
            _ => false,
        },
        Stage::Done => false,
    }
}

fn job_path_of(id: &str) -> (r: String)
    ensures
        r@ == job_path(id@),
{
    proof {
        reveal_strlit("/v2/search/jobs/");
    }
    concat("/v2/search/jobs/", id)
}

impl SearchRun {
    /// A run for `args` whose job asks for the window `from`..`to` (as
    /// the request writes them): its first step creates the job.
    pub fn start(args: &SearchArgs, from: String, to: String) -> (r: (SearchRun, Step))
        ensures
            wf(r.0),
            r.0.stage == Stage::Create,
            r.0.aggregate == is_aggregate_spec(args.query@),
            r.0.quiet == args.quiet,
            r.0.poll_secs == (if args.poll_interval < 20 { args.poll_interval } else { 20 }),
            r.0.base_offset == args.offset,
            r.0.limit == args.limit,
            r.0.offset == args.offset,
            r.0.results@.len() == 0,
            notes_of(r.1) == Seq::<Seq<char>>::empty(),
            r.1.action matches Action::Post(p, b) && p@ == create_path() && (b matches Json::Object(e)
                && request_members_ok(e@, args.query@, from@, to@, args.timezone@, args.by_receipt_time)),
    {
        let body = search_request(args, from, to);
        let run = SearchRun {
            stage: Stage::Create,
            job_id: String::new(),
            aggregate: is_aggregate_query(args.query.as_str()),
            quiet: args.quiet,
            poll_secs: effective_poll_interval(args.poll_interval),
            base_offset: args.offset,
            limit: args.limit,
            offset: args.offset,
            asked: 0,
            results: Vec::new(),
            outcome: Ok(()),
        };
        proof {
            reveal_strlit("/v2/search/jobs");
        }
        let notes: Vec<String> = Vec::new();
        assert(notes@.map_values(|n: String| n@) =~= Seq::<Seq<char>>::empty());
        (run, Step { notes, action: Action::Post(owned("/v2/search/jobs"), body) })
    }

    fn begin_delete(&mut self, notes: Vec<String>, outcome: Result<(), String>) -> (s: Step)
        ensures
            same_settings(*old(self), *final(self)),
            final(self).offset == old(self).offset,
            deleting(*old(self), *final(self), s, outcome_view(outcome)),
            s.notes@ == notes@,
    {
        let path = job_path_of(self.job_id.as_str());
        self.stage = Stage::Delete;
        self.outcome = outcome;
        Step { notes, action: Action::Delete(path) }
    }

    fn next_page(&mut self, notes: Vec<String>, offset: u32) -> (s: Step)
        requires
            old(self).base_offset <= offset,
        ensures
            same_settings(*old(self), *final(self)),
            final(self).offset == offset,
            paging(*old(self), *final(self), s, offset, old(self).results@),
            s.notes@ == notes@,
    {
        self.offset = offset;
        match page_count(self.base_offset, self.limit, offset) {
            None => {
                let mut shown: Vec<Json> = Vec::new();
                std::mem::swap(&mut shown, &mut self.results);
                self.stage = Stage::Show;
                Step { notes, action: Action::Show(shown, self.aggregate) }
            }
            Some(c) => {
                let path = page_path(self.job_id.as_str(), self.aggregate, offset, c);
                self.asked = c;
                self.stage = Stage::Fetch;
                Step { notes, action: Action::Get(path) }
            }
        }
    }
}

impl SearchRun {
    fn on_created(&mut self, reply: Result<(u16, Json), String>) -> (s: Step)
        requires
            old(self).stage == Stage::Create,
            wf(*old(self)),
        ensures
            wf(*final(self)),
            step_spec(*old(self), Event::Replied(reply), *final(self), s),
    {
        let no_notes: Vec<String> = Vec::new();
        assert(no_notes@.map_values(|n: String| n@) =~= Seq::<Seq<char>>::empty());
        let (code, body) = match reply {
            Ok(answer) => answer,
            Err(m) => {
                self.stage = Stage::Done;
                return Step { notes: no_notes, action: Action::Finish(Err(m)) };
            }
        };
        match created_job(code, &body) {
            Err(m) => {
                self.stage = Stage::Done;
                Step { notes: no_notes, action: Action::Finish(Err(m)) }
            }
            Ok(id) => {
                let mut notes: Vec<String> = Vec::new();
                if !self.quiet {
                    let mut note = concat("Search job created: ", id.as_str());
                    note.append("\n");
                    proof {
                        reveal_strlit("Search job created: ");
                        reveal_strlit("\n");
                    }
                    notes.push(note);
                }
                assert(notes@.map_values(|n: String| n@) =~= unless_quiet(self.quiet, created_note(id@)));
                let path = job_path_of(id.as_str());
                self.job_id = id;
                self.stage = Stage::Poll;
                Step { notes, action: Action::Poll(path) }
            }
        }
    }

    fn on_status(&mut self, reply: Result<(u16, Json), String>) -> (s: Step)
        requires
            old(self).stage == Stage::Poll,
            wf(*old(self)),
        ensures
            wf(*final(self)),
            step_spec(*old(self), Event::Replied(reply), *final(self), s),
    {
        let no_notes: Vec<String> = Vec::new();
        assert(no_notes@.map_values(|n: String| n@) =~= Seq::<Seq<char>>::empty());
        let (code, body) = match reply {
            Ok(answer) => answer,
            Err(m) => return self.begin_delete(no_notes, Err(m)),
        };
        match handle_error_status(code, &body) {
            Err(m) => return self.begin_delete(no_notes, Err(m)),
            Ok(()) => {},
        }
        let report = job_status_of(&body);
        let mut notes: Vec<String> = Vec::new();
        if !self.quiet {
            notes.push(progress_line(report.messages, report.records));
        }
        let ghost progress = notes@.map_values(|n: String| n@);
        assert(progress =~= unless_quiet(self.quiet, progress_spec(
            job_count_spec(body, "messageCount"@),
            job_count_spec(body, "recordCount"@),
        )));
        match poll_step(report.state.as_str()) {
            PollStep::Finished => {
                if !self.quiet {
                    proof {
                        reveal_strlit("\n");
                    }
                    notes.push(owned("\n"));
                }
                assert(notes@.map_values(|n: String| n@) =~= progress + unless_quiet(self.quiet, "\n"@));
                self.results = Vec::new();
                let base = self.base_offset;
                self.next_page(notes, base)
            }
            PollStep::Paused => {
                if !self.quiet {
                    proof {
                        reveal_strlit("\nSearch job force paused. Fetching available results...\n");
                    }
                    notes.push(owned("\nSearch job force paused. Fetching available results...\n"));
                }
                assert(notes@.map_values(|n: String| n@) =~= progress + unless_quiet(self.quiet, paused_note()));
                self.results = Vec::new();
                let base = self.base_offset;
                self.next_page(notes, base)
            }
            PollStep::Cancelled => self.begin_delete(notes, Err(server_cancelled())),
            PollStep::Wait => {
                self.stage = Stage::Sleep;
                Step { notes, action: Action::Wait(self.poll_secs) }
            }
        }
    }

    fn on_page(&mut self, reply: Result<(u16, Json), String>) -> (s: Step)
        requires
            old(self).stage == Stage::Fetch,
            wf(*old(self)),
            accepts(*old(self), Event::Replied(reply)),
        ensures
            wf(*final(self)),
            step_spec(*old(self), Event::Replied(reply), *final(self), s),
    {
        let no_notes: Vec<String> = Vec::new();
        assert(no_notes@.map_values(|n: String| n@) =~= Seq::<Seq<char>>::empty());
        let (code, body) = match reply {
            Ok(answer) => answer,
            Err(m) => return self.begin_delete(no_notes, Err(m)),
        };
        match handle_error_status(code, &body) {
            Err(m) => return self.begin_delete(no_notes, Err(m)),
            Ok(()) => {},
        }
        let ghost before = self.results@;
        let mut items = page_items(body, self.aggregate);
        let count = items.len() as u32;
        self.results.append(&mut items);
        match next_offset(self.offset, count, self.asked) {
            None => {
                let mut shown: Vec<Json> = Vec::new();
                std::mem::swap(&mut shown, &mut self.results);
                self.stage = Stage::Show;
                Step { notes: no_notes, action: Action::Show(shown, self.aggregate) }
            }
            Some(next) => self.next_page(no_notes, next),
        }
    }

    /// Decides what follows `event`, the outcome of the last action.
    pub fn step(&mut self, event: Event) -> (s: Step)
        requires
            wf(*old(self)),
            accepts(*old(self), event),
        ensures
            wf(*final(self)),
            step_spec(*old(self), event, *final(self), s),
    {
        let no_notes: Vec<String> = Vec::new();
        assert(no_notes@.map_values(|n: String| n@) =~= Seq::<Seq<char>>::empty());
        match event {
            Event::Replied(reply) => match &self.stage {
                Stage::Create => self.on_created(reply),
                Stage::Poll => self.on_status(reply),
                _ => self.on_page(reply),
            },
            Event::Interrupted => {
                let mut notes: Vec<String> = Vec::new();
                proof {
                    reveal_strlit("\nSearch cancelled.\n");
                }
                notes.push(owned("\nSearch cancelled.\n"));
                assert(notes@.map_values(|n: String| n@) =~= seq![interrupted_note()]);
                self.begin_delete(notes, Ok(()))
            }
            Event::Waited => {
                let path = job_path_of(self.job_id.as_str());
                self.stage = Stage::Poll;
                Step { notes: no_notes, action: Action::Poll(path) }
            }
            Event::Shown(r) => self.begin_delete(no_notes, r),
            Event::Deleted => {
                let outcome = match &self.outcome {
                    Ok(()) => Ok(()),
                    Err(e) => Err(e.clone()),
                };
                self.stage = Stage::Done;
                Step { notes: no_notes, action: Action::Finish(outcome) }
            }
        }
    }
}

impl SearchRun {
    /// Whether the run can take `reply` to its page request: the counters
    /// have room for the page (see `page_fits`).
    pub fn takes_page(&self, reply: &Result<(u16, Json), String>) -> (r: bool)
        requires
            self.stage == Stage::Fetch,
        ensures
            r == accepts(*self, Event::Replied(*reply)),
    {
        let (code, body) = match reply {
            Ok(answer) => (answer.0, &answer.1),
            Err(_) => return true,
        };
        if handle_error_status(code, body).is_err() {
            return true;
        }
        proof {
            reveal_strlit("records");
            reveal_strlit("messages");
        }
        let key = if self.aggregate { "records" } else { "messages" };
        let count: usize = match body.get(key) {
            Some(Json::Array(items)) => items.len(),
            _ => 0,
        };
        assert(count == page_items_spec(*body, self.aggregate).len());
        if count > 4294967295usize {
            return false;
        }
        let c: u32 = count as u32;
        if c >= self.asked {
            c <= 4294967295u32 - self.offset
        } else {
            true
        }
    }
}

} // verus!
