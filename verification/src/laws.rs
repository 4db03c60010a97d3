//! Properties that relate the library's operations to one another.

use vstd::prelude::*;
use crate::config::{
    FileConfig, Choices, resolve_spec, resolved_access_id, resolved_access_key, resolved_endpoint, chosen_project,
    has_name, lookup, opt_view, non_empty, project_missing_message, project_field,
};
use crate::auth::{login_effect, active_project_spec, deployment_spec, deployment_label_spec};
use crate::keychain::{registry_names, raw_lines, non_empty_lines, with_name, without_name};
use crate::text::{join_with, split_spec, pieces_free_of, lemma_split_join};
use crate::search::{
    retry_spec, CallOutcome, page_count_spec, next_offset_spec, PAGE_SIZE, is_aggregate_spec, job_report_spec,
};
use crate::time::{epoch_ms_text};
use crate::json::{Json, member, get_spec};
use crate::output::{
    picked_members, printout_spec, output_mode_spec, Printout, row_for, strings_view,
};
use crate::text::{
    parse_i64_spec, fit_prefix, char_width, utf8_bytes, first_index_of, has_substring, unicode_lowercase,
    unicode_uppercase,
};
use crate::lifecycle::{
    SearchRun, Event, Step, Stage, Action, step_spec, wf, accepts, job_path, outcome_view, notes_of, paging_invariant,
    page_not_overfull,
};

verus! {

/// No values from a source.
pub open spec fn no_choices() -> Choices {
    (None, None, None, None)
}

/// A value given on the command line wins over every other source.
pub proof fn command_line_wins(flags: Choices, env: Choices, file: FileConfig)
    ensures
        flags.0 is Some && flags.0.unwrap().len() > 0 ==> resolved_access_id(flags, env, file) == flags.0,
        flags.1 is Some && flags.1.unwrap().len() > 0 ==> resolved_access_key(flags, env, file) == flags.1,
        flags.2 is Some && flags.2.unwrap().len() > 0 ==> resolved_endpoint(flags, env, file) == flags.2,
        flags.3 is Some ==> chosen_project(flags, env, file) == flags.3.unwrap(),
{
}

/// Without a command-line value, the environment wins over the file.
pub proof fn environment_beats_file(flags: Choices, env: Choices, file: FileConfig)
    ensures
        flags.0 is None && env.0 is Some && env.0.unwrap().len() > 0 ==> resolved_access_id(flags, env, file) == env.0,
        flags.1 is None && env.1 is Some && env.1.unwrap().len() > 0 ==> resolved_access_key(flags, env, file) == env.1,
        flags.2 is None && env.2 is Some && env.2.unwrap().len() > 0 ==> resolved_endpoint(flags, env, file) == env.2,
        flags.3 is None && env.3 is Some ==> chosen_project(flags, env, file) == env.3.unwrap(),
{
}

/// Without a command-line or environment endpoint, the chosen project's
/// endpoint wins over the file's default endpoint, which is used only when
/// the project has none.
pub proof fn project_beats_file_default(flags: Choices, env: Choices, file: FileConfig)
    requires
        flags.2 is None,
        env.2 is None,
    ensures
        project_field(lookup(file.projects@, chosen_project(flags, env, file)), 2) matches Some(x)
            ==> resolved_endpoint(flags, env, file) == non_empty(Some(x)),
        project_field(lookup(file.projects@, chosen_project(flags, env, file)), 2) is None
            ==> resolved_endpoint(flags, env, file) == non_empty(opt_view(file.default_endpoint)),
{
}

/// After `auth login --project p` with non-empty credentials, a command
/// run with `--project p` (and no credential variables in the environment)
/// uses exactly those credentials.
pub proof fn login_then_resolve(
    before: FileConfig,
    after: FileConfig,
    project: Seq<char>,
    endpoint: Seq<char>,
    access_id: Seq<char>,
    access_key: Seq<char>,
    path: Seq<char>,
)
    requires
        login_effect(before, after, project, endpoint, access_id, access_key),
        endpoint.len() > 0,
        access_id.len() > 0,
        access_key.len() > 0,
    ensures
        resolve_spec((None, None, None, Some(project)), no_choices(), after, path)
            == Ok::<(Seq<char>, Seq<char>, Seq<char>, Seq<char>), Seq<char>>((access_id, access_key, endpoint, project)),
{
    let flags: Choices = (None, None, None, Some(project));
    assert(chosen_project(flags, no_choices(), after) == project);
}

/// The first `auth login` into a file without a default project makes that
/// project the one every command uses by default.
pub proof fn first_login_becomes_default(
    before: FileConfig,
    after: FileConfig,
    project: Seq<char>,
    endpoint: Seq<char>,
    access_id: Seq<char>,
    access_key: Seq<char>,
    path: Seq<char>,
)
    requires
        login_effect(before, after, project, endpoint, access_id, access_key),
        before.default_project is None,
        endpoint.len() > 0,
        access_id.len() > 0,
        access_key.len() > 0,
    ensures
        active_project_spec(after) == Some(project),
        resolve_spec(no_choices(), no_choices(), after, path)
            == Ok::<(Seq<char>, Seq<char>, Seq<char>, Seq<char>), Seq<char>>((access_id, access_key, endpoint, project)),
{
    assert(chosen_project(no_choices(), no_choices(), after) == project);
}

/// After `auth use name` succeeds, commands without `--project` (and
/// without `SUMO_PROJECT`) use `name`, and `auth list` marks it.
pub proof fn use_then_active(after: FileConfig, name: Seq<char>)
    requires
        opt_view(after.default_project) == Some(name),
    ensures
        active_project_spec(after) == Some(name),
        chosen_project(no_choices(), no_choices(), after) == name,
{
}

/// Asking for a project that `auth logout` removed fails with the
/// project-not-found message while other projects remain.
pub proof fn logged_out_project_is_missing(after: FileConfig, project: Seq<char>, env: Choices, path: Seq<char>)
    requires
        !has_name(after.projects@, project),
        after.projects@.len() > 0,
    ensures
        resolve_spec((None, None, None, Some(project)), env, after, path)
            == Err::<(Seq<char>, Seq<char>, Seq<char>, Seq<char>), Seq<char>>(project_missing_message(project, path)),
{
}

/// Every known deployment's endpoint is labelled with its name.
pub proof fn known_endpoints_are_labelled(i: int)
    requires
        0 <= i < 7,
    ensures
        deployment_label_spec(deployment_spec(i).1) == deployment_spec(i).0,
{
    reveal_strlit("https://api.sumologic.com/api");
    reveal_strlit("https://api.us2.sumologic.com/api");
    reveal_strlit("https://api.eu.sumologic.com/api");
    reveal_strlit("https://api.au.sumologic.com/api");
    reveal_strlit("https://api.jp.sumologic.com/api");
    reveal_strlit("https://api.ca.sumologic.com/api");
    reveal_strlit("https://api.in.sumologic.com/api");
    let e = deployment_spec(i).1;
    assert(forall|j: int| 0 <= j < 7 && j != i ==> deployment_spec(j).1 != e) by {
        assert forall|j: int| 0 <= j < 7 && j != i implies deployment_spec(j).1 != e by {
            let a = deployment_spec(j).1;
            if a.len() == e.len() {
                assert(a[12] != e[12] || a[13] != e[13] || a[14] != e[14]);
            }
        }
    }
    let w = choose|k: int| 0 <= k < 7 && deployment_spec(k).1 == e
        && forall|j: int| 0 <= j < k ==> deployment_spec(j).1 != e;
    assert(0 <= i < 7 && deployment_spec(i).1 == e && forall|j: int| 0 <= j < i ==> deployment_spec(j).1 != e);
    assert(w == i);
}


/// Names the registry can hold and give back unchanged: non-empty, without
/// line breaks, and (but for the last) not ending in a carriage return.
pub open spec fn storable_names(names: Seq<Seq<char>>) -> bool {
    &&& forall|i: int| 0 <= i < names.len() ==> #[trigger] names[i].len() > 0
    &&& pieces_free_of(names, '\n')
    &&& forall|i: int| 0 <= i < names.len() - 1 ==> #[trigger] names[i].last() != '\r'
}

proof fn lemma_non_empty_lines_all(lines: Seq<Seq<char>>)
    requires
        forall|i: int| 0 <= i < lines.len() ==> #[trigger] lines[i].len() > 0,
    ensures
        non_empty_lines(lines) == lines,
    decreases lines.len(),
{
    if lines.len() > 0 {
        let init = lines.drop_last();
        assert forall|i: int| 0 <= i < init.len() implies #[trigger] init[i].len() > 0 by {
            assert(init[i] == lines[i]);
        }
        lemma_non_empty_lines_all(init);
        assert(lines.last() == lines[lines.len() - 1]);
        assert(init.push(lines.last()) =~= lines);
    }
}

/// Reading back the registry text written for a list of names gives the
/// same names, in order.
pub proof fn registry_round_trip(names: Seq<Seq<char>>)
    requires
        storable_names(names),
    ensures
        registry_names(join_with(names, '\n')) == names,
{
    if names.len() == 0 {
        assert(join_with(names, '\n') == Seq::<char>::empty());
        let pieces = split_spec(Seq::<char>::empty(), '\n');
        assert(raw_lines(Seq::<char>::empty()) =~= seq![Seq::<char>::empty()]);
        assert(seq![Seq::<char>::empty()].drop_last() =~= Seq::<Seq<char>>::empty());
        assert(non_empty_lines(seq![Seq::<char>::empty()]) == non_empty_lines(Seq::<Seq<char>>::empty()));
        assert(names =~= Seq::<Seq<char>>::empty());
    } else {
        lemma_split_join(names, '\n');
        let text = join_with(names, '\n');
        assert(raw_lines(text) =~= names) by {
            assert forall|i: int| 0 <= i < names.len() implies #[trigger] raw_lines(text)[i] == names[i] by {
                if i < names.len() - 1 {
                    assert(names[i].last() != '\r');
                }
            }
        }
        lemma_non_empty_lines_all(names);
    }
}

/// Adding a name to the registry's list makes it listed, keeps every
/// other name, and adding it again changes nothing.
pub proof fn registry_add(names: Seq<Seq<char>>, name: Seq<char>)
    ensures
        with_name(names, name).contains(name),
        forall|n: Seq<char>| names.contains(n) ==> with_name(names, name).contains(n),
        with_name(with_name(names, name), name) == with_name(names, name),
{
    if !names.contains(name) {
        let r = names.push(name);
        assert(r[names.len() as int] == name);
        assert forall|n: Seq<char>| names.contains(n) implies r.contains(n) by {
            let k = choose|k: int| 0 <= k < names.len() && names[k] == n;
            assert(r[k] == n);
        }
    }
}

/// Removing a name from the registry's list unlists it and keeps every
/// other name.
pub proof fn registry_remove(names: Seq<Seq<char>>, name: Seq<char>)
    ensures
        !without_name(names, name).contains(name),
        forall|n: Seq<char>| n != name ==> (without_name(names, name).contains(n) == names.contains(n)),
    decreases names.len(),
{
    if names.len() > 0 {
        let init = names.drop_last();
        registry_remove(init, name);
        let r0 = without_name(init, name);
        assert forall|n: Seq<char>| n != name implies (without_name(names, name).contains(n) == names.contains(n)) by {
            if names.contains(n) {
                let k = choose|k: int| 0 <= k < names.len() && names[k] == n;
                if k < names.len() - 1 {
                    assert(init[k] == n);
                    assert(init.contains(n));
                    assert(r0.contains(n));
                    let j = choose|j: int| 0 <= j < r0.len() && r0[j] == n;
                    assert(without_name(names, name)[j] == n);
                } else {
                    assert(r0.push(names.last())[r0.len() as int] == n);
                }
            }
            if without_name(names, name).contains(n) {
                let r = without_name(names, name);
                let k = choose|k: int| 0 <= k < r.len() && r[k] == n;
                if k < r0.len() {
                    assert(r0[k] == n);
                    assert(r0.contains(n));
                    assert(init.contains(n));
                    let j = choose|j: int| 0 <= j < init.len() && init[j] == n;
                    assert(names[j] == n);
                } else {
                    assert(names[names.len() - 1] == n);
                }
            }
        }
        if without_name(names, name).contains(name) {
            let r = without_name(names, name);
            let k = choose|k: int| 0 <= k < r.len() && r[k] == name;
            if k < r0.len() {
                assert(r0[k] == name);
            }
        }
    }
}

/// A call is made at most four times: no outcome of the fourth call is
/// retried, and a network failure is retried only after the first call.
pub proof fn retries_are_bounded(attempt: int, outcome: CallOutcome)
    ensures
        attempt >= 3 ==> !(retry_spec(attempt, outcome) is RetryAfter),
        attempt >= 1 ==> (outcome matches CallOutcome::Failed(_) ==> !(retry_spec(attempt, outcome) is RetryAfter)),
{
}

/// Paging never asks for more than the limit: if the results fetched so
/// far are within it and a page of `received` (no more than asked) comes
/// back, the next page again keeps the total within the limit.
pub proof fn pages_stay_within_limit(base: u32, limit: u32, offset: u32, received: u32)
    requires
        base <= offset,
        offset - base <= limit,
        page_count_spec(base, limit, offset) is Some,
        received <= page_count_spec(base, limit, offset).unwrap(),
    ensures
        offset - base + page_count_spec(base, limit, offset).unwrap() <= limit,
        page_count_spec(base, limit, offset).unwrap() <= PAGE_SIZE,
        next_offset_spec(offset, received, page_count_spec(base, limit, offset).unwrap()) matches Some(o)
            ==> o - base <= limit,
{
}

/// A message time that is not a whole number is shown as it is.
pub proof fn non_numeric_times_are_kept(s: Seq<char>)
    requires
        parse_i64_spec(s) is None,
    ensures
        epoch_ms_text(s) == s,
{
}

/// A query without a pipe never aggregates.
pub proof fn no_pipe_no_aggregate(q: Seq<char>)
    requires
        forall|i: int| 0 <= i < q.len() ==> q[i] != '|',
    ensures
        !is_aggregate_spec(q),
{
    assert(!(exists|i: int| 0 <= i < q.len() && q[i] == '|'));
}


/// Filtering to fields keeps only fields asked for, each once, with the
/// value the result's object holds for it; and keeps every field asked for
/// that the object has.
pub proof fn filter_keeps_requested(obj: Seq<(String, Json)>, fields: Seq<Seq<char>>)
    ensures
        forall|k: int| 0 <= k < picked_members(obj, fields).len() ==> fields.contains(#[trigger] picked_members(obj, fields)[k].0)
            && member(obj, picked_members(obj, fields)[k].0) == Some(picked_members(obj, fields)[k].1),
        forall|j: int, k: int| 0 <= j < k < picked_members(obj, fields).len()
            ==> #[trigger] picked_members(obj, fields)[j].0 != #[trigger] picked_members(obj, fields)[k].0,
        forall|i: int| 0 <= i < fields.len() && member(obj, #[trigger] fields[i]) is Some
            ==> exists|k: int| 0 <= k < picked_members(obj, fields).len() && picked_members(obj, fields)[k].0 == fields[i],
    decreases fields.len(),
{
    if fields.len() > 0 {
        let init = fields.drop_last();
        filter_keeps_requested(obj, init);
        let before = picked_members(obj, init);
        let after = picked_members(obj, fields);
        assert forall|k: int| 0 <= k < after.len() implies fields.contains(#[trigger] after[k].0)
            && member(obj, after[k].0) == Some(after[k].1) by {
            if k < before.len() {
                assert(after[k] == before[k]);
                assert(init.contains(before[k].0));
                let j = choose|j: int| 0 <= j < init.len() && init[j] == before[k].0;
                assert(fields[j] == init[j]);
            } else {
                assert(fields[fields.len() - 1] == fields.last());
            }
        }
        assert forall|i: int| 0 <= i < fields.len() && member(obj, #[trigger] fields[i]) is Some
            implies exists|k: int| 0 <= k < after.len() && after[k].0 == fields[i] by {
            if i < fields.len() - 1 {
                assert(init[i] == fields[i]);
                let k = choose|k: int| 0 <= k < before.len() && before[k].0 == init[i];
                assert(after[k] == before[k]);
            } else {
                if exists|k: int| 0 <= k < before.len() && before[k].0 == fields.last() {
                    let k = choose|k: int| 0 <= k < before.len() && before[k].0 == fields.last();
                    assert(after[k] == before[k]);
                } else {
                    assert(after[before.len() as int].0 == fields.last());
                }
            }
        }
    }
}


/// Once a search job exists, the run ends only right after the job is
/// deleted: no other stage finishes the run, deletion always does, and it
/// ends the run with the outcome decided before the deletion.
pub proof fn created_jobs_are_deleted(o: SearchRun, e: Event, n: SearchRun, s: Step)
    requires
        step_spec(o, e, n, s),
        !(o.stage is Create),
    ensures
        (s.action is Finish || n.stage is Done) <==> o.stage is Delete,
        o.stage is Delete ==> (s.action matches Action::Finish(r) && outcome_view(r) == outcome_view(o.outcome)),
        n.stage is Delete ==> (s.action matches Action::Delete(p) && p@ == job_path(o.job_id@)),
{
}

/// Ctrl+C while polling still deletes the job, and the run then ends
/// without error.
pub proof fn interrupted_runs_end_cleanly(o: SearchRun, n: SearchRun, s: Step)
    requires
        step_spec(o, Event::Interrupted, n, s),
    ensures
        n.stage is Delete,
        outcome_view(n.outcome) == Ok::<(), Seq<char>>(()),
        s.action matches Action::Delete(p) && p@ == job_path(o.job_id@),
{
}

/// Every page asked for holds at most one page of results and keeps the
/// results fetched within the limit.
pub proof fn pages_never_exceed_limit(o: SearchRun, e: Event, n: SearchRun, s: Step)
    requires
        wf(o),
        step_spec(o, e, n, s),
    ensures
        s.action is Get ==> 0 < n.asked <= PAGE_SIZE && n.offset - n.base_offset + n.asked <= n.limit,
{
}

/// Polls are at most 20 seconds apart, so the server keeps the job alive.
pub proof fn polls_keep_job_alive(o: SearchRun, e: Event, n: SearchRun, s: Step)
    requires
        wf(o),
        step_spec(o, e, n, s),
    ensures
        s.action matches Action::Wait(t) ==> t <= 20,
{
}

/// A quiet run writes no notes to stderr, but for the one that Ctrl+C
/// interrupted the search.
pub proof fn quiet_runs_are_silent(o: SearchRun, e: Event, n: SearchRun, s: Step)
    requires
        o.quiet,
        step_spec(o, e, n, s),
        !(e is Interrupted),
    ensures
        notes_of(s).len() == 0,
{
}

/// Over a whole run, paging keeps its count: every page asked for keeps the
/// total within the limit, and as long as no page holds more than was
/// asked for, the results shown number at most the limit.
pub proof fn shown_results_within_limit(o: SearchRun, e: Event, n: SearchRun, s: Step)
    requires
        wf(o),
        accepts(o, e),
        paging_invariant(o),
        page_not_overfull(o, e),
        step_spec(o, e, n, s),
    ensures
        paging_invariant(n),
        s.action matches Action::Show(v, _) ==> v@.len() <= o.limit,
{
}

proof fn lemma_utf8_len_cons(c: char, t: Seq<char>)
    ensures
        utf8_bytes(seq![c] + t).len() == char_width(c) + utf8_bytes(t).len(),
{
    let u = seq![c] + t;
    assert(u[0] == c);
    assert(u.drop_first() =~= t);
}

/// The prefix that cuts (of long messages and access IDs) keep is the
/// longest one, cut between characters, whose UTF-8 encoding fits the
/// budget: it fits, and one more character would not.
pub proof fn fit_prefix_is_longest(s: Seq<char>, budget: int) -> (k: int)
    requires
        budget >= 0,
    ensures
        0 <= k <= s.len(),
        fit_prefix(s, budget) == s.take(k),
        utf8_bytes(s.take(k)).len() <= budget,
        k < s.len() ==> utf8_bytes(s.take(k + 1)).len() > budget,
    decreases s.len(),
{
    if s.len() > 0 && char_width(s[0]) <= budget {
        let w = char_width(s[0]);
        let rest = s.drop_first();
        let k1 = fit_prefix_is_longest(rest, budget - w);
        assert(s.take(k1 + 1) =~= seq![s[0]] + rest.take(k1));
        lemma_utf8_len_cons(s[0], rest.take(k1));
        if k1 + 1 < s.len() {
            assert(s.take(k1 + 2) =~= seq![s[0]] + rest.take(k1 + 1));
            lemma_utf8_len_cons(s[0], rest.take(k1 + 1));
        }
        k1 + 1
    } else {
        assert(s.take(0) =~= Seq::<char>::empty());
        assert(utf8_bytes(Seq::<char>::empty()).len() == 0);
        if s.len() > 0 {
            assert(s.take(1) =~= seq![s[0]] + Seq::<char>::empty());
            lemma_utf8_len_cons(s[0], Seq::<char>::empty());
        }
        0
    }
}

/// An API error met while the job runs (polling its status or fetching a
/// page of results) ends the run in error: the job is deleted, and once
/// it is, the run finishes with that error, never with success. An expired
/// job (404) reports that it was not found.
pub proof fn api_errors_while_running_fail_the_run(
    o: SearchRun,
    code: u16,
    body: Json,
    n: SearchRun,
    s: Step,
    n2: SearchRun,
    s2: Step,
)
    requires
        o.stage is Poll || o.stage is Fetch,
        400 <= code < 600,
        step_spec(o, Event::Replied(Ok((code, body))), n, s),
        step_spec(n, Event::Deleted, n2, s2),
    ensures
        n.stage is Delete,
        s.action matches Action::Delete(p) && p@ == job_path(o.job_id@),
        outcome_view(n.outcome) is Err,
        s2.action matches Action::Finish(Err(_)),
        code == 404 ==> (s2.action matches Action::Finish(Err(x))
            && x@ == "Search job not found (may have expired)."@),
{
}

/// A call that failed outright (a network error, after retries) while the
/// job runs ends the run with that very message once the job is deleted.
pub proof fn failed_calls_while_running_fail_the_run(
    o: SearchRun,
    m: String,
    n: SearchRun,
    s: Step,
    n2: SearchRun,
    s2: Step,
)
    requires
        o.stage is Poll || o.stage is Fetch,
        step_spec(o, Event::Replied(Err(m)), n, s),
        step_spec(n, Event::Deleted, n2, s2),
    ensures
        n.stage is Delete,
        s2.action matches Action::Finish(Err(x)) && x@ == m@,
{
}

/// With `--fields` and text output, the results are shown as the table of
/// the fields asked for: its header is their names upper-cased, and each
/// row holds a result's value for each field, in that order.
pub proof fn fields_with_text_output_show_the_fields_table(
    r: Result<Printout, String>,
    shown: Seq<Json>,
    output: Seq<char>,
    fields: Seq<Seq<char>>,
    is_aggregate: bool,
    width: Option<u16>,
)
    requires
        output != "json"@,
        output != "csv"@,
        shown.len() > 0,
        printout_spec(r, shown, output_mode_spec(false, output, true), Some(fields), is_aggregate, width),
    ensures
        r matches Ok(Printout::Line(t)) && t@ == crate::output::table_text(
            Some(fields.map_values(|f: Seq<char>| unicode_uppercase(f))),
            shown.map_values(|v: Json| row_for(v, fields)),
            width,
        ),
{
}

/// A query whose lower-cased text after its first `|` contains one of
/// `count`, `sum`, `avg`, `min`, `max`, `first`, `last`, `pct`, `stddev`,
/// `group`, `timeslice`, `top`, `sort`, `parse` or `where` aggregates.
pub proof fn aggregate_keywords_after_the_pipe(q: Seq<char>, p: int)
    requires
        first_index_of(q, '|') == Some(p),
    ensures
        ({
            let after = unicode_lowercase(q.skip(p + 1));
            &&& has_substring(after, "count"@) ==> is_aggregate_spec(q)
            &&& has_substring(after, "sum"@) ==> is_aggregate_spec(q)
            &&& has_substring(after, "avg"@) ==> is_aggregate_spec(q)
            &&& has_substring(after, "min"@) ==> is_aggregate_spec(q)
            &&& has_substring(after, "max"@) ==> is_aggregate_spec(q)
            &&& has_substring(after, "first"@) ==> is_aggregate_spec(q)
            &&& has_substring(after, "last"@) ==> is_aggregate_spec(q)
            &&& has_substring(after, "pct"@) ==> is_aggregate_spec(q)
            &&& has_substring(after, "stddev"@) ==> is_aggregate_spec(q)
            &&& has_substring(after, "group"@) ==> is_aggregate_spec(q)
            &&& has_substring(after, "timeslice"@) ==> is_aggregate_spec(q)
            &&& has_substring(after, "top"@) ==> is_aggregate_spec(q)
            &&& has_substring(after, "sort"@) ==> is_aggregate_spec(q)
            &&& has_substring(after, "parse"@) ==> is_aggregate_spec(q)
            &&& has_substring(after, "where"@) ==> is_aggregate_spec(q)
        }),
{
    let kws = crate::search::aggregate_keywords();
    assert(kws[0] == "count"@ && kws[1] == "sum"@ && kws[2] == "avg"@ && kws[3] == "min"@ && kws[4] == "max"@);
    assert(kws[5] == "first"@ && kws[6] == "last"@ && kws[7] == "pct"@ && kws[8] == "stddev"@ && kws[9] == "group"@);
    assert(kws[10] == "timeslice"@ && kws[11] == "top"@ && kws[12] == "sort"@ && kws[13] == "parse"@);
    assert(kws[14] == "where"@);
}

/// How a pending error or warning is listed: `  - ` and its text, or
/// `unknown` when it is not a string.
pub open spec fn listed_item(item: Json) -> Seq<char> {
    match item {
        Json::Str(t) => "  - "@ + t@,
        _ => "  - unknown"@,
    }
}

/// When a job's status holds pending warnings, its report ends with the
/// line `Pending Warnings:` and one line per warning, in order; pending
/// errors are listed the same way, before them.
pub proof fn pending_warnings_are_listed(job_id: Seq<char>, body: Json, items: Seq<Json>)
    requires
        get_spec(body, "pendingWarnings"@) matches Some(Json::Array(v)) && v@ == items,
        items.len() > 0,
    ensures
        ({
            let rep = job_report_spec(job_id, body);
            let k = rep.len() - items.len() - 1;
            &&& k >= 4
            &&& rep[k] == "Pending Warnings:"@
            &&& forall|j: int| 0 <= j < items.len() ==> #[trigger] rep[k + 1 + j] == listed_item(items[j])
        }),
{
    reveal_strlit("  - unknown");
    reveal_strlit("  - ");
    reveal_strlit("unknown");
    let rep = job_report_spec(job_id, body);
    let k = rep.len() - items.len() - 1;
    assert forall|j: int| 0 <= j < items.len() implies #[trigger] rep[k + 1 + j] == listed_item(items[j]) by {
        match items[j] {
            Json::Str(t) => {},
            _ => {
                assert("  - unknown"@ =~= "  - "@ + "unknown"@);
            },
        }
    }
}

/// Pending errors are listed right after the counts: `Pending Errors:`
/// and one line per error, in order.
pub proof fn pending_errors_are_listed(job_id: Seq<char>, body: Json, items: Seq<Json>)
    requires
        get_spec(body, "pendingErrors"@) matches Some(Json::Array(v)) && v@ == items,
        items.len() > 0,
    ensures
        ({
            let rep = job_report_spec(job_id, body);
            &&& rep.len() >= 5 + items.len()
            &&& rep[4] == "Pending Errors:"@
            &&& forall|j: int| 0 <= j < items.len() ==> #[trigger] rep[5 + j] == listed_item(items[j])
        }),
{
    reveal_strlit("  - unknown");
    reveal_strlit("  - ");
    reveal_strlit("unknown");
    let rep = job_report_spec(job_id, body);
    assert forall|j: int| 0 <= j < items.len() implies #[trigger] rep[5 + j] == listed_item(items[j]) by {
        match items[j] {
            Json::Str(t) => {},
            _ => {
                assert("  - unknown"@ =~= "  - "@ + "unknown"@);
            },
        }
    }
}

} // verus!
