//! Actions workflow runs: status predicates, the run picker, the rendering
//! of a run's jobs and steps, and the decisions of `gt run watch`.
use vstd::prelude::*;

use crate::api::{parse_i64, parse_i64_spec};
use crate::issue::{num, rows_of, when_exec, when_text};
use crate::json::{find_member, member, Json, JsonArgs, JsonValue};
use crate::repo::{split_on, split_on_from, RepoArgs, RepoInfo};
use crate::verbose::text_lines;
use crate::runner::{cut_bytes, cut_bytes_ok, cut_bytes_spec};
use crate::text::{
    chars_of, dec_i64, dec_int, dec_nat, dec_u64, extend_chars, extend_str, opt_or, opt_or_exec,
    pad_right, pad_right_exec, push_line, str_eq, string_of, strs,
};

verus! {

/// A workflow run, as far as the commands read it.
#[derive(Debug, Clone, Default)]
pub struct WorkflowRun {
    pub id: Option<i64>,
    pub display_title: Option<String>,
    pub status: Option<String>,
    pub conclusion: Option<String>,
    pub head_branch: Option<String>,
    pub event: Option<String>,
    pub html_url: Option<String>,
    /// Start time, in seconds since the Unix epoch.
    pub started_at: Option<i64>,
}

/// A step of a job.
#[derive(Debug, Clone, Default)]
pub struct WorkflowStep {
    pub name: Option<String>,
    pub status: Option<String>,
    pub conclusion: Option<String>,
}

/// A job of a run, with its steps.
#[derive(Debug, Clone, Default)]
pub struct WorkflowJob {
    pub name: Option<String>,
    pub status: Option<String>,
    pub conclusion: Option<String>,
    pub steps: Vec<WorkflowStep>,
}

/// A run status that means the run is over: `completed`, or an outcome
/// that some servers report as the status.
pub open spec fn is_terminal_status_spec(s: Seq<char>) -> bool {
    s == "completed"@ || s == "success"@ || s == "failure"@ || s == "cancelled"@ || s
        == "skipped"@ || s == "timed_out"@ || s == "action_required"@
}

/// A conclusion that counts as a failure.
pub open spec fn is_failure_conclusion_spec(c: Seq<char>) -> bool {
    c == "failure"@ || c == "cancelled"@ || c == "timed_out"@ || c == "action_required"@
}

/// Whether the run status is terminal.
pub fn is_terminal_status(status: &str) -> (r: bool)
    ensures
        r == is_terminal_status_spec(status@),
{
    str_eq(status, "completed") || str_eq(status, "success") || str_eq(status, "failure")
        || str_eq(status, "cancelled") || str_eq(status, "skipped") || str_eq(
        status,
        "timed_out",
    ) || str_eq(status, "action_required")
}

/// Whether the conclusion is a failure.
pub fn is_failure_conclusion(conclusion: &str) -> (r: bool)
    ensures
        r == is_failure_conclusion_spec(conclusion@),
{
    str_eq(conclusion, "failure") || str_eq(conclusion, "cancelled") || str_eq(
        conclusion,
        "timed_out",
    ) || str_eq(conclusion, "action_required")
}

/// The icon of a job or step: the conclusion decides when it is an outcome,
/// otherwise the status.
pub open spec fn job_icon_spec(status: Seq<char>, conclusion: Seq<char>) -> Seq<char> {
    if conclusion == "success"@ {
        "✓"@
    } else if conclusion == "failure"@ {
        "✗"@
    } else if conclusion == "cancelled"@ {
        "⊘"@
    } else if conclusion == "timed_out"@ {
        "✗"@
    } else if conclusion == "action_required"@ {
        "✗"@
    } else if status == "in_progress"@ {
        "●"@
    } else if status == "queued"@ || status == "waiting"@ {
        "○"@
    } else {
        "?"@
    }
}

/// The icon for a status and conclusion.
pub fn job_icon(status: &str, conclusion: &str) -> (r: &'static str)
    ensures
        r@ == job_icon_spec(status@, conclusion@),
{
    if str_eq(conclusion, "success") {
        "✓"
    } else if str_eq(conclusion, "failure") {
        "✗"
    } else if str_eq(conclusion, "cancelled") {
        "⊘"
    } else if str_eq(conclusion, "timed_out") {
        "✗"
    } else if str_eq(conclusion, "action_required") {
        "✗"
    } else if str_eq(status, "in_progress") {
        "●"
    } else if str_eq(status, "queued") || str_eq(status, "waiting") {
        "○"
    } else {
        "?"
    }
}

/// A status of a run that has not finished: it goes to the picker's first
/// group.
pub open spec fn is_in_flight(s: Seq<char>) -> bool {
    s == "in_progress"@ || s == "queued"@ || s == "waiting"@
}

/// The runs whose status (empty when absent) is in flight (`in_flight`
/// true) or not, in their order.
pub open spec fn runs_in_flight(runs: Seq<WorkflowRun>, in_flight: bool) -> Seq<WorkflowRun>
    decreases runs.len(),
{
    if runs.len() == 0 {
        seq![]
    } else {
        let prev = runs_in_flight(runs.drop_last(), in_flight);
        if is_in_flight(opt_or(runs.last().status, ""@)) == in_flight {
            prev.push(runs.last())
        } else {
            prev
        }
    }
}

/// Every run lands in exactly one group of the picker: the groups together
/// are as long as the list.
pub proof fn lemma_partition_covers(runs: Seq<WorkflowRun>)
    ensures
        runs_in_flight(runs, true).len() + runs_in_flight(runs, false).len() == runs.len(),
    decreases runs.len(),
{
    if runs.len() > 0 {
        lemma_partition_covers(runs.drop_last());
    }
}

/// Whether the status is in flight.
fn is_in_flight_exec(run: &WorkflowRun) -> (r: bool)
    ensures
        r == is_in_flight(opt_or(run.status, ""@)),
{
    let s = string_of(&opt_or_exec(&run.status, ""));
    str_eq(s.as_str(), "in_progress") || str_eq(s.as_str(), "queued") || str_eq(
        s.as_str(),
        "waiting",
    )
}

/// Splits runs into those still in flight (`waiting`, `queued`,
/// `in_progress`) and the rest, both in their original order.
pub fn partition_runs_for_picker(runs: Vec<WorkflowRun>) -> (r: (
    Vec<WorkflowRun>,
    Vec<WorkflowRun>,
))
    ensures
        r.0@ == runs_in_flight(runs@, true),
        r.1@ == runs_in_flight(runs@, false),
{
    let mut in_progress: Vec<WorkflowRun> = Vec::new();
    let mut recent: Vec<WorkflowRun> = Vec::new();
    let ghost all = runs@;
    assert(all.len() == runs.len());
    let mut rest = runs;
    let mut taken: usize = 0;
    // Move the runs out in order by reversing first.
    let mut rev: Vec<WorkflowRun> = Vec::new();
    while rest.len() > 0
        invariant
            rest@ + rev@.reverse() == all,
        decreases rest.len(),
    {
        let ghost before = rest@;
        let x = rest.pop().unwrap();
        let ghost rb = rev@;
        rev.push(x);
        assert(rev@.reverse() =~= seq![x] + rb.reverse());
        assert(before =~= rest@.push(x));
        assert(rest@ + rev@.reverse() =~= before + rb.reverse());
    }
    assert(rev@.reverse() =~= all);
    while rev.len() > 0
        invariant
            rev@.reverse() == all.skip(taken as int),
            taken <= all.len(),
            all.len() <= usize::MAX,
            in_progress@ == runs_in_flight(all.take(taken as int), true),
            recent@ == runs_in_flight(all.take(taken as int), false),
        decreases rev.len(),
    {
        let ghost rb = rev@;
        let x = rev.pop().unwrap();
        proof {
            assert(rb =~= rev@.push(x));
            assert(rb.reverse() =~= seq![x] + rev@.reverse());
            assert(all.skip(taken as int)[0] == x);
            assert(all.take(taken + 1).drop_last() =~= all.take(taken as int));
            assert(all.take(taken + 1).last() == x);
            assert(all.skip(taken as int).drop_first() =~= all.skip(taken + 1));
        }
        if is_in_flight_exec(&x) {
            in_progress.push(x);
        } else {
            recent.push(x);
        }
        taken += 1;
    }
    assert(taken == all.len());
    assert(all.take(all.len() as int) =~= all);
    (in_progress, recent)
}

/// A job whose conclusion and every step's conclusion is `success`.
pub open spec fn job_is_fully_green_spec(job: WorkflowJob) -> bool {
    opt_or(job.conclusion, ""@) == "success"@ && forall|i: int|
        0 <= i < job.steps@.len() ==> opt_or((#[trigger] job.steps@[i]).conclusion, ""@)
            == "success"@
}

/// Whether a job and all its steps succeeded.
pub fn job_is_fully_green(job: &WorkflowJob) -> (r: bool)
    ensures
        r == job_is_fully_green_spec(*job),
{
    let c = string_of(&opt_or_exec(&job.conclusion, ""));
    if !str_eq(c.as_str(), "success") {
        return false;
    }
    let mut i: usize = 0;
    while i < job.steps.len()
        invariant
            i <= job.steps.len(),
            forall|j: int|
                0 <= j < i ==> opt_or((#[trigger] job.steps@[j]).conclusion, ""@)
                    == "success"@,
        decreases job.steps.len() - i,
    {
        let sc = string_of(&opt_or_exec(&job.steps[i].conclusion, ""));
        if !str_eq(sc.as_str(), "success") {
            return false;
        }
        i += 1;
    }
    true
}

/// A step that compact mode hides: neither failed nor in flight.
pub open spec fn step_is_hidden_spec(step: WorkflowStep) -> bool {
    let c = opt_or(step.conclusion, ""@);
    let s = opt_or(step.status, ""@);
    !(is_failure_conclusion_spec(c) || is_in_flight(s))
}

/// Whether compact mode hides the step.
pub fn step_is_hidden_in_compact(step: &WorkflowStep) -> (r: bool)
    ensures
        r == step_is_hidden_spec(*step),
{
    let c = string_of(&opt_or_exec(&step.conclusion, ""));
    let s = string_of(&opt_or_exec(&step.status, ""));
    let visible = is_failure_conclusion(c.as_str()) || str_eq(s.as_str(), "in_progress") || str_eq(
        s.as_str(),
        "queued",
    ) || str_eq(s.as_str(), "waiting");
    !visible
}

/// The header of a rendered run: id, title, status and conclusion.
pub open spec fn run_header(run: WorkflowRun) -> Seq<char> {
    let id = match run.id {
        Some(i) => i as int,
        None => 0,
    };
    let title = opt_or(run.display_title, "(unnamed)"@);
    let status = opt_or(run.status, "unknown"@);
    let conclusion = opt_or(run.conclusion, ""@);
    "Run #"@ + dec_int(id) + " — "@ + title + "\n"@ + (if conclusion.len() == 0 {
        "Status: "@ + status + "\n"@
    } else {
        "Status: "@ + status + " ("@ + conclusion + ")\n"@
    }) + "\n"@
}

/// The line of a job.
pub open spec fn job_line(job: WorkflowJob) -> Seq<char> {
    let name = opt_or(job.name, "(unnamed job)"@);
    let s = opt_or(job.status, ""@);
    let c = opt_or(job.conclusion, ""@);
    let icon = job_icon_spec(s, c);
    if c.len() == 0 {
        "  "@ + icon + " "@ + name + " ("@ + s + ")\n"@
    } else if c == "success"@ {
        "  "@ + icon + " "@ + name + "\n"@
    } else {
        "  "@ + icon + " "@ + name + " ("@ + c + ")\n"@
    }
}

/// The line of a step.
pub open spec fn step_line(step: WorkflowStep) -> Seq<char> {
    let name = opt_or(step.name, "(unnamed step)"@);
    let icon = job_icon_spec(opt_or(step.status, ""@), opt_or(step.conclusion, ""@));
    "    "@ + icon + " "@ + name + "\n"@
}

/// The lines of the steps shown.
pub open spec fn step_lines(steps: Seq<WorkflowStep>, compact: bool) -> Seq<char>
    decreases steps.len(),
{
    if steps.len() == 0 {
        seq![]
    } else {
        let prev = step_lines(steps.drop_last(), compact);
        if compact && step_is_hidden_spec(steps.last()) {
            prev
        } else {
            prev + step_line(steps.last())
        }
    }
}

/// Compact mode hides the whole job.
pub open spec fn job_hidden(job: WorkflowJob, compact: bool) -> bool {
    compact && job_is_fully_green_spec(job)
}

/// The text of the jobs shown, each followed by its steps.
pub open spec fn jobs_text(jobs: Seq<WorkflowJob>, compact: bool) -> Seq<char>
    decreases jobs.len(),
{
    if jobs.len() == 0 {
        seq![]
    } else {
        let prev = jobs_text(jobs.drop_last(), compact);
        let j = jobs.last();
        if job_hidden(j, compact) {
            prev
        } else {
            prev + job_line(j) + step_lines(j.steps@, compact)
        }
    }
}

/// At least one job is shown.
pub open spec fn any_job_shown(jobs: Seq<WorkflowJob>, compact: bool) -> bool {
    exists|i: int| 0 <= i < jobs.len() && !job_hidden(#[trigger] jobs[i], compact)
}

/// The status block of a run: the header, then the jobs with their steps;
/// in compact mode fully green jobs and steps that neither failed nor are in
/// flight are left out, and a fallback line stands in when no job remains.
pub open spec fn render_spec(run: WorkflowRun, jobs: Seq<WorkflowJob>, compact: bool) -> Seq<
    char,
> {
    run_header(run) + jobs_text(jobs, compact) + (if compact && !any_job_shown(jobs, compact) {
        "  (all steps passing so far)\n"@
    } else {
        ""@
    })
}

/// Appends the lines of the shown steps.
fn push_steps(out: &mut Vec<char>, steps: &Vec<WorkflowStep>, compact: bool)
    ensures
        final(out)@ == old(out)@ + step_lines(steps@, compact),
{
    let mut i: usize = 0;
    let ghost base = out@;
    assert(steps@.take(0) =~= Seq::<WorkflowStep>::empty());
    assert(base + step_lines(steps@.take(0), compact) =~= base);
    while i < steps.len()
        invariant
            i <= steps.len(),
            out@ == base + step_lines(steps@.take(i as int), compact),
        decreases steps.len() - i,
    {
        assert(steps@.take(i + 1).drop_last() =~= steps@.take(i as int));
        assert(steps@.take(i + 1).last() == steps@[i as int]);
        let step = &steps[i];
        if !(compact && step_is_hidden_in_compact(step)) {
            let name = opt_or_exec(&step.name, "(unnamed step)");
            let s = string_of(&opt_or_exec(&step.status, ""));
            let c = string_of(&opt_or_exec(&step.conclusion, ""));
            let icon = job_icon(s.as_str(), c.as_str());
            let ghost before = out@;
            extend_str(out, "    ");
            extend_str(out, icon);
            extend_str(out, " ");
            extend_chars(out, &name);
            extend_str(out, "\n");
            assert(out@ =~= before + step_line(*step));
        }
        i += 1;
    }
    assert(steps@.take(steps.len() as int) =~= steps@);
}

/// Appends the line of a job and the lines of its shown steps.
fn push_job(out: &mut Vec<char>, job: &WorkflowJob, compact: bool)
    ensures
        final(out)@ == old(out)@ + job_line(*job) + step_lines(job.steps@, compact),
{
    let jname = opt_or_exec(&job.name, "(unnamed job)");
    let js = opt_or_exec(&job.status, "");
    let jc = opt_or_exec(&job.conclusion, "");
    let jss = string_of(&js);
    let jcs = string_of(&jc);
    let icon = job_icon(jss.as_str(), jcs.as_str());
    let ghost before = out@;
    extend_str(out, "  ");
    extend_str(out, icon);
    extend_str(out, " ");
    extend_chars(out, &jname);
    if jc.len() == 0 {
        extend_str(out, " (");
        extend_chars(out, &js);
        extend_str(out, ")\n");
    } else if str_eq(jcs.as_str(), "success") {
        extend_str(out, "\n");
    } else {
        extend_str(out, " (");
        extend_chars(out, &jc);
        extend_str(out, ")\n");
    }
    assert(out@ =~= before + job_line(*job));
    push_steps(out, &job.steps, compact);
}

/// Renders a run as the status block that `gt run watch` prints.
pub fn render_run_state(run: &WorkflowRun, jobs: &[WorkflowJob], compact: bool) -> (r: String)
    ensures
        r@ == render_spec(*run, jobs@, compact),
{
    let mut out: Vec<char> = Vec::new();
    let id = match run.id {
        Some(i) => i,
        None => 0,
    };
    let title = opt_or_exec(&run.display_title, "(unnamed)");
    let status = opt_or_exec(&run.status, "unknown");
    let conclusion = opt_or_exec(&run.conclusion, "");
    extend_str(&mut out, "Run #");
    let d = dec_i64(id);
    extend_chars(&mut out, &d);
    extend_str(&mut out, " — ");
    extend_chars(&mut out, &title);
    extend_str(&mut out, "\n");
    if conclusion.len() == 0 {
        extend_str(&mut out, "Status: ");
        extend_chars(&mut out, &status);
        extend_str(&mut out, "\n");
    } else {
        extend_str(&mut out, "Status: ");
        extend_chars(&mut out, &status);
        extend_str(&mut out, " (");
        extend_chars(&mut out, &conclusion);
        extend_str(&mut out, ")\n");
    }
    extend_str(&mut out, "\n");
    assert(out@ =~= run_header(*run));
    let ghost header = out@;
    let mut any_job_rendered = false;
    let mut i: usize = 0;
    assert(jobs@.take(0) =~= Seq::<WorkflowJob>::empty());
    assert(header + jobs_text(jobs@.take(0), compact) =~= header);
    while i < jobs.len()
        invariant
            i <= jobs.len(),
            out@ == header + jobs_text(jobs@.take(i as int), compact),
            any_job_rendered == any_job_shown(jobs@.take(i as int), compact),
        decreases jobs.len() - i,
    {
        let ghost pre = jobs@.take(i as int);
        let ghost nxt = jobs@.take(i + 1);
        assert(nxt.drop_last() =~= pre);
        assert(nxt.last() == jobs@[i as int]);
        let job = &jobs[i];
        if compact && job_is_fully_green(job) {
            assert(any_job_shown(nxt, compact) == any_job_shown(pre, compact)) by {
                if any_job_shown(nxt, compact) {
                    let w = choose|w: int| 0 <= w < nxt.len() && !job_hidden(#[trigger] nxt[w], compact);
                    assert(pre[w] == nxt[w]);
                }
                if any_job_shown(pre, compact) {
                    let w = choose|w: int| 0 <= w < pre.len() && !job_hidden(#[trigger] pre[w], compact);
                    assert(pre[w] == nxt[w]);
                }
            }
        } else {
            any_job_rendered = true;
            assert(!job_hidden(nxt[i as int], compact));
            push_job(&mut out, job, compact);
            assert(out@ =~= header + jobs_text(nxt, compact));
        }
        i += 1;
    }
    assert(jobs@.take(jobs.len() as int) =~= jobs@);
    let ghost body = out@;
    if compact && !any_job_rendered {
        extend_str(&mut out, "  (all steps passing so far)\n");
    } else {
        assert(body + ""@ =~= body) by {
            reveal_strlit("");
        }
    }
    string_of(&out)
}

/// The label of a run in the picker: icon, id, branch and title.
pub open spec fn picker_label_spec(run: WorkflowRun) -> Seq<char> {
    let id = match run.id {
        Some(i) => i as int,
        None => 0,
    };
    job_icon_spec(opt_or(run.status, ""@), opt_or(run.conclusion, ""@)) + " #"@ + dec_int(id)
        + " "@ + opt_or(run.head_branch, ""@) + " "@ + opt_or(run.display_title, "(unnamed)"@)
}

/// The label of a run in the picker.
pub fn format_run_picker_label(run: &WorkflowRun) -> (r: String)
    ensures
        r@ == picker_label_spec(*run),
{
    let id = match run.id {
        Some(i) => i,
        None => 0,
    };
    let s = string_of(&opt_or_exec(&run.status, ""));
    let c = string_of(&opt_or_exec(&run.conclusion, ""));
    let icon = job_icon(s.as_str(), c.as_str());
    let mut out = chars_of(icon);
    extend_str(&mut out, " #");
    extend_chars(&mut out, &dec_i64(id));
    extend_str(&mut out, " ");
    extend_chars(&mut out, &opt_or_exec(&run.head_branch, ""));
    extend_str(&mut out, " ");
    extend_chars(&mut out, &opt_or_exec(&run.display_title, "(unnamed)"));
    string_of(&out)
}

/// The label that separates in-flight runs from recent ones in the picker.
pub open spec fn separator_label() -> Seq<char> {
    "───── recent ─────"@
}

/// The id shown for a run (0 when absent).
pub open spec fn run_id(run: WorkflowRun) -> i64 {
    match run.id {
        Some(i) => i,
        None => 0,
    }
}

/// The labels of the runs.
pub open spec fn labels_of(runs: Seq<WorkflowRun>) -> Seq<Seq<char>> {
    runs.map_values(|r: WorkflowRun| picker_label_spec(r))
}

/// The ids of the runs.
pub open spec fn ids_of(runs: Seq<WorkflowRun>) -> Seq<i64> {
    runs.map_values(|r: WorkflowRun| run_id(r))
}

/// The picker's entries: the in-flight runs, then (when both groups are
/// non-empty) a separator with id -1, then at most ten recent runs; `None`
/// when there are no runs at all.
pub open spec fn picker_entries_spec(runs: Seq<WorkflowRun>) -> Option<
    (Seq<Seq<char>>, Seq<i64>),
> {
    let a = runs_in_flight(runs, true);
    let b = runs_in_flight(runs, false);
    let bt = if b.len() > 10 {
        b.take(10)
    } else {
        b
    };
    if a.len() == 0 && b.len() == 0 {
        None
    } else if a.len() > 0 && b.len() > 0 {
        Some((labels_of(a) + seq![separator_label()] + labels_of(bt), ids_of(a) + seq![-1i64] + ids_of(bt)))
    } else {
        Some((labels_of(a) + labels_of(bt), ids_of(a) + ids_of(bt)))
    }
}

/// Appends the labels and ids of `runs`, at most `max` of them.
fn push_entries(labels: &mut Vec<String>, ids: &mut Vec<i64>, runs: &Vec<WorkflowRun>, max: usize)
    ensures
        ({
            let t = if runs@.len() > max {
                runs@.take(max as int)
            } else {
                runs@
            };
            &&& final(labels)@.map_values(|s: String| s@) == old(labels)@.map_values(|s: String| s@)
                + labels_of(t)
            &&& final(ids)@ == old(ids)@ + ids_of(t)
        }),
{
    let ghost l0 = labels@.map_values(|s: String| s@);
    let ghost i0 = ids@;
    let n = if runs.len() > max {
        max
    } else {
        runs.len()
    };
    let ghost t = runs@.take(n as int);
    let mut k: usize = 0;
    assert(t.take(0) =~= Seq::<WorkflowRun>::empty());
    assert(l0 + labels_of(t.take(0)) =~= l0);
    assert(i0 + ids_of(t.take(0)) =~= i0);
    while k < n
        invariant
            k <= n <= runs@.len(),
            t == runs@.take(n as int),
            labels@.map_values(|s: String| s@) == l0 + labels_of(t.take(k as int)),
            ids@ == i0 + ids_of(t.take(k as int)),
        decreases n - k,
    {
        let run = &runs[k];
        let lab = format_run_picker_label(run);
        let ghost lb = labels@.map_values(|s: String| s@);
        labels.push(lab);
        ids.push(
            match run.id {
                Some(i) => i,
                None => 0,
            },
        );
        assert(t.take(k + 1) =~= t.take(k as int).push(runs@[k as int]));
        assert(labels@.map_values(|s: String| s@) =~= lb.push(picker_label_spec(runs@[k as int])));
        assert(labels_of(t.take(k + 1)) =~= labels_of(t.take(k as int)).push(
            picker_label_spec(runs@[k as int]),
        ));
        assert(ids_of(t.take(k + 1)) =~= ids_of(t.take(k as int)).push(run_id(runs@[k as int])));
        k += 1;
    }
    assert(t.take(n as int) =~= t);
    if runs.len() <= max {
        assert(runs@.take(n as int) =~= runs@);
    }
}

/// The entries of the run picker, in-flight runs first.
pub fn picker_entries(runs: Vec<WorkflowRun>) -> (r: Option<(Vec<String>, Vec<i64>)>)
    ensures
        match picker_entries_spec(runs@) {
            None => r is None,
            Some((ls, is)) => r matches Some((labels, ids)) && labels@.map_values(|s: String| s@)
                == ls && ids@ == is,
        },
{
    let (in_progress, recent) = partition_runs_for_picker(runs);
    if in_progress.len() == 0 && recent.len() == 0 {
        return None;
    }
    let mut labels: Vec<String> = Vec::new();
    let mut ids: Vec<i64> = Vec::new();
    push_entries(&mut labels, &mut ids, &in_progress, in_progress.len());
    assert(labels@.map_values(|s: String| s@) =~= labels_of(in_progress@));
    assert(ids@ =~= ids_of(in_progress@));
    if in_progress.len() > 0 && recent.len() > 0 {
        let ghost lb = labels@.map_values(|s: String| s@);
        labels.push(string_of(&chars_of("───── recent ─────")));
        ids.push(-1);
        assert(labels@.map_values(|s: String| s@) =~= lb.push(separator_label()));
    }
    let ghost lb2 = labels@.map_values(|s: String| s@);
    let ghost ib2 = ids@;
    push_entries(&mut labels, &mut ids, &recent, 10);
    proof {
        let b = recent@;
        let bt = if b.len() > 10 {
            b.take(10)
        } else {
            b
        };
        assert(labels@.map_values(|s: String| s@) == lb2 + labels_of(bt));
        if in_progress.len() > 0 && recent.len() > 0 {
            assert(lb2 + labels_of(bt) =~= labels_of(in_progress@) + seq![separator_label()]
                + labels_of(bt));
            assert(ids@ =~= ids_of(in_progress@) + seq![-1i64] + ids_of(bt));
        }
    }
    Some((labels, ids))
}

/// What the user picked.
pub enum PickResult {
    /// Watch this run.
    Run(i64),
    /// The separator was picked: treated as a cancel (exit 130).
    Cancelled,
    /// The picked label is not one of the labels.
    NotFound,
}

/// The first position of `x` in `labels`.
pub open spec fn position_of(labels: Seq<Seq<char>>, x: Seq<char>) -> Option<int>
    decreases labels.len(),
{
    if labels.len() == 0 {
        None
    } else if labels.last() == x && position_of(labels.drop_last(), x) is None {
        Some(labels.len() - 1)
    } else {
        position_of(labels.drop_last(), x)
    }
}

/// The run that the picked label stands for: the id at the label's first
/// position; the separator's negative id means the pick is cancelled.
pub fn resolve_pick(labels: &Vec<String>, ids: &Vec<i64>, chosen: &str) -> (r: PickResult)
    requires
        labels@.len() == ids@.len(),
    ensures
        match position_of(labels@.map_values(|s: String| s@), chosen@) {
            None => r is NotFound,
            Some(p) => if ids@[p] < 0 {
                r is Cancelled
            } else {
                r == PickResult::Run(ids@[p])
            },
        },
{
    let ghost lv = labels@.map_values(|s: String| s@);
    let mut i: usize = 0;
    assert(lv.take(0) =~= Seq::<Seq<char>>::empty());
    while i < labels.len()
        invariant
            i <= labels.len(),
            labels@.len() == ids@.len(),
            lv == labels@.map_values(|s: String| s@),
            position_of(lv.take(i as int), chosen@) is None,
        decreases labels.len() - i,
    {
        assert(lv.take(i + 1).drop_last() =~= lv.take(i as int));
        if str_eq(labels[i].as_str(), chosen) {
            assert(position_of(lv.take(i + 1), chosen@) == Some(i as int));
            proof {
                lemma_position_prefix(lv, i + 1, chosen@);
            }
            let id = ids[i];
            if id < 0 {
                return PickResult::Cancelled;
            }
            return PickResult::Run(id);
        }
        i += 1;
    }
    assert(lv.take(labels.len() as int) =~= lv);
    PickResult::NotFound
}

/// A position found in a prefix is the position in the whole sequence.
proof fn lemma_position_prefix(lv: Seq<Seq<char>>, k: int, x: Seq<char>)
    requires
        0 <= k <= lv.len(),
        position_of(lv.take(k), x) is Some,
    ensures
        position_of(lv, x) == position_of(lv.take(k), x),
    decreases lv.len() - k,
{
    if k < lv.len() {
        assert(lv.take(k + 1).drop_last() =~= lv.take(k));
        lemma_position_prefix(lv, k + 1, x);
    } else {
        assert(lv.take(k) =~= lv);
    }
}

/// The options of `gt run watch`.
#[derive(Debug, Clone, Copy)]
pub struct WatchArgs {
    /// Run id; the picker chooses when absent.
    pub id: Option<i64>,
    /// Seconds between polls.
    pub interval: u64,
    /// Hide successful steps.
    pub compact: bool,
    /// Exit non-zero when the run concludes with a failure.
    pub exit_status: bool,
}

/// What `gt run watch` remembers between polls.
pub struct WatchState {
    /// Lines printed by the previous poll, if any.
    pub prev_lines: Option<usize>,
    /// Standard output is a terminal.
    pub is_tty: bool,
}

/// What one poll of `gt run watch` prints and whether it stops.
pub struct WatchOutput {
    /// Text for standard error: the redraw prefix and the status block.
    pub text: String,
    /// The exit code once the run is over.
    pub exit_code: Option<i32>,
}

/// Number of lines of `s` as `str::lines` counts them: the characters that
/// begin a line (the first one, and each one after a newline).
pub open spec fn count_lines(s: Seq<char>) -> nat
    decreases s.len(),
{
    if s.len() == 0 {
        0
    } else {
        let p = s.drop_last();
        count_lines(p) + (if p.len() == 0 || p.last() == '\n' {
            1nat
        } else {
            0nat
        })
    }
}

/// The number of newlines in `s`.
pub open spec fn newline_count(s: Seq<char>) -> nat
    decreases s.len(),
{
    if s.len() == 0 {
        0
    } else {
        (if s[0] == '\n' {
            1nat
        } else {
            0nat
        }) + newline_count(s.drop_first())
    }
}

/// Counting newlines from the back gives the same number.
proof fn lemma_newline_count_last(s: Seq<char>)
    requires
        s.len() > 0,
    ensures
        newline_count(s) == newline_count(s.drop_last()) + (if s.last() == '\n' {
            1nat
        } else {
            0nat
        }),
    decreases s.len(),
{
    if s.len() == 1 {
        assert(s.drop_first().len() == 0);
        assert(s.drop_last().len() == 0);
        assert(newline_count(s.drop_first()) == 0);
        assert(newline_count(s.drop_last()) == 0);
        assert(s.last() == s[0]);
    } else {
        let t = s.drop_first();
        let p = s.drop_last();
        lemma_newline_count_last(t);
        assert(t.drop_last() =~= p.drop_first());
        assert(t.last() == s.last());
        assert(p[0] == s[0]);
        assert(newline_count(p) == (if p[0] == '\n' {
            1nat
        } else {
            0nat
        }) + newline_count(p.drop_first()));
        assert(newline_count(s) == (if s[0] == '\n' {
            1nat
        } else {
            0nat
        }) + newline_count(t));
    }
}

/// A text has a line per newline, and one more when it does not end with a
/// newline.
proof fn lemma_count_lines_newlines(s: Seq<char>)
    ensures
        count_lines(s) == newline_count(s) + (if s.len() > 0 && s.last() != '\n' {
            1nat
        } else {
            0nat
        }),
    decreases s.len(),
{
    if s.len() > 0 {
        let p = s.drop_last();
        lemma_count_lines_newlines(p);
        lemma_newline_count_last(s);
    }
}

/// Splitting at newlines gives one piece more than there are newlines; the
/// last piece is empty exactly when the text ends with a newline (or is empty
/// and nothing was collected).
pub(crate) proof fn lemma_split_shape(s: Seq<char>, cur: Seq<char>)
    ensures
        split_on_from(s, '\n', cur).len() == newline_count(s) + 1,
        (split_on_from(s, '\n', cur).last().len() == 0) == (if s.len() == 0 {
            cur.len() == 0
        } else {
            s.last() == '\n'
        }),
    decreases s.len(),
{
    if s.len() > 0 {
        let t = s.drop_first();
        if s[0] == '\n' {
            lemma_split_shape(t, seq![]);
            let rest = split_on_from(t, '\n', seq![]);
            assert((seq![cur] + rest).last() == rest.last());
        } else {
            lemma_split_shape(t, cur.push(s[0]));
        }
        if t.len() > 0 {
            assert(t.last() == s.last());
        }
    }
}

/// `gt run watch` counts the lines of the block it printed as `str::lines`
/// does, so the redraw moves the cursor up over exactly those lines.
pub proof fn lemma_count_lines_as_str_lines(s: Seq<char>)
    ensures
        count_lines(s) == text_lines(s).len(),
{
    lemma_count_lines_newlines(s);
    lemma_split_shape(s, seq![]);
    let parts = split_on(s, '\n');
    assert(parts.take(parts.len() - 1).map_values(|l: Seq<char>| crate::verbose::strip_cr(l)).len()
        == parts.len() - 1);
}

/// The redraw prefix: on a terminal, move up over the previous block and
/// clear; elsewhere, a blank line between blocks; nothing the first time.
pub open spec fn redraw_prefix(prev: Option<usize>, is_tty: bool) -> Seq<char> {
    match prev {
        None => ""@,
        Some(n) => if is_tty {
            "\x1b["@ + dec_nat(n as nat) + "F\x1b[J"@
        } else {
            "\n"@
        },
    }
}

/// The exit code once the run's status is terminal: 1 only with
/// `--exit-status` and a failure status or conclusion, else 0.
pub open spec fn watch_exit_spec(run: WorkflowRun, exit_status: bool) -> Option<i32> {
    let s = opt_or(run.status, ""@);
    let c = opt_or(run.conclusion, ""@);
    if !is_terminal_status_spec(s) {
        None
    } else if exit_status && (is_failure_conclusion_spec(s) || is_failure_conclusion_spec(c)) {
        Some(1)
    } else {
        Some(0)
    }
}

/// `gt run watch` exits 0 once the run is over, whatever its conclusion;
/// only with `--exit-status` does a failed status or conclusion exit 1.
pub proof fn lemma_watch_exit_codes(run: WorkflowRun)
    ensures
        watch_exit_spec(run, false) == (if is_terminal_status_spec(opt_or(run.status, ""@)) {
            Some(0i32)
        } else {
            None
        }),
        watch_exit_spec(run, true) == Some(1i32) <==> is_terminal_status_spec(
            opt_or(run.status, ""@),
        ) && (is_failure_conclusion_spec(opt_or(run.status, ""@)) || is_failure_conclusion_spec(
            opt_or(run.conclusion, ""@),
        )),
{
}

/// Counts the lines of `s`.
pub fn count_lines_exec(s: &[char]) -> (n: usize)
    ensures
        n == count_lines(s@),
{
    let mut n: usize = 0;
    let mut i: usize = 0;
    assert(s@.take(0) =~= Seq::<char>::empty());
    while i < s.len()
        invariant
            i <= s.len(),
            n == count_lines(s@.take(i as int)),
            n <= i,
        decreases s.len() - i,
    {
        let ghost pre = s@.take(i as int);
        assert(s@.take(i + 1).drop_last() =~= pre);
        if i == 0 || s[i - 1] == '\n' {
            n += 1;
        }
        i += 1;
    }
    assert(s@.take(s.len() as int) =~= s@);
    n
}

impl WatchState {
    /// The state before the first poll.
    pub fn new(is_tty: bool) -> (r: Self)
        ensures
            r.prev_lines is None,
            r.is_tty == is_tty,
    {
        WatchState { prev_lines: None, is_tty }
    }
}

/// One poll of `gt run watch`: the text to print (redraw prefix and status
/// block) and, once the run's status is terminal, the exit code. The state
/// remembers the number of lines of the block for the next redraw.
pub fn watch_step(state: &mut WatchState, args: &WatchArgs, run: &WorkflowRun, jobs: &[WorkflowJob]) -> (r: WatchOutput)
    requires
        count_lines(render_spec(*run, jobs@, args.compact)) <= usize::MAX,
    ensures
        r.text@ == redraw_prefix(old(state).prev_lines, old(state).is_tty) + render_spec(
            *run,
            jobs@,
            args.compact,
        ),
        final(state).prev_lines == Some(count_lines(render_spec(*run, jobs@, args.compact)) as usize),
        final(state).is_tty == old(state).is_tty,
        r.exit_code == watch_exit_spec(*run, args.exit_status),
{
    let body = render_run_state(run, jobs, args.compact);
    let bc = chars_of(body.as_str());
    let lines = count_lines_exec(&bc);
    let mut out: Vec<char> = Vec::new();
    match state.prev_lines {
        Some(n) => {
            if state.is_tty {
                extend_str(&mut out, "\x1b[");
                extend_chars(&mut out, &dec_u64(n as u64));
                extend_str(&mut out, "F\x1b[J");
            } else {
                extend_str(&mut out, "\n");
            }
        },
        None => {
            assert(out@ =~= ""@) by {
                reveal_strlit("");
            }
        },
    }
    extend_chars(&mut out, &bc);
    state.prev_lines = Some(lines);
    let status = string_of(&opt_or_exec(&run.status, ""));
    let conclusion = string_of(&opt_or_exec(&run.conclusion, ""));
    let exit_code = if is_terminal_status(status.as_str()) {
        if args.exit_status && (is_failure_conclusion(status.as_str()) || is_failure_conclusion(
            conclusion.as_str(),
        )) {
            Some(1i32)
        } else {
            Some(0i32)
        }
    } else {
        None
    };
    WatchOutput { text: string_of(&out), exit_code }
}

/// The subcommands of `gt run`.
#[derive(Debug, Clone)]
pub enum RunAction {
    List { json: JsonArgs },
    View { id: i64, json: bool },
    Rerun(i64),
    Watch(WatchArgs),
    /// Download the artifacts of a run into a directory.
    Download { id: i64, dir: String },
}

/// `gt run`: the repository option and the subcommand.
#[derive(Debug, Clone)]
pub struct RunCommand {
    pub repo: RepoArgs,
    pub action: RunAction,
}

/// The row of `gt run list`: id, title (cut to 28 bytes), status, branch
/// and start, in columns of 8, 30, 12 and 10 characters.
pub open spec fn run_row_spec(r: WorkflowRun, now: i64) -> Seq<char> {
    pad_right(dec_int(num(r.id)), 8) + " "@ + pad_right(
        cut_bytes_spec(opt_or(r.display_title, ""@), 28),
        30,
    ) + " "@ + pad_right(opt_or(r.status, ""@), 12) + " "@ + pad_right(
        opt_or(r.head_branch, ""@),
        10,
    ) + " "@ + when_text(r.started_at, now)
}

/// The title of a row is cut on a character boundary.
pub open spec fn run_row_ok(r: WorkflowRun) -> bool {
    cut_bytes_ok(opt_or(r.display_title, ""@), 28)
}

/// One row of `gt run list`.
pub fn run_row(r: &WorkflowRun, now: i64) -> (s: String)
    requires
        run_row_ok(*r),
    ensures
        s@ == run_row_spec(*r, now),
{
    let title = string_of(&opt_or_exec(&r.display_title, ""));
    let mut v = pad_right_exec(&dec_i64(match r.id {
        Some(x) => x,
        None => 0,
    }), 8);
    extend_str(&mut v, " ");
    extend_chars(&mut v, &pad_right_exec(&chars_of(cut_bytes(title.as_str(), 28).as_str()), 30));
    extend_str(&mut v, " ");
    extend_chars(&mut v, &pad_right_exec(&opt_or_exec(&r.status, ""), 12));
    extend_str(&mut v, " ");
    extend_chars(&mut v, &pad_right_exec(&opt_or_exec(&r.head_branch, ""), 10));
    extend_str(&mut v, " ");
    extend_chars(&mut v, &when_exec(r.started_at, now));
    string_of(&v)
}

/// The header row of `gt run list` on a terminal.
pub open spec fn run_header_spec() -> Seq<char> {
    pad_right("ID"@, 8) + " "@ + pad_right("TITLE"@, 30) + " "@ + pad_right("STATUS"@, 12) + " "@
        + pad_right("BRANCH"@, 10) + " STARTED"@
}

/// The lines of `gt run list` (the caller reports an empty listing).
pub open spec fn run_list_spec(runs: Seq<WorkflowRun>, is_tty: bool, now: i64) -> Seq<Seq<char>> {
    (if is_tty {
        seq![run_header_spec()]
    } else {
        seq![]
    }) + rows_of(runs, now, |r: WorkflowRun, n: i64| run_row_spec(r, n))
}

/// The lines of `gt run list`.
pub fn run_list_lines(runs: &[WorkflowRun], is_tty: bool, now: i64) -> (r: Vec<String>)
    requires
        forall|k: int| 0 <= k < runs@.len() ==> run_row_ok(#[trigger] runs@[k]),
    ensures
        strs(r@) == run_list_spec(runs@, is_tty, now),
{
    let mut out: Vec<String> = Vec::new();
    if is_tty {
        let mut h = pad_right_exec(&chars_of("ID"), 8);
        extend_str(&mut h, " ");
        extend_chars(&mut h, &pad_right_exec(&chars_of("TITLE"), 30));
        extend_str(&mut h, " ");
        extend_chars(&mut h, &pad_right_exec(&chars_of("STATUS"), 12));
        extend_str(&mut h, " ");
        extend_chars(&mut h, &pad_right_exec(&chars_of("BRANCH"), 10));
        extend_str(&mut h, " STARTED");
        push_line(&mut out, &h);
    }
    let ghost head = strs(out@);
    let ghost rows = rows_of(runs@, now, |r: WorkflowRun, n: i64| run_row_spec(r, n));
    let mut k: usize = 0;
    while k < runs.len()
        invariant
            k <= runs@.len(),
            forall|j: int| 0 <= j < runs@.len() ==> run_row_ok(#[trigger] runs@[j]),
            rows == rows_of(runs@, now, |r: WorkflowRun, n: i64| run_row_spec(r, n)),
            strs(out@) == head + rows.take(k as int),
        decreases runs.len() - k,
    {
        let r = run_row(&runs[k], now);
        let ghost before = strs(out@);
        out.push(r);
        assert(strs(out@) =~= before.push(rows[k as int]));
        assert(rows.take(k + 1) =~= rows.take(k as int).push(rows[k as int]));
        k += 1;
    }
    assert(rows.take(runs.len() as int) =~= rows);
    out
}

/// The lines of `gt run view`.
pub open spec fn run_view_spec(r: WorkflowRun) -> Seq<Seq<char>> {
    let c = opt_or(r.conclusion, ""@);
    seq![
        opt_or(r.display_title, "(unnamed)"@) + " (#"@ + dec_int(num(r.id)) + ")"@,
        "Status: "@ + opt_or(r.status, "unknown"@) + (if c.len() == 0 {
            ""@
        } else {
            " ("@ + c + ")"@
        }),
        "Branch: "@ + opt_or(r.head_branch, ""@),
        "Event: "@ + opt_or(r.event, ""@),
    ] + match r.html_url {
        Some(u) => seq![""@, u@],
        None => seq![],
    }
}

/// The lines of `gt run view`.
pub fn run_view_lines(r: &WorkflowRun) -> (out: Vec<String>)
    ensures
        strs(out@) == run_view_spec(*r),
{
    let mut out: Vec<String> = Vec::new();
    let mut a = opt_or_exec(&r.display_title, "(unnamed)");
    extend_str(&mut a, " (#");
    extend_chars(&mut a, &dec_i64(match r.id {
        Some(x) => x,
        None => 0,
    }));
    extend_str(&mut a, ")");
    push_line(&mut out, &a);
    let c = opt_or_exec(&r.conclusion, "");
    let mut b = chars_of("Status: ");
    extend_chars(&mut b, &opt_or_exec(&r.status, "unknown"));
    if c.len() == 0 {
        assert(b@ =~= b@ + ""@) by {
            reveal_strlit("");
        }
    } else {
        extend_str(&mut b, " (");
        extend_chars(&mut b, &c);
        extend_str(&mut b, ")");
    }
    push_line(&mut out, &b);
    let mut d = chars_of("Branch: ");
    extend_chars(&mut d, &opt_or_exec(&r.head_branch, ""));
    push_line(&mut out, &d);
    let mut e = chars_of("Event: ");
    extend_chars(&mut e, &opt_or_exec(&r.event, ""));
    push_line(&mut out, &e);
    match &r.html_url {
        Some(u) => {
            push_line(&mut out, &chars_of(""));
            push_line(&mut out, &chars_of(u.as_str()));
        },
        None => {},
    }
    proof {
        let ghost l = strs(out@);
        assert(l[0] == run_view_spec(*r)[0]);
        assert(l[1] == run_view_spec(*r)[1]);
        assert(l[2] == run_view_spec(*r)[2]);
        assert(l[3] == run_view_spec(*r)[3]);
    }
    assert(strs(out@) =~= run_view_spec(*r));
    out
}

/// The API path listing the artifacts of a run.
pub open spec fn artifacts_path_spec(repo: RepoInfo, id: i64) -> Seq<char> {
    "repos/"@ + repo.owner@ + "/"@ + repo.name@ + "/actions/runs/"@ + dec_int(id as int)
        + "/artifacts"@
}

/// The API path listing the artifacts of a run.
pub fn artifacts_path(repo: &RepoInfo, id: i64) -> (r: String)
    ensures
        r@ == artifacts_path_spec(*repo, id),
{
    let mut v = chars_of("repos/");
    extend_str(&mut v, repo.owner.as_str());
    extend_str(&mut v, "/");
    extend_str(&mut v, repo.name.as_str());
    extend_str(&mut v, "/actions/runs/");
    extend_chars(&mut v, &dec_i64(id));
    extend_str(&mut v, "/artifacts");
    string_of(&v)
}

/// An artifact to download: its file name and its API path.
#[derive(Debug, Clone)]
pub struct ArtifactDownload {
    /// `NAME.zip`.
    pub filename: String,
    /// `repos/OWNER/REPO/actions/artifacts/ID`.
    pub path: String,
    /// The artifact's name, for messages.
    pub name: String,
}

/// The name of an artifact object (`artifact` when it has no string name).
pub open spec fn artifact_name(a: Json) -> Seq<char> {
    match a {
        Json::Object(fields) => match member(fields, "name"@) {
            Some(Json::Str(s)) => s,
            _ => "artifact"@,
        },
        _ => "artifact"@,
    }
}

/// The id of an artifact object: its `id` member, when it is a number that
/// is an `i64`.
pub open spec fn artifact_id(a: Json) -> Option<i64> {
    match a {
        Json::Object(fields) => match member(fields, "id"@) {
            Some(Json::Number(n)) => parse_i64_spec(n),
            _ => None,
        },
        _ => None,
    }
}

/// The download planned for one artifact object.
pub open spec fn download_ok(repo: RepoInfo, a: Json, d: ArtifactDownload) -> bool {
    &&& artifact_id(a) is Some
    &&& d.name@ == artifact_name(a)
    &&& d.filename@ == artifact_name(a) + ".zip"@
    &&& d.path@ == "repos/"@ + repo.owner@ + "/"@ + repo.name@ + "/actions/artifacts/"@ + dec_int(
        artifact_id(a)->Some_0 as int,
    )
}

/// The downloads that the artifact listing `data` asks for, one per
/// artifact, in order.
pub open spec fn artifact_plan_ok(repo: RepoInfo, items: Seq<Json>, plan: Seq<ArtifactDownload>) -> bool {
    plan.len() == items.len() && forall|k: int|
        0 <= k < items.len() ==> download_ok(repo, items[k], #[trigger] plan[k])
}

/// Why the artifacts cannot be downloaded.
#[derive(Debug, Clone, PartialEq, Eq)]
pub enum ArtifactError {
    /// The listing has no `artifacts` array.
    NoArtifacts,
    /// An artifact has no numeric id.
    MissingId,
}

/// The artifacts array of a listing.
pub open spec fn artifact_items(data: Json) -> Option<Seq<Json>> {
    match data {
        Json::Object(fields) => match member(fields, "artifacts"@) {
            Some(Json::Array(items)) => Some(items),
            _ => None,
        },
        _ => None,
    }
}

/// The value of the member `key` of an object.
fn member_exec<'a>(value: &'a JsonValue, key: &str) -> (r: Option<&'a JsonValue>)
    ensures
        match value.jv() {
            Json::Object(fields) => match member(fields, key@) {
                Some(j) => r matches Some(x) && x.jv() == j,
                None => r is None,
            },
            _ => r is None,
        },
{
    match value {
        JsonValue::Object(fields) => {
            let ghost fv = fields@.map_values(|p: (String, JsonValue)| (p.0@, p.1.jv()));
            assert(value.jv() == Json::Object(fv)) by {
                assert(value.jv()->Object_0 =~= fv);
            }
            find_member(fields, &chars_of(key))
        },
        _ => None,
    }
}

/// Plans the downloads of `gt run download` from the artifact listing.
pub fn plan_artifacts(repo: &RepoInfo, data: &JsonValue) -> (r: Result<Vec<ArtifactDownload>, ArtifactError>)
    ensures
        match artifact_items(data.jv()) {
            None => r == Err::<Vec<ArtifactDownload>, ArtifactError>(ArtifactError::NoArtifacts),
            Some(items) => if exists|k: int| 0 <= k < items.len() && artifact_id(#[trigger] items[k]) is None {
                r == Err::<Vec<ArtifactDownload>, ArtifactError>(ArtifactError::MissingId)
            } else {
                r matches Ok(plan) && artifact_plan_ok(*repo, items, plan@)
            },
        },
{
    let arts = match member_exec(data, "artifacts") {
        Some(a) => a,
        None => {
            return Err(ArtifactError::NoArtifacts);
        },
    };
    let items = match arts {
        JsonValue::Array(items) => items,
        _ => {
            return Err(ArtifactError::NoArtifacts);
        },
    };
    let ghost iv = Seq::new(items@.len(), |i: int| items@[i].jv());
    assert(arts.jv() == Json::Array(iv)) by {
        assert(arts.jv()->Array_0 =~= iv);
    }
    let mut plan: Vec<ArtifactDownload> = Vec::new();
    let mut k: usize = 0;
    while k < items.len()
        invariant
            k <= items@.len(),
            iv == Seq::new(items@.len(), |i: int| items@[i].jv()),
            artifact_items(data.jv()) == Some(iv),
            plan@.len() == k,
            forall|j: int| 0 <= j < k ==> download_ok(*repo, iv[j], #[trigger] plan@[j]),
        decreases items.len() - k,
    {
        let it = &items[k];
        assert(it.jv() == iv[k as int]);
        let name = match member_exec(it, "name") {
            Some(JsonValue::Str(s)) => chars_of(s.as_str()),
            _ => chars_of("artifact"),
        };
        let id = match member_exec(it, "id") {
            Some(JsonValue::Number(n)) => parse_i64(&chars_of(n.as_str())),
            _ => None,
        };
        assert(name@ == artifact_name(iv[k as int]));
        assert(id == artifact_id(iv[k as int]));
        let id = match id {
            Some(x) => x,
            None => {
                assert(artifact_id(iv[k as int]) is None);
                return Err(ArtifactError::MissingId);
            },
        };
        let mut f = name.clone();
        extend_str(&mut f, ".zip");
        let mut p = chars_of("repos/");
        extend_str(&mut p, repo.owner.as_str());
        extend_str(&mut p, "/");
        extend_str(&mut p, repo.name.as_str());
        extend_str(&mut p, "/actions/artifacts/");
        extend_chars(&mut p, &dec_i64(id));
        let ghost before = plan@;
        plan.push(ArtifactDownload { filename: string_of(&f), path: string_of(&p), name: string_of(&name) });
        assert(download_ok(*repo, iv[k as int], plan@[k as int]));
        assert(forall|j: int| 0 <= j < k ==> plan@[j] == before[j]);
        k += 1;
    }
    assert forall|j: int| 0 <= j < iv.len() implies artifact_id(#[trigger] iv[j]) is Some by {
        assert(download_ok(*repo, iv[j], plan@[j]));
    }
    Ok(plan)
}

} // verus!
