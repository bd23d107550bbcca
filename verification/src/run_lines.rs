//! The rendered status block of a run, line by line: the compact block is
//! the full one with lines left out (and a fallback line when every job is
//! hidden), and the full block has one line per job and per step after the
//! three header lines.
use vstd::prelude::*;

use crate::repo::{split_on, split_on_from};
use crate::run::{
    any_job_shown, job_hidden, job_icon_spec, job_line, jobs_text, render_spec, run_header,
    step_is_hidden_spec, step_line, step_lines, WorkflowJob, WorkflowRun, WorkflowStep,
};
use crate::text::{contains, dec_int, dec_nat, lemma_dec_nat_digits, occurs_at, opt_or};
use crate::verbose::{strip_cr, text_lines};

verus! {

/// The lines `ls`, each followed by a newline.
pub open spec fn nl_join(ls: Seq<Seq<char>>) -> Seq<char>
    decreases ls.len(),
{
    if ls.len() == 0 {
        seq![]
    } else {
        ls[0] + seq!['\n'] + nl_join(ls.drop_first())
    }
}

/// `s` holds no newline.
pub open spec fn nl_free(s: Seq<char>) -> bool {
    !s.contains('\n')
}

/// No line of `ls` holds a newline.
pub open spec fn all_nl_free(ls: Seq<Seq<char>>) -> bool {
    forall|i: int| 0 <= i < ls.len() ==> nl_free(#[trigger] ls[i])
}

proof fn lemma_nl_join_add(a: Seq<Seq<char>>, b: Seq<Seq<char>>)
    ensures
        nl_join(a + b) == nl_join(a) + nl_join(b),
    decreases a.len(),
{
    if a.len() == 0 {
        assert(a + b =~= b);
    } else {
        assert((a + b).drop_first() =~= a.drop_first() + b);
        lemma_nl_join_add(a.drop_first(), b);
    }
}

proof fn lemma_nl_join_single(x: Seq<char>)
    ensures
        nl_join(seq![x]) == x + seq!['\n'],
{
    let s1 = seq![x];
    assert(s1[0] == x);
    assert(s1.drop_first() =~= Seq::<Seq<char>>::empty());
    assert(nl_join(s1.drop_first()) == Seq::<char>::empty());
    assert(nl_join(s1) == s1[0] + seq!['\n'] + nl_join(s1.drop_first()));
    assert(nl_join(s1) =~= x + seq!['\n']);
}

proof fn lemma_nl_join_push(a: Seq<Seq<char>>, x: Seq<char>)
    ensures
        nl_join(a.push(x)) == nl_join(a) + x + seq!['\n'],
{
    lemma_nl_join_add(a, seq![x]);
    assert(a.push(x) =~= a + seq![x]);
    lemma_nl_join_single(x);
    assert(nl_join(a) + (x + seq!['\n']) =~= nl_join(a) + x + seq!['\n']);
}

proof fn lemma_split_line(l: Seq<char>, rest: Seq<char>, cur: Seq<char>)
    requires
        nl_free(l),
    ensures
        split_on_from(l + seq!['\n'] + rest, '\n', cur) == seq![cur + l] + split_on_from(
            rest,
            '\n',
            seq![],
        ),
    decreases l.len(),
{
    let s = l + seq!['\n'] + rest;
    if l.len() == 0 {
        assert(s.drop_first() =~= rest);
        assert(cur + l =~= cur);
    } else {
        assert(l[0] != '\n') by {
            if l[0] == '\n' {
                assert(l.contains(l[0]));
            }
        }
        let t = l.drop_first();
        assert(nl_free(t)) by {
            if t.contains('\n') {
                let k = choose|k: int| 0 <= k < t.len() && t[k] == '\n';
                assert(l[k + 1] == '\n');
                assert(l.contains(l[k + 1]));
            }
        }
        assert(s.drop_first() =~= t + seq!['\n'] + rest);
        lemma_split_line(t, rest, cur.push(l[0]));
        assert(cur.push(l[0]) + t =~= cur + l);
    }
}

proof fn lemma_split_nl_join(ls: Seq<Seq<char>>)
    requires
        all_nl_free(ls),
    ensures
        split_on(nl_join(ls), '\n') == ls.push(seq![]),
    decreases ls.len(),
{
    if ls.len() == 0 {
    } else {
        let t = ls.drop_first();
        assert(all_nl_free(t)) by {
            assert forall|i: int| 0 <= i < t.len() implies nl_free(#[trigger] t[i]) by {
                assert(t[i] == ls[i + 1]);
            }
        }
        lemma_split_nl_join(t);
        assert(nl_free(ls[0]));
        lemma_split_line(ls[0], nl_join(t), seq![]);
        assert(seq![] + ls[0] =~= ls[0]);
        assert(seq![ls[0]] + t.push(seq![]) =~= ls.push(seq![]));
    }
}

/// The lines of text made of newline-ended lines without newlines inside
/// are those lines, as `str::lines` gives them (a carriage return at a
/// line's end dropped).
pub proof fn lemma_text_lines_nl_join(ls: Seq<Seq<char>>)
    requires
        all_nl_free(ls),
    ensures
        text_lines(nl_join(ls)) == ls.map_values(|l: Seq<char>| strip_cr(l)),
{
    lemma_split_nl_join(ls);
    let parts = ls.push(seq![]);
    assert(parts.take(parts.len() - 1) =~= ls);
    reveal_strlit("");
    assert(text_lines(nl_join(ls)) =~= ls.map_values(|l: Seq<char>| strip_cr(l)));
}

// ---------------------------------------------------------------------------
// The lines of the block

/// The first header line: id and title.
pub open spec fn title_piece(run: WorkflowRun) -> Seq<char> {
    let id = match run.id {
        Some(i) => i as int,
        None => 0,
    };
    "Run #"@ + dec_int(id) + " — "@ + opt_or(run.display_title, "(unnamed)"@)
}

/// The second header line: status and conclusion.
pub open spec fn status_piece(run: WorkflowRun) -> Seq<char> {
    let status = opt_or(run.status, "unknown"@);
    let conclusion = opt_or(run.conclusion, ""@);
    if conclusion.len() == 0 {
        "Status: "@ + status
    } else {
        "Status: "@ + status + " ("@ + conclusion + ")"@
    }
}

/// The three header lines, the last one empty.
pub open spec fn header_lines(run: WorkflowRun) -> Seq<Seq<char>> {
    seq![title_piece(run), status_piece(run), ""@]
}

/// The line of a job, without its newline.
pub open spec fn job_piece(job: WorkflowJob) -> Seq<char> {
    let name = opt_or(job.name, "(unnamed job)"@);
    let s = opt_or(job.status, ""@);
    let c = opt_or(job.conclusion, ""@);
    let icon = job_icon_spec(s, c);
    if c.len() == 0 {
        "  "@ + icon + " "@ + name + " ("@ + s + ")"@
    } else if c == "success"@ {
        "  "@ + icon + " "@ + name
    } else {
        "  "@ + icon + " "@ + name + " ("@ + c + ")"@
    }
}

/// The line of a step, without its newline.
pub open spec fn step_piece(step: WorkflowStep) -> Seq<char> {
    let name = opt_or(step.name, "(unnamed step)"@);
    let icon = job_icon_spec(opt_or(step.status, ""@), opt_or(step.conclusion, ""@));
    "    "@ + icon + " "@ + name
}

/// The lines of the steps shown.
pub open spec fn step_pieces(steps: Seq<WorkflowStep>, compact: bool) -> Seq<Seq<char>>
    decreases steps.len(),
{
    if steps.len() == 0 {
        seq![]
    } else {
        let prev = step_pieces(steps.drop_last(), compact);
        if compact && step_is_hidden_spec(steps.last()) {
            prev
        } else {
            prev.push(step_piece(steps.last()))
        }
    }
}

/// The lines of the jobs shown, each followed by its steps.
pub open spec fn job_pieces(jobs: Seq<WorkflowJob>, compact: bool) -> Seq<Seq<char>>
    decreases jobs.len(),
{
    if jobs.len() == 0 {
        seq![]
    } else {
        let prev = job_pieces(jobs.drop_last(), compact);
        let j = jobs.last();
        if job_hidden(j, compact) {
            prev
        } else {
            prev.push(job_piece(j)) + step_pieces(j.steps@, compact)
        }
    }
}

/// The line that stands in when compact mode hides every job.
pub open spec fn fallback_line() -> Seq<char> {
    "  (all steps passing so far)"@
}

/// The lines of the block, without their newlines.
pub open spec fn render_lines(run: WorkflowRun, jobs: Seq<WorkflowJob>, compact: bool) -> Seq<
    Seq<char>,
> {
    header_lines(run) + job_pieces(jobs, compact) + (if compact && !any_job_shown(jobs, compact) {
        seq![fallback_line()]
    } else {
        seq![]
    })
}

/// The number of steps of all the jobs.
pub open spec fn total_steps(jobs: Seq<WorkflowJob>) -> nat
    decreases jobs.len(),
{
    if jobs.len() == 0 {
        0
    } else {
        total_steps(jobs.drop_last()) + jobs.last().steps@.len()
    }
}

// ---------------------------------------------------------------------------
// The block is its lines

proof fn lemma_header_text(run: WorkflowRun)
    ensures
        run_header(run) == nl_join(header_lines(run)),
{
    reveal_strlit(")\n");
    reveal_strlit(")");
    reveal_strlit("\n");
    reveal_strlit("");
    let h = header_lines(run);
    let h1 = h.drop_first();
    let h2 = h1.drop_first();
    assert(h2 =~= seq![""@]);
    lemma_nl_join_single(""@);
    assert(nl_join(h2) =~= seq!['\n']);
    assert(h1[0] == status_piece(run));
    assert(nl_join(h1) == h1[0] + seq!['\n'] + nl_join(h2));
    assert(h[0] == title_piece(run));
    assert(nl_join(h) == h[0] + seq!['\n'] + nl_join(h1));
    assert(nl_join(h) =~= title_piece(run) + seq!['\n'] + (status_piece(run) + seq!['\n'] + seq![
        '\n',
    ]));
    assert(run_header(run) =~= nl_join(h));
}

proof fn lemma_step_text(steps: Seq<WorkflowStep>, compact: bool)
    ensures
        step_lines(steps, compact) == nl_join(step_pieces(steps, compact)),
    decreases steps.len(),
{
    if steps.len() > 0 {
        lemma_step_text(steps.drop_last(), compact);
        let prev = step_pieces(steps.drop_last(), compact);
        lemma_nl_join_push(prev, step_piece(steps.last()));
        reveal_strlit("\n");
        assert(step_line(steps.last()) =~= step_piece(steps.last()) + seq!['\n']);
        assert(nl_join(prev) + step_line(steps.last()) =~= nl_join(prev) + step_piece(
            steps.last(),
        ) + seq!['\n']);
    }
}

proof fn lemma_job_line_piece(job: WorkflowJob)
    ensures
        job_line(job) == job_piece(job) + seq!['\n'],
{
    reveal_strlit(")\n");
    reveal_strlit(")");
    reveal_strlit("\n");
    assert(job_line(job) =~= job_piece(job) + seq!['\n']);
}

proof fn lemma_jobs_text(jobs: Seq<WorkflowJob>, compact: bool)
    ensures
        jobs_text(jobs, compact) == nl_join(job_pieces(jobs, compact)),
    decreases jobs.len(),
{
    if jobs.len() > 0 {
        lemma_jobs_text(jobs.drop_last(), compact);
        let j = jobs.last();
        if !job_hidden(j, compact) {
            let prev = job_pieces(jobs.drop_last(), compact);
            lemma_nl_join_push(prev, job_piece(j));
            lemma_nl_join_add(prev.push(job_piece(j)), step_pieces(j.steps@, compact));
            lemma_step_text(j.steps@, compact);
            lemma_job_line_piece(j);
            assert(nl_join(prev) + job_line(j) + step_lines(j.steps@, compact) =~= nl_join(prev)
                + job_piece(j) + seq!['\n'] + nl_join(step_pieces(j.steps@, compact)));
        }
    }
}

proof fn lemma_render_text(run: WorkflowRun, jobs: Seq<WorkflowJob>, compact: bool)
    ensures
        render_spec(run, jobs, compact) == nl_join(render_lines(run, jobs, compact)),
{
    lemma_header_text(run);
    lemma_jobs_text(jobs, compact);
    let tail: Seq<Seq<char>> = if compact && !any_job_shown(jobs, compact) {
        seq![fallback_line()]
    } else {
        seq![]
    };
    lemma_nl_join_add(header_lines(run), job_pieces(jobs, compact));
    lemma_nl_join_add(header_lines(run) + job_pieces(jobs, compact), tail);
    reveal_strlit("  (all steps passing so far)\n");
    reveal_strlit("  (all steps passing so far)");
    reveal_strlit("");
    assert(seq![fallback_line()].drop_first() =~= Seq::<Seq<char>>::empty());
    if compact && !any_job_shown(jobs, compact) {
        lemma_nl_join_single(fallback_line());
        assert(nl_join(tail) =~= "  (all steps passing so far)\n"@);
    } else {
        assert(nl_join(tail) =~= ""@);
    }
    assert(render_spec(run, jobs, compact) =~= nl_join(render_lines(run, jobs, compact)));
}

// ---------------------------------------------------------------------------
// No line holds a newline

/// The field holds no newline.
pub open spec fn opt_nl_free(o: Option<String>) -> bool {
    match o {
        Some(s) => nl_free(s@),
        None => true,
    }
}

/// No name, status or conclusion of the step holds a newline.
pub open spec fn step_fields_nl_free(st: WorkflowStep) -> bool {
    opt_nl_free(st.name) && opt_nl_free(st.status) && opt_nl_free(st.conclusion)
}

/// No name, status or conclusion of the job or its steps holds a newline.
pub open spec fn job_fields_nl_free(j: WorkflowJob) -> bool {
    &&& opt_nl_free(j.name) && opt_nl_free(j.status) && opt_nl_free(j.conclusion)
    &&& forall|k: int| 0 <= k < j.steps@.len() ==> step_fields_nl_free(#[trigger] j.steps@[k])
}

/// No title, status or conclusion of the run and no field of its jobs and
/// steps holds a newline.
pub open spec fn fields_nl_free(run: WorkflowRun, jobs: Seq<WorkflowJob>) -> bool {
    &&& opt_nl_free(run.display_title) && opt_nl_free(run.status) && opt_nl_free(run.conclusion)
    &&& forall|k: int| 0 <= k < jobs.len() ==> job_fields_nl_free(#[trigger] jobs[k])
}

proof fn lemma_nl_free_add(a: Seq<char>, b: Seq<char>)
    requires
        nl_free(a),
        nl_free(b),
    ensures
        nl_free(a + b),
{
    if (a + b).contains('\n') {
        let k = choose|k: int| 0 <= k < (a + b).len() && (a + b)[k] == '\n';
        if k < a.len() {
            assert(a.contains(a[k]));
        } else {
            assert(b[k - a.len()] == '\n');
            assert(b.contains(b[k - a.len()]));
        }
    }
}

proof fn lemma_opt_or_nl_free(o: Option<String>, d: Seq<char>)
    requires
        opt_nl_free(o),
        nl_free(d),
    ensures
        nl_free(opt_or(o, d)),
{
}

proof fn lemma_dec_int_nl_free(n: int)
    ensures
        nl_free(dec_int(n)),
{
    let m: nat = if n < 0 {
        (-n) as nat
    } else {
        n as nat
    };
    lemma_dec_nat_digits(m);
    let d = dec_nat(m);
    assert(nl_free(d)) by {
        if d.contains('\n') {
            let k = choose|k: int| 0 <= k < d.len() && d[k] == '\n';
            assert('0' <= d[k] <= '9');
        }
    }
    if n < 0 {
        lemma_nl_free_add(seq!['-'], d);
    }
}

proof fn lemma_icon_nl_free(s: Seq<char>, c: Seq<char>)
    ensures
        nl_free(job_icon_spec(s, c)),
{
    reveal_strlit("✓");
    reveal_strlit("✗");
    reveal_strlit("⊘");
    reveal_strlit("●");
    reveal_strlit("○");
    reveal_strlit("?");
}

proof fn lemma_literals_nl_free()
    ensures
        nl_free("Run #"@),
        nl_free(" — "@),
        nl_free("(unnamed)"@),
        nl_free("unknown"@),
        nl_free(""@),
        nl_free("Status: "@),
        nl_free(" ("@),
        nl_free(")"@),
        nl_free("  "@),
        nl_free(" "@),
        nl_free("    "@),
        nl_free("(unnamed job)"@),
        nl_free("(unnamed step)"@),
        nl_free("  (all steps passing so far)"@),
{
    reveal_strlit("Run #");
    reveal_strlit(" — ");
    reveal_strlit("(unnamed)");
    reveal_strlit("unknown");
    reveal_strlit("");
    reveal_strlit("Status: ");
    reveal_strlit(" (");
    reveal_strlit(")");
    reveal_strlit("  ");
    reveal_strlit(" ");
    reveal_strlit("    ");
    reveal_strlit("(unnamed job)");
    reveal_strlit("(unnamed step)");
    reveal_strlit("  (all steps passing so far)");
}

proof fn lemma_step_piece_nl_free(st: WorkflowStep)
    requires
        step_fields_nl_free(st),
    ensures
        nl_free(step_piece(st)),
{
    lemma_literals_nl_free();
    let name = opt_or(st.name, "(unnamed step)"@);
    let icon = job_icon_spec(opt_or(st.status, ""@), opt_or(st.conclusion, ""@));
    lemma_icon_nl_free(opt_or(st.status, ""@), opt_or(st.conclusion, ""@));
    lemma_nl_free_add("    "@, icon);
    lemma_nl_free_add("    "@ + icon, " "@);
    lemma_nl_free_add("    "@ + icon + " "@, name);
}

proof fn lemma_job_piece_nl_free(j: WorkflowJob)
    requires
        opt_nl_free(j.name) && opt_nl_free(j.status) && opt_nl_free(j.conclusion),
    ensures
        nl_free(job_piece(j)),
{
    lemma_literals_nl_free();
    let name = opt_or(j.name, "(unnamed job)"@);
    let s = opt_or(j.status, ""@);
    let c = opt_or(j.conclusion, ""@);
    let icon = job_icon_spec(s, c);
    lemma_icon_nl_free(s, c);
    lemma_nl_free_add("  "@, icon);
    lemma_nl_free_add("  "@ + icon, " "@);
    lemma_nl_free_add("  "@ + icon + " "@, name);
    let base = "  "@ + icon + " "@ + name;
    lemma_nl_free_add(base, " ("@);
    lemma_nl_free_add(base + " ("@, s);
    lemma_nl_free_add(base + " ("@ + s, ")"@);
    lemma_nl_free_add(base + " ("@, c);
    lemma_nl_free_add(base + " ("@ + c, ")"@);
}

proof fn lemma_step_pieces_nl_free(steps: Seq<WorkflowStep>, compact: bool)
    requires
        forall|k: int| 0 <= k < steps.len() ==> step_fields_nl_free(#[trigger] steps[k]),
    ensures
        all_nl_free(step_pieces(steps, compact)),
    decreases steps.len(),
{
    if steps.len() > 0 {
        lemma_step_pieces_nl_free(steps.drop_last(), compact);
        assert(step_fields_nl_free(steps[steps.len() - 1]));
        lemma_step_piece_nl_free(steps.last());
    }
}

proof fn lemma_all_nl_free_add(a: Seq<Seq<char>>, b: Seq<Seq<char>>)
    requires
        all_nl_free(a),
        all_nl_free(b),
    ensures
        all_nl_free(a + b),
{
    assert forall|i: int| 0 <= i < (a + b).len() implies nl_free(#[trigger] (a + b)[i]) by {
        if i < a.len() {
            assert((a + b)[i] == a[i]);
        } else {
            assert((a + b)[i] == b[i - a.len()]);
        }
    }
}

proof fn lemma_job_pieces_nl_free(jobs: Seq<WorkflowJob>, compact: bool)
    requires
        forall|k: int| 0 <= k < jobs.len() ==> job_fields_nl_free(#[trigger] jobs[k]),
    ensures
        all_nl_free(job_pieces(jobs, compact)),
    decreases jobs.len(),
{
    if jobs.len() > 0 {
        let j = jobs.last();
        assert(job_fields_nl_free(jobs[jobs.len() - 1]));
        lemma_job_pieces_nl_free(jobs.drop_last(), compact);
        if !job_hidden(j, compact) {
            lemma_job_piece_nl_free(j);
            lemma_step_pieces_nl_free(j.steps@, compact);
            let prev = job_pieces(jobs.drop_last(), compact);
            lemma_all_nl_free_add(prev, seq![job_piece(j)]);
            assert(prev.push(job_piece(j)) =~= prev + seq![job_piece(j)]);
            lemma_all_nl_free_add(prev.push(job_piece(j)), step_pieces(j.steps@, compact));
        }
    }
}

proof fn lemma_render_lines_nl_free(run: WorkflowRun, jobs: Seq<WorkflowJob>, compact: bool)
    requires
        fields_nl_free(run, jobs),
    ensures
        all_nl_free(render_lines(run, jobs, compact)),
{
    lemma_literals_nl_free();
    let id = match run.id {
        Some(i) => i as int,
        None => 0,
    };
    lemma_dec_int_nl_free(id);
    lemma_nl_free_add("Run #"@, dec_int(id));
    lemma_nl_free_add("Run #"@ + dec_int(id), " — "@);
    lemma_nl_free_add("Run #"@ + dec_int(id) + " — "@, opt_or(run.display_title, "(unnamed)"@));
    let st = opt_or(run.status, "unknown"@);
    let c = opt_or(run.conclusion, ""@);
    lemma_nl_free_add("Status: "@, st);
    lemma_nl_free_add("Status: "@ + st, " ("@);
    lemma_nl_free_add("Status: "@ + st + " ("@, c);
    lemma_nl_free_add("Status: "@ + st + " ("@ + c, ")"@);
    let h = header_lines(run);
    assert(all_nl_free(h));
    lemma_job_pieces_nl_free(jobs, compact);
    lemma_all_nl_free_add(h, job_pieces(jobs, compact));
    let tail: Seq<Seq<char>> = if compact && !any_job_shown(jobs, compact) {
        seq![fallback_line()]
    } else {
        seq![]
    };
    assert(all_nl_free(tail));
    lemma_all_nl_free_add(h + job_pieces(jobs, compact), tail);
}

// ---------------------------------------------------------------------------
// Subsequences and counts

/// `m` picks the items of `a` out of `b`, in order.
pub open spec fn picks<A>(m: Seq<int>, a: Seq<A>, b: Seq<A>) -> bool {
    &&& m.len() == a.len()
    &&& forall|i: int, j: int| 0 <= i < j < m.len() ==> m[i] < m[j]
    &&& forall|i: int| 0 <= i < m.len() ==> 0 <= #[trigger] m[i] < b.len() && b[m[i]] == a[i]
}

/// `a` is `b` with some items left out.
pub open spec fn is_subsequence<A>(a: Seq<A>, b: Seq<A>) -> bool {
    exists|m: Seq<int>| picks(m, a, b)
}

proof fn lemma_subseq_empty<A>(b: Seq<A>)
    ensures
        is_subsequence(Seq::<A>::empty(), b),
{
    assert(picks(Seq::<int>::empty(), Seq::<A>::empty(), b));
}

proof fn lemma_subseq_refl<A>(a: Seq<A>)
    ensures
        is_subsequence(a, a),
{
    let m = Seq::new(a.len(), |i: int| i);
    assert(picks(m, a, a));
}

proof fn lemma_subseq_add<A>(a1: Seq<A>, b1: Seq<A>, a2: Seq<A>, b2: Seq<A>)
    requires
        is_subsequence(a1, b1),
        is_subsequence(a2, b2),
    ensures
        is_subsequence(a1 + a2, b1 + b2),
{
    let m1 = choose|m: Seq<int>| picks(m, a1, b1);
    let m2 = choose|m: Seq<int>| picks(m, a2, b2);
    let n = b1.len() as int;
    let m = m1 + Seq::new(m2.len(), |i: int| m2[i] + n);
    let a = a1 + a2;
    let b = b1 + b2;
    assert forall|i: int| 0 <= i < m.len() implies 0 <= #[trigger] m[i] < b.len() && b[m[i]]
        == a[i] by {
        if i < m1.len() {
            assert(m[i] == m1[i]);
        } else {
            assert(m[i] == m2[i - m1.len()] + n);
        }
    }
    assert forall|i: int, j: int| 0 <= i < j < m.len() implies m[i] < m[j] by {
        if j < m1.len() {
        } else if i < m1.len() {
            assert(m[i] == m1[i]);
            assert(m[j] == m2[j - m1.len()] + n);
        } else {
            assert(m[i] == m2[i - m1.len()] + n);
            assert(m[j] == m2[j - m1.len()] + n);
        }
    }
    assert(picks(m, a, b));
}

proof fn lemma_subseq_map<A, B>(a: Seq<A>, b: Seq<A>, f: spec_fn(A) -> B)
    requires
        is_subsequence(a, b),
    ensures
        is_subsequence(a.map_values(f), b.map_values(f)),
{
    let m = choose|m: Seq<int>| picks(m, a, b);
    assert(picks(m, a.map_values(f), b.map_values(f)));
}

proof fn lemma_steps_compact_within_full(steps: Seq<WorkflowStep>)
    ensures
        is_subsequence(step_pieces(steps, true), step_pieces(steps, false)),
        step_pieces(steps, false).len() == steps.len(),
    decreases steps.len(),
{
    if steps.len() == 0 {
        lemma_subseq_empty(Seq::<Seq<char>>::empty());
    } else {
        lemma_steps_compact_within_full(steps.drop_last());
        let c = step_pieces(steps.drop_last(), true);
        let f = step_pieces(steps.drop_last(), false);
        let p = step_piece(steps.last());
        assert(f.push(p) =~= f + seq![p]);
        if step_is_hidden_spec(steps.last()) {
            lemma_subseq_empty(seq![p]);
            lemma_subseq_add(c, f, Seq::<Seq<char>>::empty(), seq![p]);
            assert(c + Seq::<Seq<char>>::empty() =~= c);
        } else {
            lemma_subseq_refl(seq![p]);
            lemma_subseq_add(c, f, seq![p], seq![p]);
            assert(c.push(p) =~= c + seq![p]);
        }
    }
}

proof fn lemma_jobs_compact_within_full(jobs: Seq<WorkflowJob>)
    ensures
        is_subsequence(job_pieces(jobs, true), job_pieces(jobs, false)),
        job_pieces(jobs, false).len() == jobs.len() + total_steps(jobs),
    decreases jobs.len(),
{
    if jobs.len() == 0 {
        lemma_subseq_empty(Seq::<Seq<char>>::empty());
    } else {
        lemma_jobs_compact_within_full(jobs.drop_last());
        let j = jobs.last();
        let c = job_pieces(jobs.drop_last(), true);
        let f = job_pieces(jobs.drop_last(), false);
        let p = job_piece(j);
        lemma_steps_compact_within_full(j.steps@);
        let sc = step_pieces(j.steps@, true);
        let sf = step_pieces(j.steps@, false);
        let x = seq![p] + sf;
        assert(f.push(p) + sf =~= f + x);
        if job_hidden(j, true) {
            lemma_subseq_empty(x);
            lemma_subseq_add(c, f, Seq::<Seq<char>>::empty(), x);
            assert(c + Seq::<Seq<char>>::empty() =~= c);
        } else {
            lemma_subseq_refl(seq![p]);
            lemma_subseq_add(seq![p], seq![p], sc, sf);
            lemma_subseq_add(c, f, seq![p] + sc, x);
            assert(c.push(p) + sc =~= c + (seq![p] + sc));
        }
    }
}

/// The compact block of a run is the full block with lines left out: both
/// begin with the same three header lines, every line of the compact block
/// (but the fallback line that stands in when every job is hidden) is a line
/// of the full block, in the same order, and the full block has one line per
/// job and per step after the header. Lines are those `str::lines` gives,
/// when no title, name, status or conclusion holds a newline.
pub proof fn lemma_compact_within_full(run: WorkflowRun, jobs: Seq<WorkflowJob>)
    requires
        fields_nl_free(run, jobs),
    ensures
        text_lines(render_spec(run, jobs, false)).len() == 3 + jobs.len() + total_steps(jobs),
        text_lines(render_spec(run, jobs, true)).len() >= 3,
        text_lines(render_spec(run, jobs, true)).take(3) == text_lines(
            render_spec(run, jobs, false),
        ).take(3),
        if any_job_shown(jobs, true) {
            is_subsequence(
                text_lines(render_spec(run, jobs, true)),
                text_lines(render_spec(run, jobs, false)),
            )
        } else {
            &&& text_lines(render_spec(run, jobs, true)).last() == fallback_line()
            &&& is_subsequence(
                text_lines(render_spec(run, jobs, true)).drop_last(),
                text_lines(render_spec(run, jobs, false)),
            )
        },
{
    let lf = render_lines(run, jobs, false);
    let lc = render_lines(run, jobs, true);
    lemma_render_text(run, jobs, false);
    lemma_render_text(run, jobs, true);
    lemma_render_lines_nl_free(run, jobs, false);
    lemma_render_lines_nl_free(run, jobs, true);
    lemma_text_lines_nl_join(lf);
    lemma_text_lines_nl_join(lc);
    lemma_jobs_compact_within_full(jobs);
    let h = header_lines(run);
    let bc = job_pieces(jobs, true);
    let bf = job_pieces(jobs, false);
    assert(lf =~= h + bf);
    lemma_subseq_refl(h);
    lemma_subseq_add(h, h, bc, bf);
    let strip = |l: Seq<char>| strip_cr(l);
    lemma_subseq_map(h + bc, h + bf, strip);
    let fl = lf.map_values(strip);
    let cl = lc.map_values(strip);
    assert(cl.take(3) =~= fl.take(3));
    if any_job_shown(jobs, true) {
        assert(lc =~= h + bc);
    } else {
        assert(lc =~= (h + bc).push(fallback_line()));
        assert(cl.drop_last() =~= (h + bc).map_values(strip));
        reveal_strlit("  (all steps passing so far)");
        assert(strip_cr(fallback_line()) == fallback_line());
    }
}

// ---------------------------------------------------------------------------
// Steps in flight stay visible

proof fn lemma_step_pieces_has(steps: Seq<WorkflowStep>, k: int)
    requires
        0 <= k < steps.len(),
        !step_is_hidden_spec(steps[k]),
    ensures
        step_pieces(steps, true).contains(step_piece(steps[k])),
    decreases steps.len(),
{
    let prev = step_pieces(steps.drop_last(), true);
    if k == steps.len() - 1 {
        let r = prev.push(step_piece(steps.last()));
        assert(r[r.len() - 1] == step_piece(steps[k]));
    } else {
        assert(steps.drop_last()[k] == steps[k]);
        lemma_step_pieces_has(steps.drop_last(), k);
        let i = choose|i: int| 0 <= i < prev.len() && prev[i] == step_piece(steps[k]);
        if !step_is_hidden_spec(steps.last()) {
            assert(prev.push(step_piece(steps.last()))[i] == prev[i]);
        }
    }
}

proof fn lemma_job_pieces_has(jobs: Seq<WorkflowJob>, j: int, k: int)
    requires
        0 <= j < jobs.len(),
        0 <= k < jobs[j].steps@.len(),
        !step_is_hidden_spec(jobs[j].steps@[k]),
        !job_hidden(jobs[j], true),
    ensures
        job_pieces(jobs, true).contains(step_piece(jobs[j].steps@[k])),
    decreases jobs.len(),
{
    let prev = job_pieces(jobs.drop_last(), true);
    let x = step_piece(jobs[j].steps@[k]);
    if j == jobs.len() - 1 {
        let sp = step_pieces(jobs.last().steps@, true);
        lemma_step_pieces_has(jobs.last().steps@, k);
        let i = choose|i: int| 0 <= i < sp.len() && sp[i] == x;
        let r = prev.push(job_piece(jobs.last())) + sp;
        assert(r[prev.len() + 1 + i] == x);
    } else {
        assert(jobs.drop_last()[j] == jobs[j]);
        lemma_job_pieces_has(jobs.drop_last(), j, k);
        let i = choose|i: int| 0 <= i < prev.len() && prev[i] == x;
        if !job_hidden(jobs.last(), true) {
            let r = prev.push(job_piece(jobs.last())) + step_pieces(jobs.last().steps@, true);
            assert(r[i] == x);
        }
    }
}

proof fn lemma_nl_join_has(ls: Seq<Seq<char>>, p: int)
    requires
        0 <= p < ls.len(),
    ensures
        contains(nl_join(ls), ls[p] + seq!['\n']),
{
    let a = ls.take(p);
    let rest = ls.skip(p);
    assert(ls =~= a + rest);
    lemma_nl_join_add(a, rest);
    assert(rest[0] == ls[p]);
    let pat = ls[p] + seq!['\n'];
    let whole = nl_join(ls);
    assert(nl_join(rest) == rest[0] + seq!['\n'] + nl_join(rest.drop_first()));
    let at = nl_join(a).len() as int;
    assert(whole.subrange(at, at + pat.len()) =~= pat);
    assert(occurs_at(whole, pat, at));
}

/// In compact mode a step whose status is `in_progress`, `queued` or
/// `waiting`, or whose conclusion is a failure (`failure`, `cancelled`,
/// `timed_out`, `action_required`), is never hidden; so, unless it reports
/// success, its line appears in the rendered block.
pub proof fn lemma_in_flight_step_shown(
    run: WorkflowRun,
    jobs: Seq<WorkflowJob>,
    j: int,
    k: int,
)
    requires
        0 <= j < jobs.len(),
        0 <= k < jobs[j].steps@.len(),
        opt_or(jobs[j].steps@[k].status, ""@) == "in_progress"@ || opt_or(
            jobs[j].steps@[k].status,
            ""@,
        ) == "queued"@ || opt_or(jobs[j].steps@[k].status, ""@) == "waiting"@ || opt_or(
            jobs[j].steps@[k].conclusion,
            ""@,
        ) == "failure"@ || opt_or(jobs[j].steps@[k].conclusion, ""@) == "cancelled"@ || opt_or(
            jobs[j].steps@[k].conclusion,
            ""@,
        ) == "timed_out"@ || opt_or(jobs[j].steps@[k].conclusion, ""@) == "action_required"@,
        opt_or(jobs[j].steps@[k].conclusion, ""@) != "success"@,
    ensures
        !step_is_hidden_spec(jobs[j].steps@[k]),
        contains(render_spec(run, jobs, true), step_line(jobs[j].steps@[k])),
{
    let st = jobs[j].steps@[k];
    assert(!crate::run::job_is_fully_green_spec(jobs[j]));
    lemma_job_pieces_has(jobs, j, k);
    let bc = job_pieces(jobs, true);
    let i = choose|i: int| 0 <= i < bc.len() && bc[i] == step_piece(st);
    let ls = render_lines(run, jobs, true);
    let h = header_lines(run);
    assert(ls[h.len() + i] == step_piece(st));
    lemma_render_text(run, jobs, true);
    lemma_nl_join_has(ls, h.len() + i);
    reveal_strlit("\n");
    assert(step_line(st) =~= step_piece(st) + seq!['\n']);
}

} // verus!
