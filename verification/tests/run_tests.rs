use gt::run::{
    is_failure_conclusion, is_terminal_status, partition_runs_for_picker, render_run_state,
    WorkflowJob, WorkflowRun, WorkflowStep,
};

fn make_run(id: i64, title: &str, status: &str) -> WorkflowRun {
    WorkflowRun {
        id: Some(id),
        display_title: Some(title.to_string()),
        status: Some(status.to_string()),
        ..Default::default()
    }
}

fn make_step(name: &str, status: &str, conclusion: Option<&str>) -> WorkflowStep {
    WorkflowStep {
        name: Some(name.to_string()),
        status: Some(status.to_string()),
        conclusion: conclusion.map(str::to_string),
    }
}

fn make_job(name: &str, status: &str, conclusion: Option<&str>, steps: Vec<WorkflowStep>) -> WorkflowJob {
    WorkflowJob {
        name: Some(name.to_string()),
        status: Some(status.to_string()),
        conclusion: conclusion.map(str::to_string),
        steps,
    }
}

#[test]
fn terminal_status_recognises_completed_and_outcome_aliases() {
    assert!(is_terminal_status("completed"));
    assert!(is_terminal_status("success"));
    assert!(is_terminal_status("failure"));
    assert!(is_terminal_status("cancelled"));
    assert!(is_terminal_status("skipped"));
    assert!(is_terminal_status("timed_out"));
    assert!(is_terminal_status("action_required"));
}

#[test]
fn terminal_status_rejects_in_flight_states() {
    assert!(!is_terminal_status("in_progress"));
    assert!(!is_terminal_status("queued"));
    assert!(!is_terminal_status("waiting"));
    assert!(!is_terminal_status(""));
}

#[test]
fn failure_conclusion_truth_table() {
    assert!(is_failure_conclusion("failure"));
    assert!(is_failure_conclusion("cancelled"));
    assert!(is_failure_conclusion("timed_out"));
    assert!(is_failure_conclusion("action_required"));

    assert!(!is_failure_conclusion("success"));
    assert!(!is_failure_conclusion("skipped"));
    assert!(!is_failure_conclusion(""));
    assert!(!is_failure_conclusion("in_progress"));
}

#[test]
fn render_default_shows_every_step() {
    let run = make_run(42, "feat: hello", "in_progress");
    let jobs = vec![
        make_job(
            "build",
            "completed",
            Some("success"),
            vec![
                make_step("checkout", "completed", Some("success")),
                make_step("cargo test", "completed", Some("success")),
            ],
        ),
        make_job(
            "lint",
            "in_progress",
            None,
            vec![
                make_step("checkout", "completed", Some("success")),
                make_step("clippy", "in_progress", None),
            ],
        ),
    ];

    let out = render_run_state(&run, &jobs, false);

    assert!(out.contains("Run #42 — feat: hello"), "header missing: {out}");
    assert!(out.contains("Status: in_progress"), "status missing: {out}");
    assert!(out.contains("✓ build"));
    assert!(out.contains("✓ checkout"));
    assert!(out.contains("✓ cargo test"));
    assert!(out.contains("● lint"));
    assert!(out.contains("● clippy"));
}

#[test]
fn render_compact_hides_fully_successful_jobs() {
    let run = make_run(42, "feat: hello", "in_progress");
    let jobs = vec![
        make_job(
            "build",
            "completed",
            Some("success"),
            vec![make_step("cargo test", "completed", Some("success"))],
        ),
        make_job(
            "lint",
            "completed",
            Some("failure"),
            vec![
                make_step("checkout", "completed", Some("success")),
                make_step("clippy", "completed", Some("failure")),
            ],
        ),
    ];

    let out = render_run_state(&run, &jobs, true);

    assert!(!out.contains("build"), "compact should hide successful job: {out}");
    assert!(out.contains("✗ lint"), "lint job should appear: {out}");
    assert!(out.contains("✗ clippy"), "failed step should appear: {out}");
    assert!(!out.contains("✓ checkout"), "passing step should be hidden: {out}");
}

#[test]
fn render_compact_collapses_all_green() {
    let run = make_run(42, "all green", "in_progress");
    let jobs = vec![make_job(
        "build",
        "completed",
        Some("success"),
        vec![make_step("cargo test", "completed", Some("success"))],
    )];

    let out = render_run_state(&run, &jobs, true);

    assert!(out.contains("Run #42"));
    assert!(out.contains("(all steps passing so far)"), "fallback line missing: {out}");
    assert!(!out.contains("build"), "no jobs should appear in compact all-green: {out}");
}

#[test]
fn render_compact_shows_in_progress_job() {
    let run = make_run(42, "in flight", "in_progress");
    let jobs = vec![make_job(
        "build",
        "in_progress",
        None,
        vec![
            make_step("checkout", "completed", Some("success")),
            make_step("cargo test", "in_progress", None),
        ],
    )];

    let out = render_run_state(&run, &jobs, true);

    assert!(out.contains("● build"), "in_progress job missing: {out}");
    assert!(out.contains("● cargo test"), "in_progress step missing: {out}");
    assert!(!out.contains("✓ checkout"), "successful step should be hidden in compact: {out}");
}

#[test]
fn partition_runs_separates_in_progress_from_recent() {
    let runs = vec![
        make_run(1, "old success", "completed"),
        make_run(2, "queued", "queued"),
        make_run(3, "running", "in_progress"),
        make_run(4, "old failure", "failure"),
        make_run(5, "waiting", "waiting"),
    ];

    let (in_progress, recent) = partition_runs_for_picker(runs);

    let in_progress_ids: Vec<_> = in_progress.iter().map(|r| r.id.unwrap()).collect();
    let recent_ids: Vec<_> = recent.iter().map(|r| r.id.unwrap()).collect();

    assert_eq!(in_progress_ids, vec![2, 3, 5], "in-progress includes waiting/queued/in_progress");
    assert_eq!(recent_ids, vec![1, 4], "recent is everything else");
}

#[test]
fn partition_handles_missing_status_field() {
    let runs = vec![WorkflowRun { id: Some(99), ..Default::default() }];

    let (in_progress, recent) = partition_runs_for_picker(runs);

    assert!(in_progress.is_empty());
    assert_eq!(recent.len(), 1);
}

#[test]
fn compact_lines_are_full_lines_left_out() {
    let run = make_run(42, "feat: hello", "in_progress");
    let jobs = vec![
        make_job("build", "completed", Some("success"), vec![make_step("cargo test", "completed", Some("success"))]),
        make_job(
            "lint",
            "completed",
            Some("failure"),
            vec![
                make_step("checkout", "completed", Some("success")),
                make_step("clippy", "completed", Some("failure")),
            ],
        ),
    ];
    let full = render_run_state(&run, &jobs, false);
    let compact = render_run_state(&run, &jobs, true);
    let f: Vec<&str> = full.lines().collect();
    let c: Vec<&str> = compact.lines().collect();
    assert_eq!(f.len(), 3 + 2 + 3);
    assert_eq!(c[..3], f[..3]);
    let mut k = 0;
    for line in &c {
        while k < f.len() && f[k] != *line {
            k += 1;
        }
        assert!(k < f.len(), "compact line {line:?} is not a later full line");
        k += 1;
    }

    let green = vec![make_job("build", "completed", Some("success"), vec![])];
    let c: Vec<String> = render_run_state(&run, &green, true).lines().map(String::from).collect();
    assert_eq!(c.last().map(String::as_str), Some("  (all steps passing so far)"));
    assert_eq!(c.len(), 4);
}
