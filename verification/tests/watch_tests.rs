use gt::json::JsonValue;
use gt::repo::RepoInfo;
use gt::run::{
    artifacts_path, count_lines_exec, picker_entries, plan_artifacts, resolve_pick, run_list_lines, run_view_lines, watch_step,
    ArtifactError, PickResult, WatchArgs, WatchState, WorkflowJob, WorkflowRun, WorkflowStep,
};

const NOW: i64 = 1_700_000_000;

fn run(id: i64, title: &str, status: &str, conclusion: Option<&str>) -> WorkflowRun {
    WorkflowRun {
        id: Some(id),
        display_title: Some(title.to_string()),
        status: Some(status.to_string()),
        conclusion: conclusion.map(str::to_string),
        head_branch: Some("main".to_string()),
        ..Default::default()
    }
}

fn job(name: &str, status: &str, conclusion: Option<&str>) -> WorkflowJob {
    WorkflowJob {
        name: Some(name.to_string()),
        status: Some(status.to_string()),
        conclusion: conclusion.map(str::to_string),
        steps: vec![WorkflowStep {
            name: Some("step".to_string()),
            status: Some(status.to_string()),
            conclusion: conclusion.map(str::to_string),
        }],
    }
}

fn args(exit_status: bool) -> WatchArgs {
    WatchArgs { id: Some(7), interval: 3, compact: false, exit_status }
}

#[test]
fn watch_redraws_and_stops_when_over() {
    let mut state = WatchState::new(true);
    let jobs = vec![job("build", "in_progress", None)];
    let first = watch_step(&mut state, &args(false), &run(7, "t", "in_progress", None), &jobs);
    assert_eq!(first.text, "Run #7 — t\nStatus: in_progress\n\n  ● build (in_progress)\n    ● step\n");
    assert_eq!(first.exit_code, None);
    assert_eq!(state.prev_lines, Some(5));

    let done = vec![job("build", "completed", Some("success"))];
    let second = watch_step(&mut state, &args(false), &run(7, "t", "completed", Some("success")), &done);
    assert!(second.text.starts_with("\x1b[5F\x1b[J"), "redraw prefix: {:?}", second.text);
    assert_eq!(second.exit_code, Some(0));
}

#[test]
fn watch_without_terminal_separates_polls() {
    let mut state = WatchState::new(false);
    let jobs: Vec<WorkflowJob> = Vec::new();
    let first = watch_step(&mut state, &args(false), &run(1, "x", "queued", None), &jobs);
    assert!(first.text.starts_with("Run #1"));
    let second = watch_step(&mut state, &args(false), &run(1, "x", "queued", None), &jobs);
    assert!(second.text.starts_with("\nRun #1"));
}

#[test]
fn watch_exit_status_reports_failures() {
    let jobs: Vec<WorkflowJob> = Vec::new();
    let failed = run(2, "x", "completed", Some("failure"));
    let mut s1 = WatchState::new(false);
    assert_eq!(watch_step(&mut s1, &args(true), &failed, &jobs).exit_code, Some(1));
    let mut s2 = WatchState::new(false);
    assert_eq!(watch_step(&mut s2, &args(false), &failed, &jobs).exit_code, Some(0));
    let mut s3 = WatchState::new(false);
    let ok = run(2, "x", "completed", Some("success"));
    assert_eq!(watch_step(&mut s3, &args(true), &ok, &jobs).exit_code, Some(0));
}

#[test]
fn picker_puts_runs_in_flight_first() {
    let runs = vec![
        run(1, "done", "completed", Some("success")),
        run(2, "busy", "in_progress", None),
    ];
    let (labels, ids) = picker_entries(runs).unwrap();
    assert_eq!(labels, vec!["● #2 main busy", "───── recent ─────", "✓ #1 main done"]);
    assert_eq!(ids, vec![2, -1, 1]);
    assert!(matches!(resolve_pick(&labels, &ids, "● #2 main busy"), PickResult::Run(2)));
    assert!(matches!(resolve_pick(&labels, &ids, "───── recent ─────"), PickResult::Cancelled));
    assert!(matches!(resolve_pick(&labels, &ids, "nothing"), PickResult::NotFound));
    assert!(picker_entries(Vec::new()).is_none());
}

#[test]
fn picker_keeps_ten_recent_runs() {
    let runs: Vec<WorkflowRun> = (1..=12).map(|i| run(i, "r", "completed", Some("success"))).collect();
    let (labels, ids) = picker_entries(runs).unwrap();
    assert_eq!(labels.len(), 10);
    assert_eq!(ids, (1..=10).collect::<Vec<i64>>());
}

#[test]
fn run_rows_and_view() {
    let mut r = run(42, "a title that is far too long to fit", "completed", Some("success"));
    r.started_at = Some(NOW - 120);
    let lines = run_list_lines(&[r.clone()], true, NOW);
    assert_eq!(lines[0], format!("{:<8} {:<30} {:<12} {:<10} {}", "ID", "TITLE", "STATUS", "BRANCH", "STARTED"));
    assert_eq!(
        lines[1],
        format!("{:<8} {:<30} {:<12} {:<10} {}", 42, "a title that is far too l...", "completed", "main", "2m ago")
    );
    r.event = Some("push".to_string());
    r.html_url = Some("https://g/x".to_string());
    assert_eq!(
        run_view_lines(&r),
        vec![
            "a title that is far too long to fit (#42)",
            "Status: completed (success)",
            "Branch: main",
            "Event: push",
            "",
            "https://g/x",
        ]
    );
}

fn listing(items: Vec<JsonValue>) -> JsonValue {
    JsonValue::Object(vec![("artifacts".to_string(), JsonValue::Array(items))])
}

fn artifact(name: Option<&str>, id: Option<&str>) -> JsonValue {
    let mut m = Vec::new();
    if let Some(n) = name {
        m.push(("name".to_string(), JsonValue::Str(n.to_string())));
    }
    if let Some(i) = id {
        m.push(("id".to_string(), JsonValue::Number(i.to_string())));
    }
    JsonValue::Object(m)
}

#[test]
fn artifact_downloads() {
    let repo = RepoInfo { owner: "o".into(), name: "r".into() };
    assert_eq!(artifacts_path(&repo, 9), "repos/o/r/actions/runs/9/artifacts");
    let plan = plan_artifacts(&repo, &listing(vec![artifact(Some("logs"), Some("5")), artifact(None, Some("6"))]))
        .unwrap();
    assert_eq!(plan.len(), 2);
    assert_eq!(plan[0].filename, "logs.zip");
    assert_eq!(plan[0].path, "repos/o/r/actions/artifacts/5");
    assert_eq!(plan[1].name, "artifact");
    assert_eq!(plan[1].filename, "artifact.zip");
    assert!(plan_artifacts(&repo, &listing(Vec::new())).unwrap().is_empty());
    assert_eq!(
        plan_artifacts(&repo, &listing(vec![artifact(Some("x"), None)])).unwrap_err(),
        ArtifactError::MissingId
    );
    assert_eq!(plan_artifacts(&repo, &JsonValue::Null).unwrap_err(), ArtifactError::NoArtifacts);
}

#[test]
fn block_lines_counted_like_str_lines() {
    for text in ["", "a", "a\n", "a\nb", "a\n\nb\n", "\n", "Run #1\nStatus: x\n\n"] {
        let chars: Vec<char> = text.chars().collect();
        assert_eq!(count_lines_exec(&chars), text.lines().count(), "text {text:?}");
    }
}
