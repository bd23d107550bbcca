use gt::issue::LabelRef;
use gt::pull::{
    check_merge_method, checkout_refspec, checks_lines, diff_path, plan_pr_edit, pr_row,
    pr_view_lines, review_event, CommitStatus, EditArgs, MilestoneRef, PullRequest, ReviewEvent,
};
use gt::repo::RepoInfo;

const NOW: i64 = 1_700_000_000;

#[test]
fn view_shows_branches_and_stats() {
    let p = PullRequest {
        number: Some(3),
        title: Some("Add x".into()),
        state: Some("closed".into()),
        merged: Some(true),
        user: Some("al".into()),
        created_at: Some(NOW - 3 * 86400),
        head_label: Some("al:feat".into()),
        base_label: Some("o:main".into()),
        additions: Some(10),
        deletions: Some(2),
        changed_files: None,
        ..Default::default()
    };
    let lines = pr_view_lines(&p, None, NOW);
    assert_eq!(
        lines,
        vec!["Add x #3", "merged — opened by al 3d ago", "al:feat -> o:main", "+10 -2 (0 files)"]
    );
}

#[test]
fn row_truncates_author() {
    let p = PullRequest {
        number: Some(12),
        title: Some("t".into()),
        user: Some("a-very-long-author".into()),
        ..Default::default()
    };
    let expected = format!("{:<6} {:<50} {:<15} {}", 12, "t", "a-very-lon...", "");
    assert_eq!(pr_row(&p, NOW), expected);
}

#[test]
fn merge_methods() {
    for m in ["merge", "rebase", "squash"] {
        assert!(check_merge_method(m).is_ok());
    }
    assert_eq!(
        check_merge_method("ff").unwrap_err(),
        "Invalid merge method: ff. Use merge, rebase, or squash"
    );
}

#[test]
fn review_verdicts() {
    assert_eq!(review_event("approve").unwrap(), ReviewEvent::Approved);
    assert_eq!(review_event("comment").unwrap(), ReviewEvent::Comment);
    for sep in ["-", "_"] {
        let verdict = format!("request{sep}changes");
        assert_eq!(review_event(&verdict).unwrap(), ReviewEvent::RequestChanges);
    }
    let e = review_event("maybe").unwrap_err();
    assert!(e.starts_with("Invalid review action: maybe. Use approve, "));
    assert!(e.ends_with(", or comment"));
}

#[test]
fn checks_summary() {
    let statuses = vec![CommitStatus {
        context: Some("ci".into()),
        status: Some("success".into()),
        description: Some("ok".into()),
    }];
    assert_eq!(
        checks_lines(&Some("success".into()), &statuses),
        vec!["Overall: success", "  success    ci — ok"]
    );
    assert_eq!(checks_lines(&None, &[]), vec!["Overall: unknown", "No checks found"]);
}

#[test]
fn paths() {
    let r = RepoInfo { owner: "o".into(), name: "r".into() };
    assert_eq!(diff_path(&r, 5), "repos/o/r/pulls/5.diff");
    assert_eq!(checkout_refspec(5, "feat"), "pull/5/head:feat");
}

#[test]
fn edit_plan_resolves_names() {
    let labels = vec![LabelRef { id: Some(4), name: Some("bug".into()) }];
    let ms = vec![MilestoneRef { id: Some(9), title: Some("v1".into()) }];
    let args = EditArgs {
        number: 1,
        title: Some("T".into()),
        body: None,
        label: vec!["bug".into()],
        assignee: vec![],
        milestone: Some("v1".into()),
    };
    let e = plan_pr_edit(&args, &labels, &ms).unwrap();
    assert_eq!(e.title.as_deref(), Some("T"));
    assert_eq!(e.labels, Some(vec![4]));
    assert_eq!(e.assignees, None);
    assert_eq!(e.milestone, Some(9));
    let bad = EditArgs { milestone: Some("v2".into()), ..args };
    assert_eq!(plan_pr_edit(&bad, &labels, &ms).unwrap_err(), "Milestone not found: v2");
}

#[test]
fn review_verdict_names() {
    assert_eq!(gt::pull::review_state_name(ReviewEvent::Approved), "APPROVED");
    assert_eq!(gt::pull::review_state_name(ReviewEvent::RequestChanges), ["REQUEST", "CHANGES"].join("_"));
    assert_eq!(gt::pull::review_state_name(ReviewEvent::Comment), "COMMENT");
}
