use gt::issue::{
    check_state, issue_list_lines, issue_row, issue_status_lines, issue_view_lines, parse_assignees,
    resolve_label_ids, Comment, Issue, LabelRef,
};

const NOW: i64 = 1_700_000_000;

fn issue() -> Issue {
    Issue {
        number: Some(7),
        title: Some("Crash on start".into()),
        state: Some("open".into()),
        user: Some("alice".into()),
        created_at: Some(NOW - 2 * 3600),
        updated_at: Some(NOW - 300),
        labels: vec![Some("bug".into()), None, Some("p1".into())],
        assignees: vec![Some("bob".into())],
        milestone: Some("v1".into()),
        body: Some("It crashes.".into()),
        html_url: Some("https://g/o/r/issues/7".into()),
        comments: Some(2),
        repository: Some("o/r".into()),
    }
}

#[test]
fn view_lists_header_metadata_body_and_count() {
    let lines = issue_view_lines(&issue(), None, NOW);
    assert_eq!(
        lines,
        vec![
            "Crash on start #7",
            "open — opened by alice 2h ago",
            "Labels: bug, p1",
            "Assignees: bob",
            "Milestone: v1",
            "",
            "It crashes.",
            "",
            "https://g/o/r/issues/7",
            "\n2 comments (use -c to show)",
        ]
    );
}

#[test]
fn view_with_comments_shows_each() {
    let cs = vec![
        Comment { user: Some("carol".into()), created_at: Some(NOW - 60), body: Some("me too".into()) },
        Comment { user: None, created_at: None, body: None },
    ];
    let mut i = issue();
    i.body = Some(String::new());
    i.html_url = None;
    let lines = issue_view_lines(&i, Some(&cs), NOW);
    assert_eq!(
        &lines[5..],
        &["\n--- 2 comments ---", "\ncarol (1m ago):", "me too", "\nunknown ():", ""]
    );
    let none: Vec<Comment> = vec![];
    let lines = issue_view_lines(&Issue::default(), Some(&none), NOW);
    assert_eq!(lines, vec!["(no title) #0", " — opened by unknown ", "\nNo comments."]);
}

#[test]
fn one_comment_is_singular() {
    let mut i = Issue::default();
    i.comments = Some(1);
    let lines = issue_view_lines(&i, None, NOW);
    assert_eq!(lines.last().unwrap(), "\n1 comment (use -c to show)");
}

#[test]
fn row_pads_and_truncates() {
    let mut i = issue();
    i.title = Some("x".repeat(50));
    let row = issue_row(&i, NOW);
    let expected = format!("{:<6} {:<50} {:<20} {}", 7, format!("{}...", "x".repeat(45)), "bug,p1", "5m ago");
    assert_eq!(row, expected);
}

#[test]
fn list_has_header_on_terminal_only() {
    let items = vec![issue()];
    let tty = issue_list_lines(&items, true, NOW);
    assert_eq!(tty[0], format!("{:<6} {:<50} {:<20} {}", "#", "TITLE", "LABELS", "UPDATED"));
    assert_eq!(tty.len(), 2);
    let piped = issue_list_lines(&items, false, NOW);
    assert_eq!(piped.len(), 1);
}

#[test]
fn state_is_checked() {
    assert!(check_state("open").is_ok());
    assert!(check_state("closed").is_ok());
    assert!(check_state("all").is_ok());
    assert_eq!(check_state("merged").unwrap_err(), "Invalid state: merged. Use open, closed, or all");
}

#[test]
fn labels_resolve_to_first_match() {
    let labels = vec![
        LabelRef { id: Some(1), name: Some("bug".into()) },
        LabelRef { id: Some(2), name: Some("bug".into()) },
        LabelRef { id: None, name: Some("docs".into()) },
    ];
    let names = vec!["docs".to_string(), "bug".to_string()];
    assert_eq!(resolve_label_ids(&labels, &names).unwrap(), vec![0, 1]);
    let missing = vec!["bug".to_string(), "nope".to_string()];
    assert_eq!(resolve_label_ids(&labels, &missing).unwrap_err(), "Label not found: nope");
}

#[test]
fn assignees_are_split_and_trimmed() {
    assert_eq!(parse_assignees(" alice, bob ,,  "), vec!["alice", "bob"]);
    assert!(parse_assignees("").is_empty());
}

#[test]
fn status_lists_open_issues() {
    assert_eq!(issue_status_lines("o", "r", &[], NOW), vec!["No open issues"]);
    let lines = issue_status_lines("o", "r", &[issue()], NOW);
    assert_eq!(lines, vec!["Open issues in o/r:", "  #7     Crash on start (5m ago)"]);
}
