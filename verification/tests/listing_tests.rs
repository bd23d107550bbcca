use gt::issue::Issue;
use gt::label::{created_message, label_list_lines, Label};
use gt::milestone::{milestone_list_lines, milestone_view_lines, Milestone};
use gt::notification::{notification_list_lines, notifications_path, read_message, Notification};
use gt::org::{org_list_lines, org_view_lines, parse_visibility, Organization, Visibility};
use gt::project::{browse_url, column_list_lines, project_state_message, project_view_lines, Column, Project};
use gt::release::{asset_path, release_list_lines, release_title, release_view_lines, upload_error, upload_path, Asset, Release};
use gt::repo::RepoInfo;
use gt::repo_cmd::{archive_message, check_delete, clone_url, rename_message, repo_list_lines, repo_view_lines, Repository};
use gt::search::{check_search_state, issue_search_lines, repo_search_lines, user_search_lines, User};
use gt::secret::{after_delete, after_update, secret_list_lines, secret_value, variable_list_lines, Secret, UpdateNext, Variable};
use gt::status::dashboard_lines;
use gt::keys::{deploy_list_lines, fingerprint, gpg_list_lines, key_content, ssh_list_lines, DeployKey, GpgKey, SshKey};
use gt::workflow::{collect_inputs, dispatch_lines, parse_input, workflow_list_lines, Workflow};

const NOW: i64 = 1_700_000_000;

#[test]
fn labels_listing() {
    let ls = vec![Label { id: Some(1), name: Some("bug".into()), color: Some("ff0000".into()), description: None }];
    assert_eq!(label_list_lines(&ls, false), vec![format!("{:<6} {:<30} {:<10} {}", 1, "bug", "ff0000", "")]);
    assert_eq!(created_message(Some(1), &Some("bug".into())), "Created label #1: bug");
}

#[test]
fn milestone_view_and_row() {
    let m = Milestone {
        id: Some(2),
        title: Some("v1".into()),
        state: Some("open".into()),
        open_issues: Some(3),
        closed_issues: Some(4),
        updated_at: Some(NOW - 7200),
        due_on: Some(1709596800),
        description: Some("first".into()),
    };
    assert_eq!(
        milestone_view_lines(&m),
        vec!["v1 #2", "open -- 3 open, 4 closed", "Due: 2024-03-05", "", "first"]
    );
    let rows = milestone_list_lines(&[m], false, NOW);
    assert_eq!(rows, vec![format!("{:<6} {:<40} {:<8} {:<8} {}", 2, "v1", 3, 4, "2h ago")]);
}

#[test]
fn notification_rows() {
    let n = Notification {
        id: Some(5),
        unread: Some(true),
        repo: Some("o/r".into()),
        kind: Some("Pull".into()),
        title: Some("Fix".into()),
        state: Some("merged".into()),
        updated_at: Some("2023-11-14T22:13:20Z".into()),
    };
    let rows = notification_list_lines(&[n], false, NOW);
    assert_eq!(rows, vec![format!("{:<6} ●{:<7} {:<25} {:<40} {}", 5, "Pull", "o/r", "Fix ⊕", "just now")]);
    assert_eq!(notifications_path(true), "notifications?status-types=unread");
    assert_eq!(notifications_path(false), "notifications");
    assert_eq!(read_message(&Some("9".into())), "Notification #9 marked as read");
    assert_eq!(read_message(&None), "All notifications marked as read");
}

#[test]
fn dashboard() {
    let assigned = vec![Issue {
        number: Some(4),
        title: Some("Do it".into()),
        repository: Some("o/r".into()),
        ..Default::default()
    }];
    let lines = dashboard_lines(&[], &assigned, &[]);
    assert_eq!(
        lines,
        vec!["Notifications: none", "", "Assigned Issues (1)", "  o/r#4      Do it", "", "Review Requests: none"]
    );
}

#[test]
fn org_view_and_visibility() {
    let o = Organization {
        id: Some(1),
        username: Some("acme".into()),
        full_name: Some(String::new()),
        description: Some("Tools".into()),
        visibility: Some("public".into()),
        location: None,
        website: Some("https://acme".into()),
    };
    assert_eq!(org_view_lines(&o), vec!["acme", "Visibility: public", "", "Tools", "Website: https://acme"]);
    assert_eq!(org_list_lines(&[o], false), vec![format!("{:<6} {:<30} {}", 1, "acme", "Tools")]);
    assert_eq!(parse_visibility("limited").unwrap(), Visibility::Limited);
    assert_eq!(parse_visibility("secret").unwrap_err(), "Invalid visibility: secret. Use public, limited, or private");
}

#[test]
fn projects_and_browse() {
    let p = Project { id: Some(3), title: Some("Board".into()), state: Some("open".into()), description: None };
    assert_eq!(project_view_lines(&p), vec!["Board (#3)", "open"]);
    let cs = vec![Column { id: Some(1), title: Some("Todo".into()), color: None }];
    assert_eq!(column_list_lines(&cs, true)[1], format!("{:<6} {:<30} {}", 1, "Todo", ""));
    assert_eq!(project_state_message(3, true), "Project #3 closed");
    assert_eq!(project_state_message(3, false), "Project #3 reopened");
    let r = RepoInfo { owner: "o".into(), name: "r".into() };
    assert_eq!(browse_url("https://g/", &r, false, None), "https://g/o/r");
    assert_eq!(browse_url("https://g", &r, false, Some(4)), "https://g/o/r/issues/4");
    assert_eq!(browse_url("https://g//", &r, true, Some(4)), "https://g/o/r/settings");
}

#[test]
fn releases() {
    let rel = Release {
        id: Some(1),
        tag_name: Some("v1.0".into()),
        name: Some("First".into()),
        draft: Some(false),
        prerelease: Some(true),
        author: Some(None),
        published_at: Some(NOW - 86400 * 14),
        body: None,
        assets: vec![Asset { name: None, download_count: Some(3), browser_download_url: None }],
        html_url: None,
    };
    assert_eq!(
        release_view_lines(&rel, NOW),
        vec!["First (#1)", "Tag: v1.0 -- prerelease", "Author: unknown", "Published: 2w ago", "\nAssets:", "  unnamed (3 downloads)"]
    );
    assert_eq!(
        release_list_lines(&[rel], false, NOW),
        vec![format!("{:<6} {:<20} {:<30} {:<10} {}", 1, "v1.0", "First", "pre", "2w ago")]
    );
    assert_eq!(release_title("v2", &None), "v2");
    assert_eq!(release_title("v2", &Some("Two".into())), "Two");
    assert_eq!(asset_path("https://g/api/v1/x/y", "https://g/api/v1/"), "x/y");
    assert_eq!(asset_path("https://other/x", "https://g/api/v1/"), "https://other/x");
    let r = RepoInfo { owner: "o".into(), name: "r".into() };
    assert_eq!(upload_path(&r, 2, "a.zip"), "repos/o/r/releases/2/assets?name=a.zip");
    assert_eq!(upload_error(413, Some("Payload Too Large"), r#"{"message":"too big"}"#), "HTTP 413: too big");
    assert_eq!(upload_error(413, Some("Payload Too Large"), "nope"), "HTTP 413: Payload Too Large");
    assert_eq!(upload_error(599, None, ""), "HTTP 599: Error");
}

#[test]
fn repositories() {
    let repo = Repository {
        full_name: Some("o/r".into()),
        stars_count: Some(5),
        forks_count: Some(1),
        open_issues_count: Some(2),
        private: Some(true),
        fork: Some(true),
        html_url: Some("https://g/o/r".into()),
        ..Default::default()
    };
    assert_eq!(
        repo_view_lines(&repo),
        vec!["o/r", "No description", "", "Private — 5 stars — 1 forks — 2 open issues — default: main", "https://g/o/r"]
    );
    assert_eq!(repo_list_lines(&[repo.clone()], false, NOW), vec![format!("{:<40} {:<10} {}", "o/r", 5, "")]);
    assert_eq!(
        repo_search_lines(&[repo], false),
        vec![format!("{:<35} {:<45} {:>5} {:>5}", "o/r (private, fork)", "", 5, 1)]
    );
    assert_eq!(clone_url("https://g//", "o/r"), "https://g/o/r.git");
    assert_eq!(clone_url("https://g", "/o/r"), "https://g/o/r.git");
    assert!(check_delete(true).is_ok());
    assert!(check_delete(false).is_err());
    assert_eq!(archive_message(false, "o", "r"), "Unarchived repository o/r");
    assert_eq!(rename_message("o", "r", "s"), "Renamed o/r → o/s");
}

#[test]
fn searches() {
    assert!(check_search_state(&None).is_ok());
    assert_eq!(check_search_state(&Some("all".into())).unwrap_err(), "Invalid state: all. Use open or closed");
    let i = Issue {
        number: Some(8),
        title: Some("T".into()),
        state: Some("open".into()),
        repository: Some("o/r".into()),
        ..Default::default()
    };
    assert_eq!(
        issue_search_lines(&[i], false, NOW),
        vec![format!("{:<30} {:<6} {:<40} {:<8} {}", "o/r", 8, "T", "open", "")]
    );
    let u = User { login: Some("al".into()), full_name: None, email: Some("a@x".into()) };
    assert_eq!(user_search_lines(&[u], false), vec![format!("{:<20} {:<30} {}", "al", "", "a@x")]);
}

#[test]
fn secrets_and_variables() {
    let s = Secret { name: Some("TOKEN".into()), created_at: Some(NOW - 120) };
    assert_eq!(secret_list_lines(&[s], false, NOW), vec![format!("{:<30} {}", "TOKEN", "2m ago")]);
    assert_eq!(secret_value(&None, "  v \n"), "v");
    assert_eq!(secret_value(&Some(" x ".into()), "ignored"), " x ");
    let v = Variable { name: Some("A".into()), data: Some("1".into()) };
    assert_eq!(variable_list_lines(&[v], true)[1], format!("{:<30} {}", "A", "1"));
    assert!(matches!(after_update(&Ok(())), UpdateNext::Updated));
    assert!(matches!(after_update(&Err("status 204".into())), UpdateNext::Updated));
    assert!(matches!(after_update(&Err("status 404".into())), UpdateNext::Create));
    assert!(matches!(after_update(&Err("status 500".into())), UpdateNext::Fail(m) if m == "status 500"));
    assert!(after_delete(&Err("got 204".into())).is_ok());
    assert_eq!(after_delete(&Err("got 403".into())).unwrap_err(), "got 403");
}

#[test]
fn keys() {
    let k = SshKey { id: Some(1), title: Some("laptop".into()), key_type: Some("ssh-ed25519".into()), created_at: None };
    assert_eq!(ssh_list_lines(&[k], false, NOW), vec![format!("{:<6} {:<25} {:<12} {}", 1, "laptop", "ssh-ed25519", "")]);
    let g = GpgKey {
        id: Some(2),
        key_id: Some("ABCD".into()),
        emails: vec![Some("a@x".into()), None, Some("b@x".into())],
        can_sign: Some(true),
        created_at: None,
    };
    assert_eq!(gpg_list_lines(&[g], false, NOW), vec![format!("{:<6} {:<18} {:<30} {:<6} {}", 2, "ABCD", "a@x, b@x", "✓", "")]);
    let long = "ssh-ed25519 AAAAC3NzaC1lZDI1NTE5AAAAIExample";
    assert_eq!(fingerprint(long), "ssh-ed25519 AAAAC3Nz...AAIExample");
    assert_eq!(fingerprint("short"), "short");
    let d = DeployKey { id: Some(3), title: Some("ci".into()), read_only: None, key: Some("k".into()) };
    assert_eq!(deploy_list_lines(&[d], false), vec![format!("{:<6} {:<30} {:<10} {}", 3, "ci", "read-only", "k")]);
    assert_eq!(key_content("  inline  ", &None), "inline");
    assert_eq!(key_content("path", &Some("from file\n".into())), "from file");
}

#[test]
fn workflows() {
    assert_eq!(parse_input("a=b=c").unwrap(), ("a".to_string(), "b=c".to_string()));
    assert_eq!(parse_input("nope").unwrap_err(), "Invalid input format: nope. Use key=value");
    let pairs = vec![("a".to_string(), "1".to_string()), ("b".to_string(), "2".to_string()), ("a".to_string(), "3".to_string())];
    let mut got = collect_inputs(&pairs);
    got.sort();
    assert_eq!(got, vec![("a".to_string(), "3".to_string()), ("b".to_string(), "2".to_string())]);
    let w = Workflow { id: Some("ci.yml".into()), name: Some("CI".into()), state: Some("active".into()), path: Some(".gitea/workflows/ci.yml".into()) };
    assert_eq!(workflow_list_lines(&[w], false), vec![format!("{:<25} {:<35} {:<10} {}", "ci.yml", "CI", "active", ".gitea/workflows/ci.yml")]);
    assert_eq!(dispatch_lines("ci.yml", Some(12), &Some("https://g/run/12".into())), vec!["Triggered workflow 'ci.yml' → run #12", "https://g/run/12"]);
    assert_eq!(dispatch_lines("ci.yml", Some(12), &Some(String::new())), vec!["Triggered workflow 'ci.yml' → run #12"]);
    assert_eq!(dispatch_lines("ci.yml", None, &None), vec!["Triggered workflow 'ci.yml'"]);
}
