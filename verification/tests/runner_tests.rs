use gt::repo::RepoArgs;
use gt::runner::{flags_string, labels_string, resolve_scope, truncate, Runner, RunnerLabel, Scope, ScopeArgs};

#[test]
fn resolve_scope_admin_wins_over_org() {
    let scope = ScopeArgs { admin: true, org: Some("ignored".into()) };
    let repo = RepoArgs::default();
    let r = resolve_scope(&scope, &repo, None).unwrap().ok().unwrap();
    assert!(matches!(r, Scope::Admin));
}

#[test]
fn resolve_scope_org_when_no_admin() {
    let scope = ScopeArgs { admin: false, org: Some("acme".into()) };
    let repo = RepoArgs::default();
    let r = resolve_scope(&scope, &repo, None).unwrap().ok().unwrap();
    assert!(matches!(r, Scope::Org(o) if o == "acme"));
}

#[test]
fn resolve_scope_repo_explicit() {
    let scope = ScopeArgs { admin: false, org: None };
    let repo = RepoArgs { repo: Some("alice/proj".into()) };
    let r = resolve_scope(&scope, &repo, None).unwrap().ok().unwrap();
    match r {
        Scope::Repo { owner, name } => {
            assert_eq!(owner, "alice");
            assert_eq!(name, "proj");
        }
        other => panic!("expected Repo, got {other:?}"),
    }
}

#[test]
fn flags_string_empty_when_all_false() {
    let r = Runner {
        busy: Some(false),
        disabled: Some(false),
        ephemeral: Some(false),
        id: Some(1),
        labels: vec![],
        name: Some("r".into()),
        status: Some("online".into()),
    };
    assert_eq!(flags_string(&r), "");
}

#[test]
fn flags_string_lists_true_flags_in_order() {
    let r = Runner {
        busy: Some(true),
        disabled: Some(false),
        ephemeral: Some(true),
        id: Some(1),
        labels: vec![],
        name: Some("r".into()),
        status: Some("online".into()),
    };
    assert_eq!(flags_string(&r), "busy,ephemeral");
}

#[test]
fn labels_string_joins_with_comma() {
    let r = Runner {
        busy: Some(false),
        disabled: Some(false),
        ephemeral: Some(false),
        id: Some(1),
        labels: vec![
            RunnerLabel { id: Some(1), name: Some("self-hosted".into()), type_: Some("custom".into()) },
            RunnerLabel { id: Some(2), name: Some("linux".into()), type_: Some("custom".into()) },
        ],
        name: Some("r".into()),
        status: Some("online".into()),
    };
    assert_eq!(labels_string(&r), "self-hosted,linux");
}

#[test]
fn truncate_short_returns_unchanged() {
    assert_eq!(truncate("abc", 10), "abc");
}

#[test]
fn truncate_long_appends_ellipsis() {
    assert_eq!(truncate("abcdefghij", 6), "abc...");
}

#[test]
fn truncate_counts_characters() {
    let s = "ééééééééééé";
    assert_eq!(truncate(s, 20), s);
    assert_eq!(truncate("ééééééééééééééééééééééé", 20), "ééééééééééééééééé...");
}

#[test]
fn runner_paths_per_scope() {
    assert_eq!(gt::runner::runners_path(&Scope::Admin), "admin/actions/runners");
    assert_eq!(gt::runner::runners_path(&Scope::Org("acme".into())), "orgs/acme/actions/runners");
    assert_eq!(
        gt::runner::runner_path(&Scope::Repo { owner: "o".into(), name: "r".into() }, 7),
        "repos/o/r/actions/runners/7"
    );
}
