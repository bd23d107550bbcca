use gt::api::{error_hint, page_continues, page_url, request_error_text, ApiCommand};
use gt::auth::{
    auth_status_lines, credential_key, credential_reply, helper_plan, helper_value,
    parse_credential_request, probe_report, setup_git_messages, setup_host, HelperPlan,
    ProbeOutcome, ProbeReport,
};
use gt::compose::{title_ok, IssueAsk, IssueEvent, IssueFlow, IssueStage};
use gt::config::{Config, ConfigEnv, ConfigError, ConfigFile, ConfigProfile};
use gt::config_cmd::{alias_list_lines, config_get, config_list_lines, plan_config_set, SetPlan, TomlValue};
use gt::issue::LabelRef;
use gt::paginate::Pager;
use gt::pull::MilestoneRef;
use gt::runner::{delete_flow, registration_token_reply, DeleteAction, DeleteEvent, TokenError};
use gt::url_parts::UrlParts;

fn s(v: &[&str]) -> Vec<String> {
    v.iter().map(|x| x.to_string()).collect()
}

fn config() -> Config {
    Config {
        url: UrlParts {
            href: "https://git.example/".into(),
            scheme: "https".into(),
            host: Some("git.example".into()),
            path: "/".into(),
        },
        token: "tok".into(),
    }
}

#[test]
fn setup_host_choices() {
    let ok: Result<Config, ConfigError> = Ok(config());
    let missing: Result<Config, ConfigError> = Err(ConfigError::NoToken);
    assert_eq!(setup_host(None, false, &ok).unwrap(), "https://git.example");
    assert_eq!(setup_host(None, true, &ok).unwrap_err(), "--force requires --hostname");
    assert_eq!(setup_host(Some("h.example"), false, &ok).unwrap(), "https://h.example");
    assert_eq!(setup_host(Some("http://h.example:3000/x"), true, &missing).unwrap(), "http://h.example");
    assert!(setup_host(Some("h.example"), false, &missing).unwrap_err().starts_with("Host is not authenticated."));
    assert!(setup_host(Some("http://"), true, &missing).unwrap_err().starts_with("Invalid URL: "));
    assert!(setup_host(None, false, &missing).unwrap_err().starts_with("No Gitea token configured."));
}

#[test]
fn helper_configuration() {
    assert_eq!(credential_key("https://h"), "credential.https://h.helper");
    assert_eq!(helper_value("/bin/gt"), "!/bin/gt auth git-credential");
    let h = "!/bin/gt auth git-credential";
    assert_eq!(helper_plan("", h), HelperPlan { add_reset: true, add_helper: true });
    assert_eq!(helper_plan("\n", h), HelperPlan { add_reset: false, add_helper: true });
    assert_eq!(helper_plan("\n  !/bin/gt auth git-credential \n", h), HelperPlan { add_reset: false, add_helper: false });
    assert_eq!(helper_plan("other\n", h), HelperPlan { add_reset: true, add_helper: true });
    assert_eq!(
        setup_git_messages("https://h", "credential.https://h.helper", h),
        vec!["Configured git credential helper for https://h", "  credential.https://h.helper=!/bin/gt auth git-credential"]
    );
}

#[test]
fn setup_git_twice_adds_nothing() {
    let h = helper_value("/usr/local/bin/gt");
    for existing in ["", "other\n", "\n", "a\n\nb\n"] {
        let plan = helper_plan(existing, &h);
        let mut after = existing.to_string();
        if plan.add_reset {
            after.push('\n');
        }
        if plan.add_helper {
            after.push_str(&h);
            after.push('\n');
        }
        assert_eq!(helper_plan(&after, &h), HelperPlan { add_reset: false, add_helper: false }, "{existing:?}");
    }
}

#[test]
fn credential_helper() {
    let lines = s(&["protocol=https", "host=git.example", "", "host=ignored"]);
    let (p, h) = parse_credential_request(&lines);
    assert_eq!((p.as_str(), h.as_str()), ("https", "git.example"));
    assert_eq!(
        credential_reply(&p, &h, &config()),
        vec!["protocol=https", "host=git.example", "username=token", "password=tok", ""]
    );
    assert!(credential_reply("http", "git.example", &config()).is_empty());
    assert!(credential_reply("https", "other", &config()).is_empty());
}

#[test]
fn auth_status_and_probe() {
    assert_eq!(
        auth_status_lines("https://g/", "aafe123456789a263", "(env vars only)"),
        vec!["URL:   https://g/", "Token: aafe...a263", "Config: (env vars only)"]
    );
    match probe_report(&ProbeOutcome::User { login: Some("al".into()), is_admin: Some(true) }) {
        ProbeReport::Valid(l) => assert_eq!(l, "Logged in as al (admin) — token valid"),
        _ => panic!("expected valid"),
    }
    match probe_report(&ProbeOutcome::Status(401)) {
        ProbeReport::Invalid { error, .. } => assert_eq!(error, "token invalid (401)"),
        _ => panic!("expected invalid"),
    }
    match probe_report(&ProbeOutcome::Status(500)) {
        ProbeReport::Invalid { message, error } => {
            assert_eq!(message, "Probe failed: server returned 500");
            assert_eq!(error, "probe failed (HTTP 500)");
        }
        _ => panic!("expected invalid"),
    }
}

#[test]
fn config_load_prefers_environment() {
    let file = ConfigFile {
        default: ConfigProfile { url: Some("https://file.example".into()), token: Some("f".into()) },
        servers: vec![],
        aliases: vec![],
    };
    let env = ConfigEnv { server: None, url: Some("https://env.example".into()), token: None };
    let c = Config::load(&file, &env).ok().unwrap();
    assert_eq!(c.url.href, "https://env.example/");
    assert_eq!(c.token, "f");
    let env = ConfigEnv { server: Some("work".into()), url: None, token: None };
    let e = Config::load(&file, &env).err().unwrap();
    assert_eq!(e.message(), "Server 'work' not found in config. Available: []");
}

#[test]
fn issue_flow_with_metadata() {
    let mut f = IssueFlow::new();
    assert_eq!(f.stage, IssueStage::Title);
    assert!(matches!(f.step(IssueEvent::Title("Bug".into())).ask, IssueAsk::Body));
    match f.step(IssueEvent::Body("text".into())).ask {
        IssueAsk::Next(v) => assert_eq!(v, s(&["Submit", "Add metadata", "Cancel"])),
        _ => panic!("expected next"),
    }
    assert!(matches!(f.step(IssueEvent::Choice("Add metadata".into())).ask, IssueAsk::Metadata(_)));
    assert!(matches!(f.step(IssueEvent::Metadata(s(&["Labels", "Milestone"]))).ask, IssueAsk::FetchLabels));
    let labels = vec![
        LabelRef { id: Some(1), name: Some("bug".into()) },
        LabelRef { id: None, name: Some("x".into()) },
    ];
    match f.step(IssueEvent::Labels(labels)).ask {
        IssueAsk::Labels(v) => assert_eq!(v, s(&["bug"])),
        _ => panic!("expected labels"),
    }
    assert!(matches!(f.step(IssueEvent::LabelsChosen(s(&["bug"]))).ask, IssueAsk::FetchMilestones));
    let step = f.step(IssueEvent::Milestones(vec![MilestoneRef { id: None, title: Some("v1".into()) }]));
    assert_eq!(step.notice.as_deref(), Some("No milestones found in this repository."));
    assert!(matches!(step.ask, IssueAsk::Next(ref v) if *v == s(&["Submit", "Cancel"])));
    assert!(matches!(f.step(IssueEvent::Choice("Submit".into())).ask, IssueAsk::Submit));
    assert_eq!(f.title, "Bug");
    assert_eq!(f.body, "text");
    assert_eq!(f.label_ids, vec![1]);
    assert_eq!(f.milestone_id, None);
}

#[test]
fn issue_flow_cancel_and_out_of_turn() {
    let mut f = IssueFlow::new();
    assert!(matches!(f.step(IssueEvent::Body("early".into())).ask, IssueAsk::Title));
    f.step(IssueEvent::Title("T".into()));
    f.step(IssueEvent::Body(String::new()));
    assert!(matches!(f.step(IssueEvent::Choice("Cancel".into())).ask, IssueAsk::Cancelled));
    assert!(title_ok(" x "));
    assert!(!title_ok("   "));
}

#[test]
fn runner_delete_flow() {
    assert!(matches!(delete_flow(3, &DeleteEvent::Start { yes: true, stdin_is_tty: false }), DeleteAction::Delete));
    assert!(matches!(delete_flow(3, &DeleteEvent::Start { yes: false, stdin_is_tty: true }), DeleteAction::Fetch));
    assert!(matches!(delete_flow(3, &DeleteEvent::Start { yes: false, stdin_is_tty: false }),
        DeleteAction::Fail(m) if m == "refusing to delete without -y/--yes (stdin is not a TTY)"));
    assert!(matches!(delete_flow(3, &DeleteEvent::Fetched(Some("r1".into()))), DeleteAction::Confirm(q) if q == "Delete runner #3 \"r1\"?"));
    assert!(matches!(delete_flow(3, &DeleteEvent::Answered(false)), DeleteAction::Fail(m) if m == "Cancelled"));
    assert!(matches!(delete_flow(3, &DeleteEvent::Deleted), DeleteAction::Finish(m) if m == "Deleted runner #3"));
}

#[test]
fn registration_token_answers() {
    assert_eq!(registration_token_reply(true, 201, r#"{"token":"abc"}"#).unwrap(), "abc");
    assert!(matches!(registration_token_reply(false, 403, "no"), Err(TokenError::Http(403, b)) if b == "no"));
    assert!(matches!(registration_token_reply(true, 200, "<html>"), Err(TokenError::NotJson)));
    assert!(matches!(registration_token_reply(true, 200, r#"{ "x": 1 }"#), Err(TokenError::NoToken(d)) if d == r#"{"x":1}"#));
}

#[test]
fn toml_config_commands() {
    let doc = TomlValue::Table(
        vec![
            ("editor".into(), TomlValue::Str("vim".into())),
            (
                "default".into(),
                TomlValue::Table(
                    vec![("url".into(), TomlValue::Str("https://g".into())), ("port".into(), TomlValue::Other("3000".into()))],
                    "url = \"https://g\"\nport = 3000\n".into(),
                ),
            ),
        ],
        String::new(),
    );
    assert_eq!(config_get(&doc, "editor").unwrap(), "vim");
    assert_eq!(config_get(&doc, "default.port").unwrap(), "3000");
    assert_eq!(config_get(&doc, "default.nope").unwrap_err(), "Key 'default.nope' not found");
    assert_eq!(config_get(&doc, "editor.x").unwrap_err(), "Key 'editor.x' not found");
    assert_eq!(
        config_list_lines(&doc).unwrap(),
        vec!["editor = vim", "default.url = https://g", "default.port = 3000"]
    );
    assert!(config_list_lines(&TomlValue::Table(vec![], String::new())).is_none());
    assert!(matches!(plan_config_set(&doc, "a.b.c", "v"), Err(m) if m == "Key must be 'key' or 'section.key' format"));
    assert!(matches!(plan_config_set(&doc, "editor.x", "v"), Err(m) if m == "Section 'editor' is not a table"));
    assert!(matches!(plan_config_set(&doc, "servers.url", "v"), Ok(SetPlan::Section { section, key, value }) if section == "servers" && key == "url" && value == "v"));
    assert!(matches!(plan_config_set(&doc, "editor", "nano"), Ok(SetPlan::Top { key, .. }) if key == "editor"));
    assert!(matches!(plan_config_set(&TomlValue::Str("x".into()), "a", "v"), Err(m) if m == "Config is not a table"));
    assert_eq!(alias_list_lines(&[("iv".into(), "issue view".into())]), vec!["iv: issue view"]);
}

#[test]
fn pager_asks_page_by_page() {
    let mut p = Pager::new(25, 10);
    assert_eq!(p.next_request(), Some((1, 10)));
    p.record(10);
    assert_eq!(p.next_request(), Some((2, 10)));
    p.record(10);
    assert_eq!(p.next_request(), Some((3, 10)));
    p.record(10);
    assert_eq!(p.next_request(), None);
    assert_eq!(p.kept(), 25);

    let mut q = Pager::new(30, 50);
    assert_eq!(q.next_request(), Some((1, 50)));
    q.record(4);
    assert_eq!(q.next_request(), None);
    assert_eq!(q.kept(), 4);
}

#[test]
fn api_command_pieces() {
    let cmd = ApiCommand {
        endpoint: "repos/{owner}/{repo}".into(),
        method: None,
        raw_fields: vec!["a=b".into()],
        fields: vec![],
        headers: vec![],
        show_headers: false,
        silent: false,
        jq_expr: None,
        paginate: false,
        curl: false,
    };
    assert!(cmd.has_body_fields());
    assert_eq!(cmd.method_of(), "POST");
    let get = ApiCommand { raw_fields: vec![], method: Some("patch".into()), ..cmd };
    assert_eq!(get.method_of(), "PATCH");
    assert_eq!(page_url("https://g/api/v1/x", 2).unwrap(), "https://g/api/v1/x?page=2&limit=50");
    assert_eq!(page_url("https://g/api/v1/x?limit=5", 3).unwrap(), "https://g/api/v1/x?limit=5&page=3");
    assert!(page_continues("[1]"));
    assert!(!page_continues("[]"));
    assert!(!page_continues("{}"));
    assert_eq!(request_error_text(404, "Not Found", "gone"), "404 Not Found\ngone");
    assert_eq!(error_hint("HTTP 401: nope").as_deref(), Some("hint: try `gt auth login`"));
    assert_eq!(error_hint("HTTP 403").as_deref(), Some("hint: you don't have permission for this operation"));
    assert_eq!(error_hint("other"), None);
}

#[test]
fn unknown_server_lists_names_as_debug_strings() {
    let file = ConfigFile {
        default: ConfigProfile::default(),
        servers: vec![
            ("home".into(), ConfigProfile::default()),
            ("we\"ird".into(), ConfigProfile::default()),
        ],
        aliases: vec![],
    };
    let env = ConfigEnv { server: Some("work".into()), url: None, token: None };
    let e = Config::load(&file, &env).err().unwrap();
    assert_eq!(
        e.message(),
        "Server 'work' not found in config. Available: [\"home\", \"we\\\"ird\"]"
    );
}

#[test]
fn issue_flow_asks_again_for_a_blank_title() {
    let mut f = IssueFlow::new();
    assert!(matches!(f.step(IssueEvent::Title("   ".into())).ask, IssueAsk::Title));
    assert_eq!(f.stage, IssueStage::Title);
    assert_eq!(f.title, "");
    assert!(matches!(f.step(IssueEvent::Title("Bug".into())).ask, IssueAsk::Body));
}
