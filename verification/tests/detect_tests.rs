use gt::api::{build_body, expand_placeholders, needs_repo, parse_header, request_method, TypedValue};
use gt::config::{config_key_path, load_aliases, login_config_content, parse_config_key, ConfigFile, ConfigKey, ConfigProfile, LoginError};
use gt::repo::{detect_repo_from_git, resolve_repo, GitRemoteProbe, RepoError, RepoInfo};

fn detect(out: &str) -> Result<RepoInfo, RepoError> {
    detect_repo_from_git(&GitRemoteProbe::Output(out.to_string()), "gitea.example.com")
}

#[test]
fn detection_prefers_origin() {
    let out = "upstream\thttps://gitea.example.com/up/stream.git (fetch)\n\
               upstream\thttps://gitea.example.com/up/stream.git (push)\n\
               origin\tgit@gitea.example.com:me/fork.git (fetch)\n\
               origin\tgit@gitea.example.com:me/fork.git (push)\n";
    let info = detect(out).ok().unwrap();
    assert_eq!((info.owner.as_str(), info.name.as_str()), ("me", "fork"));
}

#[test]
fn detection_skips_other_hosts() {
    let out = "origin\thttps://github.com/a/b.git (fetch)\nmirror\tssh://git@gitea.example.com:2222/c/d.git (fetch)\n";
    let info = detect(out).ok().unwrap();
    assert_eq!((info.owner.as_str(), info.name.as_str()), ("c", "d"));
}

#[test]
fn detection_failures() {
    match detect("origin\thttps://github.com/a/b.git (fetch)\n") {
        Err(e) => assert_eq!(
            e.message(),
            "No git remote matching Gitea instance gitea.example.com found. Use -R owner/repo to specify."
        ),
        Ok(_) => panic!("no remote should match"),
    }
    assert!(matches!(detect(""), Err(RepoError::NoMatchingRemote(_))));
    match detect_repo_from_git(&GitRemoteProbe::SpawnFailed, "h") {
        Err(e) => assert_eq!(e.message(), "Failed to run git. Are you in a git repository?"),
        Ok(_) => panic!("git did not run"),
    }
    match detect_repo_from_git(&GitRemoteProbe::Failed, "h") {
        Err(e) => assert_eq!(e.message(), "Not a git repository (or git not found). Use -R owner/repo to specify."),
        Ok(_) => panic!("git failed"),
    }
}

#[test]
fn explicit_repository_wins() {
    let r = resolve_repo(Some("a/b"), Some("c/d")).unwrap().ok().unwrap();
    assert_eq!((r.owner.as_str(), r.name.as_str()), ("a", "b"));
    let r = resolve_repo(None, Some("c/d")).unwrap().ok().unwrap();
    assert_eq!((r.owner.as_str(), r.name.as_str()), ("c", "d"));
    assert!(resolve_repo(None, None).is_none());
    match resolve_repo(Some("bad"), None) {
        Some(Err(e)) => assert_eq!(e.message(), "Repository must be in owner/repo format, got: bad"),
        _ => panic!("a bad argument is an error"),
    }
}

#[test]
fn login_file_contents() {
    match login_config_content("https://g.example", "tok") {
        Ok(c) => assert_eq!(c, "[default]\nurl = \"https://g.example\"\ntoken = \"tok\"\n"),
        Err(_) => panic!("valid login"),
    }
    assert!(matches!(login_config_content("", "tok"), Err(LoginError::Missing)));
    assert!(matches!(login_config_content("https://g.example", ""), Err(LoginError::Missing)));
    assert!(matches!(login_config_content("not a url", "tok"), Err(LoginError::InvalidUrl(_))));
}

#[test]
fn config_keys() {
    assert!(matches!(parse_config_key("url"), Some(ConfigKey::Top(k)) if k == "url"));
    assert!(matches!(parse_config_key("default.url"), Some(ConfigKey::Section(s, k)) if s == "default" && k == "url"));
    assert!(parse_config_key("a.b.c").is_none());
    assert_eq!(config_key_path("servers.work.url"), vec!["servers", "work", "url"]);
    assert_eq!(config_key_path("url"), vec!["url"]);
}

#[test]
fn aliases_of_the_file() {
    let file = ConfigFile {
        default: ConfigProfile { url: None, token: None },
        servers: Vec::new(),
        aliases: vec![("co".to_string(), "pr checkout".to_string())],
    };
    assert_eq!(load_aliases(Some(&file)), vec![("co".to_string(), "pr checkout".to_string())]);
    assert!(load_aliases(None).is_empty());
}

#[test]
fn api_request_pieces() {
    assert_eq!(request_method(Some("patch"), false), "PATCH");
    assert_eq!(request_method(None, true), "POST");
    assert_eq!(request_method(None, false), "GET");
    assert!(needs_repo("repos/{owner}/{repo}/issues"));
    assert!(!needs_repo("user"));
    let repo = RepoInfo { owner: "o".into(), name: "r".into() };
    assert_eq!(expand_placeholders("repos/{owner}/{repo}/pulls/{repo}", &repo), "repos/o/r/pulls/r");
    match parse_header(" X-Trace : abc:def ") {
        Ok((k, v)) => assert_eq!((k.as_str(), v.as_str()), ("X-Trace", "abc:def")),
        Err(_) => panic!("valid header"),
    }
    match parse_header("nocolon") {
        Err(e) => assert_eq!(e.message(), "Invalid header format: nocolon. Use key:value"),
        Ok(_) => panic!("header without a colon"),
    }
}

#[test]
fn api_body_fields() {
    let raw = vec!["title=hello".to_string()];
    let typed = vec!["n=5".to_string(), "flag=true".to_string(), "f=@notes.md".to_string()];
    match build_body(&raw, &typed) {
        Ok(body) => {
            assert_eq!(body.len(), 4);
            assert!(matches!(&body[0], (k, TypedValue::Text(v)) if k == "title" && v == "hello"));
            assert!(matches!(&body[1], (k, TypedValue::Int(5)) if k == "n"));
            assert!(matches!(&body[2], (k, TypedValue::Bool(true)) if k == "flag"));
            assert!(matches!(&body[3], (k, TypedValue::File(p)) if k == "f" && p == "notes.md"));
        }
        Err(_) => panic!("valid fields"),
    }
    match build_body(&["ok=1".to_string(), "broken".to_string()], &[]) {
        Err(e) => assert_eq!(e.message(), "Invalid field format: broken. Use key=value"),
        Ok(_) => panic!("a field without '=' is an error"),
    }
}
