use gt::repo::{parse_remote_url, parse_repo, RepoInfo};

#[test]
fn test_parse_repo() {
    let r = parse_repo("owner/repo").ok().unwrap();
    assert_eq!(r.owner, "owner");
    assert_eq!(r.name, "repo");

    assert!(parse_repo("noslash").is_err());
    assert!(parse_repo("/repo").is_err());
    assert!(parse_repo("owner/").is_err());
}

#[test]
fn test_parse_remote_url_https() {
    let r = parse_remote_url("https://gitea.example.com/myorg/myrepo.git", "gitea.example.com")
        .unwrap();
    assert_eq!(r.owner, "myorg");
    assert_eq!(r.name, "myrepo");
}

#[test]
fn test_parse_remote_url_https_no_dotgit() {
    let r = parse_remote_url("https://gitea.example.com/myorg/myrepo", "gitea.example.com").unwrap();
    assert_eq!(r.owner, "myorg");
    assert_eq!(r.name, "myrepo");
}

#[test]
fn test_parse_remote_url_ssh_scp() {
    let r = parse_remote_url("git@gitea.example.com:myorg/myrepo.git", "gitea.example.com").unwrap();
    assert_eq!(r.owner, "myorg");
    assert_eq!(r.name, "myrepo");
}

#[test]
fn test_parse_remote_url_ssh_url() {
    let r = parse_remote_url("ssh://git@gitea.example.com/myorg/myrepo.git", "gitea.example.com")
        .unwrap();
    assert_eq!(r.owner, "myorg");
    assert_eq!(r.name, "myrepo");
}

#[test]
fn test_parse_remote_url_ssh_custom_port() {
    let r = parse_remote_url(
        "ssh://git@gitea.example.com:2222/myorg/myrepo.git",
        "gitea.example.com",
    )
    .unwrap();
    assert_eq!(r.owner, "myorg");
    assert_eq!(r.name, "myrepo");
}

#[test]
fn test_parse_remote_url_wrong_host() {
    let r = parse_remote_url("https://github.com/myorg/myrepo.git", "gitea.example.com");
    assert!(r.is_none());
}

#[test]
fn test_parse_remote_url_case_insensitive() {
    let r = parse_remote_url("https://Gitea.Example.COM/myorg/myrepo.git", "gitea.example.com")
        .unwrap();
    assert_eq!(r.owner, "myorg");
    assert_eq!(r.name, "myrepo");
}

#[test]
fn test_slug() {
    let r = RepoInfo { owner: "alice".into(), name: "project".into() };
    assert_eq!(r.slug(), "alice/project");
}
