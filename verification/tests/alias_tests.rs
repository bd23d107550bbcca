use gt::alias::{dispatch_alias, expand_alias, AliasDispatch};

fn s(v: &[&str]) -> Vec<String> {
    v.iter().map(|x| x.to_string()).collect()
}

#[test]
fn expand_alias_substitutes_placeholders() {
    let r = expand_alias("issue view $1 --comments", &s(&["42"]));
    assert_eq!(r, s(&["issue", "view", "42", "--comments"]));
}

#[test]
fn expand_alias_appends_unused_args() {
    let r = expand_alias("pr list", &s(&["--state", "closed"]));
    assert_eq!(r, s(&["pr", "list", "--state", "closed"]));
}

#[test]
fn expand_alias_mixes_used_and_unused() {
    let r = expand_alias("issue create -t $2", &s(&["x", "title"]));
    assert_eq!(r, s(&["issue", "create", "-t", "title", "x"]));
}

#[test]
fn expand_alias_dollar_ten_is_the_tenth_argument() {
    let r = expand_alias("echo $10", &s(&["a", "b", "c", "d", "e", "f", "g", "h", "i", "j"]));
    assert_eq!(r, s(&["echo", "j", "a", "b", "c", "d", "e", "f", "g", "h", "i"]));
}

#[test]
fn expand_alias_keeps_placeholder_beyond_the_arguments() {
    let r = expand_alias("a $10", &s(&["X"]));
    assert_eq!(r, s(&["a", "$10", "X"]));
}

#[test]
fn dispatch_regular_alias() {
    let aliases = vec![("iv".to_string(), "issue view $1".to_string())];
    match dispatch_alias(&s(&["gt", "iv", "7"]), &aliases) {
        AliasDispatch::Expanded(line) => assert_eq!(line, s(&["gt", "issue", "view", "7"])),
        _ => panic!("expected expansion"),
    }
}

#[test]
fn dispatch_shell_alias() {
    let aliases = vec![("hi".to_string(), "!echo hi".to_string())];
    match dispatch_alias(&s(&["gt", "hi", "a"]), &aliases) {
        AliasDispatch::Shell { command, args } => {
            assert_eq!(command, "echo hi");
            assert_eq!(args, s(&["a"]));
        }
        _ => panic!("expected shell alias"),
    }
}

#[test]
fn dispatch_not_alias() {
    let aliases = vec![("iv".to_string(), "issue view".to_string())];
    assert!(matches!(dispatch_alias(&s(&["gt", "pr", "list"]), &aliases), AliasDispatch::NotAlias));
    assert!(matches!(dispatch_alias(&s(&["gt"]), &aliases), AliasDispatch::NotAlias));
}

#[test]
fn expand_alias_leading_zero_is_no_placeholder() {
    let r = expand_alias("x $01 $1", &s(&["a"]));
    assert_eq!(r, s(&["x", "$01", "a"]));
}
