use gt::verbose::{
    missing_headers, request_transcript, response_body_transcript, response_head_transcript, text_lines_exec,
    VerboseConfig,
};

fn pairs(v: &[(&str, &str)]) -> Vec<(String, String)> {
    v.iter().map(|(a, b)| (a.to_string(), b.to_string())).collect()
}

#[test]
fn lines_like_str_lines() {
    for text in ["", "a", "a\n", "a\nb", "a\r\nb\r\n", "a\n\nb\n", "x\r", "\n", "a\rb\n"] {
        let expected: Vec<String> = text.lines().map(str::to_string).collect();
        assert_eq!(text_lines_exec(text), expected, "text {text:?}");
    }
}

#[test]
fn request_transcript_masks_credentials() {
    let headers = pairs(&[("authorization", "token abcdef1234567890"), ("x-trace", "42")]);
    let cfg = VerboseConfig { level: 1, show_secrets: false };
    let lines = request_transcript(
        &Some("issueList".to_string()),
        "GET",
        "/api/v1/repos/o/r/issues?page=1",
        &Some("gitea.example.com".to_string()),
        &headers,
        &Some("{\"a\":1}".to_string()),
        &cfg,
    );
    assert_eq!(
        lines,
        vec![
            "* operation: issueList",
            "> GET /api/v1/repos/o/r/issues?page=1 HTTP/1.1",
            "> Host: gitea.example.com",
            "> authorization: token ***7890",
            "> x-trace: 42",
            ">",
        ]
    );
}

#[test]
fn request_transcript_with_bodies_and_secrets() {
    let headers = pairs(&[("authorization", "token abcdef1234567890")]);
    let cfg = VerboseConfig { level: 2, show_secrets: true };
    let lines = request_transcript(&None, "POST", "/x", &None, &headers, &Some("one\ntwo\n".to_string()), &cfg);
    assert_eq!(
        lines,
        vec!["> POST /x HTTP/1.1", "> authorization: token abcdef1234567890", ">", "> one", "> two", ">"]
    );
}

#[test]
fn response_transcripts() {
    let headers = pairs(&[("set-cookie", "s=1"), ("cookie", "session=0123456789abcdef")]);
    let cfg = VerboseConfig { level: 2, show_secrets: false };
    assert_eq!(
        response_head_transcript(404, "Not Found", &headers, &cfg),
        vec!["< HTTP/1.1 404 Not Found", "< set-cookie: s=1", "< cookie: ***cdef", "<"]
    );
    assert_eq!(response_body_transcript("{}\n[1]"), vec!["< {}", "< [1]", "<"]);
    assert_eq!(response_body_transcript(""), vec!["<"]);
}

#[test]
fn credentials_are_added_only_when_missing() {
    let defaults = pairs(&[("accept", "application/json"), ("authorization", "token t")]);
    assert_eq!(missing_headers(&[], &defaults), defaults);
    let present = vec!["Authorization".to_string(), "X-Other".to_string()];
    assert_eq!(missing_headers(&present, &defaults), pairs(&[("accept", "application/json")]));
    let both = vec!["ACCEPT".to_string(), "authorization".to_string()];
    assert!(missing_headers(&both, &defaults).is_empty());
}
