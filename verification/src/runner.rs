//! Actions runners: scope resolution, the summary strings of a runner and
//! the lines printed for it.
use vstd::prelude::*;

use crate::api::{json_string_member, json_string_member_spec};
use crate::json::JsonArgs;
use crate::repo::{parse_repo_spec, resolve_repo, RepoArgs, RepoError, RepoInfo};
use crate::text::{
    byte_prefix, chars_of, dec_i64, dec_int, extend_chars, extend_str, is_boundary, join,
    join_exec, opt_or, opt_or_exec, pad_right, pad_right_exec, replace_all, replace_all_exec,
    push_line, slice_chars, string_of, strs, utf8_len, utf8_len_gt, vviews,
};

verus! {

/// A label of a runner.
#[derive(Debug, Clone, Default)]
pub struct RunnerLabel {
    pub id: Option<i64>,
    pub name: Option<String>,
    pub type_: Option<String>,
}

/// An Actions runner.
#[derive(Debug, Clone, Default)]
pub struct Runner {
    pub id: Option<i64>,
    pub name: Option<String>,
    pub status: Option<String>,
    pub busy: Option<bool>,
    pub disabled: Option<bool>,
    pub ephemeral: Option<bool>,
    pub labels: Vec<RunnerLabel>,
}

/// The `--admin` / `--org` options.
#[derive(Debug, Clone, Default)]
pub struct ScopeArgs {
    /// Instance-wide (admin only).
    pub admin: bool,
    /// Organization name.
    pub org: Option<String>,
}

/// Where runners are managed.
#[derive(Debug)]
pub enum Scope {
    Admin,
    Org(String),
    Repo { owner: String, name: String },
}

/// The flag is set.
pub open spec fn flag_on(b: Option<bool>) -> bool {
    b == Some(true)
}

/// The names of the flags set, in the order busy, disabled, ephemeral.
pub open spec fn flags_seq(r: Runner) -> Seq<Seq<char>> {
    let a: Seq<Seq<char>> = if flag_on(r.busy) {
        seq!["busy"@]
    } else {
        seq![]
    };
    let b: Seq<Seq<char>> = if flag_on(r.disabled) {
        seq!["disabled"@]
    } else {
        seq![]
    };
    let c: Seq<Seq<char>> = if flag_on(r.ephemeral) {
        seq!["ephemeral"@]
    } else {
        seq![]
    };
    a + b + c
}

/// The flags of a runner, comma-separated.
pub fn flags_string(r: &Runner) -> (s: String)
    ensures
        s@ == join(flags_seq(*r), ","@),
{
    let mut out: Vec<Vec<char>> = Vec::new();
    if r.busy == Some(true) {
        out.push(chars_of("busy"));
    }
    if r.disabled == Some(true) {
        out.push(chars_of("disabled"));
    }
    if r.ephemeral == Some(true) {
        out.push(chars_of("ephemeral"));
    }
    assert(vviews(out@) =~= flags_seq(*r));
    let sep = chars_of(",");
    string_of(&join_exec(&out, &sep))
}

/// The names of the labels that have one, in order.
pub open spec fn label_names(labels: Seq<RunnerLabel>) -> Seq<Seq<char>>
    decreases labels.len(),
{
    if labels.len() == 0 {
        seq![]
    } else {
        let prev = label_names(labels.drop_last());
        match labels.last().name {
            Some(n) => prev.push(n@),
            None => prev,
        }
    }
}

/// The label names of a runner, comma-separated.
pub fn labels_string(r: &Runner) -> (s: String)
    ensures
        s@ == join(label_names(r.labels@), ","@),
{
    let mut out: Vec<Vec<char>> = Vec::new();
    let mut i: usize = 0;
    assert(r.labels@.take(0) =~= Seq::<RunnerLabel>::empty());
    while i < r.labels.len()
        invariant
            i <= r.labels.len(),
            vviews(out@) == label_names(r.labels@.take(i as int)),
        decreases r.labels.len() - i,
    {
        assert(r.labels@.take(i + 1).drop_last() =~= r.labels@.take(i as int));
        assert(r.labels@.take(i + 1).last() == r.labels@[i as int]);
        match &r.labels[i].name {
            Some(n) => {
                let ghost before = vviews(out@);
                out.push(chars_of(n.as_str()));
                assert(vviews(out@) =~= before.push(n@));
            },
            None => {},
        }
        i += 1;
    }
    assert(r.labels@.take(r.labels.len() as int) =~= r.labels@);
    let sep = chars_of(",");
    string_of(&join_exec(&out, &sep))
}

/// `s` cut to fit `max` characters: unchanged when it fits, otherwise its
/// first `max - 3` characters (none when `max < 3`) followed by `...`.
pub open spec fn truncate_spec(s: Seq<char>, max: nat) -> Seq<char> {
    if s.len() <= max {
        s
    } else {
        s.take(cut_of(max)) + "..."@
    }
}

/// Truncating to `max` characters (at least 3) gives at most `max`
/// characters, keeps the first ones, and leaves a text that fits unchanged.
pub proof fn lemma_truncate_fits(s: Seq<char>, max: nat)
    requires
        max >= 3,
    ensures
        truncate_spec(s, max).len() <= max,
        s.len() <= max ==> truncate_spec(s, max) == s,
        s.len() > max ==> truncate_spec(s, max).take(max - 3) == s.take(max - 3),
{
    reveal_strlit("...");
    if s.len() > max {
        assert(truncate_spec(s, max).take(max - 3) =~= s.take(max - 3));
    }
}

/// `s` cut to fit `max` bytes: unchanged when it fits, otherwise its first
/// `max - 3` bytes (0 when `max < 3`) followed by `...`.
pub open spec fn cut_bytes_spec(s: Seq<char>, max: nat) -> Seq<char> {
    if utf8_len(s) <= max {
        s
    } else {
        byte_prefix(s, cut_of(max)) + "..."@
    }
}

/// The number of bytes kept when a string longer than `max` is cut.
pub open spec fn cut_of(max: nat) -> int {
    if max >= 3 {
        max - 3
    } else {
        0
    }
}

/// Cutting `s` to `max` bytes cuts at a character boundary.
pub open spec fn cut_bytes_ok(s: Seq<char>, max: nat) -> bool {
    utf8_len(s) > max ==> is_boundary(s, cut_of(max))
}

/// Cutting to `max` bytes (at least 3) gives at most `max` bytes, and
/// leaves a text that fits unchanged.
pub proof fn lemma_cut_bytes_fits(s: Seq<char>, max: nat)
    requires
        max >= 3,
        cut_bytes_ok(s, max),
    ensures
        utf8_len(cut_bytes_spec(s, max)) <= max,
        utf8_len(s) <= max ==> cut_bytes_spec(s, max) == s,
{
    if utf8_len(s) > max {
        let k = choose|k: int| 0 <= k <= s.len() && #[trigger] utf8_len(s.take(k)) == max - 3;
        crate::text::lemma_boundary_position(s, max - 3, k);
        reveal_strlit("...");
        crate::text::lemma_utf8_len_ascii("..."@);
        crate::text::lemma_utf8_len_add(s.take(k), "..."@);
    }
}

/// The first `b` bytes of `s`, where `b` is a character boundary.
pub fn byte_prefix_exec(s: &[char], b: usize) -> (r: Vec<char>)
    requires
        is_boundary(s@, b as int),
    ensures
        r@ == byte_prefix(s@, b as int),
{
    match crate::text::boundary_position(s, b) {
        Some(k) => {
            proof {
                crate::text::lemma_boundary_position(s@, b as int, k as int);
            }
            let r = slice_chars(s, 0, k);
            assert(r@ =~= s@.take(k as int));
            r
        },
        None => {
            assert(false);
            Vec::new()
        },
    }
}

/// Truncates `s` to at most `max` characters, marking a cut with `...`.
pub fn truncate(s: &str, max: usize) -> (r: String)
    ensures
        r@ == truncate_spec(s@, max as nat),
{
    let v = chars_of(s);
    if v.len() <= max {
        return string_of(&v);
    }
    let cut = if max >= 3 {
        max - 3
    } else {
        0
    };
    let mut p = slice_chars(&v, 0, cut);
    assert(p@ =~= v@.take(cut as int));
    extend_str(&mut p, "...");
    string_of(&p)
}

/// Cuts `s` to at most `max` bytes, marking a cut with `...`.
pub fn cut_bytes(s: &str, max: usize) -> (r: String)
    requires
        cut_bytes_ok(s@, max as nat),
    ensures
        r@ == cut_bytes_spec(s@, max as nat),
{
    let v = chars_of(s);
    if !utf8_len_gt(&v, max) {
        return string_of(&v);
    }
    let cut = if max >= 3 {
        max - 3
    } else {
        0
    };
    let mut p = byte_prefix_exec(&v, cut);
    extend_str(&mut p, "...");
    string_of(&p)
}

/// Resolve the runner scope: `--admin`, else `--org NAME`, else the
/// repository from `-R` or `GITEA_REPO`. `None` means the repository must be
/// detected from the git remotes (see `scope_from_repo`).
pub fn resolve_scope(scope: &ScopeArgs, repo_args: &RepoArgs, env_repo: Option<&str>) -> (r: Option<
    Result<Scope, RepoError>,
>)
    ensures
        scope.admin ==> r matches Some(Ok(Scope::Admin)),
        !scope.admin && scope.org is Some ==> (r matches Some(Ok(Scope::Org(o))) && o@
            == scope.org->Some_0@),
        !scope.admin && scope.org is None ==> match (repo_args.repo, env_repo) {
            (Some(s), _) => match parse_repo_spec(s@) {
                Some((o, n)) => r matches Some(Ok(Scope::Repo { owner, name })) && owner@ == o
                    && name@ == n,
                None => r matches Some(Err(RepoError::Format(t))) && t@ == s@,
            },
            (None, Some(s)) => match parse_repo_spec(s@) {
                Some((o, n)) => r matches Some(Ok(Scope::Repo { owner, name })) && owner@ == o
                    && name@ == n,
                None => r matches Some(Err(RepoError::Format(t))) && t@ == s@,
            },
            (None, None) => r is None,
        },
{
    if scope.admin {
        return Some(Ok(Scope::Admin));
    }
    match &scope.org {
        Some(o) => Some(Ok(Scope::Org(o.clone()))),
        None => {
            let explicit = match &repo_args.repo {
                Some(s) => Some(s.as_str()),
                None => None,
            };
            match resolve_repo(explicit, env_repo) {
                None => None,
                Some(Ok(info)) => Some(Ok(Scope::Repo { owner: info.owner, name: info.name })),
                Some(Err(e)) => Some(Err(e)),
            }
        },
    }
}

/// The repository scope of a detected repository.
pub fn scope_from_repo(r: Result<RepoInfo, RepoError>) -> (s: Result<Scope, RepoError>)
    ensures
        match r {
            Ok(info) => s matches Ok(Scope::Repo { owner, name }) && owner == info.owner && name
                == info.name,
            Err(e) => s == Err::<Scope, RepoError>(e),
        },
{
    match r {
        Ok(info) => Ok(Scope::Repo { owner: info.owner, name: info.name }),
        Err(e) => Err(e),
    }
}

/// The error shown when no scope can be found.
pub open spec fn scope_error_message(e: RepoError) -> Seq<char> {
    e.message_spec() + "\nUse --admin, --org NAME, or -R OWNER/REPO to specify scope."@
}

/// The error shown when no scope can be found.
pub fn scope_error_text(e: &RepoError) -> (r: String)
    ensures
        r@ == scope_error_message(*e),
{
    let m = e.message();
    let mut v = chars_of(m.as_str());
    extend_str(&mut v, "\nUse --admin, --org NAME, or -R OWNER/REPO to specify scope.");
    string_of(&v)
}

/// The API path of the runners of a scope.
pub open spec fn runners_path_spec(scope: Scope) -> Seq<char> {
    match scope {
        Scope::Admin => "admin/actions/runners"@,
        Scope::Org(o) => "orgs/"@ + o@ + "/actions/runners"@,
        Scope::Repo { owner, name } => "repos/"@ + owner@ + "/"@ + name@ + "/actions/runners"@,
    }
}

/// The API path of the runners of a scope.
pub fn runners_path(scope: &Scope) -> (r: String)
    ensures
        r@ == runners_path_spec(*scope),
{
    match scope {
        Scope::Admin => string_of(&chars_of("admin/actions/runners")),
        Scope::Org(o) => {
            let mut v = chars_of("orgs/");
            extend_str(&mut v, o.as_str());
            extend_str(&mut v, "/actions/runners");
            string_of(&v)
        },
        Scope::Repo { owner, name } => {
            let mut v = chars_of("repos/");
            extend_str(&mut v, owner.as_str());
            extend_str(&mut v, "/");
            extend_str(&mut v, name.as_str());
            extend_str(&mut v, "/actions/runners");
            string_of(&v)
        },
    }
}

/// The API path of runner `id` in a scope.
pub fn runner_path(scope: &Scope, id: i64) -> (r: String)
    ensures
        r@ == runners_path_spec(*scope) + "/"@ + dec_int(id as int),
{
    let mut v = chars_of(runners_path(scope).as_str());
    extend_str(&mut v, "/");
    extend_chars(&mut v, &dec_i64(id));
    string_of(&v)
}

/// The API path that hands out a registration token for the scope.
pub open spec fn registration_token_path_spec(scope: Scope) -> Seq<char> {
    match scope {
        Scope::Admin => "admin/actions/runners/registration-token"@,
        Scope::Org(o) => "orgs/"@ + o@ + "/actions/runners/registration-token"@,
        Scope::Repo { owner, name } => "repos/"@ + owner@ + "/"@ + name@
            + "/actions/runners/registration-token"@,
    }
}

/// For every scope, the registration-token path is the scope's runners
/// path followed by `/registration-token`; the runners path of a
/// repository names both its owner and its name under `repos/`, that of an
/// organisation names it under `orgs/`, and the admin scope uses `admin/`.
pub proof fn lemma_registration_token_under_runners(scope: Scope)
    ensures
        registration_token_path_spec(scope) == runners_path_spec(scope) + "/registration-token"@,
        scope matches Scope::Repo { owner, name } ==> runners_path_spec(scope) == "repos/"@
            + owner@ + "/"@ + name@ + "/actions/runners"@,
        scope matches Scope::Org(o) ==> runners_path_spec(scope) == "orgs/"@ + o@
            + "/actions/runners"@,
        scope is Admin ==> runners_path_spec(scope) == "admin/actions/runners"@,
{
    reveal_strlit("/registration-token");
    reveal_strlit("/actions/runners/registration-token");
    reveal_strlit("/actions/runners");
    reveal_strlit("admin/actions/runners/registration-token");
    reveal_strlit("admin/actions/runners");
    assert(registration_token_path_spec(scope) =~= runners_path_spec(scope)
        + "/registration-token"@);
}

/// The API path for a runner registration token.
pub fn registration_token_path(scope: &Scope) -> (r: String)
    ensures
        r@ == registration_token_path_spec(*scope),
{
    match scope {
        Scope::Admin => string_of(&chars_of("admin/actions/runners/registration-token")),
        Scope::Org(o) => {
            let mut v = chars_of("orgs/");
            extend_str(&mut v, o.as_str());
            extend_str(&mut v, "/actions/runners/registration-token");
            string_of(&v)
        },
        Scope::Repo { owner, name } => {
            let mut v = chars_of("repos/");
            extend_str(&mut v, owner.as_str());
            extend_str(&mut v, "/");
            extend_str(&mut v, name.as_str());
            extend_str(&mut v, "/actions/runners/registration-token");
            string_of(&v)
        },
    }
}

/// The id shown for a runner (0 when absent).
pub open spec fn runner_id(r: Runner) -> int {
    match r.id {
        Some(i) => i as int,
        None => 0,
    }
}

/// The row of `gt runner list`: id, name, status, labels and flags in
/// columns of 6, 20, 8 and 30 characters, name and labels truncated.
pub open spec fn runner_row_spec(r: Runner) -> Seq<char> {
    pad_right(dec_int(runner_id(r)), 6) + " "@ + pad_right(
        truncate_spec(opt_or(r.name, ""@), 20),
        20,
    ) + " "@ + pad_right(opt_or(r.status, ""@), 8) + " "@ + pad_right(
        truncate_spec(join(label_names(r.labels@), ","@), 30),
        30,
    ) + " "@ + join(flags_seq(r), ","@)
}

/// One row of `gt runner list`.
pub fn runner_row(r: &Runner) -> (s: String)
    ensures
        s@ == runner_row_spec(*r),
{
    let id = match r.id {
        Some(i) => i,
        None => 0,
    };
    let name = string_of(&opt_or_exec(&r.name, ""));
    let status = opt_or_exec(&r.status, "");
    let labels = labels_string(r);
    let flags = flags_string(r);
    let mut v = pad_right_exec(&dec_i64(id), 6);
    extend_str(&mut v, " ");
    extend_chars(&mut v, &pad_right_exec(&chars_of(truncate(name.as_str(), 20).as_str()), 20));
    extend_str(&mut v, " ");
    extend_chars(&mut v, &pad_right_exec(&status, 8));
    extend_str(&mut v, " ");
    extend_chars(&mut v, &pad_right_exec(&chars_of(truncate(labels.as_str(), 30).as_str()), 30));
    extend_str(&mut v, " ");
    extend_str(&mut v, flags.as_str());
    string_of(&v)
}

/// The header row of `gt runner list` on a terminal.
pub open spec fn runner_header_spec() -> Seq<char> {
    pad_right("ID"@, 6) + " "@ + pad_right("NAME"@, 20) + " "@ + pad_right("STATUS"@, 8) + " "@
        + pad_right("LABELS"@, 30) + " FLAGS"@
}

/// The header row of `gt runner list`.
pub fn runner_header() -> (s: String)
    ensures
        s@ == runner_header_spec(),
{
    let mut v = pad_right_exec(&chars_of("ID"), 6);
    extend_str(&mut v, " ");
    extend_chars(&mut v, &pad_right_exec(&chars_of("NAME"), 20));
    extend_str(&mut v, " ");
    extend_chars(&mut v, &pad_right_exec(&chars_of("STATUS"), 8));
    extend_str(&mut v, " ");
    extend_chars(&mut v, &pad_right_exec(&chars_of("LABELS"), 30));
    extend_str(&mut v, " FLAGS");
    string_of(&v)
}

/// The lines of `gt runner view`: name and id, status, then the labels
/// (comma and space separated) and flags when there are any.
pub open spec fn runner_view_spec(r: Runner) -> Seq<char> {
    let labels = join(label_names(r.labels@), ","@);
    let flags = join(flags_seq(r), ","@);
    opt_or(r.name, "(unnamed)"@) + " (#"@ + dec_int(runner_id(r)) + ")\n"@ + "Status: "@ + opt_or(
        r.status,
        "unknown"@,
    ) + "\n"@ + (if labels.len() > 0 {
        "Labels: "@ + replace_all(labels, ","@, ", "@) + "\n"@
    } else {
        ""@
    }) + (if flags.len() > 0 {
        "Flags: "@ + flags + "\n"@
    } else {
        ""@
    })
}

/// The text of `gt runner view`.
pub fn runner_view_text(r: &Runner) -> (s: String)
    ensures
        s@ == runner_view_spec(*r),
{
    let id = match r.id {
        Some(i) => i,
        None => 0,
    };
    let mut v = opt_or_exec(&r.name, "(unnamed)");
    extend_str(&mut v, " (#");
    extend_chars(&mut v, &dec_i64(id));
    extend_str(&mut v, ")\n");
    extend_str(&mut v, "Status: ");
    extend_chars(&mut v, &opt_or_exec(&r.status, "unknown"));
    extend_str(&mut v, "\n");
    let ghost base = v@;
    let labels = chars_of(labels_string(r).as_str());
    if labels.len() > 0 {
        extend_str(&mut v, "Labels: ");
        let comma = chars_of(",");
        proof {
            reveal_strlit(",");
        }
        let sep = chars_of(", ");
        extend_chars(&mut v, &replace_all_exec(&labels, &comma, &sep));
        extend_str(&mut v, "\n");
    } else {
        assert(v@ =~= base + ""@) by {
            reveal_strlit("");
        }
    }
    let ghost mid = v@;
    let flags = chars_of(flags_string(r).as_str());
    if flags.len() > 0 {
        extend_str(&mut v, "Flags: ");
        extend_chars(&mut v, &flags);
        extend_str(&mut v, "\n");
    } else {
        assert(v@ =~= mid + ""@) by {
            reveal_strlit("");
        }
    }
    string_of(&v)
}

/// What happened last in `gt runner delete`.
#[derive(Debug, Clone)]
pub enum DeleteEvent {
    /// The command starts: whether `--yes` was given and whether standard
    /// input is a terminal.
    Start { yes: bool, stdin_is_tty: bool },
    /// The runner was fetched; holds its name.
    Fetched(Option<String>),
    /// The user answered the confirmation question.
    Answered(bool),
    /// The runner was deleted.
    Deleted,
}

/// What `gt runner delete` does next.
#[derive(Debug, Clone)]
pub enum DeleteAction {
    /// Stop with this error.
    Fail(String),
    /// Fetch the runner, for its name.
    Fetch,
    /// Ask this question (default: no).
    Confirm(String),
    /// Delete the runner.
    Delete,
    /// Stop successfully after printing this line on standard error.
    Finish(String),
}

/// The step of `gt runner delete` after `event`, for runner `id`: without
/// `--yes` it refuses when standard input is not a terminal, and otherwise
/// fetches the runner and asks before deleting, failing when the answer is
/// no; with `--yes` it deletes at once.
pub fn delete_flow(id: i64, event: &DeleteEvent) -> (r: DeleteAction)
    ensures
        match *event {
            DeleteEvent::Start { yes, stdin_is_tty } => if yes {
                r is Delete
            } else if !stdin_is_tty {
                r matches DeleteAction::Fail(m) && m@
                    == "refusing to delete without -y/--yes (stdin is not a TTY)"@
            } else {
                r is Fetch
            },
            DeleteEvent::Fetched(name) => r matches DeleteAction::Confirm(q) && q@
                == delete_prompt_spec(id, name),
            DeleteEvent::Answered(yes) => if yes {
                r is Delete
            } else {
                r matches DeleteAction::Fail(m) && m@ == "Cancelled"@
            },
            DeleteEvent::Deleted => r matches DeleteAction::Finish(m) && m@ == "Deleted runner #"@
                + dec_int(id as int),
        },
{
    match event {
        DeleteEvent::Start { yes, stdin_is_tty } => {
            if *yes {
                DeleteAction::Delete
            } else if !*stdin_is_tty {
                DeleteAction::Fail(
                    string_of(&chars_of("refusing to delete without -y/--yes (stdin is not a TTY)")),
                )
            } else {
                DeleteAction::Fetch
            }
        },
        DeleteEvent::Fetched(name) => DeleteAction::Confirm(delete_prompt(id, name)),
        DeleteEvent::Answered(yes) => {
            if *yes {
                DeleteAction::Delete
            } else {
                DeleteAction::Fail(string_of(&chars_of("Cancelled")))
            }
        },
        DeleteEvent::Deleted => {
            let mut v = chars_of("Deleted runner #");
            extend_chars(&mut v, &dec_i64(id));
            DeleteAction::Finish(string_of(&v))
        },
    }
}

/// The confirmation question of `gt runner delete`.
pub open spec fn delete_prompt_spec(id: i64, name: Option<String>) -> Seq<char> {
    "Delete runner #"@ + dec_int(id as int) + " \""@ + opt_or(name, "(unnamed)"@) + "\"?"@
}

/// The confirmation question of `gt runner delete`.
pub fn delete_prompt(id: i64, name: &Option<String>) -> (r: String)
    ensures
        r@ == delete_prompt_spec(id, *name),
{
    let mut v = chars_of("Delete runner #");
    extend_chars(&mut v, &dec_i64(id));
    extend_str(&mut v, " \"");
    extend_chars(&mut v, &opt_or_exec(name, "(unnamed)"));
    extend_str(&mut v, "\"?");
    string_of(&v)
}

/// Why no registration token could be had.
#[derive(Debug, Clone)]
pub enum TokenError {
    /// The server refused: its status and response text.
    Http(u16, String),
    /// The response is not JSON.
    NotJson,
    /// The JSON response has no string `token`; holds the JSON, compact.
    NoToken(String),
}

/// The compact JSON text that `serde_json` writes for the JSON document
/// `text` (`Value`'s `Display`), or `None` when `text` is not JSON.
pub uninterp spec fn json_display(text: Seq<char>) -> Option<Seq<char>>;

/// Parses `text` with `serde_json::from_str` and writes the value back with
/// `to_string`.
#[verifier::external_body]
fn json_compact(text: &str) -> (r: Option<String>)
    ensures
        match json_display(text@) {
            Some(t) => r matches Some(x) && x@ == t,
            None => r is None,
        },
{
    serde_json::from_str::<serde_json::Value>(text).ok().map(|v| v.to_string())
}

/// The token of a registration-token response: the HTTP status must be a
/// success, the body JSON with a string member `token`.
pub fn registration_token_reply(success: bool, status: u16, body: &str) -> (r: Result<String, TokenError>)
    ensures
        !success ==> (r matches Err(TokenError::Http(s, b)) && s == status && b@ == body@),
        success && json_display(body@) is None ==> (r matches Err(TokenError::NotJson)),
        success && json_display(body@) is Some ==> match json_string_member_spec(body@, "token"@) {
            Some(t) => r matches Ok(x) && x@ == t,
            None => r matches Err(TokenError::NoToken(d)) && d@ == json_display(body@)->Some_0,
        },
{
    if !success {
        return Err(TokenError::Http(status, string_of(&chars_of(body))));
    }
    let shown = match json_compact(body) {
        Some(d) => d,
        None => {
            return Err(TokenError::NotJson);
        },
    };
    match json_string_member(body, "token") {
        Some(t) => Ok(t),
        None => Err(TokenError::NoToken(shown)),
    }
}

/// The lines of `gt runner list` (the caller reports an empty listing):
/// the header on a terminal, then one row per runner.
pub open spec fn runner_list_spec(rs: Seq<Runner>, is_tty: bool) -> Seq<Seq<char>> {
    (if is_tty {
        seq![runner_header_spec()]
    } else {
        seq![]
    }) + Seq::new(rs.len(), |k: int| runner_row_spec(rs[k]))
}

/// The lines of `gt runner list`.
pub fn runner_list_lines(rs: &[Runner], is_tty: bool) -> (r: Vec<String>)
    ensures
        strs(r@) == runner_list_spec(rs@, is_tty),
{
    let mut out: Vec<String> = Vec::new();
    if is_tty {
        push_line(&mut out, &chars_of(runner_header().as_str()));
    }
    let ghost head = strs(out@);
    let ghost rows = Seq::new(rs@.len(), |k: int| runner_row_spec(rs@[k]));
    let mut k: usize = 0;
    while k < rs.len()
        invariant
            k <= rs@.len(),
            rows == Seq::new(rs@.len(), |k: int| runner_row_spec(rs@[k])),
            strs(out@) == head + rows.take(k as int),
        decreases rs.len() - k,
    {
        let row = runner_row(&rs[k]);
        let ghost before = strs(out@);
        out.push(row);
        assert(strs(out@) =~= before.push(rows[k as int]));
        assert(rows.take(k + 1) =~= rows.take(k as int).push(rows[k as int]));
        k += 1;
    }
    assert(rows.take(rs.len() as int) =~= rows);
    out
}

/// The subcommands of `gt runner`; each names its scope.
#[derive(Debug, Clone)]
pub enum RunnerAction {
    List { scope: ScopeArgs, json: JsonArgs },
    View { id: i64, json: bool, scope: ScopeArgs },
    /// Delete a runner; `yes` skips the confirmation.
    Delete { id: i64, yes: bool, scope: ScopeArgs },
    RegistrationToken { scope: ScopeArgs },
}

/// `gt runner`: the repository option and the subcommand.
#[derive(Debug, Clone)]
pub struct RunnerCommand {
    pub repo: RepoArgs,
    pub action: RunnerAction,
}

} // verus!
