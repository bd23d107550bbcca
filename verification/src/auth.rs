//! `gt auth`: the masked token of `auth status`, what `auth setup-git`
//! configures, and the answer of the git credential helper.
use vstd::prelude::*;

use crate::config::{Config, ConfigError};
use crate::repo::{lemma_split_on_from_nonempty, split_on, split_on_from};
use crate::runner::byte_prefix_exec;
use crate::text::{
    byte_prefix, byte_suffix, byte_suffix_exec, chars_of, dec_u64, dec_int, eq_chars, extend_chars,
    extend_str, is_boundary, opt_or, push_line, slice_chars, starts_with, starts_with_exec, str_eq,
    string_of, strs, trim, trim_exec, utf8_len, utf8_len_gt, vviews,
};
use crate::url_parts::{parse_url, url_components, url_error_text};

verus! {

/// The subcommands of `gt auth`.
#[derive(Debug, Clone)]
pub enum AuthAction {
    /// Log in to a Gitea instance (asks for what is not given).
    Login { url: Option<String>, token: Option<String> },
    /// Show the authentication status; `no_check` skips the server probe.
    Status { no_check: bool },
    /// Remove the config file.
    Logout,
    /// Configure git to use `gt` as credential helper.
    SetupGit { hostname: Option<String>, force: bool },
    /// The credential helper protocol: `get`, `store` or `erase`.
    GitCredential { operation: String },
}

/// `gt auth`.
#[derive(Debug, Clone)]
pub struct AuthCommand {
    pub action: AuthAction,
}

/// The token as `auth status` shows it: first and last four bytes when it
/// is longer than eight bytes, `****` when shorter, `(not set)` when empty.
pub open spec fn mask_token_spec(t: Seq<char>) -> Seq<char> {
    if utf8_len(t) > 8 {
        byte_prefix(t, 4) + "..."@ + byte_suffix(t, utf8_len(t) - 4)
    } else if t.len() > 0 {
        "****"@
    } else {
        "(not set)"@
    }
}

/// Masking cuts the token at character boundaries.
pub open spec fn mask_token_ok(t: Seq<char>) -> bool {
    utf8_len(t) > 8 ==> is_boundary(t, 4) && is_boundary(t, utf8_len(t) - 4)
}

/// A token longer than eleven bytes is never shown whole: its masked form
/// takes eleven bytes.
pub proof fn lemma_mask_token_hides(t: Seq<char>)
    requires
        mask_token_ok(t),
        utf8_len(t) > 11,
    ensures
        !crate::text::contains(mask_token_spec(t), t),
{
    let a = choose|k: int| 0 <= k <= t.len() && #[trigger] utf8_len(t.take(k)) == 4;
    let b = choose|k: int| 0 <= k <= t.len() && #[trigger] utf8_len(t.take(k)) == utf8_len(t) - 4;
    crate::text::lemma_boundary_position(t, 4, a);
    crate::text::lemma_boundary_position(t, utf8_len(t) - 4, b);
    crate::text::lemma_utf8_len_split(t, b);
    reveal_strlit("...");
    crate::text::lemma_utf8_len_ascii("..."@);
    crate::text::lemma_utf8_len_add(t.take(a), "..."@);
    crate::text::lemma_utf8_len_add(t.take(a) + "..."@, t.skip(b));
    let m = mask_token_spec(t);
    assert(utf8_len(m) == 11);
    if crate::text::contains(m, t) {
        crate::text::lemma_contains_shorter(m, t);
    }
}

/// The credential helper answers only a request for the configured
/// scheme and host; any other request gets no lines.
pub proof fn lemma_reply_only_for_configured_host(protocol: Seq<char>, host: Seq<char>, c: Config)
    ensures
        credential_reply_spec(protocol, host, c).len() > 0 <==> (protocol == c.url.scheme@ && host
            == match c.url.host {
            Some(h) => h@,
            None => ""@,
        }),
{
}

/// Masks a token for display.
pub fn mask_token(token: &str) -> (r: String)
    requires
        mask_token_ok(token@),
    ensures
        r@ == mask_token_spec(token@),
{
    let t = chars_of(token);
    if utf8_len_gt(&t, 8) {
        let mut v = byte_prefix_exec(&t, 4);
        extend_str(&mut v, "...");
        match byte_suffix_exec(&t, 4) {
            Some(tail) => extend_chars(&mut v, &tail),
            None => {
                assert(false);
            },
        }
        string_of(&v)
    } else if t.len() > 0 {
        string_of(&chars_of("****"))
    } else {
        string_of(&chars_of("(not set)"))
    }
}

/// The host `auth setup-git` configures, or its error.
pub open spec fn setup_host_spec(
    hostname: Option<Seq<char>>,
    force: bool,
    config: Result<Config, ConfigError>,
) -> Result<Seq<char>, Seq<char>> {
    match hostname {
        None => if force {
            Err("--force requires --hostname"@)
        } else {
            match config {
                Err(e) => Err(e.message_spec()),
                Ok(c) => match c.url.host {
                    Some(h) => Ok(c.url.scheme@ + "://"@ + h@),
                    None => Err("No host in configured URL"@),
                },
            }
        },
        Some(h) => {
            let named: Result<Seq<char>, Seq<char>> = if starts_with(h, "http://"@) || starts_with(
                h,
                "https://"@,
            ) {
                match url_components(h) {
                    None => Err("Invalid URL: "@ + url_error_text(h)),
                    Some((_, scheme, host, _)) => Ok(
                        scheme + "://"@ + match host {
                            Some(x) => x,
                            None => h,
                        },
                    ),
                }
            } else {
                Ok("https://"@ + h)
            };
            match named {
                Err(m) => Err(m),
                Ok(s) => if !force && config is Err {
                    Err(
                        "Host is not authenticated. Use --force to set up anyway, or run `gt auth login` first."@,
                    )
                } else {
                    Ok(s)
                },
            }
        },
    }
}

/// The `scheme://host` that `gt auth setup-git` configures: from
/// `--hostname` (`https://` unless it names a scheme; the configuration must
/// load unless `--force`), or from the configured URL.
pub fn setup_host(hostname: Option<&str>, force: bool, config: &Result<Config, ConfigError>) -> (r:
    Result<String, String>)
    ensures
        match setup_host_spec(
            match hostname {
                Some(h) => Some(h@),
                None => None,
            },
            force,
            *config,
        ) {
            Ok(s) => r matches Ok(x) && x@ == s,
            Err(m) => r matches Err(x) && x@ == m,
        },
{
    match hostname {
        None => {
            if force {
                return Err(string_of(&chars_of("--force requires --hostname")));
            }
            match config {
                Err(e) => Err(e.message()),
                Ok(c) => match &c.url.host {
                    Some(h) => {
                        let mut v = chars_of(c.url.scheme.as_str());
                        extend_str(&mut v, "://");
                        extend_str(&mut v, h.as_str());
                        Ok(string_of(&v))
                    },
                    None => Err(string_of(&chars_of("No host in configured URL"))),
                },
            }
        },
        Some(h) => {
            let hv = chars_of(h);
            let s = if starts_with_exec(&hv, &chars_of("http://")) || starts_with_exec(
                &hv,
                &chars_of("https://"),
            ) {
                match parse_url(h) {
                    Err(e) => {
                        let mut v = chars_of("Invalid URL: ");
                        extend_str(&mut v, e.as_str());
                        return Err(string_of(&v));
                    },
                    Ok(p) => {
                        let mut v = chars_of(p.scheme.as_str());
                        extend_str(&mut v, "://");
                        match &p.host {
                            Some(x) => extend_str(&mut v, x.as_str()),
                            None => extend_str(&mut v, h),
                        }
                        v
                    },
                }
            } else {
                let mut v = chars_of("https://");
                extend_str(&mut v, h);
                v
            };
            if !force && config.is_err() {
                return Err(
                    string_of(
                        &chars_of(
                            "Host is not authenticated. Use --force to set up anyway, or run `gt auth login` first.",
                        ),
                    ),
                );
            }
            Ok(string_of(&s))
        },
    }
}

/// The git config key of the credential helper of a host.
pub open spec fn credential_key_spec(host: Seq<char>) -> Seq<char> {
    "credential."@ + host + ".helper"@
}

/// The git config key of the credential helper of a host.
pub fn credential_key(host: &str) -> (r: String)
    ensures
        r@ == credential_key_spec(host@),
{
    let mut v = chars_of("credential.");
    extend_str(&mut v, host);
    extend_str(&mut v, ".helper");
    string_of(&v)
}

/// The helper command: `gt auth git-credential` run through the shell.
pub open spec fn helper_value_spec(gt_path: Seq<char>) -> Seq<char> {
    "!"@ + gt_path + " auth git-credential"@
}

/// The helper command for the `gt` at `gt_path`.
pub fn helper_value(gt_path: &str) -> (r: String)
    ensures
        r@ == helper_value_spec(gt_path@),
{
    let mut v = chars_of("!");
    extend_str(&mut v, gt_path);
    extend_str(&mut v, " auth git-credential");
    string_of(&v)
}

/// The lines of a command's output: the pieces between newlines, without
/// the empty piece after a final newline.
pub open spec fn output_lines(s: Seq<char>) -> Seq<Seq<char>> {
    let parts = split_on(s, '\n');
    if s.len() == 0 || s.last() == '\n' {
        parts.drop_last()
    } else {
        parts
    }
}

/// What `auth setup-git` adds to a host's helper list.
#[derive(Debug, Clone, Copy, PartialEq, Eq)]
pub struct HelperPlan {
    /// Add an empty helper first, which resets helpers set elsewhere.
    pub add_reset: bool,
    /// Add the `gt` helper.
    pub add_helper: bool,
}

/// Nothing is added when a line of the current helpers is the `gt` helper
/// (trimmed); otherwise the `gt` helper is added, preceded by an empty
/// helper unless a blank line shows one is already there.
pub open spec fn helper_plan_spec(existing: Seq<char>, helper: Seq<char>) -> HelperPlan {
    let lines = output_lines(existing);
    let already = exists|i: int| 0 <= i < lines.len() && trim(#[trigger] lines[i]) == helper;
    let has_reset = exists|i: int| 0 <= i < lines.len() && trim(#[trigger] lines[i]).len() == 0;
    HelperPlan { add_reset: !already && !has_reset, add_helper: !already }
}

/// Decides what to add from the output of `git config --get-all KEY`.
pub fn helper_plan(existing: &str, helper: &str) -> (r: HelperPlan)
    ensures
        r == helper_plan_spec(existing@, helper@),
{
    let e = chars_of(existing);
    let parts = crate::repo::split_on_exec(&e, '\n');
    proof {
        crate::repo::lemma_split_on_nonempty(e@, '\n');
    }
    let n: usize = if e.len() == 0 || e[e.len() - 1] == '\n' {
        parts.len() - 1
    } else {
        parts.len()
    };
    let ghost lines = output_lines(existing@);
    assert(lines =~= vviews(parts@).take(n as int));
    let h = chars_of(helper);
    let mut already = false;
    let mut has_reset = false;
    let mut i: usize = 0;
    while i < n
        invariant
            i <= n <= parts@.len(),
            lines == vviews(parts@).take(n as int),
            h@ == helper@,
            already == exists|j: int| 0 <= j < i && trim(#[trigger] lines[j]) == helper@,
            has_reset == exists|j: int| 0 <= j < i && trim(#[trigger] lines[j]).len() == 0,
        decreases n - i,
    {
        let t = trim_exec(&parts[i]);
        assert(lines[i as int] == parts@[i as int]@);
        if eq_chars(&t, &h) {
            already = true;
        }
        if t.len() == 0 {
            has_reset = true;
        }
        i += 1;
    }
    HelperPlan { add_reset: !already && !has_reset, add_helper: !already }
}

/// Splitting a concatenation: the pieces of the first part, its last piece
/// continued by the pieces of the second part.
proof fn lemma_split_concat(x: Seq<char>, y: Seq<char>, c: char, cur: Seq<char>)
    ensures
        split_on_from(x + y, c, cur) == split_on_from(x, c, cur).drop_last() + split_on_from(
            y,
            c,
            split_on_from(x, c, cur).last(),
        ),
    decreases x.len(),
{
    lemma_split_on_from_nonempty(x, c, cur);
    if x.len() == 0 {
        assert(x + y =~= y);
        assert(seq![cur].drop_last() =~= Seq::<Seq<char>>::empty());
        assert(Seq::<Seq<char>>::empty() + split_on_from(y, c, cur) =~= split_on_from(y, c, cur));
    } else {
        let xs = x.drop_first();
        assert((x + y).drop_first() =~= xs + y);
        assert((x + y)[0] == x[0]);
        if x[0] == c {
            lemma_split_concat(xs, y, c, seq![]);
            let inner = split_on_from(xs, c, seq![]);
            lemma_split_on_from_nonempty(xs, c, seq![]);
            let tail = split_on_from(y, c, inner.last());
            assert((seq![cur] + inner).drop_last() =~= seq![cur] + inner.drop_last());
            assert((seq![cur] + inner).last() == inner.last());
            assert(seq![cur] + (inner.drop_last() + tail) =~= (seq![cur] + inner.drop_last()) + tail);
        } else {
            lemma_split_concat(xs, y, c, cur.push(x[0]));
        }
    }
}

/// A line without `c`, ended by `c`, splits into the line (after `cur`) and
/// an empty piece.
proof fn lemma_split_line(h: Seq<char>, c: char, cur: Seq<char>)
    requires
        forall|i: int| 0 <= i < h.len() ==> h[i] != c,
    ensures
        split_on_from(h + seq![c], c, cur) == seq![cur + h, Seq::<char>::empty()],
    decreases h.len(),
{
    if h.len() == 0 {
        assert(h + seq![c] =~= seq![c]);
        assert(seq![c].drop_first() =~= Seq::<char>::empty());
        assert(split_on_from(Seq::<char>::empty(), c, seq![]) == seq![Seq::<char>::empty()]);
        assert(split_on_from(seq![c], c, cur) == seq![cur] + split_on_from(
            Seq::<char>::empty(),
            c,
            seq![],
        ));
        assert(cur + h =~= cur);
        assert(seq![cur] + seq![Seq::<char>::empty()] =~= seq![cur + h, Seq::<char>::empty()]);
    } else {
        let hs = h.drop_first();
        assert((h + seq![c]).drop_first() =~= hs + seq![c]);
        assert((h + seq![c])[0] == h[0]);
        assert(h[0] != c);
        assert forall|i: int| 0 <= i < hs.len() implies hs[i] != c by {
            assert(hs[i] == h[i + 1]);
        }
        lemma_split_line(hs, c, cur.push(h[0]));
        assert(split_on_from(h + seq![c], c, cur) == split_on_from(hs + seq![c], c, cur.push(h[0])));
        assert(cur.push(h[0]) + hs =~= cur + h);
    }
}

/// The helper command has no newline, and trimming leaves it unchanged.
proof fn lemma_helper_is_one_line(gt_path: Seq<char>)
    requires
        forall|i: int| 0 <= i < gt_path.len() ==> gt_path[i] != '\n',
    ensures
        forall|i: int|
            0 <= i < helper_value_spec(gt_path).len() ==> helper_value_spec(gt_path)[i] != '\n',
        trim(helper_value_spec(gt_path)) == helper_value_spec(gt_path),
{
    let h = helper_value_spec(gt_path);
    let lit = " auth git-credential"@;
    reveal_strlit("!");
    reveal_strlit(" auth git-credential");
    assert(lit.len() == 20);
    assert forall|i: int| 0 <= i < h.len() implies h[i] != '\n' by {
        if i < 1 {
            assert(h[i] == '!');
        } else if i < 1 + gt_path.len() {
            assert(h[i] == gt_path[i - 1]);
        } else {
            assert(h[i] == lit[i - 1 - gt_path.len()]);
        }
    }
    assert(h[0] == '!');
    assert(h.last() == 'l');
    assert(crate::text::lead_ws(h) == 0);
    assert(crate::text::trail_ws(h.skip(0)) == 0) by {
        assert(h.skip(0) =~= h);
    }
    assert(trim(h) =~= h);
}

/// Running `gt auth setup-git` again adds nothing: once what it planned is
/// in git's helper list (which git prints one value per line), the plan for
/// the same helper adds neither the reset nor the helper.
pub proof fn lemma_setup_git_idempotent(existing: Seq<char>, gt_path: Seq<char>)
    requires
        existing.len() == 0 || existing.last() == '\n',
        forall|i: int| 0 <= i < gt_path.len() ==> gt_path[i] != '\n',
    ensures
        ({
            let h = helper_value_spec(gt_path);
            let p = helper_plan_spec(existing, h);
            let after = existing + (if p.add_reset {
                "\n"@
            } else {
                ""@
            }) + (if p.add_helper {
                h + "\n"@
            } else {
                ""@
            });
            helper_plan_spec(after, h) == HelperPlan { add_reset: false, add_helper: false }
        }),
{
    let h = helper_value_spec(gt_path);
    let p = helper_plan_spec(existing, h);
    reveal_strlit("\n");
    reveal_strlit("");
    let r = if p.add_reset {
        "\n"@
    } else {
        ""@
    };
    if p.add_helper {
        lemma_helper_is_one_line(gt_path);
        let x = existing + r;
        let after = existing + r + (h + "\n"@);
        assert(after =~= x + (h + seq!['\n']));
        assert(x.len() == 0 || x.last() == '\n');
        crate::run::lemma_split_shape(x, seq![]);
        let sx = split_on_from(x, '\n', seq![]);
        lemma_split_on_from_nonempty(x, '\n', seq![]);
        assert(sx.last().len() == 0);
        assert(sx.last() =~= Seq::<char>::empty());
        lemma_split_concat(x, h + seq!['\n'], '\n', seq![]);
        lemma_split_line(h, '\n', sx.last());
        assert(sx.last() + h =~= h);
        let parts = split_on(after, '\n');
        assert(parts == split_on_from(after, '\n', seq![]));
        assert(parts =~= sx.drop_last() + seq![h, Seq::<char>::empty()]);
        assert(after.last() == '\n');
        let lines = output_lines(after);
        assert(lines =~= sx.drop_last() + seq![h]);
        let k = lines.len() - 1;
        assert(lines[k] == h);
        assert(trim(lines[k]) == h);
    } else {
        assert(existing + r + ""@ =~= existing);
    }
}

/// What `auth setup-git` prints for a configured host.
pub fn setup_git_messages(host: &str, key: &str, helper: &str) -> (r: Vec<String>)
    ensures
        strs(r@) == seq![
            "Configured git credential helper for "@ + host@,
            "  "@ + key@ + "="@ + helper@,
        ],
{
    let mut out: Vec<String> = Vec::new();
    let mut a = chars_of("Configured git credential helper for ");
    extend_str(&mut a, host);
    push_line(&mut out, &a);
    let mut b = chars_of("  ");
    extend_str(&mut b, key);
    extend_str(&mut b, "=");
    extend_str(&mut b, helper);
    push_line(&mut out, &b);
    out
}

/// The value after `prefix`, when `line` starts with it.
pub open spec fn after_prefix(line: Seq<char>, prefix: Seq<char>) -> Option<Seq<char>> {
    if starts_with(line, prefix) {
        Some(line.skip(prefix.len() as int))
    } else {
        None
    }
}

/// The protocol and host that git sends, read up to the first empty line:
/// the last `protocol=` and the last `host=` line win.
pub open spec fn credential_request(lines: Seq<Seq<char>>) -> (Seq<char>, Seq<char>)
    decreases lines.len(),
{
    if lines.len() == 0 {
        (""@, ""@)
    } else {
        let prev = credential_request(lines.drop_last());
        if exists|j: int| 0 <= j < lines.len() - 1 && (#[trigger] lines[j]).len() == 0 {
            prev
        } else {
            let l = lines.last();
            if l.len() == 0 {
                prev
            } else {
                match after_prefix(l, "protocol="@) {
                    Some(p) => (p, prev.1),
                    None => match after_prefix(l, "host="@) {
                        Some(h) => (prev.0, h),
                        None => prev,
                    },
                }
            }
        }
    }
}

/// Reads the protocol and host of a credential request.
pub fn parse_credential_request(lines: &[String]) -> (r: (String, String))
    ensures
        (r.0@, r.1@) == credential_request(strs(lines@)),
{
    let mut protocol = chars_of("");
    let mut host = chars_of("");
    let mut i: usize = 0;
    let ghost ls = strs(lines@);
    assert(ls.take(0) =~= Seq::<Seq<char>>::empty());
    while i < lines.len()
        invariant
            i <= lines@.len(),
            ls == strs(lines@),
            (protocol@, host@) == credential_request(ls.take(i as int)),
            forall|j: int| 0 <= j < i ==> (#[trigger] ls[j]).len() > 0,
        decreases lines.len() - i,
    {
        let l = chars_of(lines[i].as_str());
        assert(ls.take(i + 1).drop_last() =~= ls.take(i as int));
        assert(ls.take(i + 1).last() == l@);
        if l.len() == 0 {
            proof {
                lemma_request_stops(ls, i as int);
            }
            return (string_of(&protocol), string_of(&host));
        }
        assert(!exists|j: int| 0 <= j < i && (#[trigger] ls.take(i + 1)[j]).len() == 0);
        let pp = chars_of("protocol=");
        let hp = chars_of("host=");
        if starts_with_exec(&l, &pp) {
            protocol = slice_chars(&l, pp.len(), l.len());
            assert(protocol@ =~= l@.skip(pp@.len() as int));
        } else if starts_with_exec(&l, &hp) {
            host = slice_chars(&l, hp.len(), l.len());
            assert(host@ =~= l@.skip(hp@.len() as int));
        }
        i += 1;
    }
    assert(ls.take(lines.len() as int) =~= ls);
    (string_of(&protocol), string_of(&host))
}

/// Lines after the first empty one change nothing.
proof fn lemma_request_stops(ls: Seq<Seq<char>>, i: int)
    requires
        0 <= i < ls.len(),
        ls[i].len() == 0,
    ensures
        credential_request(ls) == credential_request(ls.take(i)),
    decreases ls.len(),
{
    if ls.len() - 1 == i {
        assert(ls.drop_last() =~= ls.take(i));
    } else {
        assert(ls.drop_last()[i] == ls[i]);
        lemma_request_stops(ls.drop_last(), i);
        assert(ls.drop_last().take(i) =~= ls.take(i));
        assert(0 <= i < ls.len() - 1 && ls[i].len() == 0);
    }
}

/// The answer of the credential helper: the token for the configured host
/// when git asks for its scheme and host, nothing otherwise.
pub open spec fn credential_reply_spec(protocol: Seq<char>, host: Seq<char>, c: Config) -> Seq<
    Seq<char>,
> {
    let chost = match c.url.host {
        Some(h) => h@,
        None => ""@,
    };
    if host == chost && protocol == c.url.scheme@ {
        seq![
            "protocol="@ + protocol,
            "host="@ + host,
            "username=token"@,
            "password="@ + c.token@,
            ""@,
        ]
    } else {
        seq![]
    }
}

/// The lines the credential helper prints for a `get` request.
pub fn credential_reply(protocol: &str, host: &str, config: &Config) -> (r: Vec<String>)
    ensures
        strs(r@) == credential_reply_spec(protocol@, host@, *config),
{
    let mut out: Vec<String> = Vec::new();
    let chost = match &config.url.host {
        Some(h) => chars_of(h.as_str()),
        None => chars_of(""),
    };
    if eq_chars(&chars_of(host), &chost) && str_eq(protocol, config.url.scheme.as_str()) {
        let mut a = chars_of("protocol=");
        extend_str(&mut a, protocol);
        push_line(&mut out, &a);
        let mut b = chars_of("host=");
        extend_str(&mut b, host);
        push_line(&mut out, &b);
        push_line(&mut out, &chars_of("username=token"));
        let mut d = chars_of("password=");
        extend_str(&mut d, config.token.as_str());
        push_line(&mut out, &d);
        push_line(&mut out, &chars_of(""));
    }
    assert(strs(out@) =~= credential_reply_spec(protocol@, host@, *config));
    out
}

/// The three lines of `gt auth status` before the probe.
pub open spec fn auth_status_spec(url: Seq<char>, token: Seq<char>, path: Seq<char>) -> Seq<
    Seq<char>,
> {
    seq!["URL:   "@ + url, "Token: "@ + mask_token_spec(token), "Config: "@ + path]
}

/// The lines of `gt auth status` before the probe.
pub fn auth_status_lines(url: &str, token: &str, path: &str) -> (r: Vec<String>)
    requires
        mask_token_ok(token@),
    ensures
        strs(r@) == auth_status_spec(url@, token@, path@),
{
    let mut out: Vec<String> = Vec::new();
    let mut a = chars_of("URL:   ");
    extend_str(&mut a, url);
    push_line(&mut out, &a);
    let mut b = chars_of("Token: ");
    extend_str(&mut b, mask_token(token).as_str());
    push_line(&mut out, &b);
    let mut c = chars_of("Config: ");
    extend_str(&mut c, path);
    push_line(&mut out, &c);
    out
}

/// How the probe of `gt auth status` went.
#[derive(Debug, Clone)]
pub enum ProbeOutcome {
    /// The server named the token's user.
    User { login: Option<String>, is_admin: Option<bool> },
    /// The server answered with this HTTP status.
    Status(u16),
    /// No answer; holds the error text.
    Failed(String),
}

/// What `gt auth status` reports after the probe: a line for standard
/// output, or a line for standard error and the error it fails with.
#[derive(Debug, Clone)]
pub enum ProbeReport {
    Valid(String),
    Invalid { message: String, error: String },
}

/// The report of a probe.
pub open spec fn probe_report_spec(p: ProbeOutcome) -> (bool, Seq<char>, Seq<char>) {
    match p {
        ProbeOutcome::User { login, is_admin } => (
            true,
            "Logged in as "@ + opt_or(login, "(unknown)"@) + (if is_admin == Some(true) {
                " (admin)"@
            } else {
                ""@
            }) + " — token valid"@,
            ""@,
        ),
        ProbeOutcome::Status(code) => if code == 401 {
            (
                false,
                "Token rejected by server. Run `gt auth login` to refresh."@,
                "token invalid (401)"@,
            )
        } else {
            (
                false,
                "Probe failed: server returned "@ + dec_int(code as int),
                "probe failed (HTTP "@ + dec_int(code as int) + ")"@,
            )
        },
        ProbeOutcome::Failed(e) => (false, "Probe failed: "@ + e@, "probe failed"@),
    }
}

/// What to print, and whether to fail, after the probe.
pub fn probe_report(p: &ProbeOutcome) -> (r: ProbeReport)
    ensures
        match r {
            ProbeReport::Valid(l) => probe_report_spec(*p) == (true, l@, ""@),
            ProbeReport::Invalid { message, error } => probe_report_spec(*p) == (
                false,
                message@,
                error@,
            ),
        },
{
    match p {
        ProbeOutcome::User { login, is_admin } => {
            let mut v = chars_of("Logged in as ");
            extend_chars(&mut v, &crate::text::opt_or_exec(login, "(unknown)"));
            if *is_admin == Some(true) {
                extend_str(&mut v, " (admin)");
            } else {
                assert(v@ =~= v@ + ""@) by {
                    reveal_strlit("");
                }
            }
            extend_str(&mut v, " — token valid");
            proof {
                reveal_strlit("");
            }
            ProbeReport::Valid(string_of(&v))
        },
        ProbeOutcome::Status(code) => {
            if *code == 401 {
                ProbeReport::Invalid {
                    message: string_of(
                        &chars_of("Token rejected by server. Run `gt auth login` to refresh."),
                    ),
                    error: string_of(&chars_of("token invalid (401)")),
                }
            } else {
                let d = dec_u64(*code as u64);
                let mut m = chars_of("Probe failed: server returned ");
                extend_chars(&mut m, &d);
                let mut e = chars_of("probe failed (HTTP ");
                extend_chars(&mut e, &d);
                extend_str(&mut e, ")");
                ProbeReport::Invalid { message: string_of(&m), error: string_of(&e) }
            }
        },
        ProbeOutcome::Failed(e) => {
            let mut m = chars_of("Probe failed: ");
            extend_str(&mut m, e.as_str());
            ProbeReport::Invalid { message: string_of(&m), error: string_of(&chars_of("probe failed")) }
        },
    }
}

} // verus!
