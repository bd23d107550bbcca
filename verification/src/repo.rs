//! Repository identification: `owner/repo` arguments and git remotes.
use vstd::prelude::*;

use crate::text::{
    ascii_lower, ascii_lower_exec, chars_of, ends_with, ends_with_exec, eq_chars, extend_chars,
    extend_str, find, find_from_exec, is_ws, lemma_find_from_spec, occurs_at, slice_chars,
    split_ws, split_ws_exec, starts_with, starts_with_exec, string_of, vviews,
};
use crate::url_parts::{parse_url, url_components, UrlParts};

verus! {

/// Detected repository info: owner and repo name.
#[derive(Debug, Clone)]
pub struct RepoInfo {
    pub owner: String,
    pub name: String,
}

/// The `-R owner/repo` option shared by repository commands.
#[derive(Debug, Clone, Default)]
pub struct RepoArgs {
    pub repo: Option<String>,
}

impl RepoInfo {
    /// `owner/name`.
    pub fn slug(&self) -> (r: String)
        ensures
            r@ == self.owner@ + "/"@ + self.name@,
    {
        let mut v = chars_of(self.owner.as_str());
        extend_str(&mut v, "/");
        extend_str(&mut v, self.name.as_str());
        string_of(&v)
    }
}

/// Position of the first `c` in `s`.
pub open spec fn find_char(s: Seq<char>, c: char) -> Option<int> {
    find(s, seq![c])
}

/// `s` split at its first `c`: the text before and the text after it
/// (`str::split_once`).
pub open spec fn split_once(s: Seq<char>, c: char) -> Option<(Seq<char>, Seq<char>)> {
    match find_char(s, c) {
        Some(i) => Some((s.take(i), s.skip(i + 1))),
        None => None,
    }
}

/// Splitting `a`, `c`, `b` at the first `c` gives `a` and `b` back when
/// `a` holds no `c`.
pub proof fn lemma_split_once_join(a: Seq<char>, c: char, b: Seq<char>)
    requires
        !a.contains(c),
    ensures
        split_once(a + seq![c] + b, c) == Some((a, b)),
{
    let s = a + seq![c] + b;
    let pat = seq![c];
    lemma_find_from_spec(s, pat, 0);
    assert(s.subrange(a.len() as int, a.len() + 1int) =~= pat);
    assert(occurs_at(s, pat, a.len() as int));
    match crate::text::find_from(s, pat, 0) {
        Some(i) => {
            if i < a.len() {
                assert(s.subrange(i, i + 1)[0] == s[i]);
                assert(s[i] == a[i]);
                assert(a.contains(c));
            }
            assert(i == a.len());
            assert(s.take(i) =~= a);
            assert(s.skip(i + 1) =~= b);
        },
        None => {},
    }
}

/// What splitting at the first `c` gives joins back to the text, and the
/// part before holds no `c`.
pub proof fn lemma_split_once_parts(s: Seq<char>, c: char)
    ensures
        split_once(s, c) matches Some((a, b)) ==> a + seq![c] + b == s && !a.contains(c),
{
    let pat = seq![c];
    lemma_find_from_spec(s, pat, 0);
    match crate::text::find_from(s, pat, 0) {
        Some(i) => {
            assert(s.subrange(i, i + 1)[0] == s[i]);
            assert(s.take(i) + seq![c] + s.skip(i + 1) =~= s);
            if s.take(i).contains(c) {
                let j = choose|j: int| 0 <= j < s.take(i).len() && s.take(i)[j] == c;
                assert(s.subrange(j, j + 1) =~= pat);
                assert(occurs_at(s, pat, j));
            }
        },
        None => {},
    }
}

/// Writing a repository as `owner/name` and reading it back gives the same
/// owner and name, when both are non-empty and the owner has no `/`.
pub proof fn lemma_slug_then_parse(owner: Seq<char>, name: Seq<char>)
    requires
        owner.len() > 0,
        name.len() > 0,
        !owner.contains('/'),
    ensures
        parse_repo_spec(owner + "/"@ + name) == Some((owner, name)),
{
    reveal_strlit("/");
    assert("/"@ =~= seq!['/']);
    lemma_split_once_join(owner, '/', name);
}

/// Reading `owner/name` and writing it back as a slug gives the text read.
pub proof fn lemma_parse_then_slug(s: Seq<char>)
    ensures
        parse_repo_spec(s) matches Some((o, n)) ==> o + "/"@ + n == s,
{
    reveal_strlit("/");
    assert("/"@ =~= seq!['/']);
    lemma_split_once_parts(s, '/');
}

/// `parse_repo` accepts `s`, giving this owner and name: the text before the
/// first `/` and the text after it, both non-empty.
pub open spec fn parse_repo_spec(s: Seq<char>) -> Option<(Seq<char>, Seq<char>)> {
    match split_once(s, '/') {
        Some((a, b)) => if a.len() > 0 && b.len() > 0 {
            Some((a, b))
        } else {
            None
        },
        None => None,
    }
}

/// The error text for a malformed `owner/repo` argument.
pub open spec fn repo_format_message(s: Seq<char>) -> Seq<char> {
    "Repository must be in owner/repo format, got: "@ + s
}

/// Why a repository could not be determined.
pub enum RepoError {
    /// The argument is not `owner/repo`; holds the argument.
    Format(String),
    /// `git` could not be run.
    GitFailed,
    /// `git remote -v` failed.
    NotARepository,
    /// No remote points at the configured host; holds the host.
    NoMatchingRemote(String),
}

impl RepoError {
    /// The message shown to the user.
    pub open spec fn message_spec(&self) -> Seq<char> {
        match self {
            RepoError::Format(s) => repo_format_message(s@),
            RepoError::GitFailed => "Failed to run git. Are you in a git repository?"@,
            RepoError::NotARepository =>
                "Not a git repository (or git not found). Use -R owner/repo to specify."@,
            RepoError::NoMatchingRemote(h) => "No git remote matching Gitea instance "@ + h@
                + " found. Use -R owner/repo to specify."@,
        }
    }

    /// The message shown to the user.
    pub fn message(&self) -> (r: String)
        ensures
            r@ == self.message_spec(),
    {
        match self {
            RepoError::Format(s) => {
                let mut v = chars_of("Repository must be in owner/repo format, got: ");
                extend_str(&mut v, s.as_str());
                string_of(&v)
            },
            RepoError::GitFailed => {
                let v = chars_of("Failed to run git. Are you in a git repository?");
                string_of(&v)
            },
            RepoError::NotARepository => {
                let v = chars_of(
                    "Not a git repository (or git not found). Use -R owner/repo to specify.",
                );
                string_of(&v)
            },
            RepoError::NoMatchingRemote(h) => {
                let mut v = chars_of("No git remote matching Gitea instance ");
                extend_str(&mut v, h.as_str());
                extend_str(&mut v, " found. Use -R owner/repo to specify.");
                string_of(&v)
            },
        }
    }
}

/// Splits `s` at the first `c`.
pub fn split_once_exec(s: &[char], c: char) -> (r: Option<(Vec<char>, Vec<char>)>)
    ensures
        match split_once(s@, c) {
            Some((a, b)) => r matches Some((x, y)) && x@ == a && y@ == b,
            None => r is None,
        },
{
    let pat = [c];
    assert(pat@ =~= seq![c]);
    proof {
        lemma_find_from_spec(s@, pat@, 0);
    }
    match find_from_exec(s, &pat, 0) {
        Some(i) => {
            assert(occurs_at(s@, pat@, i as int));
            assert(pat@.len() == 1);
            let n = s.len();
            assert(i + 1 <= n);
            let a = slice_chars(s, 0, i);
            let b = slice_chars(s, i + 1, s.len());
            assert(a@ =~= s@.take(i as int));
            assert(b@ =~= s@.skip(i + 1));
            Some((a, b))
        },
        None => None,
    }
}

/// Parse an `owner/repo` string into a `RepoInfo`.
pub fn parse_repo(s: &str) -> (r: Result<RepoInfo, RepoError>)
    ensures
        match parse_repo_spec(s@) {
            Some((o, n)) => r matches Ok(info) && info.owner@ == o && info.name@ == n,
            None => r matches Err(RepoError::Format(t)) && t@ == s@,
        },
{
    let v = chars_of(s);
    match split_once_exec(&v, '/') {
        Some((a, b)) => {
            if a.len() > 0 && b.len() > 0 {
                Ok(RepoInfo { owner: string_of(&a), name: string_of(&b) })
            } else {
                Err(RepoError::Format(string_of(&v)))
            }
        },
        None => Err(RepoError::Format(string_of(&v))),
    }
}

/// `s` without the suffix `p`, if it ends with it.
pub open spec fn strip_suffix_or_same(s: Seq<char>, p: Seq<char>) -> Seq<char> {
    if ends_with(s, p) {
        s.take(s.len() - p.len())
    } else {
        s
    }
}

/// Owner and name in a remote path such as `owner/repo.git`: the `.git`
/// suffix is dropped, then the first two `/`-separated parts must be
/// non-empty.
pub open spec fn extract_owner_repo_spec(path: Seq<char>) -> Option<(Seq<char>, Seq<char>)> {
    let p = strip_suffix_or_same(path, ".git"@);
    match split_once(p, '/') {
        Some((owner, rest)) => {
            let name = match split_once(rest, '/') {
                Some((n, _)) => n,
                None => rest,
            };
            if owner.len() > 0 && name.len() > 0 {
                Some((owner, name))
            } else {
                None
            }
        },
        None => None,
    }
}

/// Extract owner/repo from a path like "owner/repo.git" or "owner/repo".
pub fn extract_owner_repo(path: &[char]) -> (r: Option<RepoInfo>)
    ensures
        match extract_owner_repo_spec(path@) {
            Some((o, n)) => r matches Some(info) && info.owner@ == o && info.name@ == n,
            None => r is None,
        },
{
    let suffix = chars_of(".git");
    let p = if ends_with_exec(path, &suffix) {
        slice_chars(path, 0, path.len() - suffix.len())
    } else {
        slice_chars(path, 0, path.len())
    };
    assert(p@ =~= strip_suffix_or_same(path@, ".git"@));
    match split_once_exec(&p, '/') {
        Some((owner, rest)) => {
            let name = match split_once_exec(&rest, '/') {
                Some((n, _)) => n,
                None => rest,
            };
            if owner.len() > 0 && name.len() > 0 {
                Some(RepoInfo { owner: string_of(&owner), name: string_of(&name) })
            } else {
                None
            }
        },
        None => None,
    }
}

/// Hosts are compared without regard to ASCII case.
pub open spec fn host_matches_spec(a: Seq<char>, b: Seq<char>) -> bool {
    ascii_lower(a) == ascii_lower(b)
}

/// Check if a remote host matches the Gitea host (case-insensitive).
pub fn host_matches(remote_host: &str, gitea_host: &str) -> (r: bool)
    ensures
        r == host_matches_spec(remote_host@, gitea_host@),
{
    let a = chars_of(remote_host);
    let b = chars_of(gitea_host);
    let la = ascii_lower_exec(&a);
    let lb = ascii_lower_exec(&b);
    eq_chars(&la, &lb)
}

/// `s` without any leading `c`.
pub open spec fn trim_start_char(s: Seq<char>, c: char) -> Seq<char>
    decreases s.len(),
{
    if s.len() > 0 && s[0] == c {
        trim_start_char(s.drop_first(), c)
    } else {
        s
    }
}

/// Removes every leading `c`.
pub fn trim_start_char_exec(s: &[char], c: char) -> (r: Vec<char>)
    ensures
        r@ == trim_start_char(s@, c),
{
    let mut i: usize = 0;
    assert(s@.skip(0) =~= s@);
    while i < s.len() && s[i] == c
        invariant
            i <= s.len(),
            trim_start_char(s@, c) == trim_start_char(s@.skip(i as int), c),
        decreases s.len() - i,
    {
        assert(s@.skip(i as int).drop_first() =~= s@.skip(i + 1));
        i += 1;
    }
    let r = slice_chars(s, i, s.len());
    assert(r@ =~= s@.skip(i as int));
    r
}

/// The text after a `git@` or, failing that, a `gitea@` prefix.
pub open spec fn scp_rest(url: Seq<char>) -> Option<Seq<char>> {
    if starts_with(url, "git@"@) {
        Some(url.skip("git@"@.len() as int))
    } else if starts_with(url, "gitea@"@) {
        Some(url.skip("gitea@"@.len() as int))
    } else {
        None
    }
}

/// The repository a remote URL names on the Gitea host, if any: scp-style
/// `git@host:owner/repo.git` first, otherwise any URL the `url` crate parses
/// whose host matches.
pub open spec fn parse_remote_url_spec(url: Seq<char>, gitea_host: Seq<char>) -> Option<
    (Seq<char>, Seq<char>),
> {
    match scp_rest(url) {
        Some(rest) => match split_once(rest, ':') {
            Some((host, path)) => if host_matches_spec(host, gitea_host) {
                extract_owner_repo_spec(path)
            } else {
                None
            },
            None => None,
        },
        None => match url_components(url) {
            Some((_, _, Some(host), path)) => if host_matches_spec(host, gitea_host) {
                extract_owner_repo_spec(trim_start_char(path, '/'))
            } else {
                None
            },
            _ => None,
        },
    }
}

/// Parse a git remote URL and extract owner/repo if it matches the Gitea host.
/// Supports `https://host/owner/repo(.git)`, `git@host:owner/repo.git`,
/// `ssh://git@host/owner/repo.git` and `ssh://git@host:2222/owner/repo.git`.
pub fn parse_remote_url(url_str: &str, gitea_host: &str) -> (r: Option<RepoInfo>)
    ensures
        match parse_remote_url_spec(url_str@, gitea_host@) {
            Some((o, n)) => r matches Some(info) && info.owner@ == o && info.name@ == n,
            None => r is None,
        },
{
    let u = chars_of(url_str);
    let git = chars_of("git@");
    let gitea = chars_of("gitea@");
    let rest = if starts_with_exec(&u, &git) {
        let r = slice_chars(&u, git.len(), u.len());
        assert(r@ =~= u@.skip(git@.len() as int));
        Some(r)
    } else if starts_with_exec(&u, &gitea) {
        let r = slice_chars(&u, gitea.len(), u.len());
        assert(r@ =~= u@.skip(gitea@.len() as int));
        Some(r)
    } else {
        None
    };
    match rest {
        Some(rest) => {
            match split_once_exec(&rest, ':') {
                Some((host, path)) => {
                    let hs = string_of(&host);
                    if !host_matches(hs.as_str(), gitea_host) {
                        return None;
                    }
                    extract_owner_repo(&path)
                },
                None => None,
            }
        },
        None => {
            match parse_url(url_str) {
                Ok(parts) => {
                    match parts.host {
                        Some(h) => {
                            if !host_matches(h.as_str(), gitea_host) {
                                return None;
                            }
                            let pc = chars_of(parts.path.as_str());
                            let p = trim_start_char_exec(&pc, '/');
                            extract_owner_repo(&p)
                        },
                        None => None,
                    }
                },
                Err(_) => None,
            }
        },
    }
}

/// A text without `c` does not split at `c`.
pub proof fn lemma_split_once_none(s: Seq<char>, c: char)
    requires
        !s.contains(c),
    ensures
        split_once(s, c) is None,
{
    lemma_find_from_spec(s, seq![c], 0);
    match crate::text::find_from(s, seq![c], 0) {
        Some(i) => {
            assert(s.subrange(i, i + 1)[0] == s[i]);
            assert(s.contains(s[i]));
        },
        None => {},
    }
}

/// The path `O/N.git` names owner `O` and repository `N` when neither holds
/// a `/`.
proof fn lemma_owner_repo_path(o: Seq<char>, n: Seq<char>)
    requires
        o.len() > 0,
        n.len() > 0,
        !o.contains('/'),
        !n.contains('/'),
    ensures
        extract_owner_repo_spec(o + "/"@ + n + ".git"@) == Some((o, n)),
{
    reveal_strlit("/");
    reveal_strlit(".git");
    let path = o + "/"@ + n + ".git"@;
    assert(path.skip(path.len() - 4) =~= ".git"@);
    let p = strip_suffix_or_same(path, ".git"@);
    assert(p =~= o + seq!['/'] + n);
    lemma_split_once_join(o, '/', n);
    lemma_split_once_none(n, '/');
}

/// An scp-style remote `git@H:O/N.git` or `gitea@H:O/N.git`, for a host `H`
/// that matches the Gitea host (letter case aside) and a non-empty owner
/// `O` and name `N` without `/`, `:` or `@`, names exactly the repository
/// `O/N`, whichever of the two user names it is written with.
pub proof fn lemma_scp_remote_names_repo(h: Seq<char>, g: Seq<char>, o: Seq<char>, n: Seq<char>)
    requires
        ascii_lower(h) == ascii_lower(g),
        !h.contains(':'),
        o.len() > 0,
        n.len() > 0,
        !o.contains('/') && !o.contains(':') && !o.contains('@'),
        !n.contains('/') && !n.contains(':') && !n.contains('@'),
    ensures
        parse_remote_url_spec("git@"@ + h + ":"@ + o + "/"@ + n + ".git"@, g) == Some((o, n)),
        parse_remote_url_spec("gitea@"@ + h + ":"@ + o + "/"@ + n + ".git"@, g) == Some((o, n)),
{
    reveal_strlit("git@");
    reveal_strlit("gitea@");
    reveal_strlit(":");
    reveal_strlit("/");
    reveal_strlit(".git");
    let path = o + "/"@ + n + ".git"@;
    lemma_owner_repo_path(o, n);
    lemma_split_once_join(h, ':', path);
    let u1 = "git@"@ + h + ":"@ + o + "/"@ + n + ".git"@;
    assert(u1.take(4) =~= "git@"@);
    assert(u1.skip(4) =~= h + seq![':'] + path);
    let u2 = "gitea@"@ + h + ":"@ + o + "/"@ + n + ".git"@;
    assert(u2.take(4)[3] == 'e');
    assert(u2.take(4) != "git@"@);
    assert(u2.take(6) =~= "gitea@"@);
    assert(u2.skip(6) =~= h + seq![':'] + path);
}

/// The segments of `s` between `c` characters (`str::split`), with `cur` the
/// segment collected so far.
pub open spec fn split_on_from(s: Seq<char>, c: char, cur: Seq<char>) -> Seq<Seq<char>>
    decreases s.len(),
{
    if s.len() == 0 {
        seq![cur]
    } else if s[0] == c {
        seq![cur] + split_on_from(s.drop_first(), c, seq![])
    } else {
        split_on_from(s.drop_first(), c, cur.push(s[0]))
    }
}

/// The segments of `s` between `c` characters (`str::split`).
pub open spec fn split_on(s: Seq<char>, c: char) -> Seq<Seq<char>> {
    split_on_from(s, c, seq![])
}

/// Splitting always gives at least one piece.
pub proof fn lemma_split_on_from_nonempty(s: Seq<char>, c: char, cur: Seq<char>)
    ensures
        split_on_from(s, c, cur).len() >= 1,
    decreases s.len(),
{
    if s.len() > 0 {
        if s[0] == c {
            lemma_split_on_from_nonempty(s.drop_first(), c, seq![]);
        } else {
            lemma_split_on_from_nonempty(s.drop_first(), c, cur.push(s[0]));
        }
    }
}

/// Splitting always gives at least one piece.
pub proof fn lemma_split_on_nonempty(s: Seq<char>, c: char)
    ensures
        split_on(s, c).len() >= 1,
{
    lemma_split_on_from_nonempty(s, c, seq![]);
}

/// Splits `s` at every `c`.
pub fn split_on_exec(s: &[char], c: char) -> (r: Vec<Vec<char>>)
    ensures
        vviews(r@) == split_on(s@, c),
{
    let mut out: Vec<Vec<char>> = Vec::new();
    let mut cur: Vec<char> = Vec::new();
    let mut i: usize = 0;
    assert(s@.skip(0) =~= s@);
    while i < s.len()
        invariant
            i <= s.len(),
            vviews(out@) + split_on_from(s@.skip(i as int), c, cur@) == split_on(s@, c),
        decreases s.len() - i,
    {
        assert(s@.skip(i as int).drop_first() =~= s@.skip(i + 1));
        if s[i] == c {
            let ghost before = vviews(out@);
            let w = cur;
            out.push(w);
            cur = Vec::new();
            assert(vviews(out@) =~= before.push(w@));
            assert(before + (seq![w@] + split_on_from(s@.skip(i + 1), c, cur@)) =~= vviews(out@)
                + split_on_from(s@.skip(i + 1), c, cur@));
        } else {
            cur.push(s[i]);
        }
        i += 1;
    }
    assert(s@.skip(s.len() as int) =~= Seq::<char>::empty());
    let ghost before = vviews(out@);
    let w = cur;
    out.push(w);
    assert(vviews(out@) =~= before.push(w@));
    assert(before + seq![w@] =~= vviews(out@));
    out
}

/// The `(name, url)` pairs of `git remote -v` output: the first two
/// whitespace-separated fields of every line that has at least two.
pub open spec fn remote_pairs(lines: Seq<Seq<char>>) -> Seq<(Seq<char>, Seq<char>)>
    decreases lines.len(),
{
    if lines.len() == 0 {
        seq![]
    } else {
        let w = split_ws(lines.last());
        let prev = remote_pairs(lines.drop_last());
        if w.len() >= 2 {
            prev.push((w[0], w[1]))
        } else {
            prev
        }
    }
}

/// The remotes named (`origin` is true) or not named `origin`, in order.
pub open spec fn remotes_named_origin(pairs: Seq<(Seq<char>, Seq<char>)>, origin: bool) -> Seq<
    (Seq<char>, Seq<char>),
>
    decreases pairs.len(),
{
    if pairs.len() == 0 {
        seq![]
    } else {
        let prev = remotes_named_origin(pairs.drop_last(), origin);
        if (pairs.last().0 == "origin"@) == origin {
            prev.push(pairs.last())
        } else {
            prev
        }
    }
}

/// The first remote in `pairs` that names a repository on the host.
pub open spec fn first_matching_remote(
    pairs: Seq<(Seq<char>, Seq<char>)>,
    host: Seq<char>,
) -> Option<(Seq<char>, Seq<char>)>
    decreases pairs.len(),
{
    if pairs.len() == 0 {
        None
    } else {
        match parse_remote_url_spec(pairs[0].1, host) {
            Some(r) => Some(r),
            None => first_matching_remote(pairs.drop_first(), host),
        }
    }
}

/// The repository named by the remotes listed in `out`, `origin` first (the
/// others keep their order).
pub open spec fn repo_from_remotes_spec(out: Seq<char>, host: Seq<char>) -> Option<
    (Seq<char>, Seq<char>),
> {
    let pairs = remote_pairs(split_on(out, '\n'));
    first_matching_remote(
        remotes_named_origin(pairs, true) + remotes_named_origin(pairs, false),
        host,
    )
}

/// What running `git remote -v` gave.
pub enum GitRemoteProbe {
    /// `git` could not be started.
    SpawnFailed,
    /// `git` exited with a failure status.
    Failed,
    /// `git` succeeded with this standard output.
    Output(String),
}

/// The `(name, url)` pairs of the listed lines.
fn remote_pairs_exec(lines: &Vec<Vec<char>>) -> (r: Vec<(Vec<char>, Vec<char>)>)
    ensures
        r@.map_values(|p: (Vec<char>, Vec<char>)| (p.0@, p.1@)) == remote_pairs(vviews(lines@)),
{
    let mut r: Vec<(Vec<char>, Vec<char>)> = Vec::new();
    let mut i: usize = 0;
    assert(vviews(lines@).take(0) =~= Seq::<Seq<char>>::empty());
    while i < lines.len()
        invariant
            i <= lines.len(),
            r@.map_values(|p: (Vec<char>, Vec<char>)| (p.0@, p.1@)) == remote_pairs(
                vviews(lines@).take(i as int),
            ),
        decreases lines.len() - i,
    {
        let ghost pre = vviews(lines@).take(i as int);
        let ghost nxt = vviews(lines@).take(i + 1);
        assert(nxt.drop_last() =~= pre);
        assert(nxt.last() == lines@[i as int]@);
        let w = split_ws_exec(lines[i].as_slice());
        if w.len() >= 2 {
            let ghost before = r@.map_values(|p: (Vec<char>, Vec<char>)| (p.0@, p.1@));
            let a = slice_chars(&w[0], 0, w[0].len());
            let b = slice_chars(&w[1], 0, w[1].len());
            assert(a@ =~= w@[0]@);
            assert(b@ =~= w@[1]@);
            r.push((a, b));
            assert(r@.map_values(|p: (Vec<char>, Vec<char>)| (p.0@, p.1@)) =~= before.push(
                (vviews(w@)[0], vviews(w@)[1]),
            ));
        }
        i += 1;
    }
    assert(vviews(lines@).take(lines.len() as int) =~= vviews(lines@));
    r
}

/// Detect owner/repo from `git remote -v`, trying the remotes called
/// `origin` first and taking the first whose URL names a repository on
/// `gitea_host`.
pub fn detect_repo_from_git(probe: &GitRemoteProbe, gitea_host: &str) -> (r: Result<
    RepoInfo,
    RepoError,
>)
    ensures
        match *probe {
            GitRemoteProbe::SpawnFailed => r matches Err(RepoError::GitFailed),
            GitRemoteProbe::Failed => r matches Err(RepoError::NotARepository),
            GitRemoteProbe::Output(out) => match repo_from_remotes_spec(out@, gitea_host@) {
                Some((o, n)) => r matches Ok(info) && info.owner@ == o && info.name@ == n,
                None => r matches Err(RepoError::NoMatchingRemote(h)) && h@ == gitea_host@,
            },
        },
{
    match probe {
        GitRemoteProbe::SpawnFailed => Err(RepoError::GitFailed),
        GitRemoteProbe::Failed => Err(RepoError::NotARepository),
        GitRemoteProbe::Output(out) => {
            let oc = chars_of(out.as_str());
            let lines = split_on_exec(&oc, '\n');
            let pairs = remote_pairs_exec(&lines);
            let ghost pv = pairs@.map_values(|p: (Vec<char>, Vec<char>)| (p.0@, p.1@));
            let origin = chars_of("origin");
            let mut pass: usize = 0;
            let ghost ordered = remotes_named_origin(pv, true) + remotes_named_origin(pv, false);
            // Remotes already tried, in the order tried.
            let ghost mut tried: Seq<(Seq<char>, Seq<char>)> = seq![];
            assert(ordered.skip(0) =~= ordered);
            assert(ordered.take(0) =~= tried);
            while pass < 2
                invariant
                    pass <= 2,
                    pv == pairs@.map_values(|p: (Vec<char>, Vec<char>)| (p.0@, p.1@)),
                    pv == remote_pairs(split_on(out@, '\n')),
                    *probe == GitRemoteProbe::Output(*out),
                    origin@ == "origin"@,
                    ordered == remotes_named_origin(pv, true) + remotes_named_origin(pv, false),
                    pass == 0 ==> tried == Seq::<(Seq<char>, Seq<char>)>::empty(),
                    pass == 1 ==> tried == remotes_named_origin(pv, true),
                    pass == 2 ==> tried == ordered,
                    first_matching_remote(ordered, gitea_host@) == first_matching_remote(
                        ordered.skip(tried.len() as int),
                        gitea_host@,
                    ),
                    tried.len() <= ordered.len(),
                    ordered.take(tried.len() as int) == tried,
                decreases 2 - pass,
            {
                let want_origin = pass == 0;
                let mut k: usize = 0;
                let ghost start = tried;
                assert(start + Seq::<(Seq<char>, Seq<char>)>::empty() =~= start);
                assert(remotes_named_origin(pv.take(0), want_origin) =~= Seq::<
                    (Seq<char>, Seq<char>),
                >::empty()) by {
                    assert(pv.take(0) =~= Seq::<(Seq<char>, Seq<char>)>::empty());
                }
                while k < pairs.len()
                    invariant
                        k <= pairs.len(),
                        pass < 2,
                        want_origin == (pass == 0),
                        pv == pairs@.map_values(|p: (Vec<char>, Vec<char>)| (p.0@, p.1@)),
                        pv == remote_pairs(split_on(out@, '\n')),
                        *probe == GitRemoteProbe::Output(*out),
                        origin@ == "origin"@,
                        ordered == remotes_named_origin(pv, true) + remotes_named_origin(pv, false),
                        pass == 0 ==> start == Seq::<(Seq<char>, Seq<char>)>::empty(),
                        pass == 1 ==> start == remotes_named_origin(pv, true),
                        tried == start + remotes_named_origin(pv.take(k as int), want_origin),
                        first_matching_remote(ordered, gitea_host@) == first_matching_remote(
                            ordered.skip(tried.len() as int),
                            gitea_host@,
                        ),
                        tried.len() <= ordered.len(),
                        ordered.take(tried.len() as int) == tried,
                    decreases pairs.len() - k,
                {
                    proof {
                        lemma_named_prefix(pv, k as int, want_origin);
                    }
                    let is_origin = eq_chars(&pairs[k].0, &origin);
                    assert(pv[k as int] == (pairs@[k as int].0@, pairs@[k as int].1@));
                    if is_origin == want_origin {
                        let us = string_of(&pairs[k].1);
                        proof {
                            lemma_ordered_next(pv, ordered, start, k as int, want_origin, pass as int);
                        }
                        let ghost rest = ordered.skip(tried.len() as int);
                        assert(rest[0] == pv[k as int]);
                        assert(rest.drop_first() =~= ordered.skip(tried.len() + 1 as int));
                        match parse_remote_url(us.as_str(), gitea_host) {
                            Some(info) => {
                                assert(rest.len() > 0);
                                assert(parse_remote_url_spec(rest[0].1, gitea_host@) == Some(
                                    (info.owner@, info.name@),
                                ));
                                assert(first_matching_remote(rest, gitea_host@) == Some(
                                    (info.owner@, info.name@),
                                ));
                                assert(first_matching_remote(ordered, gitea_host@) == Some(
                                    (info.owner@, info.name@),
                                ));
                                assert(repo_from_remotes_spec(out@, gitea_host@) == Some(
                                    (info.owner@, info.name@),
                                ));
                                return Ok(info);
                            },
                            None => {},
                        }
                        proof {
                            tried = tried.push(pv[k as int]);
                            assert(ordered.take(tried.len() as int) =~= tried);
                        }
                    }
                    proof {
                        assert(pv.take(k + 1).drop_last() =~= pv.take(k as int));
                    }
                    k += 1;
                }
                assert(pv.take(pairs.len() as int) =~= pv);
                pass += 1;
                proof {
                    if pass == 2 {
                        assert(tried =~= ordered);
                    } else {
                        assert(tried =~= remotes_named_origin(pv, true));
                    }
                }
            }
            assert(ordered.skip(ordered.len() as int) =~= Seq::<(Seq<char>, Seq<char>)>::empty());
            Err(RepoError::NoMatchingRemote(string_of(&chars_of(gitea_host))))
        },
    }
}

/// The remotes of a prefix grow by the next pair when it qualifies.
proof fn lemma_named_prefix(pv: Seq<(Seq<char>, Seq<char>)>, k: int, origin: bool)
    requires
        0 <= k < pv.len(),
    ensures
        remotes_named_origin(pv.take(k + 1), origin) == if (pv[k].0 == "origin"@) == origin {
            remotes_named_origin(pv.take(k), origin).push(pv[k])
        } else {
            remotes_named_origin(pv.take(k), origin)
        },
{
    assert(pv.take(k + 1).drop_last() =~= pv.take(k));
}

/// The next qualifying pair is the next element of the tried order.
proof fn lemma_ordered_next(
    pv: Seq<(Seq<char>, Seq<char>)>,
    ordered: Seq<(Seq<char>, Seq<char>)>,
    start: Seq<(Seq<char>, Seq<char>)>,
    k: int,
    origin: bool,
    pass: int,
)
    requires
        0 <= k < pv.len(),
        0 <= pass < 2,
        origin == (pass == 0),
        ordered == remotes_named_origin(pv, true) + remotes_named_origin(pv, false),
        pass == 0 ==> start == Seq::<(Seq<char>, Seq<char>)>::empty(),
        pass == 1 ==> start == remotes_named_origin(pv, true),
        (pv[k].0 == "origin"@) == origin,
    ensures
        ({
            let tried = start + remotes_named_origin(pv.take(k), origin);
            &&& tried.len() < ordered.len()
            &&& ordered[tried.len() as int] == pv[k]
        }),
{
    lemma_named_prefix(pv, k, origin);
    lemma_named_is_prefix(pv, k + 1, origin);
    let part = remotes_named_origin(pv, origin);
    let pre = remotes_named_origin(pv.take(k + 1), origin);
    assert(pre.len() <= part.len());
    assert(part[pre.len() - 1] == pre[pre.len() - 1]);
}

/// The qualifying remotes of a prefix are a prefix of the qualifying remotes.
proof fn lemma_named_is_prefix(pv: Seq<(Seq<char>, Seq<char>)>, k: int, origin: bool)
    requires
        0 <= k <= pv.len(),
    ensures
        remotes_named_origin(pv.take(k), origin).len() <= remotes_named_origin(pv, origin).len(),
        forall|j: int|
            0 <= j < remotes_named_origin(pv.take(k), origin).len() ==> #[trigger] remotes_named_origin(
                pv.take(k),
                origin,
            )[j] == remotes_named_origin(pv, origin)[j],
    decreases pv.len() - k,
{
    if k == pv.len() {
        assert(pv.take(k) =~= pv);
    } else {
        lemma_named_is_prefix(pv, k + 1, origin);
        lemma_named_prefix(pv, k, origin);
        let pre = remotes_named_origin(pv.take(k), origin);
        let nxt = remotes_named_origin(pv.take(k + 1), origin);
        assert forall|j: int| 0 <= j < pre.len() implies #[trigger] pre[j] == remotes_named_origin(
            pv,
            origin,
        )[j] by {
            assert(pre[j] == nxt[j]);
        }
    }
}

/// Resolve the repository from the explicit `-R` argument, else the
/// `GITEA_REPO` environment value. `None` means neither is given and the
/// repository must be detected from the git remotes.
pub fn resolve_repo(explicit: Option<&str>, env_repo: Option<&str>) -> (r: Option<
    Result<RepoInfo, RepoError>,
>)
    ensures
        match (explicit, env_repo) {
            (Some(s), _) | (None, Some(s)) => match parse_repo_spec(s@) {
                Some((o, n)) => r matches Some(Ok(info)) && info.owner@ == o && info.name@ == n,
                None => r matches Some(Err(RepoError::Format(t))) && t@ == s@,
            },
            (None, None) => r is None,
        },
{
    match explicit {
        Some(s) => Some(parse_repo(s)),
        None => match env_repo {
            Some(s) => Some(parse_repo(s)),
            None => None,
        },
    }
}

} // verus!
