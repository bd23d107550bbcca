//! `gt repo`: the view and listing of repositories, the clone URL, and the
//! guard and messages of the repository subcommands.
use vstd::prelude::*;

use crate::issue::{num, rows_of, when_exec, when_text};
use crate::json::JsonArgs;
use crate::repo::RepoArgs;
use crate::text::{
    chars_of, dec_i64, dec_int, extend_chars, extend_str, opt_or, opt_or_exec, pad_right,
    pad_right_exec, push_line, starts_with, starts_with_exec, string_of, strs, trim_end_char,
    trim_end_char_exec,
};

verus! {

/// The fields of a repository that the commands read.
#[derive(Debug, Clone, Default)]
pub struct Repository {
    pub full_name: Option<String>,
    pub description: Option<String>,
    pub default_branch: Option<String>,
    pub stars_count: Option<i64>,
    pub forks_count: Option<i64>,
    pub open_issues_count: Option<i64>,
    pub private: Option<bool>,
    pub fork: Option<bool>,
    pub archived: Option<bool>,
    pub html_url: Option<String>,
    pub updated_at: Option<i64>,
}

/// The subcommands of `gt repo deploy-key`.
#[derive(Debug, Clone)]
pub enum DeployKeyAction {
    List { json: JsonArgs },
    /// Add a key (the key text, or a file holding it).
    Add { title: String, key: String, read_only: bool },
    Delete { id: i64 },
}

/// `gt repo deploy-key`.
#[derive(Debug, Clone)]
pub struct DeployKeyCommand {
    pub action: DeployKeyAction,
}

/// The options of `gt repo edit`.
#[derive(Debug, Clone)]
pub struct EditRepoArgs {
    pub description: Option<String>,
    pub default_branch: Option<String>,
    pub private: Option<bool>,
    pub website: Option<String>,
}

/// The subcommands of `gt repo`.
#[derive(Debug, Clone)]
pub enum RepoAction {
    View { json: bool },
    /// List the repositories of a user or organization, or one's own.
    List { owner: Option<String>, limit: i64, json: JsonArgs },
    Clone { repo: String },
    Create { name: String, description: Option<String>, private: bool },
    Fork { repo: String },
    /// Delete the repository; refused without `confirm`.
    Delete { confirm: bool },
    Edit(EditRepoArgs),
    Archive,
    Unarchive,
    Rename { name: String },
    DeployKey(DeployKeyCommand),
}

/// `gt repo`: the repository option and the subcommand.
#[derive(Debug, Clone)]
pub struct RepoCommand {
    pub repo: RepoArgs,
    pub action: RepoAction,
}

/// The lines of `gt repo view`.
pub open spec fn repo_view_spec(r: Repository) -> Seq<Seq<char>> {
    seq![
        opt_or(r.full_name, ""@),
        opt_or(r.description, "No description"@),
        ""@,
        (if r.private == Some(true) {
            "Private"@
        } else {
            "Public"@
        }) + " — "@ + dec_int(num(r.stars_count)) + " stars — "@ + dec_int(num(r.forks_count))
            + " forks — "@ + dec_int(num(r.open_issues_count)) + " open issues — default: "@
            + opt_or(r.default_branch, "main"@),
    ] + match r.html_url {
        Some(u) => seq![u@],
        None => seq![],
    }
}

/// The lines of `gt repo view`.
pub fn repo_view_lines(r: &Repository) -> (out: Vec<String>)
    ensures
        strs(out@) == repo_view_spec(*r),
{
    let mut out: Vec<String> = Vec::new();
    push_line(&mut out, &opt_or_exec(&r.full_name, ""));
    push_line(&mut out, &opt_or_exec(&r.description, "No description"));
    push_line(&mut out, &chars_of(""));
    let mut l = if r.private == Some(true) {
        chars_of("Private")
    } else {
        chars_of("Public")
    };
    extend_str(&mut l, " — ");
    extend_chars(&mut l, &dec_i64(match r.stars_count {
        Some(x) => x,
        None => 0,
    }));
    extend_str(&mut l, " stars — ");
    extend_chars(&mut l, &dec_i64(match r.forks_count {
        Some(x) => x,
        None => 0,
    }));
    extend_str(&mut l, " forks — ");
    extend_chars(&mut l, &dec_i64(match r.open_issues_count {
        Some(x) => x,
        None => 0,
    }));
    extend_str(&mut l, " open issues — default: ");
    extend_chars(&mut l, &opt_or_exec(&r.default_branch, "main"));
    push_line(&mut out, &l);
    match &r.html_url {
        Some(u) => push_line(&mut out, &chars_of(u.as_str())),
        None => {},
    }
    assert(strs(out@) =~= repo_view_spec(*r));
    out
}

/// The row of `gt repo list`: name, stars and age in columns of 40 and 10
/// characters.
pub open spec fn repo_row_spec(r: Repository, now: i64) -> Seq<char> {
    pad_right(opt_or(r.full_name, ""@), 40) + " "@ + pad_right(dec_int(num(r.stars_count)), 10)
        + " "@ + when_text(r.updated_at, now)
}

/// The lines of `gt repo list` (the caller reports an empty listing).
pub open spec fn repo_list_spec(rs: Seq<Repository>, is_tty: bool, now: i64) -> Seq<Seq<char>> {
    (if is_tty {
        seq![pad_right("REPO"@, 40) + " "@ + pad_right("STARS"@, 10) + " UPDATED"@]
    } else {
        seq![]
    }) + rows_of(rs, now, |r: Repository, n: i64| repo_row_spec(r, n))
}

/// The lines of `gt repo list`.
pub fn repo_list_lines(rs: &[Repository], is_tty: bool, now: i64) -> (out: Vec<String>)
    ensures
        strs(out@) == repo_list_spec(rs@, is_tty, now),
{
    let mut out: Vec<String> = Vec::new();
    if is_tty {
        let mut h = pad_right_exec(&chars_of("REPO"), 40);
        extend_str(&mut h, " ");
        extend_chars(&mut h, &pad_right_exec(&chars_of("STARS"), 10));
        extend_str(&mut h, " UPDATED");
        push_line(&mut out, &h);
    }
    let ghost head = strs(out@);
    let ghost rows = rows_of(rs@, now, |r: Repository, n: i64| repo_row_spec(r, n));
    let mut k: usize = 0;
    while k < rs.len()
        invariant
            k <= rs@.len(),
            rows == rows_of(rs@, now, |r: Repository, n: i64| repo_row_spec(r, n)),
            strs(out@) == head + rows.take(k as int),
        decreases rs.len() - k,
    {
        let r = &rs[k];
        let mut v = pad_right_exec(&opt_or_exec(&r.full_name, ""), 40);
        extend_str(&mut v, " ");
        extend_chars(&mut v, &pad_right_exec(&dec_i64(match r.stars_count {
            Some(x) => x,
            None => 0,
        }), 10));
        extend_str(&mut v, " ");
        extend_chars(&mut v, &when_exec(r.updated_at, now));
        let ghost before = strs(out@);
        push_line(&mut out, &v);
        assert(strs(out@) =~= before.push(rows[k as int]));
        assert(rows.take(k + 1) =~= rows.take(k as int).push(rows[k as int]));
        k += 1;
    }
    assert(rows.take(rs.len() as int) =~= rows);
    out
}

/// The URL `gt repo clone` clones: the instance URL without trailing
/// slashes, the repository with a leading slash, and `.git`.
pub open spec fn clone_url_spec(base: Seq<char>, repo: Seq<char>) -> Seq<char> {
    trim_end_char(base, '/') + (if starts_with(repo, "/"@) {
        repo
    } else {
        "/"@ + repo
    }) + ".git"@
}

/// The URL `gt repo clone` clones.
pub fn clone_url(base: &str, repo: &str) -> (r: String)
    ensures
        r@ == clone_url_spec(base@, repo@),
{
    let mut v = trim_end_char_exec(&chars_of(base), '/');
    let rc = chars_of(repo);
    if starts_with_exec(&rc, &chars_of("/")) {
        extend_chars(&mut v, &rc);
    } else {
        extend_str(&mut v, "/");
        extend_chars(&mut v, &rc);
    }
    extend_str(&mut v, ".git");
    string_of(&v)
}

/// `gt repo delete` needs `--confirm`.
pub fn check_delete(confirm: bool) -> (r: Result<(), String>)
    ensures
        confirm <==> r is Ok,
        r matches Err(m) ==> m@ == "Use --confirm to delete the repository. This cannot be undone."@,
{
    if confirm {
        Ok(())
    } else {
        Err(string_of(&chars_of("Use --confirm to delete the repository. This cannot be undone.")))
    }
}

/// The message after archiving or unarchiving.
pub fn archive_message(archived: bool, owner: &str, name: &str) -> (r: String)
    ensures
        r@ == (if archived {
            "Archived"@
        } else {
            "Unarchived"@
        }) + " repository "@ + owner@ + "/"@ + name@,
{
    let mut v = if archived {
        chars_of("Archived")
    } else {
        chars_of("Unarchived")
    };
    extend_str(&mut v, " repository ");
    extend_str(&mut v, owner);
    extend_str(&mut v, "/");
    extend_str(&mut v, name);
    string_of(&v)
}

/// The message after renaming.
pub fn rename_message(owner: &str, name: &str, new_name: &str) -> (r: String)
    ensures
        r@ == "Renamed "@ + owner@ + "/"@ + name@ + " → "@ + owner@ + "/"@ + new_name@,
{
    let mut v = chars_of("Renamed ");
    extend_str(&mut v, owner);
    extend_str(&mut v, "/");
    extend_str(&mut v, name);
    extend_str(&mut v, " → ");
    extend_str(&mut v, owner);
    extend_str(&mut v, "/");
    extend_str(&mut v, new_name);
    string_of(&v)
}

} // verus!
