//! `gt search`: the rows of the repository, issue and user searches.
use vstd::prelude::*;

use crate::issue::{num, rows_of, when_exec, when_text, Issue};
use crate::json::JsonArgs;
use crate::repo_cmd::Repository;
use crate::runner::{cut_bytes, cut_bytes_ok, cut_bytes_spec};
use crate::text::{
    chars_of, dec_i64, dec_int, extend_chars, extend_str, join, join_exec, opt_or, opt_or_exec,
    pad_left, pad_left_exec, pad_right, pad_right_exec, push_line, str_eq, string_of, strs, vviews,
};

verus! {

/// A user found by the search.
#[derive(Debug, Clone, Default)]
pub struct User {
    pub login: Option<String>,
    pub full_name: Option<String>,
    pub email: Option<String>,
}

/// The subcommands of `gt search`.
#[derive(Debug, Clone)]
pub enum SearchAction {
    Repos { query: String, limit: i64, json: JsonArgs },
    /// Search issues, optionally by state and owner.
    Issues { query: String, state: Option<String>, owner: Option<String>, limit: u64, json: JsonArgs },
    Users { query: String, limit: i64, json: JsonArgs },
}

/// `gt search`.
#[derive(Debug, Clone)]
pub struct SearchCommand {
    pub action: SearchAction,
}

/// The flags shown after a repository's name: private, fork, archived.
pub open spec fn repo_flags(r: Repository) -> Seq<Seq<char>> {
    (if r.private == Some(true) {
        seq!["private"@]
    } else {
        seq![]
    }) + (if r.fork == Some(true) {
        seq!["fork"@]
    } else {
        seq![]
    }) + (if r.archived == Some(true) {
        seq!["archived"@]
    } else {
        seq![]
    })
}

/// The name column: the name, then its flags in brackets when it has any.
pub open spec fn repo_name_display(r: Repository) -> Seq<char> {
    let flags = repo_flags(r);
    if flags.len() == 0 {
        opt_or(r.full_name, ""@)
    } else {
        opt_or(r.full_name, ""@) + " ("@ + join(flags, ", "@) + ")"@
    }
}

/// The row of `gt search repos`: name (with flags), description (cut to 43
/// bytes), and stars and forks right-aligned, in columns of 35, 45, 5 and 5.
pub open spec fn repo_search_row_spec(r: Repository) -> Seq<char> {
    pad_right(repo_name_display(r), 35) + " "@ + pad_right(
        cut_bytes_spec(opt_or(r.description, ""@), 43),
        45,
    ) + " "@ + pad_left(dec_int(num(r.stars_count)), 5) + " "@ + pad_left(
        dec_int(num(r.forks_count)),
        5,
    )
}

/// The description of a row is cut on a character boundary.
pub open spec fn repo_search_row_ok(r: Repository) -> bool {
    cut_bytes_ok(opt_or(r.description, ""@), 43)
}

/// One row of `gt search repos`.
pub fn repo_search_row(r: &Repository) -> (s: String)
    requires
        repo_search_row_ok(*r),
    ensures
        s@ == repo_search_row_spec(*r),
{
    let mut flags: Vec<Vec<char>> = Vec::new();
    if r.private == Some(true) {
        flags.push(chars_of("private"));
    }
    if r.fork == Some(true) {
        flags.push(chars_of("fork"));
    }
    if r.archived == Some(true) {
        flags.push(chars_of("archived"));
    }
    assert(vviews(flags@) =~= repo_flags(*r));
    let mut name = opt_or_exec(&r.full_name, "");
    if flags.len() > 0 {
        extend_str(&mut name, " (");
        extend_chars(&mut name, &join_exec(&flags, &chars_of(", ")));
        extend_str(&mut name, ")");
    }
    let desc = string_of(&opt_or_exec(&r.description, ""));
    let mut v = pad_right_exec(&name, 35);
    extend_str(&mut v, " ");
    extend_chars(&mut v, &pad_right_exec(&chars_of(cut_bytes(desc.as_str(), 43).as_str()), 45));
    extend_str(&mut v, " ");
    extend_chars(&mut v, &pad_left_exec(&dec_i64(match r.stars_count {
        Some(x) => x,
        None => 0,
    }), 5));
    extend_str(&mut v, " ");
    extend_chars(&mut v, &pad_left_exec(&dec_i64(match r.forks_count {
        Some(x) => x,
        None => 0,
    }), 5));
    string_of(&v)
}

/// The lines of `gt search repos` (the caller reports an empty result).
pub open spec fn repo_search_spec(rs: Seq<Repository>, is_tty: bool) -> Seq<Seq<char>> {
    (if is_tty {
        seq![
            pad_right("NAME"@, 35) + " "@ + pad_right("DESCRIPTION"@, 45) + " "@ + pad_left("★"@, 5)
                + " "@ + pad_left("⑂"@, 5),
        ]
    } else {
        seq![]
    }) + Seq::new(rs.len(), |k: int| repo_search_row_spec(rs[k]))
}

/// The lines of `gt search repos`.
pub fn repo_search_lines(rs: &[Repository], is_tty: bool) -> (out: Vec<String>)
    requires
        forall|k: int| 0 <= k < rs@.len() ==> repo_search_row_ok(#[trigger] rs@[k]),
    ensures
        strs(out@) == repo_search_spec(rs@, is_tty),
{
    let mut out: Vec<String> = Vec::new();
    if is_tty {
        let mut h = pad_right_exec(&chars_of("NAME"), 35);
        extend_str(&mut h, " ");
        extend_chars(&mut h, &pad_right_exec(&chars_of("DESCRIPTION"), 45));
        extend_str(&mut h, " ");
        extend_chars(&mut h, &pad_left_exec(&chars_of("★"), 5));
        extend_str(&mut h, " ");
        extend_chars(&mut h, &pad_left_exec(&chars_of("⑂"), 5));
        push_line(&mut out, &h);
    }
    let ghost head = strs(out@);
    let ghost rows = Seq::new(rs@.len(), |k: int| repo_search_row_spec(rs@[k]));
    let mut k: usize = 0;
    while k < rs.len()
        invariant
            k <= rs@.len(),
            forall|j: int| 0 <= j < rs@.len() ==> repo_search_row_ok(#[trigger] rs@[j]),
            rows == Seq::new(rs@.len(), |k: int| repo_search_row_spec(rs@[k])),
            strs(out@) == head + rows.take(k as int),
        decreases rs.len() - k,
    {
        let row = repo_search_row(&rs[k]);
        let ghost before = strs(out@);
        out.push(row);
        assert(strs(out@) =~= before.push(rows[k as int]));
        assert(rows.take(k + 1) =~= rows.take(k as int).push(rows[k as int]));
        k += 1;
    }
    assert(rows.take(rs.len() as int) =~= rows);
    out
}

/// Checks `--state` of the issue search: absent, `open` or `closed`.
pub fn check_search_state(state: &Option<String>) -> (r: Result<(), String>)
    ensures
        match state {
            None => r is Ok,
            Some(s) => if s@ == "open"@ || s@ == "closed"@ {
                r is Ok
            } else {
                r matches Err(m) && m@ == "Invalid state: "@ + s@ + ". Use open or closed"@
            },
        },
{
    match state {
        None => Ok(()),
        Some(s) => {
            if str_eq(s.as_str(), "open") || str_eq(s.as_str(), "closed") {
                Ok(())
            } else {
                let mut m = chars_of("Invalid state: ");
                extend_str(&mut m, s.as_str());
                extend_str(&mut m, ". Use open or closed");
                Err(string_of(&m))
            }
        },
    }
}

/// The row of `gt search issues`: repository (cut to 28 bytes), number,
/// title (cut to 38 bytes), state and age, in columns of 30, 6, 40 and 8.
pub open spec fn issue_search_row_spec(i: Issue, now: i64) -> Seq<char> {
    pad_right(cut_bytes_spec(opt_or(i.repository, ""@), 28), 30) + " "@ + pad_right(
        dec_int(num(i.number)),
        6,
    ) + " "@ + pad_right(cut_bytes_spec(opt_or(i.title, ""@), 38), 40) + " "@ + pad_right(
        opt_or(i.state, ""@),
        8,
    ) + " "@ + when_text(i.updated_at, now)
}

/// The cuts of a row fall on character boundaries.
pub open spec fn issue_search_row_ok(i: Issue) -> bool {
    cut_bytes_ok(opt_or(i.repository, ""@), 28) && cut_bytes_ok(opt_or(i.title, ""@), 38)
}

/// One row of `gt search issues`.
pub fn issue_search_row(i: &Issue, now: i64) -> (s: String)
    requires
        issue_search_row_ok(*i),
    ensures
        s@ == issue_search_row_spec(*i, now),
{
    let repo = string_of(&opt_or_exec(&i.repository, ""));
    let title = string_of(&opt_or_exec(&i.title, ""));
    let mut v = pad_right_exec(&chars_of(cut_bytes(repo.as_str(), 28).as_str()), 30);
    extend_str(&mut v, " ");
    extend_chars(&mut v, &pad_right_exec(&dec_i64(match i.number {
        Some(x) => x,
        None => 0,
    }), 6));
    extend_str(&mut v, " ");
    extend_chars(&mut v, &pad_right_exec(&chars_of(cut_bytes(title.as_str(), 38).as_str()), 40));
    extend_str(&mut v, " ");
    extend_chars(&mut v, &pad_right_exec(&opt_or_exec(&i.state, ""), 8));
    extend_str(&mut v, " ");
    extend_chars(&mut v, &when_exec(i.updated_at, now));
    string_of(&v)
}

/// The lines of `gt search issues` (the caller reports an empty result).
pub open spec fn issue_search_spec(is: Seq<Issue>, is_tty: bool, now: i64) -> Seq<Seq<char>> {
    (if is_tty {
        seq![
            pad_right("REPO"@, 30) + " "@ + pad_right("#"@, 6) + " "@ + pad_right("TITLE"@, 40)
                + " "@ + pad_right("STATE"@, 8) + " UPDATED"@,
        ]
    } else {
        seq![]
    }) + rows_of(is, now, |i: Issue, n: i64| issue_search_row_spec(i, n))
}

/// The lines of `gt search issues`.
pub fn issue_search_lines(is: &[Issue], is_tty: bool, now: i64) -> (out: Vec<String>)
    requires
        forall|k: int| 0 <= k < is@.len() ==> issue_search_row_ok(#[trigger] is@[k]),
    ensures
        strs(out@) == issue_search_spec(is@, is_tty, now),
{
    let mut out: Vec<String> = Vec::new();
    if is_tty {
        let mut h = pad_right_exec(&chars_of("REPO"), 30);
        extend_str(&mut h, " ");
        extend_chars(&mut h, &pad_right_exec(&chars_of("#"), 6));
        extend_str(&mut h, " ");
        extend_chars(&mut h, &pad_right_exec(&chars_of("TITLE"), 40));
        extend_str(&mut h, " ");
        extend_chars(&mut h, &pad_right_exec(&chars_of("STATE"), 8));
        extend_str(&mut h, " UPDATED");
        push_line(&mut out, &h);
    }
    let ghost head = strs(out@);
    let ghost rows = rows_of(is@, now, |i: Issue, n: i64| issue_search_row_spec(i, n));
    let mut k: usize = 0;
    while k < is.len()
        invariant
            k <= is@.len(),
            forall|j: int| 0 <= j < is@.len() ==> issue_search_row_ok(#[trigger] is@[j]),
            rows == rows_of(is@, now, |i: Issue, n: i64| issue_search_row_spec(i, n)),
            strs(out@) == head + rows.take(k as int),
        decreases is.len() - k,
    {
        let row = issue_search_row(&is[k], now);
        let ghost before = strs(out@);
        out.push(row);
        assert(strs(out@) =~= before.push(rows[k as int]));
        assert(rows.take(k + 1) =~= rows.take(k as int).push(rows[k as int]));
        k += 1;
    }
    assert(rows.take(is.len() as int) =~= rows);
    out
}

/// The lines of `gt search users` (the caller reports an empty result):
/// login, name and email in columns of 20 and 30 characters.
pub open spec fn user_search_spec(us: Seq<User>, is_tty: bool) -> Seq<Seq<char>> {
    (if is_tty {
        seq![pad_right("LOGIN"@, 20) + " "@ + pad_right("NAME"@, 30) + " EMAIL"@]
    } else {
        seq![]
    }) + Seq::new(
        us.len(),
        |k: int|
            pad_right(opt_or(us[k].login, ""@), 20) + " "@ + pad_right(
                opt_or(us[k].full_name, ""@),
                30,
            ) + " "@ + opt_or(us[k].email, ""@),
    )
}

/// The lines of `gt search users`.
pub fn user_search_lines(us: &[User], is_tty: bool) -> (out: Vec<String>)
    ensures
        strs(out@) == user_search_spec(us@, is_tty),
{
    let mut out: Vec<String> = Vec::new();
    if is_tty {
        let mut h = pad_right_exec(&chars_of("LOGIN"), 20);
        extend_str(&mut h, " ");
        extend_chars(&mut h, &pad_right_exec(&chars_of("NAME"), 30));
        extend_str(&mut h, " EMAIL");
        push_line(&mut out, &h);
    }
    let ghost head = strs(out@);
    let ghost rows = Seq::new(
        us@.len(),
        |k: int|
            pad_right(opt_or(us@[k].login, ""@), 20) + " "@ + pad_right(
                opt_or(us@[k].full_name, ""@),
                30,
            ) + " "@ + opt_or(us@[k].email, ""@),
    );
    let mut k: usize = 0;
    while k < us.len()
        invariant
            k <= us@.len(),
            rows == Seq::new(
                us@.len(),
                |k: int|
                    pad_right(opt_or(us@[k].login, ""@), 20) + " "@ + pad_right(
                        opt_or(us@[k].full_name, ""@),
                        30,
                    ) + " "@ + opt_or(us@[k].email, ""@),
            ),
            strs(out@) == head + rows.take(k as int),
        decreases us.len() - k,
    {
        let u = &us[k];
        let mut v = pad_right_exec(&opt_or_exec(&u.login, ""), 20);
        extend_str(&mut v, " ");
        extend_chars(&mut v, &pad_right_exec(&opt_or_exec(&u.full_name, ""), 30));
        extend_str(&mut v, " ");
        extend_chars(&mut v, &opt_or_exec(&u.email, ""));
        let ghost before = strs(out@);
        push_line(&mut out, &v);
        assert(strs(out@) =~= before.push(rows[k as int]));
        assert(rows.take(k + 1) =~= rows.take(k as int).push(rows[k as int]));
        k += 1;
    }
    assert(rows.take(us.len() as int) =~= rows);
    out
}

} // verus!
