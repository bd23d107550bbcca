//! `gt project` and `gt browse`: project listings and views, and the web
//! address that `browse` opens.
use vstd::prelude::*;

use crate::issue::{body_lines, body_lines_exec, num};
use crate::json::JsonArgs;
use crate::repo::{RepoArgs, RepoInfo};
use crate::text::{
    append_lines, chars_of, dec_i64, dec_int, extend_chars, extend_str, opt_or, opt_or_exec,
    pad_right, pad_right_exec, push_line, string_of, strs, trim_end_char, trim_end_char_exec,
};

verus! {

/// A project board, or a column of one (`state` unused for columns).
#[derive(Debug, Clone, Default)]
pub struct Project {
    pub id: Option<i64>,
    pub title: Option<String>,
    /// `open` or `closed`.
    pub state: Option<String>,
    pub description: Option<String>,
}

/// A column of a project board.
#[derive(Debug, Clone, Default)]
pub struct Column {
    pub id: Option<i64>,
    pub title: Option<String>,
    pub color: Option<String>,
}

/// The subcommands of `gt project column`.
#[derive(Debug, Clone)]
pub enum ColumnAction {
    List { project_id: i64, json: JsonArgs },
    Create { project_id: i64, title: String, color: Option<String> },
}

/// The subcommands of `gt project`.
#[derive(Debug, Clone)]
pub enum ProjectAction {
    List { json: JsonArgs },
    View { id: i64, json: bool },
    Create { title: String, description: Option<String> },
    Close { id: i64 },
    Reopen { id: i64 },
    Column(ColumnAction),
}

/// `gt project`: the repository option and the subcommand.
#[derive(Debug, Clone)]
pub struct ProjectCommand {
    pub repo: RepoArgs,
    pub action: ProjectAction,
}

/// `gt browse`: an issue or pull request number, the repository, and
/// whether to open the settings.
#[derive(Debug, Clone)]
pub struct BrowseCommand {
    pub number: Option<i64>,
    pub repo: Option<String>,
    pub settings: bool,
}

/// The lines of `gt project list` (the caller reports an empty listing):
/// id, title and state in columns of 6 and 40 characters.
pub open spec fn project_list_spec(ps: Seq<Project>, is_tty: bool) -> Seq<Seq<char>> {
    (if is_tty {
        seq![pad_right("ID"@, 6) + " "@ + pad_right("TITLE"@, 40) + " STATE"@]
    } else {
        seq![]
    }) + Seq::new(
        ps.len(),
        |k: int|
            pad_right(dec_int(num(ps[k].id)), 6) + " "@ + pad_right(opt_or(ps[k].title, ""@), 40)
                + " "@ + opt_or(ps[k].state, ""@),
    )
}

/// The lines of `gt project list`.
pub fn project_list_lines(ps: &[Project], is_tty: bool) -> (out: Vec<String>)
    ensures
        strs(out@) == project_list_spec(ps@, is_tty),
{
    let mut out: Vec<String> = Vec::new();
    if is_tty {
        let mut h = pad_right_exec(&chars_of("ID"), 6);
        extend_str(&mut h, " ");
        extend_chars(&mut h, &pad_right_exec(&chars_of("TITLE"), 40));
        extend_str(&mut h, " STATE");
        push_line(&mut out, &h);
    }
    let ghost head = strs(out@);
    let ghost rows = Seq::new(
        ps@.len(),
        |k: int|
            pad_right(dec_int(num(ps@[k].id)), 6) + " "@ + pad_right(opt_or(ps@[k].title, ""@), 40)
                + " "@ + opt_or(ps@[k].state, ""@),
    );
    let mut k: usize = 0;
    while k < ps.len()
        invariant
            k <= ps@.len(),
            rows == Seq::new(
                ps@.len(),
                |k: int|
                    pad_right(dec_int(num(ps@[k].id)), 6) + " "@ + pad_right(
                        opt_or(ps@[k].title, ""@),
                        40,
                    ) + " "@ + opt_or(ps@[k].state, ""@),
            ),
            strs(out@) == head + rows.take(k as int),
        decreases ps.len() - k,
    {
        let p = &ps[k];
        let mut v = pad_right_exec(&dec_i64(match p.id {
            Some(x) => x,
            None => 0,
        }), 6);
        extend_str(&mut v, " ");
        extend_chars(&mut v, &pad_right_exec(&opt_or_exec(&p.title, ""), 40));
        extend_str(&mut v, " ");
        extend_chars(&mut v, &opt_or_exec(&p.state, ""));
        let ghost before = strs(out@);
        push_line(&mut out, &v);
        assert(strs(out@) =~= before.push(rows[k as int]));
        assert(rows.take(k + 1) =~= rows.take(k as int).push(rows[k as int]));
        k += 1;
    }
    assert(rows.take(ps.len() as int) =~= rows);
    out
}

/// The lines of `gt project view`.
pub open spec fn project_view_spec(p: Project) -> Seq<Seq<char>> {
    seq![opt_or(p.title, "(no title)"@) + " (#"@ + dec_int(num(p.id)) + ")"@, opt_or(p.state, ""@)]
        + body_lines(p.description)
}

/// The lines of `gt project view`.
pub fn project_view_lines(p: &Project) -> (out: Vec<String>)
    ensures
        strs(out@) == project_view_spec(*p),
{
    let mut out: Vec<String> = Vec::new();
    let mut a = opt_or_exec(&p.title, "(no title)");
    extend_str(&mut a, " (#");
    extend_chars(&mut a, &dec_i64(match p.id {
        Some(x) => x,
        None => 0,
    }));
    extend_str(&mut a, ")");
    push_line(&mut out, &a);
    push_line(&mut out, &opt_or_exec(&p.state, ""));
    append_lines(&mut out, body_lines_exec(&p.description));
    assert(strs(out@) =~= project_view_spec(*p));
    out
}

/// The lines of `gt project column list` (the caller reports an empty
/// listing): id, title and colour in columns of 6 and 30 characters.
pub open spec fn column_list_spec(cs: Seq<Column>, is_tty: bool) -> Seq<Seq<char>> {
    (if is_tty {
        seq![pad_right("ID"@, 6) + " "@ + pad_right("TITLE"@, 30) + " COLOR"@]
    } else {
        seq![]
    }) + Seq::new(
        cs.len(),
        |k: int|
            pad_right(dec_int(num(cs[k].id)), 6) + " "@ + pad_right(opt_or(cs[k].title, ""@), 30)
                + " "@ + opt_or(cs[k].color, ""@),
    )
}

/// The lines of `gt project column list`.
pub fn column_list_lines(cs: &[Column], is_tty: bool) -> (out: Vec<String>)
    ensures
        strs(out@) == column_list_spec(cs@, is_tty),
{
    let mut out: Vec<String> = Vec::new();
    if is_tty {
        let mut h = pad_right_exec(&chars_of("ID"), 6);
        extend_str(&mut h, " ");
        extend_chars(&mut h, &pad_right_exec(&chars_of("TITLE"), 30));
        extend_str(&mut h, " COLOR");
        push_line(&mut out, &h);
    }
    let ghost head = strs(out@);
    let ghost rows = Seq::new(
        cs@.len(),
        |k: int|
            pad_right(dec_int(num(cs@[k].id)), 6) + " "@ + pad_right(opt_or(cs@[k].title, ""@), 30)
                + " "@ + opt_or(cs@[k].color, ""@),
    );
    let mut k: usize = 0;
    while k < cs.len()
        invariant
            k <= cs@.len(),
            rows == Seq::new(
                cs@.len(),
                |k: int|
                    pad_right(dec_int(num(cs@[k].id)), 6) + " "@ + pad_right(
                        opt_or(cs@[k].title, ""@),
                        30,
                    ) + " "@ + opt_or(cs@[k].color, ""@),
            ),
            strs(out@) == head + rows.take(k as int),
        decreases cs.len() - k,
    {
        let c = &cs[k];
        let mut v = pad_right_exec(&dec_i64(match c.id {
            Some(x) => x,
            None => 0,
        }), 6);
        extend_str(&mut v, " ");
        extend_chars(&mut v, &pad_right_exec(&opt_or_exec(&c.title, ""), 30));
        extend_str(&mut v, " ");
        extend_chars(&mut v, &opt_or_exec(&c.color, ""));
        let ghost before = strs(out@);
        push_line(&mut out, &v);
        assert(strs(out@) =~= before.push(rows[k as int]));
        assert(rows.take(k + 1) =~= rows.take(k as int).push(rows[k as int]));
        k += 1;
    }
    assert(rows.take(cs.len() as int) =~= rows);
    out
}

/// The message after closing or reopening a project.
pub fn project_state_message(id: i64, close: bool) -> (r: String)
    ensures
        r@ == "Project #"@ + dec_int(id as int) + " "@ + (if close {
            "closed"@
        } else {
            "reopened"@
        }),
{
    let mut v = chars_of("Project #");
    extend_chars(&mut v, &dec_i64(id));
    extend_str(&mut v, " ");
    if close {
        extend_str(&mut v, "closed");
    } else {
        extend_str(&mut v, "reopened");
    }
    string_of(&v)
}

/// The page that `gt browse` opens: the repository's page on the
/// instance, its settings with `--settings`, else issue `number` when
/// given.
pub open spec fn browse_url_spec(base: Seq<char>, repo: RepoInfo, settings: bool, number: Option<i64>) -> Seq<
    char,
> {
    let page = trim_end_char(base, '/') + "/"@ + repo.owner@ + "/"@ + repo.name@;
    if settings {
        page + "/settings"@
    } else {
        match number {
            Some(n) => page + "/issues/"@ + dec_int(n as int),
            None => page,
        }
    }
}

/// The page that `gt browse` opens.
pub fn browse_url(base: &str, repo: &RepoInfo, settings: bool, number: Option<i64>) -> (r: String)
    ensures
        r@ == browse_url_spec(base@, *repo, settings, number),
{
    let mut v = trim_end_char_exec(&chars_of(base), '/');
    extend_str(&mut v, "/");
    extend_str(&mut v, repo.owner.as_str());
    extend_str(&mut v, "/");
    extend_str(&mut v, repo.name.as_str());
    if settings {
        extend_str(&mut v, "/settings");
    } else {
        match number {
            Some(n) => {
                extend_str(&mut v, "/issues/");
                extend_chars(&mut v, &dec_i64(n));
            },
            None => {},
        }
    }
    string_of(&v)
}

} // verus!
