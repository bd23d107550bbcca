//! `gt milestone`: the listing, the view of one milestone and the messages
//! of the milestone subcommands.
use vstd::prelude::*;

use crate::issue::{body_lines, body_lines_exec, num, rows_of, when_exec, when_text};
use crate::runner::{cut_bytes, cut_bytes_ok, cut_bytes_spec};
use crate::text::{
    append_lines, chars_of, dec_i64, dec_int, extend_chars, extend_str, opt_or, opt_or_exec,
    pad_right, pad_right_exec, push_line, string_of, strs,
};
use crate::time::{date_text, utc_date};

verus! {

/// The fields of a milestone that the commands read.
#[derive(Debug, Clone, Default)]
pub struct Milestone {
    pub id: Option<i64>,
    pub title: Option<String>,
    /// `open` or `closed`.
    pub state: Option<String>,
    pub open_issues: Option<i64>,
    pub closed_issues: Option<i64>,
    pub updated_at: Option<i64>,
    /// Due date (Unix seconds).
    pub due_on: Option<i64>,
    pub description: Option<String>,
}

/// The options of `gt milestone create`.
#[derive(Debug, Clone)]
pub struct CreateArgs {
    pub title: String,
    pub description: Option<String>,
    pub repo: Option<String>,
}

/// The subcommands of `gt milestone`; each may name the repository.
#[derive(Debug, Clone)]
pub enum MilestoneAction {
    List { repo: Option<String>, state: String, json: bool },
    Create(CreateArgs),
    View { id: i64, repo: Option<String>, json: bool },
    Close { id: i64, repo: Option<String> },
    Reopen { id: i64, repo: Option<String> },
}

/// `gt milestone`.
#[derive(Debug, Clone)]
pub struct MilestoneCommand {
    pub action: MilestoneAction,
}

/// The row of `gt milestone list`: id, title (cut to 38 bytes), open and
/// closed counts and age, in columns of 6, 40, 8 and 8 characters.
pub open spec fn milestone_row_spec(m: Milestone, now: i64) -> Seq<char> {
    pad_right(dec_int(num(m.id)), 6) + " "@ + pad_right(
        cut_bytes_spec(opt_or(m.title, ""@), 38),
        40,
    ) + " "@ + pad_right(dec_int(num(m.open_issues)), 8) + " "@ + pad_right(
        dec_int(num(m.closed_issues)),
        8,
    ) + " "@ + when_text(m.updated_at, now)
}

/// The title of a row is cut on a character boundary.
pub open spec fn milestone_row_ok(m: Milestone) -> bool {
    cut_bytes_ok(opt_or(m.title, ""@), 38)
}

/// One row of `gt milestone list`.
pub fn milestone_row(m: &Milestone, now: i64) -> (s: String)
    requires
        milestone_row_ok(*m),
    ensures
        s@ == milestone_row_spec(*m, now),
{
    let title = string_of(&opt_or_exec(&m.title, ""));
    let mut v = pad_right_exec(&dec_i64(match m.id {
        Some(x) => x,
        None => 0,
    }), 6);
    extend_str(&mut v, " ");
    extend_chars(&mut v, &pad_right_exec(&chars_of(cut_bytes(title.as_str(), 38).as_str()), 40));
    extend_str(&mut v, " ");
    extend_chars(&mut v, &pad_right_exec(&dec_i64(match m.open_issues {
        Some(x) => x,
        None => 0,
    }), 8));
    extend_str(&mut v, " ");
    extend_chars(&mut v, &pad_right_exec(&dec_i64(match m.closed_issues {
        Some(x) => x,
        None => 0,
    }), 8));
    extend_str(&mut v, " ");
    extend_chars(&mut v, &when_exec(m.updated_at, now));
    string_of(&v)
}

/// The header row of `gt milestone list` on a terminal.
pub open spec fn milestone_header_spec() -> Seq<char> {
    pad_right("ID"@, 6) + " "@ + pad_right("TITLE"@, 40) + " "@ + pad_right("OPEN"@, 8) + " "@
        + pad_right("CLOSED"@, 8) + " UPDATED"@
}

/// The lines of `gt milestone list` (the caller reports an empty listing).
pub open spec fn milestone_list_spec(ms: Seq<Milestone>, is_tty: bool, now: i64) -> Seq<Seq<char>> {
    (if is_tty {
        seq![milestone_header_spec()]
    } else {
        seq![]
    }) + rows_of(ms, now, |m: Milestone, n: i64| milestone_row_spec(m, n))
}

/// The lines of `gt milestone list`.
pub fn milestone_list_lines(ms: &[Milestone], is_tty: bool, now: i64) -> (r: Vec<String>)
    requires
        forall|k: int| 0 <= k < ms@.len() ==> milestone_row_ok(#[trigger] ms@[k]),
    ensures
        strs(r@) == milestone_list_spec(ms@, is_tty, now),
{
    let mut out: Vec<String> = Vec::new();
    if is_tty {
        let mut h = pad_right_exec(&chars_of("ID"), 6);
        extend_str(&mut h, " ");
        extend_chars(&mut h, &pad_right_exec(&chars_of("TITLE"), 40));
        extend_str(&mut h, " ");
        extend_chars(&mut h, &pad_right_exec(&chars_of("OPEN"), 8));
        extend_str(&mut h, " ");
        extend_chars(&mut h, &pad_right_exec(&chars_of("CLOSED"), 8));
        extend_str(&mut h, " UPDATED");
        push_line(&mut out, &h);
    }
    let ghost head = strs(out@);
    let ghost rows = rows_of(ms@, now, |m: Milestone, n: i64| milestone_row_spec(m, n));
    let mut k: usize = 0;
    while k < ms.len()
        invariant
            k <= ms@.len(),
            forall|j: int| 0 <= j < ms@.len() ==> milestone_row_ok(#[trigger] ms@[j]),
            rows == rows_of(ms@, now, |m: Milestone, n: i64| milestone_row_spec(m, n)),
            strs(out@) == head + rows.take(k as int),
        decreases ms.len() - k,
    {
        let row = milestone_row(&ms[k], now);
        let ghost before = strs(out@);
        out.push(row);
        assert(strs(out@) =~= before.push(rows[k as int]));
        assert(rows.take(k + 1) =~= rows.take(k as int).push(rows[k as int]));
        k += 1;
    }
    assert(rows.take(ms.len() as int) =~= rows);
    out
}

/// The lines of `gt milestone view`.
pub open spec fn milestone_view_spec(m: Milestone) -> Seq<Seq<char>> {
    seq![
        opt_or(m.title, "(no title)"@) + " #"@ + dec_int(num(m.id)),
        opt_or(m.state, ""@) + " -- "@ + dec_int(num(m.open_issues)) + " open, "@ + dec_int(
            num(m.closed_issues),
        ) + " closed"@,
    ] + match m.due_on {
        Some(d) => seq!["Due: "@ + date_text(d)],
        None => seq![],
    } + body_lines(m.description)
}

/// The lines of `gt milestone view`.
pub fn milestone_view_lines(m: &Milestone) -> (out: Vec<String>)
    ensures
        strs(out@) == milestone_view_spec(*m),
{
    let mut out: Vec<String> = Vec::new();
    let mut a = opt_or_exec(&m.title, "(no title)");
    extend_str(&mut a, " #");
    extend_chars(&mut a, &dec_i64(match m.id {
        Some(x) => x,
        None => 0,
    }));
    push_line(&mut out, &a);
    let mut b = opt_or_exec(&m.state, "");
    extend_str(&mut b, " -- ");
    extend_chars(&mut b, &dec_i64(match m.open_issues {
        Some(x) => x,
        None => 0,
    }));
    extend_str(&mut b, " open, ");
    extend_chars(&mut b, &dec_i64(match m.closed_issues {
        Some(x) => x,
        None => 0,
    }));
    extend_str(&mut b, " closed");
    push_line(&mut out, &b);
    match m.due_on {
        Some(d) => {
            let mut l = chars_of("Due: ");
            match utc_date(d) {
                Some(t) => extend_str(&mut l, t.as_str()),
                None => {
                    assert(l@ =~= l@ + ""@) by {
                        reveal_strlit("");
                    }
                },
            }
            push_line(&mut out, &l);
        },
        None => {},
    }
    append_lines(&mut out, body_lines_exec(&m.description));
    assert(strs(out@) =~= milestone_view_spec(*m));
    out
}

} // verus!
