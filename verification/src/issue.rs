//! `gt issue`: the listing, the view of one issue, label lookup and the
//! messages printed after each action. The views are lists of lines, each
//! printed with a newline after it.
use vstd::prelude::*;

use crate::json::JsonArgs;
use crate::repo::{split_on, split_on_exec, RepoArgs};
use crate::runner::{cut_bytes, cut_bytes_ok, cut_bytes_spec};
use crate::text::{
    append_lines, chars_of, dec_i64, dec_int, dec_u64, extend_chars, extend_str, join, join_exec,
    opt_or, opt_or_exec, pad_right, pad_right_exec, present, present_exec, push_line, str_eq,
    string_of, strs, trim, trim_exec, vviews,
};
use crate::time::{relative_spec, relative_time_at};

verus! {

/// A comment on an issue or pull request.
#[derive(Debug, Clone, Default)]
pub struct Comment {
    /// Login of the author.
    pub user: Option<String>,
    /// When it was written (Unix seconds).
    pub created_at: Option<i64>,
    pub body: Option<String>,
}

/// The fields of an issue that the commands read.
#[derive(Debug, Clone, Default)]
pub struct Issue {
    pub number: Option<i64>,
    pub title: Option<String>,
    /// `open` or `closed`.
    pub state: Option<String>,
    /// Login of the author.
    pub user: Option<String>,
    pub created_at: Option<i64>,
    pub updated_at: Option<i64>,
    /// The names of the labels (a label may have none).
    pub labels: Vec<Option<String>>,
    /// The logins of the assignees.
    pub assignees: Vec<Option<String>>,
    /// Title of the milestone.
    pub milestone: Option<String>,
    pub body: Option<String>,
    pub html_url: Option<String>,
    /// Number of comments.
    pub comments: Option<i64>,
    /// `owner/name` of the repository.
    pub repository: Option<String>,
}

/// A label of a repository.
#[derive(Debug, Clone, Default)]
pub struct LabelRef {
    pub id: Option<i64>,
    pub name: Option<String>,
}

/// The options of `gt issue list`.
#[derive(Debug, Clone)]
pub struct ListArgs {
    pub state: String,
    pub limit: i64,
    pub json: JsonArgs,
}

/// The options of `gt issue view`.
#[derive(Debug, Clone)]
pub struct ViewArgs {
    pub number: i64,
    pub comments: bool,
    pub json: bool,
}

/// The options of `gt issue create`.
#[derive(Debug, Clone)]
pub struct CreateArgs {
    pub title: Option<String>,
    pub body: Option<String>,
    pub label: Vec<String>,
    pub assignee: Vec<String>,
}

/// The options of `gt issue comment`.
#[derive(Debug, Clone)]
pub struct CommentArgs {
    pub number: i64,
    pub body: String,
}

/// The options of `gt issue edit`.
#[derive(Debug, Clone)]
pub struct EditArgs {
    pub number: i64,
    pub title: Option<String>,
    pub body: Option<String>,
}

/// The subcommands of `gt issue`.
#[derive(Debug, Clone)]
pub enum IssueAction {
    List(ListArgs),
    View(ViewArgs),
    Create(CreateArgs),
    /// Delete an issue (admin only).
    Delete(i64),
    Close(i64),
    Reopen(i64),
    Comment(CommentArgs),
    Edit(EditArgs),
    Status,
}

/// `gt issue`: the repository option and the subcommand.
#[derive(Debug, Clone)]
pub struct IssueCommand {
    pub repo: RepoArgs,
    pub action: IssueAction,
}

/// The number shown for an item (0 when absent).
pub open spec fn num(n: Option<i64>) -> int {
    match n {
        Some(x) => x as int,
        None => 0,
    }
}

/// The relative time of an optional moment (empty when absent).
pub open spec fn when_text(t: Option<i64>, now: i64) -> Seq<char> {
    match t {
        Some(x) => relative_spec(now, x),
        None => ""@,
    }
}

/// The plural ending for `n` things.
pub open spec fn plural(n: int) -> Seq<char> {
    if n == 1 {
        ""@
    } else {
        "s"@
    }
}

/// Labels, assignees and milestone, each line only when there is one.
pub open spec fn meta_lines(
    labels: Seq<Option<String>>,
    assignees: Seq<Option<String>>,
    milestone: Option<String>,
) -> Seq<Seq<char>> {
    (if labels.len() > 0 {
        seq!["Labels: "@ + join(present(labels), ", "@)]
    } else {
        seq![]
    }) + (if assignees.len() > 0 {
        seq!["Assignees: "@ + join(present(assignees), ", "@)]
    } else {
        seq![]
    }) + match milestone {
        Some(t) => seq!["Milestone: "@ + t@],
        None => seq![],
    }
}

/// A blank line and the body, when there is a non-empty body.
pub open spec fn body_lines(body: Option<String>) -> Seq<Seq<char>> {
    match body {
        Some(b) => if b@.len() > 0 {
            seq![""@, b@]
        } else {
            seq![]
        },
        None => seq![],
    }
}

/// A blank line and the web address, when there is one.
pub open spec fn url_lines(url: Option<String>) -> Seq<Seq<char>> {
    match url {
        Some(u) => seq![""@, u@],
        None => seq![],
    }
}

/// Two lines per comment: author and time, then the body.
pub open spec fn comment_entries(cs: Seq<Comment>, now: i64) -> Seq<Seq<char>>
    decreases cs.len(),
{
    if cs.len() == 0 {
        seq![]
    } else {
        let c = cs.last();
        comment_entries(cs.drop_last(), now) + seq![
            "\n"@ + opt_or(c.user, "unknown"@) + " ("@ + when_text(c.created_at, now) + "):"@,
            opt_or(c.body, ""@),
        ]
    }
}

/// The comment section of `--comments`.
pub open spec fn comment_lines(cs: Seq<Comment>, now: i64) -> Seq<Seq<char>> {
    if cs.len() == 0 {
        seq!["\nNo comments."@]
    } else {
        seq!["\n--- "@ + dec_int(cs.len() as int) + " comment"@ + plural(cs.len() as int) + " ---"@]
            + comment_entries(cs, now)
    }
}

/// Without `--comments`: how many there are, when there are any.
pub open spec fn comment_count_lines(count: Option<i64>) -> Seq<Seq<char>> {
    let n = num(count);
    if n > 0 {
        seq!["\n"@ + dec_int(n) + " comment"@ + plural(n) + " (use -c to show)"@]
    } else {
        seq![]
    }
}

/// The comment part of a view: the comments when they were fetched,
/// otherwise their count.
pub open spec fn comments_part(
    fetched: Option<Seq<Comment>>,
    count: Option<i64>,
    now: i64,
) -> Seq<Seq<char>> {
    match fetched {
        Some(cs) => comment_lines(cs, now),
        None => comment_count_lines(count),
    }
}

/// The lines of `gt issue view`.
pub open spec fn issue_view_spec(i: Issue, fetched: Option<Seq<Comment>>, now: i64) -> Seq<
    Seq<char>,
> {
    seq![
        opt_or(i.title, "(no title)"@) + " #"@ + dec_int(num(i.number)),
        opt_or(i.state, ""@) + " — opened by "@ + opt_or(i.user, "unknown"@) + " "@ + when_text(
            i.created_at,
            now,
        ),
    ] + meta_lines(i.labels@, i.assignees@, i.milestone) + body_lines(i.body) + url_lines(
        i.html_url,
    ) + comments_part(fetched, i.comments, now)
}

/// The relative time of an optional moment.
pub fn when_exec(t: Option<i64>, now: i64) -> (r: Vec<char>)
    ensures
        r@ == when_text(t, now),
{
    match t {
        Some(x) => chars_of(relative_time_at(now, x).as_str()),
        None => chars_of(""),
    }
}

/// The metadata lines of a view.
pub fn meta_lines_exec(
    labels: &[Option<String>],
    assignees: &[Option<String>],
    milestone: &Option<String>,
) -> (r: Vec<String>)
    ensures
        strs(r@) == meta_lines(labels@, assignees@, *milestone),
{
    let mut out: Vec<String> = Vec::new();
    let sep = chars_of(", ");
    if labels.len() > 0 {
        let mut l = chars_of("Labels: ");
        extend_chars(&mut l, &join_exec(&present_exec(labels), &sep));
        push_line(&mut out, &l);
    }
    let ghost a = strs(out@);
    if assignees.len() > 0 {
        let mut l = chars_of("Assignees: ");
        extend_chars(&mut l, &join_exec(&present_exec(assignees), &sep));
        push_line(&mut out, &l);
    }
    let ghost b = strs(out@);
    match milestone {
        Some(t) => {
            let mut l = chars_of("Milestone: ");
            extend_str(&mut l, t.as_str());
            push_line(&mut out, &l);
        },
        None => {},
    }
    assert(strs(out@) =~= meta_lines(labels@, assignees@, *milestone));
    out
}

/// The body lines of a view.
pub fn body_lines_exec(body: &Option<String>) -> (r: Vec<String>)
    ensures
        strs(r@) == body_lines(*body),
{
    let mut out: Vec<String> = Vec::new();
    match body {
        Some(b) => {
            let v = chars_of(b.as_str());
            if v.len() > 0 {
                push_line(&mut out, &chars_of(""));
                push_line(&mut out, &v);
            }
        },
        None => {},
    }
    assert(strs(out@) =~= body_lines(*body));
    out
}

/// The address lines of a view.
pub fn url_lines_exec(url: &Option<String>) -> (r: Vec<String>)
    ensures
        strs(r@) == url_lines(*url),
{
    let mut out: Vec<String> = Vec::new();
    match url {
        Some(u) => {
            push_line(&mut out, &chars_of(""));
            push_line(&mut out, &chars_of(u.as_str()));
        },
        None => {},
    }
    assert(strs(out@) =~= url_lines(*url));
    out
}

/// The comment section of a view.
pub fn comments_part_exec(fetched: Option<&[Comment]>, count: Option<i64>, now: i64) -> (r: Vec<
    String,
>)
    ensures
        strs(r@) == comments_part(
            match fetched {
                Some(cs) => Some(cs@),
                None => None,
            },
            count,
            now,
        ),
{
    let mut out: Vec<String> = Vec::new();
    match fetched {
        Some(cs) => {
            if cs.len() == 0 {
                push_line(&mut out, &chars_of("\nNo comments."));
            } else {
                let n = cs.len();
                let mut h = chars_of("\n--- ");
                extend_chars(&mut h, &dec_u64(n as u64));
                extend_str(&mut h, " comment");
                if n != 1 {
                    extend_str(&mut h, "s");
                } else {
                    assert(h@ =~= h@ + ""@) by {
                        reveal_strlit("");
                    }
                }
                extend_str(&mut h, " ---");
                push_line(&mut out, &h);
                let ghost head = strs(out@);
                let mut i: usize = 0;
                assert(cs@.take(0) =~= Seq::<Comment>::empty());
                assert(head + comment_entries(cs@.take(0), now) =~= head);
                while i < n
                    invariant
                        i <= n,
                        n == cs@.len(),
                        strs(out@) == head + comment_entries(cs@.take(i as int), now),
                    decreases n - i,
                {
                    let c = &cs[i];
                    let mut a = chars_of("\n");
                    extend_chars(&mut a, &opt_or_exec(&c.user, "unknown"));
                    extend_str(&mut a, " (");
                    extend_chars(&mut a, &when_exec(c.created_at, now));
                    extend_str(&mut a, "):");
                    push_line(&mut out, &a);
                    push_line(&mut out, &opt_or_exec(&c.body, ""));
                    assert(cs@.take(i + 1).drop_last() =~= cs@.take(i as int));
                    assert(cs@.take(i + 1).last() == cs@[i as int]);
                    i += 1;
                }
                assert(cs@.take(n as int) =~= cs@);
            }
        },
        None => {
            let k: i64 = match count {
                Some(x) => x,
                None => 0,
            };
            if k > 0 {
                let mut l = chars_of("\n");
                extend_chars(&mut l, &dec_i64(k));
                extend_str(&mut l, " comment");
                if k != 1 {
                    extend_str(&mut l, "s");
                } else {
                    assert(l@ =~= l@ + ""@) by {
                        reveal_strlit("");
                    }
                }
                extend_str(&mut l, " (use -c to show)");
                push_line(&mut out, &l);
            }
        },
    }
    assert(strs(out@) =~= comments_part(
        match fetched {
            Some(cs) => Some(cs@),
            None => None,
        },
        count,
        now,
    ));
    out
}

/// The lines of `gt issue view` at time `now`; `comments` holds the
/// comments when `--comments` was given.
pub fn issue_view_lines(issue: &Issue, comments: Option<&[Comment]>, now: i64) -> (r: Vec<String>)
    ensures
        strs(r@) == issue_view_spec(
            *issue,
            match comments {
                Some(cs) => Some(cs@),
                None => None,
            },
            now,
        ),
{
    let mut out: Vec<String> = Vec::new();
    let number: i64 = match issue.number {
        Some(x) => x,
        None => 0,
    };
    let mut l0 = opt_or_exec(&issue.title, "(no title)");
    extend_str(&mut l0, " #");
    extend_chars(&mut l0, &dec_i64(number));
    push_line(&mut out, &l0);
    let mut l1 = opt_or_exec(&issue.state, "");
    extend_str(&mut l1, " — opened by ");
    extend_chars(&mut l1, &opt_or_exec(&issue.user, "unknown"));
    extend_str(&mut l1, " ");
    extend_chars(&mut l1, &when_exec(issue.created_at, now));
    push_line(&mut out, &l1);
    append_lines(&mut out, meta_lines_exec(issue.labels.as_slice(), issue.assignees.as_slice(), &issue.milestone));
    append_lines(&mut out, body_lines_exec(&issue.body));
    append_lines(&mut out, url_lines_exec(&issue.html_url));
    append_lines(&mut out, comments_part_exec(comments, issue.comments, now));
    out
}

/// The row of `gt issue list`: number, title, labels and age in columns
/// of 6, 50 and 20 characters, title and labels truncated to 48 and 18
/// bytes.
pub open spec fn issue_row_spec(i: Issue, now: i64) -> Seq<char> {
    pad_right(dec_int(num(i.number)), 6) + " "@ + pad_right(
        cut_bytes_spec(opt_or(i.title, ""@), 48),
        50,
    ) + " "@ + pad_right(cut_bytes_spec(join(present(i.labels@), ","@), 18), 20) + " "@
        + when_text(i.updated_at, now)
}

/// The cuts of a row fall on character boundaries.
pub open spec fn issue_row_ok(i: Issue) -> bool {
    cut_bytes_ok(opt_or(i.title, ""@), 48) && cut_bytes_ok(join(present(i.labels@), ","@), 18)
}

/// One row of `gt issue list`.
pub fn issue_row(i: &Issue, now: i64) -> (r: String)
    requires
        issue_row_ok(*i),
    ensures
        r@ == issue_row_spec(*i, now),
{
    let title = string_of(&opt_or_exec(&i.title, ""));
    let labels = string_of(&join_exec(&present_exec(i.labels.as_slice()), &chars_of(",")));
    let mut v = pad_right_exec(&dec_i64(match i.number {
        Some(x) => x,
        None => 0,
    }), 6);
    extend_str(&mut v, " ");
    extend_chars(&mut v, &pad_right_exec(&chars_of(cut_bytes(title.as_str(), 48).as_str()), 50));
    extend_str(&mut v, " ");
    extend_chars(&mut v, &pad_right_exec(&chars_of(cut_bytes(labels.as_str(), 18).as_str()), 20));
    extend_str(&mut v, " ");
    extend_chars(&mut v, &when_exec(i.updated_at, now));
    string_of(&v)
}

/// The header row of `gt issue list` on a terminal.
pub open spec fn issue_header_spec() -> Seq<char> {
    pad_right("#"@, 6) + " "@ + pad_right("TITLE"@, 50) + " "@ + pad_right("LABELS"@, 20)
        + " UPDATED"@
}

/// The rows of a listing, each made by `row` from the item and `now`.
pub open spec fn rows_of<T>(items: Seq<T>, now: i64, row: spec_fn(T, i64) -> Seq<char>) -> Seq<
    Seq<char>,
> {
    Seq::new(items.len(), |k: int| row(items[k], now))
}

/// The lines of `gt issue list` (the caller reports an empty listing):
/// the header on a terminal, then one row per issue.
pub open spec fn issue_list_spec(issues: Seq<Issue>, is_tty: bool, now: i64) -> Seq<Seq<char>> {
    (if is_tty {
        seq![issue_header_spec()]
    } else {
        seq![]
    }) + rows_of(issues, now, |i: Issue, n: i64| issue_row_spec(i, n))
}

/// The lines of `gt issue list`.
pub fn issue_list_lines(issues: &[Issue], is_tty: bool, now: i64) -> (r: Vec<String>)
    requires
        forall|k: int| 0 <= k < issues@.len() ==> issue_row_ok(#[trigger] issues@[k]),
    ensures
        strs(r@) == issue_list_spec(issues@, is_tty, now),
{
    let mut out: Vec<String> = Vec::new();
    if is_tty {
        let mut h = pad_right_exec(&chars_of("#"), 6);
        extend_str(&mut h, " ");
        extend_chars(&mut h, &pad_right_exec(&chars_of("TITLE"), 50));
        extend_str(&mut h, " ");
        extend_chars(&mut h, &pad_right_exec(&chars_of("LABELS"), 20));
        extend_str(&mut h, " UPDATED");
        push_line(&mut out, &h);
    }
    let ghost head = strs(out@);
    let ghost rows = rows_of(issues@, now, |i: Issue, n: i64| issue_row_spec(i, n));
    let mut k: usize = 0;
    while k < issues.len()
        invariant
            k <= issues@.len(),
            forall|j: int| 0 <= j < issues@.len() ==> issue_row_ok(#[trigger] issues@[j]),
            rows == rows_of(issues@, now, |i: Issue, n: i64| issue_row_spec(i, n)),
            strs(out@) == head + rows.take(k as int),
        decreases issues.len() - k,
    {
        let r = issue_row(&issues[k], now);
        let ghost before = strs(out@);
        out.push(r);
        assert(strs(out@) =~= before.push(rows[k as int]));
        assert(rows.take(k + 1) =~= rows.take(k as int).push(rows[k as int]));
        k += 1;
    }
    assert(rows.take(issues.len() as int) =~= rows);
    out
}

/// The states `gt issue list` and `gt pr list` accept.
pub open spec fn valid_state(s: Seq<char>) -> bool {
    s == "open"@ || s == "closed"@ || s == "all"@
}

/// The error for any other state.
pub open spec fn invalid_state_message(s: Seq<char>) -> Seq<char> {
    "Invalid state: "@ + s + ". Use open, closed, or all"@
}

/// Checks the `--state` option before anything is fetched.
pub fn check_state(state: &str) -> (r: Result<(), String>)
    ensures
        valid_state(state@) <==> r is Ok,
        r matches Err(m) ==> m@ == invalid_state_message(state@),
{
    if str_eq(state, "open") || str_eq(state, "closed") || str_eq(state, "all") {
        Ok(())
    } else {
        let mut v = chars_of("Invalid state: ");
        extend_str(&mut v, state);
        extend_str(&mut v, ". Use open, closed, or all");
        Err(string_of(&v))
    }
}

/// Whether label `k` is named `name`.
pub open spec fn named(l: LabelRef, name: Seq<char>) -> bool {
    l.name matches Some(n) && n@ == name
}

/// The id of label `k` (0 when it has none).
pub open spec fn label_id(l: LabelRef) -> i64 {
    match l.id {
        Some(x) => x,
        None => 0,
    }
}

/// `k` is the first label named `name`.
pub open spec fn is_first_named(labels: Seq<LabelRef>, name: Seq<char>, k: int) -> bool {
    0 <= k < labels.len() && named(labels[k], name) && forall|j: int|
        0 <= j < k ==> !named(#[trigger] labels[j], name)
}

/// The label named `name` is found: the first such label.
pub fn find_label(labels: &[LabelRef], name: &str) -> (r: Option<usize>)
    ensures
        match r {
            Some(k) => is_first_named(labels@, name@, k as int),
            None => forall|j: int| 0 <= j < labels@.len() ==> !named(#[trigger] labels@[j], name@),
        },
{
    let mut k: usize = 0;
    while k < labels.len()
        invariant
            k <= labels@.len(),
            forall|j: int| 0 <= j < k ==> !named(#[trigger] labels@[j], name@),
        decreases labels.len() - k,
    {
        match &labels[k].name {
            Some(n) => {
                if str_eq(n.as_str(), name) {
                    return Some(k);
                }
            },
            None => {},
        }
        k += 1;
    }
    None
}

/// The id of the first label named `name`, if there is one.
pub open spec fn label_lookup(labels: Seq<LabelRef>, name: Seq<char>) -> Option<i64> {
    if exists|k: int| is_first_named(labels, name, k) {
        Some(label_id(labels[choose|k: int| is_first_named(labels, name, k)]))
    } else {
        None
    }
}

/// There is only one first label with a name.
proof fn lemma_first_named_unique(labels: Seq<LabelRef>, name: Seq<char>, a: int, b: int)
    requires
        is_first_named(labels, name, a),
        is_first_named(labels, name, b),
    ensures
        a == b,
{
    if a < b {
        assert(!named(labels[a], name));
    } else if b < a {
        assert(!named(labels[b], name));
    }
}

/// What the lookup of one name gives, from what `find_label` returned.
proof fn lemma_lookup(labels: Seq<LabelRef>, name: Seq<char>, found: Option<usize>)
    requires
        match found {
            Some(k) => is_first_named(labels, name, k as int),
            None => forall|j: int| 0 <= j < labels.len() ==> !named(#[trigger] labels[j], name),
        },
    ensures
        match found {
            Some(k) => label_lookup(labels, name) == Some(label_id(labels[k as int])),
            None => label_lookup(labels, name) is None,
        },
{
    match found {
        Some(k) => {
            let c = choose|c: int| is_first_named(labels, name, c);
            lemma_first_named_unique(labels, name, c, k as int);
        },
        None => {
            if exists|k: int| is_first_named(labels, name, k) {
                let c = choose|c: int| is_first_named(labels, name, c);
                assert(named(labels[c], name));
            }
        },
    }
}

/// Resolve label names to ids: for each name in order, the id of the first
/// label with that name (0 when it has none); the first name without a
/// label is the error.
pub fn resolve_label_ids(labels: &[LabelRef], names: &[String]) -> (r: Result<Vec<i64>, String>)
    ensures
        match r {
            Ok(ids) => ids@.len() == names@.len() && forall|i: int|
                0 <= i < names@.len() ==> label_lookup(labels@, (#[trigger] names@[i])@) == Some(
                    ids@[i],
                ),
            Err(m) => exists|i: int|
                0 <= i < names@.len() && label_lookup(labels@, (#[trigger] names@[i])@) is None
                    && m@ == "Label not found: "@ + names@[i]@ && forall|p: int|
                    0 <= p < i ==> label_lookup(labels@, (#[trigger] names@[p])@) is Some,
        },
{
    let mut ids: Vec<i64> = Vec::new();
    let mut i: usize = 0;
    while i < names.len()
        invariant
            i <= names@.len(),
            ids@.len() == i,
            forall|p: int|
                0 <= p < i ==> label_lookup(labels@, (#[trigger] names@[p])@) == Some(ids@[p]),
        decreases names.len() - i,
    {
        let found = find_label(labels, names[i].as_str());
        proof {
            lemma_lookup(labels@, names@[i as int]@, found);
        }
        match found {
            Some(k) => {
                let id: i64 = match labels[k].id {
                    Some(x) => x,
                    None => 0,
                };
                ids.push(id);
            },
            None => {
                let mut m = chars_of("Label not found: ");
                extend_str(&mut m, names[i].as_str());
                return Err(string_of(&m));
            },
        }
        i += 1;
    }
    Ok(ids)
}

/// The usernames typed at the assignee prompt: split at commas, trimmed,
/// empty ones dropped.
pub open spec fn assignee_list(input: Seq<char>) -> Seq<Seq<char>> {
    split_on(input, ',').map_values(|p: Seq<char>| trim(p)).filter(|p: Seq<char>| p.len() > 0)
}

/// Parses the comma-separated assignee list typed at the prompt.
pub fn parse_assignees(input: &str) -> (r: Vec<String>)
    ensures
        strs(r@) == assignee_list(input@),
{
    let parts = split_on_exec(&chars_of(input), ',');
    let ghost trimmed = split_on(input@, ',').map_values(|p: Seq<char>| trim(p));
    let mut out: Vec<String> = Vec::new();
    let mut k: usize = 0;
    assert(trimmed.take(0) =~= Seq::<Seq<char>>::empty());
    assert(trimmed.take(0).filter(|p: Seq<char>| p.len() > 0) =~= Seq::<Seq<char>>::empty());
    while k < parts.len()
        invariant
            k <= parts@.len(),
            vviews(parts@) == split_on(input@, ','),
            trimmed == split_on(input@, ',').map_values(|p: Seq<char>| trim(p)),
            strs(out@) == trimmed.take(k as int).filter(|p: Seq<char>| p.len() > 0),
        decreases parts.len() - k,
    {
        let t = trim_exec(&parts[k]);
        assert(t@ == trimmed[k as int]);
        assert(trimmed.take(k + 1).drop_last() =~= trimmed.take(k as int));
        let ghost before = strs(out@);
        if t.len() > 0 {
            push_line(&mut out, &t);
        }
        assert(strs(out@) == trimmed.take(k + 1).filter(|p: Seq<char>| p.len() > 0)) by {
            reveal(Seq::filter);
            assert(trimmed.take(k + 1).last() == t@);
        }
        k += 1;
    }
    assert(trimmed.take(parts.len() as int) =~= trimmed);
    out
}

/// The lines of `gt issue status`: the open issues with their numbers,
/// titles and ages.
pub open spec fn status_lines_spec(owner: Seq<char>, name: Seq<char>, issues: Seq<Issue>, now: i64) -> Seq<
    Seq<char>,
> {
    if issues.len() == 0 {
        seq!["No open issues"@]
    } else {
        seq!["Open issues in "@ + owner + "/"@ + name + ":"@] + rows_of(
            issues,
            now,
            |i: Issue, n: i64|
                "  #"@ + pad_right(dec_int(num(i.number)), 5) + " "@ + opt_or(i.title, ""@) + " ("@
                    + when_text(i.updated_at, n) + ")"@,
        )
    }
}

/// The lines of `gt issue status`.
pub fn issue_status_lines(owner: &str, name: &str, issues: &[Issue], now: i64) -> (r: Vec<String>)
    ensures
        strs(r@) == status_lines_spec(owner@, name@, issues@, now),
{
    let mut out: Vec<String> = Vec::new();
    if issues.len() == 0 {
        push_line(&mut out, &chars_of("No open issues"));
        assert(strs(out@) =~= status_lines_spec(owner@, name@, issues@, now));
        return out;
    }
    let mut h = chars_of("Open issues in ");
    extend_str(&mut h, owner);
    extend_str(&mut h, "/");
    extend_str(&mut h, name);
    extend_str(&mut h, ":");
    push_line(&mut out, &h);
    let ghost head = strs(out@);
    let ghost rows = rows_of(
        issues@,
        now,
        |i: Issue, n: i64|
            "  #"@ + pad_right(dec_int(num(i.number)), 5) + " "@ + opt_or(i.title, ""@) + " ("@
                + when_text(i.updated_at, n) + ")"@,
    );
    let mut k: usize = 0;
    while k < issues.len()
        invariant
            k <= issues@.len(),
            rows == rows_of(
                issues@,
                now,
                |i: Issue, n: i64|
                    "  #"@ + pad_right(dec_int(num(i.number)), 5) + " "@ + opt_or(i.title, ""@)
                        + " ("@ + when_text(i.updated_at, n) + ")"@,
            ),
            strs(out@) == head + rows.take(k as int),
        decreases issues.len() - k,
    {
        let it = &issues[k];
        let mut l = chars_of("  #");
        extend_chars(&mut l, &pad_right_exec(&dec_i64(match it.number {
            Some(x) => x,
            None => 0,
        }), 5));
        extend_str(&mut l, " ");
        extend_chars(&mut l, &opt_or_exec(&it.title, ""));
        extend_str(&mut l, " (");
        extend_chars(&mut l, &when_exec(it.updated_at, now));
        extend_str(&mut l, ")");
        let ghost before = strs(out@);
        push_line(&mut out, &l);
        assert(strs(out@) =~= before.push(rows[k as int]));
        assert(rows.take(k + 1) =~= rows.take(k as int).push(rows[k as int]));
        k += 1;
    }
    assert(rows.take(issues.len() as int) =~= rows);
    assert(strs(out@) =~= status_lines_spec(owner@, name@, issues@, now));
    out
}

} // verus!
