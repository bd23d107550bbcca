//! `gt pr`: the listing, the view of one pull request, the checks summary,
//! and the choices that the merge, review and edit subcommands validate.
use vstd::prelude::*;

use crate::issue::{
    body_lines, body_lines_exec, comments_part, comments_part_exec, label_lookup, meta_lines,
    meta_lines_exec, num, rows_of, url_lines, url_lines_exec, when_exec, when_text, Comment,
    LabelRef,
};
use crate::json::JsonArgs;
use crate::repo::{RepoArgs, RepoInfo};
use crate::runner::{cut_bytes, cut_bytes_ok, cut_bytes_spec};
use crate::text::{
    append_lines, chars_of, dec_i64, dec_int, extend_chars, extend_str, opt_or, opt_or_exec,
    pad_right, pad_right_exec, push_line, str_eq, string_of, strs,
};

verus! {

/// The fields of a pull request that the commands read.
#[derive(Debug, Clone, Default)]
pub struct PullRequest {
    pub number: Option<i64>,
    pub title: Option<String>,
    /// `open` or `closed`.
    pub state: Option<String>,
    pub merged: Option<bool>,
    /// Login of the author.
    pub user: Option<String>,
    pub created_at: Option<i64>,
    pub updated_at: Option<i64>,
    /// Label of the head branch (`owner:branch`).
    pub head_label: Option<String>,
    /// Name of the head branch.
    pub head_ref: Option<String>,
    /// Commit at the head.
    pub head_sha: Option<String>,
    /// Label of the base branch.
    pub base_label: Option<String>,
    pub labels: Vec<Option<String>>,
    pub assignees: Vec<Option<String>>,
    /// Title of the milestone.
    pub milestone: Option<String>,
    pub additions: Option<i64>,
    pub deletions: Option<i64>,
    pub changed_files: Option<i64>,
    pub body: Option<String>,
    pub html_url: Option<String>,
    pub comments: Option<i64>,
}

/// One commit status of the checks summary.
#[derive(Debug, Clone, Default)]
pub struct CommitStatus {
    pub context: Option<String>,
    /// `pending`, `success`, `error`, `failure` or `warning`.
    pub status: Option<String>,
    pub description: Option<String>,
}

/// The options of `gt pr list`.
#[derive(Debug, Clone)]
pub struct ListArgs {
    pub state: String,
    pub limit: i64,
    pub json: JsonArgs,
}

/// The options of `gt pr view`.
#[derive(Debug, Clone)]
pub struct ViewArgs {
    pub number: i64,
    pub comments: bool,
    pub json: bool,
}

/// The options of `gt pr create`.
#[derive(Debug, Clone)]
pub struct CreateArgs {
    pub title: Option<String>,
    pub body: Option<String>,
    pub base: String,
    pub head: Option<String>,
}

/// The options of `gt pr merge`.
#[derive(Debug, Clone)]
pub struct MergeArgs {
    pub number: i64,
    pub method: String,
    pub delete_branch: bool,
}

/// The options of `gt pr comment`.
#[derive(Debug, Clone)]
pub struct CommentArgs {
    pub number: i64,
    pub body: String,
}

/// The options of `gt pr review`.
#[derive(Debug, Clone)]
pub struct ReviewArgs {
    pub number: i64,
    pub action: String,
    pub body: String,
}

/// The options of `gt pr checks`.
#[derive(Debug, Clone)]
pub struct ChecksArgs {
    pub number: i64,
    pub json: bool,
}

/// The options of `gt pr edit`.
#[derive(Debug, Clone)]
pub struct EditArgs {
    pub number: i64,
    pub title: Option<String>,
    pub body: Option<String>,
    pub label: Vec<String>,
    pub assignee: Vec<String>,
    pub milestone: Option<String>,
}

/// The subcommands of `gt pr`.
#[derive(Debug, Clone)]
pub enum PrAction {
    List(ListArgs),
    View(ViewArgs),
    Create(CreateArgs),
    Checkout(i64),
    Merge(MergeArgs),
    Close(i64),
    Reopen(i64),
    Comment(CommentArgs),
    Diff(i64),
    Review(ReviewArgs),
    Checks(ChecksArgs),
    Edit(EditArgs),
    UpdateBranch(i64),
}

/// `gt pr`: the repository option and the subcommand.
#[derive(Debug, Clone)]
pub struct PrCommand {
    pub repo: RepoArgs,
    pub action: PrAction,
}

/// `merged` when the pull request is merged, else its state.
pub open spec fn pr_status(p: PullRequest) -> Seq<char> {
    if p.merged == Some(true) {
        "merged"@
    } else {
        opt_or(p.state, ""@)
    }
}

/// `head -> base`, when both labels are known.
pub open spec fn branch_lines(p: PullRequest) -> Seq<Seq<char>> {
    match (p.head_label, p.base_label) {
        (Some(h), Some(b)) => seq![h@ + " -> "@ + b@],
        _ => seq![],
    }
}

/// The diff statistics, when additions and deletions are known.
pub open spec fn stat_lines(p: PullRequest) -> Seq<Seq<char>> {
    match (p.additions, p.deletions) {
        (Some(a), Some(d)) => seq![
            "+"@ + dec_int(a as int) + " -"@ + dec_int(d as int) + " ("@ + dec_int(
                num(p.changed_files),
            ) + " files)"@,
        ],
        _ => seq![],
    }
}

/// The lines of `gt pr view`.
pub open spec fn pr_view_spec(p: PullRequest, fetched: Option<Seq<Comment>>, now: i64) -> Seq<
    Seq<char>,
> {
    seq![
        opt_or(p.title, "(no title)"@) + " #"@ + dec_int(num(p.number)),
        pr_status(p) + " — opened by "@ + opt_or(p.user, "unknown"@) + " "@ + when_text(
            p.created_at,
            now,
        ),
    ] + branch_lines(p) + meta_lines(p.labels@, p.assignees@, p.milestone) + stat_lines(p)
        + body_lines(p.body) + url_lines(p.html_url) + comments_part(fetched, p.comments, now)
}

/// The lines of `gt pr view` at time `now`; `comments` holds the comments
/// when `--comments` was given.
pub fn pr_view_lines(p: &PullRequest, comments: Option<&[Comment]>, now: i64) -> (r: Vec<String>)
    ensures
        strs(r@) == pr_view_spec(
            *p,
            match comments {
                Some(cs) => Some(cs@),
                None => None,
            },
            now,
        ),
{
    let mut out: Vec<String> = Vec::new();
    let mut l0 = opt_or_exec(&p.title, "(no title)");
    extend_str(&mut l0, " #");
    extend_chars(&mut l0, &dec_i64(match p.number {
        Some(x) => x,
        None => 0,
    }));
    push_line(&mut out, &l0);
    let mut l1 = if p.merged == Some(true) {
        chars_of("merged")
    } else {
        opt_or_exec(&p.state, "")
    };
    extend_str(&mut l1, " — opened by ");
    extend_chars(&mut l1, &opt_or_exec(&p.user, "unknown"));
    extend_str(&mut l1, " ");
    extend_chars(&mut l1, &when_exec(p.created_at, now));
    push_line(&mut out, &l1);
    let ghost head = strs(out@);
    match (&p.head_label, &p.base_label) {
        (Some(h), Some(b)) => {
            let mut l = chars_of(h.as_str());
            extend_str(&mut l, " -> ");
            extend_str(&mut l, b.as_str());
            push_line(&mut out, &l);
        },
        _ => {},
    }
    assert(strs(out@) =~= head + branch_lines(*p));
    append_lines(&mut out, meta_lines_exec(p.labels.as_slice(), p.assignees.as_slice(), &p.milestone));
    let ghost mid = strs(out@);
    match (p.additions, p.deletions) {
        (Some(a), Some(d)) => {
            let mut l = chars_of("+");
            extend_chars(&mut l, &dec_i64(a));
            extend_str(&mut l, " -");
            extend_chars(&mut l, &dec_i64(d));
            extend_str(&mut l, " (");
            extend_chars(&mut l, &dec_i64(match p.changed_files {
                Some(x) => x,
                None => 0,
            }));
            extend_str(&mut l, " files)");
            push_line(&mut out, &l);
        },
        _ => {},
    }
    assert(strs(out@) =~= mid + stat_lines(*p));
    append_lines(&mut out, body_lines_exec(&p.body));
    append_lines(&mut out, url_lines_exec(&p.html_url));
    append_lines(&mut out, comments_part_exec(comments, p.comments, now));
    out
}

/// The row of `gt pr list`: number, title, author and age in columns of 6,
/// 50 and 15 characters, title and author truncated to 48 and 13 bytes.
pub open spec fn pr_row_spec(p: PullRequest, now: i64) -> Seq<char> {
    pad_right(dec_int(num(p.number)), 6) + " "@ + pad_right(
        cut_bytes_spec(opt_or(p.title, ""@), 48),
        50,
    ) + " "@ + pad_right(cut_bytes_spec(opt_or(p.user, ""@), 13), 15) + " "@ + when_text(
        p.updated_at,
        now,
    )
}

/// The cuts of a row fall on character boundaries.
pub open spec fn pr_row_ok(p: PullRequest) -> bool {
    cut_bytes_ok(opt_or(p.title, ""@), 48) && cut_bytes_ok(opt_or(p.user, ""@), 13)
}

/// One row of `gt pr list`.
pub fn pr_row(p: &PullRequest, now: i64) -> (r: String)
    requires
        pr_row_ok(*p),
    ensures
        r@ == pr_row_spec(*p, now),
{
    let title = string_of(&opt_or_exec(&p.title, ""));
    let author = string_of(&opt_or_exec(&p.user, ""));
    let mut v = pad_right_exec(&dec_i64(match p.number {
        Some(x) => x,
        None => 0,
    }), 6);
    extend_str(&mut v, " ");
    extend_chars(&mut v, &pad_right_exec(&chars_of(cut_bytes(title.as_str(), 48).as_str()), 50));
    extend_str(&mut v, " ");
    extend_chars(&mut v, &pad_right_exec(&chars_of(cut_bytes(author.as_str(), 13).as_str()), 15));
    extend_str(&mut v, " ");
    extend_chars(&mut v, &when_exec(p.updated_at, now));
    string_of(&v)
}

/// The header row of `gt pr list` on a terminal.
pub open spec fn pr_header_spec() -> Seq<char> {
    pad_right("#"@, 6) + " "@ + pad_right("TITLE"@, 50) + " "@ + pad_right("AUTHOR"@, 15)
        + " UPDATED"@
}

/// The lines of `gt pr list` (the caller reports an empty listing): the
/// header on a terminal, then one row per pull request.
pub open spec fn pr_list_spec(prs: Seq<PullRequest>, is_tty: bool, now: i64) -> Seq<Seq<char>> {
    (if is_tty {
        seq![pr_header_spec()]
    } else {
        seq![]
    }) + rows_of(prs, now, |p: PullRequest, n: i64| pr_row_spec(p, n))
}

/// The lines of `gt pr list`.
pub fn pr_list_lines(prs: &[PullRequest], is_tty: bool, now: i64) -> (r: Vec<String>)
    requires
        forall|k: int| 0 <= k < prs@.len() ==> pr_row_ok(#[trigger] prs@[k]),
    ensures
        strs(r@) == pr_list_spec(prs@, is_tty, now),
{
    let mut out: Vec<String> = Vec::new();
    if is_tty {
        let mut h = pad_right_exec(&chars_of("#"), 6);
        extend_str(&mut h, " ");
        extend_chars(&mut h, &pad_right_exec(&chars_of("TITLE"), 50));
        extend_str(&mut h, " ");
        extend_chars(&mut h, &pad_right_exec(&chars_of("AUTHOR"), 15));
        extend_str(&mut h, " UPDATED");
        push_line(&mut out, &h);
    }
    let ghost head = strs(out@);
    let ghost rows = rows_of(prs@, now, |p: PullRequest, n: i64| pr_row_spec(p, n));
    let mut k: usize = 0;
    while k < prs.len()
        invariant
            k <= prs@.len(),
            forall|j: int| 0 <= j < prs@.len() ==> pr_row_ok(#[trigger] prs@[j]),
            rows == rows_of(prs@, now, |p: PullRequest, n: i64| pr_row_spec(p, n)),
            strs(out@) == head + rows.take(k as int),
        decreases prs.len() - k,
    {
        let r = pr_row(&prs[k], now);
        let ghost before = strs(out@);
        out.push(r);
        assert(strs(out@) =~= before.push(rows[k as int]));
        assert(rows.take(k + 1) =~= rows.take(k as int).push(rows[k as int]));
        k += 1;
    }
    assert(rows.take(prs.len() as int) =~= rows);
    out
}

/// The merge methods Gitea offers.
pub open spec fn valid_merge_method(m: Seq<char>) -> bool {
    m == "merge"@ || m == "rebase"@ || m == "squash"@
}

/// Checks `--method`: `merge`, `rebase` or `squash`.
pub fn check_merge_method(method: &str) -> (r: Result<(), String>)
    ensures
        valid_merge_method(method@) <==> r is Ok,
        r matches Err(m) ==> m@ == "Invalid merge method: "@ + method@
            + ". Use merge, rebase, or squash"@,
{
    if str_eq(method, "merge") || str_eq(method, "rebase") || str_eq(method, "squash") {
        Ok(())
    } else {
        let mut v = chars_of("Invalid merge method: ");
        extend_str(&mut v, method);
        extend_str(&mut v, ". Use merge, rebase, or squash");
        Err(string_of(&v))
    }
}

/// The review verdicts.
#[derive(Debug, Clone, Copy, PartialEq, Eq)]
pub enum ReviewEvent {
    Approved,
    RequestChanges,
    Comment,
}

/// The verdict asking for changes, spelt with `sep` between its words.
pub open spec fn changes_verdict(sep: char) -> Seq<char> {
    "request"@.push(sep) + "changes"@
}

/// The verdict asking for changes, spelt with `sep` between its words.
fn changes_verdict_exec(sep: char) -> (r: Vec<char>)
    ensures
        r@ == changes_verdict(sep),
{
    let mut v = chars_of("request");
    v.push(sep);
    extend_str(&mut v, "changes");
    v
}

/// The name the API gives a review verdict.
pub open spec fn review_state_name_spec(e: ReviewEvent) -> Seq<char> {
    match e {
        ReviewEvent::Approved => "APPROVED"@,
        ReviewEvent::RequestChanges => "REQUEST"@.push('_') + "CHANGES"@,
        ReviewEvent::Comment => "COMMENT"@,
    }
}

/// The name the API gives a review verdict.
pub fn review_state_name(e: ReviewEvent) -> (r: String)
    ensures
        r@ == review_state_name_spec(e),
{
    match e {
        ReviewEvent::Approved => string_of(&chars_of("APPROVED")),
        ReviewEvent::RequestChanges => {
            let mut v = chars_of("REQUEST");
            v.push('_');
            extend_str(&mut v, "CHANGES");
            string_of(&v)
        },
        ReviewEvent::Comment => string_of(&chars_of("COMMENT")),
    }
}

/// The verdict that `--action` names.
pub open spec fn review_event_spec(a: Seq<char>) -> Option<ReviewEvent> {
    if a == "approve"@ {
        Some(ReviewEvent::Approved)
    } else if a == changes_verdict('-') || a == changes_verdict('_') {
        Some(ReviewEvent::RequestChanges)
    } else if a == "comment"@ {
        Some(ReviewEvent::Comment)
    } else {
        None
    }
}

/// Reads `--action`: `approve`, the verdict asking for changes (its words
/// joined by a hyphen or an underscore), or `comment`.
pub fn review_event(action: &str) -> (r: Result<ReviewEvent, String>)
    ensures
        match review_event_spec(action@) {
            Some(e) => r == Ok::<ReviewEvent, String>(e),
            None => r matches Err(m) && m@ == "Invalid review action: "@ + action@
                + ". Use approve, "@ + changes_verdict('-') + ", or comment"@,
        },
{
    if str_eq(action, "approve") {
        Ok(ReviewEvent::Approved)
    } else if crate::text::eq_chars(&chars_of(action), &changes_verdict_exec('-'))
        || crate::text::eq_chars(&chars_of(action), &changes_verdict_exec('_')) {
        Ok(ReviewEvent::RequestChanges)
    } else if str_eq(action, "comment") {
        Ok(ReviewEvent::Comment)
    } else {
        let mut v = chars_of("Invalid review action: ");
        extend_str(&mut v, action);
        extend_str(&mut v, ". Use approve, ");
        extend_chars(&mut v, &changes_verdict_exec('-'));
        extend_str(&mut v, ", or comment");
        Err(string_of(&v))
    }
}

/// The lines of `gt pr checks`: the overall state, then each status with
/// its state in a column of 10 characters.
pub open spec fn checks_spec(state: Option<String>, statuses: Seq<CommitStatus>) -> Seq<Seq<char>> {
    seq!["Overall: "@ + opt_or(state, "unknown"@)] + (if statuses.len() == 0 {
        seq!["No checks found"@]
    } else {
        seq![]
    }) + Seq::new(
        statuses.len(),
        |k: int|
            "  "@ + pad_right(opt_or(statuses[k].status, ""@), 10) + " "@ + opt_or(
                statuses[k].context,
                ""@,
            ) + " — "@ + opt_or(statuses[k].description, ""@),
    )
}

/// The lines of `gt pr checks`.
pub fn checks_lines(state: &Option<String>, statuses: &[CommitStatus]) -> (r: Vec<String>)
    ensures
        strs(r@) == checks_spec(*state, statuses@),
{
    let mut out: Vec<String> = Vec::new();
    let mut h = chars_of("Overall: ");
    extend_chars(&mut h, &opt_or_exec(state, "unknown"));
    push_line(&mut out, &h);
    if statuses.len() == 0 {
        push_line(&mut out, &chars_of("No checks found"));
    }
    let ghost head = strs(out@);
    let ghost rows = Seq::new(
        statuses@.len(),
        |k: int|
            "  "@ + pad_right(opt_or(statuses@[k].status, ""@), 10) + " "@ + opt_or(
                statuses@[k].context,
                ""@,
            ) + " — "@ + opt_or(statuses@[k].description, ""@),
    );
    let mut k: usize = 0;
    while k < statuses.len()
        invariant
            k <= statuses@.len(),
            rows == Seq::new(
                statuses@.len(),
                |k: int|
                    "  "@ + pad_right(opt_or(statuses@[k].status, ""@), 10) + " "@ + opt_or(
                        statuses@[k].context,
                        ""@,
                    ) + " — "@ + opt_or(statuses@[k].description, ""@),
            ),
            strs(out@) == head + rows.take(k as int),
        decreases statuses.len() - k,
    {
        let s = &statuses[k];
        let mut l = chars_of("  ");
        extend_chars(&mut l, &pad_right_exec(&opt_or_exec(&s.status, ""), 10));
        extend_str(&mut l, " ");
        extend_chars(&mut l, &opt_or_exec(&s.context, ""));
        extend_str(&mut l, " — ");
        extend_chars(&mut l, &opt_or_exec(&s.description, ""));
        let ghost before = strs(out@);
        push_line(&mut out, &l);
        assert(strs(out@) =~= before.push(rows[k as int]));
        assert(rows.take(k + 1) =~= rows.take(k as int).push(rows[k as int]));
        k += 1;
    }
    assert(rows.take(statuses.len() as int) =~= rows);
    assert(strs(out@) =~= checks_spec(*state, statuses@));
    out
}

/// The API path of the plain-text diff of a pull request.
pub open spec fn diff_path_spec(repo: RepoInfo, number: i64) -> Seq<char> {
    "repos/"@ + repo.owner@ + "/"@ + repo.name@ + "/pulls/"@ + dec_int(number as int) + ".diff"@
}

/// The API path of the plain-text diff of a pull request.
pub fn diff_path(repo: &RepoInfo, number: i64) -> (r: String)
    ensures
        r@ == diff_path_spec(*repo, number),
{
    let mut v = chars_of("repos/");
    extend_str(&mut v, repo.owner.as_str());
    extend_str(&mut v, "/");
    extend_str(&mut v, repo.name.as_str());
    extend_str(&mut v, "/pulls/");
    extend_chars(&mut v, &dec_i64(number));
    extend_str(&mut v, ".diff");
    string_of(&v)
}

/// The refspec that fetches a pull request's head into its branch.
pub open spec fn checkout_refspec_spec(number: i64, branch: Seq<char>) -> Seq<char> {
    "pull/"@ + dec_int(number as int) + "/head:"@ + branch
}

/// The refspec that fetches a pull request's head into its branch.
pub fn checkout_refspec(number: i64, branch: &str) -> (r: String)
    ensures
        r@ == checkout_refspec_spec(number, branch@),
{
    let mut v = chars_of("pull/");
    extend_chars(&mut v, &dec_i64(number));
    extend_str(&mut v, "/head:");
    extend_str(&mut v, branch);
    string_of(&v)
}

/// The milestones of a repository, by title.
#[derive(Debug, Clone, Default)]
pub struct MilestoneRef {
    pub id: Option<i64>,
    pub title: Option<String>,
}

/// What `gt pr edit` sends: each field only when it was given.
#[derive(Debug, Clone)]
pub struct PrEdit {
    pub title: Option<String>,
    pub body: Option<String>,
    /// Label ids, when labels were given.
    pub labels: Option<Vec<i64>>,
    /// Assignees, when some were given.
    pub assignees: Option<Vec<String>>,
    pub milestone: Option<i64>,
}

/// The id of the first milestone titled `title` (0 when it has none).
pub open spec fn milestone_lookup(ms: Seq<MilestoneRef>, title: Seq<char>) -> Option<i64> {
    label_lookup(ms.map_values(|m: MilestoneRef| LabelRef { id: m.id, name: m.title }), title)
}

/// Finds the milestone titled `title`.
pub fn find_milestone(ms: &[MilestoneRef], title: &str) -> (r: Option<i64>)
    ensures
        r == milestone_lookup(ms@, title@),
{
    let mut as_labels: Vec<LabelRef> = Vec::new();
    let mut k: usize = 0;
    while k < ms.len()
        invariant
            k <= ms@.len(),
            as_labels@ =~= ms@.take(k as int).map_values(
                |m: MilestoneRef| LabelRef { id: m.id, name: m.title },
            ),
        decreases ms.len() - k,
    {
        as_labels.push(LabelRef { id: ms[k].id, name: ms[k].title.clone() });
        k += 1;
    }
    assert(ms@.take(ms.len() as int) =~= ms@);
    let names = vec![string_of(&chars_of(title))];
    match crate::issue::resolve_label_ids(as_labels.as_slice(), names.as_slice()) {
        Ok(ids) => {
            assert(names@[0]@ == title@);
            Some(ids[0])
        },
        Err(_) => {
            assert(names@[0]@ == title@);
            None
        },
    }
}

/// The edit of `gt pr edit`: label names resolved to ids and the milestone
/// title to its id; a label or milestone that does not exist is the error.
pub fn plan_pr_edit(args: &EditArgs, labels: &[LabelRef], milestones: &[MilestoneRef]) -> (r:
    Result<PrEdit, String>)
    ensures
        r matches Ok(e) ==> {
            &&& e.title == args.title
            &&& e.body == args.body
            &&& (args.label@.len() == 0 <==> e.labels is None)
            &&& (e.labels matches Some(ids) ==> ids@.len() == args.label@.len() && forall|i: int|
                0 <= i < args.label@.len() ==> label_lookup(labels@, (#[trigger] args.label@[i])@)
                    == Some(ids@[i]))
            &&& (args.assignee@.len() == 0 <==> e.assignees is None)
            &&& (e.assignees matches Some(a) ==> a@ == args.assignee@)
            &&& match args.milestone {
                Some(t) => e.milestone is Some && milestone_lookup(milestones@, t@) == e.milestone,
                None => e.milestone is None,
            }
        },
        r is Err <==> (exists|i: int|
            0 <= i < args.label@.len() && label_lookup(labels@, (#[trigger] args.label@[i])@)
                is None) || (args.milestone matches Some(t) && milestone_lookup(milestones@, t@)
            is None),
        r matches Err(m) ==> if exists|i: int|
            0 <= i < args.label@.len() && label_lookup(labels@, (#[trigger] args.label@[i])@)
                is None {
            exists|i: int|
                0 <= i < args.label@.len() && label_lookup(labels@, (#[trigger] args.label@[i])@)
                    is None && m@ == "Label not found: "@ + args.label@[i]@ && forall|p: int|
                    0 <= p < i ==> label_lookup(labels@, (#[trigger] args.label@[p])@) is Some
        } else {
            args.milestone matches Some(t) && milestone_lookup(milestones@, t@) is None && m@
                == "Milestone not found: "@ + t@
        },
{
    let ids = if args.label.len() == 0 {
        None
    } else {
        match crate::issue::resolve_label_ids(labels, args.label.as_slice()) {
            Ok(ids) => Some(ids),
            Err(m) => {
                return Err(m);
            },
        }
    };
    let ms = match &args.milestone {
        Some(t) => match find_milestone(milestones, t.as_str()) {
            Some(id) => Some(id),
            None => {
                let mut v = chars_of("Milestone not found: ");
                extend_str(&mut v, t.as_str());
                return Err(string_of(&v));
            },
        },
        None => None,
    };
    let assignees = if args.assignee.len() == 0 {
        None
    } else {
        Some(args.assignee.clone())
    };
    Ok(PrEdit { title: args.title.clone(), body: args.body.clone(), labels: ids, assignees, milestone: ms })
}

} // verus!
