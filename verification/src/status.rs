//! `gt status`: the dashboard of unread notifications, assigned issues and
//! review requests.
use vstd::prelude::*;

use crate::issue::{num, Issue};
use crate::notification::{state_mark, state_mark_exec, Notification};
use crate::runner::{cut_bytes, cut_bytes_ok, cut_bytes_spec};
use crate::text::{
    append_lines, chars_of, dec_i64, dec_int, dec_u64, extend_chars, extend_str, opt_or,
    opt_or_exec, pad_right, pad_right_exec, push_line, string_of, strs,
};

verus! {

/// `gt status` takes no options.
#[derive(Debug, Clone, Default)]
pub struct StatusCommand {}

/// One notification of the dashboard.
pub open spec fn dash_notification(n: Notification) -> Seq<char> {
    "  ● "@ + pad_right(opt_or(n.kind, ""@), 7) + " "@ + pad_right(opt_or(n.repo, ""@), 25) + " "@
        + cut_bytes_spec(opt_or(n.title, ""@), 45) + state_mark(n.state)
}

/// One issue or pull request of the dashboard.
pub open spec fn dash_issue(i: Issue) -> Seq<char> {
    "  "@ + opt_or(i.repository, ""@) + "#"@ + pad_right(dec_int(num(i.number)), 6) + " "@
        + cut_bytes_spec(opt_or(i.title, ""@), 45)
}

/// A section of issues: `none`, or the count and one line per issue.
pub open spec fn issue_section(name: Seq<char>, items: Seq<Issue>) -> Seq<Seq<char>> {
    if items.len() == 0 {
        seq![name + ": none"@]
    } else {
        seq![name + " ("@ + dec_int(items.len() as int) + ")"@] + Seq::new(
            items.len(),
            |k: int| dash_issue(items[k]),
        )
    }
}

/// The lines of `gt status`: notifications, a blank line, assigned issues,
/// a blank line, review requests.
pub open spec fn dashboard_spec(ns: Seq<Notification>, assigned: Seq<Issue>, reviews: Seq<Issue>) -> Seq<
    Seq<char>,
> {
    (if ns.len() == 0 {
        seq!["Notifications: none"@]
    } else {
        seq!["Notifications ("@ + dec_int(ns.len() as int) + " unread)"@] + Seq::new(
            ns.len(),
            |k: int| dash_notification(ns[k]),
        )
    }) + seq![""@] + issue_section("Assigned Issues"@, assigned) + seq![""@] + issue_section(
        "Review Requests"@,
        reviews,
    )
}

/// Every title is cut on a character boundary.
pub open spec fn dashboard_ok(ns: Seq<Notification>, assigned: Seq<Issue>, reviews: Seq<Issue>) -> bool {
    &&& forall|k: int| 0 <= k < ns.len() ==> cut_bytes_ok(opt_or((#[trigger] ns[k]).title, ""@), 45)
    &&& forall|k: int|
        0 <= k < assigned.len() ==> cut_bytes_ok(opt_or((#[trigger] assigned[k]).title, ""@), 45)
    &&& forall|k: int|
        0 <= k < reviews.len() ==> cut_bytes_ok(opt_or((#[trigger] reviews[k]).title, ""@), 45)
}

/// A section of issues.
fn issue_section_exec(name: &str, items: &[Issue]) -> (r: Vec<String>)
    requires
        forall|k: int|
            0 <= k < items@.len() ==> cut_bytes_ok(opt_or((#[trigger] items@[k]).title, ""@), 45),
    ensures
        strs(r@) == issue_section(name@, items@),
{
    let mut out: Vec<String> = Vec::new();
    if items.len() == 0 {
        let mut l = chars_of(name);
        extend_str(&mut l, ": none");
        push_line(&mut out, &l);
        assert(strs(out@) =~= issue_section(name@, items@));
        return out;
    }
    let mut h = chars_of(name);
    extend_str(&mut h, " (");
    extend_chars(&mut h, &dec_u64(items.len() as u64));
    extend_str(&mut h, ")");
    push_line(&mut out, &h);
    let ghost head = strs(out@);
    let ghost rows = Seq::new(items@.len(), |k: int| dash_issue(items@[k]));
    let mut k: usize = 0;
    while k < items.len()
        invariant
            k <= items@.len(),
            forall|j: int|
                0 <= j < items@.len() ==> cut_bytes_ok(opt_or((#[trigger] items@[j]).title, ""@), 45),
            rows == Seq::new(items@.len(), |k: int| dash_issue(items@[k])),
            strs(out@) == head + rows.take(k as int),
        decreases items.len() - k,
    {
        let it = &items[k];
        let title = string_of(&opt_or_exec(&it.title, ""));
        let mut l = chars_of("  ");
        extend_chars(&mut l, &opt_or_exec(&it.repository, ""));
        extend_str(&mut l, "#");
        extend_chars(&mut l, &pad_right_exec(&dec_i64(match it.number {
            Some(x) => x,
            None => 0,
        }), 6));
        extend_str(&mut l, " ");
        extend_str(&mut l, cut_bytes(title.as_str(), 45).as_str());
        let ghost before = strs(out@);
        push_line(&mut out, &l);
        assert(strs(out@) =~= before.push(rows[k as int]));
        assert(rows.take(k + 1) =~= rows.take(k as int).push(rows[k as int]));
        k += 1;
    }
    assert(rows.take(items.len() as int) =~= rows);
    assert(strs(out@) =~= issue_section(name@, items@));
    out
}

/// The lines of `gt status`.
pub fn dashboard_lines(ns: &[Notification], assigned: &[Issue], reviews: &[Issue]) -> (r: Vec<
    String,
>)
    requires
        dashboard_ok(ns@, assigned@, reviews@),
    ensures
        strs(r@) == dashboard_spec(ns@, assigned@, reviews@),
{
    let mut out: Vec<String> = Vec::new();
    if ns.len() == 0 {
        push_line(&mut out, &chars_of("Notifications: none"));
    } else {
        let mut h = chars_of("Notifications (");
        extend_chars(&mut h, &dec_u64(ns.len() as u64));
        extend_str(&mut h, " unread)");
        push_line(&mut out, &h);
        let ghost head = strs(out@);
        let ghost rows = Seq::new(ns@.len(), |k: int| dash_notification(ns@[k]));
        let mut k: usize = 0;
        while k < ns.len()
            invariant
                k <= ns@.len(),
                dashboard_ok(ns@, assigned@, reviews@),
                rows == Seq::new(ns@.len(), |k: int| dash_notification(ns@[k])),
                strs(out@) == head + rows.take(k as int),
            decreases ns.len() - k,
        {
            let n = &ns[k];
            let title = string_of(&opt_or_exec(&n.title, ""));
            let mut l = chars_of("  ● ");
            extend_chars(&mut l, &pad_right_exec(&opt_or_exec(&n.kind, ""), 7));
            extend_str(&mut l, " ");
            extend_chars(&mut l, &pad_right_exec(&opt_or_exec(&n.repo, ""), 25));
            extend_str(&mut l, " ");
            assert(cut_bytes_ok(opt_or(ns@[k as int].title, ""@), 45));
            extend_str(&mut l, cut_bytes(title.as_str(), 45).as_str());
            extend_chars(&mut l, &state_mark_exec(&n.state));
            let ghost before = strs(out@);
            push_line(&mut out, &l);
            assert(strs(out@) =~= before.push(rows[k as int]));
            assert(rows.take(k + 1) =~= rows.take(k as int).push(rows[k as int]));
            k += 1;
        }
        assert(rows.take(ns.len() as int) =~= rows);
    }
    push_line(&mut out, &chars_of(""));
    append_lines(&mut out, issue_section_exec("Assigned Issues", assigned));
    push_line(&mut out, &chars_of(""));
    append_lines(&mut out, issue_section_exec("Review Requests", reviews));
    assert(strs(out@) =~= dashboard_spec(ns@, assigned@, reviews@));
    out
}

} // verus!
