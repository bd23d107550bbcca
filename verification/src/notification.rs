//! `gt notification`: the rows of the notification listing and the
//! messages of marking notifications read.
use vstd::prelude::*;

use crate::issue::{num, rows_of, when_text};
use crate::json::JsonArgs;
use crate::runner::{cut_bytes, cut_bytes_ok, cut_bytes_spec};
use crate::text::{
    chars_of, dec_i64, dec_int, extend_chars, extend_str, opt_or, opt_or_exec, pad_right,
    pad_right_exec, push_line, str_eq, string_of, strs,
};
use crate::time::relative_time_at;

verus! {

/// The fields of a notification thread that the commands read.
#[derive(Debug, Clone, Default)]
pub struct Notification {
    pub id: Option<i64>,
    pub unread: Option<bool>,
    /// `owner/name` of the repository.
    pub repo: Option<String>,
    /// `Issue`, `Pull`, `Commit` or `Repository`.
    pub kind: Option<String>,
    pub title: Option<String>,
    /// `open`, `closed` or `merged`.
    pub state: Option<String>,
    /// The last update, as the RFC 3339 text the server sent.
    pub updated_at: Option<String>,
}

/// The options of `gt notification list`.
#[derive(Debug, Clone)]
pub struct ListArgs {
    /// Only unread notifications.
    pub unread: bool,
    pub json: JsonArgs,
}

/// The subcommands of `gt notification`.
#[derive(Debug, Clone)]
pub enum NotificationAction {
    List(ListArgs),
    /// Mark one thread (by id) or all notifications as read.
    Read(Option<String>),
}

/// `gt notification`.
#[derive(Debug, Clone)]
pub struct NotificationCommand {
    pub action: NotificationAction,
}

/// What `chrono::DateTime::parse_from_rfc3339` makes of a text, as Unix
/// seconds; `None` when the text is not RFC 3339.
pub uninterp spec fn rfc3339_seconds(s: Seq<char>) -> Option<i64>;

/// Parses an RFC 3339 time with `chrono::DateTime::parse_from_rfc3339`
/// and gives its Unix timestamp.
#[verifier::external_body]
fn parse_rfc3339(s: &str) -> (r: Option<i64>)
    ensures
        r == rfc3339_seconds(s@),
{
    chrono::DateTime::parse_from_rfc3339(s).ok().map(|d| d.timestamp())
}

/// The moment of an optional RFC 3339 text.
pub open spec fn moment_of(t: Option<String>) -> Option<i64> {
    match t {
        Some(s) => rfc3339_seconds(s@),
        None => None,
    }
}

/// The marker after a subject: a tick when closed, a circled plus when
/// merged.
pub open spec fn state_mark(state: Option<String>) -> Seq<char> {
    match state {
        Some(s) => if s@ == "closed"@ {
            " ✓"@
        } else if s@ == "merged"@ {
            " ⊕"@
        } else {
            ""@
        },
        None => ""@,
    }
}

/// The marker after a subject.
pub fn state_mark_exec(state: &Option<String>) -> (r: Vec<char>)
    ensures
        r@ == state_mark(*state),
{
    match state {
        Some(s) => if str_eq(s.as_str(), "closed") {
            chars_of(" ✓")
        } else if str_eq(s.as_str(), "merged") {
            chars_of(" ⊕")
        } else {
            chars_of("")
        },
        None => chars_of(""),
    }
}

/// The row of `gt notification list`: id, an unread dot, type, repository
/// (cut to 23 bytes), subject (cut to 38 bytes, with its marker) and age.
pub open spec fn notification_row_spec(n: Notification, now: i64) -> Seq<char> {
    pad_right(dec_int(num(n.id)), 6) + " "@ + (if n.unread == Some(true) {
        "●"@
    } else {
        " "@
    }) + pad_right(opt_or(n.kind, ""@), 7) + " "@ + pad_right(
        cut_bytes_spec(opt_or(n.repo, ""@), 23),
        25,
    ) + " "@ + pad_right(cut_bytes_spec(opt_or(n.title, ""@), 38) + state_mark(n.state), 40) + " "@
        + when_text(moment_of(n.updated_at), now)
}

/// The cuts of a row fall on character boundaries.
pub open spec fn notification_row_ok(n: Notification) -> bool {
    cut_bytes_ok(opt_or(n.repo, ""@), 23) && cut_bytes_ok(opt_or(n.title, ""@), 38)
}

/// One row of `gt notification list`.
pub fn notification_row(n: &Notification, now: i64) -> (r: String)
    requires
        notification_row_ok(*n),
    ensures
        r@ == notification_row_spec(*n, now),
{
    let repo = string_of(&opt_or_exec(&n.repo, ""));
    let title = string_of(&opt_or_exec(&n.title, ""));
    let mut v = pad_right_exec(&dec_i64(match n.id {
        Some(x) => x,
        None => 0,
    }), 6);
    extend_str(&mut v, " ");
    if n.unread == Some(true) {
        extend_str(&mut v, "●");
    } else {
        extend_str(&mut v, " ");
    }
    extend_chars(&mut v, &pad_right_exec(&opt_or_exec(&n.kind, ""), 7));
    extend_str(&mut v, " ");
    extend_chars(&mut v, &pad_right_exec(&chars_of(cut_bytes(repo.as_str(), 23).as_str()), 25));
    extend_str(&mut v, " ");
    let mut subject = chars_of(cut_bytes(title.as_str(), 38).as_str());
    extend_chars(&mut subject, &state_mark_exec(&n.state));
    extend_chars(&mut v, &pad_right_exec(&subject, 40));
    extend_str(&mut v, " ");
    let moment = match &n.updated_at {
        Some(s) => parse_rfc3339(s.as_str()),
        None => None,
    };
    match moment {
        Some(t) => extend_str(&mut v, relative_time_at(now, t).as_str()),
        None => {
            assert(v@ =~= v@ + ""@) by {
                reveal_strlit("");
            }
        },
    }
    string_of(&v)
}

/// The header row of `gt notification list` on a terminal.
pub open spec fn notification_header_spec() -> Seq<char> {
    pad_right("ID"@, 6) + " "@ + pad_right("TYPE"@, 8) + " "@ + pad_right("REPO"@, 25) + " "@
        + pad_right("SUBJECT"@, 40) + " UPDATED"@
}

/// The lines of `gt notification list` (the caller reports an empty
/// listing): the header on a terminal, then one row per notification.
pub open spec fn notification_list_spec(ns: Seq<Notification>, is_tty: bool, now: i64) -> Seq<
    Seq<char>,
> {
    (if is_tty {
        seq![notification_header_spec()]
    } else {
        seq![]
    }) + rows_of(ns, now, |n: Notification, t: i64| notification_row_spec(n, t))
}

/// The lines of `gt notification list`.
pub fn notification_list_lines(ns: &[Notification], is_tty: bool, now: i64) -> (r: Vec<String>)
    requires
        forall|k: int| 0 <= k < ns@.len() ==> notification_row_ok(#[trigger] ns@[k]),
    ensures
        strs(r@) == notification_list_spec(ns@, is_tty, now),
{
    let mut out: Vec<String> = Vec::new();
    if is_tty {
        let mut h = pad_right_exec(&chars_of("ID"), 6);
        extend_str(&mut h, " ");
        extend_chars(&mut h, &pad_right_exec(&chars_of("TYPE"), 8));
        extend_str(&mut h, " ");
        extend_chars(&mut h, &pad_right_exec(&chars_of("REPO"), 25));
        extend_str(&mut h, " ");
        extend_chars(&mut h, &pad_right_exec(&chars_of("SUBJECT"), 40));
        extend_str(&mut h, " UPDATED");
        push_line(&mut out, &h);
    }
    let ghost head = strs(out@);
    let ghost rows = rows_of(ns@, now, |n: Notification, t: i64| notification_row_spec(n, t));
    let mut k: usize = 0;
    while k < ns.len()
        invariant
            k <= ns@.len(),
            forall|j: int| 0 <= j < ns@.len() ==> notification_row_ok(#[trigger] ns@[j]),
            rows == rows_of(ns@, now, |n: Notification, t: i64| notification_row_spec(n, t)),
            strs(out@) == head + rows.take(k as int),
        decreases ns.len() - k,
    {
        let r = notification_row(&ns[k], now);
        let ghost before = strs(out@);
        out.push(r);
        assert(strs(out@) =~= before.push(rows[k as int]));
        assert(rows.take(k + 1) =~= rows.take(k as int).push(rows[k as int]));
        k += 1;
    }
    assert(rows.take(ns.len() as int) =~= rows);
    out
}

/// The API path of the listing: only unread threads with `--unread`.
pub fn notifications_path(unread: bool) -> (r: String)
    ensures
        r@ == (if unread {
            "notifications?status-types=unread"@
        } else {
            "notifications"@
        }),
{
    if unread {
        string_of(&chars_of("notifications?status-types=unread"))
    } else {
        string_of(&chars_of("notifications"))
    }
}

/// The message after marking one thread, or all, as read.
pub fn read_message(id: &Option<String>) -> (r: String)
    ensures
        r@ == match id {
            Some(i) => "Notification #"@ + i@ + " marked as read"@,
            None => "All notifications marked as read"@,
        },
{
    match id {
        Some(i) => {
            let mut v = chars_of("Notification #");
            extend_str(&mut v, i.as_str());
            extend_str(&mut v, " marked as read");
            string_of(&v)
        },
        None => string_of(&chars_of("All notifications marked as read")),
    }
}

} // verus!
