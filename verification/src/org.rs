//! `gt org`: the listing, the view of one organization and the checked
//! visibility of `org create`.
use vstd::prelude::*;

use crate::issue::num;
use crate::json::JsonArgs;
use crate::runner::{cut_bytes, cut_bytes_ok, cut_bytes_spec};
use crate::text::{
    chars_of, dec_i64, dec_int, extend_chars, extend_str, opt_or, opt_or_exec, pad_right,
    pad_right_exec, push_line, str_eq, string_of, strs,
};

verus! {

/// The fields of an organization that the commands read.
#[derive(Debug, Clone, Default)]
pub struct Organization {
    pub id: Option<i64>,
    pub username: Option<String>,
    pub full_name: Option<String>,
    pub description: Option<String>,
    pub visibility: Option<String>,
    pub location: Option<String>,
    pub website: Option<String>,
}

/// The subcommands of `gt org`.
#[derive(Debug, Clone)]
pub enum OrgAction {
    List { json: JsonArgs },
    View { name: String, json: bool },
    Create { name: String, description: Option<String>, visibility: String },
}

/// `gt org`.
#[derive(Debug, Clone)]
pub struct OrgCommand {
    pub action: OrgAction,
}

/// The row of `gt org list`: id, name and description (cut to 50 bytes),
/// in columns of 6 and 30 characters.
pub open spec fn org_row_spec(o: Organization) -> Seq<char> {
    pad_right(dec_int(num(o.id)), 6) + " "@ + pad_right(opt_or(o.username, ""@), 30) + " "@
        + cut_bytes_spec(opt_or(o.description, ""@), 50)
}

/// The lines of `gt org list` (the caller reports an empty listing).
pub open spec fn org_list_spec(os: Seq<Organization>, is_tty: bool) -> Seq<Seq<char>> {
    (if is_tty {
        seq![pad_right("ID"@, 6) + " "@ + pad_right("NAME"@, 30) + " DESCRIPTION"@]
    } else {
        seq![]
    }) + Seq::new(os.len(), |k: int| org_row_spec(os[k]))
}

/// The lines of `gt org list`.
pub fn org_list_lines(os: &[Organization], is_tty: bool) -> (r: Vec<String>)
    requires
        forall|k: int|
            0 <= k < os@.len() ==> cut_bytes_ok(opt_or((#[trigger] os@[k]).description, ""@), 50),
    ensures
        strs(r@) == org_list_spec(os@, is_tty),
{
    let mut out: Vec<String> = Vec::new();
    if is_tty {
        let mut h = pad_right_exec(&chars_of("ID"), 6);
        extend_str(&mut h, " ");
        extend_chars(&mut h, &pad_right_exec(&chars_of("NAME"), 30));
        extend_str(&mut h, " DESCRIPTION");
        push_line(&mut out, &h);
    }
    let ghost head = strs(out@);
    let ghost rows = Seq::new(os@.len(), |k: int| org_row_spec(os@[k]));
    let mut k: usize = 0;
    while k < os.len()
        invariant
            k <= os@.len(),
            forall|j: int|
                0 <= j < os@.len() ==> cut_bytes_ok(opt_or((#[trigger] os@[j]).description, ""@), 50),
            rows == Seq::new(os@.len(), |k: int| org_row_spec(os@[k])),
            strs(out@) == head + rows.take(k as int),
        decreases os.len() - k,
    {
        let o = &os[k];
        let desc = string_of(&opt_or_exec(&o.description, ""));
        let mut v = pad_right_exec(&dec_i64(match o.id {
            Some(x) => x,
            None => 0,
        }), 6);
        extend_str(&mut v, " ");
        extend_chars(&mut v, &pad_right_exec(&opt_or_exec(&o.username, ""), 30));
        extend_str(&mut v, " ");
        extend_str(&mut v, cut_bytes(desc.as_str(), 50).as_str());
        let ghost before = strs(out@);
        push_line(&mut out, &v);
        assert(strs(out@) =~= before.push(rows[k as int]));
        assert(rows.take(k + 1) =~= rows.take(k as int).push(rows[k as int]));
        k += 1;
    }
    assert(rows.take(os.len() as int) =~= rows);
    out
}

/// A line when `text` is not empty.
pub open spec fn line_if(prefix: Seq<char>, text: Seq<char>) -> Seq<Seq<char>> {
    if text.len() > 0 {
        seq![prefix + text]
    } else {
        seq![]
    }
}

/// The lines of `gt org view`: name, full name, visibility, description,
/// location and website, the optional ones only when set.
pub open spec fn org_view_spec(o: Organization) -> Seq<Seq<char>> {
    seq![opt_or(o.username, "(unknown)"@)] + line_if(""@, opt_or(o.full_name, ""@)) + seq![
        "Visibility: "@ + opt_or(o.visibility, ""@),
    ] + (if opt_or(o.description, ""@).len() > 0 {
        seq![""@, opt_or(o.description, ""@)]
    } else {
        seq![]
    }) + line_if("Location: "@, opt_or(o.location, ""@)) + line_if(
        "Website: "@,
        opt_or(o.website, ""@),
    )
}

/// Appends `prefix + text` when `text` is not empty.
fn push_line_if(out: &mut Vec<String>, prefix: &str, text: &[char])
    ensures
        strs(final(out)@) == strs(old(out)@) + line_if(prefix@, text@),
{
    if text.len() > 0 {
        let mut l = chars_of(prefix);
        extend_chars(&mut l, text);
        push_line(out, &l);
    }
    assert(strs(out@) =~= strs(old(out)@) + line_if(prefix@, text@));
}

/// The lines of `gt org view`.
pub fn org_view_lines(o: &Organization) -> (out: Vec<String>)
    ensures
        strs(out@) == org_view_spec(*o),
{
    let mut out: Vec<String> = Vec::new();
    push_line(&mut out, &opt_or_exec(&o.username, "(unknown)"));
    proof {
        reveal_strlit("");
    }
    push_line_if(&mut out, "", &opt_or_exec(&o.full_name, ""));
    let mut v = chars_of("Visibility: ");
    extend_chars(&mut v, &opt_or_exec(&o.visibility, ""));
    push_line(&mut out, &v);
    let d = opt_or_exec(&o.description, "");
    let ghost mid = strs(out@);
    if d.len() > 0 {
        push_line(&mut out, &chars_of(""));
        push_line(&mut out, &d);
    }
    push_line_if(&mut out, "Location: ", &opt_or_exec(&o.location, ""));
    push_line_if(&mut out, "Website: ", &opt_or_exec(&o.website, ""));
    assert(strs(out@) =~= org_view_spec(*o));
    out
}

/// The visibilities an organization can have.
#[derive(Debug, Clone, Copy, PartialEq, Eq)]
pub enum Visibility {
    Public,
    Limited,
    Private,
}

/// The visibility that `--visibility` names.
pub open spec fn visibility_spec(v: Seq<char>) -> Option<Visibility> {
    if v == "public"@ {
        Some(Visibility::Public)
    } else if v == "limited"@ {
        Some(Visibility::Limited)
    } else if v == "private"@ {
        Some(Visibility::Private)
    } else {
        None
    }
}

/// Reads `--visibility`: `public`, `limited` or `private`.
pub fn parse_visibility(v: &str) -> (r: Result<Visibility, String>)
    ensures
        match visibility_spec(v@) {
            Some(x) => r == Ok::<Visibility, String>(x),
            None => r matches Err(m) && m@ == "Invalid visibility: "@ + v@
                + ". Use public, limited, or private"@,
        },
{
    if str_eq(v, "public") {
        Ok(Visibility::Public)
    } else if str_eq(v, "limited") {
        Ok(Visibility::Limited)
    } else if str_eq(v, "private") {
        Ok(Visibility::Private)
    } else {
        let mut m = chars_of("Invalid visibility: ");
        extend_str(&mut m, v);
        extend_str(&mut m, ". Use public, limited, or private");
        Err(string_of(&m))
    }
}

} // verus!
