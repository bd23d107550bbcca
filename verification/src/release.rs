//! `gt release`: the listing, the view of one release, the values of
//! `release create`, and the paths and messages of asset transfers.
use vstd::prelude::*;

use crate::issue::{body_lines, body_lines_exec, num, rows_of, when_exec, when_text};
use crate::json::JsonArgs;
use crate::repo::{RepoArgs, RepoInfo};
use crate::runner::{cut_bytes, cut_bytes_ok, cut_bytes_spec};
use crate::text::{
    append_lines, chars_of, dec_i64, dec_int, extend_chars, extend_str, opt_or, opt_or_exec,
    pad_right, pad_right_exec, push_line, starts_with, starts_with_exec, slice_chars, string_of,
    strs,
};
use crate::time::{relative_spec, relative_time_at};

verus! {

/// A file attached to a release.
#[derive(Debug, Clone, Default)]
pub struct Asset {
    pub name: Option<String>,
    pub download_count: Option<i64>,
    pub browser_download_url: Option<String>,
}

/// The fields of a release that the commands read.
#[derive(Debug, Clone, Default)]
pub struct Release {
    pub id: Option<i64>,
    pub tag_name: Option<String>,
    pub name: Option<String>,
    pub draft: Option<bool>,
    pub prerelease: Option<bool>,
    /// The author, when there is one, with its login when it has one.
    pub author: Option<Option<String>>,
    pub published_at: Option<i64>,
    pub body: Option<String>,
    pub assets: Vec<Asset>,
    pub html_url: Option<String>,
}

/// The options of `gt release create`.
#[derive(Debug, Clone)]
pub struct CreateArgs {
    pub tag: Option<String>,
    pub name: Option<String>,
    pub body: Option<String>,
    pub draft: bool,
    pub prerelease: bool,
}

/// The options of `gt release edit`.
#[derive(Debug, Clone)]
pub struct EditArgs {
    pub id: i64,
    pub name: Option<String>,
    pub body: Option<String>,
    pub draft: Option<bool>,
    pub prerelease: Option<bool>,
}

/// The subcommands of `gt release`.
#[derive(Debug, Clone)]
pub enum ReleaseAction {
    List { json: JsonArgs },
    Create(CreateArgs),
    View { id: i64, json: bool },
    Download(i64),
    Delete(i64),
    Edit(EditArgs),
    /// Upload files as assets of a release.
    Upload { id: i64, files: Vec<String> },
    DeleteAsset { id: i64, asset_id: i64 },
}

/// `gt release`: the repository option and the subcommand.
#[derive(Debug, Clone)]
pub struct ReleaseCommand {
    pub repo: RepoArgs,
    pub action: ReleaseAction,
}

/// The status column of the listing: `draft`, `pre` or `latest`.
pub open spec fn list_status(r: Release) -> Seq<char> {
    if r.draft == Some(true) {
        "draft"@
    } else if r.prerelease == Some(true) {
        "pre"@
    } else {
        "latest"@
    }
}

/// The row of `gt release list`: id, tag, title (cut to 28 bytes), status
/// and publication, in columns of 6, 20, 30 and 10 characters.
pub open spec fn release_row_spec(r: Release, now: i64) -> Seq<char> {
    pad_right(dec_int(num(r.id)), 6) + " "@ + pad_right(opt_or(r.tag_name, ""@), 20) + " "@
        + pad_right(cut_bytes_spec(opt_or(r.name, ""@), 28), 30) + " "@ + pad_right(
        list_status(r),
        10,
    ) + " "@ + when_text(r.published_at, now)
}

/// The title of a row is cut on a character boundary.
pub open spec fn release_row_ok(r: Release) -> bool {
    cut_bytes_ok(opt_or(r.name, ""@), 28)
}

/// One row of `gt release list`.
pub fn release_row(r: &Release, now: i64) -> (s: String)
    requires
        release_row_ok(*r),
    ensures
        s@ == release_row_spec(*r, now),
{
    let name = string_of(&opt_or_exec(&r.name, ""));
    let mut v = pad_right_exec(&dec_i64(match r.id {
        Some(x) => x,
        None => 0,
    }), 6);
    extend_str(&mut v, " ");
    extend_chars(&mut v, &pad_right_exec(&opt_or_exec(&r.tag_name, ""), 20));
    extend_str(&mut v, " ");
    extend_chars(&mut v, &pad_right_exec(&chars_of(cut_bytes(name.as_str(), 28).as_str()), 30));
    extend_str(&mut v, " ");
    let status = if r.draft == Some(true) {
        chars_of("draft")
    } else if r.prerelease == Some(true) {
        chars_of("pre")
    } else {
        chars_of("latest")
    };
    extend_chars(&mut v, &pad_right_exec(&status, 10));
    extend_str(&mut v, " ");
    extend_chars(&mut v, &when_exec(r.published_at, now));
    string_of(&v)
}

/// The header row of `gt release list` on a terminal.
pub open spec fn release_header_spec() -> Seq<char> {
    pad_right("ID"@, 6) + " "@ + pad_right("TAG"@, 20) + " "@ + pad_right("TITLE"@, 30) + " "@
        + pad_right("STATUS"@, 10) + " PUBLISHED"@
}

/// The lines of `gt release list` (the caller reports an empty listing).
pub open spec fn release_list_spec(rs: Seq<Release>, is_tty: bool, now: i64) -> Seq<Seq<char>> {
    (if is_tty {
        seq![release_header_spec()]
    } else {
        seq![]
    }) + rows_of(rs, now, |r: Release, n: i64| release_row_spec(r, n))
}

/// The lines of `gt release list`.
pub fn release_list_lines(rs: &[Release], is_tty: bool, now: i64) -> (r: Vec<String>)
    requires
        forall|k: int| 0 <= k < rs@.len() ==> release_row_ok(#[trigger] rs@[k]),
    ensures
        strs(r@) == release_list_spec(rs@, is_tty, now),
{
    let mut out: Vec<String> = Vec::new();
    if is_tty {
        let mut h = pad_right_exec(&chars_of("ID"), 6);
        extend_str(&mut h, " ");
        extend_chars(&mut h, &pad_right_exec(&chars_of("TAG"), 20));
        extend_str(&mut h, " ");
        extend_chars(&mut h, &pad_right_exec(&chars_of("TITLE"), 30));
        extend_str(&mut h, " ");
        extend_chars(&mut h, &pad_right_exec(&chars_of("STATUS"), 10));
        extend_str(&mut h, " PUBLISHED");
        push_line(&mut out, &h);
    }
    let ghost head = strs(out@);
    let ghost rows = rows_of(rs@, now, |r: Release, n: i64| release_row_spec(r, n));
    let mut k: usize = 0;
    while k < rs.len()
        invariant
            k <= rs@.len(),
            forall|j: int| 0 <= j < rs@.len() ==> release_row_ok(#[trigger] rs@[j]),
            rows == rows_of(rs@, now, |r: Release, n: i64| release_row_spec(r, n)),
            strs(out@) == head + rows.take(k as int),
        decreases rs.len() - k,
    {
        let row = release_row(&rs[k], now);
        let ghost before = strs(out@);
        out.push(row);
        assert(strs(out@) =~= before.push(rows[k as int]));
        assert(rows.take(k + 1) =~= rows.take(k as int).push(rows[k as int]));
        k += 1;
    }
    assert(rows.take(rs.len() as int) =~= rows);
    out
}

/// The kind shown by `gt release view`.
pub open spec fn view_status(r: Release) -> Seq<char> {
    if r.draft == Some(true) {
        "draft"@
    } else if r.prerelease == Some(true) {
        "prerelease"@
    } else {
        "release"@
    }
}

/// The asset lines of `gt release view`.
pub open spec fn asset_lines(assets: Seq<Asset>) -> Seq<Seq<char>> {
    if assets.len() == 0 {
        seq![]
    } else {
        seq!["\nAssets:"@] + Seq::new(
            assets.len(),
            |k: int|
                "  "@ + opt_or(assets[k].name, "unnamed"@) + " ("@ + dec_int(
                    num(assets[k].download_count),
                ) + " downloads)"@,
        )
    }
}

/// The lines of `gt release view`.
pub open spec fn release_view_spec(r: Release, now: i64) -> Seq<Seq<char>> {
    seq![
        opt_or(r.name, "(no title)"@) + " (#"@ + dec_int(num(r.id)) + ")"@,
        "Tag: "@ + opt_or(r.tag_name, ""@) + " -- "@ + view_status(r),
    ] + match r.author {
        Some(login) => seq!["Author: "@ + opt_or(login, "unknown"@)],
        None => seq![],
    } + match r.published_at {
        Some(t) => seq!["Published: "@ + relative_spec(now, t)],
        None => seq![],
    } + body_lines(r.body) + asset_lines(r.assets@) + match r.html_url {
        Some(u) => seq![""@, u@],
        None => seq![],
    }
}

/// The asset lines of `gt release view`.
fn asset_lines_exec(assets: &[Asset]) -> (r: Vec<String>)
    ensures
        strs(r@) == asset_lines(assets@),
{
    let mut out: Vec<String> = Vec::new();
    if assets.len() == 0 {
        assert(strs(out@) =~= asset_lines(assets@));
        return out;
    }
    push_line(&mut out, &chars_of("\nAssets:"));
    let ghost head = strs(out@);
    let ghost rows = Seq::new(
        assets@.len(),
        |k: int|
            "  "@ + opt_or(assets@[k].name, "unnamed"@) + " ("@ + dec_int(
                num(assets@[k].download_count),
            ) + " downloads)"@,
    );
    let mut k: usize = 0;
    while k < assets.len()
        invariant
            k <= assets@.len(),
            rows == Seq::new(
                assets@.len(),
                |k: int|
                    "  "@ + opt_or(assets@[k].name, "unnamed"@) + " ("@ + dec_int(
                        num(assets@[k].download_count),
                    ) + " downloads)"@,
            ),
            strs(out@) == head + rows.take(k as int),
        decreases assets.len() - k,
    {
        let a = &assets[k];
        let mut l = chars_of("  ");
        extend_chars(&mut l, &opt_or_exec(&a.name, "unnamed"));
        extend_str(&mut l, " (");
        extend_chars(&mut l, &dec_i64(match a.download_count {
            Some(x) => x,
            None => 0,
        }));
        extend_str(&mut l, " downloads)");
        let ghost before = strs(out@);
        push_line(&mut out, &l);
        assert(strs(out@) =~= before.push(rows[k as int]));
        assert(rows.take(k + 1) =~= rows.take(k as int).push(rows[k as int]));
        k += 1;
    }
    assert(rows.take(assets.len() as int) =~= rows);
    assert(strs(out@) =~= asset_lines(assets@));
    out
}

/// The lines of `gt release view` at time `now`.
pub fn release_view_lines(r: &Release, now: i64) -> (out: Vec<String>)
    ensures
        strs(out@) == release_view_spec(*r, now),
{
    let mut out: Vec<String> = Vec::new();
    let mut a = opt_or_exec(&r.name, "(no title)");
    extend_str(&mut a, " (#");
    extend_chars(&mut a, &dec_i64(match r.id {
        Some(x) => x,
        None => 0,
    }));
    extend_str(&mut a, ")");
    push_line(&mut out, &a);
    let mut b = chars_of("Tag: ");
    extend_chars(&mut b, &opt_or_exec(&r.tag_name, ""));
    extend_str(&mut b, " -- ");
    if r.draft == Some(true) {
        extend_str(&mut b, "draft");
    } else if r.prerelease == Some(true) {
        extend_str(&mut b, "prerelease");
    } else {
        extend_str(&mut b, "release");
    }
    push_line(&mut out, &b);
    let ghost s1 = strs(out@);
    match &r.author {
        Some(login) => {
            let mut l = chars_of("Author: ");
            extend_chars(&mut l, &opt_or_exec(login, "unknown"));
            push_line(&mut out, &l);
        },
        None => {},
    }
    let ghost s2 = strs(out@);
    match r.published_at {
        Some(t) => {
            let mut l = chars_of("Published: ");
            extend_str(&mut l, relative_time_at(now, t).as_str());
            push_line(&mut out, &l);
        },
        None => {},
    }
    let ghost s3 = strs(out@);
    append_lines(&mut out, body_lines_exec(&r.body));
    append_lines(&mut out, asset_lines_exec(r.assets.as_slice()));
    let ghost s4 = strs(out@);
    match &r.html_url {
        Some(u) => {
            push_line(&mut out, &chars_of(""));
            push_line(&mut out, &chars_of(u.as_str()));
        },
        None => {},
    }
    assert(strs(out@) =~= release_view_spec(*r, now));
    out
}

/// The release `gt release create --tag` makes: the title defaults to the
/// tag.
pub fn release_title(tag: &str, name: &Option<String>) -> (r: String)
    ensures
        r@ == opt_or(*name, tag@),
{
    string_of(&opt_or_exec(name, tag))
}

/// The API path of an asset: its download URL without the client's base
/// URL, or the whole URL when it does not start with it.
pub open spec fn asset_path_spec(url: Seq<char>, base: Seq<char>) -> Seq<char> {
    if starts_with(url, base) {
        url.skip(base.len() as int)
    } else {
        url
    }
}

/// The API path of an asset download.
pub fn asset_path(url: &str, base: &str) -> (r: String)
    ensures
        r@ == asset_path_spec(url@, base@),
{
    let u = chars_of(url);
    let b = chars_of(base);
    if starts_with_exec(&u, &b) {
        let rest = slice_chars(&u, b.len(), u.len());
        assert(rest@ =~= u@.skip(b@.len() as int));
        string_of(&rest)
    } else {
        string_of(&u)
    }
}

/// The API path that receives a new asset of a release.
pub open spec fn upload_path_spec(repo: RepoInfo, id: i64, filename: Seq<char>) -> Seq<char> {
    "repos/"@ + repo.owner@ + "/"@ + repo.name@ + "/releases/"@ + dec_int(id as int)
        + "/assets?name="@ + filename
}

/// The API path that receives a new asset of a release.
pub fn upload_path(repo: &RepoInfo, id: i64, filename: &str) -> (r: String)
    ensures
        r@ == upload_path_spec(*repo, id, filename@),
{
    let mut v = chars_of("repos/");
    extend_str(&mut v, repo.owner.as_str());
    extend_str(&mut v, "/");
    extend_str(&mut v, repo.name.as_str());
    extend_str(&mut v, "/releases/");
    extend_chars(&mut v, &dec_i64(id));
    extend_str(&mut v, "/assets?name=");
    extend_str(&mut v, filename);
    string_of(&v)
}

/// The error of a refused upload: the server's `message` when its answer
/// is JSON with a string `message`, else the status's reason, else `Error`.
pub open spec fn upload_error_spec(status: u16, reason: Option<Seq<char>>, body: Seq<char>) -> Seq<
    char,
> {
    "HTTP "@ + dec_int(status as int) + ": "@ + match crate::api::json_string_member_spec(
        body,
        "message"@,
    ) {
        Some(m) => m,
        None => match reason {
            Some(r) => r,
            None => "Error"@,
        },
    }
}

/// The error of a refused upload.
pub fn upload_error(status: u16, reason: Option<&str>, body: &str) -> (r: String)
    ensures
        r@ == upload_error_spec(
            status,
            match reason {
                Some(x) => Some(x@),
                None => None,
            },
            body@,
        ),
{
    let mut v = chars_of("HTTP ");
    extend_chars(&mut v, &crate::text::dec_u64(status as u64));
    extend_str(&mut v, ": ");
    match crate::api::json_string_member(body, "message") {
        Some(m) => extend_str(&mut v, m.as_str()),
        None => match reason {
            Some(x) => extend_str(&mut v, x),
            None => extend_str(&mut v, "Error"),
        },
    }
    string_of(&v)
}

} // verus!
