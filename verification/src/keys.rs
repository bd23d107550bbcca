//! SSH, GPG and deploy keys: the listings and what is uploaded.
use vstd::prelude::*;

use crate::issue::{num, rows_of, when_exec, when_text};
use crate::json::JsonArgs;
use crate::runner::{byte_prefix_exec, cut_bytes, cut_bytes_ok, cut_bytes_spec};
use crate::text::{
    byte_prefix, byte_suffix, byte_suffix_exec, chars_of, dec_i64, dec_int, extend_chars,
    extend_str, is_boundary, join, join_exec, opt_or, opt_or_exec, pad_right, pad_right_exec,
    present, present_exec, push_line, string_of, strs, trim, trim_exec, utf8_len, utf8_len_gt,
};

verus! {

/// An SSH key of the user.
#[derive(Debug, Clone, Default)]
pub struct SshKey {
    pub id: Option<i64>,
    pub title: Option<String>,
    pub key_type: Option<String>,
    pub created_at: Option<i64>,
}

/// A GPG key of the user.
#[derive(Debug, Clone, Default)]
pub struct GpgKey {
    pub id: Option<i64>,
    pub key_id: Option<String>,
    /// The addresses of the key (an entry may have none).
    pub emails: Vec<Option<String>>,
    pub can_sign: Option<bool>,
    pub created_at: Option<i64>,
}

/// A deploy key of a repository.
#[derive(Debug, Clone, Default)]
pub struct DeployKey {
    pub id: Option<i64>,
    pub title: Option<String>,
    pub read_only: Option<bool>,
    pub key: Option<String>,
}

/// The subcommands of `gt ssh-key`.
#[derive(Debug, Clone)]
pub enum SshKeyAction {
    List { json: JsonArgs },
    /// Add a key (the key text, or a file holding it).
    Add { title: String, key: String },
    Delete { id: i64 },
}

/// `gt ssh-key`.
#[derive(Debug, Clone)]
pub struct SshKeyCommand {
    pub action: SshKeyAction,
}

/// The subcommands of `gt gpg-key`.
#[derive(Debug, Clone)]
pub enum GpgKeyAction {
    List { json: JsonArgs },
    /// Add an armored key (the text, or a file holding it).
    Add { key: String },
    Delete { id: i64 },
}

/// `gt gpg-key`.
#[derive(Debug, Clone)]
pub struct GpgKeyCommand {
    pub action: GpgKeyAction,
}

/// The key text uploaded: the file's contents when the argument names a
/// file, else the argument, trimmed either way.
pub fn key_content(arg: &str, file_text: &Option<String>) -> (r: String)
    ensures
        r@ == trim(opt_or(*file_text, arg@)),
{
    string_of(&trim_exec(&opt_or_exec(file_text, arg)))
}

/// The row of `gt ssh-key list`: id, title, type and age in columns of 6,
/// 25 and 12 characters.
pub open spec fn ssh_row_spec(k: SshKey, now: i64) -> Seq<char> {
    pad_right(dec_int(num(k.id)), 6) + " "@ + pad_right(opt_or(k.title, ""@), 25) + " "@
        + pad_right(opt_or(k.key_type, ""@), 12) + " "@ + when_text(k.created_at, now)
}

/// The lines of `gt ssh-key list` (the caller reports an empty listing).
pub open spec fn ssh_list_spec(ks: Seq<SshKey>, is_tty: bool, now: i64) -> Seq<Seq<char>> {
    (if is_tty {
        seq![
            pad_right("ID"@, 6) + " "@ + pad_right("TITLE"@, 25) + " "@ + pad_right("TYPE"@, 12)
                + " ADDED"@,
        ]
    } else {
        seq![]
    }) + rows_of(ks, now, |k: SshKey, n: i64| ssh_row_spec(k, n))
}

/// The lines of `gt ssh-key list`.
pub fn ssh_list_lines(ks: &[SshKey], is_tty: bool, now: i64) -> (r: Vec<String>)
    ensures
        strs(r@) == ssh_list_spec(ks@, is_tty, now),
{
    let mut out: Vec<String> = Vec::new();
    if is_tty {
        let mut h = pad_right_exec(&chars_of("ID"), 6);
        extend_str(&mut h, " ");
        extend_chars(&mut h, &pad_right_exec(&chars_of("TITLE"), 25));
        extend_str(&mut h, " ");
        extend_chars(&mut h, &pad_right_exec(&chars_of("TYPE"), 12));
        extend_str(&mut h, " ADDED");
        push_line(&mut out, &h);
    }
    let ghost head = strs(out@);
    let ghost rows = rows_of(ks@, now, |k: SshKey, n: i64| ssh_row_spec(k, n));
    let mut i: usize = 0;
    while i < ks.len()
        invariant
            i <= ks@.len(),
            rows == rows_of(ks@, now, |k: SshKey, n: i64| ssh_row_spec(k, n)),
            strs(out@) == head + rows.take(i as int),
        decreases ks.len() - i,
    {
        let k = &ks[i];
        let mut v = pad_right_exec(&dec_i64(match k.id {
            Some(x) => x,
            None => 0,
        }), 6);
        extend_str(&mut v, " ");
        extend_chars(&mut v, &pad_right_exec(&opt_or_exec(&k.title, ""), 25));
        extend_str(&mut v, " ");
        extend_chars(&mut v, &pad_right_exec(&opt_or_exec(&k.key_type, ""), 12));
        extend_str(&mut v, " ");
        extend_chars(&mut v, &when_exec(k.created_at, now));
        let ghost before = strs(out@);
        push_line(&mut out, &v);
        assert(strs(out@) =~= before.push(rows[i as int]));
        assert(rows.take(i + 1) =~= rows.take(i as int).push(rows[i as int]));
        i += 1;
    }
    assert(rows.take(ks.len() as int) =~= rows);
    out
}

/// The row of `gt gpg-key list`: id, key id, addresses (comma-separated,
/// cut to 28 bytes), a tick when it can sign, and age, in columns of 6,
/// 18, 30 and 6 characters.
pub open spec fn gpg_row_spec(k: GpgKey, now: i64) -> Seq<char> {
    pad_right(dec_int(num(k.id)), 6) + " "@ + pad_right(opt_or(k.key_id, ""@), 18) + " "@
        + pad_right(cut_bytes_spec(join(present(k.emails@), ", "@), 28), 30) + " "@ + pad_right(
        if k.can_sign == Some(true) {
            "✓"@
        } else {
            ""@
        },
        6,
    ) + " "@ + when_text(k.created_at, now)
}

/// The addresses of a row are cut on a character boundary.
pub open spec fn gpg_row_ok(k: GpgKey) -> bool {
    cut_bytes_ok(join(present(k.emails@), ", "@), 28)
}

/// One row of `gt gpg-key list`.
pub fn gpg_row(k: &GpgKey, now: i64) -> (r: String)
    requires
        gpg_row_ok(*k),
    ensures
        r@ == gpg_row_spec(*k, now),
{
    let emails = string_of(&join_exec(&present_exec(k.emails.as_slice()), &chars_of(", ")));
    let mut v = pad_right_exec(&dec_i64(match k.id {
        Some(x) => x,
        None => 0,
    }), 6);
    extend_str(&mut v, " ");
    extend_chars(&mut v, &pad_right_exec(&opt_or_exec(&k.key_id, ""), 18));
    extend_str(&mut v, " ");
    extend_chars(&mut v, &pad_right_exec(&chars_of(cut_bytes(emails.as_str(), 28).as_str()), 30));
    extend_str(&mut v, " ");
    let sign = if k.can_sign == Some(true) {
        chars_of("✓")
    } else {
        chars_of("")
    };
    extend_chars(&mut v, &pad_right_exec(&sign, 6));
    extend_str(&mut v, " ");
    extend_chars(&mut v, &when_exec(k.created_at, now));
    string_of(&v)
}

/// The lines of `gt gpg-key list` (the caller reports an empty listing).
pub open spec fn gpg_list_spec(ks: Seq<GpgKey>, is_tty: bool, now: i64) -> Seq<Seq<char>> {
    (if is_tty {
        seq![
            pad_right("ID"@, 6) + " "@ + pad_right("KEY ID"@, 18) + " "@ + pad_right("EMAILS"@, 30)
                + " "@ + pad_right("SIGN"@, 6) + " ADDED"@,
        ]
    } else {
        seq![]
    }) + rows_of(ks, now, |k: GpgKey, n: i64| gpg_row_spec(k, n))
}

/// The lines of `gt gpg-key list`.
pub fn gpg_list_lines(ks: &[GpgKey], is_tty: bool, now: i64) -> (r: Vec<String>)
    requires
        forall|k: int| 0 <= k < ks@.len() ==> gpg_row_ok(#[trigger] ks@[k]),
    ensures
        strs(r@) == gpg_list_spec(ks@, is_tty, now),
{
    let mut out: Vec<String> = Vec::new();
    if is_tty {
        let mut h = pad_right_exec(&chars_of("ID"), 6);
        extend_str(&mut h, " ");
        extend_chars(&mut h, &pad_right_exec(&chars_of("KEY ID"), 18));
        extend_str(&mut h, " ");
        extend_chars(&mut h, &pad_right_exec(&chars_of("EMAILS"), 30));
        extend_str(&mut h, " ");
        extend_chars(&mut h, &pad_right_exec(&chars_of("SIGN"), 6));
        extend_str(&mut h, " ADDED");
        push_line(&mut out, &h);
    }
    let ghost head = strs(out@);
    let ghost rows = rows_of(ks@, now, |k: GpgKey, n: i64| gpg_row_spec(k, n));
    let mut i: usize = 0;
    while i < ks.len()
        invariant
            i <= ks@.len(),
            forall|k: int| 0 <= k < ks@.len() ==> gpg_row_ok(#[trigger] ks@[k]),
            rows == rows_of(ks@, now, |k: GpgKey, n: i64| gpg_row_spec(k, n)),
            strs(out@) == head + rows.take(i as int),
        decreases ks.len() - i,
    {
        let row = gpg_row(&ks[i], now);
        let ghost before = strs(out@);
        out.push(row);
        assert(strs(out@) =~= before.push(rows[i as int]));
        assert(rows.take(i + 1) =~= rows.take(i as int).push(rows[i as int]));
        i += 1;
    }
    assert(rows.take(ks.len() as int) =~= rows);
    out
}

/// A long key shown as its first 20 and last 10 bytes around `...`.
pub open spec fn fingerprint_spec(k: Seq<char>) -> Seq<char> {
    if utf8_len(k) > 30 {
        byte_prefix(k, 20) + "..."@ + byte_suffix(k, utf8_len(k) - 10)
    } else {
        k
    }
}

/// Abbreviating the key cuts it at character boundaries.
pub open spec fn fingerprint_ok(k: Seq<char>) -> bool {
    utf8_len(k) > 30 ==> is_boundary(k, 20) && is_boundary(k, utf8_len(k) - 10)
}

/// Abbreviates a key for the deploy key listing.
pub fn fingerprint(key: &str) -> (r: String)
    requires
        fingerprint_ok(key@),
    ensures
        r@ == fingerprint_spec(key@),
{
    let k = chars_of(key);
    if utf8_len_gt(&k, 30) {
        let mut v = byte_prefix_exec(&k, 20);
        extend_str(&mut v, "...");
        match byte_suffix_exec(&k, 10) {
            Some(t) => extend_chars(&mut v, &t),
            None => {
                assert(false);
            },
        }
        string_of(&v)
    } else {
        string_of(&k)
    }
}

/// The row of `gt repo deploy-key list`: id, title, access and the
/// abbreviated key, in columns of 6, 30 and 10 characters.
pub open spec fn deploy_row_spec(k: DeployKey) -> Seq<char> {
    pad_right(dec_int(num(k.id)), 6) + " "@ + pad_right(opt_or(k.title, ""@), 30) + " "@
        + pad_right(
        if k.read_only == Some(false) {
            "read-write"@
        } else {
            "read-only"@
        },
        10,
    ) + " "@ + fingerprint_spec(opt_or(k.key, ""@))
}

/// The lines of `gt repo deploy-key list` (the caller reports an empty
/// listing).
pub open spec fn deploy_list_spec(ks: Seq<DeployKey>, is_tty: bool) -> Seq<Seq<char>> {
    (if is_tty {
        seq![
            pad_right("ID"@, 6) + " "@ + pad_right("TITLE"@, 30) + " "@ + pad_right("ACCESS"@, 10)
                + " FINGERPRINT"@,
        ]
    } else {
        seq![]
    }) + Seq::new(ks.len(), |i: int| deploy_row_spec(ks[i]))
}

/// The lines of `gt repo deploy-key list`.
pub fn deploy_list_lines(ks: &[DeployKey], is_tty: bool) -> (r: Vec<String>)
    requires
        forall|i: int| 0 <= i < ks@.len() ==> fingerprint_ok(opt_or((#[trigger] ks@[i]).key, ""@)),
    ensures
        strs(r@) == deploy_list_spec(ks@, is_tty),
{
    let mut out: Vec<String> = Vec::new();
    if is_tty {
        let mut h = pad_right_exec(&chars_of("ID"), 6);
        extend_str(&mut h, " ");
        extend_chars(&mut h, &pad_right_exec(&chars_of("TITLE"), 30));
        extend_str(&mut h, " ");
        extend_chars(&mut h, &pad_right_exec(&chars_of("ACCESS"), 10));
        extend_str(&mut h, " FINGERPRINT");
        push_line(&mut out, &h);
    }
    let ghost head = strs(out@);
    let ghost rows = Seq::new(ks@.len(), |i: int| deploy_row_spec(ks@[i]));
    let mut i: usize = 0;
    while i < ks.len()
        invariant
            i <= ks@.len(),
            forall|i: int|
                0 <= i < ks@.len() ==> fingerprint_ok(opt_or((#[trigger] ks@[i]).key, ""@)),
            rows == Seq::new(ks@.len(), |i: int| deploy_row_spec(ks@[i])),
            strs(out@) == head + rows.take(i as int),
        decreases ks.len() - i,
    {
        let k = &ks[i];
        let key = string_of(&opt_or_exec(&k.key, ""));
        let mut v = pad_right_exec(&dec_i64(match k.id {
            Some(x) => x,
            None => 0,
        }), 6);
        extend_str(&mut v, " ");
        extend_chars(&mut v, &pad_right_exec(&opt_or_exec(&k.title, ""), 30));
        extend_str(&mut v, " ");
        let access = if k.read_only == Some(false) {
            chars_of("read-write")
        } else {
            chars_of("read-only")
        };
        extend_chars(&mut v, &pad_right_exec(&access, 10));
        extend_str(&mut v, " ");
        extend_str(&mut v, fingerprint(key.as_str()).as_str());
        let ghost before = strs(out@);
        push_line(&mut out, &v);
        assert(strs(out@) =~= before.push(rows[i as int]));
        assert(rows.take(i + 1) =~= rows.take(i as int).push(rows[i as int]));
        i += 1;
    }
    assert(rows.take(ks.len() as int) =~= rows);
    out
}

} // verus!
