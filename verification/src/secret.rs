//! `gt secret` and `gt variable`: the listings and the decisions after the
//! server's answer to an update.
use vstd::prelude::*;

use crate::issue::when_text;
use crate::json::JsonArgs;
use crate::repo::RepoArgs;
use crate::text::{
    chars_of, contains, contains_exec, extend_chars, extend_str, opt_or, opt_or_exec, pad_right,
    pad_right_exec, push_line, string_of, strs, trim, trim_exec,
};
use crate::issue::when_exec;

verus! {

/// A repository secret (its value is never shown).
#[derive(Debug, Clone, Default)]
pub struct Secret {
    pub name: Option<String>,
    pub created_at: Option<i64>,
}

/// A repository variable.
#[derive(Debug, Clone, Default)]
pub struct Variable {
    pub name: Option<String>,
    pub data: Option<String>,
}

/// The subcommands of `gt secret`.
#[derive(Debug, Clone)]
pub enum SecretAction {
    List { json: JsonArgs },
    /// Set a secret; without a value it is read from standard input.
    Assign { name: String, value: Option<String> },
    Delete { name: String },
}

/// `gt secret`: the repository option and the subcommand.
#[derive(Debug, Clone)]
pub struct SecretCommand {
    pub repo: RepoArgs,
    pub action: SecretAction,
}

/// The subcommands of `gt variable`.
#[derive(Debug, Clone)]
pub enum VariableAction {
    List { json: JsonArgs },
    Get { name: String },
    Assign { name: String, value: String },
    Delete { name: String },
}

/// `gt variable`: the repository option and the subcommand.
#[derive(Debug, Clone)]
pub struct VariableCommand {
    pub repo: RepoArgs,
    pub action: VariableAction,
}

/// The lines of `gt secret list` (the caller reports an empty listing):
/// name in a column of 30 characters, then when it was created.
pub open spec fn secret_list_spec(ss: Seq<Secret>, is_tty: bool, now: i64) -> Seq<Seq<char>> {
    (if is_tty {
        seq![pad_right("NAME"@, 30) + " UPDATED"@]
    } else {
        seq![]
    }) + Seq::new(
        ss.len(),
        |k: int| pad_right(opt_or(ss[k].name, ""@), 30) + " "@ + when_text(ss[k].created_at, now),
    )
}

/// The lines of `gt secret list`.
pub fn secret_list_lines(ss: &[Secret], is_tty: bool, now: i64) -> (r: Vec<String>)
    ensures
        strs(r@) == secret_list_spec(ss@, is_tty, now),
{
    let mut out: Vec<String> = Vec::new();
    if is_tty {
        let mut h = pad_right_exec(&chars_of("NAME"), 30);
        extend_str(&mut h, " UPDATED");
        push_line(&mut out, &h);
    }
    let ghost head = strs(out@);
    let ghost rows = Seq::new(
        ss@.len(),
        |k: int| pad_right(opt_or(ss@[k].name, ""@), 30) + " "@ + when_text(ss@[k].created_at, now),
    );
    let mut k: usize = 0;
    while k < ss.len()
        invariant
            k <= ss@.len(),
            rows == Seq::new(
                ss@.len(),
                |k: int|
                    pad_right(opt_or(ss@[k].name, ""@), 30) + " "@ + when_text(
                        ss@[k].created_at,
                        now,
                    ),
            ),
            strs(out@) == head + rows.take(k as int),
        decreases ss.len() - k,
    {
        let mut v = pad_right_exec(&opt_or_exec(&ss[k].name, ""), 30);
        extend_str(&mut v, " ");
        extend_chars(&mut v, &when_exec(ss[k].created_at, now));
        let ghost before = strs(out@);
        push_line(&mut out, &v);
        assert(strs(out@) =~= before.push(rows[k as int]));
        assert(rows.take(k + 1) =~= rows.take(k as int).push(rows[k as int]));
        k += 1;
    }
    assert(rows.take(ss.len() as int) =~= rows);
    out
}

/// The value `gt secret set` stores: `--value`, or standard input trimmed.
pub fn secret_value(value: &Option<String>, stdin_text: &str) -> (r: String)
    ensures
        r@ == match value {
            Some(v) => v@,
            None => trim(stdin_text@),
        },
{
    match value {
        Some(v) => v.clone(),
        None => string_of(&trim_exec(&chars_of(stdin_text))),
    }
}

/// The lines of `gt variable list` (the caller reports an empty listing):
/// name in a column of 30 characters, then the value.
pub open spec fn variable_list_spec(vs: Seq<Variable>, is_tty: bool) -> Seq<Seq<char>> {
    (if is_tty {
        seq![pad_right("NAME"@, 30) + " VALUE"@]
    } else {
        seq![]
    }) + Seq::new(
        vs.len(),
        |k: int| pad_right(opt_or(vs[k].name, ""@), 30) + " "@ + opt_or(vs[k].data, ""@),
    )
}

/// The lines of `gt variable list`.
pub fn variable_list_lines(vs: &[Variable], is_tty: bool) -> (r: Vec<String>)
    ensures
        strs(r@) == variable_list_spec(vs@, is_tty),
{
    let mut out: Vec<String> = Vec::new();
    if is_tty {
        let mut h = pad_right_exec(&chars_of("NAME"), 30);
        extend_str(&mut h, " VALUE");
        push_line(&mut out, &h);
    }
    let ghost head = strs(out@);
    let ghost rows = Seq::new(
        vs@.len(),
        |k: int| pad_right(opt_or(vs@[k].name, ""@), 30) + " "@ + opt_or(vs@[k].data, ""@),
    );
    let mut k: usize = 0;
    while k < vs.len()
        invariant
            k <= vs@.len(),
            rows == Seq::new(
                vs@.len(),
                |k: int| pad_right(opt_or(vs@[k].name, ""@), 30) + " "@ + opt_or(vs@[k].data, ""@),
            ),
            strs(out@) == head + rows.take(k as int),
        decreases vs.len() - k,
    {
        let mut v = pad_right_exec(&opt_or_exec(&vs[k].name, ""), 30);
        extend_str(&mut v, " ");
        extend_chars(&mut v, &opt_or_exec(&vs[k].data, ""));
        let ghost before = strs(out@);
        push_line(&mut out, &v);
        assert(strs(out@) =~= before.push(rows[k as int]));
        assert(rows.take(k + 1) =~= rows.take(k as int).push(rows[k as int]));
        k += 1;
    }
    assert(rows.take(vs.len() as int) =~= rows);
    out
}

/// What follows an attempt to update a variable.
#[derive(Debug, Clone)]
pub enum UpdateNext {
    /// The variable was updated.
    Updated,
    /// It does not exist: create it.
    Create,
    /// Stop with this error.
    Fail(String),
}

/// After the update request: success, or an error whose text names status
/// 204 (the server's empty success), is an update; an error naming 404
/// means the variable must be created; any other error stands.
pub fn after_update(result: &Result<(), String>) -> (r: UpdateNext)
    ensures
        match result {
            Ok(_) => r is Updated,
            Err(m) => if contains(m@, "204"@) {
                r is Updated
            } else if contains(m@, "404"@) {
                r is Create
            } else {
                r matches UpdateNext::Fail(x) && x@ == m@
            },
        },
{
    match result {
        Ok(_) => UpdateNext::Updated,
        Err(m) => {
            let mc = chars_of(m.as_str());
            if contains_exec(&mc, &chars_of("204")) {
                UpdateNext::Updated
            } else if contains_exec(&mc, &chars_of("404")) {
                UpdateNext::Create
            } else {
                UpdateNext::Fail(m.clone())
            }
        },
    }
}

/// After the delete request: success, or an error naming status 204, is a
/// deletion; any other error stands.
pub fn after_delete(result: &Result<(), String>) -> (r: Result<(), String>)
    ensures
        match result {
            Ok(_) => r is Ok,
            Err(m) => if contains(m@, "204"@) {
                r is Ok
            } else {
                r matches Err(x) && x@ == m@
            },
        },
{
    match result {
        Ok(_) => Ok(()),
        Err(m) => {
            if contains_exec(&chars_of(m.as_str()), &chars_of("204")) {
                Ok(())
            } else {
                Err(m.clone())
            }
        },
    }
}

} // verus!
