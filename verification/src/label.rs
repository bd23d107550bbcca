//! `gt label`: the rows of the label listing and the messages of the
//! label subcommands.
use vstd::prelude::*;

use crate::issue::num;
use crate::text::{
    chars_of, dec_i64, dec_int, extend_chars, extend_str, opt_or, opt_or_exec, pad_right,
    pad_right_exec, push_line, string_of, strs,
};

verus! {

/// A label of a repository, as the listing shows it.
#[derive(Debug, Clone, Default)]
pub struct Label {
    pub id: Option<i64>,
    pub name: Option<String>,
    /// Hex colour without `#`.
    pub color: Option<String>,
    pub description: Option<String>,
}

/// The options of `gt label create`.
#[derive(Debug, Clone)]
pub struct CreateArgs {
    pub name: String,
    pub color: String,
    pub description: Option<String>,
    pub repo: Option<String>,
}

/// The options of `gt label edit`.
#[derive(Debug, Clone)]
pub struct EditArgs {
    pub id: i64,
    pub name: Option<String>,
    pub color: Option<String>,
    pub description: Option<String>,
    pub repo: Option<String>,
}

/// The subcommands of `gt label`; each may name the repository.
#[derive(Debug, Clone)]
pub enum LabelAction {
    List { repo: Option<String>, json: bool },
    Create(CreateArgs),
    Edit(EditArgs),
    Delete { id: i64, repo: Option<String> },
}

/// `gt label`.
#[derive(Debug, Clone)]
pub struct LabelCommand {
    pub action: LabelAction,
}

/// The row of `gt label list`: id, name, colour and description in columns
/// of 6, 30 and 10 characters.
pub open spec fn label_row_spec(l: Label) -> Seq<char> {
    pad_right(dec_int(num(l.id)), 6) + " "@ + pad_right(opt_or(l.name, ""@), 30) + " "@
        + pad_right(opt_or(l.color, ""@), 10) + " "@ + opt_or(l.description, ""@)
}

/// The lines of `gt label list` (the caller reports an empty listing).
pub open spec fn label_list_spec(ls: Seq<Label>, is_tty: bool) -> Seq<Seq<char>> {
    (if is_tty {
        seq![
            pad_right("ID"@, 6) + " "@ + pad_right("NAME"@, 30) + " "@ + pad_right("COLOR"@, 10)
                + " DESCRIPTION"@,
        ]
    } else {
        seq![]
    }) + Seq::new(ls.len(), |k: int| label_row_spec(ls[k]))
}

/// The lines of `gt label list`.
pub fn label_list_lines(ls: &[Label], is_tty: bool) -> (r: Vec<String>)
    ensures
        strs(r@) == label_list_spec(ls@, is_tty),
{
    let mut out: Vec<String> = Vec::new();
    if is_tty {
        let mut h = pad_right_exec(&chars_of("ID"), 6);
        extend_str(&mut h, " ");
        extend_chars(&mut h, &pad_right_exec(&chars_of("NAME"), 30));
        extend_str(&mut h, " ");
        extend_chars(&mut h, &pad_right_exec(&chars_of("COLOR"), 10));
        extend_str(&mut h, " DESCRIPTION");
        push_line(&mut out, &h);
    }
    let ghost head = strs(out@);
    let ghost rows = Seq::new(ls@.len(), |k: int| label_row_spec(ls@[k]));
    let mut k: usize = 0;
    while k < ls.len()
        invariant
            k <= ls@.len(),
            rows == Seq::new(ls@.len(), |k: int| label_row_spec(ls@[k])),
            strs(out@) == head + rows.take(k as int),
        decreases ls.len() - k,
    {
        let l = &ls[k];
        let mut v = pad_right_exec(&dec_i64(match l.id {
            Some(x) => x,
            None => 0,
        }), 6);
        extend_str(&mut v, " ");
        extend_chars(&mut v, &pad_right_exec(&opt_or_exec(&l.name, ""), 30));
        extend_str(&mut v, " ");
        extend_chars(&mut v, &pad_right_exec(&opt_or_exec(&l.color, ""), 10));
        extend_str(&mut v, " ");
        extend_chars(&mut v, &opt_or_exec(&l.description, ""));
        let ghost before = strs(out@);
        push_line(&mut out, &v);
        assert(strs(out@) =~= before.push(rows[k as int]));
        assert(rows.take(k + 1) =~= rows.take(k as int).push(rows[k as int]));
        k += 1;
    }
    assert(rows.take(ls.len() as int) =~= rows);
    out
}

/// The message after `gt label create`.
pub fn created_message(id: Option<i64>, name: &Option<String>) -> (r: String)
    ensures
        r@ == "Created label #"@ + dec_int(num(id)) + ": "@ + opt_or(*name, ""@),
{
    let mut v = chars_of("Created label #");
    extend_chars(&mut v, &dec_i64(match id {
        Some(x) => x,
        None => 0,
    }));
    extend_str(&mut v, ": ");
    extend_chars(&mut v, &opt_or_exec(name, ""));
    string_of(&v)
}

} // verus!
