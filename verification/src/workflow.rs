//! `gt workflow`: the `key=value` inputs of a dispatch, the listing, and
//! the messages after dispatching or toggling a workflow.
use vstd::prelude::*;

use crate::repo::{split_once, split_once_exec, RepoArgs};
use crate::json::JsonArgs;
use crate::runner::{cut_bytes, cut_bytes_ok, cut_bytes_spec};
use crate::text::{
    chars_of, contains, contains_exec, dec_i64, dec_int, eq_chars, extend_chars, extend_str,
    opt_or, opt_or_exec, pad_right, pad_right_exec, push_line, string_of, strs,
};

verus! {

/// A workflow of a repository.
#[derive(Debug, Clone, Default)]
pub struct Workflow {
    /// The workflow's id: its file name.
    pub id: Option<String>,
    pub name: Option<String>,
    pub state: Option<String>,
    pub path: Option<String>,
}

/// The subcommands of `gt workflow`.
#[derive(Debug, Clone)]
pub enum WorkflowAction {
    List { json: JsonArgs },
    /// Dispatch a workflow on a ref with `key=value` inputs.
    Run { workflow: String, ref_: String, input: Vec<(String, String)> },
    Enable { workflow: String },
    Disable { workflow: String },
}

/// `gt workflow`: the repository option and the subcommand.
#[derive(Debug, Clone)]
pub struct WorkflowCommand {
    pub repo: RepoArgs,
    pub action: WorkflowAction,
}

/// Splits a `--input key=value` at its first `=`.
pub fn parse_input(s: &str) -> (r: Result<(String, String), String>)
    ensures
        match split_once(s@, '=') {
            Some((k, v)) => r matches Ok((a, b)) && a@ == k && b@ == v,
            None => r matches Err(m) && m@ == "Invalid input format: "@ + s@ + ". Use key=value"@,
        },
{
    let v = chars_of(s);
    match split_once_exec(&v, '=') {
        Some((k, val)) => Ok((string_of(&k), string_of(&val))),
        None => {
            let mut m = chars_of("Invalid input format: ");
            extend_str(&mut m, s);
            extend_str(&mut m, ". Use key=value");
            Err(string_of(&m))
        },
    }
}

/// The views of key-value pairs.
pub open spec fn pair_views(s: Seq<(String, String)>) -> Seq<(Seq<char>, Seq<char>)> {
    s.map_values(|p: (String, String)| (p.0@, p.1@))
}

/// The map that pairs make when each later pair overrides an earlier one
/// with the same key (collecting into a map).
pub open spec fn inputs_map(s: Seq<(Seq<char>, Seq<char>)>) -> Map<Seq<char>, Seq<char>>
    decreases s.len(),
{
    if s.len() == 0 {
        Map::empty()
    } else {
        inputs_map(s.drop_last()).insert(s.last().0, s.last().1)
    }
}

/// No key occurs twice.
pub open spec fn keys_unique(s: Seq<(Seq<char>, Seq<char>)>) -> bool {
    forall|i: int, j: int| 0 <= i < j < s.len() ==> (#[trigger] s[i]).0 != (#[trigger] s[j]).0
}

/// Replacing the value of a key that occurs once is inserting it.
proof fn lemma_update_unique(s: Seq<(Seq<char>, Seq<char>)>, j: int, v: Seq<char>)
    requires
        0 <= j < s.len(),
        keys_unique(s),
    ensures
        inputs_map(s.update(j, (s[j].0, v))) == inputs_map(s).insert(s[j].0, v),
    decreases s.len(),
{
    let t = s.update(j, (s[j].0, v));
    if j == s.len() - 1 {
        assert(t.drop_last() =~= s.drop_last());
        assert(inputs_map(t) =~= inputs_map(s).insert(s[j].0, v));
    } else {
        assert(t.drop_last() =~= s.drop_last().update(j, (s[j].0, v)));
        lemma_update_unique(s.drop_last(), j, v);
        assert(s.last().0 != s[j].0);
        assert(inputs_map(t) =~= inputs_map(s).insert(s[j].0, v));
    }
}

/// The inputs of a dispatch: one entry per key, holding the key's last
/// value.
pub fn collect_inputs(pairs: &[(String, String)]) -> (r: Vec<(String, String)>)
    ensures
        keys_unique(pair_views(r@)),
        inputs_map(pair_views(r@)) == inputs_map(pair_views(pairs@)),
{
    let mut out: Vec<(String, String)> = Vec::new();
    let mut i: usize = 0;
    let ghost pv = pair_views(pairs@);
    assert(pv.take(0) =~= Seq::<(Seq<char>, Seq<char>)>::empty());
    while i < pairs.len()
        invariant
            i <= pairs@.len(),
            pv == pair_views(pairs@),
            keys_unique(pair_views(out@)),
            inputs_map(pair_views(out@)) == inputs_map(pv.take(i as int)),
        decreases pairs.len() - i,
    {
        let k = chars_of(pairs[i].0.as_str());
        let mut j: usize = 0;
        let mut found: Option<usize> = None;
        while j < out.len()
            invariant_except_break
                j <= out@.len(),
                found is None,
                forall|x: int| 0 <= x < j ==> out@[x].0@ != k@,
            ensures
                found matches Some(f) ==> f < out@.len() && out@[f as int].0@ == k@,
                found is None ==> forall|x: int| 0 <= x < out@.len() ==> out@[x].0@ != k@,
            decreases out.len() - j,
        {
            if eq_chars(&chars_of(out[j].0.as_str()), &k) {
                found = Some(j);
                break;
            }
            j += 1;
        }
        assert(pv.take(i + 1).drop_last() =~= pv.take(i as int));
        assert(pv.take(i + 1).last() == (pairs@[i as int].0@, pairs@[i as int].1@));
        let ghost before = pair_views(out@);
        match found {
            Some(j) => {
                let ghost bj = before[j as int];
                out.set(j, (pairs[i].0.clone(), pairs[i].1.clone()));
                proof {
                    lemma_update_unique(before, j as int, pairs@[i as int].1@);
                    assert(pair_views(out@) =~= before.update(j as int, (before[j as int].0, pairs@[i as int].1@)));
                    assert(keys_unique(pair_views(out@))) by {
                        assert forall|a: int, b: int| 0 <= a < b < pair_views(out@).len() implies
                            (#[trigger] pair_views(out@)[a]).0 != (#[trigger] pair_views(out@)[b]).0 by {
                            assert(before[a].0 != before[b].0);
                        }
                    }
                }
            },
            None => {
                out.push((pairs[i].0.clone(), pairs[i].1.clone()));
                assert(pair_views(out@).drop_last() =~= before);
                assert(pair_views(out@) =~= before.push((pairs@[i as int].0@, pairs@[i as int].1@)));
                assert(keys_unique(pair_views(out@))) by {
                    assert forall|a: int, b: int| 0 <= a < b < pair_views(out@).len() implies
                        (#[trigger] pair_views(out@)[a]).0 != (#[trigger] pair_views(out@)[b]).0 by {
                        if b < before.len() {
                            assert(before[a].0 != before[b].0);
                        } else {
                            assert(out@[a].0@ != k@);
                        }
                    }
                }
            },
        }
        i += 1;
    }
    assert(pv.take(pairs.len() as int) =~= pv);
    out
}

/// The row of `gt workflow list`: id, name (cut to 33 bytes), state and
/// path, in columns of 25, 35 and 10 characters.
pub open spec fn workflow_row_spec(w: Workflow) -> Seq<char> {
    pad_right(opt_or(w.id, ""@), 25) + " "@ + pad_right(cut_bytes_spec(opt_or(w.name, ""@), 33), 35)
        + " "@ + pad_right(opt_or(w.state, ""@), 10) + " "@ + opt_or(w.path, ""@)
}

/// The lines of `gt workflow list` (the caller reports an empty listing).
pub open spec fn workflow_list_spec(ws: Seq<Workflow>, is_tty: bool) -> Seq<Seq<char>> {
    (if is_tty {
        seq![
            pad_right("ID"@, 25) + " "@ + pad_right("NAME"@, 35) + " "@ + pad_right("STATE"@, 10)
                + " PATH"@,
        ]
    } else {
        seq![]
    }) + Seq::new(ws.len(), |k: int| workflow_row_spec(ws[k]))
}

/// The lines of `gt workflow list`.
pub fn workflow_list_lines(ws: &[Workflow], is_tty: bool) -> (out: Vec<String>)
    requires
        forall|k: int| 0 <= k < ws@.len() ==> cut_bytes_ok(opt_or((#[trigger] ws@[k]).name, ""@), 33),
    ensures
        strs(out@) == workflow_list_spec(ws@, is_tty),
{
    let mut out: Vec<String> = Vec::new();
    if is_tty {
        let mut h = pad_right_exec(&chars_of("ID"), 25);
        extend_str(&mut h, " ");
        extend_chars(&mut h, &pad_right_exec(&chars_of("NAME"), 35));
        extend_str(&mut h, " ");
        extend_chars(&mut h, &pad_right_exec(&chars_of("STATE"), 10));
        extend_str(&mut h, " PATH");
        push_line(&mut out, &h);
    }
    let ghost head = strs(out@);
    let ghost rows = Seq::new(ws@.len(), |k: int| workflow_row_spec(ws@[k]));
    let mut k: usize = 0;
    while k < ws.len()
        invariant
            k <= ws@.len(),
            forall|k: int|
                0 <= k < ws@.len() ==> cut_bytes_ok(opt_or((#[trigger] ws@[k]).name, ""@), 33),
            rows == Seq::new(ws@.len(), |k: int| workflow_row_spec(ws@[k])),
            strs(out@) == head + rows.take(k as int),
        decreases ws.len() - k,
    {
        let w = &ws[k];
        let name = string_of(&opt_or_exec(&w.name, ""));
        let mut v = pad_right_exec(&opt_or_exec(&w.id, ""), 25);
        extend_str(&mut v, " ");
        extend_chars(&mut v, &pad_right_exec(&chars_of(cut_bytes(name.as_str(), 33).as_str()), 35));
        extend_str(&mut v, " ");
        extend_chars(&mut v, &pad_right_exec(&opt_or_exec(&w.state, ""), 10));
        extend_str(&mut v, " ");
        extend_chars(&mut v, &opt_or_exec(&w.path, ""));
        let ghost before = strs(out@);
        push_line(&mut out, &v);
        assert(strs(out@) =~= before.push(rows[k as int]));
        assert(rows.take(k + 1) =~= rows.take(k as int).push(rows[k as int]));
        k += 1;
    }
    assert(rows.take(ws.len() as int) =~= rows);
    out
}

/// The lines after a dispatch: the run it started and its address when the
/// server names them.
pub open spec fn dispatch_spec(workflow: Seq<char>, run_id: Option<i64>, url: Option<String>) -> Seq<
    Seq<char>,
> {
    match run_id {
        Some(id) => seq!["Triggered workflow '"@ + workflow + "' → run #"@ + dec_int(id as int)]
            + (if opt_or(url, ""@).len() > 0 {
            seq![opt_or(url, ""@)]
        } else {
            seq![]
        }),
        None => seq!["Triggered workflow '"@ + workflow + "'"@],
    }
}

/// The lines after a dispatch.
pub fn dispatch_lines(workflow: &str, run_id: Option<i64>, url: &Option<String>) -> (out: Vec<
    String,
>)
    ensures
        strs(out@) == dispatch_spec(workflow@, run_id, *url),
{
    let mut out: Vec<String> = Vec::new();
    match run_id {
        Some(id) => {
            let mut l = chars_of("Triggered workflow '");
            extend_str(&mut l, workflow);
            extend_str(&mut l, "' → run #");
            extend_chars(&mut l, &dec_i64(id));
            push_line(&mut out, &l);
            let u = opt_or_exec(url, "");
            if u.len() > 0 {
                push_line(&mut out, &u);
            }
        },
        None => {
            let mut l = chars_of("Triggered workflow '");
            extend_str(&mut l, workflow);
            extend_str(&mut l, "'");
            push_line(&mut out, &l);
        },
    }
    assert(strs(out@) =~= dispatch_spec(workflow@, run_id, *url));
    out
}

} // verus!
