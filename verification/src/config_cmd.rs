//! `gt config` and `gt alias`: reading and listing the values of the
//! config file, and what `config set` changes.
use vstd::prelude::*;

use crate::config::{config_key_spec, parse_config_key, ConfigKey};
use crate::repo::split_on;
use crate::text::{
    chars_of, eq_chars, extend_chars, extend_str, push_line, string_of, strs,
};

verus! {

/// A value of the TOML config file: a string, any other value (held as the
/// TOML text it displays as), or a table of keyed values with its text.
#[derive(Debug)]
pub enum TomlValue {
    Str(String),
    Other(String),
    Table(Vec<(String, TomlValue)>, String),
}

/// The subcommands of `gt config`.
#[derive(Debug, Clone)]
pub enum ConfigAction {
    Get { key: String },
    /// Set `key` or `section.key` to a string.
    Assign { key: String, value: String },
    List,
}

/// `gt config`.
#[derive(Debug, Clone)]
pub struct ConfigCommand {
    pub action: ConfigAction,
}

/// The subcommands of `gt alias`.
#[derive(Debug, Clone)]
pub enum AliasAction {
    List,
    /// Define an alias (`!` runs its expansion through the shell).
    Assign { name: String, expansion: String },
    Delete { name: String },
}

/// `gt alias`.
#[derive(Debug, Clone)]
pub struct AliasCommand {
    pub action: AliasAction,
}

/// How a value is printed: a string as itself, anything else as TOML.
pub open spec fn shown(v: TomlValue) -> Seq<char> {
    match v {
        TomlValue::Str(s) => s@,
        TomlValue::Other(t) => t@,
        TomlValue::Table(_, t) => t@,
    }
}

/// How a value is printed.
pub fn shown_exec(v: &TomlValue) -> (r: String)
    ensures
        r@ == shown(*v),
{
    match v {
        TomlValue::Str(s) => s.clone(),
        TomlValue::Other(t) => t.clone(),
        TomlValue::Table(_, t) => t.clone(),
    }
}

/// The index of the entry called `key`, the first one.
pub open spec fn entry_index(entries: Seq<(String, TomlValue)>, key: Seq<char>, k: int) -> bool {
    0 <= k < entries.len() && entries[k].0@ == key && forall|j: int|
        0 <= j < k ==> (#[trigger] entries[j]).0@ != key
}

/// The value under `key` in a table value.
pub open spec fn table_get(v: TomlValue, key: Seq<char>) -> Option<TomlValue> {
    match v {
        TomlValue::Table(entries, _) => if exists|k: int| entry_index(entries@, key, k) {
            Some(entries@[choose|k: int| entry_index(entries@, key, k)].1)
        } else {
            None
        },
        _ => None,
    }
}

/// The value reached by following `path` through nested tables.
pub open spec fn toml_get(v: TomlValue, path: Seq<Seq<char>>) -> Option<TomlValue>
    decreases path.len(),
{
    if path.len() == 0 {
        Some(v)
    } else {
        match table_get(v, path[0]) {
            Some(w) => toml_get(w, path.drop_first()),
            None => None,
        }
    }
}

/// Looks a key up in a table value.
fn table_get_exec<'a>(v: &'a TomlValue, key: &str) -> (r: Option<&'a TomlValue>)
    ensures
        match table_get(*v, key@) {
            Some(w) => r matches Some(x) && *x == w,
            None => r is None,
        },
{
    match v {
        TomlValue::Table(entries, t) => {
            assert(*v == TomlValue::Table(*entries, *t));
            let k = chars_of(key);
            let mut j: usize = 0;
            while j < entries.len()
                invariant
                    j <= entries@.len(),
                    k@ == key@,
                    *v == TomlValue::Table(*entries, *t),
                    forall|i: int| 0 <= i < j ==> (#[trigger] entries@[i]).0@ != key@,
                decreases entries.len() - j,
            {
                if eq_chars(&chars_of(entries[j].0.as_str()), &k) {
                    proof {
                        assert(entry_index(entries@, key@, j as int));
                        let c = choose|c: int| entry_index(entries@, key@, c);
                        if c < j {
                            assert(entries@[c].0@ != key@);
                        } else if c > j {
                            assert(entries@[j as int].0@ != key@);
                        }
                        assert(c == j);
                        assert(table_get(*v, key@) == Some(entries@[j as int].1));
                    }
                    return Some(&entries[j].1);
                }
                j += 1;
            }
            proof {
                if exists|c: int| entry_index(entries@, key@, c) {
                    let c = choose|c: int| entry_index(entries@, key@, c);
                    assert(entries@[c].0@ != key@);
                }
            }
            None
        },
        _ => None,
    }
}

/// What `gt config get KEY` prints: the value at the key's dotted path, or
/// the error when there is none.
pub fn config_get(doc: &TomlValue, key: &str) -> (r: Result<String, String>)
    ensures
        match toml_get(*doc, split_on(key@, '.')) {
            Some(v) => r matches Ok(s) && s@ == shown(v),
            None => r matches Err(m) && m@ == "Key '"@ + key@ + "' not found"@,
        },
{
    let path = crate::config::config_key_path(key);
    let ghost p = path@.map_values(|s: String| s@);
    let mut current: &TomlValue = doc;
    let mut i: usize = 0;
    assert(p.skip(0) =~= p);
    while i < path.len()
        invariant
            i <= path@.len(),
            p == path@.map_values(|s: String| s@),
            p == split_on(key@, '.'),
            toml_get(*doc, p) == toml_get(*current, p.skip(i as int)),
        decreases path.len() - i,
    {
        assert(p.skip(i as int)[0] == path@[i as int]@);
        assert(p.skip(i as int).drop_first() =~= p.skip(i + 1));
        match table_get_exec(current, path[i].as_str()) {
            Some(next) => {
                current = next;
            },
            None => {
                let mut m = chars_of("Key '");
                extend_str(&mut m, key);
                extend_str(&mut m, "' not found");
                return Err(string_of(&m));
            },
        }
        i += 1;
    }
    assert(p.skip(path.len() as int) =~= Seq::<Seq<char>>::empty());
    Ok(shown_exec(current))
}

/// The change `gt config set` makes to the file's top table.
#[derive(Debug, Clone)]
pub enum SetPlan {
    /// Set `key` to the string.
    Top { key: String, value: String },
    /// Set `key` inside the table `section` (created when missing).
    Section { section: String, key: String, value: String },
}

/// Plans `gt config set KEY VALUE` on the document: a key has one or two
/// dot-separated parts, the document must be a table, and an existing
/// section must be a table.
pub fn plan_config_set(doc: &TomlValue, key: &str, value: &str) -> (r: Result<SetPlan, String>)
    ensures
        match config_key_spec(key@) {
            None => r matches Err(m) && m@ == "Key must be 'key' or 'section.key' format"@,
            Some((a, b)) => if !(doc is Table) {
                r matches Err(m) && m@ == "Config is not a table"@
            } else {
                match b {
                    None => r matches Ok(SetPlan::Top { key: k, value: v }) && k@ == a && v@
                        == value@,
                    Some(b) => match table_get(*doc, a) {
                        Some(sec) => if sec is Table {
                            r matches Ok(SetPlan::Section { section: s, key: k, value: v })
                                && s@ == a && k@ == b && v@ == value@
                        } else {
                            r matches Err(m) && m@ == "Section '"@ + a + "' is not a table"@
                        },
                        None => r matches Ok(SetPlan::Section { section: s, key: k, value: v })
                            && s@ == a && k@ == b && v@ == value@,
                    },
                }
            },
        },
{
    let k = match parse_config_key(key) {
        Some(k) => k,
        None => {
            return Err(string_of(&chars_of("Key must be 'key' or 'section.key' format")));
        },
    };
    match doc {
        TomlValue::Table(_, _) => {},
        _ => {
            return Err(string_of(&chars_of("Config is not a table")));
        },
    }
    match k {
        ConfigKey::Top(a) => Ok(SetPlan::Top { key: a, value: string_of(&chars_of(value)) }),
        ConfigKey::Section(a, b) => {
            match table_get_exec(doc, a.as_str()) {
                Some(sec) => match sec {
                    TomlValue::Table(_, _) => {},
                    _ => {
                        let mut m = chars_of("Section '");
                        extend_str(&mut m, a.as_str());
                        extend_str(&mut m, "' is not a table");
                        return Err(string_of(&m));
                    },
                },
                None => {},
            }
            Ok(SetPlan::Section { section: a, key: b, value: string_of(&chars_of(value)) })
        },
    }
}

/// The lines of one top-level entry in `gt config list`: a table gives a
/// `section.key = value` line per entry, anything else `key = value`.
pub open spec fn entry_lines(name: Seq<char>, v: TomlValue) -> Seq<Seq<char>> {
    match v {
        TomlValue::Table(inner, _) => Seq::new(
            inner@.len(),
            |j: int| name + "."@ + inner@[j].0@ + " = "@ + shown(inner@[j].1),
        ),
        _ => seq![name + " = "@ + shown(v)],
    }
}

/// The lines of the entries of a table, in order.
pub open spec fn list_lines(entries: Seq<(String, TomlValue)>) -> Seq<Seq<char>>
    decreases entries.len(),
{
    if entries.len() == 0 {
        seq![]
    } else {
        list_lines(entries.drop_last()) + entry_lines(entries.last().0@, entries.last().1)
    }
}

/// The lines of `gt config list`; `None` when there is nothing to list
/// ("No config values set").
pub open spec fn config_list_spec(doc: TomlValue) -> Option<Seq<Seq<char>>> {
    match doc {
        TomlValue::Table(entries, _) => if entries@.len() == 0 {
            None
        } else {
            Some(list_lines(entries@))
        },
        _ => None,
    }
}

/// The lines of one entry.
fn entry_lines_exec(name: &str, v: &TomlValue) -> (r: Vec<String>)
    ensures
        strs(r@) == entry_lines(name@, *v),
{
    let mut out: Vec<String> = Vec::new();
    match v {
        TomlValue::Table(inner, _) => {
            let mut j: usize = 0;
            while j < inner.len()
                invariant
                    j <= inner@.len(),
                    strs(out@) == Seq::new(
                        j as nat,
                        |i: int| name@ + "."@ + inner@[i].0@ + " = "@ + shown(inner@[i].1),
                    ),
                decreases inner.len() - j,
            {
                let mut l = chars_of(name);
                extend_str(&mut l, ".");
                extend_str(&mut l, inner[j].0.as_str());
                extend_str(&mut l, " = ");
                extend_str(&mut l, shown_exec(&inner[j].1).as_str());
                let ghost before = strs(out@);
                push_line(&mut out, &l);
                assert(strs(out@) =~= Seq::new(
                    (j + 1) as nat,
                    |i: int| name@ + "."@ + inner@[i].0@ + " = "@ + shown(inner@[i].1),
                ));
                j += 1;
            }
            assert(strs(out@) =~= entry_lines(name@, *v));
        },
        _ => {
            let mut l = chars_of(name);
            extend_str(&mut l, " = ");
            extend_str(&mut l, shown_exec(v).as_str());
            push_line(&mut out, &l);
            assert(strs(out@) =~= entry_lines(name@, *v));
        },
    }
    out
}

/// The lines of `gt config list`.
pub fn config_list_lines(doc: &TomlValue) -> (r: Option<Vec<String>>)
    ensures
        match config_list_spec(*doc) {
            Some(ls) => r matches Some(v) && strs(v@) == ls,
            None => r is None,
        },
{
    match doc {
        TomlValue::Table(entries, _) => {
            if entries.len() == 0 {
                return None;
            }
            let mut out: Vec<String> = Vec::new();
            let mut i: usize = 0;
            assert(entries@.take(0) =~= Seq::<(String, TomlValue)>::empty());
            while i < entries.len()
                invariant
                    i <= entries@.len(),
                    strs(out@) == list_lines(entries@.take(i as int)),
                decreases entries.len() - i,
            {
                let more = entry_lines_exec(entries[i].0.as_str(), &entries[i].1);
                crate::text::append_lines(&mut out, more);
                assert(entries@.take(i + 1).drop_last() =~= entries@.take(i as int));
                assert(entries@.take(i + 1).last() == entries@[i as int]);
                i += 1;
            }
            assert(entries@.take(entries.len() as int) =~= entries@);
            Some(out)
        },
        _ => None,
    }
}

/// The lines of `gt alias list`: `name: expansion` per alias.
pub fn alias_list_lines(aliases: &[(String, String)]) -> (r: Vec<String>)
    ensures
        strs(r@) == Seq::new(aliases@.len(), |k: int| aliases@[k].0@ + ": "@ + aliases@[k].1@),
{
    let mut out: Vec<String> = Vec::new();
    let mut k: usize = 0;
    while k < aliases.len()
        invariant
            k <= aliases@.len(),
            strs(out@) == Seq::new(k as nat, |i: int| aliases@[i].0@ + ": "@ + aliases@[i].1@),
        decreases aliases.len() - k,
    {
        let mut l = chars_of(aliases[k].0.as_str());
        extend_str(&mut l, ": ");
        extend_str(&mut l, aliases[k].1.as_str());
        push_line(&mut out, &l);
        assert(strs(out@) =~= Seq::new((k + 1) as nat, |i: int| aliases@[i].0@ + ": "@ + aliases@[i].1@));
        k += 1;
    }
    out
}

} // verus!
