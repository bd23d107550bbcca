//! Editing the `[aliases]` table of the config document, a `toml::Table`:
//! setting an alias and deleting one leave every other top-level entry as
//! it was.
use vstd::prelude::*;

use crate::alias::pair_views;
use crate::config::opt_view;

verus! {

/// A TOML table (`toml::map::Map`), opaque here; `toml_entries` names what it holds.
#[verifier::external_type_specification]
#[verifier::external_body]
#[verifier::reject_recursive_types(K)]
#[verifier::reject_recursive_types(V)]
pub struct ExTomlMap<K, V>(toml::map::Map<K, V>);

/// A TOML value (`toml::Value`), opaque here.
#[verifier::external_type_specification]
#[verifier::external_body]
pub struct ExTomlValue(toml::Value);

/// The entries of a TOML table, by key.
pub uninterp spec fn toml_entries(t: toml::map::Map<String, toml::Value>) -> Map<
    Seq<char>,
    toml::Value,
>;

/// The text of a TOML string value (`toml::Value::String`), `None` for any
/// other kind of value.
pub uninterp spec fn toml_string(v: toml::Value) -> Option<Seq<char>>;

/// The entries of a TOML table value (`toml::Value::Table`), `None` for any
/// other kind of value.
pub uninterp spec fn toml_subtable(v: toml::Value) -> Option<Map<Seq<char>, toml::Value>>;

/// The top-level entries of the TOML document `s`, as
/// `s.parse::<toml::Table>()` reads them; `None` when `s` is not TOML.
pub uninterp spec fn toml_document(s: Seq<char>) -> Option<Map<Seq<char>, toml::Value>>;

/// Parses `s` as a TOML table (`<toml::Table as FromStr>::from_str`).
#[verifier::external_body]
fn parse_table(s: &str) -> (r: Option<toml::Table>)
    ensures
        match toml_document(s@) {
            Some(m) => r matches Some(t) && toml_entries(t) == m,
            None => r is None,
        },
{
    s.parse::<toml::Table>().ok()
}

/// An empty table (`toml::Table::new`).
#[verifier::external_body]
fn new_table() -> (r: toml::Table)
    ensures
        toml_entries(r).dom().is_empty(),
{
    toml::Table::new()
}

/// Removes `key` from `t` (`toml::Table::remove`), giving back its value.
#[verifier::external_body]
fn table_remove(t: &mut toml::Table, key: &str) -> (r: Option<toml::Value>)
    ensures
        toml_entries(*final(t)) == toml_entries(*old(t)).remove(key@),
        toml_entries(*old(t)).dom().contains(key@) ==> r == Some(toml_entries(*old(t))[key@]),
        !toml_entries(*old(t)).dom().contains(key@) ==> r is None,
{
    t.remove(key)
}

/// Binds `key` to `v` in `t` (`toml::Table::insert`).
#[verifier::external_body]
fn table_insert(t: &mut toml::Table, key: &str, v: toml::Value)
    ensures
        toml_entries(*final(t)) == toml_entries(*old(t)).insert(key@, v),
{
    t.insert(key.to_string(), v);
}

/// The string value `s` (`toml::Value::String`).
#[verifier::external_body]
fn string_value(s: &str) -> (r: toml::Value)
    ensures
        toml_string(r) == Some(s@),
        toml_subtable(r) is None,
{
    toml::Value::String(s.to_string())
}

/// The table value holding `t` (`toml::Value::Table`).
#[verifier::external_body]
fn table_value(t: toml::Table) -> (r: toml::Value)
    ensures
        toml_subtable(r) == Some(toml_entries(t)),
        toml_string(r) is None,
{
    toml::Value::Table(t)
}

/// The table inside a `toml::Value::Table`; any other value comes back as
/// it was.
#[verifier::external_body]
fn value_into_table(v: toml::Value) -> (r: Result<toml::Table, toml::Value>)
    ensures
        match toml_subtable(v) {
            Some(m) => r matches Ok(t) && toml_entries(t) == m,
            None => r == Err::<toml::Table, toml::Value>(v),
        },
{
    match v {
        toml::Value::Table(t) => Ok(t),
        other => Err(other),
    }
}

/// The top-level entries of the config text: those of the TOML document, or
/// none when the text is not TOML.
pub open spec fn doc_entries(text: Seq<char>) -> Map<Seq<char>, toml::Value> {
    match toml_document(text) {
        Some(m) => m,
        None => Map::empty(),
    }
}

/// Reads the config text as a TOML table; text that is not TOML reads as
/// an empty table.
pub fn parse_config_doc(text: &str) -> (r: toml::Table)
    ensures
        toml_entries(r) == doc_entries(text@),
{
    match parse_table(text) {
        Some(t) => t,
        None => {
            let t = new_table();
            assert(toml_entries(t) =~= Map::<Seq<char>, toml::Value>::empty());
            t
        },
    }
}

/// The key of the aliases table.
pub open spec fn aliases_key() -> Seq<char> {
    "aliases"@
}

/// The entries of the `aliases` table of a document, `None` when there is
/// no `aliases` entry or it is not a table.
pub open spec fn alias_table(top: Map<Seq<char>, toml::Value>) -> Option<
    Map<Seq<char>, toml::Value>,
> {
    if top.dom().contains(aliases_key()) {
        toml_subtable(top[aliases_key()])
    } else {
        None
    }
}

/// The aliases a new one is added to: the `aliases` table, an empty one
/// when the document has none, and `None` when `aliases` is not a table.
pub open spec fn alias_base(top: Map<Seq<char>, toml::Value>) -> Option<
    Map<Seq<char>, toml::Value>,
> {
    if top.dom().contains(aliases_key()) {
        toml_subtable(top[aliases_key()])
    } else {
        Some(Map::empty())
    }
}

/// `new` is the document `old` after alias `name` was set to `expansion`:
/// no top-level entry but `aliases` changed; if `aliases` was there and not
/// a table nothing changed; otherwise `aliases` is a table holding what it
/// held (or nothing, when it was missing) with `name` bound to the string
/// `expansion`.
pub open spec fn alias_set(
    old: Map<Seq<char>, toml::Value>,
    new: Map<Seq<char>, toml::Value>,
    name: Seq<char>,
    expansion: Seq<char>,
) -> bool {
    &&& new.remove(aliases_key()) == old.remove(aliases_key())
    &&& match alias_base(old) {
        None => new == old,
        Some(base) => alias_table(new) matches Some(m) && m.remove(name) == base.remove(name)
            && m.dom().contains(name) && toml_string(m[name]) == Some(expansion),
    }
}

/// Sets alias `name` to `expansion` in the `aliases` table, creating the
/// table when the document has none. When `aliases` is there but is not a
/// table, nothing changes. No other top-level entry changes.
pub fn set_alias_doc(doc: &mut toml::Table, name: &str, expansion: &str)
    ensures
        alias_set(toml_entries(*old(doc)), toml_entries(*final(doc)), name@, expansion@),
{
    proof {
        reveal_strlit("aliases");
    }
    let ghost old_top = toml_entries(*doc);
    let slot = table_remove(doc, "aliases");
    match slot {
        None => {
            let mut t = new_table();
            assert(toml_entries(t) =~= Map::<Seq<char>, toml::Value>::empty());
            table_insert(&mut t, name, string_value(expansion));
            table_insert(doc, "aliases", table_value(t));
            assert(toml_entries(*doc).remove(aliases_key()) =~= old_top.remove(aliases_key()));
            assert(toml_subtable(toml_entries(*doc)[aliases_key()]) matches Some(m) && m.remove(
                name@,
            ) =~= Map::<Seq<char>, toml::Value>::empty().remove(name@));
        },
        Some(v) => {
            match value_into_table(v) {
                Ok(mut t) => {
                    let ghost base = toml_entries(t);
                    table_insert(&mut t, name, string_value(expansion));
                    table_insert(doc, "aliases", table_value(t));
                    assert(toml_entries(*doc).remove(aliases_key()) =~= old_top.remove(
                        aliases_key(),
                    ));
                    assert(toml_subtable(toml_entries(*doc)[aliases_key()]) matches Some(m)
                        && m.remove(name@) =~= base.remove(name@));
                },
                Err(w) => {
                    table_insert(doc, "aliases", w);
                    assert(toml_entries(*doc) =~= old_top);
                    assert(toml_entries(*doc).remove(aliases_key()) =~= old_top.remove(
                        aliases_key(),
                    ));
                },
            }
        },
    }
}

/// Deletes alias `name` from the `aliases` table and says whether it was
/// there. No other entry changes; without an `aliases` table nothing does.
pub fn delete_alias_doc(doc: &mut toml::Table, name: &str) -> (removed: bool)
    ensures
        removed == (alias_table(toml_entries(*old(doc))) matches Some(m) && m.dom().contains(
            name@,
        )),
        toml_entries(*final(doc)).remove(aliases_key()) == toml_entries(*old(doc)).remove(
            aliases_key(),
        ),
        match alias_table(toml_entries(*old(doc))) {
            None => toml_entries(*final(doc)) == toml_entries(*old(doc)),
            Some(m) => alias_table(toml_entries(*final(doc))) == Some(m.remove(name@)),
        },
{
    proof {
        reveal_strlit("aliases");
    }
    let ghost old_top = toml_entries(*doc);
    let slot = table_remove(doc, "aliases");
    match slot {
        None => {
            assert(toml_entries(*doc) =~= old_top);
            false
        },
        Some(v) => {
            match value_into_table(v) {
                Ok(mut t) => {
                    let gone = table_remove(&mut t, name);
                    table_insert(doc, "aliases", table_value(t));
                    assert(toml_entries(*doc).remove(aliases_key()) =~= old_top.remove(
                        aliases_key(),
                    ));
                    gone.is_some()
                },
                Err(w) => {
                    table_insert(doc, "aliases", w);
                    assert(toml_entries(*doc) =~= old_top);
                    false
                },
            }
        },
    }
}

/// Every value of the table is a string.
pub open spec fn all_strings(m: Map<Seq<char>, toml::Value>) -> bool {
    forall|k: Seq<char>| m.dom().contains(k) ==> (#[trigger] toml_string(m[k])) is Some
}

/// The strings of a table whose values are all strings.
pub open spec fn string_map(m: Map<Seq<char>, toml::Value>) -> Map<Seq<char>, Seq<char>> {
    Map::new(|k: Seq<char>| m.dom().contains(k), |k: Seq<char>| toml_string(m[k])->Some_0)
}

/// The aliases of a document as the config file's schema reads them: none
/// without an `aliases` entry; `None` (the document does not fit the schema)
/// when `aliases` is not a table of strings.
pub open spec fn schema_aliases(top: Map<Seq<char>, toml::Value>) -> Option<
    Map<Seq<char>, Seq<char>>,
> {
    if !top.dom().contains(aliases_key()) {
        Some(Map::empty())
    } else {
        match toml_subtable(top[aliases_key()]) {
            Some(m) => if all_strings(m) {
                Some(string_map(m))
            } else {
                None
            },
            None => None,
        }
    }
}

/// The list of pairs `v` holds each key once and binds exactly what `m`
/// binds.
pub open spec fn lists_map(v: Seq<(Seq<char>, Seq<char>)>, m: Map<Seq<char>, Seq<char>>) -> bool {
    &&& forall|i: int, j: int| 0 <= i < j < v.len() ==> v[i].0 != v[j].0
    &&& forall|i: int| 0 <= i < v.len() ==> m.dom().contains(#[trigger] v[i].0) && m[v[i].0] == v[i].1
    &&& forall|k: Seq<char>| #[trigger] m.dom().contains(k) ==> exists|i: int| 0 <= i < v.len() && v[i].0 == k
}

/// The entries of `t` (`toml::Table::iter`), each value read with
/// `toml::Value::as_str`: every key once, with its value's text when it is
/// a string.
#[verifier::external_body]
fn table_string_items(t: &toml::Table) -> (r: Vec<(String, Option<String>)>)
    ensures
        forall|i: int, j: int| 0 <= i < j < r@.len() ==> r@[i].0@ != r@[j].0@,
        forall|i: int|
            0 <= i < r@.len() ==> toml_entries(*t).dom().contains(#[trigger] r@[i].0@) && opt_view(
                r@[i].1,
            ) == toml_string(toml_entries(*t)[r@[i].0@]),
        forall|k: Seq<char>| #[trigger]
            toml_entries(*t).dom().contains(k) ==> exists|i: int| 0 <= i < r@.len() && r@[i].0@ == k,
{
    t.iter().map(|(k, v)| (k.clone(), v.as_str().map(|s| s.to_string()))).collect()
}

/// The aliases of the config document, as the config file's schema reads
/// them; `None` when `aliases` is not a table of strings.
#[verifier::loop_isolation(false)]
pub fn doc_alias_pairs(doc: toml::Table) -> (r: Option<Vec<(String, String)>>)
    ensures
        match schema_aliases(toml_entries(doc)) {
            None => r is None,
            Some(m) => r matches Some(v) && lists_map(pair_views(v@), m),
        },
{
    proof {
        reveal_strlit("aliases");
    }
    let mut doc = doc;
    let ghost top = toml_entries(doc);
    match table_remove(&mut doc, "aliases") {
        None => {
            let v: Vec<(String, String)> = Vec::new();
            assert(pair_views(v@) =~= Seq::<(Seq<char>, Seq<char>)>::empty());
            Some(v)
        },
        Some(val) => match value_into_table(val) {
            Err(_) => None,
            Ok(t) => {
                let ghost m = toml_entries(t);
                assert(schema_aliases(top) == (if all_strings(m) {
                    Some(string_map(m))
                } else {
                    None
                }));
                let items = table_string_items(&t);
                let mut out: Vec<(String, String)> = Vec::new();
                let mut i: usize = 0;
                while i < items.len()
                    invariant
                        i <= items@.len(),
                        m == toml_entries(t),
                        schema_aliases(top) == (if all_strings(m) {
                            Some(string_map(m))
                        } else {
                            None
                        }),
                        forall|a: int, b: int|
                            0 <= a < b < items@.len() ==> items@[a].0@ != items@[b].0@,
                        forall|a: int|
                            0 <= a < items@.len() ==> m.dom().contains(#[trigger] items@[a].0@)
                                && opt_view(items@[a].1) == toml_string(m[items@[a].0@]),
                        forall|k: Seq<char>| #[trigger]
                            m.dom().contains(k) ==> exists|a: int|
                                0 <= a < items@.len() && items@[a].0@ == k,
                        out@.len() == i,
                        forall|j: int|
                            0 <= j < i ==> (#[trigger] out@[j]).0@ == items@[j].0@ && opt_view(
                                items@[j].1,
                            ) == Some(out@[j].1@),
                    decreases items@.len() - i,
                {
                    match &items[i].1 {
                        None => {
                            proof {
                                let k = items@[i as int].0@;
                                assert(m.dom().contains(k));
                                assert(toml_string(m[k]) is None);
                            }
                            return None;
                        },
                        Some(text) => {
                            out.push((items[i].0.clone(), text.clone()));
                        },
                    }
                    i += 1;
                }
                proof {
                    assert forall|k: Seq<char>| m.dom().contains(k) implies (#[trigger] toml_string(
                        m[k],
                    )) is Some by {
                        let j = choose|j: int| 0 <= j < items@.len() && items@[j].0@ == k;
                        assert(out@[j].0@ == items@[j].0@);
                    }
                    let pv = pair_views(out@);
                    let sm = string_map(m);
                    assert forall|a: int, b: int| 0 <= a < b < pv.len() implies pv[a].0 != pv[b].0 by {
                        assert(out@[a].0@ == items@[a].0@);
                        assert(out@[b].0@ == items@[b].0@);
                    }
                    assert forall|a: int| 0 <= a < pv.len() implies sm.dom().contains(
                        #[trigger] pv[a].0,
                    ) && sm[pv[a].0] == pv[a].1 by {
                        assert(out@[a].0@ == items@[a].0@);
                    }
                    assert forall|k: Seq<char>| #[trigger] sm.dom().contains(k) implies exists|a: int|
                        0 <= a < pv.len() && pv[a].0 == k by {
                        let j = choose|j: int| 0 <= j < items@.len() && items@[j].0@ == k;
                        assert(out@[j].0@ == items@[j].0@);
                        assert(pv[j].0 == k);
                    }
                }
                Some(out)
            },
        },
    }
}

/// Setting an alias and reading the aliases back as the config file's
/// schema does gives the aliases that were there with `name` bound to
/// `expansion`: the new one reads back, and no other is lost or altered.
pub proof fn lemma_set_alias_reads_back(
    old: Map<Seq<char>, toml::Value>,
    new: Map<Seq<char>, toml::Value>,
    name: Seq<char>,
    expansion: Seq<char>,
)
    requires
        alias_set(old, new, name, expansion),
        schema_aliases(old) is Some,
    ensures
        schema_aliases(new) == Some(schema_aliases(old)->Some_0.insert(name, expansion)),
{
    let base = alias_base(old)->Some_0;
    assert(all_strings(base));
    let m = alias_table(new)->Some_0;
    assert(new.dom().contains(aliases_key()));
    assert forall|k: Seq<char>| m.dom().contains(k) implies (#[trigger] toml_string(m[k])) is Some by {
        if k != name {
            assert(m.remove(name).dom().contains(k));
            assert(base.remove(name).dom().contains(k));
            assert(m[k] == m.remove(name)[k]);
            assert(base[k] == base.remove(name)[k]);
        }
    }
    assert forall|k: Seq<char>| #![auto] string_map(m).dom().contains(k) == string_map(base).insert(name, expansion).dom().contains(k) by {
        if k != name {
            assert(m.remove(name).dom().contains(k) == m.dom().contains(k));
            assert(base.remove(name).dom().contains(k) == base.dom().contains(k));
        }
    }
    assert forall|k: Seq<char>| #![auto] string_map(m).dom().contains(k) implies string_map(m)[k] == string_map(base).insert(name, expansion)[k] by {
        if k != name {
            assert(m[k] == m.remove(name)[k]);
            assert(base.remove(name).dom().contains(k));
            assert(base[k] == base.remove(name)[k]);
        }
    }
    assert(string_map(m) =~= string_map(base).insert(name, expansion));
}

} // verus!
