//! JSON values, the `--json FIELDS` selection and the `--jq` selector.
use vstd::prelude::*;

use crate::repo::{split_once, split_once_exec, trim_start_char, trim_start_char_exec};
use crate::text::{chars_of, eq_chars, extend_str, join, string_of, strs};

verus! {

/// A JSON value as the library holds it. Numbers keep their text, so that
/// nothing is lost in conversion; objects keep their members in order.
pub enum JsonValue {
    Null,
    Bool(bool),
    Number(String),
    Str(String),
    Array(Vec<JsonValue>),
    Object(Vec<(String, JsonValue)>),
}

/// The mathematical JSON value that a `JsonValue` stands for.
pub enum Json {
    Null,
    Bool(bool),
    Number(Seq<char>),
    Str(Seq<char>),
    Array(Seq<Json>),
    Object(Seq<(Seq<char>, Json)>),
}

impl JsonValue {
    /// The value this stands for.
    pub open spec fn jv(&self) -> Json
        decreases self,
    {
        match self {
            JsonValue::Null => Json::Null,
            JsonValue::Bool(b) => Json::Bool(*b),
            JsonValue::Number(n) => Json::Number(n@),
            JsonValue::Str(s) => Json::Str(s@),
            JsonValue::Array(items) => Json::Array(
                Seq::new(items@.len(), |i: int| {
                    if 0 <= i < items@.len() { items@[i].jv() } else { Json::Null }
                }),
            ),
            JsonValue::Object(fields) => Json::Object(
                Seq::new(fields@.len(), |i: int| {
                    if 0 <= i < fields@.len() { (fields@[i].0@, fields@[i].1.jv()) } else { (Seq::empty(), Json::Null) }
                }),
            ),
        }
    }

    /// A copy of this value.
    pub fn deep_clone(&self) -> (r: JsonValue)
        ensures r.jv() == self.jv(),
        decreases self,
    {
        match self {
            JsonValue::Null => JsonValue::Null,
            JsonValue::Bool(b) => JsonValue::Bool(*b),
            JsonValue::Number(n) => JsonValue::Number(n.clone()),
            JsonValue::Str(s) => JsonValue::Str(s.clone()),
            JsonValue::Array(items) => {
                assert forall|j: int| 0 <= j < items@.len() implies decreases_to!(*self => #[trigger] items[j]) by {
                    assert(decreases_to!(*self => *items));
                    assert(decreases_to!(*items => items[j]));
                }
                let mut v: Vec<JsonValue> = Vec::new();
                let mut i: usize = 0;
                while i < items.len()
                    invariant i <= items.len(),
                        forall|j: int| 0 <= j < items@.len() ==> decreases_to!(*self => #[trigger] items[j]),
                        v@.len() == i,
                        forall|j: int| 0 <= j < i ==> #[trigger] v@[j].jv() == items@[j].jv(),
                    decreases items.len() - i,
                {
                    proof {
                        assert(decreases_to!(*self => items[i as int]));
                    }
                    let c = items[i].deep_clone();
                    v.push(c);
                    i += 1;
                }
                let r = JsonValue::Array(v);
                assert(r.jv() == self.jv()) by {
                    let a = r.jv()->Array_0;
                    let b = self.jv()->Array_0;
                    assert(a.len() == b.len());
                    assert forall|j: int| 0 <= j < a.len() implies a[j] == b[j] by {
                        assert(v@[j].jv() == items@[j].jv());
                    }
                    assert(a =~= b);
                }
                r
            },
            JsonValue::Object(fields) => {
                assert forall|j: int| 0 <= j < fields@.len() implies decreases_to!(*self => #[trigger] fields[j].1) by {
                    assert(decreases_to!(*self => *fields));
                    assert(decreases_to!(*fields => fields[j]));
                    assert(decreases_to!(fields[j] => fields[j].1));
                }
                let mut v: Vec<(String, JsonValue)> = Vec::new();
                let mut i: usize = 0;
                while i < fields.len()
                    invariant i <= fields.len(),
                        forall|j: int| 0 <= j < fields@.len() ==> decreases_to!(*self => #[trigger] fields[j].1),
                        v@.len() == i,
                        forall|j: int| 0 <= j < i ==> #[trigger] v@[j].1.jv() == fields@[j].1.jv() && v@[j].0@ == fields@[j].0@,
                    decreases fields.len() - i,
                {
                    proof {
                        assert(decreases_to!(*self => fields[i as int].1));
                    }
                    let c = fields[i].1.deep_clone();
                    v.push((fields[i].0.clone(), c));
                    i += 1;
                }
                let r = JsonValue::Object(v);
                assert(r.jv() == self.jv()) by {
                    assert(r.jv()->Object_0 =~= self.jv()->Object_0);
                }
                r
            },
        }
    }
}

/// The views of a sequence of values.
pub open spec fn jvs(v: Seq<JsonValue>) -> Seq<Json> {
    v.map_values(|x: JsonValue| x.jv())
}

/// The value of the first member called `key`.
pub open spec fn member(fields: Seq<(Seq<char>, Json)>, key: Seq<char>) -> Option<Json>
    decreases fields.len(),
{
    if fields.len() == 0 {
        None
    } else if fields[0].0 == key {
        Some(fields[0].1)
    } else {
        member(fields.drop_first(), key)
    }
}

/// Length of the selector that remains after the head of `e`, as the
/// recursion measure of `jq_spec`.
pub open spec fn rest_measure(rest: Option<Seq<char>>) -> nat {
    match rest {
        Some(r) => r.len() + 1,
        None => 0,
    }
}

/// The head of a selector (after its leading dots) and what follows it.
pub open spec fn jq_split(e: Seq<char>) -> (Seq<char>, Option<Seq<char>>) {
    let t = trim_start_char(e, '.');
    match split_once(t, '.') {
        Some((h, r)) => (h, Some(r)),
        None => (t, None),
    }
}

/// Leading dots are gone after trimming, and trimming only shortens.
pub proof fn lemma_trim_dots(e: Seq<char>)
    ensures
        trim_start_char(e, '.').len() <= e.len(),
        trim_start_char(e, '.').len() > 0 ==> trim_start_char(e, '.')[0] != '.',
    decreases e.len(),
{
    if e.len() > 0 && e[0] == '.' {
        lemma_trim_dots(e.drop_first());
    }
}

/// The part after the head is shorter than the selector.
pub proof fn lemma_jq_split(e: Seq<char>)
    ensures
        rest_measure(jq_split(e).1) < e.len() || jq_split(e).1 is None,
{
    let t = trim_start_char(e, '.');
    lemma_trim_dots(e);
    crate::text::lemma_find_from_spec(t, seq!['.'], 0);
    match crate::text::find(t, seq!['.']) {
        Some(i) => {
            assert(crate::text::occurs_at(t, seq!['.'], i));
            assert(t.subrange(i, i + 1)[0] == '.');
            assert(i != 0);
        },
        None => {},
    }
}

/// The simple `jq`-like selection of `e` in `v`: `.field`, `.[]`,
/// `.field.nested`, `.[].field`. A leading run of dots is ignored; an empty
/// selector selects `v` itself; a missing field, or `[]` on a non-array,
/// selects nothing.
pub open spec fn jq_spec(v: Json, e: Seq<char>) -> Seq<Json>
    decreases e.len() + 1, 0nat,
{
    let t = trim_start_char(e, '.');
    if t.len() == 0 {
        seq![v]
    } else {
        let (head, rest) = jq_split(e);
        proof {
            lemma_jq_split(e);
        }
        if head == "[]"@ {
            match v {
                Json::Array(items) => jq_each(items, rest, e.len()),
                _ => seq![],
            }
        } else {
            match v {
                Json::Object(fields) => match member(fields, head) {
                    Some(fv) => match rest {
                        Some(r) => jq_spec(fv, seq!['.'] + r),
                        None => seq![fv],
                    },
                    None => seq![],
                },
                _ => seq![],
            }
        }
    }
}

/// `jq_spec` of each item with the selector `.rest` (or the items
/// themselves when nothing follows), concatenated; `bound` is the length of
/// the selector being evaluated.
pub open spec fn jq_each(items: Seq<Json>, rest: Option<Seq<char>>, bound: nat) -> Seq<Json>
    decreases bound, items.len(),
{
    if items.len() == 0 {
        seq![]
    } else {
        let first = match rest {
            Some(r) => if r.len() + 1 < bound {
                jq_spec(items[0], seq!['.'] + r)
            } else {
                seq![]
            },
            None => seq![items[0]],
        };
        first + jq_each(items.drop_first(), rest, bound)
    }
}

/// The value of the member called `key`.
pub fn find_member<'a>(fields: &'a Vec<(String, JsonValue)>, key: &[char]) -> (r: Option<&'a JsonValue>)
    ensures
        match member(fields@.map_values(|p: (String, JsonValue)| (p.0@, p.1.jv())), key@) {
            Some(v) => r matches Some(x) && x.jv() == v,
            None => r is None,
        },
{
    let ghost fv = fields@.map_values(|p: (String, JsonValue)| (p.0@, p.1.jv()));
    let mut i: usize = 0;
    assert(fv.skip(0) =~= fv);
    while i < fields.len()
        invariant
            i <= fields.len(),
            fv == fields@.map_values(|p: (String, JsonValue)| (p.0@, p.1.jv())),
            member(fv, key@) == member(fv.skip(i as int), key@),
        decreases fields.len() - i,
    {
        assert(fv.skip(i as int).drop_first() =~= fv.skip(i + 1));
        let k = chars_of(fields[i].0.as_str());
        if eq_chars(&k, key) {
            return Some(&fields[i].1);
        }
        i += 1;
    }
    None
}

/// Simple `jq`-like selector: supports `.field`, `.[].field`,
/// `.field.nested` and `.[].field.nested`.
pub fn jq_select(value: &JsonValue, expr: &str) -> (r: Vec<JsonValue>)
    ensures
        jvs(r@) == jq_spec(value.jv(), expr@),
    decreases expr@.len(),
{
    let e = chars_of(expr);
    let t = trim_start_char_exec(&e, '.');
    if t.len() == 0 {
        let mut r: Vec<JsonValue> = Vec::new();
        r.push(value.deep_clone());
        assert(jvs(r@) =~= seq![value.jv()]);
        return r;
    }
    let (head, rest) = match split_once_exec(&t, '.') {
        Some((h, r)) => (h, Some(r)),
        None => (t, None),
    };
    proof {
        lemma_jq_split(expr@);
    }
    let brackets = chars_of("[]");
    if eq_chars(&head, &brackets) {
        match value {
            JsonValue::Array(items) => {
                let ghost iv = jvs(items@);
                let mut r: Vec<JsonValue> = Vec::new();
                let mut i: usize = 0;
                let ghost restv: Option<Seq<char>> = match &rest {
                    Some(x) => Some(x@),
                    None => None,
                };
                assert(iv.skip(0) =~= iv);
                assert(jvs(r@) + jq_each(iv, restv, expr@.len()) =~= jq_each(iv, restv, expr@.len()));
                while i < items.len()
                    invariant
                        i <= items.len(),
                        iv == jvs(items@),
                        restv == jq_split(expr@).1,
                        rest_measure(restv) < expr@.len() || restv is None,
                        restv == match &rest {
                            Some(x) => Some(x@),
                            None => None::<Seq<char>>,
                        },
                        jvs(r@) + jq_each(iv.skip(i as int), restv, expr@.len()) == jq_each(
                            iv,
                            restv,
                            expr@.len(),
                        ),
                    decreases items.len() - i,
                {
                    let ghost tail = iv.skip(i as int);
                    assert(tail.drop_first() =~= iv.skip(i + 1));
                    assert(tail[0] == items@[i as int].jv());
                    let ghost before = jvs(r@);
                    match &rest {
                        Some(rr) => {
                            let mut sub = chars_of(".");
                            crate::text::extend_chars(&mut sub, rr);
                            let subs = string_of(&sub);
                            assert(subs@ =~= seq!['.'] + rr@) by {
                                reveal_strlit(".");
                            }
                            let part = jq_select(&items[i], subs.as_str());
                            let mut k: usize = 0;
                            while k < part.len()
                                invariant
                                    k <= part.len(),
                                    jvs(r@) == before + jvs(part@).take(k as int),
                                decreases part.len() - k,
                            {
                                let ghost b2 = jvs(r@);
                                r.push(part[k].deep_clone());
                                assert(jvs(r@) =~= b2.push(part@[k as int].jv()));
                                assert(jvs(part@).take(k + 1) =~= jvs(part@).take(k as int).push(
                                    part@[k as int].jv(),
                                ));
                                k += 1;
                            }
                            assert(jvs(part@).take(part.len() as int) =~= jvs(part@));
                        },
                        None => {
                            r.push(items[i].deep_clone());
                            assert(jvs(r@) =~= before.push(items@[i as int].jv()));
                        },
                    }
                    assert(before + jq_each(tail, restv, expr@.len()) =~= jvs(r@) + jq_each(
                        iv.skip(i + 1),
                        restv,
                        expr@.len(),
                    ));
                    i += 1;
                }
                assert(iv.skip(items.len() as int) =~= Seq::<Json>::empty());
                assert(jvs(r@) + Seq::<Json>::empty() =~= jvs(r@));
                assert(value.jv() == Json::Array(iv)) by {
                    assert(value.jv()->Array_0 =~= iv);
                }
                r
            },
            _ => Vec::new(),
        }
    } else {
        match value {
            JsonValue::Object(fields) => {
                let ghost fv = fields@.map_values(|p: (String, JsonValue)| (p.0@, p.1.jv()));
                assert(value.jv() == Json::Object(fv)) by {
                    assert(value.jv()->Object_0 =~= fv);
                }
                match find_member(fields, &head) {
                    Some(fvalue) => match &rest {
                        Some(rr) => {
                            let mut sub = chars_of(".");
                            crate::text::extend_chars(&mut sub, rr);
                            let subs = string_of(&sub);
                            assert(subs@ =~= seq!['.'] + rr@) by {
                                reveal_strlit(".");
                            }
                            jq_select(fvalue, subs.as_str())
                        },
                        None => {
                            let mut r: Vec<JsonValue> = Vec::new();
                            r.push(fvalue.deep_clone());
                            assert(jvs(r@) =~= seq![fvalue.jv()]);
                            r
                        },
                    },
                    None => Vec::new(),
                }
            },
            _ => Vec::new(),
        }
    }
}

/// Shared `--json` and `--jq` options of list commands.
#[derive(Clone, Default, Debug)]
pub struct JsonArgs {
    /// Fields requested with `--json` (empty: the full objects).
    pub json: Option<Vec<String>>,
    /// The `--jq` selector.
    pub jq_expr: Option<String>,
}

impl JsonArgs {
    /// Returns true if JSON output was requested.
    pub fn is_json(&self) -> (r: bool)
        ensures
            r == self.json is Some,
    {
        self.json.is_some()
    }
}

/// The requested fields kept, in the order requested, for each object of an
/// array (other values unchanged).
pub open spec fn filter_fields_spec(v: Json, fields: Seq<Seq<char>>) -> Json {
    match v {
        Json::Array(items) => Json::Array(
            items.map_values(|item: Json| filter_object(item, fields)),
        ),
        _ => v,
    }
}

/// An object reduced to the requested members that it has.
pub open spec fn filter_object(item: Json, fields: Seq<Seq<char>>) -> Json {
    match item {
        Json::Object(members) => Json::Object(kept_members(members, fields)),
        _ => item,
    }
}

/// For each requested field present in `members`, the field and its value.
pub open spec fn kept_members(members: Seq<(Seq<char>, Json)>, fields: Seq<Seq<char>>) -> Seq<
    (Seq<char>, Json),
>
    decreases fields.len(),
{
    if fields.len() == 0 {
        seq![]
    } else {
        let prev = kept_members(members, fields.drop_last());
        match member(members, fields.last()) {
            Some(x) => prev.push((fields.last(), x)),
            None => prev,
        }
    }
}

/// Filtering keeps only requested fields, each with the value the object
/// has for it.
pub proof fn lemma_filter_keeps_requested(members: Seq<(Seq<char>, Json)>, fields: Seq<Seq<char>>)
    ensures
        forall|i: int|
            0 <= i < kept_members(members, fields).len() ==> fields.contains(
                (#[trigger] kept_members(members, fields)[i]).0,
            ) && member(members, kept_members(members, fields)[i].0) == Some(
                kept_members(members, fields)[i].1,
            ),
    decreases fields.len(),
{
    if fields.len() > 0 {
        let prev = kept_members(members, fields.drop_last());
        lemma_filter_keeps_requested(members, fields.drop_last());
        assert forall|i: int| 0 <= i < prev.len() implies fields.contains(#[trigger] prev[i].0) by {
            assert(fields.drop_last().contains(prev[i].0));
            let j = choose|j: int| 0 <= j < fields.drop_last().len() && fields.drop_last()[j] == prev[i].0;
            assert(fields[j] == prev[i].0);
        }
        assert(fields[fields.len() - 1] == fields.last());
    }
}

/// Filter a JSON array to keep only the requested fields on each object.
pub fn filter_fields(value: &JsonValue, fields: &[String]) -> (r: JsonValue)
    ensures
        r.jv() == filter_fields_spec(value.jv(), strs(fields@)),
{
    match value {
        JsonValue::Array(items) => {
            let ghost fs = strs(fields@);
            let mut out: Vec<JsonValue> = Vec::new();
            let mut i: usize = 0;
            while i < items.len()
                invariant
                    i <= items.len(),
                    fs == strs(fields@),
                    out@.len() == i,
                    forall|j: int|
                        0 <= j < i ==> #[trigger] out@[j].jv() == filter_object(items@[j].jv(), fs),
                decreases items.len() - i,
            {
                let item = &items[i];
                let f = match item {
                    JsonValue::Object(members) => {
                        let ghost mv = members@.map_values(|p: (String, JsonValue)| (p.0@, p.1.jv()));
                        let mut kept: Vec<(String, JsonValue)> = Vec::new();
                        let mut k: usize = 0;
                        while k < fields.len()
                            invariant
                                k <= fields.len(),
                                fs == strs(fields@),
                                mv == members@.map_values(|p: (String, JsonValue)| (p.0@, p.1.jv())),
                                kept@.map_values(|p: (String, JsonValue)| (p.0@, p.1.jv()))
                                    == kept_members(mv, fs.take(k as int)),
                            decreases fields.len() - k,
                        {
                            let ghost before = kept@.map_values(
                                |p: (String, JsonValue)| (p.0@, p.1.jv()),
                            );
                            assert(fs.take(k + 1).drop_last() =~= fs.take(k as int));
                            assert(fs.take(k + 1).last() == fields@[k as int]@);
                            let key = chars_of(fields[k].as_str());
                            match find_member(members, &key) {
                                Some(x) => {
                                    kept.push((fields[k].clone(), x.deep_clone()));
                                    assert(kept@.map_values(
                                        |p: (String, JsonValue)| (p.0@, p.1.jv()),
                                    ) =~= before.push((fields@[k as int]@, x.jv())));
                                },
                                None => {},
                            }
                            k += 1;
                        }
                        assert(fs.take(fields.len() as int) =~= fs);
                        let r = JsonValue::Object(kept);
                        assert(item.jv() == Json::Object(mv)) by {
                            assert(item.jv()->Object_0 =~= mv);
                        }
                        assert(r.jv() == filter_object(item.jv(), fs)) by {
                            assert(r.jv()->Object_0 =~= kept_members(mv, fs));
                        }
                        r
                    },
                    _ => item.deep_clone(),
                };
                out.push(f);
                i += 1;
            }
            let r = JsonValue::Array(out);
            assert(r.jv() == filter_fields_spec(value.jv(), fs)) by {
                let a = r.jv()->Array_0;
                let b = filter_fields_spec(value.jv(), fs)->Array_0;
                assert(value.jv()->Array_0 =~= jvs(items@));
                assert forall|j: int| 0 <= j < a.len() implies a[j] == b[j] by {
                    assert(out@[j].jv() == filter_object(items@[j].jv(), fs));
                }
                assert(a =~= b);
            }
            r
        },
        _ => value.deep_clone(),
    }
}

/// What `write_json` does with the `--json` fields.
pub enum JsonPlan {
    /// Print the full objects.
    Full,
    /// Print the field names available (`--json help`).
    Help,
    /// A requested field is not available; holds it.
    UnknownField(String),
    /// Keep these fields of each object.
    Filter(Vec<String>),
}

/// The first requested field that is not available, if any.
pub open spec fn first_unknown(fields: Seq<Seq<char>>, available: Seq<Seq<char>>) -> Option<
    Seq<char>,
>
    decreases fields.len(),
{
    if fields.len() == 0 {
        None
    } else if !available.contains(fields[0]) {
        Some(fields[0])
    } else {
        first_unknown(fields.drop_first(), available)
    }
}

/// Whether `x` is one of `available`.
fn contains_str(available: &[String], x: &str) -> (r: bool)
    ensures
        r == strs(available@).contains(x@),
{
    let xs = chars_of(x);
    let mut i: usize = 0;
    while i < available.len()
        invariant
            i <= available.len(),
            xs@ == x@,
            forall|j: int| 0 <= j < i ==> strs(available@)[j] != x@,
        decreases available.len() - i,
    {
        let a = chars_of(available[i].as_str());
        if eq_chars(&a, &xs) {
            assert(strs(available@)[i as int] == x@);
            return true;
        }
        i += 1;
    }
    false
}

/// Decides how `--json` output is produced for a command whose objects
/// have `available` fields: bare `--json` dumps the full objects, `--json help`
/// lists the fields, and otherwise every requested field must be available.
pub fn plan_json(args: &JsonArgs, available: &[String]) -> (r: JsonPlan)
    ensures
        match args.json {
            None => r is Full,
            Some(f) => if f@.len() == 0 {
                r is Full
            } else if f@.len() == 1 && f@[0]@ == "help"@ {
                r is Help
            } else {
                match first_unknown(strs(f@), strs(available@)) {
                    Some(u) => r matches JsonPlan::UnknownField(x) && x@ == u,
                    None => r matches JsonPlan::Filter(keep) && strs(keep@) == strs(f@),
                }
            },
        },
{
    match &args.json {
        None => JsonPlan::Full,
        Some(f) => {
            if f.len() == 0 {
                return JsonPlan::Full;
            }
            let help = chars_of("help");
            if f.len() == 1 && eq_chars(&chars_of(f[0].as_str()), &help) {
                return JsonPlan::Help;
            }
            let ghost fs = strs(f@);
            let mut i: usize = 0;
            assert(fs.skip(0) =~= fs);
            while i < f.len()
                invariant
                    i <= f.len(),
                    fs == strs(f@),
                    args.json == Some(*f),
                    f@.len() > 0,
                    !(f@.len() == 1 && f@[0]@ == "help"@),
                    first_unknown(fs, strs(available@)) == first_unknown(
                        fs.skip(i as int),
                        strs(available@),
                    ),
                decreases f.len() - i,
            {
                assert(fs.skip(i as int).drop_first() =~= fs.skip(i + 1));
                assert(fs.skip(i as int)[0] == f@[i as int]@);
                if !contains_str(available, f[i].as_str()) {
                    return JsonPlan::UnknownField(f[i].clone());
                }
                i += 1;
            }
            let mut keep: Vec<String> = Vec::new();
            let mut k: usize = 0;
            while k < f.len()
                invariant
                    k <= f.len(),
                    fs == strs(f@),
                    args.json == Some(*f),
                    strs(keep@) == fs.take(k as int),
                decreases f.len() - k,
            {
                let ghost before = strs(keep@);
                keep.push(f[k].clone());
                assert(strs(keep@) =~= before.push(f@[k as int]@));
                assert(fs.take(k + 1) =~= fs.take(k as int).push(f@[k as int]@));
                k += 1;
            }
            assert(fs.take(f.len() as int) =~= fs);
            JsonPlan::Filter(keep)
        },
    }
}

/// The error for an unknown field: the field and the fields available.
pub open spec fn unknown_field_message(f: Seq<char>, available: Seq<Seq<char>>) -> Seq<char> {
    "Unknown field: "@ + f + "\nAvailable fields: "@ + join(available, ", "@)
}

/// The error text for an unknown `--json` field.
pub fn unknown_field_text(f: &str, available: &[String]) -> (r: String)
    ensures
        r@ == unknown_field_message(f@, strs(available@)),
{
    let mut parts: Vec<Vec<char>> = Vec::new();
    let mut i: usize = 0;
    while i < available.len()
        invariant
            i <= available.len(),
            crate::text::vviews(parts@) == strs(available@).take(i as int),
        decreases available.len() - i,
    {
        let ghost before = crate::text::vviews(parts@);
        parts.push(chars_of(available[i].as_str()));
        assert(crate::text::vviews(parts@) =~= before.push(available@[i as int]@));
        assert(strs(available@).take(i + 1) =~= strs(available@).take(i as int).push(
            available@[i as int]@,
        ));
        i += 1;
    }
    assert(strs(available@).take(available.len() as int) =~= strs(available@));
    let sep = chars_of(", ");
    let joined = crate::text::join_exec(&parts, &sep);
    let mut v = chars_of("Unknown field: ");
    extend_str(&mut v, f);
    extend_str(&mut v, "\nAvailable fields: ");
    crate::text::extend_chars(&mut v, &joined);
    string_of(&v)
}

} // verus!
