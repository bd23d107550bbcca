//! Command aliases: `$N` substitution and the dispatch of an aliased
//! command line.
use vstd::prelude::*;

use crate::text::{
    chars_of, extend_chars, split_ws, split_ws_exec, starts_with_exec, string_of, strings_of, strs,
    vviews,
};

verus! {

/// A decimal digit.
pub open spec fn is_digit(c: char) -> bool {
    '0' <= c && c <= '9'
}

/// The length of the run of digits that `s` starts with.
pub open spec fn digit_run(s: Seq<char>) -> nat
    decreases s.len(),
{
    if s.len() > 0 && is_digit(s[0]) {
        1 + digit_run(s.drop_first())
    } else {
        0
    }
}

/// The number that the digits `d` write in decimal.
pub open spec fn digits_value(d: Seq<char>) -> nat
    decreases d.len(),
{
    if d.len() == 0 {
        0
    } else {
        digits_value(d.drop_last()) * 10 + ((d.last() as int) - ('0' as int)) as nat
    }
}

/// A run of digits is no longer than the text it starts.
pub proof fn lemma_digit_run_bound(s: Seq<char>)
    ensures
        digit_run(s) <= s.len(),
    decreases s.len(),
{
    if s.len() > 0 && is_digit(s[0]) {
        lemma_digit_run_bound(s.drop_first());
    }
}

/// The placeholder that `s` starts with, given `n` arguments: a `$` and the
/// whole run of digits after it, when that run has no leading zero and
/// writes a number `N` from 1 to `n`. Gives `N` and the placeholder's length.
pub open spec fn placeholder_at(s: Seq<char>, n: nat) -> Option<(nat, nat)> {
    if s.len() > 0 && s[0] == '$' {
        let l = digit_run(s.drop_first());
        let v = digits_value(s.subrange(1, 1 + l as int));
        if l > 0 && s[1] != '0' && 1 <= v <= n {
            Some((v, l + 1))
        } else {
            None
        }
    } else {
        None
    }
}

/// The expansion with each placeholder `$N` replaced by argument `N`, read
/// from left to right; an inserted argument is not read again.
pub open spec fn substitute(s: Seq<char>, args: Seq<Seq<char>>) -> Seq<char>
    decreases s.len(),
{
    if s.len() == 0 {
        seq![]
    } else {
        match placeholder_at(s, args.len()) {
            Some((v, l)) => {
                proof {
                    lemma_digit_run_bound(s.drop_first());
                }
                args[v - 1] + substitute(s.skip(l as int), args)
            },
            None => seq![s[0]] + substitute(s.drop_first(), args),
        }
    }
}

/// The numbers `N` of the placeholders in `s`, in order.
pub open spec fn placeholder_values(s: Seq<char>, n: nat) -> Seq<nat>
    decreases s.len(),
{
    if s.len() == 0 {
        seq![]
    } else {
        match placeholder_at(s, n) {
            Some((v, l)) => {
                proof {
                    lemma_digit_run_bound(s.drop_first());
                }
                seq![v] + placeholder_values(s.skip(l as int), n)
            },
            None => placeholder_values(s.drop_first(), n),
        }
    }
}

/// The arguments among the first `k` whose number (from 1) is not among
/// `used`, in order.
pub open spec fn unused_args(args: Seq<Seq<char>>, used: Seq<nat>, k: nat) -> Seq<Seq<char>>
    decreases k,
{
    if k == 0 {
        seq![]
    } else {
        let prev = unused_args(args, used, (k - 1) as nat);
        if used.contains(k) {
            prev
        } else {
            prev.push(args[k - 1])
        }
    }
}

/// The tokens an alias expands to: the substituted expansion split on
/// whitespace, followed by the arguments that no placeholder named.
pub open spec fn expansion_tokens(exp: Seq<char>, args: Seq<Seq<char>>) -> Seq<Seq<char>> {
    split_ws(substitute(exp, args)) + unused_args(
        args,
        placeholder_values(exp, args.len()),
        args.len(),
    )
}

/// Whether `e[j]` is a digit.
fn digit_at(e: &Vec<char>, j: usize) -> (b: bool)
    ensures
        b == (j < e@.len() && is_digit(e@[j as int])),
{
    j < e.len() && '0' <= e[j] && e[j] <= '9'
}

proof fn lemma_digit_run_exact(s: Seq<char>, l: nat)
    requires
        l <= s.len(),
        forall|k: int| 0 <= k < l ==> is_digit(#[trigger] s[k]),
        l == s.len() || !is_digit(s[l as int]),
    ensures
        digit_run(s) == l,
    decreases l,
{
    if l > 0 {
        let t = s.drop_first();
        assert forall|k: int| 0 <= k < l - 1 implies is_digit(#[trigger] t[k]) by {
            assert(t[k] == s[k + 1]);
        }
        if l < s.len() {
            assert(t[l - 1] == s[l as int]);
        }
        lemma_digit_run_exact(t, (l - 1) as nat);
    } else {
        assert(s.len() == 0 || !is_digit(s[0]));
    }
}

/// The placeholder at position `i` of `e`, given `n` arguments.
fn placeholder_at_exec(e: &Vec<char>, i: usize, n: usize) -> (r: Option<(usize, usize)>)
    requires
        i < e@.len(),
    ensures
        match placeholder_at(e@.skip(i as int), n as nat) {
            Some((v, l)) => r matches Some((v2, l2)) && v2 == v && l2 == l,
            None => r is None,
        },
{
    let ghost s = e@.skip(i as int);
    assert(s[0] == e@[i as int]);
    if e[i] != '$' {
        return None;
    }
    let len = e.len();
    let cap: u128 = (n as u128) + 1;
    let mut j: usize = i + 1;
    let mut sat: u128 = 0;
    assert(e@.subrange(i + 1, i + 1) =~= Seq::<char>::empty());
    while digit_at(e, j)
        invariant
            i + 1 <= j <= e@.len(),
            len == e@.len(),
            cap == n + 1,
            forall|k: int| i + 1 <= k < j ==> is_digit(#[trigger] e@[k]),
            digits_value(e@.subrange(i + 1, j as int)) < cap ==> sat == digits_value(
                e@.subrange(i + 1, j as int),
            ),
            digits_value(e@.subrange(i + 1, j as int)) >= cap ==> sat == cap,
        decreases e@.len() - j,
    {
        let d: u128 = ((e[j] as u32) - ('0' as u32)) as u128;
        let ghost old_v = digits_value(e@.subrange(i + 1, j as int));
        let ghost nd = e@.subrange(i + 1, j + 1);
        assert(nd.drop_last() =~= e@.subrange(i + 1, j as int));
        assert(nd.last() == e@[j as int]);
        assert(digits_value(nd) == old_v * 10 + d);
        if sat < cap {
            let t = sat * 10 + d;
            sat = if t >= cap {
                cap
            } else {
                t
            };
        }
        j += 1;
    }
    let l = j - (i + 1);
    proof {
        let t = s.drop_first();
        assert(t =~= e@.skip(i + 1));
        assert forall|k: int| 0 <= k < l implies is_digit(#[trigger] t[k]) by {
            assert(t[k] == e@[i + 1 + k]);
        }
        if l < t.len() {
            assert(t[l as int] == e@[j as int]);
        }
        lemma_digit_run_exact(t, l as nat);
        assert(s.subrange(1, 1 + l) =~= e@.subrange(i + 1, j as int));
        if l > 0 {
            assert(s[1] == e@[i + 1]);
        }
    }
    if l > 0 && e[i + 1] != '0' && sat >= 1 && sat <= (n as u128) {
        Some((sat as usize, l + 1))
    } else {
        None
    }
}

/// Expand a regular alias, replacing `$N` placeholders with the arguments;
/// arguments that no placeholder used are appended.
pub fn expand_alias(expansion: &str, args: &[String]) -> (r: Vec<String>)
    ensures
        strs(r@) == expansion_tokens(expansion@, strs(args@)),
{
    let ghost a = strs(args@);
    let e = chars_of(expansion);
    let n = args.len();
    let mut used: Vec<bool> = Vec::new();
    while used.len() < n
        invariant
            used@.len() <= n,
            forall|j: int| 0 <= j < used@.len() ==> !used@[j],
        decreases n - used@.len(),
    {
        used.push(false);
    }
    let mut out: Vec<char> = Vec::new();
    let ghost mut vals: Seq<nat> = seq![];
    let mut i: usize = 0;
    assert(e@.skip(0) =~= e@);
    assert(out@ + substitute(e@, a) =~= substitute(e@, a));
    assert(vals + placeholder_values(e@, n as nat) =~= placeholder_values(e@, n as nat));
    while i < e.len()
        invariant
            i <= e@.len(),
            e@ == expansion@,
            a == strs(args@),
            n == args@.len(),
            a.len() == n,
            out@ + substitute(e@.skip(i as int), a) == substitute(e@, a),
            vals + placeholder_values(e@.skip(i as int), n as nat) == placeholder_values(
                e@,
                n as nat,
            ),
            used@.len() == n,
            forall|j: int| 0 <= j < n ==> used@[j] == vals.contains((j + 1) as nat),
        decreases e@.len() - i,
    {
        let ghost s = e@.skip(i as int);
        match placeholder_at_exec(&e, i, n) {
            Some((v, l)) => {
                proof {
                    lemma_digit_run_bound(s.drop_first());
                    assert(s.skip(l as int) =~= e@.skip(i + l));
                }
                let arg = chars_of(args[v - 1].as_str());
                assert(arg@ == a[v - 1]);
                let ghost before = out@;
                extend_chars(&mut out, &arg);
                assert(out@ + substitute(e@.skip(i + l), a) =~= before + (a[v - 1] + substitute(
                    s.skip(l as int),
                    a,
                )));
                let ghost old_vals = vals;
                used.set(v - 1, true);
                proof {
                    vals = vals.push(v as nat);
                    assert(vals + placeholder_values(e@.skip(i + l), n as nat) =~= old_vals + (seq![
                        v as nat,
                    ] + placeholder_values(s.skip(l as int), n as nat)));
                    assert forall|j: int| 0 <= j < n implies used@[j] == vals.contains(
                        (j + 1) as nat,
                    ) by {
                        if j == v - 1 {
                            assert(vals[vals.len() - 1] == v);
                        } else {
                            if vals.contains((j + 1) as nat) {
                                let w = choose|w: int|
                                    0 <= w < vals.len() && vals[w] == (j + 1) as nat;
                                assert(old_vals[w] == (j + 1) as nat);
                            }
                            if old_vals.contains((j + 1) as nat) {
                                let w = choose|w: int|
                                    0 <= w < old_vals.len() && old_vals[w] == (j + 1) as nat;
                                assert(vals[w] == (j + 1) as nat);
                            }
                        }
                    }
                }
                i = i + l;
            },
            None => {
                let ghost before = out@;
                out.push(e[i]);
                assert(s[0] == e@[i as int]);
                assert(s.drop_first() =~= e@.skip(i + 1));
                assert(out@ + substitute(e@.skip(i + 1), a) =~= before + (seq![s[0]] + substitute(
                    s.drop_first(),
                    a,
                )));
                i += 1;
            },
        }
    }
    assert(e@.skip(i as int) =~= Seq::<char>::empty());
    assert(out@ =~= substitute(e@, a));
    assert(vals =~= placeholder_values(e@, n as nat));
    let words = split_ws_exec(&out);
    let mut all = words;
    let ghost w = vviews(all@);
    let mut k: usize = 0;
    while k < n
        invariant
            k <= n,
            n == args@.len(),
            a == strs(args@),
            used@.len() == n,
            forall|j: int| 0 <= j < n ==> used@[j] == vals.contains((j + 1) as nat),
            vviews(all@) == w + unused_args(a, vals, k as nat),
        decreases n - k,
    {
        let ghost before = vviews(all@);
        assert(used@[k as int] == vals.contains((k + 1) as nat));
        if !used[k] {
            let arg = chars_of(args[k].as_str());
            all.push(arg);
            assert(vviews(all@) =~= before.push(a[k as int]));
        }
        k += 1;
    }
    strings_of(&all)
}

/// Without any `$` in the expansion, no placeholder matches: the words of the
/// expansion come first and every argument is appended unchanged.
pub proof fn lemma_plain_alias_appends_args(exp: Seq<char>, args: Seq<Seq<char>>)
    requires
        !exp.contains('$'),
    ensures
        expansion_tokens(exp, args) == split_ws(exp) + args,
{
    lemma_plain_substitute(exp, args);
    lemma_nothing_used(args, args.len());
    assert(args.take(args.len() as int) =~= args);
}

proof fn lemma_plain_substitute(s: Seq<char>, args: Seq<Seq<char>>)
    requires
        !s.contains('$'),
    ensures
        substitute(s, args) == s,
        placeholder_values(s, args.len()) == Seq::<nat>::empty(),
    decreases s.len(),
{
    if s.len() > 0 {
        assert(s[0] != '$') by {
            if s[0] == '$' {
                assert(s.contains(s[0]));
            }
        }
        let t = s.drop_first();
        assert(!t.contains('$')) by {
            if t.contains('$') {
                let k = choose|k: int| 0 <= k < t.len() && t[k] == '$';
                assert(s[k + 1] == '$');
                assert(s.contains(s[k + 1]));
            }
        }
        lemma_plain_substitute(t, args);
        assert(seq![s[0]] + t =~= s);
    }
}

proof fn lemma_nothing_used(args: Seq<Seq<char>>, k: nat)
    requires
        k <= args.len(),
    ensures
        unused_args(args, Seq::<nat>::empty(), k) == args.take(k as int),
    decreases k,
{
    if k == 0 {
        assert(args.take(0) =~= Seq::<Seq<char>>::empty());
    } else {
        lemma_nothing_used(args, (k - 1) as nat);
        assert(args.take(k as int) =~= args.take(k - 1).push(args[k - 1]));
    }
}

/// What the command line does with an alias.
pub enum AliasDispatch {
    /// The first argument names no alias: parse the command line as it is.
    NotAlias,
    /// A shell alias (`!cmd`): run `cmd` with the remaining arguments.
    Shell { command: String, args: Vec<String> },
    /// A regular alias: parse this command line instead.
    Expanded(Vec<String>),
}

/// The expansion bound to `name`: the first pair whose name matches.
pub open spec fn lookup_alias(aliases: Seq<(Seq<char>, Seq<char>)>, name: Seq<char>) -> Option<
    Seq<char>,
>
    decreases aliases.len(),
{
    if aliases.len() == 0 {
        None
    } else if aliases[0].0 == name {
        Some(aliases[0].1)
    } else {
        lookup_alias(aliases.drop_first(), name)
    }
}

/// The views of alias pairs.
pub open spec fn pair_views(v: Seq<(String, String)>) -> Seq<(Seq<char>, Seq<char>)> {
    v.map_values(|p: (String, String)| (p.0@, p.1@))
}

/// Looks up the alias called `name`.
pub fn find_alias(aliases: &[(String, String)], name: &str) -> (r: Option<String>)
    ensures
        r matches Some(e) ==> lookup_alias(pair_views(aliases@), name@) == Some(e@),
        r is None ==> lookup_alias(pair_views(aliases@), name@) is None,
{
    let mut i: usize = 0;
    let ghost all = pair_views(aliases@);
    assert(all.skip(0) =~= all);
    while i < aliases.len()
        invariant
            i <= aliases.len(),
            all == pair_views(aliases@),
            lookup_alias(all, name@) == lookup_alias(all.skip(i as int), name@),
        decreases aliases.len() - i,
    {
        assert(all.skip(i as int).drop_first() =~= all.skip(i + 1));
        let n = chars_of(aliases[i].0.as_str());
        let m = chars_of(name);
        if n.len() == m.len() && starts_with_exec(&n, &m) {
            assert(n@ =~= m@);
            return Some(aliases[i].1.clone());
        }
        proof {
            if n@ == m@ {
                assert(n@.take(m@.len() as int) =~= m@);
            }
        }
        i += 1;
    }
    None
}

/// The command line that an alias in first position stands for.
pub open spec fn alias_dispatch_spec(
    raw: Seq<Seq<char>>,
    aliases: Seq<(Seq<char>, Seq<char>)>,
) -> (Option<(bool, Seq<char>, Seq<Seq<char>>)>) {
    if raw.len() <= 1 {
        None
    } else {
        match lookup_alias(aliases, raw[1]) {
            None => None,
            Some(e) => if e.len() > 0 && e[0] == '!' {
                Some((true, e.skip(1), raw.skip(2)))
            } else {
                Some((false, e, seq![seq!['g', 't']] + expansion_tokens(e, raw.skip(2))))
            },
        }
    }
}

/// The tail of a vector of strings from `start`.
fn strings_from(v: &[String], start: usize) -> (r: Vec<String>)
    requires
        start <= v@.len(),
    ensures
        strs(r@) == strs(v@).skip(start as int),
{
    let mut r: Vec<String> = Vec::new();
    let mut i = start;
    while i < v.len()
        invariant
            start <= i <= v.len(),
            strs(r@) == strs(v@).subrange(start as int, i as int),
        decreases v.len() - i,
    {
        let ghost before = strs(r@);
        r.push(v[i].clone());
        assert(strs(r@) =~= before.push(v@[i as int]@));
        assert(strs(v@).subrange(start as int, i + 1) =~= before.push(v@[i as int]@));
        i += 1;
    }
    assert(strs(v@).subrange(start as int, v.len() as int) =~= strs(v@).skip(start as int));
    r
}

/// Decides what to do with the command line `raw` (program name first):
/// if its first argument names an alias, a `!` alias runs in the shell and a
/// regular alias is expanded into a new command line headed by `gt`.
pub fn dispatch_alias(raw: &[String], aliases: &[(String, String)]) -> (r: AliasDispatch)
    ensures
        match alias_dispatch_spec(strs(raw@), pair_views(aliases@)) {
            None => r is NotAlias,
            Some((true, cmd, rest)) => r matches AliasDispatch::Shell { command, args } && command@
                == cmd && strs(args@) == rest,
            Some((false, _, line)) => r matches AliasDispatch::Expanded(v) && strs(v@) == line,
        },
{
    if raw.len() <= 1 {
        return AliasDispatch::NotAlias;
    }
    let found = find_alias(aliases, raw[1].as_str());
    match found {
        None => AliasDispatch::NotAlias,
        Some(e) => {
            let ec = chars_of(e.as_str());
            let rest = strings_from(raw, 2);
            if ec.len() > 0 && ec[0] == '!' {
                let mut cmd: Vec<char> = Vec::new();
                let mut k: usize = 1;
                while k < ec.len()
                    invariant
                        1 <= k <= ec.len(),
                        cmd@ == ec@.subrange(1, k as int),
                    decreases ec.len() - k,
                {
                    cmd.push(ec[k]);
                    assert(cmd@ =~= ec@.subrange(1, k + 1));
                    k += 1;
                }
                assert(cmd@ =~= ec@.skip(1));
                AliasDispatch::Shell { command: string_of(&cmd), args: rest }
            } else {
                let expanded = expand_alias(e.as_str(), &rest);
                let mut line: Vec<String> = Vec::new();
                line.push(string_of(&['g', 't']));
                let ghost before = strs(line@);
                assert(before =~= seq![seq!['g', 't']]);
                let mut k: usize = 0;
                while k < expanded.len()
                    invariant
                        k <= expanded.len(),
                        strs(line@) == before + strs(expanded@).take(k as int),
                    decreases expanded.len() - k,
                {
                    let ghost b2 = strs(line@);
                    line.push(expanded[k].clone());
                    assert(strs(line@) =~= b2.push(expanded@[k as int]@));
                    assert(strs(expanded@).take(k + 1) =~= strs(expanded@).take(k as int).push(
                        expanded@[k as int]@,
                    ));
                    k += 1;
                }
                assert(strs(expanded@).take(expanded.len() as int) =~= strs(expanded@));
                AliasDispatch::Expanded(line)
            }
        },
    }
}

} // verus!
