//! Markdown bodies: the links and images that point at local files, and
//! the body rewritten once such a file is uploaded.
//!
//! A link is `[text](path)` and an image `![alt](path)`: the text holds no
//! `]`, the path is non-empty and holds no `)`. Links are found left to
//! right without overlapping, as a regular-expression search does.
use vstd::prelude::*;

use crate::repo::RepoInfo;
use crate::text::{
    chars_of, dec_i64, dec_int, extend_chars, extend_str, replace_all, replace_all_exec,
    slice_chars, starts_with, starts_with_exec, string_of,
};

verus! {

/// The first index at or after `from` where `s` holds `c`.
pub open spec fn first_from(s: Seq<char>, c: char, from: int) -> Option<int>
    decreases s.len() - from,
{
    if from < 0 || from >= s.len() {
        None
    } else if s[from] == c {
        Some(from)
    } else {
        first_from(s, c, from + 1)
    }
}

/// The first index at or after `from` where `s` holds `c`.
pub fn first_from_exec(s: &[char], c: char, from: usize) -> (r: Option<usize>)
    ensures
        match first_from(s@, c, from as int) {
            Some(k) => r matches Some(x) && x == k,
            None => r is None,
        },
{
    let mut i = from;
    while i < s.len()
        invariant
            from <= i,
            first_from(s@, c, from as int) == first_from(s@, c, i as int),
        decreases s.len() - i,
    {
        if s[i] == c {
            return Some(i);
        }
        i += 1;
    }
    None
}

/// A first index is where the character is, after `from`.
proof fn lemma_first_from(s: Seq<char>, c: char, from: int)
    ensures
        first_from(s, c, from) matches Some(k) ==> from <= k < s.len() && s[k] == c,
    decreases s.len() - from,
{
    if 0 <= from < s.len() && s[from] != c {
        lemma_first_from(s, c, from + 1);
    }
}

/// `[text](path)` starting at `j`: where its path starts and ends.
pub open spec fn bracket_at(s: Seq<char>, j: int) -> Option<(int, int)> {
    if 0 <= j < s.len() && s[j] == '[' {
        match first_from(s, ']', j + 1) {
            Some(k) => if k + 1 < s.len() && s[k + 1] == '(' {
                match first_from(s, ')', k + 2) {
                    Some(m) => if m > k + 2 {
                        Some((k + 2, m))
                    } else {
                        None
                    },
                    None => None,
                }
            } else {
                None
            },
            None => None,
        }
    } else {
        None
    }
}

/// A link or image starting at `i`: its end, and where its path starts and
/// ends.
pub open spec fn link_at(s: Seq<char>, i: int) -> Option<(int, int, int)> {
    if 0 <= i < s.len() && s[i] == '!' && bracket_at(s, i + 1) is Some {
        let (ps, pe) = bracket_at(s, i + 1)->Some_0;
        Some((pe + 1, ps, pe))
    } else {
        match bracket_at(s, i) {
            Some((ps, pe)) => Some((pe + 1, ps, pe)),
            None => None,
        }
    }
}

/// The links of `s` from `p` on: start, end, path start and path end of
/// each, left to right, without overlap.
pub open spec fn links_from(s: Seq<char>, p: int) -> Seq<(int, int, int, int)>
    decreases s.len() - p,
{
    if p < 0 || p >= s.len() {
        seq![]
    } else {
        match link_at(s, p) {
            Some((e, ps, pe)) => if p < e <= s.len() {
                seq![(p, e, ps, pe)] + links_from(s, e)
            } else {
                seq![]
            },
            None => links_from(s, p + 1),
        }
    }
}

/// A web address rather than a local path.
pub open spec fn is_web(path: Seq<char>) -> bool {
    starts_with(path, "http://"@) || starts_with(path, "https://"@)
}

/// The whole text and the path of each link, in order.
pub open spec fn link_texts(s: Seq<char>, ms: Seq<(int, int, int, int)>) -> Seq<(Seq<char>, Seq<char>)> {
    ms.map_values(|m: (int, int, int, int)| (s.subrange(m.0, m.1), s.subrange(m.2, m.3)))
}

/// The links and images of `body` whose path is not a web address: each
/// with its whole text and its path.
pub open spec fn local_links(body: Seq<char>) -> Seq<(Seq<char>, Seq<char>)> {
    link_texts(body, links_from(body, 0)).filter(|p: (Seq<char>, Seq<char>)| !is_web(p.1))
}

/// The path bounds of `[text](path)` at `j`.
fn bracket_at_exec(s: &[char], j: usize) -> (r: Option<(usize, usize)>)
    ensures
        match bracket_at(s@, j as int) {
            Some((a, b)) => r == Some((a as usize, b as usize)),
            None => r is None,
        },
{
    if j >= s.len() || s[j] != '[' {
        return None;
    }
    proof {
        lemma_first_from(s@, ']', j + 1);
    }
    match first_from_exec(s, ']', j + 1) {
        Some(k) => {
            if k + 1 < s.len() && s[k + 1] == '(' {
                proof {
                    lemma_first_from(s@, ')', k + 2);
                }
                match first_from_exec(s, ')', k + 2) {
                    Some(m) => if m > k + 2 {
                        Some((k + 2, m))
                    } else {
                        None
                    },
                    None => None,
                }
            } else {
                None
            }
        },
        None => None,
    }
}

/// The link or image at `i`.
fn link_at_exec(s: &[char], i: usize) -> (r: Option<(usize, usize, usize)>)
    ensures
        match link_at(s@, i as int) {
            Some((e, a, b)) => r == Some((e as usize, a as usize, b as usize)),
            None => r is None,
        },
{
    if i < s.len() && s[i] == '!' {
        match bracket_at_exec(s, i + 1) {
            Some((ps, pe)) => {
                proof {
                    lemma_bracket_bounds(s@, i + 1);
                }
                return Some((pe + 1, ps, pe));
            },
            None => {},
        }
    }
    match bracket_at_exec(s, i) {
        Some((ps, pe)) => {
            proof {
                lemma_bracket_bounds(s@, i as int);
            }
            Some((pe + 1, ps, pe))
        },
        None => None,
    }
}

/// The path of a bracket lies inside the text, after the bracket.
proof fn lemma_bracket_bounds(s: Seq<char>, j: int)
    ensures
        bracket_at(s, j) matches Some((a, b)) ==> j < a < b < s.len(),
{
    if 0 <= j < s.len() && s[j] == '[' {
        lemma_first_from(s, ']', j + 1);
        match first_from(s, ']', j + 1) {
            Some(k) => {
                lemma_first_from(s, ')', k + 2);
            },
            None => {},
        }
    }
}

/// The links and images of `body` that point at local paths: for each,
/// its whole text (`[text](path)` or `![alt](path)`) and its path.
pub fn local_link_candidates(body: &str) -> (r: Vec<(String, String)>)
    ensures
        r@.map_values(|p: (String, String)| (p.0@, p.1@)) == local_links(body@),
{
    let s = chars_of(body);
    let mut out: Vec<(String, String)> = Vec::new();
    let ghost mut ms: Seq<(int, int, int, int)> = seq![];
    let mut p: usize = 0;
    while p < s.len()
        invariant
            p <= s@.len(),
            s@ == body@,
            ms + links_from(s@, p as int) == links_from(s@, 0),
            out@.map_values(|q: (String, String)| (q.0@, q.1@)) == link_texts(s@, ms).filter(
                |q: (Seq<char>, Seq<char>)| !is_web(q.1),
            ),
        decreases s.len() - p,
    {
        match link_at_exec(&s, p) {
            Some((e, ps, pe)) => {
                proof {
                    lemma_bracket_bounds(s@, p as int);
                    lemma_bracket_bounds(s@, p + 1);
                }
                let full = slice_chars(&s, p, e);
                let path = slice_chars(&s, ps, pe);
                let ghost m = (p as int, e as int, ps as int, pe as int);
                let ghost before = out@.map_values(|q: (String, String)| (q.0@, q.1@));
                assert(links_from(s@, p as int) == seq![m] + links_from(s@, e as int));
                let web = starts_with_exec(&path, &chars_of("http://")) || starts_with_exec(
                    &path,
                    &chars_of("https://"),
                );
                if !web {
                    out.push((string_of(&full), string_of(&path)));
                }
                proof {
                    assert((ms + seq![m]) + links_from(s@, e as int) =~= ms + links_from(
                        s@,
                        p as int,
                    ));
                    let lt = link_texts(s@, ms.push(m));
                    assert(lt =~= link_texts(s@, ms).push((full@, path@)));
                    reveal(Seq::filter);
                    assert(lt.drop_last() =~= link_texts(s@, ms));
                    if !web {
                        assert(out@.map_values(|q: (String, String)| (q.0@, q.1@)) =~= before.push(
                            (full@, path@),
                        ));
                    } else {
                        assert(out@.map_values(|q: (String, String)| (q.0@, q.1@)) =~= before);
                    }
                    ms = ms.push(m);
                }
                p = e;
            },
            None => {
                p += 1;
            },
        }
    }
    assert(links_from(s@, p as int) =~= Seq::<(int, int, int, int)>::empty());
    assert(ms =~= links_from(s@, 0));
    out
}

/// The text of a link or image before its first `]`, after its opening
/// `[` (or `![`).
pub open spec fn link_label(full: Seq<char>) -> Seq<char> {
    let k = first_from(full, ']', 0)->Some_0;
    if full[0] == '!' {
        full.subrange(2, k)
    } else {
        full.subrange(1, k)
    }
}

/// `full` is shaped as a link or an image: its first `]` comes after the
/// opening `[` (and after `![` for an image).
pub open spec fn link_shaped(full: Seq<char>) -> bool {
    &&& full.len() > 0
    &&& first_from(full, ']', 0) matches Some(k) && (if full[0] == '!' {
        k >= 2
    } else {
        k >= 1
    })
}

/// The body after a local file was uploaded: every occurrence of the
/// link's text replaced by the same link or image to `url`.
pub open spec fn rewrite_spec(body: Seq<char>, full: Seq<char>, url: Seq<char>) -> Seq<char> {
    let label = link_label(full);
    let replacement = if full[0] == '!' {
        "!["@ + label + "]("@ + url + ")"@
    } else {
        "["@ + label + "]("@ + url + ")"@
    };
    replace_all(body, full, replacement)
}

/// Points the link `full` of `body` at `url`.
pub fn rewrite_link(body: &str, full: &str, url: &str) -> (r: String)
    requires
        link_shaped(full@),
    ensures
        r@ == rewrite_spec(body@, full@, url@),
{
    let f = chars_of(full);
    proof {
        lemma_first_from(f@, ']', 0);
    }
    let k = match first_from_exec(&f, ']', 0) {
        Some(k) => k,
        None => {
            assert(false);
            0
        },
    };
    assert(f@ == full@);
    assert(first_from(f@, ']', 0) == Some(k as int));
    assert(f@[0] == '!' ==> k >= 2);
    assert(k >= 1);
    let mut rep: Vec<char> = Vec::new();
    if f[0] == '!' {
        rep = chars_of("![");
        extend_chars(&mut rep, &slice_chars(&f, 2, k));
    } else {
        rep = chars_of("[");
        extend_chars(&mut rep, &slice_chars(&f, 1, k));
    }
    extend_str(&mut rep, "](");
    extend_str(&mut rep, url);
    extend_str(&mut rep, ")");
    string_of(&replace_all_exec(&chars_of(body), &f, &rep))
}

/// The API path that receives a file attached to an issue.
pub open spec fn issue_asset_path_spec(repo: RepoInfo, index: i64, filename: Seq<char>) -> Seq<char> {
    "repos/"@ + repo.owner@ + "/"@ + repo.name@ + "/issues/"@ + dec_int(index as int)
        + "/assets?name="@ + filename
}

/// The API path that receives a file attached to an issue.
pub fn issue_asset_path(repo: &RepoInfo, index: i64, filename: &str) -> (r: String)
    ensures
        r@ == issue_asset_path_spec(*repo, index, filename@),
{
    let mut v = chars_of("repos/");
    extend_str(&mut v, repo.owner.as_str());
    extend_str(&mut v, "/");
    extend_str(&mut v, repo.name.as_str());
    extend_str(&mut v, "/issues/");
    extend_chars(&mut v, &dec_i64(index));
    extend_str(&mut v, "/assets?name=");
    extend_str(&mut v, filename);
    string_of(&v)
}

/// Links to web addresses are never taken for local files: no candidate's
/// path starts with `http://` or `https://`.
pub proof fn lemma_candidates_are_local(body: Seq<char>)
    ensures
        forall|i: int|
            0 <= i < local_links(body).len() ==> !is_web(#[trigger] local_links(body)[i].1),
{
    let all = link_texts(body, links_from(body, 0));
    assert forall|i: int| 0 <= i < local_links(body).len() implies !is_web(
        #[trigger] local_links(body)[i].1,
    ) by {
        all.lemma_filter_pred(|p: (Seq<char>, Seq<char>)| !is_web(p.1), i);
    }
}

} // verus!
