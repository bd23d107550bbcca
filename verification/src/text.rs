//! Character-level text operations with their mathematical meaning.
//!
//! Strings are viewed as `Seq<char>`. Byte lengths, where the behaviour
//! depends on them, are the lengths of the UTF-8 encoding.
use vstd::prelude::*;

verus! {

// ---------------------------------------------------------------------------
// Specifications
// ---------------------------------------------------------------------------

/// Unicode `White_Space`, the property that `char::is_whitespace` tests.
pub open spec fn is_ws(c: char) -> bool {
    let u = c as u32;
    (0x9 <= u && u <= 0xD) || u == 0x20 || u == 0x85 || u == 0xA0 || u == 0x1680
        || (0x2000 <= u && u <= 0x200A) || u == 0x2028 || u == 0x2029 || u == 0x202F
        || u == 0x205F || u == 0x3000
}

/// Number of bytes of the UTF-8 encoding of `c`.
pub open spec fn char_width(c: char) -> nat {
    let u = c as u32;
    if u < 0x80 {
        1
    } else if u < 0x800 {
        2
    } else if u < 0x10000 {
        3
    } else {
        4
    }
}

/// Number of bytes of the UTF-8 encoding of `s` (what `str::len` returns).
pub open spec fn utf8_len(s: Seq<char>) -> nat
    decreases s.len(),
{
    if s.len() == 0 {
        0
    } else {
        utf8_len(s.drop_last()) + char_width(s.last())
    }
}

/// Byte offset `b` falls on a character boundary of `s`.
pub open spec fn is_boundary(s: Seq<char>, b: int) -> bool {
    exists|k: int| 0 <= k <= s.len() && #[trigger] utf8_len(s.take(k)) == b
}

/// The first characters of `s` whose encoding is exactly `b` bytes long;
/// meaningful when `b` is a character boundary of `s`.
pub open spec fn byte_prefix(s: Seq<char>, b: int) -> Seq<char> {
    s.take(choose|k: int| 0 <= k <= s.len() && #[trigger] utf8_len(s.take(k)) == b)
}

/// The characters of `s` after its first `b` bytes; meaningful when `b` is
/// a character boundary of `s`.
pub open spec fn byte_suffix(s: Seq<char>, b: int) -> Seq<char> {
    s.skip(choose|k: int| 0 <= k <= s.len() && #[trigger] utf8_len(s.take(k)) == b)
}

/// `pat` occurs in `s` at position `i`.
pub open spec fn occurs_at(s: Seq<char>, pat: Seq<char>, i: int) -> bool {
    0 <= i && i + pat.len() <= s.len() && s.subrange(i, i + pat.len()) == pat
}

/// `pat` occurs somewhere in `s` (`str::contains`).
pub open spec fn contains(s: Seq<char>, pat: Seq<char>) -> bool {
    exists|i: int| #[trigger] occurs_at(s, pat, i)
}

/// `s` begins with `p`.
pub open spec fn starts_with(s: Seq<char>, p: Seq<char>) -> bool {
    p.len() <= s.len() && s.take(p.len() as int) == p
}

/// `s` ends with `p`.
pub open spec fn ends_with(s: Seq<char>, p: Seq<char>) -> bool {
    p.len() <= s.len() && s.skip(s.len() - p.len()) == p
}

/// Position of the first occurrence of `pat` in `s`, searching from `from`.
pub open spec fn find_from(s: Seq<char>, pat: Seq<char>, from: int) -> Option<int>
    decreases s.len() + 1 - from,
{
    if from < 0 || from + pat.len() > s.len() {
        None
    } else if occurs_at(s, pat, from) {
        Some(from)
    } else {
        find_from(s, pat, from + 1)
    }
}

/// Position of the first occurrence of `pat` in `s` (`str::find`).
pub open spec fn find(s: Seq<char>, pat: Seq<char>) -> Option<int> {
    find_from(s, pat, 0)
}

/// Every non-overlapping occurrence of `pat` replaced by `rep`, scanning
/// left to right (`str::replace` for a non-empty pattern).
pub open spec fn replace_all(s: Seq<char>, pat: Seq<char>, rep: Seq<char>) -> Seq<char>
    decreases s.len(),
{
    if pat.len() == 0 || s.len() < pat.len() {
        s
    } else if s.take(pat.len() as int) == pat {
        rep + replace_all(s.skip(pat.len() as int), pat, rep)
    } else {
        seq![s[0]] + replace_all(s.skip(1), pat, rep)
    }
}

/// The maximal runs of non-whitespace characters of `s`, with `cur` the run
/// collected so far.
pub open spec fn words_from(s: Seq<char>, cur: Seq<char>) -> Seq<Seq<char>>
    decreases s.len(),
{
    if s.len() == 0 {
        if cur.len() == 0 {
            seq![]
        } else {
            seq![cur]
        }
    } else if is_ws(s[0]) {
        if cur.len() == 0 {
            words_from(s.drop_first(), seq![])
        } else {
            seq![cur] + words_from(s.drop_first(), seq![])
        }
    } else {
        words_from(s.drop_first(), cur.push(s[0]))
    }
}

/// `str::split_whitespace`: the maximal runs of non-whitespace characters.
pub open spec fn split_ws(s: Seq<char>) -> Seq<Seq<char>> {
    words_from(s, seq![])
}

/// Number of leading whitespace characters of `s`.
pub open spec fn lead_ws(s: Seq<char>) -> nat
    decreases s.len(),
{
    if s.len() > 0 && is_ws(s[0]) {
        1 + lead_ws(s.drop_first())
    } else {
        0
    }
}

/// Number of trailing whitespace characters of `s`.
pub open spec fn trail_ws(s: Seq<char>) -> nat
    decreases s.len(),
{
    if s.len() > 0 && is_ws(s.last()) {
        1 + trail_ws(s.drop_last())
    } else {
        0
    }
}

/// `str::trim`: `s` without leading and trailing whitespace.
pub open spec fn trim(s: Seq<char>) -> Seq<char> {
    let a = lead_ws(s) as int;
    let rest = s.skip(a);
    rest.take(rest.len() - trail_ws(rest))
}

/// ASCII lowercase of one character.
pub open spec fn lower_char(c: char) -> char {
    if 'A' <= c && c <= 'Z' {
        ((c as u32) + 32) as char
    } else {
        c
    }
}

/// `str::to_ascii_lowercase`.
pub open spec fn ascii_lower(s: Seq<char>) -> Seq<char> {
    s.map_values(|c: char| lower_char(c))
}

/// The decimal digit character for `d < 10`.
pub open spec fn digit_char(d: nat) -> char {
    ((d + 48) as u32) as char
}

/// Decimal representation of a natural number, without leading zeros.
pub open spec fn dec_nat(n: nat) -> Seq<char>
    decreases n,
{
    if n < 10 {
        seq![digit_char(n)]
    } else {
        dec_nat(n / 10).push(digit_char(n % 10))
    }
}

/// Decimal representation of an integer, as `Display` writes it.
pub open spec fn dec_int(n: int) -> Seq<char> {
    if n < 0 {
        seq!['-'] + dec_nat((-n) as nat)
    } else {
        dec_nat(n as nat)
    }
}

/// `s` padded on the right with spaces to at least `w` characters
/// (`format!("{:<w$}")`).
pub open spec fn pad_right(s: Seq<char>, w: nat) -> Seq<char> {
    if s.len() >= w {
        s
    } else {
        s + Seq::new((w - s.len()) as nat, |i: int| ' ')
    }
}

/// The elements of `parts` separated by `sep` (`[T]::join`).
pub open spec fn join(parts: Seq<Seq<char>>, sep: Seq<char>) -> Seq<char>
    decreases parts.len(),
{
    if parts.len() == 0 {
        seq![]
    } else if parts.len() == 1 {
        parts[0]
    } else {
        join(parts.drop_last(), sep) + sep + parts.last()
    }
}

// ---------------------------------------------------------------------------
// Lemmas
// ---------------------------------------------------------------------------

/// The encoding of a prefix grows by the width of the next character.
pub proof fn lemma_utf8_len_take(s: Seq<char>, k: int)
    requires
        0 <= k < s.len(),
    ensures
        utf8_len(s.take(k + 1)) == utf8_len(s.take(k)) + char_width(s[k]),
{
    assert(s.take(k + 1).drop_last() =~= s.take(k));
}

/// The encoding of a concatenation is the concatenation of the encodings.
pub proof fn lemma_utf8_len_add(a: Seq<char>, b: Seq<char>)
    ensures
        utf8_len(a + b) == utf8_len(a) + utf8_len(b),
    decreases b.len(),
{
    if b.len() == 0 {
        assert(a + b =~= a);
    } else {
        assert((a + b).drop_last() =~= a + b.drop_last());
        lemma_utf8_len_add(a, b.drop_last());
    }
}

/// Byte lengths of prefixes grow with the prefix.
pub proof fn lemma_utf8_len_mono(s: Seq<char>, i: int, j: int)
    requires
        0 <= i <= j <= s.len(),
    ensures
        utf8_len(s.take(i)) <= utf8_len(s.take(j)),
        i < j ==> utf8_len(s.take(i)) < utf8_len(s.take(j)),
    decreases j - i,
{
    if i < j {
        lemma_utf8_len_take(s, j - 1);
        lemma_utf8_len_mono(s, i, j - 1);
    }
}

/// A byte offset names at most one character position.
pub proof fn lemma_boundary_unique(s: Seq<char>, i: int, j: int)
    requires
        0 <= i <= s.len(),
        0 <= j <= s.len(),
        utf8_len(s.take(i)) == utf8_len(s.take(j)),
    ensures
        i == j,
{
    if i < j {
        lemma_utf8_len_mono(s, i, j);
    } else if j < i {
        lemma_utf8_len_mono(s, j, i);
    }
}

/// The character position of a byte boundary.
pub proof fn lemma_boundary_position(s: Seq<char>, b: int, k: int)
    requires
        0 <= k <= s.len(),
        utf8_len(s.take(k)) == b,
    ensures
        byte_prefix(s, b) == s.take(k),
        byte_suffix(s, b) == s.skip(k),
{
    let c = choose|c: int| 0 <= c <= s.len() && #[trigger] utf8_len(s.take(c)) == b;
    lemma_boundary_unique(s, c, k);
}

/// A piece of a text takes no more bytes than the text.
pub proof fn lemma_utf8_len_subrange(s: Seq<char>, i: int, j: int)
    requires
        0 <= i <= j <= s.len(),
    ensures
        utf8_len(s.subrange(i, j)) <= utf8_len(s),
{
    lemma_utf8_len_split(s, j);
    lemma_utf8_len_split(s.take(j), i);
    assert(s.take(j).skip(i) =~= s.subrange(i, j));
}

/// A text that occurs in another takes no more bytes than it.
pub proof fn lemma_contains_shorter(s: Seq<char>, t: Seq<char>)
    requires
        contains(s, t),
    ensures
        utf8_len(t) <= utf8_len(s),
{
    let i = choose|i: int| #[trigger] occurs_at(s, t, i);
    lemma_utf8_len_subrange(s, i, i + t.len());
}

/// An ASCII-only sequence takes one byte per character.
pub proof fn lemma_utf8_len_ascii(s: Seq<char>)
    requires
        forall|i: int| 0 <= i < s.len() ==> (s[i] as u32) < 0x80,
    ensures
        utf8_len(s) == s.len(),
    decreases s.len(),
{
    if s.len() > 0 {
        lemma_utf8_len_ascii(s.drop_last());
    }
}

/// `dec_nat` has at least one digit and only digits.
pub proof fn lemma_dec_nat_digits(n: nat)
    ensures
        dec_nat(n).len() >= 1,
        forall|i: int| 0 <= i < dec_nat(n).len() ==> '0' <= #[trigger] dec_nat(n)[i] <= '9',
    decreases n,
{
    if n >= 10 {
        lemma_dec_nat_digits(n / 10);
    }
}

// ---------------------------------------------------------------------------
// Executable building blocks
// ---------------------------------------------------------------------------

/// Appends one character to a `String` (`String::push`).
#[verifier::external_body]
pub(crate) fn push_char(s: &mut String, c: char)
    ensures
        final(s)@ == old(s)@.push(c),
{
    s.push(c);
}

/// The characters of `s`, in order.
pub fn chars_of(s: &str) -> (v: Vec<char>)
    ensures
        v@ == s@,
{
    let mut v: Vec<char> = Vec::new();
    for c in it: s.chars()
        invariant
            v@ == it.seq().take(it.index() as int),
    {
        v.push(c);
    }
    v
}

/// A `String` holding the characters of `v`.
pub fn string_of(v: &[char]) -> (s: String)
    ensures
        s@ == v@,
{
    let mut s = String::new();
    let mut i: usize = 0;
    while i < v.len()
        invariant
            i <= v.len(),
            s@ == v@.take(i as int),
        decreases v.len() - i,
    {
        push_char(&mut s, v[i]);
        assert(v@.take(i as int).push(v@[i as int]) =~= v@.take(i + 1));
        i += 1;
    }
    assert(v@.take(v.len() as int) =~= v@);
    s
}

/// Appends all characters of `src` to `dst`.
pub fn extend_chars(dst: &mut Vec<char>, src: &[char])
    ensures
        final(dst)@ == old(dst)@ + src@,
{
    let mut i: usize = 0;
    while i < src.len()
        invariant
            i <= src.len(),
            dst@ == old(dst)@ + src@.take(i as int),
        decreases src.len() - i,
    {
        dst.push(src[i]);
        assert(old(dst)@ + src@.take(i + 1) =~= (old(dst)@ + src@.take(i as int)).push(src@[i as int]));
        i += 1;
    }
    assert(src@.take(src.len() as int) =~= src@);
}

/// Appends all characters of `src` to `dst`.
pub fn extend_str(dst: &mut Vec<char>, src: &str)
    ensures
        final(dst)@ == old(dst)@ + src@,
{
    let v = chars_of(src);
    extend_chars(dst, &v);
}

/// Whitespace test (`char::is_whitespace`).
pub fn is_ws_exec(c: char) -> (b: bool)
    ensures
        b == is_ws(c),
{
    let u = c as u32;
    (0x9 <= u && u <= 0xD) || u == 0x20 || u == 0x85 || u == 0xA0 || u == 0x1680
        || (0x2000 <= u && u <= 0x200A) || u == 0x2028 || u == 0x2029 || u == 0x202F
        || u == 0x205F || u == 0x3000
}

/// UTF-8 width of one character.
pub fn char_width_exec(c: char) -> (w: usize)
    ensures
        w == char_width(c),
{
    let u = c as u32;
    if u < 0x80 {
        1
    } else if u < 0x800 {
        2
    } else if u < 0x10000 {
        3
    } else {
        4
    }
}

/// Byte length of the UTF-8 encoding of `s`.
pub fn utf8_len_exec(s: &[char]) -> (n: usize)
    requires
        4 * s@.len() <= usize::MAX,
    ensures
        n == utf8_len(s@),
{
    let mut n: usize = 0;
    let mut i: usize = 0;
    while i < s.len()
        invariant
            i <= s.len(),
            4 * s@.len() <= usize::MAX,
            n == utf8_len(s@.take(i as int)),
            n <= 4 * i,
        decreases s.len() - i,
    {
        proof {
            lemma_utf8_len_take(s@, i as int);
        }
        n = n + char_width_exec(s[i]);
        i += 1;
    }
    assert(s@.take(s.len() as int) =~= s@);
    n
}

/// Whether the encoding of `s` is longer than `limit` bytes.
pub fn utf8_len_gt(s: &[char], limit: usize) -> (r: bool)
    ensures
        r == (utf8_len(s@) > limit),
{
    let mut acc: usize = 0;
    let mut k: usize = 0;
    while k < s.len()
        invariant
            k <= s.len(),
            acc == utf8_len(s@.take(k as int)),
            acc <= limit,
        decreases s.len() - k,
    {
        proof {
            lemma_utf8_len_take(s@, k as int);
        }
        let w = char_width_exec(s[k]);
        if w > limit - acc {
            proof {
                lemma_utf8_len_mono(s@, k + 1, s@.len() as int);
                assert(s@.take(s@.len() as int) =~= s@);
            }
            return true;
        }
        acc = acc + w;
        k += 1;
    }
    assert(s@.take(s@.len() as int) =~= s@);
    false
}

/// The encoding of `s` splits at any character position.
pub proof fn lemma_utf8_len_split(s: Seq<char>, j: int)
    requires
        0 <= j <= s.len(),
    ensures
        utf8_len(s) == utf8_len(s.take(j)) + utf8_len(s.skip(j)),
{
    assert(s =~= s.take(j) + s.skip(j));
    lemma_utf8_len_add(s.take(j), s.skip(j));
}

/// The characters making up the last `n` bytes of `s`, or `None` when
/// `utf8_len(s) - n` is not a character boundary.
pub fn byte_suffix_exec(s: &[char], n: usize) -> (r: Option<Vec<char>>)
    requires
        n <= utf8_len(s@),
    ensures
        r matches Some(v) ==> v@ == byte_suffix(s@, utf8_len(s@) - n),
        r is None ==> !is_boundary(s@, utf8_len(s@) - n),
{
    let mut acc: usize = 0;
    let mut j: usize = s.len();
    assert(s@.skip(s@.len() as int) =~= Seq::<char>::empty());
    while acc < n
        invariant
            j <= s.len(),
            acc == utf8_len(s@.skip(j as int)),
            acc <= n,
            n <= utf8_len(s@),
        decreases j,
    {
        proof {
            lemma_utf8_len_split(s@, j as int);
        }
        if j == 0 {
            assert(s@.skip(0) =~= s@);
            assert(false);
        }
        proof {
            assert(s@.skip(j - 1) =~= seq![s@[j - 1]] + s@.skip(j as int));
            lemma_utf8_len_add(seq![s@[j - 1]], s@.skip(j as int));
            assert(seq![s@[j - 1]].drop_last() =~= Seq::<char>::empty());
            assert(utf8_len(Seq::<char>::empty()) == 0);
            assert(utf8_len(seq![s@[j - 1]]) == char_width(s@[j - 1]));
            assert(utf8_len(s@.skip(j - 1)) == char_width(s@[j - 1]) + acc);
        }
        let w = char_width_exec(s[j - 1]);
        if w > n - acc {
            proof {
                assert forall|k: int| 0 <= k <= s@.len() implies #[trigger] utf8_len(s@.take(k))
                    != utf8_len(s@) - n by {
                    lemma_utf8_len_split(s@, j as int);
                    lemma_utf8_len_split(s@, j - 1);
                    if k >= j {
                        lemma_utf8_len_mono(s@, j as int, k);
                    } else {
                        lemma_utf8_len_mono(s@, k, j - 1);
                    }
                }
            }
            return None;
        }
        acc = acc + w;
        j -= 1;
    }
    proof {
        lemma_utf8_len_split(s@, j as int);
        lemma_boundary_position(s@, utf8_len(s@) - n, j as int);
    }
    let v = slice_chars(s, j, s.len());
    assert(v@ =~= s@.skip(j as int));
    Some(v)
}

/// Character position of byte offset `b` of `s`, or `None` when `b` is not
/// a character boundary.
pub fn boundary_position(s: &[char], b: usize) -> (r: Option<usize>)
    ensures
        r matches Some(k) ==> k <= s@.len() && utf8_len(s@.take(k as int)) == b,
        r is None ==> !is_boundary(s@, b as int),
{
    let mut acc: usize = 0;
    let mut k: usize = 0;
    assert(s@.take(0) =~= Seq::<char>::empty());
    while k < s.len() && acc < b
        invariant
            k <= s.len(),
            acc == utf8_len(s@.take(k as int)),
            acc <= b,
        decreases s.len() - k,
    {
        proof {
            lemma_utf8_len_take(s@, k as int);
        }
        let w = char_width_exec(s[k]);
        if w > b - acc {
            proof {
                assert forall|j: int| 0 <= j <= s@.len() implies #[trigger] utf8_len(s@.take(j))
                    != b by {
                    if j <= k {
                        lemma_utf8_len_mono(s@, j, k as int);
                    } else {
                        lemma_utf8_len_mono(s@, k + 1, j);
                    }
                }
            }
            return None;
        }
        acc = acc + w;
        k += 1;
    }
    if acc == b {
        Some(k)
    } else {
        proof {
            assert(k == s.len());
            assert forall|j: int| 0 <= j <= s@.len() implies #[trigger] utf8_len(s@.take(j)) != b by {
                lemma_utf8_len_mono(s@, j, k as int);
            }
        }
        None
    }
}

/// The elements of `s` from `a` up to `b`.
pub fn slice_chars(s: &[char], a: usize, b: usize) -> (r: Vec<char>)
    requires
        a <= b <= s@.len(),
    ensures
        r@ == s@.subrange(a as int, b as int),
{
    let mut r: Vec<char> = Vec::new();
    let mut k = a;
    while k < b
        invariant
            a <= k <= b <= s@.len(),
            r@ == s@.subrange(a as int, k as int),
        decreases b - k,
    {
        r.push(s[k]);
        assert(r@ =~= s@.subrange(a as int, k + 1));
        k += 1;
    }
    r
}

/// Equality of character sequences.
pub fn eq_chars(a: &[char], b: &[char]) -> (r: bool)
    ensures
        r == (a@ == b@),
{
    if a.len() != b.len() {
        return false;
    }
    let r = starts_with_exec(a, b);
    assert(a@.take(b@.len() as int) =~= a@);
    r
}

/// Equality of two strings.
pub fn str_eq(a: &str, b: &str) -> (r: bool)
    ensures
        r == (a@ == b@),
{
    let x = chars_of(a);
    let y = chars_of(b);
    eq_chars(&x, &y)
}

/// The view of an optional string, or `d` when absent (`unwrap_or`).
pub open spec fn opt_or(o: Option<String>, d: Seq<char>) -> Seq<char> {
    match o {
        Some(s) => s@,
        None => d,
    }
}

/// The characters of an optional string, or of `d` when absent.
pub fn opt_or_exec(o: &Option<String>, d: &str) -> (r: Vec<char>)
    ensures
        r@ == opt_or(*o, d@),
{
    match o {
        Some(s) => chars_of(s.as_str()),
        None => chars_of(d),
    }
}

/// Whether `pat` occurs in `s` at `i`.
pub fn occurs_at_exec(s: &[char], pat: &[char], i: usize) -> (b: bool)
    ensures
        b == occurs_at(s@, pat@, i as int),
{
    if i > s.len() || pat.len() > s.len() - i {
        return false;
    }
    let mut j: usize = 0;
    while j < pat.len()
        invariant
            j <= pat.len(),
            i + pat.len() <= s.len(),
            forall|k: int| 0 <= k < j ==> s@[i + k] == pat@[k],
        decreases pat.len() - j,
    {
        if s[i + j] != pat[j] {
            assert(s@.subrange(i as int, i + pat.len())[j as int] != pat@[j as int]);
            return false;
        }
        j += 1;
    }
    assert(s@.subrange(i as int, i + pat.len()) =~= pat@);
    true
}

/// Whether `s` begins with `p`.
pub fn starts_with_exec(s: &[char], p: &[char]) -> (b: bool)
    ensures
        b == starts_with(s@, p@),
{
    let r = occurs_at_exec(s, p, 0);
    assert(s@.subrange(0, p@.len() as int) =~= s@.take(p@.len() as int));
    r
}

/// Whether `s` ends with `p`.
pub fn ends_with_exec(s: &[char], p: &[char]) -> (b: bool)
    ensures
        b == ends_with(s@, p@),
{
    if p.len() > s.len() {
        return false;
    }
    let r = occurs_at_exec(s, p, s.len() - p.len());
    assert(s@.subrange(s.len() - p.len(), s.len() as int) =~= s@.skip(s.len() - p.len()));
    r
}

/// First occurrence of `pat` in `s` at or after `from`.
pub fn find_from_exec(s: &[char], pat: &[char], from: usize) -> (r: Option<usize>)
    ensures
        r matches Some(i) ==> find_from(s@, pat@, from as int) == Some(i as int),
        r is None ==> find_from(s@, pat@, from as int) is None,
{
    if pat.len() > s.len() || from > s.len() - pat.len() {
        return None;
    }
    let last = s.len() - pat.len();
    let mut i = from;
    loop
        invariant
            from <= i <= last,
            last + pat.len() == s.len(),
            find_from(s@, pat@, from as int) == find_from(s@, pat@, i as int),
        decreases last - i,
    {
        if occurs_at_exec(s, pat, i) {
            return Some(i);
        }
        if i == last {
            assert(find_from(s@, pat@, i + 1) is None);
            return None;
        }
        i += 1;
    }
}

/// Whether `pat` occurs anywhere in `s`.
pub fn contains_exec(s: &[char], pat: &[char]) -> (b: bool)
    ensures
        b == contains(s@, pat@),
{
    let r = find_from_exec(s, pat, 0);
    proof {
        lemma_find_from_spec(s@, pat@, 0);
    }
    r.is_some()
}

/// `find_from` finds the first occurrence at or after `from`.
pub proof fn lemma_find_from_spec(s: Seq<char>, pat: Seq<char>, from: int)
    requires
        0 <= from,
    ensures
        find_from(s, pat, from) matches Some(i) ==> from <= i && occurs_at(s, pat, i) && forall|
            k: int,
        | from <= k < i ==> !#[trigger] occurs_at(s, pat, k),
        find_from(s, pat, from) is None ==> forall|k: int|
            from <= k ==> !#[trigger] occurs_at(s, pat, k),
    decreases s.len() + 1 - from,
{
    if from + pat.len() > s.len() {
    } else if occurs_at(s, pat, from) {
    } else {
        lemma_find_from_spec(s, pat, from + 1);
    }
}

/// Every occurrence of the non-empty `pat` replaced by `rep`.
pub fn replace_all_exec(s: &[char], pat: &[char], rep: &[char]) -> (r: Vec<char>)
    requires
        pat@.len() > 0,
    ensures
        r@ == replace_all(s@, pat@, rep@),
{
    let mut out: Vec<char> = Vec::new();
    let mut i: usize = 0;
    assert(s@.skip(0) =~= s@);
    while i < s.len()
        invariant
            i <= s.len(),
            pat@.len() > 0,
            out@ + replace_all(s@.skip(i as int), pat@, rep@) == replace_all(s@, pat@, rep@),
        decreases s.len() - i,
    {
        let ghost rest = s@.skip(i as int);
        if occurs_at_exec(s, pat, i) {
            assert(rest.take(pat@.len() as int) =~= s@.subrange(i as int, i + pat@.len()));
            assert(rest.skip(pat@.len() as int) =~= s@.skip(i + pat@.len()));
            let ghost before = out@;
            extend_chars(&mut out, rep);
            assert(before + (rep@ + replace_all(s@.skip(i + pat@.len()), pat@, rep@))
                =~= out@ + replace_all(s@.skip(i + pat@.len()), pat@, rep@));
            i = i + pat.len();
        } else {
            proof {
                if rest.len() >= pat@.len() {
                    assert(rest.take(pat@.len() as int) =~= s@.subrange(i as int, i + pat@.len()));
                }
            }
            assert(rest.skip(1) =~= s@.skip(i + 1));
            let ghost before = out@;
            out.push(s[i]);
            assert(before + (seq![s@[i as int]] + replace_all(s@.skip(i + 1), pat@, rep@))
                =~= out@ + replace_all(s@.skip(i + 1), pat@, rep@));
            i += 1;
        }
    }
    assert(s@.skip(s.len() as int) =~= Seq::<char>::empty());
    assert(out@ + Seq::<char>::empty() =~= out@);
    out
}


/// The views of a sequence of character vectors.
pub open spec fn vviews(v: Seq<Vec<char>>) -> Seq<Seq<char>> {
    v.map_values(|w: Vec<char>| w@)
}

/// The views of a sequence of `String`s.
pub open spec fn strs(v: Seq<String>) -> Seq<Seq<char>> {
    v.map_values(|t: String| t@)
}

/// Splits `s` into its whitespace-separated words.
pub fn split_ws_exec(s: &[char]) -> (r: Vec<Vec<char>>)
    ensures
        vviews(r@) == split_ws(s@),
{
    let mut out: Vec<Vec<char>> = Vec::new();
    let mut cur: Vec<char> = Vec::new();
    let mut i: usize = 0;
    assert(s@.skip(0) =~= s@);
    while i < s.len()
        invariant
            i <= s.len(),
            vviews(out@) + words_from(s@.skip(i as int), cur@) == split_ws(s@),
        decreases s.len() - i,
    {
        let ghost rest = s@.skip(i as int);
        assert(rest.drop_first() =~= s@.skip(i + 1));
        let c = s[i];
        if is_ws_exec(c) {
            if cur.len() > 0 {
                let ghost before = vviews(out@);
                let w = cur;
                out.push(w);
                cur = Vec::new();
                assert(vviews(out@) =~= before.push(w@));
                assert(before + (seq![w@] + words_from(s@.skip(i + 1), cur@)) =~= vviews(out@)
                    + words_from(s@.skip(i + 1), cur@));
            } else {
                assert(cur@ =~= Seq::<char>::empty());
            }
        } else {
            cur.push(c);
        }
        i += 1;
    }
    assert(s@.skip(s.len() as int) =~= Seq::<char>::empty());
    if cur.len() > 0 {
        let ghost before = vviews(out@);
        let w = cur;
        out.push(w);
        assert(vviews(out@) =~= before.push(w@));
        assert(before + seq![w@] =~= vviews(out@));
    } else {
        assert(vviews(out@) + Seq::<Seq<char>>::empty() =~= vviews(out@));
    }
    out
}

/// The strings holding each word.
pub fn strings_of(words: &Vec<Vec<char>>) -> (r: Vec<String>)
    ensures
        strs(r@) == vviews(words@),
{
    let mut r: Vec<String> = Vec::new();
    let mut i: usize = 0;
    while i < words.len()
        invariant
            i <= words.len(),
            strs(r@) == vviews(words@).take(i as int),
        decreases words.len() - i,
    {
        let t = string_of(words[i].as_slice());
        let ghost before = strs(r@);
        r.push(t);
        assert(strs(r@) =~= before.push(words@[i as int]@));
        assert(vviews(words@).take(i + 1) =~= vviews(words@).take(i as int).push(words@[i as int]@));
        i += 1;
    }
    assert(vviews(words@).take(words.len() as int) =~= vviews(words@));
    r
}

/// Removes leading and trailing whitespace.
pub fn trim_exec(s: &[char]) -> (r: Vec<char>)
    ensures
        r@ == trim(s@),
{
    let n = s.len();
    let mut a: usize = 0;
    assert(s@.skip(0) =~= s@);
    while a < n && is_ws_exec(s[a])
        invariant
            a <= n,
            n == s@.len(),
            lead_ws(s@) == a + lead_ws(s@.skip(a as int)),
        decreases n - a,
    {
        assert(s@.skip(a as int).drop_first() =~= s@.skip(a + 1));
        a += 1;
    }
    let ghost rest = s@.skip(a as int);
    assert(lead_ws(rest) == 0);
    let mut b: usize = n;
    assert(rest.take(rest.len() as int) =~= rest);
    while b > a && is_ws_exec(s[b - 1])
        invariant
            a <= b <= n,
            n == s@.len(),
            rest == s@.skip(a as int),
            trail_ws(rest) == (n - b) + trail_ws(rest.take(b - a)),
        decreases b,
    {
        assert(rest.take(b - a).drop_last() =~= rest.take(b - a - 1));
        b -= 1;
    }
    assert(trail_ws(rest.take(b - a)) == 0);
    let mut r: Vec<char> = Vec::new();
    let mut k: usize = a;
    while k < b
        invariant
            a <= k <= b <= n,
            n == s@.len(),
            r@ == s@.subrange(a as int, k as int),
        decreases b - k,
    {
        r.push(s[k]);
        assert(r@ =~= s@.subrange(a as int, k + 1));
        k += 1;
    }
    assert(r@ =~= rest.take(rest.len() - trail_ws(rest)));
    r
}

/// ASCII lowercase of one character.
pub fn lower_char_exec(c: char) -> (r: char)
    ensures
        r == lower_char(c),
{
    if 'A' <= c && c <= 'Z' {
        let u = (c as u8) + 32;
        u as char
    } else {
        c
    }
}

/// ASCII lowercase of every character.
pub fn ascii_lower_exec(s: &[char]) -> (r: Vec<char>)
    ensures
        r@ == ascii_lower(s@),
{
    let mut r: Vec<char> = Vec::new();
    let mut i: usize = 0;
    while i < s.len()
        invariant
            i <= s.len(),
            r@ == ascii_lower(s@.take(i as int)),
        decreases s.len() - i,
    {
        r.push(lower_char_exec(s[i]));
        assert(r@ =~= ascii_lower(s@.take(i + 1)));
        i += 1;
    }
    assert(s@.take(s.len() as int) =~= s@);
    r
}

/// The digit character of `d < 10`.
pub fn digit_char_exec(d: u64) -> (c: char)
    requires
        d < 10,
    ensures
        c == digit_char(d as nat),
{
    let b: u8 = 48 + (d as u8);
    b as char
}

/// Decimal representation of `n`.
pub fn dec_u64(n: u64) -> (r: Vec<char>)
    ensures
        r@ == dec_nat(n as nat),
    decreases n,
{
    if n < 10 {
        let mut v: Vec<char> = Vec::new();
        v.push(digit_char_exec(n));
        assert(v@ =~= seq![digit_char(n as nat)]);
        v
    } else {
        let mut v = dec_u64(n / 10);
        v.push(digit_char_exec(n % 10));
        v
    }
}

/// Decimal representation of `n`, with a minus sign when negative.
pub fn dec_i64(n: i64) -> (r: Vec<char>)
    ensures
        r@ == dec_int(n as int),
{
    if n < 0 {
        let m: u64 = (-(n as i128)) as u64;
        let d = dec_u64(m);
        let mut r: Vec<char> = Vec::new();
        r.push('-');
        extend_chars(&mut r, &d);
        assert(r@ =~= seq!['-'] + dec_nat((-(n as int)) as nat));
        r
    } else {
        dec_u64(n as u64)
    }
}

/// Pads `s` on the right with spaces to `w` characters.
pub fn pad_right_exec(s: &[char], w: usize) -> (r: Vec<char>)
    ensures
        r@ == pad_right(s@, w as nat),
{
    let mut r: Vec<char> = Vec::new();
    extend_chars(&mut r, s);
    assert(r@ =~= s@);
    if s.len() >= w {
        return r;
    }
    let mut k: usize = s.len();
    while k < w
        invariant
            s@.len() <= k <= w,
            r@ == s@ + Seq::new((k - s@.len()) as nat, |i: int| ' '),
        decreases w - k,
    {
        r.push(' ');
        assert(r@ =~= s@ + Seq::new((k + 1 - s@.len()) as nat, |i: int| ' '));
        k += 1;
    }
    r
}

/// Joins `parts` with `sep` between consecutive elements.
pub fn join_exec(parts: &Vec<Vec<char>>, sep: &[char]) -> (r: Vec<char>)
    ensures
        r@ == join(vviews(parts@), sep@),
{
    let mut r: Vec<char> = Vec::new();
    let mut i: usize = 0;
    assert(vviews(parts@).take(0) =~= Seq::<Seq<char>>::empty());
    while i < parts.len()
        invariant
            i <= parts.len(),
            r@ == join(vviews(parts@).take(i as int), sep@),
        decreases parts.len() - i,
    {
        let ghost pre = vviews(parts@).take(i as int);
        let ghost nxt = vviews(parts@).take(i + 1);
        assert(nxt.drop_last() =~= pre);
        if i > 0 {
            extend_chars(&mut r, sep);
        } else {
            assert(r@ =~= Seq::<char>::empty());
        }
        extend_chars(&mut r, &parts[i]);
        assert(r@ =~= join(nxt, sep@));
        i += 1;
    }
    assert(vviews(parts@).take(parts.len() as int) =~= vviews(parts@));
    r
}


/// The present values of a sequence of optional strings, in order.
pub open spec fn present(v: Seq<Option<String>>) -> Seq<Seq<char>>
    decreases v.len(),
{
    if v.len() == 0 {
        seq![]
    } else {
        let p = present(v.drop_last());
        match v.last() {
            Some(s) => p.push(s@),
            None => p,
        }
    }
}

/// The present values of `v`, in order.
pub fn present_exec(v: &[Option<String>]) -> (r: Vec<Vec<char>>)
    ensures
        vviews(r@) == present(v@),
{
    let mut out: Vec<Vec<char>> = Vec::new();
    let mut i: usize = 0;
    assert(v@.take(0) =~= Seq::<Option<String>>::empty());
    while i < v.len()
        invariant
            i <= v.len(),
            vviews(out@) == present(v@.take(i as int)),
        decreases v.len() - i,
    {
        assert(v@.take(i + 1).drop_last() =~= v@.take(i as int));
        assert(v@.take(i + 1).last() == v@[i as int]);
        match &v[i] {
            Some(s) => {
                let ghost before = vviews(out@);
                out.push(chars_of(s.as_str()));
                assert(vviews(out@) =~= before.push(s@));
            },
            None => {},
        }
        i += 1;
    }
    assert(v@.take(v.len() as int) =~= v@);
    out
}

/// Appends one line to `out`.
pub fn push_line(out: &mut Vec<String>, line: &[char])
    ensures
        strs(final(out)@) == strs(old(out)@).push(line@),
{
    out.push(string_of(line));
    assert(strs(out@) =~= strs(old(out)@).push(line@));
}

/// Appends the lines of `more` to `out`.
pub fn append_lines(out: &mut Vec<String>, more: Vec<String>)
    ensures
        strs(final(out)@) == strs(old(out)@) + strs(more@),
{
    let mut i: usize = 0;
    while i < more.len()
        invariant
            i <= more.len(),
            strs(out@) == strs(old(out)@) + strs(more@).take(i as int),
        decreases more.len() - i,
    {
        let ghost before = strs(out@);
        out.push(more[i].clone());
        assert(strs(out@) =~= before.push(more@[i as int]@));
        assert(strs(more@).take(i + 1) =~= strs(more@).take(i as int).push(more@[i as int]@));
        i += 1;
    }
    assert(strs(more@).take(more.len() as int) =~= strs(more@));
}

/// `s` padded on the left with spaces to at least `w` characters
/// (`format!("{:>w$}")`).
pub open spec fn pad_left(s: Seq<char>, w: nat) -> Seq<char> {
    if s.len() >= w {
        s
    } else {
        Seq::new((w - s.len()) as nat, |i: int| ' ') + s
    }
}

/// Pads `s` on the left with spaces to `w` characters.
pub fn pad_left_exec(s: &[char], w: usize) -> (r: Vec<char>)
    ensures
        r@ == pad_left(s@, w as nat),
{
    let mut r: Vec<char> = Vec::new();
    if s.len() < w {
        let mut k: usize = 0;
        while k < w - s.len()
            invariant
                s@.len() < w,
                k <= w - s@.len(),
                r@ == Seq::new(k as nat, |i: int| ' '),
            decreases w - s.len() - k,
        {
            r.push(' ');
            assert(r@ =~= Seq::new((k + 1) as nat, |i: int| ' '));
            k += 1;
        }
    }
    extend_chars(&mut r, s);
    assert(r@ =~= pad_left(s@, w as nat));
    r
}

/// `s` without any trailing `c` (`str::trim_end_matches` with a `char`).
pub open spec fn trim_end_char(s: Seq<char>, c: char) -> Seq<char>
    decreases s.len(),
{
    if s.len() > 0 && s.last() == c {
        trim_end_char(s.drop_last(), c)
    } else {
        s
    }
}

/// Removes every trailing `c`.
pub fn trim_end_char_exec(s: &[char], c: char) -> (r: Vec<char>)
    ensures
        r@ == trim_end_char(s@, c),
{
    let mut j: usize = s.len();
    assert(s@.take(s@.len() as int) =~= s@);
    while j > 0 && s[j - 1] == c
        invariant
            j <= s.len(),
            trim_end_char(s@, c) == trim_end_char(s@.take(j as int), c),
        decreases j,
    {
        assert(s@.take(j as int).drop_last() =~= s@.take(j - 1));
        j -= 1;
    }
    let r = slice_chars(s, 0, j);
    assert(r@ =~= s@.take(j as int));
    r
}

} // verus!
