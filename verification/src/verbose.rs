//! Verbosity of HTTP transcripts and the masking of credential headers.
use vstd::prelude::*;

use crate::repo::{lemma_split_on_nonempty, split_on, split_on_exec};
use crate::text::{
    dec_int, dec_u64, extend_str, push_line, strs, vviews,
    ascii_lower, ascii_lower_exec, byte_suffix, byte_suffix_exec, utf8_len_gt, chars_of, ends_with,
    ends_with_exec, eq_chars, extend_chars, is_boundary, slice_chars,
    starts_with, starts_with_exec, string_of, trim, trim_exec, utf8_len, contains,
    lemma_boundary_position, lemma_utf8_len_split, lemma_utf8_len_ascii, lemma_utf8_len_add,
    lemma_contains_shorter, lead_ws, trail_ws, is_ws,
};

verus! {

/// Verbosity level for HTTP transcripts.
#[derive(Debug, Clone, Copy, Default)]
pub struct VerboseConfig {
    /// 0 = off, 1 = headers only, 2+ = headers + bodies.
    pub level: u8,
    /// When false, redact `Authorization` and `Cookie` header values.
    pub show_secrets: bool,
}

impl VerboseConfig {
    /// Transcripts are printed at all.
    pub fn is_on(&self) -> (r: bool)
        ensures
            r == (self.level > 0),
    {
        self.level > 0
    }

    /// Bodies are printed too.
    pub fn show_body(&self) -> (r: bool)
        ensures
            r == (self.level >= 2),
    {
        self.level >= 2
    }
}

/// The process-wide verbose setting: empty until the first `set_config`.
pub struct VerboseSlot {
    pub cfg: Option<VerboseConfig>,
}

impl VerboseSlot {
    /// A slot that holds no configuration yet.
    pub fn new() -> (r: Self)
        ensures
            r.cfg is None,
    {
        VerboseSlot { cfg: None }
    }
}

/// Install the verbose configuration. The first call wins: later calls leave
/// the slot unchanged.
pub fn set_config(slot: &mut VerboseSlot, cfg: VerboseConfig)
    ensures
        final(slot).cfg == (if old(slot).cfg is None {
            Some(cfg)
        } else {
            old(slot).cfg
        }),
{
    if slot.cfg.is_none() {
        slot.cfg = Some(cfg);
    }
}

/// Current verbose configuration, or `None` if not set.
pub fn config(slot: &VerboseSlot) -> (r: Option<VerboseConfig>)
    ensures
        r == slot.cfg,
{
    slot.cfg
}

/// Once a configuration is installed, installing another changes nothing: the
/// first call wins.
pub proof fn lemma_first_config_wins(
    s0: VerboseSlot,
    s1: VerboseSlot,
    s2: VerboseSlot,
    a: VerboseConfig,
    b: VerboseConfig,
)
    requires
        s0.cfg is None,
        s1.cfg == (if s0.cfg is None {
            Some(a)
        } else {
            s0.cfg
        }),
        s2.cfg == (if s1.cfg is None {
            Some(b)
        } else {
            s1.cfg
        }),
    ensures
        s2.cfg == Some(a),
{
}

/// `name` is a header whose value carries a credential: `Authorization`,
/// `Cookie`, or any name ending in `-token`, compared case-insensitively.
pub open spec fn is_secret_header(name: Seq<char>) -> bool {
    let lower = ascii_lower(name);
    lower == "authorization"@ || lower == "cookie"@ || ends_with(lower, "-token"@)
}

/// The masked form of a secret: `***` followed by its last four bytes when the
/// trimmed secret is longer than eight bytes, else `***` alone.
pub open spec fn mask_secret_spec(s: Seq<char>) -> Seq<char> {
    let t = trim(s);
    if utf8_len(t) > 8 {
        "***"@ + byte_suffix(t, utf8_len(t) - 4)
    } else {
        "***"@
    }
}

/// `mask_secret` does not slice inside a character on `s`.
pub open spec fn mask_secret_ok(s: Seq<char>) -> bool {
    let t = trim(s);
    utf8_len(t) > 8 ==> is_boundary(t, utf8_len(t) - 4)
}

/// The value shown for a header: secrets are masked, keeping a `token ` or
/// `Bearer ` scheme word visible.
pub open spec fn mask_header_spec(name: Seq<char>, value: Seq<char>) -> Seq<char> {
    if !is_secret_header(name) {
        value
    } else if starts_with(value, "token "@) {
        "token "@ + mask_secret_spec(value.skip("token "@.len() as int))
    } else if starts_with(value, "Bearer "@) {
        "Bearer "@ + mask_secret_spec(value.skip("Bearer "@.len() as int))
    } else {
        mask_secret_spec(value)
    }
}

/// Masking the header value slices only at character boundaries.
pub open spec fn mask_header_ok(name: Seq<char>, value: Seq<char>) -> bool {
    is_secret_header(name) ==> if starts_with(value, "token "@) {
        mask_secret_ok(value.skip("token "@.len() as int))
    } else if starts_with(value, "Bearer "@) {
        mask_secret_ok(value.skip("Bearer "@.len() as int))
    } else {
        mask_secret_ok(value)
    }
}

/// Whether the header called `name` carries a credential.
pub fn is_secret_header_exec(name: &str) -> (r: bool)
    ensures
        r == is_secret_header(name@),
{
    let n = chars_of(name);
    let lower = ascii_lower_exec(&n);
    let auth = chars_of("authorization");
    let cookie = chars_of("cookie");
    let tok = chars_of("-token");
    eq_chars(&lower, &auth) || eq_chars(&lower, &cookie) || ends_with_exec(&lower, &tok)
}

/// Masks a secret, leaving the last four bytes visible when it is long.
pub fn mask_secret(s: &[char]) -> (r: Vec<char>)
    requires
        mask_secret_ok(s@),
    ensures
        r@ == mask_secret_spec(s@),
{
    let t = trim_exec(s);
    let mut r = chars_of("***");
    if utf8_len_gt(&t, 8) {
        match byte_suffix_exec(&t, 4) {
            Some(tail) => {
                extend_chars(&mut r, &tail);
            },
            None => {
                assert(false);
            },
        }
    }
    r
}

/// Mask credential-bearing header values, leaving the last 4 bytes visible
/// when the value is long enough (so users can tell tokens apart).
pub fn mask_header_value(name: &str, value: &str) -> (r: String)
    requires
        mask_header_ok(name@, value@),
    ensures
        r@ == mask_header_spec(name@, value@),
{
    let v = chars_of(value);
    if !is_secret_header_exec(name) {
        return string_of(&v);
    }
    let tok = chars_of("token ");
    let bearer = chars_of("Bearer ");
    if starts_with_exec(&v, &tok) {
        let rest = slice_chars(&v, tok.len(), v.len());
        assert(rest@ =~= v@.skip(tok@.len() as int));
        let m = mask_secret(&rest);
        let mut out = tok;
        extend_chars(&mut out, &m);
        string_of(&out)
    } else if starts_with_exec(&v, &bearer) {
        let rest = slice_chars(&v, bearer.len(), v.len());
        assert(rest@ =~= v@.skip(bearer@.len() as int));
        let m = mask_secret(&rest);
        let mut out = bearer;
        extend_chars(&mut out, &m);
        string_of(&out)
    } else {
        let m = mask_secret(&v);
        string_of(&m)
    }
}

/// A long credential is never shown whole: its masked form takes fewer
/// bytes than the credential, so it cannot hold it.
pub proof fn lemma_mask_hides_secret(s: Seq<char>)
    requires
        mask_secret_ok(s),
        utf8_len(trim(s)) > 8,
    ensures
        !contains(mask_secret_spec(s), trim(s)),
{
    let t = trim(s);
    let k = choose|k: int| 0 <= k <= t.len() && #[trigger] utf8_len(t.take(k)) == utf8_len(t) - 4;
    lemma_boundary_position(t, utf8_len(t) - 4, k);
    lemma_utf8_len_split(t, k);
    let m = mask_secret_spec(s);
    reveal_strlit("***");
    lemma_utf8_len_ascii("***"@);
    lemma_utf8_len_add("***"@, t.skip(k));
    assert(utf8_len(m) == 7);
    if contains(m, t) {
        lemma_contains_shorter(m, t);
    }
}


proof fn lemma_lead_ws_bound(s: Seq<char>)
    ensures
        lead_ws(s) <= s.len(),
    decreases s.len(),
{
    if s.len() > 0 && is_ws(s[0]) {
        lemma_lead_ws_bound(s.drop_first());
    }
}

proof fn lemma_trail_ws_bound(s: Seq<char>)
    ensures
        trail_ws(s) <= s.len(),
    decreases s.len(),
{
    if s.len() > 0 && is_ws(s.last()) {
        lemma_trail_ws_bound(s.drop_last());
    }
}

/// Every character of `s` is ASCII.
pub open spec fn all_ascii(s: Seq<char>) -> bool {
    forall|i: int| 0 <= i < s.len() ==> (#[trigger] s[i] as u32) < 0x80
}

proof fn lemma_trim_ascii(s: Seq<char>)
    requires
        all_ascii(s),
    ensures
        all_ascii(trim(s)),
{
    lemma_lead_ws_bound(s);
    let a = lead_ws(s) as int;
    let rest = s.skip(a);
    lemma_trail_ws_bound(rest);
    let t = trim(s);
    assert forall|i: int| 0 <= i < t.len() implies (#[trigger] t[i] as u32) < 0x80 by {
        assert(t[i] == s[a + i]);
    }
}

/// The mask of an ASCII secret, counted in characters: `***`, followed by
/// the last four characters of the trimmed secret when it is longer than
/// eight.
pub open spec fn ascii_mask(s: Seq<char>) -> Seq<char> {
    let t = trim(s);
    if t.len() > 8 {
        "***"@ + t.skip(t.len() - 4)
    } else {
        "***"@
    }
}

proof fn lemma_mask_secret_ascii(s: Seq<char>)
    requires
        all_ascii(s),
    ensures
        mask_secret_ok(s),
        mask_secret_spec(s) == ascii_mask(s),
{
    lemma_trim_ascii(s);
    let t = trim(s);
    lemma_utf8_len_ascii(t);
    if t.len() > 8 {
        let k = t.len() - 4;
        let p = t.take(k);
        assert forall|i: int| 0 <= i < p.len() implies (#[trigger] p[i] as u32) < 0x80 by {
            assert(p[i] == t[i]);
        }
        lemma_utf8_len_ascii(p);
        assert(utf8_len(t.take(k)) == k);
        lemma_boundary_position(t, k, k);
    }
}

/// The scheme word that stays visible in a credential header value.
pub open spec fn header_scheme(value: Seq<char>) -> Seq<char> {
    if starts_with(value, "token "@) {
        "token "@
    } else if starts_with(value, "Bearer "@) {
        "Bearer "@
    } else {
        ""@
    }
}

/// The secret of a credential header value: what follows the scheme word,
/// trimmed.
pub open spec fn secret_part(value: Seq<char>) -> Seq<char> {
    trim(value.skip(header_scheme(value).len() as int))
}

/// Masking an ASCII header value never cuts inside a character, and gives,
/// for a credential header, the scheme word, `***` and at most the last four
/// characters of the secret (those four when the trimmed secret is longer
/// than eight characters); any other header is shown as it is.
pub proof fn lemma_mask_header_ascii(name: Seq<char>, value: Seq<char>)
    requires
        all_ascii(value),
    ensures
        mask_header_ok(name, value),
        mask_header_spec(name, value) == (if is_secret_header(name) {
            header_scheme(value) + ascii_mask(value.skip(header_scheme(value).len() as int))
        } else {
            value
        }),
{
    reveal_strlit("token ");
    reveal_strlit("Bearer ");
    reveal_strlit("");
    let h = header_scheme(value);
    let rest = value.skip(h.len() as int);
    if h.len() <= value.len() {
        assert forall|i: int| 0 <= i < rest.len() implies (#[trigger] rest[i] as u32) < 0x80 by {
            assert(rest[i] == value[h.len() + i]);
        }
    }
    if !starts_with(value, "token "@) && !starts_with(value, "Bearer "@) {
        assert(rest =~= value);
        assert(h + ascii_mask(rest) =~= ascii_mask(value));
    }
    lemma_mask_secret_ascii(rest);
}

/// Two ASCII values of a credential header with the same scheme word, whose
/// secrets are both longer than eight characters (or both not) and end in
/// the same four characters, are masked alike: nothing else of the secret
/// shows.
pub proof fn lemma_mask_header_shows_last_four(name: Seq<char>, v1: Seq<char>, v2: Seq<char>)
    requires
        is_secret_header(name),
        all_ascii(v1),
        all_ascii(v2),
        header_scheme(v1) == header_scheme(v2),
        (secret_part(v1).len() > 8) == (secret_part(v2).len() > 8),
        secret_part(v1).len() > 8 ==> secret_part(v1).skip(secret_part(v1).len() - 4)
            == secret_part(v2).skip(secret_part(v2).len() - 4),
    ensures
        mask_header_spec(name, v1) == mask_header_spec(name, v2),
{
    lemma_mask_header_ascii(name, v1);
    lemma_mask_header_ascii(name, v2);
}


/// A line without the carriage return that ended it.
pub open spec fn strip_cr(l: Seq<char>) -> Seq<char> {
    if l.len() > 0 && l.last() == '\r' {
        l.drop_last()
    } else {
        l
    }
}

/// The lines of a text as `str::lines` gives them: the pieces between
/// newlines, each without a carriage return before its newline, and the
/// piece after the last newline when it is not empty.
pub open spec fn text_lines(s: Seq<char>) -> Seq<Seq<char>> {
    let parts = split_on(s, '\n');
    parts.take(parts.len() - 1).map_values(|l: Seq<char>| strip_cr(l)) + (if parts.last().len() > 0 {
        seq![parts.last()]
    } else {
        seq![]
    })
}

/// The lines of a text, as `str::lines` gives them.
pub fn text_lines_exec(s: &str) -> (r: Vec<String>)
    ensures
        strs(r@) == text_lines(s@),
{
    let v = chars_of(s);
    let parts = split_on_exec(&v, '\n');
    proof {
        lemma_split_on_nonempty(v@, '\n');
    }
    let n = parts.len();
    let ghost ps = vviews(parts@);
    let mut out: Vec<String> = Vec::new();
    let mut i: usize = 0;
    while i + 1 < n
        invariant
            n == parts@.len(),
            n >= 1,
            i < n,
            ps == vviews(parts@),
            ps == split_on(s@, '\n'),
            strs(out@) == ps.take(i as int).map_values(|l: Seq<char>| strip_cr(l)),
        decreases n - i,
    {
        let p = &parts[i];
        let line = if p.len() > 0 && p[p.len() - 1] == '\r' {
            slice_chars(p, 0, p.len() - 1)
        } else {
            slice_chars(p, 0, p.len())
        };
        assert(line@ =~= strip_cr(ps[i as int]));
        let ghost before = strs(out@);
        push_line(&mut out, &line);
        assert(ps.take(i + 1).map_values(|l: Seq<char>| strip_cr(l)) =~= ps.take(i as int).map_values(
            |l: Seq<char>| strip_cr(l),
        ).push(strip_cr(ps[i as int])));
        i += 1;
    }
    let ghost head = strs(out@);
    if parts[n - 1].len() > 0 {
        push_line(&mut out, &parts[n - 1]);
        assert(strs(out@) =~= text_lines(s@));
    } else {
        assert(strs(out@) =~= text_lines(s@));
    }
    out
}

/// How a header value is shown in a transcript: whole with
/// `--show-secrets`, else masked.
pub open spec fn shown_header(name: Seq<char>, value: Seq<char>, show_secrets: bool) -> Seq<char> {
    if show_secrets {
        value
    } else {
        mask_header_spec(name, value)
    }
}

/// The header values can be shown: masking slices them only at character
/// boundaries.
pub open spec fn headers_ok(headers: Seq<(String, String)>, show_secrets: bool) -> bool {
    !show_secrets ==> forall|i: int|
        0 <= i < headers.len() ==> mask_header_ok((#[trigger] headers[i]).0@, headers[i].1@)
}

/// The header lines of a transcript, each after `mark` (`>` or `<`).
pub open spec fn header_lines(mark: Seq<char>, headers: Seq<(String, String)>, show_secrets: bool) -> Seq<
    Seq<char>,
> {
    Seq::new(
        headers.len(),
        |i: int| mark + " "@ + headers[i].0@ + ": "@ + shown_header(headers[i].0@, headers[i].1@, show_secrets),
    )
}

/// The lines of a text block in a transcript, each after `mark`, and a
/// closing `mark`.
pub open spec fn block_lines(mark: Seq<char>, text: Seq<char>) -> Seq<Seq<char>> {
    text_lines(text).map_values(|l: Seq<char>| mark + " "@ + l) + seq![mark]
}

/// The transcript of a request: the operation when known, the request
/// line (`target` is the path with its query), the host, the headers, a
/// closing `>`, and with bodies shown the text body.
pub open spec fn request_transcript_spec(
    op_id: Option<Seq<char>>,
    method: Seq<char>,
    target: Seq<char>,
    host: Option<Seq<char>>,
    headers: Seq<(String, String)>,
    body: Option<Seq<char>>,
    cfg: VerboseConfig,
) -> Seq<Seq<char>> {
    (match op_id {
        Some(id) => seq!["* operation: "@ + id],
        None => seq![],
    }) + seq!["> "@ + method + " "@ + target + " HTTP/1.1"@] + (match host {
        Some(h) => seq!["> Host: "@ + h],
        None => seq![],
    }) + header_lines(">"@, headers, cfg.show_secrets) + seq![">"@] + (match body {
        Some(b) => if cfg.level >= 2 {
            block_lines(">"@, b)
        } else {
            seq![]
        },
        None => seq![],
    })
}

/// Appends the header lines of a transcript.
fn push_header_lines(out: &mut Vec<String>, mark: &str, headers: &[(String, String)], show_secrets: bool)
    requires
        headers_ok(headers@, show_secrets),
    ensures
        strs(final(out)@) == strs(old(out)@) + header_lines(mark@, headers@, show_secrets),
{
    let ghost base = strs(out@);
    let mut i: usize = 0;
    while i < headers.len()
        invariant
            i <= headers@.len(),
            headers_ok(headers@, show_secrets),
            strs(out@) == base + header_lines(mark@, headers@, show_secrets).take(i as int),
        decreases headers.len() - i,
    {
        let mut l = chars_of(mark);
        extend_str(&mut l, " ");
        extend_str(&mut l, headers[i].0.as_str());
        extend_str(&mut l, ": ");
        if show_secrets {
            extend_str(&mut l, headers[i].1.as_str());
        } else {
            let m = mask_header_value(headers[i].0.as_str(), headers[i].1.as_str());
            extend_str(&mut l, m.as_str());
        }
        let ghost before = strs(out@);
        push_line(out, &l);
        assert(header_lines(mark@, headers@, show_secrets).take(i + 1) =~= header_lines(
            mark@,
            headers@,
            show_secrets,
        ).take(i as int).push(l@));
        i += 1;
    }
    assert(header_lines(mark@, headers@, show_secrets).take(headers.len() as int) =~= header_lines(
        mark@,
        headers@,
        show_secrets,
    ));
}

/// Appends the lines of a text block and its closing mark.
fn push_block_lines(out: &mut Vec<String>, mark: &str, text: &str)
    ensures
        strs(final(out)@) == strs(old(out)@) + block_lines(mark@, text@),
{
    let ghost base = strs(out@);
    let lines = text_lines_exec(text);
    let ghost tl = text_lines(text@);
    let mut i: usize = 0;
    while i < lines.len()
        invariant
            i <= lines@.len(),
            strs(lines@) == tl,
            tl == text_lines(text@),
            strs(out@) == base + tl.map_values(|l: Seq<char>| mark@ + " "@ + l).take(i as int),
        decreases lines.len() - i,
    {
        let mut l = chars_of(mark);
        extend_str(&mut l, " ");
        extend_str(&mut l, lines[i].as_str());
        let ghost before = strs(out@);
        push_line(out, &l);
        assert(tl[i as int] == lines@[i as int]@);
        assert(tl.map_values(|l: Seq<char>| mark@ + " "@ + l).take(i + 1) =~= tl.map_values(
            |l: Seq<char>| mark@ + " "@ + l,
        ).take(i as int).push(l@));
        i += 1;
    }
    assert(tl.map_values(|l: Seq<char>| mark@ + " "@ + l).take(lines.len() as int) =~= tl.map_values(
        |l: Seq<char>| mark@ + " "@ + l,
    ));
    push_line(out, &chars_of(mark));
    assert(strs(out@) =~= base + block_lines(mark@, text@));
}

/// The transcript of a request, line by line, for standard error.
pub fn request_transcript(
    op_id: &Option<String>,
    method: &str,
    target: &str,
    host: &Option<String>,
    headers: &[(String, String)],
    body: &Option<String>,
    cfg: &VerboseConfig,
) -> (r: Vec<String>)
    requires
        headers_ok(headers@, cfg.show_secrets),
    ensures
        strs(r@) == request_transcript_spec(
            match op_id {
                Some(i) => Some(i@),
                None => None,
            },
            method@,
            target@,
            match host {
                Some(h) => Some(h@),
                None => None,
            },
            headers@,
            match body {
                Some(b) => Some(b@),
                None => None,
            },
            *cfg,
        ),
{
    let ghost op = match op_id {
        Some(i) => Some(i@),
        None => None,
    };
    let ghost hv = match host {
        Some(h) => Some(h@),
        None => None,
    };
    let ghost bv = match body {
        Some(b) => Some(b@),
        None => None,
    };
    let mut out: Vec<String> = Vec::new();
    match op_id {
        Some(id) => {
            let mut l = chars_of("* operation: ");
            extend_str(&mut l, id.as_str());
            push_line(&mut out, &l);
        },
        None => {},
    }
    let ghost s1 = match op {
        Some(id) => seq!["* operation: "@ + id],
        None => Seq::<Seq<char>>::empty(),
    };
    assert(strs(out@) =~= s1);
    let mut l = chars_of("> ");
    extend_str(&mut l, method);
    extend_str(&mut l, " ");
    extend_str(&mut l, target);
    extend_str(&mut l, " HTTP/1.1");
    push_line(&mut out, &l);
    let ghost s2 = s1 + seq!["> "@ + method@ + " "@ + target@ + " HTTP/1.1"@];
    assert(strs(out@) =~= s2);
    match host {
        Some(h) => {
            let mut hl = chars_of("> Host: ");
            extend_str(&mut hl, h.as_str());
            push_line(&mut out, &hl);
        },
        None => {},
    }
    let ghost s3 = s2 + match hv {
        Some(h) => seq!["> Host: "@ + h],
        None => Seq::<Seq<char>>::empty(),
    };
    assert(strs(out@) =~= s3);
    push_header_lines(&mut out, ">", headers, cfg.show_secrets);
    push_line(&mut out, &chars_of(">"));
    let ghost s4 = s3 + header_lines(">"@, headers@, cfg.show_secrets) + seq![">"@];
    assert(strs(out@) =~= s4);
    match body {
        Some(b) => {
            if cfg.show_body() {
                push_block_lines(&mut out, ">", b.as_str());
            }
        },
        None => {},
    }
    let ghost s5 = s4 + match bv {
        Some(b) => if cfg.level >= 2 {
            block_lines(">"@, b)
        } else {
            Seq::<Seq<char>>::empty()
        },
        None => Seq::<Seq<char>>::empty(),
    };
    assert(strs(out@) =~= s5);
    assert(s5 =~= request_transcript_spec(op, method@, target@, hv, headers@, bv, *cfg));
    out
}

/// The transcript of a response's status and headers.
pub open spec fn response_head_spec(
    status: u16,
    reason: Seq<char>,
    headers: Seq<(String, String)>,
    show_secrets: bool,
) -> Seq<Seq<char>> {
    seq!["< HTTP/1.1 "@ + dec_int(status as int) + " "@ + reason] + header_lines(
        "<"@,
        headers,
        show_secrets,
    ) + seq!["<"@]
}

/// The transcript of a response's status and headers, for standard error.
pub fn response_head_transcript(status: u16, reason: &str, headers: &[(String, String)], cfg: &VerboseConfig) -> (r:
    Vec<String>)
    requires
        headers_ok(headers@, cfg.show_secrets),
    ensures
        strs(r@) == response_head_spec(status, reason@, headers@, cfg.show_secrets),
{
    let mut out: Vec<String> = Vec::new();
    let mut l = chars_of("< HTTP/1.1 ");
    extend_chars(&mut l, &dec_u64(status as u64));
    extend_str(&mut l, " ");
    extend_str(&mut l, reason);
    push_line(&mut out, &l);
    push_header_lines(&mut out, "<", headers, cfg.show_secrets);
    push_line(&mut out, &chars_of("<"));
    proof {
        reveal_strlit("<");
    }
    assert(strs(out@) =~= response_head_spec(status, reason@, headers@, cfg.show_secrets));
    out
}

/// The transcript of a response body, for standard error.
pub fn response_body_transcript(body: &str) -> (r: Vec<String>)
    ensures
        strs(r@) == block_lines("<"@, body@),
{
    let mut out: Vec<String> = Vec::new();
    push_block_lines(&mut out, "<", body);
    assert(strs(out@) =~= block_lines("<"@, body@));
    out
}

/// A header named `name` is among `present`, without regard to ASCII case.
pub open spec fn header_set(present: Seq<Seq<char>>, name: Seq<char>) -> bool {
    exists|i: int| 0 <= i < present.len() && ascii_lower(#[trigger] present[i]) == ascii_lower(name)
}

/// The headers among `defaults`, in order, whose names `present` does not
/// already set.
pub open spec fn missing_headers_spec(present: Seq<Seq<char>>, defaults: Seq<(String, String)>) -> Seq<
    (String, String),
>
    decreases defaults.len(),
{
    if defaults.len() == 0 {
        seq![]
    } else {
        let prev = missing_headers_spec(present, defaults.drop_last());
        if header_set(present, defaults.last().0@) {
            prev
        } else {
            prev.push(defaults.last())
        }
    }
}

/// Whether a header named `name` is among `present`, without regard to
/// ASCII case.
fn header_present(present: &[String], name: &str) -> (r: bool)
    ensures
        r == exists|i: int| 0 <= i < present@.len() && ascii_lower(#[trigger] present@[i]@) == ascii_lower(name@),
{
    let target = ascii_lower_exec(&chars_of(name));
    let mut i: usize = 0;
    while i < present.len()
        invariant
            i <= present@.len(),
            target@ == ascii_lower(name@),
            forall|j: int| 0 <= j < i ==> ascii_lower(#[trigger] present@[j]@) != ascii_lower(name@),
        decreases present.len() - i,
    {
        let p = ascii_lower_exec(&chars_of(present[i].as_str()));
        if eq_chars(&p, &target) {
            return true;
        }
        i += 1;
    }
    false
}

/// The credential headers to add to a request: those of `defaults` that
/// the request's headers `present` do not already set; a header the caller
/// set is never overwritten.
pub fn missing_headers(present: &[String], defaults: &[(String, String)]) -> (r: Vec<(String, String)>)
    ensures
        r@ == missing_headers_spec(strs(present@), defaults@),
{
    let ghost pv = strs(present@);
    let mut out: Vec<(String, String)> = Vec::new();
    let mut k: usize = 0;
    while k < defaults.len()
        invariant
            k <= defaults@.len(),
            pv == strs(present@),
            out@ == missing_headers_spec(pv, defaults@.take(k as int)),
        decreases defaults.len() - k,
    {
        let found = header_present(present, defaults[k].0.as_str());
        proof {
            assert(defaults@.take(k + 1).drop_last() =~= defaults@.take(k as int));
            assert(defaults@.take(k + 1).last() == defaults@[k as int]);
            assert(found == header_set(pv, defaults@[k as int].0@)) by {
                if found {
                    let i = choose|i: int|
                        0 <= i < present@.len() && ascii_lower(#[trigger] present@[i]@) == ascii_lower(
                            defaults@[k as int].0@,
                        );
                    assert(pv[i] == present@[i]@);
                } else {
                    assert forall|i: int| 0 <= i < pv.len() implies ascii_lower(#[trigger] pv[i])
                        != ascii_lower(defaults@[k as int].0@) by {
                        assert(pv[i] == present@[i]@);
                    }
                }
            }
        }
        if !found {
            out.push((defaults[k].0.clone(), defaults[k].1.clone()));
        }
        k += 1;
    }
    assert(defaults@.take(defaults.len() as int) =~= defaults@);
    out
}

} // verus!
