//! `gt api`: request fields, headers and method, the equivalent `curl`
//! command, and hints for authorisation failures.
use vstd::prelude::*;

use crate::repo::{split_once, split_once_exec, RepoInfo};
use crate::text::{
    chars_of, contains, dec_int, dec_u64, contains_exec, extend_chars, extend_str, find, find_from_exec, join,
    lemma_find_from_spec, occurs_at, replace_all, replace_all_exec, slice_chars, starts_with,
    starts_with_exec, str_eq, string_of, strs, trim, trim_exec,
};
use crate::verbose::{mask_header_spec, mask_header_value, mask_secret_ok};

verus! {

/// A `key=value` argument without `=`; holds the argument.
pub struct FieldError {
    pub field: String,
}

impl FieldError {
    /// The message shown to the user.
    pub fn message(&self) -> (r: String)
        ensures
            r@ == "Invalid field format: "@ + self.field@ + ". Use key=value"@,
    {
        let mut v = chars_of("Invalid field format: ");
        extend_str(&mut v, self.field.as_str());
        extend_str(&mut v, ". Use key=value");
        string_of(&v)
    }
}

/// Splits `key=value` at the first `=`.
pub fn parse_key_value(s: &str) -> (r: Result<(String, String), FieldError>)
    ensures
        match split_once(s@, '=') {
            Some((k, v)) => r matches Ok((a, b)) && a@ == k && b@ == v,
            None => r matches Err(e) && e.field@ == s@,
        },
{
    let v = chars_of(s);
    match split_once_exec(&v, '=') {
        Some((k, val)) => Ok((string_of(&k), string_of(&val))),
        None => Err(FieldError { field: string_of(&v) }),
    }
}

/// A field written as `key=value` reads back as that key and value, when
/// the key holds no `=`.
pub proof fn lemma_field_roundtrip(key: Seq<char>, value: Seq<char>)
    requires
        !key.contains('='),
    ensures
        split_once(key + "="@ + value, '=') == Some((key, value)),
{
    reveal_strlit("=");
    assert("="@ =~= seq!['=']);
    crate::repo::lemma_split_once_join(key, '=', value);
}

/// Value of the decimal digits `d`.
pub open spec fn digits_value(d: Seq<char>) -> int
    decreases d.len(),
{
    if d.len() == 0 {
        0
    } else {
        digits_value(d.drop_last()) * 10 + ((d.last() as u32) - 48)
    }
}

/// Every character of `d` is an ASCII digit.
pub open spec fn all_digits(d: Seq<char>) -> bool {
    forall|i: int| 0 <= i < d.len() ==> '0' <= #[trigger] d[i] <= '9'
}

/// The digits of a number: the text after an optional leading sign.
pub open spec fn unsigned_part(s: Seq<char>) -> Seq<char> {
    if s.len() > 0 && (s[0] == '-' || s[0] == '+') {
        s.skip(1)
    } else {
        s
    }
}

/// `str::parse::<i64>`: an optional sign, then at least one digit, with the
/// value within range.
pub open spec fn parse_i64_spec(s: Seq<char>) -> Option<i64> {
    let neg = s.len() > 0 && s[0] == '-';
    let d = unsigned_part(s);
    if d.len() == 0 || !all_digits(d) {
        None
    } else {
        let v = if neg {
            -digits_value(d)
        } else {
            digits_value(d)
        };
        if i64::MIN <= v <= i64::MAX {
            Some(v as i64)
        } else {
            None
        }
    }
}

/// The value of digits only grows as digits are added.
proof fn lemma_digits_grow(d: Seq<char>, k: int)
    requires
        0 <= k <= d.len(),
        all_digits(d),
    ensures
        digits_value(d.take(k)) <= digits_value(d),
        0 <= digits_value(d.take(k)),
    decreases d.len() - k,
{
    if k < d.len() {
        lemma_digits_grow(d, k + 1);
        assert(d.take(k + 1).drop_last() =~= d.take(k));
        assert(d.take(k + 1).last() == d[k]);
    } else {
        assert(d.take(k) =~= d);
        lemma_digits_nonneg(d);
    }
}

proof fn lemma_digits_nonneg(d: Seq<char>)
    requires
        all_digits(d),
    ensures
        0 <= digits_value(d),
    decreases d.len(),
{
    if d.len() > 0 {
        lemma_digits_nonneg(d.drop_last());
        assert(d.drop_last() =~= d.take(d.len() - 1));
        assert(d[d.len() - 1] == d.last());
    }
}

/// Parses a decimal `i64` as `str::parse` does.
pub fn parse_i64(s: &[char]) -> (r: Option<i64>)
    ensures
        r == parse_i64_spec(s@),
{
    let neg = s.len() > 0 && s[0] == '-';
    let start: usize = if s.len() > 0 && (s[0] == '-' || s[0] == '+') {
        1
    } else {
        0
    };
    let ghost d = s@.skip(start as int);
    proof {
        if start == 0 {
            assert(d =~= s@);
        }
    }
    if start >= s.len() {
        assert(d.len() == 0);
        return None;
    }
    let mut acc: i128 = 0;
    let mut i: usize = start;
    assert(d.take(0) =~= Seq::<char>::empty());
    while i < s.len()
        invariant
            start <= i <= s.len(),
            d == s@.skip(start as int),
            d == unsigned_part(s@),
            start < s.len(),
            all_digits(d.take(i - start)),
            acc == digits_value(d.take(i - start)),
            0 <= acc <= 9223372036854775808,
        decreases s.len() - i,
    {
        let c = s[i];
        assert(d[i - start] == c);
        if !('0' <= c && c <= '9') {
            assert(!('0' <= d[i - start] <= '9'));
            assert(!all_digits(d));
            return None;
        }
        let dv = (c as u32) - 48;
        assert(d.take(i - start + 1).drop_last() =~= d.take(i - start));
        assert(d.take(i - start + 1).last() == c);
        acc = acc * 10 + (dv as i128);
        i += 1;
        assert(all_digits(d.take(i - start)));
        if acc > 9223372036854775808 {
            proof {
                if all_digits(d) {
                    lemma_digits_grow(d, i - start);
                    assert(digits_value(d) > 9223372036854775808);
                }
            }
            return None;
        }
    }
    assert(d.take(i - start) =~= d);
    let v: i128 = if neg {
        -acc
    } else {
        acc
    };
    if v < -9223372036854775808 || v > 9223372036854775807 {
        None
    } else {
        Some(v as i64)
    }
}

/// A value given with `-F key=value`.
pub enum TypedValue {
    /// `@path`: the contents of the file.
    File(String),
    /// `@-`: standard input.
    Stdin,
    Bool(bool),
    Null,
    Int(i64),
    /// Any other text, or a `-f` value.
    Text(String),
}

/// What `-F` makes of a value: `@-` reads standard input, `@path` a file;
/// `true`, `false` and `null` are literals; an `i64` is a number; anything
/// else is a string.
pub open spec fn typed_value_spec(s: Seq<char>, v: TypedValue) -> bool {
    if starts_with(s, "@"@) {
        if s.skip(1) == "-"@ {
            v is Stdin
        } else {
            v matches TypedValue::File(p) && p@ == s.skip(1)
        }
    } else if s == "true"@ {
        v == TypedValue::Bool(true)
    } else if s == "false"@ {
        v == TypedValue::Bool(false)
    } else if s == "null"@ {
        v is Null
    } else {
        match parse_i64_spec(s) {
            Some(n) => v == TypedValue::Int(n),
            None => v matches TypedValue::Text(t) && t@ == s,
        }
    }
}

proof fn lemma_dec_nat_value(m: nat)
    ensures
        digits_value(crate::text::dec_nat(m)) == m,
    decreases m,
{
    let d = crate::text::dec_nat(m);
    if m < 10 {
        assert(d.drop_last() =~= Seq::<char>::empty());
        assert(d.last() == crate::text::digit_char(m));
        assert((crate::text::digit_char(m) as u32) == m + 48);
        assert(digits_value(d) == digits_value(d.drop_last()) * 10 + ((d.last() as u32) - 48));
    } else {
        lemma_dec_nat_value(m / 10);
        assert(d.drop_last() =~= crate::text::dec_nat(m / 10));
        assert(d.last() == crate::text::digit_char(m % 10));
        assert((crate::text::digit_char(m % 10) as u32) == m % 10 + 48);
        assert(m == (m / 10) * 10 + m % 10);
        assert(digits_value(d) == digits_value(d.drop_last()) * 10 + ((d.last() as u32) - 48));
    }
}

/// Every `i64` written in decimal (with a leading `-` when negative) reads
/// back as itself, and as a `-F` value it becomes that number.
pub proof fn lemma_decimal_reads_back(n: i64)
    ensures
        parse_i64_spec(dec_int(n as int)) == Some(n),
        forall|v: TypedValue| typed_value_spec(dec_int(n as int), v) <==> v == TypedValue::Int(n),
{
    let s = dec_int(n as int);
    let m: nat = if n < 0 {
        (-n) as nat
    } else {
        n as nat
    };
    let d = crate::text::dec_nat(m);
    crate::text::lemma_dec_nat_digits(m);
    lemma_dec_nat_value(m);
    assert('0' <= d[0] <= '9');
    if n < 0 {
        assert(s[0] == '-');
        assert(s.skip(1) =~= d);
    } else {
        assert(s == d);
    }
    assert(unsigned_part(s) =~= d);
    assert(all_digits(d));
    reveal_strlit("@");
    reveal_strlit("true");
    reveal_strlit("false");
    reveal_strlit("null");
    assert(s[0] != '@' && s[0] != 't' && s[0] != 'f' && s[0] != 'n');
    assert(!starts_with(s, "@"@)) by {
        if starts_with(s, "@"@) {
            assert(s.take(1)[0] == s[0]);
        }
    }
    assert(s != "true"@ && s != "false"@ && s != "null"@) by {
        if s == "true"@ || s == "false"@ || s == "null"@ {
            assert(s[0] == 't' || s[0] == 'f' || s[0] == 'n');
        }
    }
}

/// Converts a `-F` value to its JSON type (file contents are read by the
/// caller).
pub fn parse_typed_value(s: &str) -> (r: TypedValue)
    ensures
        typed_value_spec(s@, r),
{
    let v = chars_of(s);
    let at = chars_of("@");
    proof {
        reveal_strlit("@");
    }
    if starts_with_exec(&v, &at) {
        let rest = slice_chars(&v, 1, v.len());
        assert(rest@ =~= v@.skip(1));
        let rs = string_of(&rest);
        if str_eq(rs.as_str(), "-") {
            return TypedValue::Stdin;
        }
        return TypedValue::File(rs);
    }
    if str_eq(s, "true") {
        return TypedValue::Bool(true);
    }
    if str_eq(s, "false") {
        return TypedValue::Bool(false);
    }
    if str_eq(s, "null") {
        return TypedValue::Null;
    }
    match parse_i64(&v) {
        Some(n) => TypedValue::Int(n),
        None => TypedValue::Text(string_of(&v)),
    }
}

/// `entry` is the `-f` argument `field` split at its `=`, the value a string.
pub open spec fn raw_entry_ok(field: Seq<char>, entry: (String, TypedValue)) -> bool {
    match split_once(field, '=') {
        Some((k, v)) => entry.0@ == k && (match entry.1 {
            TypedValue::Text(t) => t@ == v,
            _ => false,
        }),
        None => false,
    }
}

/// `entry` is the `-F` argument `field` split at its `=`, the value typed.
pub open spec fn typed_entry_ok(field: Seq<char>, entry: (String, TypedValue)) -> bool {
    match split_once(field, '=') {
        Some((k, v)) => entry.0@ == k && typed_value_spec(v, entry.1),
        None => false,
    }
}

/// The body fields of `gt api`: every `-f` field as a string, then every
/// `-F` field typed, in order; the first field without `=` is an error.
pub fn build_body(raw_fields: &[String], fields: &[String]) -> (r: Result<
    Vec<(String, TypedValue)>,
    FieldError,
>)
    ensures
        match r {
            Ok(body) => {
                &&& body@.len() == raw_fields@.len() + fields@.len()
                &&& forall|i: int|
                    0 <= i < raw_fields@.len() ==> raw_entry_ok(
                        (#[trigger] raw_fields@[i])@,
                        body@[i],
                    )
                &&& forall|i: int|
                    0 <= i < fields@.len() ==> typed_entry_ok(
                        (#[trigger] fields@[i])@,
                        body@[raw_fields@.len() + i],
                    )
            },
            Err(e) => {
                ||| exists|i: int|
                    0 <= i < raw_fields@.len() && split_once((#[trigger] raw_fields@[i])@, '=')
                        is None && e.field@ == raw_fields@[i]@ && forall|j: int|
                        0 <= j < i ==> split_once((#[trigger] raw_fields@[j])@, '=') is Some
                ||| (forall|j: int|
                    0 <= j < raw_fields@.len() ==> split_once((#[trigger] raw_fields@[j])@, '=')
                        is Some) && exists|i: int|
                    0 <= i < fields@.len() && split_once((#[trigger] fields@[i])@, '=') is None
                        && e.field@ == fields@[i]@ && forall|j: int|
                        0 <= j < i ==> split_once((#[trigger] fields@[j])@, '=') is Some
            },
        },
{
    let mut body: Vec<(String, TypedValue)> = Vec::new();
    let mut i: usize = 0;
    while i < raw_fields.len()
        invariant
            i <= raw_fields.len(),
            body@.len() == i,
            forall|j: int| 0 <= j < i ==> raw_entry_ok((#[trigger] raw_fields@[j])@, body@[j]),
        decreases raw_fields.len() - i,
    {
        match parse_key_value(raw_fields[i].as_str()) {
            Ok((k, v)) => {
                body.push((k, TypedValue::Text(v)));
            },
            Err(e) => {
                return Err(e);
            },
        }
        i += 1;
    }
    let mut j: usize = 0;
    while j < fields.len()
        invariant
            j <= fields.len(),
            body@.len() == raw_fields@.len() + j,
            forall|x: int|
                0 <= x < raw_fields@.len() ==> raw_entry_ok((#[trigger] raw_fields@[x])@, body@[x]),
            forall|x: int|
                0 <= x < j ==> typed_entry_ok(
                    (#[trigger] fields@[x])@,
                    body@[raw_fields@.len() + x],
                ),
        decreases fields.len() - j,
    {
        match parse_key_value(fields[j].as_str()) {
            Ok((k, v)) => {
                let t = parse_typed_value(v.as_str());
                body.push((k, t));
            },
            Err(e) => {
                return Err(e);
            },
        }
        j += 1;
    }
    Ok(body)
}

/// The request method: `-X` upper-cased, else `POST` when there are body
/// fields and `GET` otherwise.
pub open spec fn request_method_spec(method: Option<Seq<char>>, has_body: bool) -> Seq<char> {
    match method {
        Some(m) => upper_text(m),
        None => if has_body {
            "POST"@
        } else {
            "GET"@
        },
    }
}

/// What `str::to_uppercase` gives for a string.
pub uninterp spec fn upper_text(s: Seq<char>) -> Seq<char>;

/// Upper-cases `s` with `str::to_uppercase` (Unicode case mapping).
#[verifier::external_body]
fn to_upper(s: &str) -> (r: String)
    ensures
        r@ == upper_text(s@),
{
    s.to_uppercase()
}

/// The method of the request.
pub fn request_method(method: Option<&str>, has_body: bool) -> (r: String)
    ensures
        r@ == request_method_spec(
            match method {
                Some(m) => Some(m@),
                None => None,
            },
            has_body,
        ),
{
    match method {
        Some(m) => to_upper(m),
        None => if has_body {
            string_of(&chars_of("POST"))
        } else {
            string_of(&chars_of("GET"))
        },
    }
}

/// The endpoint mentions `{owner}` or `{repo}` and needs the repository.
pub open spec fn needs_repo_spec(endpoint: Seq<char>) -> bool {
    contains(endpoint, "{owner}"@) || contains(endpoint, "{repo}"@)
}

/// Whether the endpoint has repository placeholders.
pub fn needs_repo(endpoint: &str) -> (r: bool)
    ensures
        r == needs_repo_spec(endpoint@),
{
    let e = chars_of(endpoint);
    contains_exec(&e, &chars_of("{owner}")) || contains_exec(&e, &chars_of("{repo}"))
}

/// `{owner}` and `{repo}` replaced by the repository's owner and name.
pub open spec fn expand_spec(endpoint: Seq<char>, owner: Seq<char>, name: Seq<char>) -> Seq<char> {
    replace_all(replace_all(endpoint, "{owner}"@, owner), "{repo}"@, name)
}

/// Expands the `{owner}` and `{repo}` placeholders of an endpoint.
pub fn expand_placeholders(endpoint: &str, repo: &RepoInfo) -> (r: String)
    ensures
        r@ == expand_spec(endpoint@, repo.owner@, repo.name@),
{
    let e = chars_of(endpoint);
    let o = chars_of("{owner}");
    let n = chars_of("{repo}");
    proof {
        reveal_strlit("{owner}");
        reveal_strlit("{repo}");
    }
    let a = replace_all_exec(&e, &o, &chars_of(repo.owner.as_str()));
    let b = replace_all_exec(&a, &n, &chars_of(repo.name.as_str()));
    string_of(&b)
}

/// A `-H` argument without `:`; holds the argument.
pub struct HeaderError {
    pub header: String,
}

/// Splits a `key:value` header at the first `:`, trimming both sides.
pub fn parse_header(h: &str) -> (r: Result<(String, String), HeaderError>)
    ensures
        match split_once(h@, ':') {
            Some((k, v)) => r matches Ok((a, b)) && a@ == trim(k) && b@ == trim(v),
            None => r matches Err(e) && e.header@ == h@,
        },
{
    let v = chars_of(h);
    match split_once_exec(&v, ':') {
        Some((k, val)) => Ok((string_of(&trim_exec(&k)), string_of(&trim_exec(&val)))),
        None => Err(HeaderError { header: string_of(&v) }),
    }
}

impl HeaderError {
    /// The message shown to the user.
    pub fn message(&self) -> (r: String)
        ensures
            r@ == "Invalid header format: "@ + self.header@ + ". Use key:value"@,
    {
        let mut v = chars_of("Invalid header format: ");
        extend_str(&mut v, self.header.as_str());
        extend_str(&mut v, ". Use key:value");
        string_of(&v)
    }
}

/// The parts of the `curl` command for a request, in order.
pub open spec fn curl_parts(
    method: Seq<char>,
    url: Seq<char>,
    headers: Seq<Seq<char>>,
    body: Option<Seq<char>>,
    token: Seq<char>,
    show_secrets: bool,
) -> Seq<Seq<char>> {
    let auth = if show_secrets {
        "token "@ + token
    } else {
        mask_header_spec("Authorization"@, "token "@ + token)
    };
    let base = seq![
        "curl -X "@ + method,
        "'"@ + url + "'"@,
        "-H 'Authorization: "@ + auth + "'"@,
        "-H 'Accept: application/json'"@,
    ] + headers.map_values(|h: Seq<char>| "-H '"@ + h + "'"@);
    match body {
        Some(b) => base + seq![
            "-H 'Content-Type: application/json'"@,
            "--data-raw '"@ + replace_all(b, "'"@, "'\\''"@) + "'"@,
        ],
        None => base,
    }
}

/// Render an equivalent `curl` command for a request. The token is masked
/// unless `show_secrets` is set. The body, already serialised as JSON, is
/// passed with `--data-raw`, its single quotes escaped for the shell.
pub fn build_curl_command(
    method: &str,
    url: &str,
    custom_headers: &[String],
    body: Option<&str>,
    token: &str,
    show_secrets: bool,
) -> (r: String)
    requires
        !show_secrets ==> mask_secret_ok(token@),
    ensures
        r@ == join(
            curl_parts(
                method@,
                url@,
                strs(custom_headers@),
                match body {
                    Some(b) => Some(b@),
                    None => None,
                },
                token@,
                show_secrets,
            ),
            " \\\n  "@,
        ),
{
    let mut parts: Vec<Vec<char>> = Vec::new();
    let mut p0 = chars_of("curl -X ");
    extend_str(&mut p0, method);
    parts.push(p0);
    let mut p1 = chars_of("'");
    extend_str(&mut p1, url);
    extend_str(&mut p1, "'");
    parts.push(p1);
    let mut tv = chars_of("token ");
    extend_str(&mut tv, token);
    let tvs = string_of(&tv);
    let auth = if show_secrets {
        tv
    } else {
        proof {
            let v = "token "@ + token@;
            assert(starts_with(v, "token "@)) by {
                assert(v.take("token "@.len() as int) =~= "token "@);
            }
            assert(v.skip("token "@.len() as int) =~= token@);
        }
        chars_of(mask_header_value("Authorization", tvs.as_str()).as_str())
    };
    let mut p2 = chars_of("-H 'Authorization: ");
    extend_chars(&mut p2, &auth);
    extend_str(&mut p2, "'");
    parts.push(p2);
    parts.push(chars_of("-H 'Accept: application/json'"));
    let ghost base = crate::text::vviews(parts@);
    let ghost auth_v = if show_secrets {
        "token "@ + token@
    } else {
        mask_header_spec("Authorization"@, "token "@ + token@)
    };
    assert(base =~= seq![
        "curl -X "@ + method@,
        "'"@ + url@ + "'"@,
        "-H 'Authorization: "@ + auth_v + "'"@,
        "-H 'Accept: application/json'"@,
    ]);
    let ghost hs = strs(custom_headers@).map_values(|h: Seq<char>| "-H '"@ + h + "'"@);
    let mut i: usize = 0;
    assert(base + hs.take(0) =~= base);
    while i < custom_headers.len()
        invariant
            i <= custom_headers.len(),
            hs == strs(custom_headers@).map_values(|h: Seq<char>| "-H '"@ + h + "'"@),
            crate::text::vviews(parts@) == base + hs.take(i as int),
        decreases custom_headers.len() - i,
    {
        let mut h = chars_of("-H '");
        extend_str(&mut h, custom_headers[i].as_str());
        extend_str(&mut h, "'");
        let ghost before = crate::text::vviews(parts@);
        parts.push(h);
        assert(crate::text::vviews(parts@) =~= before.push(hs[i as int]));
        assert(hs.take(i + 1) =~= hs.take(i as int).push(hs[i as int]));
        i += 1;
    }
    assert(hs.take(custom_headers.len() as int) =~= hs);
    match body {
        Some(b) => {
            let ghost before = crate::text::vviews(parts@);
            parts.push(chars_of("-H 'Content-Type: application/json'"));
            let bc = chars_of(b);
            let q = chars_of("'");
            proof {
                reveal_strlit("'");
            }
            let esc = replace_all_exec(&bc, &q, &chars_of("'\\''"));
            let mut d = chars_of("--data-raw '");
            extend_chars(&mut d, &esc);
            extend_str(&mut d, "'");
            parts.push(d);
            assert(crate::text::vviews(parts@) =~= before + seq![
                "-H 'Content-Type: application/json'"@,
                "--data-raw '"@ + replace_all(b@, "'"@, "'\\''"@) + "'"@,
            ]);
        },
        None => {},
    }
    assert(crate::text::vviews(parts@) =~= curl_parts(
        method@,
        url@,
        strs(custom_headers@),
        match body {
            Some(b) => Some(b@),
            None => None,
        },
        token@,
        show_secrets,
    ));
    let sep = chars_of(" \\\n  ");
    string_of(&crate::text::join_exec(&parts, &sep))
}

/// The scopes listed in `required=[...]` of a Gitea 403 message, trimmed;
/// `None` when there is no such list or it is blank.
pub open spec fn required_scopes_spec(message: Seq<char>) -> Option<Seq<char>> {
    match find(message, "required=["@) {
        None => None,
        Some(i) => {
            let rest = message.skip(i + "required=["@.len());
            match find(rest, "]"@) {
                None => None,
                Some(j) => {
                    let scopes = trim(rest.take(j));
                    if scopes.len() == 0 {
                        None
                    } else {
                        Some(scopes)
                    }
                },
            }
        },
    }
}

/// Pull the contents of `required=[...]` out of a Gitea 403 message.
pub fn extract_required_scopes(message: &str) -> (r: Option<String>)
    ensures
        match required_scopes_spec(message@) {
            Some(s) => r matches Some(x) && x@ == s,
            None => r is None,
        },
{
    let m = chars_of(message);
    let key = chars_of("required=[");
    proof {
        lemma_find_from_spec(m@, key@, 0);
    }
    match find_from_exec(&m, &key, 0) {
        None => None,
        Some(i) => {
            assert(occurs_at(m@, key@, i as int));
            let n = m.len();
            assert(i + key.len() <= n);
            let start = i + key.len();
            let rest = slice_chars(&m, start, m.len());
            assert(rest@ =~= m@.skip(i + "required=["@.len()));
            let close = chars_of("]");
            proof {
                lemma_find_from_spec(rest@, close@, 0);
            }
            match find_from_exec(&rest, &close, 0) {
                None => None,
                Some(j) => {
                    assert(occurs_at(rest@, close@, j as int));
                    let inner = slice_chars(&rest, 0, j);
                    assert(inner@ =~= rest@.take(j as int));
                    let scopes = trim_exec(&inner);
                    if scopes.len() == 0 {
                        None
                    } else {
                        Some(string_of(&scopes))
                    }
                },
            }
        },
    }
}

/// What `serde_json` reads as the string member `key` of the JSON object in
/// `text`: `None` when the text is not JSON, not an object, has no such
/// member or the member is not a string.
pub uninterp spec fn json_string_member_spec(text: Seq<char>, key: Seq<char>) -> Option<Seq<char>>;

/// Parses `text` with `serde_json::from_str` and reads the string member
/// `key` of the resulting object (`Value::get`, then `Value::as_str`).
#[verifier::external_body]
pub(crate) fn json_string_member(text: &str, key: &str) -> (r: Option<String>)
    ensures
        match json_string_member_spec(text@, key@) {
            Some(s) => r matches Some(x) && x@ == s,
            None => r is None,
        },
{
    match serde_json::from_str::<serde_json::Value>(text) {
        Ok(v) => v.get(key).and_then(|m| m.as_str()).map(|s| s.to_string()),
        Err(_) => None,
    }
}

/// The hint lines for a failed request: a refused token (401), or a 403
/// whose message names the scopes the token lacks; none otherwise.
pub open spec fn auth_hint_spec(status: u16, body: Seq<char>) -> Seq<Seq<char>> {
    if status == 401 {
        seq!["token rejected by server. Run `gt auth login` to refresh."@]
    } else if status == 403 {
        let message = match json_string_member_spec(body, "message"@) {
            Some(m) => m,
            None => ""@,
        };
        match required_scopes_spec(message) {
            Some(scopes) => seq![
                "token is missing required scope(s): "@ + scopes,
                "re-run `gt auth login` with a token that includes those scopes,"@,
                "      or use a different token (admin tokens cover read:admin)."@,
            ],
            None => seq![],
        }
    } else {
        seq![]
    }
}

/// Build hint lines for auth-related failures (401/403). Returns an empty
/// list for other status codes or unrecognized bodies.
pub fn auth_hint_for(status: u16, body: &str) -> (r: Vec<String>)
    ensures
        strs(r@) == auth_hint_spec(status, body@),
{
    let mut r: Vec<String> = Vec::new();
    if status == 401 {
        r.push(string_of(&chars_of("token rejected by server. Run `gt auth login` to refresh.")));
        assert(strs(r@) =~= auth_hint_spec(status, body@));
    } else if status == 403 {
        let message = match json_string_member(body, "message") {
            Some(m) => m,
            None => string_of(&chars_of("")),
        };
        match extract_required_scopes(message.as_str()) {
            Some(scopes) => {
                let mut l0 = chars_of("token is missing required scope(s): ");
                extend_str(&mut l0, scopes.as_str());
                r.push(string_of(&l0));
                r.push(
                    string_of(
                        &chars_of("re-run `gt auth login` with a token that includes those scopes,"),
                    ),
                );
                r.push(
                    string_of(
                        &chars_of("      or use a different token (admin tokens cover read:admin)."),
                    ),
                );
                assert(strs(r@) =~= auth_hint_spec(status, body@));
            },
            None => {
                assert(strs(r@) =~= auth_hint_spec(status, body@));
            },
        }
    } else {
        assert(strs(r@) =~= auth_hint_spec(status, body@));
    }
    r
}

/// `gt api`: an authenticated request to an endpoint of the Gitea API.
#[derive(Debug, Clone)]
pub struct ApiCommand {
    /// The endpoint, relative to `/api/v1/`; `{owner}` and `{repo}` are
    /// replaced by the current repository.
    pub endpoint: String,
    /// `-X`: the HTTP method.
    pub method: Option<String>,
    /// `-f key=value`: string fields of the body.
    pub raw_fields: Vec<String>,
    /// `-F key=value`: typed fields of the body.
    pub fields: Vec<String>,
    /// `-H key:value`: extra headers.
    pub headers: Vec<String>,
    /// `-i`: print the status line and headers.
    pub show_headers: bool,
    /// Print nothing of the response body.
    pub silent: bool,
    /// `--jq`: the selector applied to the response.
    pub jq_expr: Option<String>,
    /// Follow pages until an empty one.
    pub paginate: bool,
    /// Print the equivalent `curl` command instead.
    pub curl: bool,
}

impl ApiCommand {
    /// The request has body fields.
    pub fn has_body_fields(&self) -> (r: bool)
        ensures
            r == (self.raw_fields@.len() > 0 || self.fields@.len() > 0),
    {
        self.raw_fields.len() > 0 || self.fields.len() > 0
    }

    /// The method of the request: `-X` upper-cased, else `POST` with body
    /// fields and `GET` without.
    pub fn method_of(&self) -> (r: String)
        ensures
            r@ == request_method_spec(
                match self.method {
                    Some(m) => Some(m@),
                    None => None,
                },
                self.raw_fields@.len() > 0 || self.fields@.len() > 0,
            ),
    {
        let has_body = self.has_body_fields();
        match &self.method {
            Some(m) => request_method(Some(m.as_str()), has_body),
            None => request_method(None, has_body),
        }
    }
}

/// What `url::Url` gives after `query_pairs_mut().append_pair(key, value)`
/// on the URL `url`; `None` when `url` does not parse.
pub uninterp spec fn url_append_pair(url: Seq<char>, key: Seq<char>, value: Seq<char>) -> Option<
    Seq<char>,
>;

/// Parses `url` with `url::Url::parse` and appends one query pair with
/// `query_pairs_mut().append_pair`.
#[verifier::external_body]
fn append_query_pair(url: &str, key: &str, value: &str) -> (r: Option<String>)
    ensures
        match url_append_pair(url@, key@, value@) {
            Some(u) => r matches Some(x) && x@ == u,
            None => r is None,
        },
{
    match url::Url::parse(url) {
        Ok(mut u) => {
            u.query_pairs_mut().append_pair(key, value);
            Some(u.as_str().to_string())
        },
        Err(_) => None,
    }
}

/// The names of the query pairs of the URL `url`, in order, as
/// `url::Url::query_pairs` decodes them; `None` when `url` does not parse.
pub uninterp spec fn url_query_names(url: Seq<char>) -> Option<Seq<Seq<char>>>;

/// Parses `url` and lists the names of its query pairs.
#[verifier::external_body]
fn query_names(url: &str) -> (r: Option<Vec<String>>)
    ensures
        match url_query_names(url@) {
            Some(ns) => r matches Some(v) && strs(v@) == ns,
            None => r is None,
        },
{
    url::Url::parse(url).ok().map(|u| u.query_pairs().map(|(k, _)| k.into_owned()).collect())
}

/// Whether `name` is among `names`.
fn has_name(names: &Vec<String>, name: &str) -> (r: bool)
    ensures
        r == strs(names@).contains(name@),
{
    let mut k: usize = 0;
    while k < names.len()
        invariant
            k <= names@.len(),
            forall|j: int| 0 <= j < k ==> names@[j]@ != name@,
        decreases names.len() - k,
    {
        if str_eq(names[k].as_str(), name) {
            assert(strs(names@)[k as int] == name@);
            return true;
        }
        k += 1;
    }
    proof {
        if strs(names@).contains(name@) {
            let j = choose|j: int| 0 <= j < strs(names@).len() && strs(names@)[j] == name@;
            assert(names@[j]@ == name@);
        }
    }
    false
}

/// The URL of page `page` of a paginated request: `page=N` appended, and
/// `limit=50` unless the URL already sets a limit.
pub open spec fn page_url_spec(base: Seq<char>, page: u32) -> Option<Seq<char>> {
    match url_append_pair(base, "page"@, dec_int(page as int)) {
        None => None,
        Some(u) => if url_query_names(u) matches Some(ns) && ns.contains("limit"@) {
            Some(u)
        } else {
            url_append_pair(u, "limit"@, "50"@)
        },
    }
}

/// The URL of one page of `gt api --paginate`.
pub fn page_url(base: &str, page: u32) -> (r: Option<String>)
    ensures
        match page_url_spec(base@, page) {
            Some(u) => r matches Some(x) && x@ == u,
            None => r is None,
        },
{
    let p = string_of(&dec_u64(page as u64));
    match append_query_pair(base, "page", p.as_str()) {
        None => None,
        Some(u) => {
            let has_limit = match query_names(u.as_str()) {
                Some(ns) => has_name(&ns, "limit"),
                None => false,
            };
            if has_limit {
                Some(u)
            } else {
                append_query_pair(u.as_str(), "limit", "50")
            }
        },
    }
}

/// The length of the JSON array that `text` holds with `serde_json`;
/// `None` when `text` is not JSON or not an array.
pub uninterp spec fn json_array_length(text: Seq<char>) -> Option<nat>;

/// Parses `text` with `serde_json::from_str` and measures it as an array.
#[verifier::external_body]
fn json_array_len(text: &str) -> (r: Option<usize>)
    ensures
        match json_array_length(text@) {
            Some(n) => r matches Some(x) && x as nat == n,
            None => r is None,
        },
{
    serde_json::from_str::<serde_json::Value>(text).ok().and_then(|v| v.as_array().map(|a| a.len()))
}

/// `gt api --paginate` goes on after a page that is a non-empty JSON array.
pub fn page_continues(text: &str) -> (r: bool)
    ensures
        r == (json_array_length(text@) matches Some(n) && n > 0),
{
    match json_array_len(text) {
        Some(n) => n > 0,
        None => false,
    }
}

/// The error of a refused request: status, reason and response text.
pub fn request_error_text(status: u16, reason: &str, text: &str) -> (r: String)
    ensures
        r@ == dec_int(status as int) + " "@ + reason@ + "\n"@ + text@,
{
    let mut v = dec_u64(status as u64);
    extend_str(&mut v, " ");
    extend_str(&mut v, reason);
    extend_str(&mut v, "\n");
    extend_str(&mut v, text);
    string_of(&v)
}

/// The hint printed after a failed command whose error starts with an
/// HTTP status of 401 or 403.
pub open spec fn error_hint_spec(message: Seq<char>) -> Option<Seq<char>> {
    if starts_with(message, "HTTP 401"@) {
        Some("hint: try `gt auth login`"@)
    } else if starts_with(message, "HTTP 403"@) {
        Some("hint: you don't have permission for this operation"@)
    } else {
        None
    }
}

/// The hint printed after a failed command.
pub fn error_hint(message: &str) -> (r: Option<String>)
    ensures
        match error_hint_spec(message@) {
            Some(h) => r matches Some(x) && x@ == h,
            None => r is None,
        },
{
    let m = chars_of(message);
    if starts_with_exec(&m, &chars_of("HTTP 401")) {
        Some(string_of(&chars_of("hint: try `gt auth login`")))
    } else if starts_with_exec(&m, &chars_of("HTTP 403")) {
        Some(string_of(&chars_of("hint: you don't have permission for this operation")))
    } else {
        None
    }
}

} // verus!
