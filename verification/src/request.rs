//! Planning an HTTP call: the address, the method, the headers taken from a JSON
//! object, the proxy and the body, decided before anything is sent.
use vstd::prelude::*;
use vstd::string::StringExecFns;
use vstd::string::StrSliceExecFns;
use reqwest::header::{HeaderMap, HeaderName, HeaderValue};
use base64::Engine;
use crate::text::opt_text;
use crate::args::{or_empty, SqlValue, expected_http_args, with_arg, nonempty_string_arg, lemma_absent_method_is_get, lemma_absent_arg_is_empty};
use crate::json::{field_texts, json_object_fields, read_json};

verus! {

/// reqwest's header map, known to Verus only through `header_map_contents`.
#[verifier::external_type_specification]
#[verifier::external_body]
#[verifier::reject_recursive_types(T)]
pub struct ExHeaderMap<T>(reqwest::header::HeaderMap<T>);

/// reqwest's header value, the element type of the header map.
#[verifier::external_type_specification]
#[verifier::external_body]
pub struct ExHeaderValue(reqwest::header::HeaderValue);

/// What a request fails with before it is sent.
#[derive(Debug, PartialEq, Eq, Structural)]
pub enum HttpError {
    /// A header name is not a valid HTTP header name.
    InvalidHeaderName,
    /// A header value holds a byte that HTTP does not allow.
    InvalidHeaderValue,
    /// The header map refused to grow.
    TooManyHeaders,
    /// The method is not a valid HTTP method.
    InvalidMethod,
    /// The proxy address is not one reqwest can use.
    InvalidProxy,
    /// The request address is not one reqwest can send to.
    InvalidUrl,
    /// An uploaded file is not valid standard Base64.
    InvalidBase64,
    /// The response's content type is not valid UTF-8.
    ContentTypeNotUtf8,
    /// The response status could not be read as JSON.
    StatusNotJson,
}

/// The number of distinct header names below which a header map always accepts one
/// more: its index table is limited to 32768 slots, and it may try to double a full
/// size table once the names reach a fifth of it.
pub const HEADER_CAPACITY: usize = 6554;

/// The time limit of a request, in seconds.
pub const REQUEST_TIMEOUT_SECS: u64 = 5;

/// A "token" character of HTTP (RFC 9110), the characters of methods and header names.
pub open spec fn is_token_char(c: char) -> bool {
    ||| ('a' <= c && c <= 'z')
    ||| ('A' <= c && c <= 'Z')
    ||| ('0' <= c && c <= '9')
    ||| c == '!' || c == '#' || c == '$' || c == '%' || c == '&' || c == '\''
    ||| c == '*' || c == '+' || c == '-' || c == '.' || c == '^' || c == '_'
    ||| c == '`' || c == '|' || c == '~'
}

/// A character with upper-case ASCII letters turned lower-case.
pub open spec fn ascii_lower(c: char) -> char {
    if 'A' <= c && c <= 'Z' { ((c as u32) + 32) as char } else { c }
}

/// The normal form of a header name: `None` when it is no valid name, else the name
/// in lower case.
pub open spec fn header_name_form(name: Seq<char>) -> Option<Seq<char>> {
    if 1 <= name.len() <= 65535 && (forall|i: int| 0 <= i < name.len() ==> is_token_char(#[trigger] name[i])) {
        Some(name.map_values(|c: char| ascii_lower(c)))
    } else {
        None
    }
}

/// A character that may stand in a header value: a tab, or any character from space
/// on except DEL.
pub open spec fn is_header_value_char(c: char) -> bool {
    c == '\t' || ((c as u32) >= 32 && (c as u32) != 127)
}

/// Whether a text is a valid header value.
pub open spec fn header_value_ok(value: Seq<char>) -> bool {
    forall|i: int| 0 <= i < value.len() ==> is_header_value_char(#[trigger] value[i])
}

/// Whether a text is a valid HTTP method.
pub open spec fn method_ok(method: Seq<char>) -> bool {
    method.len() >= 1 && forall|i: int| 0 <= i < method.len() ==> is_token_char(#[trigger] method[i])
}

/// What a header map holds: each header name (lower case) and its value.
pub uninterp spec fn header_map_contents(map: HeaderMap) -> Map<Seq<char>, Seq<char>>;

/// The bytes that a text denotes in standard Base64 (with padding), if it is valid.
pub uninterp spec fn base64_decoded(text: Seq<char>) -> Option<Seq<u8>>;

/// Whether reqwest accepts a text as an HTTP proxy address.
pub uninterp spec fn proxy_usable(proxy: Seq<char>) -> bool;

/// Whether reqwest accepts a text as the address of a request.
pub uninterp spec fn url_usable(url: Seq<char>) -> bool;

/// Checks a proxy address with `reqwest::Proxy::http`.
///
/// Trusted: the result is what `proxy_usable` names.
#[verifier::external_body]
fn proxy_accepted(proxy: &str) -> (ok: bool)
    ensures
        ok == proxy_usable(proxy@),
{
    reqwest::Proxy::http(proxy).is_ok()
}

/// Checks a request address the way reqwest turns a text into an address: it is
/// parsed with `Url::parse` and must name a host.
///
/// Trusted: the result is what `url_usable` names.
#[verifier::external_body]
fn url_accepted(url: &str) -> (ok: bool)
    ensures
        ok == url_usable(url@),
{
    match reqwest::Url::parse(url) {
        Ok(parsed) => parsed.has_host(),
        Err(_) => false,
    }
}

/// An empty header map, made by `HeaderMap::new`.
///
/// Trusted: a new map holds no header.
#[verifier::external_body]
fn header_map_new() -> (fresh: HeaderMap)
    ensures
        header_map_contents(fresh) =~= Map::empty(),
{
    HeaderMap::new()
}

/// Sets header `name` to `value` with `HeaderMap::try_insert`; the texts are
/// converted into the map's name and value types on the way in.
///
/// Trusted: the name is stored in its normal (lower-case) form, which is what
/// `HeaderName::from_str` makes of a valid name; on success the value replaces any
/// earlier value of that name; on failure (the index table would have to grow past
/// its limit of 32768 slots) the headers stay as they were. By the source of the
/// `http` crate, the table grows past that limit only once at least 6554 names are
/// present, so below `HEADER_CAPACITY` names the call always succeeds.
#[verifier::external_body]
fn header_map_try_insert(map: &mut HeaderMap, name: &str, value: &str) -> (inserted: bool)
    requires
        header_name_form(name@) is Some,
        header_value_ok(value@),
    ensures
        inserted ==> header_map_contents(*final(map)) == header_map_contents(*old(map)).insert(
            header_name_form(name@).unwrap(), value@),
        !inserted ==> header_map_contents(*final(map)) == header_map_contents(*old(map)),
        header_map_contents(*old(map)).len() < HEADER_CAPACITY ==> inserted,
{
    let key = <HeaderName as std::str::FromStr>::from_str(name).expect("valid by the precondition");
    let val = HeaderValue::from_str(value).expect("valid by the precondition");
    map.try_insert(key, val).is_ok()
}

/// Whether a header map holds no header, by `HeaderMap::is_empty`.
///
/// Trusted: `is_empty` is true exactly when no name is present.
#[verifier::external_body]
fn header_map_is_empty(map: &HeaderMap) -> (empty: bool)
    ensures
        empty == (header_map_contents(*map).dom().len() == 0),
{
    map.is_empty()
}

/// Decodes standard Base64 with `base64::prelude::BASE64_STANDARD.decode`.
///
/// Trusted: the result is what `base64_decoded` names.
#[verifier::external_body]
fn base64_decode(text: &str) -> (res: Option<Vec<u8>>)
    ensures
        (match res {
            Some(b) => base64_decoded(text@) == Some(b@),
            None => base64_decoded(text@) is None,
        }),
{
    base64::prelude::BASE64_STANDARD.decode(text).ok()
}

/// The body a request is sent with.
#[derive(Debug, PartialEq, Eq)]
pub enum RequestBody {
    /// No body.
    Empty,
    /// The body text as it was given.
    Text(String),
    /// A multipart form, described by the given JSON text (see `Body`).
    Multipart(String),
}

/// Everything about a request that is decided before it is sent.
pub struct RequestPlan {
    /// The address, with the query string appended.
    pub url: String,
    /// The method, known to be a valid HTTP method.
    pub method: String,
    /// The proxy to send through, if any.
    pub proxy: Option<String>,
    /// The headers to set, when there is at least one.
    pub headers: Option<HeaderMap>,
    /// The body.
    pub body: RequestBody,
}

/// Whether `s` begins with `prefix`.
pub open spec fn starts_with(s: Seq<char>, prefix: Seq<char>) -> bool {
    prefix.len() <= s.len() && s.take(prefix.len() as int) == prefix
}

/// Whether a header value announces a multipart form; such a header is not sent as
/// given but makes the body a multipart form.
pub open spec fn is_multipart_value(value: Seq<char>) -> bool {
    starts_with(value, "multipart/form-data"@)
}

/// The address a request goes to: the given address, then `?` and the query string
/// when there is a non-empty one.
pub open spec fn request_url(uri: Seq<char>, params: Option<Seq<char>>) -> Seq<char> {
    match params {
        Some(p) => if p.len() > 0 { uri + "?"@ + p } else { uri },
        None => uri,
    }
}

/// The headers that a list of JSON fields asks for, and whether one of them announced
/// a multipart form; fields are taken in order, a later value of a name replaces an
/// earlier one, a non-string value counts as the empty text, and the first invalid
/// name or value makes the whole list fail.
pub open spec fn scan_headers(fields: Seq<(Seq<char>, Option<Seq<char>>)>) -> Result<(Map<Seq<char>, Seq<char>>, bool), HttpError>
    decreases fields.len(),
{
    if fields.len() == 0 {
        Ok((Map::empty(), false))
    } else {
        match scan_headers(fields.drop_last()) {
            Err(e) => Err(e),
            Ok((headers, multipart)) => {
                let value = or_empty(fields.last().1);
                if is_multipart_value(value) {
                    Ok((headers, true))
                } else {
                    match header_name_form(fields.last().0) {
                        None => Err(HttpError::InvalidHeaderName),
                        Some(key) => if header_value_ok(value) {
                            Ok((headers.insert(key, value), multipart))
                        } else {
                            Err(HttpError::InvalidHeaderValue)
                        },
                    }
                }
            },
        }
    }
}

/// The header fields a header argument asks for: none when it is empty or no JSON
/// object.
pub open spec fn header_request(header: Seq<char>) -> Seq<(Seq<char>, Option<Seq<char>>)> {
    if header.len() == 0 {
        Seq::empty()
    } else {
        match json_object_fields(header) {
            Some(fields) => fields,
            None => Seq::empty(),
        }
    }
}

/// What is planned for the body.
pub enum BodyView {
    /// No body.
    Empty,
    /// A text body.
    Text(Seq<char>),
    /// A multipart form described by this JSON text.
    Multipart(Seq<char>),
}

/// The body as planned.
pub open spec fn body_view(b: RequestBody) -> BodyView {
    match b {
        RequestBody::Empty => BodyView::Empty,
        RequestBody::Text(t) => BodyView::Text(t@),
        RequestBody::Multipart(t) => BodyView::Multipart(t@),
    }
}

/// The body a request carries: none for `GET` or without a non-empty body, else the
/// body as a multipart form when a header announced one, else as text.
pub open spec fn planned_body(method: Seq<char>, body: Option<Seq<char>>, multipart: bool) -> BodyView {
    match body {
        Some(b) => if method != "GET"@ && b.len() > 0 {
            if multipart { BodyView::Multipart(b) } else { BodyView::Text(b) }
        } else {
            BodyView::Empty
        },
        None => BodyView::Empty,
    }
}

/// The proxy a request goes through: the given one when non-empty.
pub open spec fn planned_proxy(proxy: Option<Seq<char>>) -> Option<Seq<char>> {
    match proxy {
        Some(p) => if p.len() > 0 { Some(p) } else { None },
        None => None,
    }
}

/// The plan as plain values.
pub struct PlanView {
    pub url: Seq<char>,
    pub method: Seq<char>,
    pub proxy: Option<Seq<char>>,
    pub headers: Option<Map<Seq<char>, Seq<char>>>,
    pub body: BodyView,
}

/// A plan's plain values.
pub open spec fn plan_view(p: RequestPlan) -> PlanView {
    PlanView {
        url: p.url@,
        method: p.method@,
        proxy: opt_text(p.proxy),
        headers: match p.headers {
            Some(h) => Some(header_map_contents(h)),
            None => None,
        },
        body: body_view(p.body),
    }
}

/// A planning result as plain values.
pub open spec fn plan_outcome(res: Result<RequestPlan, HttpError>) -> Result<PlanView, HttpError> {
    match res {
        Ok(plan) => Ok(plan_view(plan)),
        Err(e) => Err(e),
    }
}

/// The plan of a call, or the error it fails with: an unusable proxy comes first,
/// then header errors, then an invalid method, then an unusable address.
pub open spec fn expected_plan(
    uri: Seq<char>,
    params: Option<Seq<char>>,
    method: Seq<char>,
    header: Seq<char>,
    body: Option<Seq<char>>,
    proxy: Option<Seq<char>>,
) -> Result<PlanView, HttpError> {
    if planned_proxy(proxy) matches Some(p) && !proxy_usable(p) {
        Err(HttpError::InvalidProxy)
    } else {
    match scan_headers(header_request(header)) {
        Err(e) => Err(e),
        Ok((headers, multipart)) => if !method_ok(method) {
            Err(HttpError::InvalidMethod)
        } else if !url_usable(request_url(uri, params)) {
            Err(HttpError::InvalidUrl)
        } else {
            Ok(PlanView {
                url: request_url(uri, params),
                method,
                proxy: planned_proxy(proxy),
                headers: if headers.len() == 0 { None } else { Some(headers) },
                body: planned_body(method, body, multipart),
            })
        },
    }
    }
}

/// Whether the scan of `fields` gives these headers and multipart flag.
pub open spec fn scans_to(fields: Seq<(Seq<char>, Option<Seq<char>>)>, headers: Map<Seq<char>, Seq<char>>, multipart: bool) -> bool {
    scan_headers(fields) == Ok::<(Map<Seq<char>, Seq<char>>, bool), HttpError>((headers, multipart))
}

/// Whether the scan of `fields` fails with `e`.
pub open spec fn scan_fails(fields: Seq<(Seq<char>, Option<Seq<char>>)>, e: HttpError) -> bool {
    scan_headers(fields) == Err::<(Map<Seq<char>, Seq<char>>, bool), HttpError>(e)
}

/// Whether the header map could have refused to grow at field `k`: the fields
/// before it scan to at least `HEADER_CAPACITY` names, and field `k` is a valid
/// header that would be set.
pub open spec fn growth_refused_at(fields: Seq<(Seq<char>, Option<Seq<char>>)>, k: int) -> bool {
    &&& 0 <= k < fields.len()
    &&& scan_headers(fields.take(k)) matches Ok((headers, _)) && headers.len() >= HEADER_CAPACITY
    &&& !is_multipart_value(or_empty(fields[k].1))
    &&& header_name_form(fields[k].0) is Some
    &&& header_value_ok(or_empty(fields[k].1))
}

/// The plan of an HTTP call made with these UDF arguments.
pub open spec fn call_plan(args: Seq<SqlValue>) -> Result<PlanView, HttpError> {
    let a = expected_http_args(args);
    expected_plan(a.url, a.params, a.method, a.header, a.body, a.proxy)
}

/// A call whose method argument is absent, NULL, empty or not a string plans the same
/// request, or fails the same way, as the call with the argument `GET`.
pub proof fn lemma_call_without_method_is_get(args: Seq<SqlValue>, get: Vec<u8>)
    requires
        nonempty_string_arg(args, 2) is None,
        get@ == vstd::utf8::encode_utf8(seq!['G', 'E', 'T']),
    ensures
        call_plan(with_arg(args, 2, SqlValue::Bytes(Some(get)))) == call_plan(args),
{
    lemma_absent_method_is_get(args, get);
}

/// A call whose argument `i` is absent, NULL, empty or not a string plans the same
/// request, or fails the same way, as the call with an empty string there.
pub proof fn lemma_call_with_absent_arg(args: Seq<SqlValue>, i: int, empty: Vec<u8>)
    requires
        0 <= i,
        nonempty_string_arg(args, i) is None,
        empty@.len() == 0,
    ensures
        call_plan(with_arg(args, i, SqlValue::Bytes(Some(empty)))) == call_plan(args),
{
    lemma_absent_arg_is_empty(args, i, empty);
}

/// A failed scan of a prefix fails the whole list the same way.
pub proof fn lemma_scan_error_persists(fields: Seq<(Seq<char>, Option<Seq<char>>)>, k: int)
    requires
        0 <= k <= fields.len(),
        scan_headers(fields.take(k)) is Err,
    ensures
        scan_headers(fields) == scan_headers(fields.take(k)),
    decreases fields.len() - k,
{
    if k < fields.len() {
        assert(fields.take(k + 1).drop_last() =~= fields.take(k));
        lemma_scan_error_persists(fields, k + 1);
    } else {
        assert(fields.take(k) =~= fields);
    }
}

/// A visible ASCII character (from `!` to `~`) that is no delimiter of RFC 9110:
/// none of `"(),/:;<=>?@[\]{}`.
pub open spec fn rfc_tchar(c: char) -> bool {
    &&& '!' <= c && c <= '~'
    &&& c != '"' && c != '(' && c != ')' && c != ',' && c != '/' && c != ':' && c != ';'
    &&& c != '<' && c != '=' && c != '>' && c != '?' && c != '@' && c != '['
    &&& c != '\\' && c != ']' && c != '{' && c != '}'
}

/// Token characters are exactly RFC 9110's `tchar`: the visible ASCII characters that
/// are no delimiter. In particular every letter, digit and each of
/// `! # $ % & ' * + - . ^ _ ` | ~` is one.
pub proof fn lemma_token_chars_are_rfc_tchars(c: char)
    ensures
        is_token_char(c) <==> rfc_tchar(c),
        ('a' <= c <= 'z' || 'A' <= c <= 'Z' || '0' <= c <= '9') ==> is_token_char(c),
        (c == '!' || c == '#' || c == '$' || c == '%' || c == '&' || c == '\'' || c == '*' || c == '+'
            || c == '-' || c == '.' || c == '^' || c == '_' || c == '`' || c == '|' || c == '~') ==> is_token_char(c),
{
}

/// A header name is accepted exactly when it has 1 to 65535 characters, all RFC 9110
/// token characters; it is kept with its upper-case ASCII letters made lower-case and
/// every other character unchanged.
pub proof fn lemma_header_name_rule(name: Seq<char>)
    ensures
        header_name_form(name) is Some <==> (1 <= name.len() <= 65535
            && forall|i: int| 0 <= i < name.len() ==> rfc_tchar(#[trigger] name[i])),
        header_name_form(name) matches Some(key) ==> key.len() == name.len() && forall|i: int| 0 <= i < name.len() ==> {
            &&& ('A' <= name[i] <= 'Z' ==> key[i] as u32 == name[i] as u32 + 32)
            &&& (!('A' <= name[i] <= 'Z') ==> key[i] == name[i])
        },
{
    assert forall|i: int| 0 <= i < name.len() implies is_token_char(#[trigger] name[i]) == rfc_tchar(name[i]) by {
        lemma_token_chars_are_rfc_tchars(name[i]);
    }
    if let Some(key) = header_name_form(name) {
        assert forall|i: int| 0 <= i < name.len() implies {
            &&& ('A' <= name[i] <= 'Z' ==> key[i] as u32 == name[i] as u32 + 32)
            &&& (!('A' <= name[i] <= 'Z') ==> key[i] == name[i])
        } by {
            assert(key[i] == ascii_lower(name[i]));
        }
    }
}

/// A method is accepted exactly when it is one or more RFC 9110 token characters.
pub proof fn lemma_method_rule(method: Seq<char>)
    ensures
        method_ok(method) <==> (method.len() >= 1 && forall|i: int| 0 <= i < method.len() ==> rfc_tchar(#[trigger] method[i])),
{
    assert forall|i: int| 0 <= i < method.len() implies is_token_char(#[trigger] method[i]) == rfc_tchar(method[i]) by {
        lemma_token_chars_are_rfc_tchars(method[i]);
    }
}

/// Lower-casing keeps a token character a token character and is idempotent.
pub proof fn lemma_lower_token(c: char)
    requires
        is_token_char(c),
    ensures
        is_token_char(ascii_lower(c)),
        ascii_lower(ascii_lower(c)) == ascii_lower(c),
{
}

/// A normalised header name is its own normal form.
pub proof fn lemma_header_name_form_idempotent(name: Seq<char>)
    requires
        header_name_form(name) is Some,
    ensures
        header_name_form(header_name_form(name).unwrap()) == header_name_form(name),
{
    let key = header_name_form(name).unwrap();
    assert forall|i: int| 0 <= i < key.len() implies is_token_char(#[trigger] key[i]) by {
        lemma_lower_token(name[i]);
    }
    assert forall|i: int| 0 <= i < key.len() implies #[trigger] ascii_lower(key[i]) == key[i] by {
        lemma_lower_token(name[i]);
    }
    assert(key.map_values(|c: char| ascii_lower(c)) =~= key);
}

/// Every header a scan keeps has a valid name in normal (lower-case) form and a valid
/// value, and no header that announces a multipart form is kept.
pub proof fn lemma_scanned_headers_are_valid(fields: Seq<(Seq<char>, Option<Seq<char>>)>)
    requires
        scan_headers(fields) is Ok,
    ensures
        forall|k: Seq<char>| #[trigger] scan_headers(fields).unwrap().0.contains_key(k) ==> {
            &&& header_name_form(k) == Some(k)
            &&& header_value_ok(scan_headers(fields).unwrap().0[k])
            &&& !is_multipart_value(scan_headers(fields).unwrap().0[k])
        },
    decreases fields.len(),
{
    if fields.len() > 0 {
        lemma_scanned_headers_are_valid(fields.drop_last());
        let value = or_empty(fields.last().1);
        if !is_multipart_value(value) {
            let name = fields.last().0;
            if header_name_form(name) is Some {
                lemma_header_name_form_idempotent(name);
            }
        }
    }
}

/// The address a request goes to begins with the given address; a query string is
/// added only when it is non-empty, after a `?`.
pub proof fn lemma_url_extends_address(uri: Seq<char>, params: Option<Seq<char>>)
    ensures
        request_url(uri, params).take(uri.len() as int) == uri,
        request_url(uri, params).len() > uri.len() <==> (params matches Some(p) && p.len() > 0),
{
    let u = request_url(uri, params);
    assert(u.take(uri.len() as int) =~= uri);
    if let Some(p) = params {
        if p.len() > 0 {
            assert("?"@.len() == 1) by { reveal_strlit("?"); }
        }
    }
}

/// A `GET` request never carries a body.
pub proof fn lemma_get_sends_no_body(
    uri: Seq<char>,
    params: Option<Seq<char>>,
    header: Seq<char>,
    body: Option<Seq<char>>,
    proxy: Option<Seq<char>>,
)
    ensures
        expected_plan(uri, params, "GET"@, header, body, proxy) matches Ok(plan) ==> plan.body == BodyView::Empty,
{
}

/// A header announcing a multipart form turns a non-empty body of a non-`GET`
/// request into a multipart form, and the announcement itself is not sent.
pub proof fn lemma_multipart_announcement(
    fields: Seq<(Seq<char>, Option<Seq<char>>)>,
    name: Seq<char>,
    value: Seq<char>,
)
    requires
        scan_headers(fields) is Ok,
        is_multipart_value(value),
    ensures
        scan_headers(fields.push((name, Some(value)))) == Ok::<(Map<Seq<char>, Seq<char>>, bool), HttpError>(
            (scan_headers(fields).unwrap().0, true)),
{
    assert(fields.push((name, Some(value))).drop_last() =~= fields);
}

/// Whether `c` is a token character.
pub fn token_char(c: char) -> (ok: bool)
    ensures
        ok == is_token_char(c),
{
    ('a' <= c && c <= 'z') || ('A' <= c && c <= 'Z') || ('0' <= c && c <= '9')
        || c == '!' || c == '#' || c == '$' || c == '%' || c == '&' || c == '\''
        || c == '*' || c == '+' || c == '-' || c == '.' || c == '^' || c == '_'
        || c == '`' || c == '|' || c == '~'
}

/// Whether `s` has at least `min` and at most `max` characters, all token characters.
fn all_token_chars(s: &str, min: usize, max: usize) -> (ok: bool)
    ensures
        ok == (min <= s@.len() <= max && forall|i: int| 0 <= i < s@.len() ==> is_token_char(#[trigger] s@[i])),
        s@.len() <= usize::MAX,
{
    let n = s.unicode_len();
    if n < min || n > max {
        return false;
    }
    let mut i: usize = 0;
    while i < n
        invariant
            n == s@.len(),
            i <= n,
            forall|j: int| 0 <= j < i ==> is_token_char(#[trigger] s@[j]),
        decreases n - i,
    {
        if !token_char(s.get_char(i)) {
            return false;
        }
        i = i + 1;
    }
    true
}

/// Whether `name` is a valid header name (what `HeaderName::from_str` accepts:
/// 1 to 65535 token characters).
pub fn header_name_valid(name: &str) -> (ok: bool)
    ensures
        ok == (header_name_form(name@) is Some),
{
    all_token_chars(name, 1, 65535)
}

/// Whether `value` is a valid header value (what `HeaderValue::from_str` accepts:
/// tabs and characters from space on, except DEL).
pub fn header_value_valid(value: &str) -> (ok: bool)
    ensures
        ok == header_value_ok(value@),
{
    let n = value.unicode_len();
    let mut i: usize = 0;
    while i < n
        invariant
            n == value@.len(),
            i <= n,
            forall|j: int| 0 <= j < i ==> is_header_value_char(#[trigger] value@[j]),
        decreases n - i,
    {
        let c = value.get_char(i);
        if !(c == '\t' || ((c as u32) >= 32 && (c as u32) != 127)) {
            return false;
        }
        i = i + 1;
    }
    true
}

/// Whether `method` is a valid HTTP method (what `Method::from_str` accepts: one or
/// more token characters).
pub fn method_valid(method: &str) -> (ok: bool)
    ensures
        ok == method_ok(method@),
{
    all_token_chars(method, 1, usize::MAX)
}

/// Whether `s` begins with `prefix`.
pub fn text_starts_with(s: &str, prefix: &str) -> (res: bool)
    ensures
        res == starts_with(s@, prefix@),
{
    let n = prefix.unicode_len();
    let m = s.unicode_len();
    if n > m {
        return false;
    }
    let mut i: usize = 0;
    while i < n
        invariant
            n == prefix@.len(),
            m == s@.len(),
            n <= m,
            i <= n,
            forall|j: int| 0 <= j < i ==> s@[j] == prefix@[j],
        decreases n - i,
    {
        if s.get_char(i) != prefix.get_char(i) {
            assert(s@.take(n as int)[i as int] != prefix@[i as int]);
            return false;
        }
        i = i + 1;
    }
    assert(s@.take(n as int) =~= prefix@);
    true
}

/// The address with the query string appended when there is a non-empty one.
pub fn build_url(uri: &str, params: &Option<String>) -> (url: String)
    ensures
        url@ == request_url(uri@, opt_text(*params)),
{
    let mut url = String::from_str(uri);
    if let Some(p) = params {
        if !p.as_str().is_empty() {
            url.append("?");
            url.append(p.as_str());
        }
    }
    url
}

/// Scans the header fields in order into a header map; see `scan_headers`.
/// `TooManyHeaders` comes only when the map refuses to grow at a valid header, which
/// it does not while fewer than `HEADER_CAPACITY` names are set.
pub fn collect_headers(fields: &Vec<(String, Option<String>)>) -> (res: Result<(HeaderMap, bool), HttpError>)
    ensures
        (match res {
            Ok((map, multipart)) => scans_to(field_texts(fields@), header_map_contents(map), multipart),
            Err(HttpError::TooManyHeaders) => exists|k: int| growth_refused_at(field_texts(fields@), k),
            Err(e) => scan_fails(field_texts(fields@), e),
        }),
{
    let ghost texts = field_texts(fields@);
    let mut map = header_map_new();
    let mut multipart = false;
    let mut i: usize = 0;
    proof {
        assert(texts.take(0) =~= Seq::<(Seq<char>, Option<Seq<char>>)>::empty());
    }
    while i < fields.len()
        invariant
            texts == field_texts(fields@),
            i <= fields.len(),
            scans_to(texts.take(i as int), header_map_contents(map), multipart),
            header_map_contents(map).dom().finite(),
            header_map_contents(map).len() <= i,
        decreases fields.len() - i,
    {
        proof {
            assert(texts.take(i + 1).drop_last() =~= texts.take(i as int));
            assert(texts.take(i + 1).last() == texts[i as int]);
        }
        let name = &fields[i].0;
        let value: &str = match &fields[i].1 {
            Some(v) => v.as_str(),
            None => "",
        };
        proof {
            reveal_strlit("");
            assert(value@ == or_empty(texts[i as int].1));
        }
        if text_starts_with(value, "multipart/form-data") {
            multipart = true;
        } else {
            if !header_name_valid(name.as_str()) {
                proof { lemma_scan_error_persists(texts, i + 1); }
                return Err(HttpError::InvalidHeaderName);
            }
            if !header_value_valid(value) {
                proof { lemma_scan_error_persists(texts, i + 1); }
                return Err(HttpError::InvalidHeaderValue);
            }
            let ghost before = header_map_contents(map);
            if !header_map_try_insert(&mut map, name.as_str(), value) {
                proof {
                    assert(growth_refused_at(texts, i as int));
                }
                return Err(HttpError::TooManyHeaders);
            }
            proof {
                let key = header_name_form(name@).unwrap();
                assert(header_map_contents(map).dom() =~= before.dom().insert(key));
            }
        }
        i = i + 1;
    }
    proof {
        assert(texts.take(fields.len() as int) =~= texts);
    }
    Ok((map, multipart))
}

/// Decides everything about an HTTP call before it is sent: the proxy (refused when
/// reqwest cannot use it), the address with its query string (refused when reqwest
/// cannot send to it), the headers taken from the JSON object in `request_header` (a value
/// starting with `multipart/form-data` marks the body as a multipart form instead),
/// the method, the proxy and the body (none for `GET`).
pub fn plan_request(
    request_uri: &str,
    request_params: Option<String>,
    request_type: String,
    request_header: &str,
    request_body: Option<String>,
    request_proxy: Option<String>,
) -> (res: Result<RequestPlan, HttpError>)
    ensures
        res matches Err(HttpError::TooManyHeaders) ==> exists|k: int| growth_refused_at(header_request(request_header@), k),
        !(res matches Err(HttpError::TooManyHeaders)) ==> plan_outcome(res) == expected_plan(
            request_uri@, opt_text(request_params), request_type@, request_header@,
            opt_text(request_body), opt_text(request_proxy)),
{
    let proxy = match request_proxy {
        Some(p) => if p.as_str().is_empty() { None } else { Some(p) },
        None => None,
    };
    if let Some(p) = &proxy {
        if !proxy_accepted(p.as_str()) {
            return Err(HttpError::InvalidProxy);
        }
    }
    let url = build_url(request_uri, &request_params);
    let fields: Vec<(String, Option<String>)> = if request_header.is_empty() {
        Vec::new()
    } else {
        match read_json(request_header) {
            Some(reading) => match reading.object_fields {
                Some(f) => f,
                None => Vec::new(),
            },
            None => Vec::new(),
        }
    };
    proof {
        assert(field_texts(fields@) =~= header_request(request_header@));
    }
    let (map, multipart) = match collect_headers(&fields) {
        Ok(scanned) => scanned,
        Err(e) => return Err(e),
    };
    if !method_valid(request_type.as_str()) {
        return Err(HttpError::InvalidMethod);
    }
    if !url_accepted(url.as_str()) {
        return Err(HttpError::InvalidUrl);
    }
    proof { reveal_strlit("GET"); }
    let is_get = request_type == String::from_str("GET");
    let body = match request_body {
        Some(b) => if !is_get && !b.as_str().is_empty() {
            if multipart { RequestBody::Multipart(b) } else { RequestBody::Text(b) }
        } else {
            RequestBody::Empty
        },
        None => RequestBody::Empty,
    };
    let headers = if header_map_is_empty(&map) { None } else { Some(map) };
    Ok(RequestPlan { url, method: request_type, proxy, headers, body })
}

/// One uploaded file of a multipart body.
pub struct MultipartFile {
    /// The form field the file goes under.
    pub key: String,
    /// The file's bytes in standard Base64.
    pub value: String,
    /// The file name the part announces.
    pub original_filename: String,
}

/// The description of a multipart body: the files to upload and the text fields,
/// in the order the text fields were read. No two text fields share a name.
#[allow(non_snake_case)]
pub struct Body {
    fileList: Vec<MultipartFile>,
    parameterMap: Vec<(String, String)>,
}

/// Whether no two text fields share a name.
pub open spec fn distinct_names(params: Seq<(String, String)>) -> bool {
    forall|i: int, j: int| 0 <= i < j < params.len() ==> #[trigger] params[i].0@ != #[trigger] params[j].0@
}

impl Body {
    /// The files to upload.
    pub closed spec fn files(self) -> Seq<MultipartFile> {
        self.fileList@
    }

    /// The text fields, as name and value.
    pub closed spec fn params(self) -> Seq<(String, String)> {
        self.parameterMap@
    }

    #[verifier::type_invariant]
    spec fn names_are_distinct(self) -> bool {
        distinct_names(self.parameterMap@)
    }

    /// A body with these files and text fields; `None` when two text fields share a
    /// name.
    pub fn new(files: Vec<MultipartFile>, params: Vec<(String, String)>) -> (res: Option<Body>)
        ensures
            res is Some <==> distinct_names(params@),
            res matches Some(b) ==> b.files() == files@ && b.params() == params@,
    {
        let n = params.len();
        let mut i: usize = 0;
        while i < n
            invariant
                n == params@.len(),
                i <= n,
                forall|a: int, b: int| 0 <= a < b < n && a < i ==> #[trigger] params@[a].0@ != #[trigger] params@[b].0@,
            decreases n - i,
        {
            let mut j: usize = i + 1;
            while j < n
                invariant
                    n == params@.len(),
                    i < n,
                    i + 1 <= j <= n,
                    forall|a: int, b: int| 0 <= a < b < n && a < i ==> #[trigger] params@[a].0@ != #[trigger] params@[b].0@,
                    forall|b: int| i < b < j ==> params@[i as int].0@ != #[trigger] params@[b].0@,
                decreases n - j,
            {
                if params[i].0 == params[j].0 {
                    proof {
                        assert(params@[i as int].0@ == params@[j as int].0@);
                    }
                    return None;
                }
                j = j + 1;
            }
            i = i + 1;
        }
        Some(Body { fileList: files, parameterMap: params })
    }

    /// The files to upload.
    pub fn file_list(&self) -> (files: &Vec<MultipartFile>)
        ensures
            files@ == self.files(),
    {
        &self.fileList
    }

    /// The text fields, whose names are distinct.
    pub fn parameter_map(&self) -> (params: &Vec<(String, String)>)
        ensures
            params@ == self.params(),
            distinct_names(params@),
    {
        proof { use_type_invariant(self); }
        &self.parameterMap
    }

    /// The files and the text fields, taken out of the body.
    pub fn into_parts(self) -> (parts: (Vec<MultipartFile>, Vec<(String, String)>))
        ensures
            parts.0@ == self.files(),
            parts.1@ == self.params(),
    {
        (self.fileList, self.parameterMap)
    }
}

/// One part of a multipart form.
#[derive(Debug, PartialEq, Eq)]
pub enum FormPart {
    /// A text field.
    Text { name: String, value: String },
    /// A file.
    File { name: String, bytes: Vec<u8>, file_name: String },
}

/// A form part as plain values.
pub enum PartView {
    Text(Seq<char>, Seq<char>),
    File(Seq<char>, Seq<u8>, Seq<char>),
}

/// A form part's plain values.
pub open spec fn part_view(p: FormPart) -> PartView {
    match p {
        FormPart::Text { name, value } => PartView::Text(name@, value@),
        FormPart::File { name, bytes, file_name } => PartView::File(name@, bytes@, file_name@),
    }
}

/// Whether every file of the body is valid Base64.
pub open spec fn files_decode(files: Seq<MultipartFile>) -> bool {
    forall|j: int| 0 <= j < files.len() ==> (#[trigger] base64_decoded(files[j].value@)) is Some
}

/// Whether `parts` are the text fields in order, followed by the decoded files in
/// order.
pub open spec fn parts_of(body: Body, parts: Seq<PartView>) -> bool {
    let n = body.params().len();
    &&& parts.len() == n + body.files().len()
    &&& forall|i: int| 0 <= i < n ==> #[trigger] parts[i] == PartView::Text(
        body.params()[i].0@, body.params()[i].1@)
    &&& forall|j: int| 0 <= j < body.files().len() ==> #[trigger] parts[n + j] == PartView::File(
        body.files()[j].key@,
        base64_decoded(body.files()[j].value@).unwrap(),
        body.files()[j].original_filename@)
}

/// The parts of a multipart body: its text fields in order, then its files in order
/// with their bytes decoded from Base64; fails when a file is not valid Base64.
pub fn form_parts(body: &Body) -> (res: Result<Vec<FormPart>, HttpError>)
    ensures
        res is Ok <==> files_decode(body.files()),
        res matches Ok(parts) ==> parts_of(*body, parts@.map_values(|p: FormPart| part_view(p))),
        res matches Err(e) ==> e == HttpError::InvalidBase64,
{
    let mut parts: Vec<FormPart> = Vec::new();
    let n = body.parameterMap.len();
    let mut i: usize = 0;
    while i < n
        invariant
            n == body.params().len(),
            i <= n,
            parts@.len() == i,
            forall|k: int| 0 <= k < i ==> #[trigger] part_view(parts@[k]) == PartView::Text(
                body.params()[k].0@, body.params()[k].1@),
        decreases n - i,
    {
        let name = body.parameterMap[i].0.clone();
        let value = body.parameterMap[i].1.clone();
        parts.push(FormPart::Text { name, value });
        i = i + 1;
    }
    let m = body.fileList.len();
    let mut j: usize = 0;
    while j < m
        invariant
            n == body.params().len(),
            m == body.files().len(),
            j <= m,
            parts@.len() == n + j,
            forall|k: int| 0 <= k < n ==> #[trigger] part_view(parts@[k]) == PartView::Text(
                body.params()[k].0@, body.params()[k].1@),
            forall|k: int| 0 <= k < j ==> (#[trigger] base64_decoded(body.files()[k].value@)) is Some,
            forall|k: int| 0 <= k < j ==> #[trigger] part_view(parts@[n + k]) == PartView::File(
                body.files()[k].key@,
                base64_decoded(body.files()[k].value@).unwrap(),
                body.files()[k].original_filename@),
        decreases m - j,
    {
        let file = &body.fileList[j];
        match base64_decode(file.value.as_str()) {
            Some(bytes) => {
                let name = file.key.clone();
                let file_name = file.original_filename.clone();
                parts.push(FormPart::File { name, bytes, file_name });
                proof {
                    assert(part_view(parts@[n + j as int]) == PartView::File(
                        body.files()[j as int].key@,
                        base64_decoded(body.files()[j as int].value@).unwrap(),
                        body.files()[j as int].original_filename@));
                }
            },
            None => {
                proof {
                    assert(!files_decode(body.files())) by {
                        assert(base64_decoded(body.files()[j as int].value@) is None);
                    }
                }
                return Err(HttpError::InvalidBase64);
            },
        }
        j = j + 1;
    }
    proof {
        let views = parts@.map_values(|p: FormPart| part_view(p));
        assert forall|k: int| 0 <= k < n implies #[trigger] views[k] == PartView::Text(
            body.params()[k].0@, body.params()[k].1@) by {
            assert(views[k] == part_view(parts@[k]));
        }
        assert forall|k: int| 0 <= k < m implies #[trigger] views[n + k] == PartView::File(
            body.files()[k].key@,
            base64_decoded(body.files()[k].value@).unwrap(),
            body.files()[k].original_filename@) by {
            assert(views[n + k] == part_view(parts@[n + k]));
        }
    }
    Ok(parts)
}

} // verus!
