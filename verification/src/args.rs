//! Reading the SQL arguments that a UDF call hands over.
use vstd::prelude::*;
use vstd::string::StringExecFns;
use vstd::utf8::{decode_utf8, valid_utf8};
use crate::text::{opt_text, utf8_string};

verus! {

/// One SQL argument of a UDF call.
#[derive(Debug, PartialEq, Eq)]
pub enum SqlValue {
    /// A string argument: its raw bytes, or `None` for SQL NULL.
    Bytes(Option<Vec<u8>>),
    /// An integer argument, or `None` for SQL NULL.
    Int(Option<i64>),
    /// A real or decimal argument; no function of this crate reads one.
    Other,
}

/// The text of argument `i`: present when it is a non-NULL string argument whose
/// bytes are valid UTF-8.
pub open spec fn string_arg(args: Seq<SqlValue>, i: int) -> Option<Seq<char>> {
    if 0 <= i < args.len() {
        match args[i] {
            SqlValue::Bytes(Some(b)) => if valid_utf8(b@) { Some(decode_utf8(b@)) } else { None },
            _ => None,
        }
    } else {
        None
    }
}

/// As `string_arg`, but an empty string counts as absent.
pub open spec fn nonempty_string_arg(args: Seq<SqlValue>, i: int) -> Option<Seq<char>> {
    if 0 <= i < args.len() {
        match args[i] {
            SqlValue::Bytes(Some(b)) => if b@.len() > 0 { string_arg(args, i) } else { None },
            _ => None,
        }
    } else {
        None
    }
}

/// The value of argument `i` when it is a non-NULL integer argument.
pub open spec fn int_arg(args: Seq<SqlValue>, i: int) -> Option<i64> {
    if 0 <= i < args.len() {
        match args[i] {
            SqlValue::Int(Some(v)) => Some(v),
            _ => None,
        }
    } else {
        None
    }
}

/// The text of `o`, or the empty text when absent.
pub open spec fn or_empty(o: Option<Seq<char>>) -> Seq<char> {
    match o {
        Some(s) => s,
        None => Seq::empty(),
    }
}

/// An argument that counts as present is never the empty text.
pub proof fn lemma_present_arg_not_empty(args: Seq<SqlValue>, i: int)
    ensures
        nonempty_string_arg(args, i) matches Some(s) ==> s.len() > 0,
{
    if let Some(s) = nonempty_string_arg(args, i) {
        if let SqlValue::Bytes(Some(b)) = args[i] {
            assert(s == decode_utf8(b@));
            assert(b@.len() > 0);
        }
    }
}

/// Argument `index` as text when it is a non-empty string, else `None`.
pub fn nonempty_text_arg(args: &Vec<SqlValue>, index: usize) -> (res: Option<String>)
    ensures
        opt_text(res) == nonempty_string_arg(args@, index as int),
{
    if index < args.len() {
        match &args[index] {
            SqlValue::Bytes(Some(bytes)) => {
                if bytes.len() > 0 {
                    utf8_string(bytes.as_slice())
                } else {
                    None
                }
            },
            _ => None,
        }
    } else {
        None
    }
}

/// Argument `index` as text when it is a string (empty or not), else `None`.
pub fn text_arg(args: &Vec<SqlValue>, index: usize) -> (res: Option<String>)
    ensures
        opt_text(res) == string_arg(args@, index as int),
{
    if index < args.len() {
        match &args[index] {
            SqlValue::Bytes(Some(bytes)) => utf8_string(bytes.as_slice()),
            _ => None,
        }
    } else {
        None
    }
}

/// Argument `index` as text when it is a non-empty string, else the empty string.
pub fn get_string_param(args: &Vec<SqlValue>, index: usize) -> (res: String)
    ensures
        res@ == or_empty(nonempty_string_arg(args@, index as int)),
{
    match nonempty_text_arg(args, index) {
        Some(s) => s,
        None => String::new(),
    }
}

/// The first argument as text when it is a non-empty string, else the empty string.
pub fn get_ip(args: &Vec<SqlValue>) -> (res: String)
    ensures
        res@ == or_empty(nonempty_string_arg(args@, 0)),
{
    get_string_param(args, 0)
}

/// Argument `index` as an integer when it is a non-NULL integer, else 0.
pub fn get_int_param(args: &Vec<SqlValue>, index: usize) -> (res: i64)
    ensures
        res == (match int_arg(args@, index as int) {
            Some(v) => v,
            None => 0i64,
        }),
{
    if index < args.len() {
        match &args[index] {
            SqlValue::Int(Some(v)) => *v,
            _ => 0,
        }
    } else {
        0
    }
}

/// The socket descriptor: the first argument when it is a non-NULL integer, else 0.
pub fn get_fd(args: &Vec<SqlValue>) -> (res: i64)
    ensures
        res == (match int_arg(args@, 0) {
            Some(v) => v,
            None => 0i64,
        }),
{
    get_int_param(args, 0)
}

/// The message to send: the second argument as text when it is a string (it may be
/// empty), else the empty string.
pub fn get_msg(args: &Vec<SqlValue>) -> (res: String)
    ensures
        res@ == or_empty(string_arg(args@, 1)),
{
    match text_arg(args, 1) {
        Some(s) => s,
        None => String::new(),
    }
}

/// The six arguments of an HTTP call.
#[derive(Debug, PartialEq, Eq)]
pub struct HttpArgs {
    /// The address to call.
    pub url: String,
    /// The query string to append, if any.
    pub params: Option<String>,
    /// The HTTP method.
    pub method: String,
    /// The request headers as a JSON object, or empty.
    pub header: String,
    /// The request body, if any.
    pub body: Option<String>,
    /// The proxy address, if any.
    pub proxy: Option<String>,
}

/// The six arguments of an HTTP call as plain values.
#[verifier::ext_equal]
pub struct HttpArgsView {
    pub url: Seq<char>,
    pub params: Option<Seq<char>>,
    pub method: Seq<char>,
    pub header: Seq<char>,
    pub body: Option<Seq<char>>,
    pub proxy: Option<Seq<char>>,
}

/// The arguments' plain values.
pub open spec fn http_args_view(a: HttpArgs) -> HttpArgsView {
    HttpArgsView {
        url: a.url@,
        params: opt_text(a.params),
        method: a.method@,
        header: a.header@,
        body: opt_text(a.body),
        proxy: opt_text(a.proxy),
    }
}

/// What the arguments of an HTTP call are read as.
pub open spec fn expected_http_args(args: Seq<SqlValue>) -> HttpArgsView {
    HttpArgsView {
        url: or_empty(nonempty_string_arg(args, 0)),
        params: nonempty_string_arg(args, 1),
        method: match nonempty_string_arg(args, 2) {
            Some(m) => m,
            None => seq!['G', 'E', 'T'],
        },
        header: or_empty(nonempty_string_arg(args, 3)),
        body: nonempty_string_arg(args, 4),
        proxy: nonempty_string_arg(args, 5),
    }
}

/// The arguments with argument `i` set to `v`, missing arguments before it filled
/// with values that read as absent.
pub open spec fn with_arg(args: Seq<SqlValue>, i: int, v: SqlValue) -> Seq<SqlValue> {
    if i < args.len() {
        args.update(i, v)
    } else {
        (args + Seq::new((i - args.len()) as nat, |k: int| SqlValue::Other)).push(v)
    }
}

/// Setting argument `i` changes what no other argument reads as.
proof fn lemma_with_arg_keeps_others(args: Seq<SqlValue>, i: int, v: SqlValue, j: int)
    requires
        0 <= i,
        j != i,
    ensures
        nonempty_string_arg(with_arg(args, i, v), j) == nonempty_string_arg(args, j),
{
    let w = with_arg(args, i, v);
    if 0 <= j < args.len() {
        assert(w[j] == args[j]);
    } else if 0 <= j < w.len() {
        assert(w[j] == SqlValue::Other);
    }
}

/// A method argument that is absent, NULL, empty or not a string acts as the
/// argument `GET`: the call is read the same way.
pub proof fn lemma_absent_method_is_get(args: Seq<SqlValue>, get: Vec<u8>)
    requires
        nonempty_string_arg(args, 2) is None,
        get@ == vstd::utf8::encode_utf8(seq!['G', 'E', 'T']),
    ensures
        expected_http_args(with_arg(args, 2, SqlValue::Bytes(Some(get)))) == expected_http_args(args),
{
    let w = with_arg(args, 2, SqlValue::Bytes(Some(get)));
    vstd::utf8::encode_utf8_valid_utf8(seq!['G', 'E', 'T']);
    vstd::utf8::encode_utf8_decode_utf8(seq!['G', 'E', 'T']);
    assert(get@.len() > 0) by {
        if get@.len() == 0 {
            assert(decode_utf8(get@) =~= Seq::<char>::empty());
        }
    }
    assert(w[2] == SqlValue::Bytes(Some(get)));
    assert(nonempty_string_arg(w, 2) == Some(seq!['G', 'E', 'T']));
    lemma_with_arg_keeps_others(args, 2, SqlValue::Bytes(Some(get)), 0);
    lemma_with_arg_keeps_others(args, 2, SqlValue::Bytes(Some(get)), 1);
    lemma_with_arg_keeps_others(args, 2, SqlValue::Bytes(Some(get)), 3);
    lemma_with_arg_keeps_others(args, 2, SqlValue::Bytes(Some(get)), 4);
    lemma_with_arg_keeps_others(args, 2, SqlValue::Bytes(Some(get)), 5);
}

/// Any argument that is absent, NULL, empty or not a string acts as an empty string
/// argument: the address, headers, query string, body and proxy read as empty or
/// absent, and the method as `GET`.
pub proof fn lemma_absent_arg_is_empty(args: Seq<SqlValue>, i: int, empty: Vec<u8>)
    requires
        0 <= i,
        nonempty_string_arg(args, i) is None,
        empty@.len() == 0,
    ensures
        expected_http_args(with_arg(args, i, SqlValue::Bytes(Some(empty)))) == expected_http_args(args),
{
    let w = with_arg(args, i, SqlValue::Bytes(Some(empty)));
    assert(w[i] == SqlValue::Bytes(Some(empty)));
    assert(nonempty_string_arg(w, i) is None);
    if i != 0 {
        lemma_with_arg_keeps_others(args, i, SqlValue::Bytes(Some(empty)), 0);
    }
    if i != 1 {
        lemma_with_arg_keeps_others(args, i, SqlValue::Bytes(Some(empty)), 1);
    }
    if i != 2 {
        lemma_with_arg_keeps_others(args, i, SqlValue::Bytes(Some(empty)), 2);
    }
    if i != 3 {
        lemma_with_arg_keeps_others(args, i, SqlValue::Bytes(Some(empty)), 3);
    }
    if i != 4 {
        lemma_with_arg_keeps_others(args, i, SqlValue::Bytes(Some(empty)), 4);
    }
    if i != 5 {
        lemma_with_arg_keeps_others(args, i, SqlValue::Bytes(Some(empty)), 5);
    }
    assert(nonempty_string_arg(w, 0) == nonempty_string_arg(args, 0));
    assert(nonempty_string_arg(w, 1) == nonempty_string_arg(args, 1));
    assert(nonempty_string_arg(w, 2) == nonempty_string_arg(args, 2));
    assert(nonempty_string_arg(w, 3) == nonempty_string_arg(args, 3));
    assert(nonempty_string_arg(w, 4) == nonempty_string_arg(args, 4));
    assert(nonempty_string_arg(w, 5) == nonempty_string_arg(args, 5));
}

/// Reads the arguments of an HTTP call: address, query string, method (by default
/// `GET`), headers, body and proxy; an empty or non-string argument counts as absent.
pub fn http_args(args: &Vec<SqlValue>) -> (res: HttpArgs)
    ensures
        res.url@ == or_empty(nonempty_string_arg(args@, 0)),
        opt_text(res.params) == nonempty_string_arg(args@, 1),
        res.method@ == (match nonempty_string_arg(args@, 2) {
            Some(m) => m,
            None => seq!['G', 'E', 'T'],
        }),
        res.header@ == or_empty(nonempty_string_arg(args@, 3)),
        opt_text(res.body) == nonempty_string_arg(args@, 4),
        opt_text(res.proxy) == nonempty_string_arg(args@, 5),
        http_args_view(res) == expected_http_args(args@),
{
    let url = get_string_param(args, 0);
    let params = nonempty_text_arg(args, 1);
    let method = match nonempty_text_arg(args, 2) {
        Some(m) => m,
        None => {
            proof { reveal_strlit("GET"); }
            String::from_str("GET")
        },
    };
    let header = get_string_param(args, 3);
    let body = nonempty_text_arg(args, 4);
    let proxy = nonempty_text_arg(args, 5);
    let res = HttpArgs { url, params, method, header, body, proxy };
    assert(http_args_view(res) =~= expected_http_args(args@));
    res
}

} // verus!
