//! Framing the answer of an HTTP call as one JSON object text.
use vstd::prelude::*;
use vstd::string::StringExecFns;
use vstd::utf8::{decode_utf8, valid_utf8};
use crate::text::{decimal, decimal_text, opt_text, utf8_string};
use crate::json::{json_canonical, json_quote, json_quoted, read_json};
use crate::request::HttpError;

verus! {

/// The JSON object that answers a call: the content type (when the response had
/// one), the response headers as one text, the body as JSON (`null` when it is no
/// JSON) and the status, keys in this order.
pub open spec fn result_json(
    content_type: Option<Seq<char>>,
    headers: Seq<char>,
    result: Option<Seq<char>>,
    status: Seq<char>,
) -> Seq<char> {
    seq!['{']
        + (match content_type {
            Some(ct) => "\"content_type\":"@ + json_quoted(ct) + seq![','],
            None => Seq::empty(),
        })
        + "\"headers\":"@ + json_quoted(headers) + seq![',']
        + "\"result\":"@ + (match result {
            Some(r) => r,
            None => "null"@,
        }) + seq![',']
        + "\"status\":"@ + status + seq!['}']
}

/// The answer to a call with the given response parts, or the error it fails with:
/// a content type that is not UTF-8 first, then a status that is not JSON.
pub open spec fn expected_result(
    content_type: Option<Seq<u8>>,
    status: u16,
    headers: Seq<char>,
    body: Seq<char>,
) -> Result<Seq<char>, HttpError> {
    match content_type {
        Some(ct) => if !valid_utf8(ct) {
            Err(HttpError::ContentTypeNotUtf8)
        } else {
            match json_canonical(decimal(status as nat)) {
                None => Err(HttpError::StatusNotJson),
                Some(st) => Ok(result_json(Some(decode_utf8(ct)), headers, json_canonical(body), st)),
            }
        },
        None => match json_canonical(decimal(status as nat)) {
            None => Err(HttpError::StatusNotJson),
            Some(st) => Ok(result_json(None, headers, json_canonical(body), st)),
        },
    }
}

/// An answer is one JSON object: it opens with `{`, closes with `}`, and its last
/// field is the status.
pub proof fn lemma_result_is_object(
    content_type: Option<Seq<char>>,
    headers: Seq<char>,
    result: Option<Seq<char>>,
    status: Seq<char>,
)
    ensures
        result_json(content_type, headers, result, status)[0] == '{',
        result_json(content_type, headers, result, status).last() == '}',
        ({
            let r = result_json(content_type, headers, result, status);
            let tail = "\"status\":"@ + status + seq!['}'];
            r.subrange(r.len() - tail.len(), r.len() as int) == tail
        }),
{
    let r = result_json(content_type, headers, result, status);
    let tail = "\"status\":"@ + status + seq!['}'];
    let head = r.subrange(0, r.len() - tail.len());
    assert(r =~= head + tail);
    assert(r.subrange(r.len() - tail.len(), r.len() as int) =~= tail);
}

/// Whatever the status and content type, a successful answer ends with the `result`
/// field holding the body's compact JSON (`null` only when the body is no JSON),
/// followed by the `status` field and the closing brace; it begins with the content
/// type field when there is a content type, then the headers as a JSON string.
pub proof fn lemma_answer_carries_body(
    content_type: Option<Seq<u8>>,
    status: u16,
    headers: Seq<char>,
    body: Seq<char>,
)
    ensures
        expected_result(content_type, status, headers, body) matches Ok(r) ==> {
            let result_text = match json_canonical(body) {
                Some(c) => c,
                None => "null"@,
            };
            let tail = "\"result\":"@ + result_text + seq![','] + "\"status\":"@
                + json_canonical(decimal(status as nat)).unwrap() + seq!['}'];
            let head = seq!['{'] + (match content_type {
                Some(ct) => "\"content_type\":"@ + json_quoted(decode_utf8(ct)) + seq![','],
                None => Seq::empty(),
            }) + "\"headers\":"@ + json_quoted(headers) + seq![','];
            r == head + tail
        },
        expected_result(content_type, status, headers, body) is Ok <==> (
            (content_type matches Some(ct) ==> valid_utf8(ct)) && json_canonical(decimal(status as nat)) is Some),
{
    if let Ok(r) = expected_result(content_type, status, headers, body) {
        let result_text = match json_canonical(body) {
            Some(c) => c,
            None => "null"@,
        };
        let tail = "\"result\":"@ + result_text + seq![','] + "\"status\":"@
            + json_canonical(decimal(status as nat)).unwrap() + seq!['}'];
        let head = seq!['{'] + (match content_type {
            Some(ct) => "\"content_type\":"@ + json_quoted(decode_utf8(ct)) + seq![','],
            None => Seq::empty(),
        }) + "\"headers\":"@ + json_quoted(headers) + seq![','];
        assert(r =~= head + tail);
    }
}

/// A result text as plain values.
pub open spec fn result_outcome(res: Result<String, HttpError>) -> Result<Seq<char>, HttpError> {
    match res {
        Ok(s) => Ok(s@),
        Err(e) => Err(e),
    }
}

/// The bytes of an optional byte vector.
pub open spec fn opt_bytes(o: Option<Vec<u8>>) -> Option<Seq<u8>> {
    match o {
        Some(b) => Some(b@),
        None => None,
    }
}

/// Frames the answer to a call from the response's content type (raw bytes, if the
/// response had one), status code, headers (as one text) and body text.
pub fn format_result(content_type: Option<Vec<u8>>, status: u16, headers: &str, body: &str) -> (res: Result<String, HttpError>)
    ensures
        result_outcome(res) == expected_result(opt_bytes(content_type), status, headers@, body@),
{
    let content_type_text: Option<String> = match content_type {
        Some(bytes) => match utf8_string(bytes.as_slice()) {
            Some(t) => Some(t),
            None => return Err(HttpError::ContentTypeNotUtf8),
        },
        None => None,
    };
    let status_text = decimal_text(status as u64);
    let status_json = match read_json(status_text.as_str()) {
        Some(reading) => reading.compact,
        None => return Err(HttpError::StatusNotJson),
    };
    let result = match read_json(body) {
        Some(reading) => Some(reading.compact),
        None => None,
    };
    let mut out = String::new();
    out.append("{");
    match &content_type_text {
        Some(ct) => {
            out.append("\"content_type\":");
            let q = json_quote(ct.as_str());
            out.append(q.as_str());
            out.append(",");
        },
        None => {},
    }
    out.append("\"headers\":");
    let qh = json_quote(headers);
    out.append(qh.as_str());
    out.append(",");
    out.append("\"result\":");
    match &result {
        Some(r) => out.append(r.as_str()),
        None => out.append("null"),
    }
    out.append(",");
    out.append("\"status\":");
    out.append(status_json.as_str());
    out.append("}");
    proof {
        reveal_strlit("{");
        reveal_strlit(",");
        reveal_strlit("}");
        let ct = opt_text(content_type_text);
        assert(out@ =~= result_json(ct, headers@, opt_text(result), status_json@));
    }
    Ok(out)
}

} // verus!
