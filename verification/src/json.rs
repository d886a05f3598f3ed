//! What this crate reads from and writes as JSON, through `serde_json`.
use vstd::prelude::*;
use vstd::string::{StringExecFns, StrSliceExecFns};
use crate::text::{digit_char, digit_text, opt_text};

verus! {

/// What reading a JSON text gives: its value written back in compact form, and,
/// when the value is an object, its fields in the order the parser walks them,
/// each with its value when that is a string.
pub struct JsonReading {
    /// The value in compact JSON.
    pub compact: String,
    /// The fields of an object value.
    pub object_fields: Option<Vec<(String, Option<String>)>>,
}

/// The texts of a list of JSON fields.
pub open spec fn field_texts(v: Seq<(String, Option<String>)>) -> Seq<(Seq<char>, Option<Seq<char>>)> {
    v.map_values(|p: (String, Option<String>)| (p.0@, opt_text(p.1)))
}

/// A reading as plain values.
pub open spec fn reading_view(r: JsonReading) -> (Seq<char>, Option<Seq<(Seq<char>, Option<Seq<char>>)>>) {
    (r.compact@, match r.object_fields {
        Some(f) => Some(field_texts(f@)),
        None => None,
    })
}

/// What reading a text as JSON gives (see `JsonReading`), or `None` when it is no
/// JSON.
pub uninterp spec fn json_reading(text: Seq<char>) -> Option<(Seq<char>, Option<Seq<(Seq<char>, Option<Seq<char>>)>>)>;

/// The compact JSON text of the value a text denotes, if it is JSON.
pub open spec fn json_canonical(text: Seq<char>) -> Option<Seq<char>> {
    match json_reading(text) {
        Some(r) => Some(r.0),
        None => None,
    }
}

/// The fields of the JSON object a text denotes; `None` when it is no JSON object.
pub open spec fn json_object_fields(text: Seq<char>) -> Option<Seq<(Seq<char>, Option<Seq<char>>)>> {
    match json_reading(text) {
        Some(r) => r.1,
        None => None,
    }
}

/// Reads a text as JSON with `serde_json::from_str`.
///
/// Trusted: the result is what `json_reading` names. The one call is `from_str`;
/// the parsed value, an outside type, is handed out as plain values: its compact
/// text (its `Display`) and, for an object, its fields as the map yields them.
#[verifier::external_body]
pub(crate) fn read_json(text: &str) -> (res: Option<JsonReading>)
    ensures
        (match res {
            Some(r) => json_reading(text@) == Some(reading_view(r)),
            None => json_reading(text@) is None,
        }),
{
    match serde_json::from_str::<serde_json::Value>(text) {
        Ok(value) => Some(JsonReading {
            compact: value.to_string(),
            object_fields: match value {
                serde_json::Value::Object(map) => Some(map.into_iter().map(|(k, v)| (k, match v {
                    serde_json::Value::String(s) => Some(s),
                    _ => None,
                })).collect()),
                _ => None,
            },
        }),
        Err(_) => None,
    }
}

/// A lower-case hexadecimal digit.
pub open spec fn hex_digit(d: nat) -> char {
    if d < 10 {
        digit_char(d)
    } else if d == 10 {
        'a'
    } else if d == 11 {
        'b'
    } else if d == 12 {
        'c'
    } else if d == 13 {
        'd'
    } else if d == 14 {
        'e'
    } else {
        'f'
    }
}

/// How JSON writes one character inside a string: quote and backslash escaped,
/// the usual short escapes for backspace, tab, line feed, form feed and carriage
/// return, `\u00XX` for the other control characters, everything else as it is.
pub open spec fn json_escape(c: char) -> Seq<char> {
    if c == '"' {
        seq!['\\', '"']
    } else if c == '\\' {
        seq!['\\', '\\']
    } else if c == '\u{8}' {
        seq!['\\', 'b']
    } else if c == '\t' {
        seq!['\\', 't']
    } else if c == '\n' {
        seq!['\\', 'n']
    } else if c == '\u{c}' {
        seq!['\\', 'f']
    } else if c == '\r' {
        seq!['\\', 'r']
    } else if (c as u32) < 32 {
        seq!['\\', 'u', '0', '0', hex_digit(((c as u32) / 16) as nat), hex_digit(((c as u32) % 16) as nat)]
    } else {
        seq![c]
    }
}

/// The characters of a text, each written as JSON writes it inside a string.
pub open spec fn json_escaped(s: Seq<char>) -> Seq<char>
    decreases s.len(),
{
    if s.len() == 0 {
        Seq::empty()
    } else {
        json_escaped(s.drop_last()) + json_escape(s.last())
    }
}

/// A text written as a JSON string.
pub open spec fn json_quoted(s: Seq<char>) -> Seq<char> {
    seq!['"'] + json_escaped(s) + seq!['"']
}

fn hex_text(d: u32) -> (t: &'static str)
    requires
        d < 16,
    ensures
        t@ == seq![hex_digit(d as nat)],
{
    if d < 10 {
        digit_text(d as u64)
    } else {
        proof {
            reveal_strlit("a");
            reveal_strlit("b");
            reveal_strlit("c");
            reveal_strlit("d");
            reveal_strlit("e");
            reveal_strlit("f");
        }
        match d {
            10 => "a",
            11 => "b",
            12 => "c",
            13 => "d",
            14 => "e",
            _ => "f",
        }
    }
}

/// Appends character `i` of `s` as JSON writes it inside a string.
fn push_escaped_char(out: &mut String, s: &str, i: usize)
    requires
        i < s@.len() <= usize::MAX,
    ensures
        final(out)@ == old(out)@ + json_escape(s@[i as int]),
{
    let c = s.get_char(i);
    proof {
        reveal_strlit("\\\"");
        reveal_strlit("\\\\");
        reveal_strlit("\\b");
        reveal_strlit("\\t");
        reveal_strlit("\\n");
        reveal_strlit("\\f");
        reveal_strlit("\\r");
        reveal_strlit("\\u00");
    }
    if c == '"' {
        out.append("\\\"");
    } else if c == '\\' {
        out.append("\\\\");
    } else if c == '\u{8}' {
        out.append("\\b");
    } else if c == '\t' {
        out.append("\\t");
    } else if c == '\n' {
        out.append("\\n");
    } else if c == '\u{c}' {
        out.append("\\f");
    } else if c == '\r' {
        out.append("\\r");
    } else if (c as u32) < 32 {
        out.append("\\u00");
        out.append(hex_text((c as u32) / 16));
        out.append(hex_text((c as u32) % 16));
    } else {
        out.append(s.substring_char(i, i + 1));
        proof {
            assert(s@.subrange(i as int, i + 1) =~= seq![c]);
        }
    }
}

/// Writes a text as a JSON string: between quotes, with the escapes `json_escape`
/// lists (the escapes of `serde_json`'s compact writer).
pub fn json_quote(s: &str) -> (quoted: String)
    ensures
        quoted@ == json_quoted(s@),
{
    proof { reveal_strlit("\""); }
    let n = s.unicode_len();
    let mut out = String::from_str("\"");
    let mut i: usize = 0;
    proof {
        assert(s@.take(0) =~= Seq::<char>::empty());
    }
    while i < n
        invariant
            n == s@.len(),
            i <= n,
            out@ == seq!['"'] + json_escaped(s@.take(i as int)),
        decreases n - i,
    {
        push_escaped_char(&mut out, s, i);
        proof {
            assert(s@.take(i + 1).drop_last() =~= s@.take(i as int));
            assert(s@.take(i + 1).last() == s@[i as int]);
        }
        i = i + 1;
    }
    out.append("\"");
    proof {
        assert(s@.take(n as int) =~= s@);
    }
    out
}

} // verus!
