//! Decimal rendering of integers and small text helpers shared by the other modules.
use vstd::prelude::*;
use vstd::string::StringExecFns;
use vstd::utf8::{decode_utf8, valid_utf8};

verus! {

/// The character of a decimal digit.
pub open spec fn digit_char(d: nat) -> char {
    if d == 0 { '0' }
    else if d == 1 { '1' }
    else if d == 2 { '2' }
    else if d == 3 { '3' }
    else if d == 4 { '4' }
    else if d == 5 { '5' }
    else if d == 6 { '6' }
    else if d == 7 { '7' }
    else if d == 8 { '8' }
    else { '9' }
}

/// The value of a decimal digit character, if it is one.
pub open spec fn digit_value(c: char) -> Option<nat> {
    if '0' <= c && c <= '9' { Some((c as nat - '0' as nat) as nat) } else { None }
}

/// The shortest decimal rendering of `n`, most significant digit first.
pub open spec fn decimal(n: nat) -> Seq<char>
    decreases n,
{
    if n < 10 {
        seq![digit_char(n)]
    } else {
        decimal(n / 10).push(digit_char(n % 10))
    }
}

/// The number that a string of decimal digits denotes (`None` if a character is no digit).
pub open spec fn decimal_value(s: Seq<char>) -> Option<nat>
    decreases s.len(),
{
    if s.len() == 0 {
        Some(0)
    } else {
        match (decimal_value(s.drop_last()), digit_value(s.last())) {
            (Some(high), Some(low)) => Some(high * 10 + low),
            _ => None,
        }
    }
}

/// The rendering of a signed integer: a minus sign before the magnitude when negative.
pub open spec fn signed_decimal(n: int) -> Seq<char> {
    if n < 0 { seq!['-'] + decimal((-n) as nat) } else { decimal(n as nat) }
}

/// The number that an optional minus sign followed by decimal digits denotes.
pub open spec fn signed_value(s: Seq<char>) -> Option<int> {
    if s.len() > 0 && s[0] == '-' {
        match decimal_value(s.drop_first()) {
            Some(v) => Some(-(v as int)),
            None => None,
        }
    } else {
        match decimal_value(s) {
            Some(v) => Some(v as int),
            None => None,
        }
    }
}

/// A signed rendering reads back as the number, and holds only digits and at most a
/// leading minus sign (so no comma).
pub proof fn lemma_signed_decimal_roundtrip(n: int)
    ensures
        signed_value(signed_decimal(n)) == Some(n),
        signed_decimal(n).len() >= 1,
        forall|i: int| 0 <= i < signed_decimal(n).len() ==> (#[trigger] signed_decimal(n)[i] == '-' && i == 0 && n < 0)
            || ('0' <= signed_decimal(n)[i] && signed_decimal(n)[i] <= '9'),
{
    if n < 0 {
        let m = (-n) as nat;
        lemma_decimal_roundtrip(m);
        let s = signed_decimal(n);
        assert(s.drop_first() =~= decimal(m));
        assert forall|i: int| 0 <= i < s.len() implies (#[trigger] s[i] == '-' && i == 0 && n < 0)
            || ('0' <= s[i] && s[i] <= '9') by {
            if i > 0 {
                assert(s[i] == decimal(m)[i - 1]);
            }
        }
    } else {
        lemma_decimal_roundtrip(n as nat);
        assert(decimal(n as nat)[0] <= '9');
    }
}

/// A digit's character reads back as the digit.
pub proof fn lemma_digit_char(d: nat)
    requires
        d < 10,
    ensures
        digit_value(digit_char(d)) == Some(d),
        (d == 0) == (digit_char(d) == '0'),
{
    if d == 0 {
        assert(digit_value('0') == Some(0nat));
    } else if d == 1 {
        assert(digit_value('1') == Some(1nat));
    } else if d == 2 {
        assert(digit_value('2') == Some(2nat));
    } else if d == 3 {
        assert(digit_value('3') == Some(3nat));
    } else if d == 4 {
        assert(digit_value('4') == Some(4nat));
    } else if d == 5 {
        assert(digit_value('5') == Some(5nat));
    } else if d == 6 {
        assert(digit_value('6') == Some(6nat));
    } else if d == 7 {
        assert(digit_value('7') == Some(7nat));
    } else if d == 8 {
        assert(digit_value('8') == Some(8nat));
    } else {
        assert(digit_value('9') == Some(9nat));
    }
}

/// Reading the rendering back gives the number: the rendering is exact.
pub proof fn lemma_decimal_roundtrip(n: nat)
    ensures
        decimal_value(decimal(n)) == Some(n),
        decimal(n).len() >= 1,
        n > 0 ==> decimal(n)[0] != '0',
        forall|i: int| 0 <= i < decimal(n).len() ==> '0' <= #[trigger] decimal(n)[i] && decimal(n)[i] <= '9',
    decreases n,
{
    if n >= 10 {
        lemma_decimal_roundtrip(n / 10);
        let s = decimal(n);
        lemma_digit_char((n % 10) as nat);
        assert forall|i: int| 0 <= i < s.len() implies '0' <= #[trigger] s[i] && s[i] <= '9' by {
            if i < s.len() - 1 {
                assert(s[i] == decimal(n / 10)[i]);
            }
        }
        assert(s.drop_last() =~= decimal(n / 10));
        assert(s.last() == digit_char(n % 10));
        assert(decimal(n)[0] == decimal(n / 10)[0]);
        lemma_digit_char((n % 10) as nat);
        assert(decimal_value(s) == Some((n / 10) * 10 + n % 10));
        assert((n / 10) * 10 + n % 10 == n) by (nonlinear_arith);
    } else {
        assert(decimal(n) =~= seq![digit_char(n)]);
        lemma_digit_char(n);
        assert(decimal(n).drop_last() =~= Seq::<char>::empty());
        assert(decimal_value(Seq::<char>::empty()) == Some(0nat));
        assert(decimal_value(decimal(n)) == Some(0 * 10 + n));
    }
}

pub(crate) fn digit_text(d: u64) -> (t: &'static str)
    requires
        d < 10,
    ensures
        t@ == seq![digit_char(d as nat)],
{
    proof {
        reveal_strlit("0");
        reveal_strlit("1");
        reveal_strlit("2");
        reveal_strlit("3");
        reveal_strlit("4");
        reveal_strlit("5");
        reveal_strlit("6");
        reveal_strlit("7");
        reveal_strlit("8");
        reveal_strlit("9");
    }
    match d {
        0 => "0",
        1 => "1",
        2 => "2",
        3 => "3",
        4 => "4",
        5 => "5",
        6 => "6",
        7 => "7",
        8 => "8",
        _ => "9",
    }
}

/// Appends the decimal rendering of `n` to `out`.
pub fn push_decimal(out: &mut String, n: u64)
    ensures
        final(out)@ == old(out)@ + decimal(n as nat),
    decreases n,
{
    if n >= 10 {
        push_decimal(out, n / 10);
    }
    out.append(digit_text(n % 10));
    proof {
        if n >= 10 {
            assert(decimal(n as nat) == decimal((n / 10) as nat).push(digit_char((n % 10) as nat)));
        }
    }
}

/// Appends the decimal rendering of a signed `n` to `out`.
pub fn push_signed_decimal(out: &mut String, n: i64)
    ensures
        final(out)@ == old(out)@ + signed_decimal(n as int),
{
    if n < 0 {
        proof { reveal_strlit("-"); }
        out.append("-");
        let magnitude: u64 = if n == i64::MIN { 9223372036854775808u64 } else { (-n) as u64 };
        push_decimal(out, magnitude);
    } else {
        push_decimal(out, n as u64);
    }
}

/// The decimal rendering of `n` as a new string.
pub fn decimal_text(n: u64) -> (s: String)
    ensures
        s@ == decimal(n as nat),
{
    let mut s = String::new();
    push_decimal(&mut s, n);
    s
}

/// The text of an optional string, as a sequence of characters.
pub open spec fn opt_text(o: Option<String>) -> Option<Seq<char>> {
    match o {
        Some(s) => Some(s@),
        None => None,
    }
}

/// Decodes `bytes` as UTF-8 with `std::str::from_utf8`.
///
/// Trusted: `from_utf8` is documented to succeed exactly on valid UTF-8 and then to
/// denote the characters that the bytes encode; vstd's `valid_utf8` and `decode_utf8`
/// state those two facts.
#[verifier::external_body]
pub(crate) fn utf8_string(bytes: &[u8]) -> (res: Option<String>)
    ensures
        res is Some <==> valid_utf8(bytes@),
        res matches Some(s) ==> s@ == decode_utf8(bytes@),
{
    match std::str::from_utf8(bytes) {
        Ok(s) => Some(s.to_string()),
        Err(_) => None,
    }
}

} // verus!
