//! JSON documents as text. The library keeps every JSON document it handles
//! in canonical text form: the text a parse-and-print round trip produces.
//! Parsing and printing are the JSON library's; what this module adds and
//! verifies is quoting of strings into JSON string literals.

use vstd::prelude::*;
use crate::errors::MockError;

verus! {

/// Whether the text parses as one JSON document; a property of the text
/// alone.
pub uninterp spec fn json_wf(s: Seq<char>) -> bool;

/// The canonical text of a JSON document: what printing the parsed value
/// gives; a function of the text alone.
pub uninterp spec fn json_canon_of(s: Seq<char>) -> Seq<char>;

/// Relies on serde_json::from_str::<Value> and serde_json::to_string:
/// whether a text parses is a function of the text alone, and so is the
/// printed form of the parsed value (object keys are kept sorted by the
/// default map). Printing a `Value` cannot fail, and what it prints parses
/// back to the same value, so canonical text is a fixed point.
#[verifier::external_body]
pub(crate) fn canon_json(s: &str) -> (r: Option<String>)
    ensures
        r is Some <==> json_wf(s@),
        r matches Some(t) ==> t@ == json_canon_of(s@) && json_wf(t@) && json_canon_of(t@) == t@,
{
    match serde_json::from_str::<serde_json::Value>(s) {
        Ok(v) => serde_json::to_string(&v).ok(),
        Err(_) => None,
    }
}

/// Parse a document and return its canonical text, or say that the text is
/// not JSON.
pub fn canonical_json(s: &str) -> (r: Result<String, MockError>)
    ensures
        r is Ok <==> json_wf(s@),
        r matches Ok(t) ==> t@ == json_canon_of(s@) && json_wf(t@) && json_canon_of(t@) == t@,
        r matches Err(e) ==> e matches MockError::InvalidInput(_),
{
    match canon_json(s) {
        Some(t) => Ok(t),
        None => Err(MockError::InvalidInput(String::from_str("the text is not valid JSON"))),
    }
}

/// The lower-case hexadecimal digit of a value below 16.
pub open spec fn hex_digit(n: int) -> char {
    if n == 0 {
        '0'
    } else if n == 1 {
        '1'
    } else if n == 2 {
        '2'
    } else if n == 3 {
        '3'
    } else if n == 4 {
        '4'
    } else if n == 5 {
        '5'
    } else if n == 6 {
        '6'
    } else if n == 7 {
        '7'
    } else if n == 8 {
        '8'
    } else if n == 9 {
        '9'
    } else if n == 10 {
        'a'
    } else if n == 11 {
        'b'
    } else if n == 12 {
        'c'
    } else if n == 13 {
        'd'
    } else if n == 14 {
        'e'
    } else {
        'f'
    }
}

/// How one character appears inside a JSON string literal: quotes and
/// backslashes are escaped, control characters become `\u00XX`, everything
/// else stands for itself.
pub open spec fn esc_char(c: char) -> Seq<char> {
    if c == '"' {
        seq!['\\', '"']
    } else if c == '\\' {
        seq!['\\', '\\']
    } else if (c as u32) < 32 {
        seq!['\\', 'u', '0', '0', hex_digit(c as u32 as int / 16), hex_digit(c as u32 as int % 16)]
    } else {
        seq![c]
    }
}

/// The escaped body of a JSON string literal.
pub open spec fn esc_all(s: Seq<char>) -> Seq<char>
    decreases s.len(),
{
    if s.len() == 0 {
        Seq::empty()
    } else {
        esc_all(s.drop_last()) + esc_char(s.last())
    }
}

/// The JSON string literal denoting `s`.
pub open spec fn json_quoted(s: Seq<char>) -> Seq<char> {
    seq!['"'] + esc_all(s) + seq!['"']
}

/// The literal text of one lower-case hexadecimal digit.
fn hex_digit_str(n: u32) -> (r: &'static str)
    requires
        n < 16,
    ensures
        r@ == seq![hex_digit(n as int)],
{
    proof {
        reveal_strlit("0");
        reveal_strlit("1");
        reveal_strlit("2");
        reveal_strlit("3");
        reveal_strlit("4");
        reveal_strlit("5");
        reveal_strlit("6");
        reveal_strlit("7");
        reveal_strlit("8");
        reveal_strlit("9");
        reveal_strlit("a");
        reveal_strlit("b");
        reveal_strlit("c");
        reveal_strlit("d");
        reveal_strlit("e");
        reveal_strlit("f");
    }
    if n == 0 {
        "0"
    } else if n == 1 {
        "1"
    } else if n == 2 {
        "2"
    } else if n == 3 {
        "3"
    } else if n == 4 {
        "4"
    } else if n == 5 {
        "5"
    } else if n == 6 {
        "6"
    } else if n == 7 {
        "7"
    } else if n == 8 {
        "8"
    } else if n == 9 {
        "9"
    } else if n == 10 {
        "a"
    } else if n == 11 {
        "b"
    } else if n == 12 {
        "c"
    } else if n == 13 {
        "d"
    } else if n == 14 {
        "e"
    } else {
        "f"
    }
}

/// Quote `s` as a JSON string literal.
pub fn json_quote(s: &str) -> (r: String)
    ensures
        r@ == json_quoted(s@),
{
    let n = s.unicode_len();
    let mut out = String::from_str("\"");
    proof {
        reveal_strlit("\"");
        assert(s@.take(0) =~= Seq::<char>::empty());
        assert(out@ =~= seq!['"'] + esc_all(s@.take(0)));
    }
    let mut i: usize = 0;
    while i < n
        invariant
            n == s@.len(),
            0 <= i <= n,
            out@ == seq!['"'] + esc_all(s@.take(i as int)),
        decreases n - i,
    {
        let ghost pre = s@.take(i as int);
        let ghost cur = s@.take(i + 1);
        proof {
            assert(cur.drop_last() =~= pre);
            assert(cur.last() == s@[i as int]);
        }
        let c = s.get_char(i);
        if c == '"' {
            out.append("\\\"");
            proof {
                reveal_strlit("\\\"");
                assert("\\\""@ =~= esc_char(c));
            }
        } else if c == '\\' {
            out.append("\\\\");
            proof {
                reveal_strlit("\\\\");
                assert("\\\\"@ =~= esc_char(c));
            }
        } else if (c as u32) < 32 {
            let x = c as u32;
            out.append("\\u00");
            out.append(hex_digit_str(x / 16));
            out.append(hex_digit_str(x % 16));
            proof {
                reveal_strlit("\\u00");
                assert("\\u00"@ + seq![hex_digit(x as int / 16)] + seq![
                    hex_digit(x as int % 16),
                ] =~= esc_char(c));
            }
        } else {
            out.append(s.substring_char(i, i + 1));
            proof {
                assert(s@.subrange(i as int, i + 1) =~= esc_char(c));
            }
        }
        proof {
            assert(out@ =~= seq!['"'] + esc_all(cur));
        }
        i += 1;
    }
    out.append("\"");
    proof {
        reveal_strlit("\"");
        assert(s@.take(n as int) =~= s@);
        assert(out@ =~= json_quoted(s@));
    }
    out
}

} // verus!
