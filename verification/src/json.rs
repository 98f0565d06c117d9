//! Serialization of the conversion record as pretty-printed JSON.
//!
//! The output shape is fixed: an object of exactly two string fields,
//! `filename` first and `extracted_text` second, indented by two spaces.
//! String content is escaped as JSON requires: quote and backslash get a
//! backslash, the named control characters get their short escapes, and the
//! remaining control characters are written as `\u00` and two hex digits.

use vstd::prelude::*;
use vstd::string::*;

verus! {

/// The lower-case hex digit for a value below 16.
pub open spec fn hex_digit(n: int) -> char {
    if n == 0 {
        '0'
    } else if n == 1 {
        '1'
    } else if n == 2 {
        '2'
    } else if n == 3 {
        '3'
    } else if n == 4 {
        '4'
    } else if n == 5 {
        '5'
    } else if n == 6 {
        '6'
    } else if n == 7 {
        '7'
    } else if n == 8 {
        '8'
    } else if n == 9 {
        '9'
    } else if n == 10 {
        'a'
    } else if n == 11 {
        'b'
    } else if n == 12 {
        'c'
    } else if n == 13 {
        'd'
    } else if n == 14 {
        'e'
    } else {
        'f'
    }
}

/// How one character appears inside a JSON string literal.
pub open spec fn json_escape_char(c: char) -> Seq<char> {
    if c == '"' {
        seq!['\\', '"']
    } else if c == '\\' {
        seq!['\\', '\\']
    } else if c == '\u{8}' {
        seq!['\\', 'b']
    } else if c == '\t' {
        seq!['\\', 't']
    } else if c == '\n' {
        seq!['\\', 'n']
    } else if c == '\u{c}' {
        seq!['\\', 'f']
    } else if c == '\r' {
        seq!['\\', 'r']
    } else if (c as u32) < 0x20 {
        seq!['\\', 'u', '0', '0', hex_digit(c as u32 as int / 16), hex_digit(c as u32 as int % 16)]
    } else {
        seq![c]
    }
}

/// The JSON escaping of a whole string: each character in order, escaped.
pub open spec fn json_escape(s: Seq<char>) -> Seq<char>
    decreases s.len(),
{
    if s.len() == 0 {
        Seq::empty()
    } else {
        json_escape(s.drop_last()) + json_escape_char(s.last())
    }
}

/// The serialized record: two fields, `filename` then `extracted_text`,
/// pretty-printed with a two-space indent.
pub open spec fn json_record(filename: Seq<char>, text: Seq<char>) -> Seq<char> {
    seq!['{', '\n', ' ', ' ', '"', 'f', 'i', 'l', 'e', 'n', 'a', 'm', 'e', '"', ':', ' ', '"']
        + json_escape(filename)
        + seq![
        '"',
        ',',
        '\n',
        ' ',
        ' ',
        '"',
        'e',
        'x',
        't',
        'r',
        'a',
        'c',
        't',
        'e',
        'd',
        '_',
        't',
        'e',
        'x',
        't',
        '"',
        ':',
        ' ',
        '"',
    ] + json_escape(text) + seq!['"', '\n', '}']
}

/// Escapes `s` for placement inside a JSON string literal.
pub fn escape_json(s: &str) -> (out: String)
    ensures
        out@ == json_escape(s@),
{
    let n = s.unicode_len();
    let mut out = String::new();
    let mut i: usize = 0;
    while i < n
        invariant
            n == s@.len(),
            i <= n,
            out@ == json_escape(s@.take(i as int)),
        decreases n - i,
    {
        let c = s.get_char(i);
        if c == '"' {
            out.append("\\\"");
            proof {
                reveal_strlit("\\\"");
                assert(("\\\"")@ =~= json_escape_char(c));
            }
        } else if c == '\\' {
            out.append("\\\\");
            proof {
                reveal_strlit("\\\\");
                assert(("\\\\")@ =~= json_escape_char(c));
            }
        } else if c == '\u{8}' {
            out.append("\\b");
            proof {
                reveal_strlit("\\b");
                assert(("\\b")@ =~= json_escape_char(c));
            }
        } else if c == '\t' {
            out.append("\\t");
            proof {
                reveal_strlit("\\t");
                assert(("\\t")@ =~= json_escape_char(c));
            }
        } else if c == '\n' {
            out.append("\\n");
            proof {
                reveal_strlit("\\n");
                assert(("\\n")@ =~= json_escape_char(c));
            }
        } else if c == '\u{c}' {
            out.append("\\f");
            proof {
                reveal_strlit("\\f");
                assert(("\\f")@ =~= json_escape_char(c));
            }
        } else if c == '\r' {
            out.append("\\r");
            proof {
                reveal_strlit("\\r");
                assert(("\\r")@ =~= json_escape_char(c));
            }
        } else if (c as u32) < 0x20 {
            out.append("\\u00");
            proof {
                reveal_strlit("\\u00");
            }
            if (c as u32) < 0x10 {
                out.append("0");
                proof {
                    reveal_strlit("0");
                }
            } else {
                out.append("1");
                proof {
                    reveal_strlit("1");
                }
            }
            let lo = (c as u32 % 16) as usize;
            let hexdigits = "0123456789abcdef";
            proof {
                reveal_strlit("0123456789abcdef");
            }
            let d = hexdigits.substring_char(lo, lo + 1);
            out.append(d);
            proof {
                reveal_strlit("\\u00");
                reveal_strlit("0");
                reveal_strlit("1");
                reveal_strlit("0123456789abcdef");
                assert(hexdigits@[lo as int] == hex_digit(lo as int));
                assert(d@ =~= seq![hex_digit(lo as int)]);
                assert(("\\u00")@ + ("0")@ =~= seq!['\\', 'u', '0', '0', '0']);
                assert(("\\u00")@ + ("1")@ =~= seq!['\\', 'u', '0', '0', '1']);
                if (c as u32) < 0x10 {
                    assert(hex_digit(c as u32 as int / 16) == '0');
                    assert(("\\u00")@ + ("0")@ + d@ =~= json_escape_char(c));
                } else {
                    assert(hex_digit(c as u32 as int / 16) == '1');
                    assert(("\\u00")@ + ("1")@ + d@ =~= json_escape_char(c));
                }
            }
        } else {
            let one = s.substring_char(i, i + 1);
            out.append(one);
            proof {
                assert(one@ =~= json_escape_char(c));
            }
        }
        i = i + 1;
        proof {
            assert(s@.take(i as int).drop_last() =~= s@.take(i as int - 1));
            assert(s@.take(i as int).last() == s@[i as int - 1]);
        }
    }
    proof {
        assert(s@.take(n as int) =~= s@);
    }
    out
}

/// Renders the two fields as the pretty-printed JSON record.
pub fn render_record(filename: &str, text: &str) -> (out: String)
    ensures
        out@ == json_record(filename@, text@),
{
    let mut out = String::from_str("{\n  \"filename\": \"");
    proof {
        reveal_strlit("{\n  \"filename\": \"");
        assert(("{\n  \"filename\": \"")@ =~= seq![
            '{',
            '\n',
            ' ',
            ' ',
            '"',
            'f',
            'i',
            'l',
            'e',
            'n',
            'a',
            'm',
            'e',
            '"',
            ':',
            ' ',
            '"',
        ]);
    }
    let ef = escape_json(filename);
    out.append(ef.as_str());
    out.append("\",\n  \"extracted_text\": \"");
    proof {
        reveal_strlit("\",\n  \"extracted_text\": \"");
        assert(("\",\n  \"extracted_text\": \"")@ =~= seq![
            '"',
            ',',
            '\n',
            ' ',
            ' ',
            '"',
            'e',
            'x',
            't',
            'r',
            'a',
            'c',
            't',
            'e',
            'd',
            '_',
            't',
            'e',
            'x',
            't',
            '"',
            ':',
            ' ',
            '"',
        ]);
    }
    let et = escape_json(text);
    out.append(et.as_str());
    out.append("\"\n}");
    proof {
        reveal_strlit("\"\n}");
        assert(("\"\n}")@ =~= seq!['"', '\n', '}']);
    }
    out
}

} // verus!
