//! JSON text for replies. String values are encoded by `serde_json`; the
//! objects around them are framed here, with their keys in the sorted order in
//! which `serde_json` writes the objects of its `json!` macro (its maps are
//! sorted maps unless its `preserve_order` feature is on, which this crate
//! does not turn on).

use vstd::prelude::*;

use crate::text::hex_digit;

verus! {

/// How `serde_json` writes one character inside a string literal: quote and
/// backslash are escaped with a backslash, backspace, tab, line feed, form
/// feed and carriage return by their short escapes, the other control
/// characters below U+0020 as `\u00` and two lowercase hex digits, and every
/// other character as itself.
pub open spec fn json_escape_char(c: char) -> Seq<char> {
    if c == '"' {
        seq!['\\', '"']
    } else if c == '\\' {
        seq!['\\', '\\']
    } else if c == '\x08' {
        seq!['\\', 'b']
    } else if c == '\t' {
        seq!['\\', 't']
    } else if c == '\n' {
        seq!['\\', 'n']
    } else if c == '\x0c' {
        seq!['\\', 'f']
    } else if c == '\r' {
        seq!['\\', 'r']
    } else if (c as u32) < 0x20 {
        seq!['\\', 'u', '0', '0', hex_digit((c as u32 / 16) as nat), hex_digit((c as u32 % 16) as nat)]
    } else {
        seq![c]
    }
}

/// The escaped characters of a string, in order.
pub open spec fn json_escape(s: Seq<char>) -> Seq<char>
    decreases s.len(),
{
    if s.len() == 0 {
        seq![]
    } else {
        json_escape_char(s[0]) + json_escape(s.drop_first())
    }
}

/// The JSON string literal (quotes and escapes included) that `serde_json`
/// writes for a string.
pub open spec fn json_string_text(s: Seq<char>) -> Seq<char> {
    seq!['"'] + json_escape(s) + seq!['"']
}

/// Encodes a string as a JSON string literal, as `serde_json` writes a
/// `Value::String` (the value that `json!` builds from a string). Claimed of
/// `serde_json`'s `Display` for `Value`: the result is the string between
/// quotes, each character escaped as its escape table and `write_char_escape`
/// show.
#[verifier::external_body]
pub(crate) fn json_string(s: &str) -> (r: String)
    ensures
        r@ == json_string_text(s@),
{
    serde_json::Value::String(s.to_string()).to_string()
}

/// The value of a hexadecimal digit, either case.
pub open spec fn hex_value(c: char) -> Option<nat> {
    if '0' <= c && c <= '9' {
        Some(((c as nat) - ('0' as nat)) as nat)
    } else if 'a' <= c && c <= 'f' {
        Some(((c as nat) - ('a' as nat) + 10) as nat)
    } else if 'A' <= c && c <= 'F' {
        Some(((c as nat) - ('A' as nat) + 10) as nat)
    } else {
        None
    }
}

/// The character a short escape `\e` stands for in JSON.
pub open spec fn short_escape(e: char) -> Option<char> {
    if e == '"' { Some('"') }
    else if e == '\\' { Some('\\') }
    else if e == '/' { Some('/') }
    else if e == 'b' { Some('\x08') }
    else if e == 'f' { Some('\x0c') }
    else if e == 'n' { Some('\n') }
    else if e == 'r' { Some('\r') }
    else if e == 't' { Some('\t') }
    else { None }
}

/// The code unit of a `\uXXXX` escape whose four digits start at `t[2]`.
pub open spec fn unicode_escape(t: Seq<char>) -> Option<nat> {
    if t.len() >= 6 {
        match (hex_value(t[2]), hex_value(t[3]), hex_value(t[4]), hex_value(t[5])) {
            (Some(a), Some(b), Some(c), Some(d)) => Some(a * 4096 + b * 256 + c * 16 + d),
            _ => None,
        }
    } else {
        None
    }
}

/// Reads the characters between the quotes of a JSON string literal, as
/// RFC 8259 defines them: `None` for an unescaped quote or control character,
/// or for a bad escape. Escapes of UTF-16 surrogate halves are not read here.
pub open spec fn json_unescape(t: Seq<char>) -> Option<Seq<char>>
    decreases t.len(),
{
    if t.len() == 0 {
        Some(seq![])
    } else if t[0] == '\\' {
        if t.len() < 2 {
            None
        } else {
            match short_escape(t[1]) {
                Some(c) => match json_unescape(t.skip(2)) {
                    Some(r) => Some(seq![c] + r),
                    None => None,
                },
                None => if t[1] == 'u' {
                    match unicode_escape(t) {
                        Some(v) => if v < 0xD800 || (0xE000 <= v && v < 0x10000) {
                            match json_unescape(t.skip(6)) {
                                Some(r) => Some(seq![v as char] + r),
                                None => None,
                            }
                        } else {
                            None
                        },
                        None => None,
                    }
                } else {
                    None
                },
            }
        }
    } else if t[0] == '"' || (t[0] as u32) < 0x20 {
        None
    } else {
        match json_unescape(t.drop_first()) {
            Some(r) => Some(seq![t[0]] + r),
            None => None,
        }
    }
}

/// The string a JSON string literal stands for, if it is one.
pub open spec fn json_string_value(lit: Seq<char>) -> Option<Seq<char>> {
    if lit.len() >= 2 && lit[0] == '"' && lit.last() == '"' {
        json_unescape(lit.subrange(1, lit.len() - 1))
    } else {
        None
    }
}

proof fn lemma_hex_value_of_digit(d: nat)
    requires
        d < 16,
    ensures
        hex_value(hex_digit(d)) == Some(d),
{
}

proof fn lemma_unescape_char(c: char, rest: Seq<char>)
    ensures
        json_unescape(json_escape_char(c) + rest) == match json_unescape(rest) {
            Some(r) => Some(seq![c] + r),
            None => None::<Seq<char>>,
        },
{
    let t = json_escape_char(c) + rest;
    let e = json_escape_char(c);
    if e.len() == 2 {
        assert(t.skip(2) =~= rest);
    } else if e.len() == 6 {
        let v = c as u32;
        lemma_hex_value_of_digit((v / 16) as nat);
        lemma_hex_value_of_digit((v % 16) as nat);
        assert(t[2] == '0' && t[3] == '0');
        assert(unicode_escape(t) == Some(v as nat));
        assert((v as nat) as char == c);
        assert(t.skip(6) =~= rest);
    } else {
        assert(t.drop_first() =~= rest);
    }
}

proof fn lemma_unescape_escape(s: Seq<char>)
    ensures
        json_unescape(json_escape(s)) == Some(s),
    decreases s.len(),
{
    if s.len() == 0 {
        assert(json_escape(s) =~= Seq::<char>::empty());
    } else {
        lemma_unescape_escape(s.drop_first());
        lemma_unescape_char(s[0], json_escape(s.drop_first()));
        assert(seq![s[0]] + s.drop_first() =~= s);
    }
}

/// Law: every string's JSON literal reads back as exactly that string.
pub proof fn law_json_string_roundtrip(s: Seq<char>)
    ensures
        json_string_value(json_string_text(s)) == Some(s),
{
    lemma_unescape_escape(s);
    let lit = json_string_text(s);
    assert(lit.subrange(1, lit.len() - 1) =~= json_escape(s));
}

/// Appends the JSON encoding of `s` to `out`.
pub(crate) fn push_json_string(out: &mut String, s: &str)
    ensures
        final(out)@ == old(out)@ + json_string_text(s@),
{
    let j = json_string(s);
    out.append(j.as_str());
}

/// The JSON encoding of an optional string: `null` when absent.
pub open spec fn json_opt_string_text(s: Option<Seq<char>>) -> Seq<char> {
    match s {
        Some(v) => json_string_text(v),
        None => "null"@,
    }
}

/// Appends the JSON encoding of an optional string to `out`.
pub(crate) fn push_json_opt_string(out: &mut String, s: &Option<String>)
    ensures
        final(out)@ == old(out)@ + json_opt_string_text(match s {
            Some(v) => Some(v@),
            None => None,
        }),
{
    match s {
        Some(v) => push_json_string(out, v.as_str()),
        None => out.append("null"),
    }
}

/// The JSON encoding of a boolean.
pub open spec fn json_bool_text(b: bool) -> Seq<char> {
    if b { "true"@ } else { "false"@ }
}

/// Appends the JSON encoding of a boolean to `out`.
pub(crate) fn push_json_bool(out: &mut String, b: bool)
    ensures
        final(out)@ == old(out)@ + json_bool_text(b),
{
    if b {
        out.append("true");
    } else {
        out.append("false");
    }
}

} // verus!
