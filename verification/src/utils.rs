//! Conversions from raw column values to display forms.

use crate::text::{
    find_from, first_occurrence, from_chars, is_scalar_value, lemma_first_occurrence, to_chars,
};
use vstd::prelude::*;
use vstd::string::StrSliceExecFns;

verus! {

/// The part of a qualified column name after its first `-`; the whole name
/// where it has none.
pub open spec fn string_part(name: Seq<char>) -> Seq<char> {
    match first_occurrence(name, seq!['-'], 0) {
        Some(i) => name.skip(i + 1),
        None => name,
    }
}

/// The semantic part of a qualified column name: what follows the numeric
/// prefix and its `-`.
pub fn column_string_part(s: &str) -> (r: &str)
    ensures
        r@ == string_part(s@),
{
    let chars = to_chars(s);
    let mut dash: Vec<char> = Vec::new();
    dash.push('-');
    assert(dash@ =~= seq!['-']);
    let total: usize = chars.len();
    match find_from(&chars, &dash, 0) {
        Some(i) => {
            proof {
                lemma_first_occurrence(s@, dash@, 0);
                assert(dash@.len() == 1);
                assert(i + 1 <= total);
            }
            let r = s.substring_char(i + 1, total);
            assert(s@.subrange(i + 1, s@.len() as int) =~= s@.skip(i + 1));
            r
        },
        None => s,
    }
}

/// The 16-bit units of `bytes`, each pair with its low byte first. A last
/// byte without a partner is left out.
pub open spec fn utf16_units(bytes: Seq<u8>) -> Seq<u16> {
    Seq::new(
        (bytes.len() / 2) as nat,
        |i: int| (bytes[2 * i] as int + 256 * (bytes[2 * i + 1] as int)) as u16,
    )
}

/// Whether `u` is the first half of a surrogate pair.
pub open spec fn is_high_surrogate(u: u16) -> bool {
    0xD800 <= u <= 0xDBFF
}

/// Whether `u` is the second half of a surrogate pair.
pub open spec fn is_low_surrogate(u: u16) -> bool {
    0xDC00 <= u <= 0xDFFF
}

/// The code point that the surrogate pair `high`, `low` stands for.
pub open spec fn surrogate_pair(high: u16, low: u16) -> int {
    0x10000 + (high - 0xD800) * 0x400 + (low - 0xDC00)
}

/// The text that `units` encode in UTF-16. A surrogate without its partner
/// becomes U+FFFD.
pub open spec fn utf16_decode(units: Seq<u16>) -> Seq<char>
    decreases units.len(),
{
    if units.len() == 0 {
        Seq::empty()
    } else if !is_high_surrogate(units[0]) && !is_low_surrogate(units[0]) {
        seq![units[0] as char] + utf16_decode(units.skip(1))
    } else if is_high_surrogate(units[0]) && units.len() >= 2 && is_low_surrogate(units[1]) {
        seq![surrogate_pair(units[0], units[1]) as char] + utf16_decode(units.skip(2))
    } else {
        seq!['\u{FFFD}'] + utf16_decode(units.skip(1))
    }
}

/// The text that `bytes` encode in little-endian UTF-16.
pub open spec fn utf16_text(bytes: Seq<u8>) -> Seq<char> {
    utf16_decode(utf16_units(bytes))
}

/// The character with the scalar value `code`.
fn scalar(code: u32) -> (c: char)
    requires
        is_scalar_value(code as int),
    ensures
        c == code as char,
{
    match char::from_u32(code) {
        Some(c) => c,
        None => '\u{FFFD}',
    }
}

/// Decodes little-endian UTF-16. A surrogate without its partner becomes
/// U+FFFD; a last byte without a partner is left out.
pub fn from_utf16(val: &[u8]) -> (r: String)
    ensures
        r@ == utf16_text(val@),
{
    let ghost units = utf16_units(val@);
    let n: usize = val.len() / 2;
    let mut out: Vec<char> = Vec::new();
    let mut i: usize = 0;
    assert(units.skip(0) =~= units);
    while i < n
        invariant
            i <= n,
            n == val.len() / 2,
            units == utf16_units(val@),
            out@ + utf16_decode(units.skip(i as int)) == utf16_decode(units),
        decreases n - i,
    {
        let unit: u16 = val[2 * i] as u16 + 256 * (val[2 * i + 1] as u16);
        let ghost rest = units.skip(i as int);
        assert(rest[0] == unit);
        if unit < 0xD800 || unit > 0xDFFF {
            out.push(scalar(unit as u32));
            assert(rest.skip(1) =~= units.skip(i + 1));
            assert(out@ + utf16_decode(units.skip(i + 1)) =~= utf16_decode(units));
            i += 1;
        } else if unit <= 0xDBFF && i + 1 < n {
            let next: u16 = val[2 * i + 2] as u16 + 256 * (val[2 * i + 3] as u16);
            assert(rest[1] == next);
            if 0xDC00 <= next && next <= 0xDFFF {
                let code: u32 = 0x10000 + (unit as u32 - 0xD800) * 0x400 + (next as u32 - 0xDC00);
                out.push(scalar(code));
                assert(rest.skip(2) =~= units.skip(i + 2));
                assert(out@ + utf16_decode(units.skip(i + 2)) =~= utf16_decode(units));
                i += 2;
            } else {
                out.push('\u{FFFD}');
                assert(rest.skip(1) =~= units.skip(i + 1));
                assert(out@ + utf16_decode(units.skip(i + 1)) =~= utf16_decode(units));
                i += 1;
            }
        } else {
            out.push('\u{FFFD}');
            assert(rest.skip(1) =~= units.skip(i + 1));
            assert(out@ + utf16_decode(units.skip(i + 1)) =~= utf16_decode(units));
            i += 1;
        }
    }
    assert(out@ =~= utf16_decode(units));
    from_chars(&out)
}

/// The number that eight bytes hold, lowest byte first; `None` for any other
/// count of bytes.
pub open spec fn u64_le(bytes: Seq<u8>) -> Option<u64> {
    if bytes.len() == 8 {
        Some(
            (bytes[0] as int + 0x100 * (bytes[1] as int) + 0x1_0000 * (bytes[2] as int)
                + 0x100_0000 * (bytes[3] as int) + 0x1_0000_0000 * (bytes[4] as int)
                + 0x100_0000_0000 * (bytes[5] as int) + 0x1_0000_0000_0000 * (bytes[6] as int)
                + 0x100_0000_0000_0000 * (bytes[7] as int)) as u64,
        )
    } else {
        None
    }
}

/// The number that four bytes hold, lowest byte first; `None` for any other
/// count of bytes.
pub open spec fn u32_le(bytes: Seq<u8>) -> Option<u32> {
    if bytes.len() == 4 {
        Some(
            (bytes[0] as int + 0x100 * (bytes[1] as int) + 0x1_0000 * (bytes[2] as int)
                + 0x100_0000 * (bytes[3] as int)) as u32,
        )
    } else {
        None
    }
}

/// Reads a little-endian unsigned 64-bit number.
pub fn u64_from_bytes(val: &[u8]) -> (r: Option<u64>)
    ensures
        r == u64_le(val@),
{
    if val.len() != 8 {
        return None;
    }
    let low: u64 = val[0] as u64 + 0x100 * (val[1] as u64) + 0x1_0000 * (val[2] as u64)
        + 0x100_0000 * (val[3] as u64);
    let high: u64 = val[4] as u64 + 0x100 * (val[5] as u64) + 0x1_0000 * (val[6] as u64)
        + 0x100_0000 * (val[7] as u64);
    Some(low + 0x1_0000_0000 * high)
}

/// Reads a little-endian unsigned 32-bit number.
pub fn u32_from_bytes(val: &[u8]) -> (r: Option<u32>)
    ensures
        r == u32_le(val@),
{
    if val.len() != 4 {
        return None;
    }
    Some(
        val[0] as u32 + 0x100 * (val[1] as u32) + 0x1_0000 * (val[2] as u32) + 0x100_0000 * (
        val[3] as u32),
    )
}

/// What follows the first `marker` in `text`, up to the next `;` or else to
/// the end; empty where `text` holds no `marker`.
pub open spec fn guid_after(text: Seq<char>, marker: Seq<char>) -> Seq<char> {
    match first_occurrence(text, marker, 0) {
        Some(i) => {
            let rest = text.skip(i + marker.len());
            match first_occurrence(rest, seq![';'], 0) {
                Some(j) => rest.take(j),
                None => rest,
            }
        },
        None => Seq::empty(),
    }
}

/// Extracts the value that follows `v` in the composite URI `inp`.
pub fn find_guid(inp: &str, v: &str) -> (r: String)
    ensures
        r@ == guid_after(inp@, v@),
{
    let text = to_chars(inp);
    let marker = to_chars(v);
    let mut out: Vec<char> = Vec::new();
    let total: usize = text.len();
    match find_from(&text, &marker, 0) {
        Some(i) => {
            proof {
                lemma_first_occurrence(inp@, v@, 0);
                assert(i + marker@.len() <= total);
            }
            let ghost rest = inp@.skip(i + marker.len());
            let ghost end = match first_occurrence(rest, seq![';'], 0) {
                Some(j) => j,
                None => rest.len() as int,
            };
            proof {
                lemma_first_occurrence(rest, seq![';'], 0);
                lemma_semicolon_free(rest, end);
            }
            let mut k: usize = i + marker.len();
            while k < text.len() && text[k] != ';'
                invariant
                    i + marker.len() <= k <= text.len(),
                    text@ == inp@,
                    rest == inp@.skip(i + marker.len()),
                    out@ == rest.take(k - i - marker.len()),
                    k - i - marker.len() <= end <= rest.len(),
                    forall|j: int| 0 <= j < end ==> rest[j] != ';',
                    end < rest.len() ==> rest[end] == ';',
                decreases text.len() - k,
            {
                out.push(text[k]);
                assert(rest.take(k + 1 - i - marker.len()) =~= rest.take(k - i - marker.len()).push(
                    rest[k - i - marker.len()],
                ));
                k += 1;
            }
            assert(k - i - marker.len() == end) by {
                if k < text.len() {
                    assert(rest[k - i - marker.len()] == text@[k as int]);
                }
            }
            assert(rest.take(rest.len() as int) =~= rest);
        },
        None => {},
    }
    from_chars(&out)
}

/// Before the first `;` of `rest`, at index `end`, there is none.
proof fn lemma_semicolon_free(rest: Seq<char>, end: int)
    requires
        end == match first_occurrence(rest, seq![';'], 0) {
            Some(j) => j,
            None => rest.len() as int,
        },
    ensures
        0 <= end <= rest.len(),
        forall|j: int| 0 <= j < end ==> rest[j] != ';',
        end < rest.len() ==> rest[end] == ';',
{
    lemma_first_occurrence(rest, seq![';'], 0);
    let semi = seq![';'];
    assert forall|j: int| 0 <= j < rest.len() implies (rest[j] == ';' <==> crate::text::occurs_at(
        rest,
        semi,
        j,
    )) by {
        if rest[j] == ';' {
            assert(rest.subrange(j, j + 1) =~= semi);
        } else {
            assert(rest.subrange(j, j + 1)[0] == rest[j]);
        }
    }
}

/// How a character stands inside a JSON string: quote, backslash and
/// control characters escaped, every other character as it is.
pub open spec fn json_escaped_char(c: char) -> Seq<char> {
    if c == '"' {
        seq!['\\', '"']
    } else if c == '\\' {
        seq!['\\', '\\']
    } else if c == '\u{08}' {
        seq!['\\', 'b']
    } else if c == '\u{0C}' {
        seq!['\\', 'f']
    } else if c == '\n' {
        seq!['\\', 'n']
    } else if c == '\r' {
        seq!['\\', 'r']
    } else if c == '\t' {
        seq!['\\', 't']
    } else if (c as int) < 0x20 {
        seq!['\\', 'u', '0', '0', hex_digit(c as int / 16), hex_digit(c as int % 16)]
    } else {
        seq![c]
    }
}

/// The lower-case hexadecimal digit `d`.
pub open spec fn hex_digit(d: int) -> char {
    if d < 10 {
        (d + 48) as char
    } else {
        (d + 87) as char
    }
}

/// `s` as a JSON string: in double quotes, each character escaped.
pub open spec fn json_string(s: Seq<char>) -> Seq<char> {
    seq!['"'] + s.flat_map(|c: char| json_escaped_char(c)) + seq!['"']
}

/// The error type of serde_json, as an opaque value.
#[verifier::external_type_specification]
#[verifier::external_body]
pub struct ExJsonError(serde_json::Error);

/// Calls `serde_json::to_string` on a string slice. serde_json writes the
/// slice between double quotes and escapes `"`, `\` and the characters below
/// U+0020, the latter as `\b`, `\t`, `\n`, `\f`, `\r` or `\u00xx`. Its
/// errors come from a value's own `Serialize` impl or from a map with keys
/// that are no strings, so a string slice gives none.
#[verifier::external_body]
fn json_encode(s: &str) -> (r: Result<String, serde_json::Error>)
    ensures
        r is Ok,
        r->Ok_0@ == json_string(s@),
{
    serde_json::to_string(s)
}

/// `s` as a JSON string.
pub fn json_escape(s: &str) -> (r: String)
    ensures
        r@ == json_string(s@),
{
    match json_encode(s) {
        Ok(text) => text,
        Err(_) => String::new(),
    }
}

} // verus!
