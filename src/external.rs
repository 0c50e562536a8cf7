//! Calls into outside crates: the clock, identifier generation and JSON
//! encoding of tag lists.

use vstd::prelude::*;

verus! {

/// Lower-case hexadecimal digit of `n`, for `0 <= n < 16`.
pub open spec fn hex_digit(n: u32) -> char {
    if n < 10 {
        (('0' as u32) + n) as char
    } else {
        (('a' as u32) + (n - 10)) as char
    }
}

/// How one character appears inside a JSON string: quote and backslash are
/// escaped with a backslash, backspace, tab, line feed, form feed and
/// carriage return by their short escapes, every other control character
/// below 0x20 as `\u00` and two lower-case hex digits; the rest as it is.
pub open spec fn json_char(c: char) -> Seq<char> {
    if c == '"' {
        seq!['\\', '"']
    } else if c == '\\' {
        seq!['\\', '\\']
    } else if c == '\u{8}' {
        seq!['\\', 'b']
    } else if c == '\t' {
        seq!['\\', 't']
    } else if c == '\n' {
        seq!['\\', 'n']
    } else if c == '\u{c}' {
        seq!['\\', 'f']
    } else if c == '\r' {
        seq!['\\', 'r']
    } else if (c as u32) < 0x20 {
        seq!['\\', 'u', '0', '0', hex_digit((c as u32) / 16), hex_digit((c as u32) % 16)]
    } else {
        seq![c]
    }
}

/// The escaped characters of `s`, in order.
pub open spec fn json_chars(s: Seq<char>) -> Seq<char>
    decreases s.len(),
{
    if s.len() == 0 {
        Seq::empty()
    } else {
        json_chars(s.drop_last()) + json_char(s.last())
    }
}

/// `s` as a JSON string literal.
pub open spec fn json_string(s: Seq<char>) -> Seq<char> {
    seq!['"'] + json_chars(s) + seq!['"']
}

/// The string literals of `tags`, separated by commas.
pub open spec fn json_items(tags: Seq<Seq<char>>) -> Seq<char>
    decreases tags.len(),
{
    if tags.len() == 0 {
        Seq::empty()
    } else if tags.len() == 1 {
        json_string(tags[0])
    } else {
        json_items(tags.drop_last()) + seq![','] + json_string(tags.last())
    }
}

/// The compact JSON text of an array of strings: the string literals in
/// order, separated by commas, between brackets, with no spaces.
pub open spec fn json_of_tags(tags: Seq<Seq<char>>) -> Seq<char> {
    seq!['['] + json_items(tags) + seq![']']
}

/// The views of a list of strings.
pub open spec fn tag_views(tags: Seq<String>) -> Seq<Seq<char>> {
    tags.map_values(|t: String| t@)
}

/// Relies on chrono's `From<SystemTime> for DateTime<Utc>` and
/// `DateTime::timestamp_millis`: the system clock's reading, as milliseconds
/// since the Unix epoch (negative before it). Nothing is known of the value.
#[verifier::external_body]
pub(crate) fn now_millis() -> (r: i64) {
    chrono::DateTime::<chrono::Utc>::from(std::time::SystemTime::now()).timestamp_millis()
}

/// Relies on uuid::Uuid::new_v4 and its `to_string`: a fresh random
/// identifier in hyphenated form. Nothing is known of the value.
#[verifier::external_body]
pub(crate) fn fresh_id() -> (r: String) {
    uuid::Uuid::new_v4().to_string()
}

/// Relies on serde_json: `Value::from` on a `Vec<String>` builds a JSON
/// array of strings, and its `to_string` prints it in the compact format,
/// escaping each string by serde_json's escape table.
#[verifier::external_body]
pub(crate) fn tags_to_json(tags: &Vec<String>) -> (r: String)
    ensures
        r@ == json_of_tags(tag_views(tags@)),
{
    serde_json::Value::from(tags.clone()).to_string()
}

} // verus!
