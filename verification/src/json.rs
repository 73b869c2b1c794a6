//! Reading and writing the JSON that is exchanged with Nix and Jujutsu, through `serde_json`.

use vstd::prelude::*;
use crate::attr_path::{str_texts, texts};
use crate::glob::{part_regex_text, Pattern, PatternView, SegmentView};

verus! {

/// An error of `serde_json`.
#[verifier::external_type_specification]
#[verifier::external_body]
pub struct ExJsonError(serde_json::Error);

/// JSON that could not be read or written.
#[derive(Debug)]
pub struct JsonError {
    /// What `serde_json` reported.
    pub message: String,
}

/// The list of strings that the JSON text `bytes` denotes, if it denotes one.
pub uninterp spec fn json_string_list(bytes: Seq<u8>) -> Option<Seq<Seq<char>>>;

/// The lists of lists of lists of strings that the JSON text `bytes` denotes, if it denotes
/// one.
pub uninterp spec fn json_string_list3(bytes: Seq<u8>) -> Option<Seq<Seq<Seq<Seq<char>>>>>;

/// The string that the JSON text `bytes` denotes, if it denotes one.
pub uninterp spec fn json_string(bytes: Seq<u8>) -> Option<Seq<char>>;

/// The boolean that the JSON text `bytes` denotes, if it denotes one.
pub uninterp spec fn json_bool(bytes: Seq<u8>) -> Option<bool>;

/// A hexadecimal digit as `serde_json` writes it.
pub open spec fn json_hex(n: nat) -> char {
    "0123456789abcdef"@[n as int]
}

/// How `serde_json` writes a character inside a string: the quote and the backslash after a
/// backslash; backspace, form feed, newline, return and tab as `\b`, `\f`, `\n`, `\r` and
/// `\t`; other control characters below `0x20` as `\u00` and two hexadecimal digits;
/// everything else as it is.
pub open spec fn json_char(c: char) -> Seq<char> {
    if c == '"' {
        seq!['\\', '"']
    } else if c == '\\' {
        seq!['\\', '\\']
    } else if c == '\u{8}' {
        seq!['\\', 'b']
    } else if c == '\u{c}' {
        seq!['\\', 'f']
    } else if c == '\n' {
        seq!['\\', 'n']
    } else if c == '\r' {
        seq!['\\', 'r']
    } else if c == '\t' {
        seq!['\\', 't']
    } else if (c as nat) < 0x20 {
        seq!['\\', 'u', '0', '0', json_hex((c as nat) / 16), json_hex((c as nat) % 16)]
    } else {
        seq![c]
    }
}

/// The characters of `s`, each written as in a JSON string.
pub open spec fn json_escaped(s: Seq<char>) -> Seq<char>
    decreases s.len(),
{
    if s.len() == 0 {
        Seq::empty()
    } else {
        json_escaped(s.drop_last()) + json_char(s.last())
    }
}

/// A JSON string.
pub open spec fn json_str(s: Seq<char>) -> Seq<char> {
    seq!['"'] + json_escaped(s) + seq!['"']
}

/// The texts, separated by commas.
pub open spec fn comma_joined(items: Seq<Seq<char>>) -> Seq<char>
    decreases items.len(),
{
    if items.len() == 0 {
        Seq::empty()
    } else if items.len() == 1 {
        items[0]
    } else {
        comma_joined(items.drop_last()) + seq![','] + items.last()
    }
}

/// A JSON array of values already written, as the compact writer of `serde_json` writes it:
/// no spaces.
pub open spec fn json_array(values: Seq<Seq<char>>) -> Seq<char> {
    seq!['['] + comma_joined(values) + seq![']']
}

/// A JSON boolean.
pub open spec fn json_bool_text(b: bool) -> Seq<char> {
    if b {
        "true"@
    } else {
        "false"@
    }
}

/// The JSON text of a list of strings.
pub open spec fn json_of_strings(items: Seq<Seq<char>>) -> Seq<char> {
    json_array(items.map_values(|s: Seq<char>| json_str(s)))
}

/// Decodes a JSON list of strings with `serde_json::from_slice::<Vec<String>>`; the result is
/// the value named by `json_string_list`, and an error exactly where that is `None`.
#[verifier::external_body]
fn from_slice_strings(bytes: &[u8]) -> (res: Result<Vec<String>, serde_json::Error>)
    ensures
        match res {
            Ok(v) => json_string_list(bytes@) == Some(texts(v@)),
            Err(_) => json_string_list(bytes@) is None,
        },
{
    serde_json::from_slice::<Vec<String>>(bytes)
}

/// Decodes a JSON string with `serde_json::from_slice::<String>`; the result is the value named
/// by `json_string`, and an error exactly where that is `None`.
#[verifier::external_body]
fn from_slice_string(bytes: &[u8]) -> (res: Result<String, serde_json::Error>)
    ensures
        match res {
            Ok(s) => json_string(bytes@) == Some(s@),
            Err(_) => json_string(bytes@) is None,
        },
{
    serde_json::from_slice::<String>(bytes)
}

/// Decodes a JSON boolean with `serde_json::from_slice::<bool>`; the result is the value named
/// by `json_bool`, and an error exactly where that is `None`.
#[verifier::external_body]
fn from_slice_bool(bytes: &[u8]) -> (res: Result<bool, serde_json::Error>)
    ensures
        match res {
            Ok(b) => json_bool(bytes@) == Some(b),
            Err(_) => json_bool(bytes@) is None,
        },
{
    serde_json::from_slice::<bool>(bytes)
}

/// Encodes a list of strings with `serde_json::to_string`: the text is [`json_of_strings`],
/// as the compact writer of `serde_json` (`ser.rs`, its `ESCAPE` table and
/// `write_char_escape`) writes it. It succeeds: `serde_json` documents failure only where a `Serialize` impl
/// decides to fail or a map has keys that are not strings, and the impls for slices and `str`
/// only hand their elements and text to the serializer.
#[verifier::external_body]
fn to_string_strings(items: &[&str]) -> (res: Result<String, serde_json::Error>)
    ensures
        res is Ok,
        res matches Ok(s) ==> s@ == json_of_strings(str_texts(items@)),
{
    serde_json::to_string(items)
}

/// The JSON text of a list of queries, each written as the array of its flag and its list of
/// strings.
pub open spec fn json_of_queries(items: Seq<(bool, Seq<Seq<char>>)>) -> Seq<char> {
    json_array(
        items.map_values(
            |q: (bool, Seq<Seq<char>>)| json_array(seq![json_bool_text(q.0), json_of_strings(q.1)]),
        ),
    )
}

/// The texts of a list of queries.
pub open spec fn query_texts(v: Seq<(bool, Vec<String>)>) -> Seq<(bool, Seq<Seq<char>>)> {
    v.map_values(|q: (bool, Vec<String>)| (q.0, texts(q.1@)))
}

/// Encodes a list of queries with `serde_json::to_string`, each as a JSON array of its flag
/// and its list of strings: the text is [`json_of_queries`], as the compact writer of
/// `serde_json` writes tuples, booleans, slices and strings. It succeeds, as
/// the impls for tuples, `bool`, slices and strings only hand their parts to the serializer.
#[verifier::external_body]
fn to_string_queries(items: &[(bool, Vec<String>)]) -> (res: Result<String, serde_json::Error>)
    ensures
        res is Ok,
        res matches Ok(s) ==> s@ == json_of_queries(query_texts(items@)),
{
    serde_json::to_string(items)
}

/// The query of a glob pattern: whether it has a leading dot, and the regular expression of
/// each of its parts.
pub open spec fn pattern_query(p: PatternView) -> (bool, Seq<Seq<char>>) {
    (p.leading_dot, p.parts.map_values(|part: Seq<SegmentView>| part_regex_text(part)))
}

/// The queries of the patterns as the JSON text that the Nix expressions read.
pub fn queries_json(patterns: &[Pattern]) -> (res: String)
    ensures
        res@ == json_of_queries(patterns@.map_values(|p: Pattern| pattern_query(p@))),
{
    let mut queries: Vec<(bool, Vec<String>)> = Vec::new();
    for i in 0..patterns.len()
        invariant
            query_texts(queries@) == patterns@.take(i as int).map_values(
                |p: Pattern| pattern_query(p@),
            ),
    {
        let pattern = &patterns[i];
        let mut regexes: Vec<String> = Vec::new();
        for j in 0..pattern.parts.len()
            invariant
                texts(regexes@) == pattern@.parts.take(j as int).map_values(
                    |part: Seq<SegmentView>| part_regex_text(part),
                ),
        {
            let r = pattern.parts[j].regex();
            let ghost before = regexes@;
            regexes.push(r);
            assert(texts(regexes@) =~= texts(before).push(r@));
            assert(pattern@.parts.take(j + 1) =~= pattern@.parts.take(j as int).push(pattern@.parts[j as int]));
        }
        assert(pattern@.parts.take(pattern.parts.len() as int) =~= pattern@.parts);
        let ghost before = queries@;
        queries.push((pattern.leading_dot, regexes));
        assert(query_texts(queries@) =~= query_texts(before).push(pattern_query(pattern@)));
        assert(patterns@.take(i + 1) =~= patterns@.take(i as int).push(patterns@[i as int]));
    }
    assert(patterns@.take(patterns.len() as int) =~= patterns@);
    match to_string_queries(queries.as_slice()) {
        Ok(s) => s,
        Err(_) => String::new(),
    }
}

/// The message of a `serde_json` error, as its `Display` impl writes it. What it says is left
/// unsaid.
#[verifier::external_body]
fn error_message(error: &serde_json::Error) -> (res: String) {
    error.to_string()
}

/// Turns a `serde_json` error into the library's own.
fn json_error(error: serde_json::Error) -> (res: JsonError) {
    JsonError { message: error_message(&error) }
}

/// Decodes a JSON list of strings.
pub fn decode_string_list(bytes: &[u8]) -> (res: Result<Vec<String>, JsonError>)
    ensures
        match res {
            Ok(v) => json_string_list(bytes@) == Some(texts(v@)),
            Err(_) => json_string_list(bytes@) is None,
        },
{
    match from_slice_strings(bytes) {
        Ok(v) => Ok(v),
        Err(e) => Err(json_error(e)),
    }
}

/// Decodes a JSON string.
pub fn decode_string(bytes: &[u8]) -> (res: Result<String, JsonError>)
    ensures
        match res {
            Ok(s) => json_string(bytes@) == Some(s@),
            Err(_) => json_string(bytes@) is None,
        },
{
    match from_slice_string(bytes) {
        Ok(s) => Ok(s),
        Err(e) => Err(json_error(e)),
    }
}

/// Decodes a JSON boolean.
pub fn decode_bool(bytes: &[u8]) -> (res: Result<bool, JsonError>)
    ensures
        match res {
            Ok(b) => json_bool(bytes@) == Some(b),
            Err(_) => json_bool(bytes@) is None,
        },
{
    match from_slice_bool(bytes) {
        Ok(b) => Ok(b),
        Err(e) => Err(json_error(e)),
    }
}

/// Encodes a list of strings as JSON; this always succeeds.
pub fn encode_string_list(items: &[&str]) -> (res: Result<String, JsonError>)
    ensures
        res matches Ok(s) && s@ == json_of_strings(str_texts(items@)),
{
    match to_string_strings(items) {
        Ok(s) => Ok(s),
        Err(e) => Err(json_error(e)),
    }
}

/// The texts of nested lists of strings.
pub open spec fn texts2(v: Seq<Vec<String>>) -> Seq<Seq<Seq<char>>> {
    v.map_values(|w: Vec<String>| texts(w@))
}

/// The texts of lists of lists of lists of strings.
pub open spec fn texts3(v: Seq<Vec<Vec<String>>>) -> Seq<Seq<Seq<Seq<char>>>> {
    v.map_values(|w: Vec<Vec<String>>| texts2(w@))
}

/// Decodes a JSON list of lists of lists of strings with
/// `serde_json::from_slice::<Vec<Vec<Vec<String>>>>`; the result is the value named by
/// `json_string_list3`, and an error exactly where that is `None`.
#[verifier::external_body]
fn from_slice_strings3(bytes: &[u8]) -> (res: Result<Vec<Vec<Vec<String>>>, serde_json::Error>)
    ensures
        match res {
            Ok(v) => json_string_list3(bytes@) == Some(texts3(v@)),
            Err(_) => json_string_list3(bytes@) is None,
        },
{
    serde_json::from_slice::<Vec<Vec<Vec<String>>>>(bytes)
}

/// Decodes a JSON list of lists of lists of strings.
pub fn decode_string_list3(bytes: &[u8]) -> (res: Result<Vec<Vec<Vec<String>>>, JsonError>)
    ensures
        match res {
            Ok(v) => json_string_list3(bytes@) == Some(texts3(v@)),
            Err(_) => json_string_list3(bytes@) is None,
        },
{
    match from_slice_strings3(bytes) {
        Ok(v) => Ok(v),
        Err(e) => Err(json_error(e)),
    }
}

} // verus!
