//! Completeness warnings of an index rebuild: how they are worded, how they
//! are kept in the meta table, and how a lookup reads them back.
//!
//! The warnings are stored as a JSON array of strings; serde_json writes and
//! reads that array.
use vstd::prelude::*;
use crate::constants::META_INDEX_WARNINGS;
use crate::codec::strings_view;
use crate::resolve::{ScipTables, TypeScriptSymbolIndexer};
use crate::text::{push_signed_decimal, signed_decimal};

verus! {

/// A lower-case hexadecimal digit.
pub open spec fn hex_digit_char(d: int) -> char {
    if d < 10 {
        (48 + d) as char
    } else {
        (87 + d) as char
    }
}

/// How serde_json writes one character inside a JSON string: `"` and `\`
/// behind a backslash, the five control characters that JSON names by a
/// letter as that letter, any other control character below U+0020 as
/// `\u00` and two lower-case hex digits, everything else as it is.
pub open spec fn json_escaped_char(c: char) -> Seq<char> {
    let u = c as u32;
    if u == 0x22 {
        seq!['\\', '"']
    } else if u == 0x5C {
        seq!['\\', '\\']
    } else if u == 8 {
        seq!['\\', 'b']
    } else if u == 9 {
        seq!['\\', 't']
    } else if u == 10 {
        seq!['\\', 'n']
    } else if u == 12 {
        seq!['\\', 'f']
    } else if u == 13 {
        seq!['\\', 'r']
    } else if u < 0x20 {
        seq!['\\', 'u', '0', '0', hex_digit_char((u / 16) as int), hex_digit_char((u % 16) as int)]
    } else {
        seq![c]
    }
}

/// The characters of a string, each as serde_json writes it inside quotes.
pub open spec fn json_escaped(s: Seq<char>) -> Seq<char>
    decreases s.len(),
{
    if s.len() == 0 {
        Seq::empty()
    } else {
        json_escaped(s.drop_last()) + json_escaped_char(s.last())
    }
}

/// The strings of a list as JSON strings, separated by commas.
pub open spec fn json_string_items(items: Seq<Seq<char>>) -> Seq<char>
    decreases items.len(),
{
    if items.len() == 0 {
        Seq::empty()
    } else if items.len() == 1 {
        seq!['"'] + json_escaped(items[0]) + seq!['"']
    } else {
        json_string_items(items.drop_last()) + seq![','] + seq!['"'] + json_escaped(items.last())
            + seq!['"']
    }
}

/// The JSON text that `serde_json::to_string` writes for a list of strings:
/// the compact array, without spaces.
pub open spec fn json_string_array(items: Seq<Seq<char>>) -> Seq<char> {
    seq!['['] + json_string_items(items) + seq![']']
}

/// The list of strings that `serde_json::from_str` reads from `text`, or
/// `None` where it reports an error.
pub uninterp spec fn json_string_array_decoded(text: Seq<char>) -> Option<Seq<Seq<char>>>;

/// Writes a list of strings as a JSON array with `serde_json::to_string`.
///
/// Trusted: the result is the JSON text that `json_string_array` states, as
/// the compact formatter of serde_json writes it (its escape table and
/// `write_char_escape`). serde_json's documentation
/// says serialization fails only where a `Serialize` impl decides to fail or
/// a map has non-string keys; a list of strings has neither, so the result
/// is `Some`. Its source writes each string between quotes with `"`, `\`
/// and control characters escaped, and its parser reads those escapes back,
/// so `from_str` gives back the list that `to_string` wrote: the last
/// clause.
#[verifier::external_body]
fn json_encode_strings(items: &Vec<String>) -> (r: Option<String>)
    ensures
        r is Some,
        r matches Some(t) ==> t@ == json_string_array(strings_view(items@)),
        r matches Some(t) ==> json_string_array_decoded(t@) == Some(strings_view(items@)),
{
    serde_json::to_string(items).ok()
}

/// Reads a JSON array of strings with `serde_json::from_str`.
///
/// Trusted: `Some` exactly when serde_json reads the text as a list of
/// strings, with that list; what it accepts is left to its name.
#[verifier::external_body]
fn json_decode_strings(text: &str) -> (r: Option<Vec<String>>)
    ensures
        r is Some <==> json_string_array_decoded(text@) is Some,
        r matches Some(v) ==> json_string_array_decoded(text@) == Some(strings_view(v@)),
{
    serde_json::from_str::<Vec<String>>(text).ok()
}

/// The warnings that a meta table holds: none where the entry is missing or
/// cannot be read (an index written before warnings were kept is taken as
/// complete).
pub open spec fn stored_warnings(meta: Map<Seq<char>, String>) -> Seq<Seq<char>> {
    if meta.contains_key(META_INDEX_WARNINGS@) {
        match json_string_array_decoded(meta[META_INDEX_WARNINGS@]@) {
            Some(list) => list,
            None => Seq::empty(),
        }
    } else {
        Seq::empty()
    }
}

/// The meta key of the warnings, as a `String`.
fn warnings_key() -> (k: String)
    ensures
        k@ == META_INDEX_WARNINGS@,
{
    String::from_str(META_INDEX_WARNINGS)
}

impl TypeScriptSymbolIndexer {
    /// The warnings of the last rebuild. They are kept per index, not per
    /// symbol: every key reports the same list. An empty list means the
    /// index is complete.
    pub fn lookup_warnings(&self, tables: &ScipTables, key: &String) -> (w: Vec<String>)
        requires
            tables.wf(),
        ensures
            strings_view(w@) == stored_warnings(tables.meta@),
    {
        let k = warnings_key();
        match tables.meta.get(&k) {
            None => Vec::new(),
            Some(text) => match json_decode_strings(text.as_str()) {
                Some(list) => list,
                None => Vec::new(),
            },
        }
    }
}

/// Keeps the warnings of a rebuild in the meta table, replacing those of an
/// earlier rebuild; an empty list records a complete index.
pub fn record_index_warnings(tables: &mut ScipTables, warnings: &Vec<String>)
    requires
        old(tables).wf(),
    ensures
        final(tables).wf(),
        final(tables).meta@ == old(tables).meta@.insert(
            META_INDEX_WARNINGS@,
            final(tables).meta@[META_INDEX_WARNINGS@],
        ),
        final(tables).meta@[META_INDEX_WARNINGS@]@ == json_string_array(strings_view(warnings@)),
        stored_warnings(final(tables).meta@) == strings_view(warnings@),
        final(tables).symbols@ == old(tables).symbols@,
        final(tables).names@ == old(tables).names@,
        final(tables).positions@ == old(tables).positions@,
{
    let text = match json_encode_strings(warnings) {
        Some(t) => t,
        None => String::new(),
    };
    let k = warnings_key();
    tables.meta.put(k, text);
}

/// What a lookup reads back after the warnings were recorded is the list
/// that was recorded, whatever the meta table held before.
pub proof fn lemma_lookup_reads_back_recorded_warnings(
    meta: Map<Seq<char>, String>,
    text: String,
    warnings: Seq<Seq<char>>,
)
    requires
        json_string_array_decoded(text@) == Some(warnings),
    ensures
        stored_warnings(meta.insert(META_INDEX_WARNINGS@, text)) == warnings,
{
}

/// How the exit of a helper process is worded: `exit code: N`, the same on
/// every platform, or a note that a signal ended it where it has no code.
pub open spec fn exit_text(code: Option<i32>) -> Seq<char> {
    match code {
        Some(c) => "exit code: "@ + signed_decimal(c as int),
        None => "terminated by a signal"@,
    }
}

/// Words the exit of a helper process; `code` is what the process reported
/// as its exit code, `None` where a signal ended it.
pub fn exit_status_text(code: Option<i32>) -> (t: String)
    ensures
        t@ == exit_text(code),
{
    match code {
        Some(c) => {
            let mut t = String::from_str("exit code: ");
            push_signed_decimal(&mut t, c as i64);
            t
        },
        None => String::from_str("terminated by a signal"),
    }
}

/// The warning kept when a helper ends with anything but success: the index
/// it wrote may be incomplete.
pub open spec fn helper_warning(helper: Seq<char>, code: Option<i32>, repo: Seq<char>) -> Seq<
    char,
> {
    helper + " exited with "@ + exit_text(code) + " for "@ + repo + " \u{2014} index may be incomplete"@
}

/// The warnings of a rebuild, given how its helper ended: none after success
/// (exit code 0), one naming the exit status otherwise. A failing helper does
/// not fail the rebuild; its partial output is kept with this warning.
pub fn helper_exit_warnings(helper: &str, code: Option<i32>, repo: &str) -> (w: Vec<String>)
    ensures
        code == Some(0i32) ==> w@.len() == 0,
        code != Some(0i32) ==> w@.len() == 1 && w@[0]@ == helper_warning(helper@, code, repo@),
{
    let mut w: Vec<String> = Vec::new();
    let success = match code {
        Some(c) => c == 0,
        None => false,
    };
    if !success {
        let mut text = String::from_str(helper);
        text.append(" exited with ");
        let status = exit_status_text(code);
        text.append(status.as_str());
        text.append(" for ");
        text.append(repo);
        text.append(" \u{2014} index may be incomplete");
        w.push(text);
    }
    w
}

} // verus!
