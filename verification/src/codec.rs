//! The byte payloads of the symbol index.
//!
//! A list of canonical keys (what a simple name or a position points at) is
//! stored as the version byte `1` followed by the bincode encoding of the
//! list. The references of a symbol are stored as the bincode encoding of
//! their list. bincode itself is called, not rebuilt: its encodings are
//! named here and the library states what it builds around them.
use vstd::prelude::*;
use crate::references::{SymbolReference, ReferenceView};
use vstd::utf8::encode_utf8;

verus! {

/// The version byte that opens a key list payload.
pub const KEYS_FORMAT_V1: u8 = 1;

/// `n` as `width` bytes, least significant first.
pub open spec fn le_bytes(n: nat, width: nat) -> Seq<u8>
    decreases width,
{
    if width == 0 {
        Seq::empty()
    } else {
        seq![(n % 256) as u8] + le_bytes(n / 256, (width - 1) as nat)
    }
}

/// A string as bincode writes it: the length of its UTF-8 bytes as eight
/// little-endian bytes, then those bytes.
pub open spec fn bincode_str(s: Seq<char>) -> Seq<u8> {
    le_bytes(encode_utf8(s).len(), 8) + encode_utf8(s)
}

/// The strings of a list one after the other, each as bincode writes it.
pub open spec fn bincode_str_items(items: Seq<Seq<char>>) -> Seq<u8>
    decreases items.len(),
{
    if items.len() == 0 {
        Seq::empty()
    } else {
        bincode_str_items(items.drop_last()) + bincode_str(items.last())
    }
}

/// The bytes that `bincode::serialize` (bincode 1.x, whose `serialize`
/// uses fixed-width little-endian integers) writes for a list of strings:
/// the number of strings as eight little-endian bytes, then each string.
pub open spec fn bincode_strings(items: Seq<Seq<char>>) -> Seq<u8> {
    le_bytes(items.len(), 8) + bincode_str_items(items)
}

/// What `bincode::deserialize` reads from `bytes` as a list of strings, or
/// `None` where it reports an error.
pub uninterp spec fn bincode_strings_decoded(bytes: Seq<u8>) -> Option<Seq<Seq<char>>>;

/// A (file, start line, end line, kind) record as bincode writes it: its
/// fields in order, each line number as four little-endian bytes.
pub open spec fn bincode_record(r: (Seq<char>, u32, u32, Seq<char>)) -> Seq<u8> {
    bincode_str(r.0) + le_bytes(r.1 as nat, 4) + le_bytes(r.2 as nat, 4) + bincode_str(r.3)
}

/// The records of a list one after the other, each as bincode writes it.
pub open spec fn bincode_record_items(items: Seq<(Seq<char>, u32, u32, Seq<char>)>) -> Seq<u8>
    decreases items.len(),
{
    if items.len() == 0 {
        Seq::empty()
    } else {
        bincode_record_items(items.drop_last()) + bincode_record(items.last())
    }
}

/// The bytes that `bincode::serialize` writes for a list of
/// (file, start line, end line, kind) records: the number of records as
/// eight little-endian bytes, then each record.
pub open spec fn bincode_references(items: Seq<(Seq<char>, u32, u32, Seq<char>)>) -> Seq<u8> {
    le_bytes(items.len(), 8) + bincode_record_items(items)
}

/// What `bincode::deserialize` reads from `bytes` as a list of
/// (file, start line, end line, kind) records, or `None` on an error.
pub uninterp spec fn bincode_references_decoded(bytes: Seq<u8>) -> Option<
    Seq<(Seq<char>, u32, u32, Seq<char>)>,
>;

/// The characters of each string of a list.
pub open spec fn strings_view(v: Seq<String>) -> Seq<Seq<char>> {
    v.map_values(|s: String| s@)
}

/// The view of each record of a list.
pub open spec fn records_view(v: Seq<(String, u32, u32, String)>) -> Seq<ReferenceView> {
    v.map_values(|r: (String, u32, u32, String)| (r.0@, r.1, r.2, r.3@))
}

/// Encodes a list of strings with `bincode::serialize`.
///
/// Trusted: the result is the bincode encoding of the list as
/// `bincode_strings` states it: bincode's `serialize` writes a sequence as
/// its length, then its elements, and a string as its byte length, then its
/// UTF-8 bytes, with fixed-width little-endian integers. It uses no size limit
/// and writes into a `Vec`, and a list of strings always serializes, so it
/// returns `Some`; its documentation shows that `deserialize` gives back the
/// value that `serialize` encoded, which is the last clause.
#[verifier::external_body]
fn encode_strings(items: &[String]) -> (r: Option<Vec<u8>>)
    ensures
        r is Some,
        r matches Some(b) ==> b@ == bincode_strings(strings_view(items@)),
        r matches Some(b) ==> bincode_strings_decoded(b@) == Some(strings_view(items@)),
{
    bincode::serialize(items).ok()
}

/// Decodes a list of strings with `bincode::deserialize`.
///
/// Trusted: `Some` exactly when bincode decodes the bytes, with the decoded
/// list; what bincode accepts is left to its name.
#[verifier::external_body]
fn decode_strings(bytes: &[u8]) -> (r: Option<Vec<String>>)
    ensures
        r is Some <==> bincode_strings_decoded(bytes@) is Some,
        r matches Some(v) ==> bincode_strings_decoded(bytes@) == Some(strings_view(v@)),
{
    bincode::deserialize::<Vec<String>>(bytes).ok()
}

/// Encodes a list of (file, start line, end line, kind) records with
/// `bincode::serialize`.
///
/// Trusted: as for `encode_strings`, the result is the encoding that
/// `bincode_references` states (a tuple is written as its fields in order, a
/// `u32` as four little-endian bytes), it is always produced, and
/// `deserialize` gives the records back.
#[verifier::external_body]
fn encode_records(items: &Vec<(String, u32, u32, String)>) -> (r: Option<Vec<u8>>)
    ensures
        r is Some,
        r matches Some(b) ==> b@ == bincode_references(records_view(items@)),
        r matches Some(b) ==> bincode_references_decoded(b@) == Some(records_view(items@)),
{
    bincode::serialize(items).ok()
}

/// Decodes a list of (file, start line, end line, kind) records with
/// `bincode::deserialize`.
///
/// Trusted: `Some` exactly when bincode decodes the bytes, with the records.
#[verifier::external_body]
fn decode_records(bytes: &[u8]) -> (r: Option<Vec<(String, u32, u32, String)>>)
    ensures
        r is Some <==> bincode_references_decoded(bytes@) is Some,
        r matches Some(v) ==> bincode_references_decoded(bytes@) == Some(records_view(v@)),
{
    bincode::deserialize::<Vec<(String, u32, u32, String)>>(bytes).ok()
}

/// The payload that stores a key list: the version byte, then the keys.
pub open spec fn keys_v1_payload(keys: Seq<Seq<char>>) -> Seq<u8> {
    seq![KEYS_FORMAT_V1] + bincode_strings(keys)
}

/// The key list that a payload holds: `None` unless it opens with the
/// version byte and bincode decodes the rest.
pub open spec fn keys_v1_decoded(payload: Seq<u8>) -> Option<Seq<Seq<char>>> {
    if payload.len() > 0 && payload[0] == KEYS_FORMAT_V1 {
        bincode_strings_decoded(payload.drop_first())
    } else {
        None
    }
}

/// Builds the payload that stores a list of canonical keys. Reading the
/// payload back gives the same keys, in the same order.
pub fn serialize_keys_v1(keys: &[String]) -> (payload: Vec<u8>)
    ensures
        payload@ == keys_v1_payload(strings_view(keys@)),
        keys_v1_decoded(payload@) == Some(strings_view(keys@)),
{
    let mut payload: Vec<u8> = Vec::new();
    payload.push(KEYS_FORMAT_V1);
    match encode_strings(keys) {
        Some(bytes) => {
            let n = bytes.len();
            for i in 0..n
                invariant
                    n == bytes@.len(),
                    payload@ == seq![KEYS_FORMAT_V1] + bytes@.take(i as int),
            {
                payload.push(bytes[i]);
                assert(bytes@.take(i + 1) =~= bytes@.take(i as int).push(bytes@[i as int]));
            }
            assert(bytes@.take(n as int) =~= bytes@);
            assert(payload@.drop_first() =~= bytes@);
        },
        None => {},
    }
    payload
}

/// Reads the canonical keys that a payload stores.
pub fn deserialize_keys_v1(payload: &[u8]) -> (keys: Option<Vec<String>>)
    ensures
        keys is Some <==> keys_v1_decoded(payload@) is Some,
        keys matches Some(k) ==> keys_v1_decoded(payload@) == Some(strings_view(k@)),
{
    if payload.len() == 0 || payload[0] != KEYS_FORMAT_V1 {
        return None;
    }
    let mut rest: Vec<u8> = Vec::new();
    let n = payload.len();
    for i in 1..n
        invariant
            n == payload@.len(),
            rest@ == payload@.subrange(1, i as int),
    {
        rest.push(payload[i]);
        assert(payload@.subrange(1, i + 1) =~= payload@.subrange(1, i as int).push(
            payload@[i as int],
        ));
    }
    assert(rest@ =~= payload@.drop_first());
    decode_strings(rest.as_slice())
}

/// A reference as the index stores it.
#[derive(Debug, PartialEq, Eq)]
pub struct StoredReference {
    pub file: String,
    pub start_line: u32,
    pub end_line: u32,
    pub kind: String,
}

impl View for StoredReference {
    type V = ReferenceView;

    open spec fn view(&self) -> ReferenceView {
        (self.file@, self.start_line, self.end_line, self.kind@)
    }
}

/// The views of a list of stored references.
pub open spec fn stored_view(v: Seq<StoredReference>) -> Seq<ReferenceView> {
    v.map_values(|r: StoredReference| r@)
}

/// Builds the payload that stores the references of a symbol. Reading the
/// payload back gives the same references, in the same order.
pub fn serialize_refs(refs: &[StoredReference]) -> (payload: Vec<u8>)
    ensures
        payload@ == bincode_references(stored_view(refs@)),
        bincode_references_decoded(payload@) == Some(stored_view(refs@)),
{
    let mut records: Vec<(String, u32, u32, String)> = Vec::new();
    let n = refs.len();
    for i in 0..n
        invariant
            n == refs@.len(),
            records_view(records@) =~= stored_view(refs@.take(i as int)),
    {
        let r = &refs[i];
        let ghost prev = records@;
        records.push((r.file.clone(), r.start_line, r.end_line, r.kind.clone()));
        assert(records_view(records@) =~= records_view(prev).push(r@));
        assert(refs@.take(i + 1) =~= refs@.take(i as int).push(refs@[i as int]));
    }
    assert(refs@.take(n as int) =~= refs@);
    match encode_records(&records) {
        Some(bytes) => bytes,
        None => Vec::new(),
    }
}

/// The references that a payload stores, or `None` where bincode cannot
/// read it.
pub fn deserialize_refs(payload: &[u8]) -> (refs: Option<Vec<SymbolReference>>)
    ensures
        refs is Some <==> bincode_references_decoded(payload@) is Some,
        refs matches Some(v) ==> bincode_references_decoded(payload@) == Some(
            crate::references::references_view(v@),
        ),
{
    match decode_records(payload) {
        Some(records) => {
            let mut out: Vec<SymbolReference> = Vec::new();
            let n = records.len();
            for i in 0..n
                invariant
                    n == records@.len(),
                    crate::references::references_view(out@) =~= records_view(
                        records@.take(i as int),
                    ),
            {
                let r = &records[i];
                let ghost prev = out@;
                out.push(
                    SymbolReference {
                        file: r.0.clone(),
                        start_line: r.1,
                        end_line: r.2,
                        kind: r.3.clone(),
                    },
                );
                assert(crate::references::references_view(out@) =~= crate::references::references_view(prev).push((r.0@, r.1, r.2, r.3@)));
                assert(records@.take(i + 1) =~= records@.take(i as int).push(records@[i as int]));
            }
            assert(records@.take(n as int) =~= records@);
            Some(out)
        },
        None => None,
    }
}

} // verus!
