//! Serialization of tube headers as a UTF-8 JSON object.
//!
//! A `NewTube` frame carries its headers as the UTF-8 bytes of a JSON object
//! of string keys and string values.  The JSON text itself is produced and
//! parsed by `serde_json`; this module names its results and wraps the calls
//! so the rest of the codec can be verified against those names.

use vstd::prelude::*;
use vstd::utf8::*;

verus! {

/// The header map that a sequence of key/value pairs denotes: pairs are
/// folded left to right, a later pair overriding an earlier one with the
/// same key.
pub open spec fn header_pairs_map(pairs: Seq<(String, String)>) -> Map<Seq<char>, Seq<char>>
    decreases pairs.len(),
{
    if pairs.len() == 0 {
        Map::empty()
    } else {
        header_pairs_map(pairs.drop_last()).insert(pairs.last().0@, pairs.last().1@)
    }
}

/// The JSON text that `serde_json` produces for a given header map.  The
/// serializer is fed a key-ordered map, so the text is a function of the
/// map contents alone.
pub uninterp spec fn json_str_of(headers: Map<Seq<char>, Seq<char>>) -> Seq<char>;

/// What `serde_json` parses a string into when asked for a map of string
/// keys to string values: `Some` with the parsed map, or `None` when the
/// string is not such a JSON object.
pub uninterp spec fn json_headers_of(s: Seq<char>) -> Option<Map<Seq<char>, Seq<char>>>;

/// The UTF-8 bytes of the JSON text for a header map.
pub open spec fn json_bytes_of(headers: Map<Seq<char>, Seq<char>>) -> Seq<u8> {
    encode_utf8(json_str_of(headers))
}

/// Relies on `serde_json::to_string` applied to a
/// `std::collections::BTreeMap<String, String>`: serialization of a
/// string-keyed map of strings always succeeds, its output is determined by
/// the map contents alone (keys are visited in sorted order), parsing the
/// output back with `serde_json::from_str` yields the same map, and the
/// empty map serializes to the two bytes of an empty JSON object.
#[verifier::external_body]
pub(crate) fn headers_to_json_bytes(pairs: &Vec<(String, String)>) -> (r: Option<Vec<u8>>)
    ensures
        r is Some,
        r matches Some(bytes) ==> {
            &&& bytes@ == json_bytes_of(header_pairs_map(pairs@))
            &&& decode_utf8(bytes@) == json_str_of(header_pairs_map(pairs@))
            &&& json_headers_of(decode_utf8(bytes@)) == Some(header_pairs_map(pairs@))
            &&& (pairs@.len() == 0 ==> bytes@.len() == 2)
        },
{
    let map: std::collections::BTreeMap<String, String> =
        pairs.iter().cloned().collect();
    match serde_json::to_string(&map) {
        Ok(text) => Some(text.into_bytes()),
        Err(_) => None,
    }
}

/// Relies on `str::from_utf8`: it returns `Ok` exactly when the bytes are
/// valid UTF-8, and the string slice it returns is their decoding.  On
/// failure the error's `valid_up_to` (the length of the longest valid
/// prefix) is handed back.
#[verifier::external_body]
pub(crate) fn bytes_to_utf8(bytes: &[u8]) -> (r: Result<&str, usize>)
    ensures
        match r {
            Ok(s) => valid_utf8(bytes@) && s@ == decode_utf8(bytes@),
            Err(n) => !valid_utf8(bytes@) && n <= bytes@.len(),
        },
{
    match std::str::from_utf8(bytes) {
        Ok(s) => Ok(s),
        Err(e) => Err(e.valid_up_to()),
    }
}

/// Relies on `serde_json::from_str::<BTreeMap<String, String>>`: parsing is
/// a function of the input string alone; `Ok` yields the parsed map, handed
/// back here as its key-ordered pairs, and `Err` means the input is not a
/// JSON object of string keys and string values.
#[verifier::external_body]
pub(crate) fn json_str_to_headers(s: &str) -> (r: Option<Vec<(String, String)>>)
    ensures
        match r {
            Some(pairs) => json_headers_of(s@) == Some(header_pairs_map(pairs@)),
            None => json_headers_of(s@) is None,
        },
{
    match serde_json::from_str::<std::collections::BTreeMap<String, String>>(s) {
        Ok(map) => Some(map.into_iter().collect()),
        Err(_) => None,
    }
}

} // verus!
