//! The calls this library makes into code it does not verify: message-pack
//! encoding and decoding (rmp-serde and rmpv) and the lossy UTF-8 reading of
//! the standard library.
//! Each is a thin wrapper whose contract is trusted, stated over a name for
//! the outside function's result where that result takes pages to describe.
use vstd::prelude::*;
use vstd::utf8::{decode_utf8, valid_utf8};
use crate::msgpack::msgpack_text_array;

verus! {

/// What `String::from_utf8_lossy` makes of `bytes`: their UTF-8 decoding, with
/// each invalid sequence replaced by U+FFFD.
pub uninterp spec fn utf8_lossy(bytes: Seq<u8>) -> Seq<char>;

/// The text read from `bytes` as `String::from_utf8_lossy` reads it, written
/// through its documented behaviour on valid UTF-8.
pub open spec fn lossy_text(bytes: Seq<u8>) -> Seq<char> {
    if valid_utf8(bytes) {
        decode_utf8(bytes)
    } else {
        utf8_lossy(bytes)
    }
}

/// Calls std's `String::from_utf8_lossy`.  Trusted: the result is
/// `utf8_lossy(bytes)`, and on valid UTF-8 it is the plain decoding of the
/// bytes, as the function's documentation states.
#[verifier::external_body]
pub(crate) fn lossy_string(bytes: &[u8]) -> (s: String)
    ensures
        s@ == utf8_lossy(bytes@),
        valid_utf8(bytes@) ==> s@ == decode_utf8(bytes@),
{
    String::from_utf8_lossy(bytes).into_owned()
}

/// What decoding `bytes` as one message-pack value yields with
/// `rmp_serde::from_slice::<rmpv::Value>`: `None` when it succeeds, otherwise
/// the `Debug` text of the decoding error.  Bytes after the first value are
/// not looked at.
pub uninterp spec fn msgpack_value_error(bytes: Seq<u8>) -> Option<Seq<char>>;

/// Calls `rmp_serde::from_slice::<rmpv::Value>` and keeps only whether it
/// succeeded and, if not, the `Debug` text of its error.  Trusted: the outcome
/// is `msgpack_value_error(bytes)`.
#[verifier::external_body]
pub(crate) fn check_msgpack_value(bytes: &[u8]) -> (r: Result<(), String>)
    ensures
        r is Ok <==> msgpack_value_error(bytes@) is None,
        r matches Err(text) ==> msgpack_value_error(bytes@) == Some(text@),
{
    match rmp_serde::from_slice::<rmpv::Value>(bytes) {
        Ok(_) => Ok(()),
        Err(e) => Err(format!("{:?}", e)),
    }
}

/// Calls `rmp_serde::to_vec` on a list of texts, keeping the `Debug` text of
/// an error.  Trusted: on success the bytes are the texts as a message-pack
/// array of strings, as rmp's encoder writes them (`rmp` 0.8, `encode/mod.rs`
/// `write_array_len` and `encode/str.rs` `write_str`).  The encoder writes
/// into a growing vector and fails only when that vector cannot grow, which
/// depends on the machine; so nothing is said of when it fails or of the
/// error's text.
#[verifier::external_body]
pub(crate) fn encode_msgpack_texts(texts: &Vec<String>) -> (r: Result<Vec<u8>, String>)
    ensures
        r matches Ok(bytes) ==> bytes@ == msgpack_text_array(texts@.map_values(|t: String| t@)),
{
    match rmp_serde::to_vec(texts) {
        Ok(bytes) => Ok(bytes),
        Err(e) => Err(format!("{:?}", e)),
    }
}

} // verus!
