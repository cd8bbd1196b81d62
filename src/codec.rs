//! Text encodings: base64 for binary fields, and the JSON object that a
//! secret bundle is serialized to before it is sealed.

use vstd::prelude::*;
use base64::Engine;
use crate::error::VaultError;

verus! {

#[verifier::external_type_specification]
#[verifier::external_body]
pub struct ExDecodeError(base64::DecodeError);

#[verifier::external_type_specification]
#[verifier::external_body]
pub struct ExJsonError(serde_json::Error);

/// What base64 (standard alphabet, padded) makes of some bytes.
pub uninterp spec fn base64_of(bytes: Seq<u8>) -> Seq<char>;

/// What base64 decoding (standard alphabet, padded) makes of a text, if it is valid.
pub uninterp spec fn base64_decoded(text: Seq<char>) -> Option<Seq<u8>>;

/// Relies on `base64::engine::general_purpose::STANDARD.encode`; decoding its
/// output with the same engine gives the bytes back.
#[verifier::external_body]
fn base64_encode(bytes: &[u8]) -> (r: String)
    ensures
        r@ == base64_of(bytes@),
        base64_decoded(r@) == Some(bytes@),
{
    base64::engine::general_purpose::STANDARD.encode(bytes)
}

/// Relies on `base64::engine::general_purpose::STANDARD.decode`.
#[verifier::external_body]
fn base64_decode(text: &str) -> (r: Result<Vec<u8>, base64::DecodeError>)
    ensures
        match r {
            Ok(b) => base64_decoded(text@) == Some(b@),
            Err(_) => base64_decoded(text@) is None,
        },
{
    base64::engine::general_purpose::STANDARD.decode(text)
}

/// Encodes bytes as base64 text.
pub fn encode_b64(bytes: &[u8]) -> (r: String)
    ensures
        r@ == base64_of(bytes@),
        base64_decoded(r@) == Some(bytes@),
{
    base64_encode(bytes)
}

/// Decodes base64 text; text that is not valid base64 is a corrupt vault.
pub fn decode_b64(s: &str) -> (r: Result<Vec<u8>, VaultError>)
    ensures
        match r {
            Ok(b) => base64_decoded(s@) == Some(b@),
            Err(e) => base64_decoded(s@) is None && e == VaultError::CorruptVault,
        },
{
    match base64_decode(s) {
        Ok(b) => Ok(b),
        Err(_) => Err(VaultError::CorruptVault),
    }
}

/// A JSON object's members as (name, string-or-null) pairs.
pub type Fields = Seq<(Seq<char>, Option<Seq<char>>)>;

pub open spec fn opt_view(o: Option<String>) -> Option<Seq<char>> {
    match o {
        Some(s) => Some(s@),
        None => None,
    }
}

pub open spec fn fields_view(v: Seq<(String, Option<String>)>) -> Fields {
    v.map_values(|p: (String, Option<String>)| (p.0@, opt_view(p.1)))
}

/// Strict order on texts by code point, which is the order of Rust's `str`.
pub open spec fn text_less(a: Seq<char>, b: Seq<char>) -> bool
    decreases a.len(),
{
    if a.len() == 0 {
        b.len() > 0
    } else if b.len() == 0 {
        false
    } else if a[0] != b[0] {
        (a[0] as u32) < (b[0] as u32)
    } else {
        text_less(a.drop_first(), b.drop_first())
    }
}

/// Member names strictly ascending: distinct, and in the order a sorted map
/// hands them out.
pub open spec fn names_ascending(fields: Fields) -> bool {
    forall|i: int, j: int| 0 <= i < j < fields.len() ==> text_less(fields[i].0, fields[j].0)
}

/// The JSON text (as bytes) of an object whose members are the given pairs.
pub uninterp spec fn json_object_text(fields: Fields) -> Seq<u8>;

/// The members of a JSON object whose values are all strings or null, in
/// name order; `None` where the bytes are no such object.
pub uninterp spec fn json_object_fields(bytes: Seq<u8>) -> Option<Fields>;

/// Relies on `serde_json::to_vec` on a map from member name to string-or-null;
/// `serde_json::from_slice` into the same kind of map reads the members back,
/// in name order. Writing into a `Vec` with string names and string-or-null
/// values does not fail.
#[verifier::external_body]
pub(crate) fn json_encode_object(fields: &Vec<(String, Option<String>)>) -> (r: Result<
    Vec<u8>,
    serde_json::Error,
>)
    ensures
        r is Ok,
        r matches Ok(b) ==> b@ == json_object_text(fields_view(fields@)),
        r matches Ok(b) ==> names_ascending(fields_view(fields@)) ==> json_object_fields(b@)
            == Some(fields_view(fields@)),
{
    let object: std::collections::BTreeMap<&str, Option<&str>> = fields.iter().map(
        |p| (p.0.as_str(), p.1.as_deref()),
    ).collect();
    serde_json::to_vec(&object)
}

/// Relies on `serde_json::from_slice` into a map from member name to
/// string-or-null.
#[verifier::external_body]
pub(crate) fn json_decode_object(bytes: &[u8]) -> (r: Result<
    Vec<(String, Option<String>)>,
    serde_json::Error,
>)
    ensures
        match r {
            Ok(v) => json_object_fields(bytes@) == Some(fields_view(v@)),
            Err(_) => json_object_fields(bytes@) is None,
        },
{
    serde_json::from_slice::<std::collections::BTreeMap<String, Option<String>>>(bytes).map(
        |m| m.into_iter().collect(),
    )
}

} // verus!
