//! Trusted declarations for the outside crates the library relies on:
//! SHA-256 digests, fresh UUIDs, Unicode case folding, JSON payload values,
//! and the system clock.

use vstd::prelude::*;
use sha2::Digest;

verus! {

/// What `str::to_lowercase` returns for the given characters. The result
/// depends on the characters alone.
pub uninterp spec fn lower_of(s: Seq<char>) -> Seq<char>;

/// Relies on str::to_lowercase: Unicode lowercasing, a function of the
/// characters alone; an empty string stays empty.
#[verifier::external_body]
pub(crate) fn lowercase(s: &str) -> (r: String)
    ensures
        r@ == lower_of(s@),
        s@.len() == 0 ==> r@.len() == 0,
{
    s.to_lowercase()
}

/// What the SHA-256 digest of the given bytes is. The digest depends on the
/// input bytes alone.
pub uninterp spec fn sha256_of(data: Seq<u8>) -> Seq<u8>;

/// Relies on sha2::Sha256 via the digest traits: the SHA-256 digest of the
/// input, always 32 bytes long.
#[verifier::external_body]
pub(crate) fn sha256_digest(data: &Vec<u8>) -> (r: Vec<u8>)
    ensures
        r@ == sha256_of(data@),
        r@.len() == 32,
{
    let mut hasher = sha2::Sha256::new();
    hasher.update(data.as_slice());
    hasher.finalize().to_vec()
}

/// Relies on uuid::Uuid::new_v4 and its Display form: a random version-4
/// UUID rendered as the 36-character hyphenated string.
#[verifier::external_body]
pub(crate) fn fresh_uuid_string() -> (r: String)
    ensures
        r@.len() == 36,
{
    uuid::Uuid::new_v4().to_string()
}

/// Relies on std::time::SystemTime::now: the seconds elapsed since the Unix
/// epoch. Nothing is promised of the clock's reading.
#[verifier::external_body]
pub(crate) fn now_unix_seconds() -> u64 {
    match std::time::SystemTime::now().duration_since(std::time::UNIX_EPOCH) {
        Ok(d) => d.as_secs(),
        Err(_) => 0,
    }
}

/// Relies on String::from_utf8: ASCII bytes are valid UTF-8 and decode to
/// their own characters, one per byte.
#[verifier::external_body]
pub(crate) fn string_from_ascii(bytes: Vec<u8>) -> (r: String)
    requires
        forall|i: int| 0 <= i < bytes@.len() ==> bytes@[i] < 128,
    ensures
        r@.len() == bytes@.len(),
        forall|i: int| 0 <= i < bytes@.len() ==> r@[i] == bytes@[i] as char,
{
    String::from_utf8(bytes).unwrap()
}

/// An opaque JSON payload value, carried through but never read by the
/// governance logic.
#[verifier::external_type_specification]
#[verifier::external_body]
pub struct ExJsonValue(serde_json::Value);

/// Relies on serde_json::Map::new: a fresh, empty JSON object value.
#[verifier::external_body]
pub(crate) fn empty_json_object() -> serde_json::Value {
    serde_json::Value::Object(serde_json::Map::new())
}

/// Relies on serde_json::Map::insert and Value::from: a two-field JSON
/// object summarising an attestation's headline impact numbers. The value is
/// carried for collaborators and never read back by the governance logic.
#[verifier::external_body]
pub(crate) fn impact_summary_json(
    co2eq_reduced: i64,
    biodiversity_index_delta: i64,
) -> serde_json::Value {
    let mut m = serde_json::Map::new();
    m.insert("co2eq_reduced".to_owned(), serde_json::Value::from(co2eq_reduced));
    m.insert(
        "biodiversity_index_delta".to_owned(),
        serde_json::Value::from(biodiversity_index_delta),
    );
    serde_json::Value::Object(m)
}

/// Relies on serde_json's derived Clone for Value. Nothing is claimed of the
/// copy: payloads are opaque to the governance logic.
pub assume_specification[ <serde_json::Value as Clone>::clone ](
    v: &serde_json::Value,
) -> serde_json::Value;

} // verus!
