//! Saved plugin state travels as standard base64 text.
use vstd::prelude::*;
use base64::Engine;

verus! {

/// The standard-alphabet, padded base64 text of some bytes, as
/// `base64::engine::general_purpose::STANDARD.encode` writes it.
pub uninterp spec fn b64_encode(bytes: Seq<u8>) -> Seq<char>;

/// What `STANDARD.decode` makes of a text: the bytes, or nothing where the
/// text is not valid padded standard base64.
pub uninterp spec fn b64_decode(text: Seq<char>) -> Option<Seq<u8>>;

/// Encodes with `base64::engine::general_purpose::STANDARD.encode`. The
/// crate's engine decodes what it encoded back to the same bytes.
#[verifier::external_body]
fn b64_encode_bytes(bytes: &[u8]) -> (r: String)
    ensures
        r@ == b64_encode(bytes@),
        b64_decode(r@) == Some(bytes@),
{
    base64::engine::general_purpose::STANDARD.encode(bytes)
}

/// Decodes with `base64::engine::general_purpose::STANDARD.decode`; an
/// error becomes `None`.
#[verifier::external_body]
fn b64_decode_text(text: &str) -> (r: Option<Vec<u8>>)
    ensures
        match r {
            Some(v) => b64_decode(text@) == Some(v@),
            None => b64_decode(text@).is_none(),
        },
{
    match base64::engine::general_purpose::STANDARD.decode(text) {
        Ok(v) => Some(v),
        Err(_) => None,
    }
}

/// A plugin's saved state as text.
pub fn encode_state(bytes: &[u8]) -> (r: String)
    ensures
        r@ == b64_encode(bytes@),
        b64_decode(r@) == Some(bytes@),
{
    b64_encode_bytes(bytes)
}

/// A plugin's saved state from its text, or `None` for text that is not
/// valid base64.
pub fn decode_state(s: &str) -> (r: Option<Vec<u8>>)
    ensures
        match r {
            Some(v) => b64_decode(s@) == Some(v@),
            None => b64_decode(s@).is_none(),
        },
{
    b64_decode_text(s)
}

/// The saved state of an effect that has one, decoded; `None` where it has
/// none or it does not decode.
pub fn decode_optional_state(b64: &Option<String>) -> (r: Option<Vec<u8>>)
    ensures
        match b64 {
            Some(s) => match r {
                Some(v) => b64_decode(s@) == Some(v@),
                None => b64_decode(s@).is_none(),
            },
            None => r.is_none(),
        },
{
    match b64 {
        Some(s) => decode_state(s.as_str()),
        None => None,
    }
}

/// Whether writing the in-memory chains would wipe saved effects: nothing
/// is held in memory while the file on disk still lists effects.
pub fn save_would_wipe(in_memory_effects: usize, on_disk_effects: usize) -> (r: bool)
    ensures
        r == (in_memory_effects == 0 && on_disk_effects > 0),
{
    in_memory_effects == 0 && on_disk_effects > 0
}

} // verus!
