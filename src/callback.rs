//! The result payload sent back to the gateway: the handler's message as a
//! one-field JSON object, in base64.

use vstd::prelude::*;
use base64::Engine;
use crate::ledger::ContractError;

verus! {

#[verifier::external_type_specification]
#[verifier::external_body]
pub struct ExJsonError(serde_json_wasm::ser::Error);

/// The JSON string literal that serde-json-wasm writes for a text.
pub uninterp spec fn json_string_of(s: Seq<char>) -> Seq<char>;

/// The padded standard base64 text of a text's UTF-8 bytes.
pub uninterp spec fn base64_of(s: Seq<char>) -> Seq<char>;

/// Text that JSON needs no escape for: no quote, no backslash, no control
/// character.
pub open spec fn plain_text(s: Seq<char>) -> bool {
    forall|i: int|
        0 <= i < s.len() ==> #[trigger] s[i] != '"' && s[i] != '\\' && (s[i] as u32) >= 32
}

/// Relies on `serde_json_wasm::to_string` on a `str`: its serializer writes the
/// string literal and has no failing path for it, and copies every character
/// that needs no escape as it is, between two quotes.
#[verifier::external_body]
fn json_string(s: &str) -> (r: Result<String, serde_json_wasm::ser::Error>)
    ensures
        r is Ok,
        r matches Ok(t) ==> t@ == json_string_of(s@),
        r matches Ok(t) ==> (plain_text(s@) ==> t@ == seq!['"'] + s@ + seq!['"']),
{
    serde_json_wasm::to_string(s)
}

/// Relies on `base64::engine::general_purpose::STANDARD.encode`, which encodes
/// the text's bytes; its length computation cannot overflow for a `str`.
#[verifier::external_body]
fn base64_text(s: &str) -> (r: String)
    ensures
        r@ == base64_of(s@),
{
    base64::engine::general_purpose::STANDARD.encode(s)
}

/// The JSON object `{"message": m}` in compact form.
pub open spec fn message_json(m: Seq<char>) -> Seq<char> {
    "{\"message\":"@ + json_string_of(m) + "}"@
}

/// The result field of a callback that reports `m`.
pub open spec fn callback_result(m: Seq<char>) -> Seq<char> {
    base64_of(message_json(m))
}

/// Encodes a handler's message for the gateway.
pub fn encode_result(message: &str) -> (r: Result<String, ContractError>)
    ensures
        r is Ok,
        r matches Ok(t) ==> t@ == callback_result(message@),
{
    let quoted = match json_string(message) {
        Ok(q) => q,
        Err(_) => {
            return Err(ContractError::EncodingError);
        },
    };
    let mut json = String::from_str("{\"message\":");
    json.append(quoted.as_str());
    json.append("}");
    assert(json@ == message_json(message@));
    Ok(base64_text(json.as_str()))
}

} // verus!
