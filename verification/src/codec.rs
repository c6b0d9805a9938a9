//! The wire form of query answers: JSON, written by the host library.

use crate::error::ContractError;
use crate::text::decimal_text;
use vstd::prelude::*;

verus! {

/// The error type of `cosmwasm_std`. Nothing is known of a value of it.
#[verifier::external_type_specification]
#[verifier::external_body]
pub struct ExStdError(cosmwasm_std::StdError);

/// The bytes of a text made of ASCII characters.
pub open spec fn ascii_bytes(text: Seq<char>) -> Seq<u8> {
    Seq::new(text.len(), |i: int| text[i] as u8)
}

/// The JSON text of an optional outcome: the number in decimal, or `null`.
pub open spec fn outcome_json_text(outcome: Option<u8>) -> Seq<char> {
    match outcome {
        Some(sum) => decimal_text(sum as nat),
        None => seq!['n', 'u', 'l', 'l'],
    }
}

/// The JSON bytes of an optional outcome.
pub open spec fn outcome_json(outcome: Option<u8>) -> Seq<u8> {
    ascii_bytes(outcome_json_text(outcome))
}

/// The JSON bytes that `cosmwasm_std::to_binary` writes for a list of texts:
/// an array of strings, each escaped as JSON asks.
pub uninterp spec fn text_array_json(lines: Seq<Seq<char>>) -> Seq<u8>;

/// Calls `cosmwasm_std::to_binary` on an optional byte and takes the bytes
/// out of the `Binary` it gives.
///
/// Not proved, but taken from the source of the call: it succeeds, and writes
/// `null` for `None` and the number in decimal, without leading zeros, for
/// `Some`. `to_binary` hands the value to `serde_json_wasm::to_vec`, whose
/// serializer appends to a growable buffer; its `serialize_none` and its
/// `serialize_u8` end in `Ok` on every path.
#[allow(deprecated)]
#[verifier::external_body]
fn outcome_to_binary(outcome: &Option<u8>) -> (encoded: Result<Vec<u8>, cosmwasm_std::StdError>)
    ensures
        encoded is Ok,
        encoded matches Ok(bytes) ==> bytes@ == outcome_json(*outcome),
{
    cosmwasm_std::to_binary(outcome).map(|binary| binary.0)
}

/// Calls `cosmwasm_std::to_binary` on a list of texts and takes the bytes out
/// of the `Binary` it gives.
///
/// Not proved, but taken from the source of the call: it succeeds, and what
/// it writes depends on the texts alone. `to_binary` hands the list to
/// `serde_json_wasm::to_vec`, whose serializer appends to a growable buffer;
/// its `serialize_seq`, `serialize_element`, `end` and `serialize_str` end in
/// `Ok` on every path.
#[allow(deprecated)]
#[verifier::external_body]
fn lines_to_binary(lines: &Vec<String>) -> (encoded: Result<Vec<u8>, cosmwasm_std::StdError>)
    ensures
        encoded is Ok,
        encoded matches Ok(bytes) ==> bytes@ == text_array_json(lines.deep_view()),
{
    cosmwasm_std::to_binary(lines).map(|binary| binary.0)
}

/// Passes encoded bytes on, and reports a failed encoding as
/// [`ContractError::Serialize`].
pub fn encoded_or_error(encoded: Result<Vec<u8>, cosmwasm_std::StdError>) -> (r: Result<
    Vec<u8>,
    ContractError,
>)
    ensures
        encoded is Ok ==> r == Ok::<Vec<u8>, ContractError>(encoded->Ok_0),
        encoded is Err ==> r == Err::<Vec<u8>, ContractError>(ContractError::Serialize),
{
    match encoded {
        Ok(bytes) => Ok(bytes),
        Err(_) => Err(ContractError::Serialize),
    }
}

/// The JSON bytes of an optional outcome.
pub fn encode_outcome(outcome: Option<u8>) -> (r: Result<Vec<u8>, ContractError>)
    ensures
        r matches Ok(bytes) && bytes@ == outcome_json(outcome),
{
    encoded_or_error(outcome_to_binary(&outcome))
}

/// The JSON bytes of a list of texts.
pub fn encode_lines(lines: &Vec<String>) -> (r: Result<Vec<u8>, ContractError>)
    ensures
        r matches Ok(bytes) && bytes@ == text_array_json(lines.deep_view()),
{
    encoded_or_error(lines_to_binary(lines))
}

} // verus!
