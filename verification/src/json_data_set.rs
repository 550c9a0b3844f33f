//! Reading of the training data set from JSON text.
//!
//! The expected shape is an object with two arrays:
//!
//! ```json
//! {
//!   "inputs":  [ [55.0, 1.0], [130.0, 4.0] ],
//!   "outputs": [ 23000.0, 48500.0 ]
//! }
//! ```
//!
//! Every row of `inputs` carries the features of one sample, and the value at the
//! same index of `outputs` is what the model is expected to predict for it.

use vstd::prelude::*;

verus! {

/// A JSON document as `serde_json` represents it.
#[verifier::external_type_specification]
#[verifier::external_body]
pub struct ExJsonValue(serde_json::Value);

/// The default place the training data set is read from, relative to the
/// project root.
pub const DEFAULT_PATH: &'static str = "data/gemini_created_data_set.json";

/// Whether `serde_json::from_str` reads `text` as a `serde_json::Value`: the
/// text holds one JSON value, with nothing but whitespace around it, nested no
/// deeper than `serde_json`'s recursion limit, with no number out of range, no
/// bad escape and no raw control character inside a string.
pub uninterp spec fn reads_as_json_value(text: Seq<char>) -> bool;

/// The `serde_json::Value` that `serde_json::from_str` builds from `text`, for
/// a text that it reads.
pub uninterp spec fn json_value_of(text: Seq<char>) -> serde_json::Value;

/// Calls `serde_json::from_str::<serde_json::Value>`. The contract claims that
/// whether it succeeds depends on the text alone (named `reads_as_json_value`),
/// and that the value it builds does too (named `json_value_of`): the parser
/// reads nothing but the text, and objects are kept in ordered maps.
#[verifier::external_body]
fn value_from_str(json: &str) -> (result: Result<serde_json::Value, serde_json::Error>)
    ensures
        result is Ok <==> reads_as_json_value(json@),
        result matches Ok(value) ==> value == json_value_of(json@),
{
    serde_json::from_str::<serde_json::Value>(json)
}

/// Deserializes the data set out of the JSON text, which must hold valid JSON.
pub fn parse(json: &str) -> (value: serde_json::Value)
    requires
        reads_as_json_value(json@),
    ensures
        value == json_value_of(json@),
{
    match value_from_str(json) {
        Ok(value) => value,
        Err(_) => vstd::pervasive::unreached(),
    }
}

/// Deserializes the data set out of the JSON text, or hands back the error
/// that `serde_json` reported for text that does not hold valid JSON.
pub fn parse_checked(json: &str) -> (result: Result<serde_json::Value, serde_json::Error>)
    ensures
        result is Ok <==> reads_as_json_value(json@),
        result matches Ok(value) ==> value == json_value_of(json@),
{
    match value_from_str(json) {
        Ok(_) => Ok(parse(json)),
        Err(error) => Err(error),
    }
}

} // verus!
