//! What a caller gets back.

use vstd::prelude::*;

verus! {

/// A JSON value of serde_json.
#[verifier::external_type_specification]
#[verifier::external_body]
pub struct ExValue(serde_json::Value);

/// Code of a response that reports success.
pub const SUCCESS_CODE: u32 = 200;

/// Whether a JSON value is the variant `Null`.
pub uninterp spec fn is_null_value(value: serde_json::Value) -> bool;

/// Whether a JSON value is `null`: `serde_json::Value::is_null`.
///
/// Assumed: the answer is what [`is_null_value`] names for the value.
#[verifier::external_body]
fn json_is_null(value: &serde_json::Value) -> (null: bool)
    ensures
        null == is_null_value(*value),
{
    value.is_null()
}

/// The envelope of every answer: whether the request went through, a
/// message, the data if there are any, and a code.
#[derive(Debug, PartialEq)]
pub struct ApiResponse {
    pub success: bool,
    pub message: String,
    pub data: Option<serde_json::Value>,
    pub code: u32,
}

impl ApiResponse {
    /// An answer that reports success, with the data unless they are
    /// `null`.
    pub fn success(message: String, data: serde_json::Value) -> (response: Self)
        ensures
            response.success,
            response.message == message,
            response.code == SUCCESS_CODE,
            response.data == if is_null_value(data) {
                None
            } else {
                Some(data)
            },
    {
        let data = if json_is_null(&data) {
            None
        } else {
            Some(data)
        };
        ApiResponse { success: true, message, data, code: SUCCESS_CODE }
    }

    /// An answer that reports a failure, with its code and without data.
    pub fn failure(message: String, code: u32) -> (response: Self)
        ensures
            !response.success,
            response.message == message,
            response.code == code,
            response.data is None,
    {
        ApiResponse { success: false, message, data: None, code }
    }
}

} // verus!
