use vstd::prelude::*;
use vstd::string::StringExecFns;
use crate::json::{Json, JsonModel, optional_model, clone_optional};

verus! {

/// The code of a frame that is no JSON.
pub const PARSE_ERROR: i64 = -32700;

/// The code of a JSON value that is no message.
pub const INVALID_REQUEST: i64 = -32600;

/// The code of a method that no server recognizes.
pub const METHOD_NOT_FOUND: i64 = -32601;

/// The code of parameters that do not fit the method.
pub const INVALID_PARAMS: i64 = -32602;

/// The code of a failure inside the server.
pub const INTERNAL_ERROR: i64 = -32603;

/// Whether the protocol keeps a code for itself: the codes from -32768 to
/// -32000.
pub open spec fn reserved(code: int) -> bool {
    -32768 <= code <= -32000
}

/// An error as it travels in a response.
///
/// The codes from -32768 to -32000 are reserved by the protocol, and an
/// application picks its own codes outside that range. `RpcError::new` takes
/// any code: to keep out of the range is up to the application, which can
/// ask `RpcError::is_reserved`.
#[derive(Debug, PartialEq)]
pub struct RpcError {
    pub code: i64,
    pub message: String,
    pub data: Option<Json>,
}

/// The mathematical model of an error.
pub struct RpcErrorModel {
    pub code: int,
    pub message: Seq<char>,
    pub data: Option<JsonModel>,
}

impl View for RpcError {
    type V = RpcErrorModel;

    open spec fn view(&self) -> RpcErrorModel {
        RpcErrorModel {
            code: self.code as int,
            message: self.message@,
            data: optional_model(self.data),
        }
    }
}

/// The error that stands for a failure of the given kind with a text attached.
pub open spec fn described(code: int, message: Seq<char>, detail: Option<Seq<char>>) -> RpcErrorModel {
    RpcErrorModel {
        code,
        message,
        data: match detail {
            Some(text) => Some(JsonModel::Str(text)),
            None => None,
        },
    }
}

/// The model of `RpcError::parse_error`.
pub open spec fn parse_error_model(detail: Seq<char>) -> RpcErrorModel {
    described(PARSE_ERROR as int, "Parse error"@, Some(detail))
}

/// The model of `RpcError::invalid_request`.
pub open spec fn invalid_request_model() -> RpcErrorModel {
    described(INVALID_REQUEST as int, "Invalid request"@, None)
}

/// The model of `RpcError::method_not_found`.
pub open spec fn method_not_found_model(method: Seq<char>) -> RpcErrorModel {
    described(METHOD_NOT_FOUND as int, "Method not found"@, Some(method))
}

/// The model of `RpcError::invalid_params`.
pub open spec fn invalid_params_model(detail: Option<Seq<char>>) -> RpcErrorModel {
    described(INVALID_PARAMS as int, "Invalid params"@, detail)
}

/// The model of `RpcError::internal_error`.
pub open spec fn internal_error_model(detail: Seq<char>) -> RpcErrorModel {
    described(INTERNAL_ERROR as int, "Internal error"@, Some(detail))
}

impl RpcError {
    /// An error made of its three parts.
    pub fn new(code: i64, message: String, data: Option<Json>) -> (e: RpcError)
        ensures
            e.code == code,
            e.message == message,
            e.data == data,
    {
        RpcError { code, message, data }
    }

    /// Whether the protocol keeps `code` for itself.
    pub fn is_reserved(code: i64) -> (r: bool)
        ensures
            r == reserved(code as int),
    {
        -32768 <= code && code <= -32000
    }

    /// The frame could not be read as JSON; `detail` says why.
    pub fn parse_error(detail: String) -> (e: RpcError)
        ensures
            e@ == parse_error_model(detail@),
    {
        RpcError {
            code: PARSE_ERROR,
            message: String::from_str("Parse error"),
            data: Some(Json::Str(detail)),
        }
    }

    /// The JSON value is no request, notification, response or batch.
    pub fn invalid_request() -> (e: RpcError)
        ensures
            e@ == invalid_request_model(),
    {
        RpcError { code: INVALID_REQUEST, message: String::from_str("Invalid request"), data: None }
    }

    /// No server recognizes `method`.
    pub fn method_not_found(method: String) -> (e: RpcError)
        ensures
            e@ == method_not_found_model(method@),
    {
        RpcError {
            code: METHOD_NOT_FOUND,
            message: String::from_str("Method not found"),
            data: Some(Json::Str(method)),
        }
    }

    /// The parameters do not fit; `detail` may say how.
    pub fn invalid_params(detail: Option<String>) -> (e: RpcError)
        ensures
            e@ == invalid_params_model(
                match detail {
                    Some(text) => Some(text@),
                    None => None,
                },
            ),
    {
        let data = match detail {
            Some(text) => Some(Json::Str(text)),
            None => None,
        };
        RpcError { code: INVALID_PARAMS, message: String::from_str("Invalid params"), data }
    }

    /// The server failed on its own account; `detail` says how.
    pub fn internal_error(detail: String) -> (e: RpcError)
        ensures
            e@ == internal_error_model(detail@),
    {
        RpcError {
            code: INTERNAL_ERROR,
            message: String::from_str("Internal error"),
            data: Some(Json::Str(detail)),
        }
    }
}

impl Clone for RpcError {
    fn clone(&self) -> (e: RpcError)
        ensures
            e@ == self@,
    {
        RpcError { code: self.code, message: self.message.clone(), data: clone_optional(&self.data) }
    }
}

} // verus!
