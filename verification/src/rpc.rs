//! The JSON-RPC envelope around a request and around its answer.
//!
//! The library writes the body of a call and reads the body of a reply; the
//! caller carries the bytes to the service and back.

use vstd::prelude::*;
use vstd::string::StringExecFns;
use crate::json::{json_document_of_bytes, json_member, json_string_literal, member, parse_bytes, quote};
use crate::message::{Request, Response};
use crate::reading::{
    has_only,
    integer_member,
    only_members,
    optional_member,
    read_integer,
    read_optional,
    read_optional_owned,
    read_text,
    text_member,
};

verus! {

/// `hyper::Error`: the report of a failed transport, carried as it is.
#[verifier::external_type_specification]
#[verifier::external_body]
pub struct ExHyperError(hyper::Error);

/// The version of the protocol: the string `2.0`.
#[derive(Debug, Clone, Copy, PartialEq, Eq, Structural)]
pub struct RpcVersion;

impl RpcVersion {
    /// The version as it is written in a call.
    pub fn as_str(&self) -> (r: &'static str)
        ensures
            r@ == "2.0"@,
    {
        "2.0"
    }

    /// Reads a version: the string `2.0` and no other.
    pub fn parse(value: &str) -> (r: Option<RpcVersion>)
        ensures
            r.is_some() == (value@ == "2.0"@),
    {
        let written = value.to_owned();
        let expected = "2.0".to_owned();
        if written == expected {
            Some(RpcVersion)
        } else {
            None
        }
    }
}

/// The method of every call: the string `call`.
#[derive(Debug, Clone, Copy, PartialEq, Eq, Structural)]
pub struct RpcMethod;

impl RpcMethod {
    /// The method as it is written in a call.
    pub fn as_str(&self) -> (r: &'static str)
        ensures
            r@ == "call"@,
    {
        "call"
    }
}

/// The error that the service reports in place of a result.
#[derive(Debug)]
pub struct RpcError {
    pub code: i64,
    pub message: String,
    pub data: Option<serde_json::Value>,
}

/// What an `RpcError` holds.
pub struct RpcErrorView {
    pub code: int,
    pub message: Seq<char>,
    pub data: Option<serde_json::Value>,
}

impl View for RpcError {
    type V = RpcErrorView;

    open spec fn view(&self) -> RpcErrorView {
        RpcErrorView { code: self.code as int, message: self.message@, data: self.data }
    }
}

/// Why a call brought no result.
#[derive(Debug)]
pub enum ApiError {
    /// The reply does not declare its body as JSON.
    NotAJsonResponse,
    /// The transport failed.
    Hyper(hyper::Error),
    /// The service answered with an error.
    Rpc(RpcError),
    /// The body is no JSON document, or the parameters could not be written.
    Json(serde_json::Error),
    /// The body is a JSON document and no reply: a member is missing, of the
    /// wrong kind or unknown, or the reply holds neither result nor error.
    UnexpectedResponse,
}

/// The body of a call: the version, the identifier `0`, the method, and as
/// parameters the interface, the method of the interface and its parameters,
/// where each of the four names can be written as a JSON string literal.
pub open spec fn envelope_text(api: Seq<char>, method: Seq<char>, params: Seq<char>) -> Seq<
    char,
> {
    framed(
        json_string_literal("2.0"@).unwrap(),
        json_string_literal("call"@).unwrap(),
        json_string_literal(api).unwrap(),
        json_string_literal(method).unwrap(),
        params,
    )
}

/// The body of a call put together from its parts, each already written as
/// JSON: the version, the method, the interface, the method of the
/// interface and its parameters.
pub open spec fn framed(
    version: Seq<char>,
    method: Seq<char>,
    api: Seq<char>,
    name: Seq<char>,
    params: Seq<char>,
) -> Seq<char> {
    "{\"jsonrpc\":"@ + version + ",\"id\":0,\"method\":"@ + method + ",\"params\":["@ + api
        + ","@ + name + ","@ + params + "]}"@
}

/// Puts the body of a call together from its parts, each already written
/// as JSON.
pub fn frame(version: &str, method: &str, api: &str, name: &str, params: &str) -> (r: String)
    ensures
        r@ == framed(version@, method@, api@, name@, params@),
{
    let mut out = "{\"jsonrpc\":".to_owned();
    out.append(version);
    out.append(",\"id\":0,\"method\":");
    out.append(method);
    out.append(",\"params\":[");
    out.append(api);
    out.append(",");
    out.append(name);
    out.append(",");
    out.append(params);
    out.append("]}");
    out
}

/// A text as a JSON string literal.
fn quoted(text: &str) -> (r: Result<String, ApiError>)
    ensures
        r.is_ok() == json_string_literal(text@).is_some(),
        r.is_ok() ==> r.unwrap()@ == json_string_literal(text@).unwrap(),
        r.is_err() ==> r.unwrap_err() is Json,
{
    match quote(text) {
        Ok(written) => Ok(written),
        Err(e) => Err(ApiError::Json(e)),
    }
}

/// Writes the body of the call that carries a request. It fails only where
/// the JSON writer does, and then with its error.
pub fn encode_request<R: Request>(request: &R) -> (r: Result<String, ApiError>)
    ensures
        r.is_ok() ==> r.unwrap()@ == envelope_text(
            R::api_name(),
            R::method_name(),
            request.params_text(),
        ),
        r.is_err() ==> r.unwrap_err() is Json,
{
    let params = match request.encode() {
        Ok(params) => params,
        Err(e) => {
            return Err(ApiError::Json(e));
        },
    };
    let version = match quoted(RpcVersion.as_str()) {
        Ok(version) => version,
        Err(e) => {
            return Err(e);
        },
    };
    let method = match quoted(RpcMethod.as_str()) {
        Ok(method) => method,
        Err(e) => {
            return Err(e);
        },
    };
    let api = match quoted(R::api()) {
        Ok(api) => api,
        Err(e) => {
            return Err(e);
        },
    };
    let name = match quoted(R::method()) {
        Ok(name) => name,
        Err(e) => {
            return Err(e);
        },
    };
    Ok(frame(version.as_str(), method.as_str(), api.as_str(), name.as_str(), params.as_str()))
}

/// The content type of a call and of a reply that is read.
pub const JSON_TYPE: &'static str = "application/json";

/// The bytes of `application/json`.
pub open spec fn json_type() -> Seq<u8> {
    seq![97u8, 112u8, 112u8, 108u8, 105u8, 99u8, 97u8, 116u8, 105u8, 111u8, 110u8, 47u8, 106u8,
        115u8, 111u8, 110u8]
}

/// A byte with an ASCII capital letter turned into its small letter.
pub open spec fn lowered(byte: u8) -> u8 {
    if 65 <= byte <= 90 {
        (byte + 32) as u8
    } else {
        byte
    }
}

/// Whether a content type is there and reads `application/json`, in small or
/// capital letters, with nothing before or after it.
pub open spec fn declares_json(content_type: Option<Seq<u8>>) -> bool {
    match content_type {
        Some(value) => value.len() == json_type().len() && forall|i: int|
            0 <= i < value.len() ==> lowered(#[trigger] value[i]) == json_type()[i],
        None => false,
    }
}

/// Whether a content type, if there is one, declares JSON.
pub open spec fn is_declared_json(content_type: Option<&[u8]>) -> bool {
    declares_json(
        match content_type {
            Some(value) => Some(value@),
            None => None,
        },
    )
}

/// Whether the content type of a reply declares its body as JSON.
pub fn is_json_response(content_type: Option<&[u8]>) -> (r: bool)
    ensures
        r == is_declared_json(content_type),
{
    let value = match content_type {
        Some(value) => value,
        None => {
            return false;
        },
    };
    let expected: [u8; 16] = [97, 112, 112, 108, 105, 99, 97, 116, 105, 111, 110, 47, 106, 115, 111, 110];
    assert(expected@ =~= json_type());
    if value.len() != 16 {
        return false;
    }
    let mut i: usize = 0;
    while i < 16
        invariant
            0 <= i <= 16,
            content_type == Some(value),
            value@.len() == 16,
            expected@ == json_type(),
            forall|k: int| 0 <= k < i ==> lowered(#[trigger] value@[k]) == json_type()[k],
        decreases 16 - i,
    {
        let byte = value[i];
        let small = if byte >= 65 && byte <= 90 {
            byte + 32
        } else {
            byte
        };
        assert(small == lowered(byte));
        if small != expected[i] {
            assert(expected@[i as int] == json_type()[i as int]);
            assert(lowered(value@[i as int]) != json_type()[i as int]);
            return false;
        }
        i += 1;
    }
    true
}

/// The error that a JSON value is read as: an object with an integer `code`,
/// a string `message` and, if it is there and not `null`, `data` of any
/// kind, and with no other member.
pub open spec fn rpc_error_in(value: serde_json::Value) -> Option<RpcErrorView> {
    let code = integer_member(value, "code"@);
    let message = text_member(value, "message"@);
    if only_members(value, "code"@, "message"@, "data"@) && code.is_some() && message.is_some() {
        Some(
            RpcErrorView {
                code: code.unwrap() as int,
                message: message.unwrap(),
                data: optional_member(value, "data"@),
            },
        )
    } else {
        None
    }
}

impl RpcError {
    /// Reads the error of a reply from a JSON value.
    pub fn decode(value: &serde_json::Value) -> (r: Option<RpcError>)
        ensures
            r.is_some() == rpc_error_in(*value).is_some(),
            r.is_some() ==> r.unwrap()@ == rpc_error_in(*value).unwrap(),
    {
        proof {
            reveal_strlit("code");
            reveal_strlit("message");
            reveal_strlit("data");
            assert("code"@.len() == 4 && "message"@.len() == 7 && "data"@.len() == 4);
            assert("code"@[0] != "data"@[0]);
        }
        if !has_only(value, "code", "message", "data") {
            return None;
        }
        let code = read_integer(value, "code");
        let message = read_text(value, "message");
        match (code, message) {
            (Some(code), Some(message)) => {
                let data = read_optional_owned(value, "data");
                Some(RpcError { code, message, data })
            },
            _ => None,
        }
    }
}

/// What a reply says.
pub enum Reply<T> {
    /// The result of the call.
    Answer(T),
    /// The error that the service reports.
    Refusal(RpcErrorView),
    /// Nothing: the document is no reply.
    Malformed,
}

/// What a JSON document says as a reply to a request with answers of type
/// `R`. A reply is an object with an `id` of any kind and, each optional and
/// `null` counting as missing, a `result` and an `error`; it has no other
/// member. What is there must be readable; then the result counts if there
/// is one, else the error, and a reply with neither is malformed.
pub open spec fn reply_in<R: Response>(document: serde_json::Value) -> Reply<R::V> {
    let result = optional_member(document, "result"@);
    let error = optional_member(document, "error"@);
    if !only_members(document, "id"@, "result"@, "error"@) || json_member(document, "id"@).is_none() {
        Reply::Malformed
    } else if result.is_some() && R::reading(result.unwrap()).is_none() {
        Reply::Malformed
    } else if error.is_some() && rpc_error_in(error.unwrap()).is_none() {
        Reply::Malformed
    } else if result.is_some() {
        Reply::Answer(R::reading(result.unwrap()).unwrap())
    } else if error.is_some() {
        Reply::Refusal(rpc_error_in(error.unwrap()).unwrap())
    } else {
        Reply::Malformed
    }
}

/// Reads a reply from a parsed document.
pub fn read_reply<R: Response>(document: &serde_json::Value) -> (r: Result<R, ApiError>)
    ensures
        match r {
            Ok(answer) => reply_in::<R>(*document) == Reply::<R::V>::Answer(answer@),
            Err(ApiError::Rpc(e)) => reply_in::<R>(*document) == Reply::<R::V>::Refusal(e@),
            Err(ApiError::UnexpectedResponse) => reply_in::<R>(*document) is Malformed,
            Err(_) => false,
        },
{
    proof {
        reveal_strlit("id");
        reveal_strlit("result");
        reveal_strlit("error");
        assert("id"@.len() == 2 && "result"@.len() == 6 && "error"@.len() == 5);
    }
    if !has_only(document, "id", "result", "error") {
        return Err(ApiError::UnexpectedResponse);
    }
    if member(document, "id").is_none() {
        return Err(ApiError::UnexpectedResponse);
    }
    let result = match read_optional(document, "result") {
        Some(value) => match R::decode(value) {
            Some(answer) => Some(answer),
            None => {
                return Err(ApiError::UnexpectedResponse);
            },
        },
        None => None,
    };
    let error = match read_optional(document, "error") {
        Some(value) => match RpcError::decode(value) {
            Some(e) => Some(e),
            None => {
                return Err(ApiError::UnexpectedResponse);
            },
        },
        None => None,
    };
    settle(result, error)
}

/// What a reply comes to once its result and its error are read: the
/// result if there is one, else the error of the service, and a reply with
/// neither is not a reply.
pub fn settle<R>(result: Option<R>, error: Option<RpcError>) -> (r: Result<R, ApiError>)
    ensures
        match result {
            Some(answer) => r == Ok::<R, ApiError>(answer),
            None => match error {
                Some(e) => r == Err::<R, ApiError>(ApiError::Rpc(e)),
                None => r == Err::<R, ApiError>(ApiError::UnexpectedResponse),
            },
        },
{
    match result {
        Some(answer) => Ok(answer),
        None => match error {
            Some(e) => Err(ApiError::Rpc(e)),
            None => Err(ApiError::UnexpectedResponse),
        },
    }
}

/// Reads the reply to a call from the content type and the body that came
/// back. The content type is looked at first: a body that is not declared
/// as JSON is not read.
pub fn decode_response<R: Response>(content_type: Option<&[u8]>, body: &[u8]) -> (r: Result<
    R,
    ApiError,
>)
    ensures
        match r {
            Ok(answer) => {
                &&& is_declared_json(content_type)
                &&& json_document_of_bytes(body@).is_some()
                &&& reply_in::<R>(json_document_of_bytes(body@).unwrap()) == Reply::<
                    R::V,
                >::Answer(answer@)
            },
            Err(ApiError::NotAJsonResponse) => !is_declared_json(content_type),
            Err(ApiError::Json(_)) => is_declared_json(content_type) && json_document_of_bytes(
                body@,
            ).is_none(),
            Err(ApiError::Rpc(e)) => {
                &&& is_declared_json(content_type)
                &&& json_document_of_bytes(body@).is_some()
                &&& reply_in::<R>(json_document_of_bytes(body@).unwrap()) == Reply::<
                    R::V,
                >::Refusal(e@)
            },
            Err(ApiError::UnexpectedResponse) => {
                &&& is_declared_json(content_type)
                &&& json_document_of_bytes(body@).is_some()
                &&& reply_in::<R>(json_document_of_bytes(body@).unwrap()) is Malformed
            },
            Err(ApiError::Hyper(_)) => false,
        },
{
    if !is_json_response(content_type) {
        return Err(ApiError::NotAJsonResponse);
    }
    match parse_bytes(body) {
        Ok(document) => read_reply::<R>(&document),
        Err(e) => Err(ApiError::Json(e)),
    }
}

} // verus!
