//! Newline-delimited JSON-RPC, without a `jsonrpc` field: requests of the
//! client carry a numeric `id`, requests of the server a text `id`, and one
//! line is one message.

use crate::json::{
    json_of_text, no_fields, one_line, read_json, readable, text_of_json, write_json, Json,
    JsonView,
};
use crate::text::{contains, dec, dec_int, decimal, decimal_signed, group_contains};
use vstd::prelude::*;

verus! {

#[derive(Debug, Clone, PartialEq, Eq)]
pub enum RpcError {
    /// The server answered with an error.
    Server { code: i64, message: String },
    /// A response with neither a result nor an error.
    EmptyResponse(String),
    /// A line that is not JSON.
    BadLine(String),
    Transport(String),
}

impl RpcError {
    /// The message shown for the error.
    pub open spec fn text(&self) -> Seq<char> {
        match self {
            RpcError::Server { code, message } => "RPC erro "@ + dec_int(*code as int) + ": "@
                + message@,
            RpcError::EmptyResponse(id) => "resposta sem result nem error (id="@ + id@ + ")"@,
            RpcError::BadLine(line) => "linha não é JSON: "@ + line@,
            RpcError::Transport(m) => "transporte: "@ + m@,
        }
    }

    pub fn to_text(&self) -> (r: String)
        ensures
            r@ == self.text(),
    {
        match self {
            RpcError::Server { code, message } => {
                let mut s = "RPC erro ".to_owned();
                let c = decimal_signed(*code);
                s.append(c.as_str());
                s.append(": ");
                s.append(message.as_str());
                s
            },
            RpcError::EmptyResponse(id) => {
                let mut s = "resposta sem result nem error (id=".to_owned();
                s.append(id.as_str());
                s.append(")");
                s
            },
            RpcError::BadLine(line) => {
                let mut s = "linha não é JSON: ".to_owned();
                s.append(line.as_str());
                s
            },
            RpcError::Transport(m) => {
                let mut s = "transporte: ".to_owned();
                s.append(m.as_str());
                s
            },
        }
    }

    /// Equality of errors, their texts compared as texts.
    pub open spec fn alike(&self, other: &RpcError) -> bool {
        match (self, other) {
            (
                RpcError::Server { code: a, message: m },
                RpcError::Server { code: b, message: n },
            ) => a == b && m@ == n@,
            (RpcError::EmptyResponse(m), RpcError::EmptyResponse(n)) => m@ == n@,
            (RpcError::BadLine(m), RpcError::BadLine(n)) => m@ == n@,
            (RpcError::Transport(m), RpcError::Transport(n)) => m@ == n@,
            _ => false,
        }
    }
}

/// The id of a message: a number from the client, a text from the server.
#[derive(Debug, Clone, PartialEq, Eq)]
pub enum RequestId {
    Num(u64),
    Str(String),
}

impl RequestId {
    pub open spec fn text(&self) -> Seq<char> {
        match self {
            RequestId::Num(n) => dec(*n as nat),
            RequestId::Str(s) => s@,
        }
    }

    pub open spec fn json(&self) -> JsonView {
        match self {
            RequestId::Num(n) => JsonView::Int(*n as int),
            RequestId::Str(s) => JsonView::Str(s@),
        }
    }

    pub fn to_text(&self) -> (r: String)
        ensures
            r@ == self.text(),
    {
        match self {
            RequestId::Num(n) => decimal(*n),
            RequestId::Str(s) => s.clone(),
        }
    }
}

/// A request of the client.
pub open spec fn request_view(id: u64, method: Seq<char>, params: JsonView) -> JsonView {
    no_fields().put("id"@, JsonView::Int(id as int)).put("method"@, JsonView::Str(method)).put(
        "params"@,
        params,
    )
}

/// The answer to a request of the server.
pub open spec fn server_response_view(id: JsonView, result: JsonView) -> JsonView {
    no_fields().put("id"@, id).put("result"@, result)
}

/// A request of the server has a method and a text id.
pub open spec fn server_request(v: JsonView) -> bool {
    v.text_at("method"@) is Some && v.text_at("id"@) is Some
}

/// A response to a request of the client has a numeric id and a result or an
/// error.
pub open spec fn client_response(v: JsonView) -> bool {
    &&& v.get("id"@) matches Some(id) && (id is Int || id is Float)
    &&& v.get("result"@) is Some || v.get("error"@) is Some
}

pub fn build_request(id: u64, method: &str, params: Json) -> (r: Json)
    ensures
        r@ == request_view(id, method@, params@),
{
    Json::object().with("id", Json::Unsigned(id)).with("method", Json::text(method)).with(
        "params",
        params,
    )
}

pub fn build_server_response(id: &RequestId, result: Json) -> (r: Json)
    ensures
        r@ == server_response_view(id.json(), result@),
{
    match id {
        RequestId::Num(n) => Json::object().with("id", Json::Unsigned(*n)).with("result", result),
        RequestId::Str(s) => Json::object().with("id", Json::text(s.as_str())).with(
            "result",
            result,
        ),
    }
}

/// Writes a message on one line; `parse_line` reads it back.
pub fn to_line(v: &Json) -> (s: String)
    ensures
        s@ == text_of_json(v@),
        one_line(s@),
        readable(v@, 127) ==> json_of_text(s@) == Some(v@),
{
    write_json(v)
}

/// Reads one message.
pub fn parse_line(line: &str) -> (r: Result<Json, RpcError>)
    ensures
        match r {
            Ok(v) => json_of_text(line@) == Some(v@),
            Err(e) => json_of_text(line@) is None && (e matches RpcError::BadLine(l) && l@ == line@),
        },
{
    match read_json(line) {
        Ok(v) => Ok(v),
        Err(_) => Err(RpcError::BadLine(line.to_owned())),
    }
}

pub fn is_server_request(v: &Json) -> (r: bool)
    ensures
        r == server_request(v@),
{
    v.str_at("method").is_some() && v.str_at("id").is_some()
}

pub fn is_client_response(v: &Json) -> (r: bool)
    ensures
        r == client_response(v@),
{
    let numeric = match v.get("id") {
        Some(id) => match id {
            Json::Unsigned(_) => true,
            Json::Signed(_) => true,
            Json::Float(_) => true,
            _ => false,
        },
        None => false,
    };
    numeric && (v.get("result").is_some() || v.get("error").is_some())
}

pub fn response_id(v: &Json) -> (r: Option<u64>)
    ensures
        r == v@.unsigned_at("id"@),
{
    v.u64_at("id")
}

// ---------------------------------------------------------------- laws

/// A request carries its number, its method and its parameters.
pub proof fn law_request_holds(id: u64, method: Seq<char>, params: JsonView)
    ensures
        request_view(id, method, params).unsigned_at("id"@) == Some(id),
        request_view(id, method, params).text_at("method"@) == Some(method),
        request_view(id, method, params).get("params"@) == Some(params),
{
    reveal_strlit("id");
    reveal_strlit("method");
    reveal_strlit("params");
    assert("id"@.len() == 2 && "method"@.len() == 6 && "params"@.len() == 6);
    assert("method"@[0] != "params"@[0]);
}

/// A response to the server carries the id it was asked under and the result.
pub proof fn law_server_response_holds(id: JsonView, result: JsonView)
    ensures
        server_response_view(id, result).get("id"@) == Some(id),
        server_response_view(id, result).get("result"@) == Some(result),
{
    reveal_strlit("id");
    reveal_strlit("result");
    assert("id"@.len() == 2 && "result"@.len() == 6);
}

/// No message is both a request of the server and a response to the client.
pub proof fn law_requests_are_no_responses(v: JsonView)
    ensures
        !(server_request(v) && client_response(v)),
{
}

/// The text of an error holds what it is about.
pub proof fn law_rpc_error_text(e: RpcError)
    ensures
        e matches RpcError::Server { code, message } ==> contains(e.text(), message@) && contains(
            e.text(),
            dec_int(code as int),
        ),
        e matches RpcError::EmptyResponse(id) ==> contains(e.text(), id@),
        e matches RpcError::BadLine(line) ==> contains(e.text(), line@),
        e matches RpcError::Transport(m) ==> contains(e.text(), m@),
{
    broadcast use group_contains;

}

} // verus!
