//! The resident broker: how its lines are written and read, who may speak to
//! it, how it is found, and how it answers.

use crate::json::{
    json_error_of_text, json_of_text, no_fields, one_line, pretty_of_json, read_json, readable,
    slot, struct_shape, text_of_json, write_json, write_json_pretty, Json, JsonView,
};
use crate::rpc::RpcError;
use crate::runtime::RuntimeError;
use crate::paths::{app_file, data_file};
use crate::text::{
    blank, contains, dec, decimal, group_contains, has, in_order, is_blank, law_in_order, lemma_trim_solid, ordered_texts, same, trim,
    trimmed,
};
use vstd::prelude::*;

verus! {

/// How many authenticated connections are served at a time.
pub const MAX_CONNECTIONS: usize = 8;

/// The time a client gives a daemon to accept it.
pub const HANDSHAKE_BUDGET_MS: u64 = 300;

// ---------------------------------------------------------------- client lines

/// A message of a client. The token counts on the first line only.
#[derive(Debug)]
pub struct ClientMsg {
    pub id: u64,
    pub token: Option<String>,
    pub method: String,
    pub params: Json,
}

#[verifier::ext_equal]
pub struct ClientMsgView {
    pub id: u64,
    pub token: Option<Seq<char>>,
    pub method: Seq<char>,
    pub params: JsonView,
}

impl View for ClientMsg {
    type V = ClientMsgView;

    open spec fn view(&self) -> ClientMsgView {
        ClientMsgView {
            id: self.id,
            token: self.token.deep_view(),
            method: self.method@,
            params: self.params@,
        }
    }
}

/// A client message as JSON.
pub open spec fn client_msg_json(m: ClientMsgView) -> JsonView {
    no_fields().put("id"@, JsonView::Int(m.id as int)).put(
        "token"@,
        match m.token {
            Some(t) => JsonView::Str(t),
            None => JsonView::Null,
        },
    ).put("method"@, JsonView::Str(m.method)).put("params"@, m.params)
}

/// An id that may be missing; `None` where it is not a number of 64 bits.
pub open spec fn id_slot(v: JsonView) -> Option<u64> {
    match slot(v, 0, "id"@) {
        Some(x) => x.as_unsigned(),
        None => Some(0),
    }
}

/// A token that may be missing or null; `None` where it is something else.
pub open spec fn token_slot(v: JsonView) -> Option<Option<Seq<char>>> {
    match slot(v, 1, "token"@) {
        Some(JsonView::Null) => Some(None),
        Some(JsonView::Str(t)) => Some(Some(t)),
        Some(_) => None,
        None => Some(None),
    }
}

/// The client message that a JSON value is: a method must be there, the rest
/// may be missing.
pub open spec fn client_msg_of(v: JsonView) -> Option<ClientMsgView> {
    if !struct_shape(v, 4) {
        None
    } else {
        match (id_slot(v), token_slot(v), slot(v, 2, "method"@)) {
            (Some(id), Some(token), Some(JsonView::Str(method))) => Some(
                ClientMsgView {
                    id,
                    token,
                    method,
                    params: match slot(v, 3, "params"@) {
                        Some(p) => p,
                        None => JsonView::Null,
                    },
                },
            ),
            _ => None,
        }
    }
}

/// The client message that a line carries.
pub open spec fn client_msg_of_line(line: Seq<char>) -> Option<ClientMsgView> {
    match json_of_text(trim(line)) {
        Some(v) => client_msg_of(v),
        None => None,
    }
}

/// Why a line carries no client message.
pub open spec fn client_line_error(line: Seq<char>) -> Seq<char> {
    "linha não é ClientMsg: "@ + match json_of_text(trim(line)) {
        Some(_) => "campos inválidos ou sem method"@,
        None => json_error_of_text(trim(line)),
    }
}

proof fn lemma_client_msg_back(m: ClientMsgView)
    ensures
        client_msg_of(client_msg_json(m)) == Some(m),
{
    reveal_strlit("id");
    reveal_strlit("token");
    reveal_strlit("method");
    reveal_strlit("params");
    assert("id"@.len() == 2);
    assert("token"@.len() == 5);
    assert("method"@[0] == 'm' && "method"@.len() == 6);
    assert("params"@[0] == 'p' && "params"@.len() == 6);
}

proof fn lemma_client_msg_readable(m: ClientMsgView)
    requires
        readable(m.params, 126),
    ensures
        readable(client_msg_json(m), 127),
{
    broadcast use crate::json::group_readable;

}

/// Writes a client message on one line. Reading that line gives the message
/// back, unless its parameters hold a fractional number or are nested deeper
/// than a reader goes.
pub fn encode_client_msg(m: &ClientMsg) -> (s: String)
    ensures
        s@ == text_of_json(client_msg_json(m@)),
        one_line(s@),
        readable(m@.params, 126) ==> client_msg_of_line(s@) == Some(m@),
{
    let token = match &m.token {
        Some(t) => Json::text(t.as_str()),
        None => Json::Null,
    };
    let v = Json::object().with("id", Json::Unsigned(m.id)).with("token", token).with(
        "method",
        Json::text(m.method.as_str()),
    ).with("params", m.params.dup());
    proof {
        lemma_client_msg_back(m@);
        if readable(m@.params, 126) {
            lemma_client_msg_readable(m@);
        }
    }
    let s = write_json(&v);
    proof {
        lemma_trim_solid(s@);
    }
    s
}

fn read_client_msg(v: &Json) -> (r: Option<ClientMsg>)
    ensures
        match r {
            Some(m) => client_msg_of(v@) == Some(m@),
            None => client_msg_of(v@) is None,
        },
{
    if !v.is_struct(4) {
        return None;
    }
    let id: u64 = match v.slot(0, "id") {
        Some(x) => match x.as_u64() {
            Some(n) => n,
            None => {
                return None;
            },
        },
        None => 0,
    };
    let token = match v.slot(1, "token") {
        Some(x) => match x {
            Json::Null => None,
            Json::Str(t) => Some(t.clone()),
            _ => {
                return None;
            },
        },
        None => None,
    };
    let method = match v.slot(2, "method") {
        Some(x) => match x {
            Json::Str(t) => t.clone(),
            _ => {
                return None;
            },
        },
        None => {
            return None;
        },
    };
    let params = match v.slot(3, "params") {
        Some(p) => p.dup(),
        None => Json::Null,
    };
    Some(ClientMsg { id, token, method, params })
}

/// Reads a client message from a line.
pub fn parse_client_line(line: &str) -> (r: Result<ClientMsg, String>)
    ensures
        match r {
            Ok(m) => client_msg_of_line(line@) == Some(m@),
            Err(e) => client_msg_of_line(line@) is None && e@ == client_line_error(line@),
        },
{
    let t = trimmed(line);
    match read_json(t.as_str()) {
        Ok(v) => match read_client_msg(&v) {
            Some(m) => Ok(m),
            None => {
                let mut e = "linha não é ClientMsg: ".to_owned();
                e.append("campos inválidos ou sem method");
                Err(e)
            },
        },
        Err(x) => {
            let mut e = "linha não é ClientMsg: ".to_owned();
            e.append(x.as_str());
            Err(e)
        },
    }
}

// ---------------------------------------------------------------- daemon lines

/// A line of the daemon: the response to a request, or a notification.
#[derive(Debug)]
pub enum DaemonLine {
    Resp { id: u64, ok: bool, result: Json, error: Option<String>, code: Option<i64> },
    Notify { method: String, params: Json },
}

#[verifier::ext_equal]
pub enum DaemonLineView {
    Resp {
        id: u64,
        ok: bool,
        result: JsonView,
        error: Option<Seq<char>>,
        code: Option<i64>,
    },
    Notify { method: Seq<char>, params: JsonView },
}

impl View for DaemonLine {
    type V = DaemonLineView;

    open spec fn view(&self) -> DaemonLineView {
        match self {
            DaemonLine::Resp { id, ok, result, error, code } => DaemonLineView::Resp {
                id: *id,
                ok: *ok,
                result: result@,
                error: error.deep_view(),
                code: *code,
            },
            DaemonLine::Notify { method, params } => DaemonLineView::Notify {
                method: method@,
                params: params@,
            },
        }
    }
}

pub open spec fn ok_json(id: u64, result: JsonView) -> JsonView {
    no_fields().put("id"@, JsonView::Int(id as int)).put("ok"@, JsonView::Bool(true)).put(
        "result"@,
        result,
    )
}

pub open spec fn err_json(id: u64, message: Seq<char>, code: Option<i64>) -> JsonView {
    let v = no_fields().put("id"@, JsonView::Int(id as int)).put("ok"@, JsonView::Bool(false)).put(
        "error"@,
        JsonView::Str(message),
    );
    match code {
        Some(c) => v.put("code"@, JsonView::Int(c as int)),
        None => v,
    }
}

pub open spec fn notify_json(method: Seq<char>, params: JsonView) -> JsonView {
    no_fields().put("notification"@, JsonView::Bool(true)).put("method"@, JsonView::Str(method)).put(
        "params"@,
        params,
    )
}

/// A value that says it is a notification.
pub open spec fn notifies(v: JsonView) -> bool {
    v.get("notification"@) matches Some(n) && n == JsonView::Bool(true)
}

/// The line of a daemon that a JSON value is: a notification must have a
/// method; anything else is a response, and what it lacks has its default.
pub open spec fn daemon_line_of(v: JsonView) -> Option<DaemonLineView> {
    if notifies(v) {
        match v.text_at("method"@) {
            Some(method) => Some(
                DaemonLineView::Notify {
                    method,
                    params: match v.get("params"@) {
                        Some(p) => p,
                        None => JsonView::Null,
                    },
                },
            ),
            None => None,
        }
    } else {
        Some(
            DaemonLineView::Resp {
                id: match v.unsigned_at("id"@) {
                    Some(n) => n,
                    None => 0,
                },
                ok: v.get("ok"@) == Some(JsonView::Bool(true)),
                result: match v.get("result"@) {
                    Some(r) => r,
                    None => JsonView::Null,
                },
                error: v.text_at("error"@),
                code: match v.get("code"@) {
                    Some(c) => c.as_signed(),
                    None => None,
                },
            },
        )
    }
}

pub open spec fn daemon_line_of_text(line: Seq<char>) -> Option<DaemonLineView> {
    match json_of_text(trim(line)) {
        Some(v) => daemon_line_of(v),
        None => None,
    }
}

/// Why a line is none of a daemon.
pub open spec fn daemon_line_error(line: Seq<char>) -> Seq<char> {
    match json_of_text(trim(line)) {
        Some(_) => "notificação sem method"@,
        None => "linha não é JSON: "@ + json_error_of_text(trim(line)),
    }
}

proof fn lemma_key_texts()
    ensures
        "id"@ != "ok"@,
        "id"@ != "result"@,
        "id"@ != "error"@,
        "id"@ != "code"@,
        "id"@ != "notification"@,
        "id"@ != "method"@,
        "id"@ != "params"@,
        "ok"@ != "result"@,
        "ok"@ != "error"@,
        "ok"@ != "code"@,
        "ok"@ != "notification"@,
        "result"@ != "error"@,
        "result"@ != "code"@,
        "result"@ != "notification"@,
        "error"@ != "code"@,
        "error"@ != "notification"@,
        "code"@ != "notification"@,
        "method"@ != "notification"@,
        "params"@ != "notification"@,
        "method"@ != "params"@,
        "result"@ != "method"@,
        "result"@ != "params"@,
{
    reveal_strlit("id");
    reveal_strlit("ok");
    reveal_strlit("result");
    reveal_strlit("error");
    reveal_strlit("code");
    reveal_strlit("notification");
    reveal_strlit("method");
    reveal_strlit("params");
    assert("id"@[0] == 'i' && "ok"@[0] == 'o' && "result"@[0] == 'r' && "error"@[0] == 'e'
        && "code"@[0] == 'c' && "notification"@[0] == 'n' && "method"@[0] == 'm' && "params"@[0]
        == 'p');
}

/// Writes a response that reports success. Reading the line gives the id and
/// the result back, for a result that the text form can carry.
pub fn encode_ok(id: u64, result: Json) -> (s: String)
    ensures
        s@ == text_of_json(ok_json(id, result@)),
        one_line(s@),
        readable(result@, 126) ==> daemon_line_of_text(s@) == Some(
            DaemonLineView::Resp { id, ok: true, result: result@, error: None, code: None },
        ),
{
    broadcast use crate::json::group_readable;

    let ghost r = result@;
    let v = Json::object().with("id", Json::Unsigned(id)).with("ok", Json::Bool(true)).with(
        "result",
        result,
    );
    let s = write_json(&v);
    proof {
        lemma_trim_solid(s@);
        lemma_key_texts();
    }
    s
}

/// Writes a response that reports an error, with its code where it has one.
/// Reading the line gives the id, the message and the code back.
pub fn encode_err(id: u64, message: &str, code: Option<i64>) -> (s: String)
    ensures
        s@ == text_of_json(err_json(id, message@, code)),
        one_line(s@),
        daemon_line_of_text(s@) == Some(
            DaemonLineView::Resp {
                id,
                ok: false,
                result: JsonView::Null,
                error: Some(message@),
                code,
            },
        ),
{
    broadcast use crate::json::group_readable;

    let base = Json::object().with("id", Json::Unsigned(id)).with("ok", Json::Bool(false)).with(
        "error",
        Json::text(message),
    );
    let v = match code {
        Some(c) => base.with("code", Json::Signed(c)),
        None => base,
    };
    assert(readable(v@, 127));
    let s = write_json(&v);
    proof {
        lemma_trim_solid(s@);
        lemma_key_texts();
    }
    s
}

/// Writes a notification. Reading the line gives the method and the
/// parameters back, for parameters that the text form can carry.
pub fn encode_notify(method: &str, params: &Json) -> (s: String)
    ensures
        s@ == text_of_json(notify_json(method@, params@)),
        one_line(s@),
        readable(params@, 126) ==> daemon_line_of_text(s@) == Some(
            DaemonLineView::Notify { method: method@, params: params@ },
        ),
{
    broadcast use crate::json::group_readable;

    let v = Json::object().with("notification", Json::Bool(true)).with("method", Json::text(method)).with(
        "params",
        params.dup(),
    );
    let s = write_json(&v);
    proof {
        lemma_trim_solid(s@);
        lemma_key_texts();
    }
    s
}

/// Reads a line of the daemon.
pub fn parse_daemon_line(line: &str) -> (r: Result<DaemonLine, String>)
    ensures
        match r {
            Ok(d) => daemon_line_of_text(line@) == Some(d@),
            Err(e) => daemon_line_of_text(line@) is None && e@ == daemon_line_error(line@),
        },
{
    let t = trimmed(line);
    let v = match read_json(t.as_str()) {
        Ok(v) => v,
        Err(x) => {
            let mut e = "linha não é JSON: ".to_owned();
            e.append(x.as_str());
            return Err(e);
        },
    };
    let notification = match v.get("notification") {
        Some(n) => match n.as_bool() {
            Some(b) => b,
            None => false,
        },
        None => false,
    };
    if notification {
        return match v.str_at("method") {
            Some(m) => Ok(
                DaemonLine::Notify {
                    method: m.to_owned(),
                    params: match v.get("params") {
                        Some(p) => p.dup(),
                        None => Json::Null,
                    },
                },
            ),
            None => Err("notificação sem method".to_owned()),
        };
    }
    let id: u64 = match v.u64_at("id") {
        Some(n) => n,
        None => 0,
    };
    let ok = match v.get("ok") {
        Some(o) => match o.as_bool() {
            Some(b) => b,
            None => false,
        },
        None => false,
    };
    let result = match v.get("result") {
        Some(r) => r.dup(),
        None => Json::Null,
    };
    let error = match v.str_at("error") {
        Some(e) => Some(e.to_owned()),
        None => None,
    };
    let code = match v.get("code") {
        Some(c) => c.as_i64(),
        None => None,
    };
    Ok(DaemonLine::Resp { id, ok, result, error, code })
}

// ---------------------------------------------------------------- authentication

/// Why a connection is refused; it is closed without an answer.
#[derive(Debug, Clone, Copy, PartialEq, Eq, Structural)]
pub enum AuthFail {
    BadLine,
    NotHello,
    BadToken,
}

impl AuthFail {
    pub open spec fn text(&self) -> Seq<char> {
        match self {
            AuthFail::BadLine => "linha de auth não é JSON válido"@,
            AuthFail::NotHello => "1ª linha não é o handshake 'hello'"@,
            AuthFail::BadToken => "token ausente ou incorreto"@,
        }
    }

    pub fn to_text(&self) -> (r: String)
        ensures
            r@ == self.text(),
    {
        match self {
            AuthFail::BadLine => "linha de auth não é JSON válido".to_owned(),
            AuthFail::NotHello => "1ª linha não é o handshake 'hello'".to_owned(),
            AuthFail::BadToken => "token ausente ou incorreto".to_owned(),
        }
    }
}

/// What the first line of a connection comes to.
pub open spec fn auth_of(line: Seq<char>, expected: Seq<char>) -> Result<ClientMsgView, AuthFail> {
    match client_msg_of_line(line) {
        None => Err(AuthFail::BadLine),
        Some(m) => if m.method != "hello"@ {
            Err(AuthFail::NotHello)
        } else if m.token != Some(expected) {
            Err(AuthFail::BadToken)
        } else {
            Ok(m)
        },
    }
}

/// Checks the first line of a connection against the daemon's token.
pub fn auth_line(line: &str, expected_token: &str) -> (r: Result<ClientMsg, AuthFail>)
    ensures
        match r {
            Ok(m) => auth_of(line@, expected_token@) == Ok::<ClientMsgView, AuthFail>(m@),
            Err(e) => auth_of(line@, expected_token@) == Err::<ClientMsgView, AuthFail>(e),
        },
{
    let m = match parse_client_line(line) {
        Ok(m) => m,
        Err(_) => {
            return Err(AuthFail::BadLine);
        },
    };
    if !same(m.method.as_str(), "hello") {
        return Err(AuthFail::NotHello);
    }
    let good = match &m.token {
        Some(t) => same(t.as_str(), expected_token),
        None => false,
    };
    if !good {
        return Err(AuthFail::BadToken);
    }
    Ok(m)
}

/// Only a greeting with exactly the daemon's token is let in.
pub proof fn law_auth_needs_token(line: Seq<char>, expected: Seq<char>)
    ensures
        auth_of(line, expected) is Ok <==> (client_msg_of_line(line) matches Some(m) && m.method
            == "hello"@ && m.token == Some(expected)),
{
}

/// A line that is let in with one token is let in with no other.
pub proof fn law_one_token(line: Seq<char>, a: Seq<char>, b: Seq<char>)
    requires
        auth_of(line, a) is Ok,
        a != b,
    ensures
        auth_of(line, b) == Err::<ClientMsgView, AuthFail>(AuthFail::BadToken),
{
}

// ---------------------------------------------------------------- discovery file

/// How a daemon is found: where it listens, the token it wants, its process.
#[derive(Debug, Clone, PartialEq, Eq)]
pub struct DaemonEntry {
    pub port: u16,
    pub token: String,
    pub pid: u32,
    pub started_at: String,
}

#[verifier::ext_equal]
pub struct DaemonEntryView {
    pub port: u16,
    pub token: Seq<char>,
    pub pid: u32,
    pub started_at: Seq<char>,
}

impl View for DaemonEntry {
    type V = DaemonEntryView;

    open spec fn view(&self) -> DaemonEntryView {
        DaemonEntryView {
            port: self.port,
            token: self.token@,
            pid: self.pid,
            started_at: self.started_at@,
        }
    }
}

pub open spec fn entry_json(e: DaemonEntryView) -> JsonView {
    no_fields().put("port"@, JsonView::Int(e.port as int)).put("token"@, JsonView::Str(e.token)).put(
        "pid"@,
        JsonView::Int(e.pid as int),
    ).put("startedAt"@, JsonView::Str(e.started_at))
}

/// The entry that a JSON value is: every field must be there and in range.
pub open spec fn entry_of(v: JsonView) -> Option<DaemonEntryView> {
    if !struct_shape(v, 4) {
        None
    } else {
        match (
            slot(v, 0, "port"@),
            slot(v, 1, "token"@),
            slot(v, 2, "pid"@),
            slot(v, 3, "startedAt"@),
        ) {
            (
                Some(JsonView::Int(port)),
                Some(JsonView::Str(token)),
                Some(JsonView::Int(pid)),
                Some(JsonView::Str(started_at)),
            ) => if 0 <= port <= u16::MAX && 0 <= pid <= u32::MAX {
                Some(DaemonEntryView { port: port as u16, token, pid: pid as u32, started_at })
            } else {
                None
            },
            _ => None,
        }
    }
}

/// The entry in a discovery file; `None` for a file that is missing or holds
/// none.
pub open spec fn entry_of_file(text: Option<Seq<char>>) -> Option<DaemonEntryView> {
    match text {
        Some(t) => match json_of_text(t) {
            Some(v) => entry_of(v),
            None => None,
        },
        None => None,
    }
}

/// The content of the discovery file of an entry: reading it gives the entry
/// back.
pub fn entry_text(e: &DaemonEntry) -> (s: String)
    ensures
        s@ == pretty_of_json(entry_json(e@)),
        entry_of_file(Some(s@)) == Some(e@),
{
    broadcast use crate::json::group_readable;

    let v = Json::object().with("port", Json::Unsigned(e.port as u64)).with(
        "token",
        Json::text(e.token.as_str()),
    ).with("pid", Json::Unsigned(e.pid as u64)).with("startedAt", Json::text(e.started_at.as_str()));
    assert(readable(v@, 127));
    proof {
        reveal_strlit("port");
        reveal_strlit("token");
        reveal_strlit("pid");
        reveal_strlit("startedAt");
        assert("port"@.len() == 4 && "token"@.len() == 5 && "pid"@.len() == 3 && "startedAt"@.len()
            == 9);
    }
    write_json_pretty(&v)
}

fn entry_in(v: &Json) -> (r: Option<DaemonEntry>)
    ensures
        match r {
            Some(e) => entry_of(v@) == Some(e@),
            None => entry_of(v@) is None,
        },
{
    if !v.is_struct(4) {
        return None;
    }
    match (v.slot(0, "port"), v.slot(1, "token"), v.slot(2, "pid"), v.slot(3, "startedAt")) {
        (Some(a), Some(b), Some(c), Some(d)) => match (a.as_u64(), b.as_str(), c.as_u64(), d.as_str()) {
            (Some(port), Some(token), Some(pid), Some(started_at)) => {
                if port <= 65535 && pid <= 4294967295 {
                    Some(
                        DaemonEntry {
                            port: port as u16,
                            token: token.to_owned(),
                            pid: pid as u32,
                            started_at: started_at.to_owned(),
                        },
                    )
                } else {
                    None
                }
            },
            _ => None,
        },
        _ => None,
    }
}

/// Reads the discovery file, given what was read of it.
pub fn read_entry(text: Option<&str>) -> (r: Option<DaemonEntry>)
    ensures
        match r {
            Some(e) => entry_of_file(
                match text {
                    Some(t) => Some(t@),
                    None => None,
                },
            ) == Some(e@),
            None => entry_of_file(
                match text {
                    Some(t) => Some(t@),
                    None => None,
                },
            ) is None,
        },
{
    match text {
        Some(t) => match read_json(t) {
            Ok(v) => entry_in(&v),
            Err(_) => None,
        },
        None => None,
    }
}

/// Where the discovery file lies.
pub fn daemon_json_path() -> (r: String)
    ensures
        exists|base: Option<Seq<char>>| r@ == #[trigger] app_file(base, "daemon.json"@),
{
    data_file("daemon.json")
}

/// Whether a list of processes in quoted fields names a process. The quotes tell
/// an id from a longer one that begins with it; no process has the id zero.
pub fn lists_process(listing: &str, pid: u32) -> (r: bool)
    ensures
        r == (pid != 0 && contains(listing@, "\""@ + dec(pid as nat) + "\""@)),
{
    let mut s = "\"".to_owned();
    let d = decimal(pid as u64);
    s.append(d.as_str());
    s.append("\"");
    pid != 0 && has(listing, s.as_str())
}

/// An entry that can be used: it names a port, a process and a token, and the
/// process lives.
pub open spec fn entry_valid(e: DaemonEntryView, is_alive: bool) -> bool {
    e.port > 0 && e.pid > 0 && !blank(e.token) && is_alive
}

pub fn daemon_entry_valid(entry: &DaemonEntry, is_alive: bool) -> (r: bool)
    ensures
        r == entry_valid(entry@, is_alive),
{
    entry.port > 0 && entry.pid > 0 && !is_blank(entry.token.as_str()) && is_alive
}

// ---------------------------------------------------------------- token

/// How many random bytes a token holds.
pub const TOKEN_BYTES: usize = 32;

pub open spec fn hex_digit(n: int) -> char {
    if n < 10 {
        (('0' as u32) + n) as char
    } else {
        (('a' as u32) + n - 10) as char
    }
}

/// Bytes as text, two lower-case hexadecimal digits each.
pub open spec fn hex(bytes: Seq<u8>) -> Seq<char> {
    Seq::new(
        2 * bytes.len(),
        |i: int|
            hex_digit(
                if i % 2 == 0 {
                    bytes[i / 2] as int / 16
                } else {
                    bytes[i / 2] as int % 16
                },
            ),
    )
}

/// A digit or one of the letters `a` to `f`.
pub open spec fn is_hex(c: char) -> bool {
    '0' <= c <= '9' || 'a' <= c <= 'f'
}

fn hex_char(n: u8) -> (c: char)
    requires
        n < 16,
    ensures
        c == hex_digit(n as int),
{
    if n < 10 {
        (48u8 + n) as char
    } else {
        (87u8 + n) as char
    }
}

/// The token that bytes make.
pub fn hex_token(bytes: &[u8]) -> (s: String)
    ensures
        s@ == hex(bytes@),
{
    let mut s = String::new();
    let mut i: usize = 0;
    while i < bytes.len()
        invariant
            i <= bytes@.len(),
            s@ == hex(bytes@).take(2 * i),
        decreases bytes@.len() - i,
    {
        let b: u8 = bytes[i];
        let ghost before = s@;
        s.push(hex_char(b / 16));
        s.push(hex_char(b % 16));
        proof {
            let h = hex(bytes@);
            assert(h[2 * i] == hex_digit(b as int / 16));
            assert(h[2 * i + 1] == hex_digit(b as int % 16));
            assert(h.take(2 * (i + 1)) =~= h.take(2 * i).push(h[2 * i]).push(h[2 * i + 1]));
        }
        i = i + 1;
    }
    assert(hex(bytes@).take(2 * bytes@.len() as int) =~= hex(bytes@));
    s
}

/// `getrandom::getrandom` on a buffer of `n` bytes. Claimed: what it fills has
/// that length. Which bytes come is chance.
#[verifier::external_body]
fn random_bytes(n: usize) -> (r: Result<Vec<u8>, String>)
    ensures
        r matches Ok(v) ==> v@.len() == n,
{
    let mut buf = vec![0u8; n];
    match getrandom::getrandom(&mut buf) {
        Ok(()) => Ok(buf),
        Err(e) => Err(e.to_string()),
    }
}

/// A fresh token: the hexadecimal form of 32 random bytes.
pub fn generate_token() -> (r: Result<String, String>)
    ensures
        match r {
            Ok(t) => t@.len() == 2 * TOKEN_BYTES && (forall|i: int|
                0 <= i < t@.len() ==> is_hex(#[trigger] t@[i])),
            Err(e) => "entropia indisponível: "@.is_prefix_of(e@),
        },
{
    match random_bytes(TOKEN_BYTES) {
        Ok(b) => {
            let t = hex_token(b.as_slice());
            proof {
                law_token_is_hex(b@);
            }
            Ok(t)
        },
        Err(m) => {
            let mut e = "entropia indisponível: ".to_owned();
            e.append(m.as_str());
            Err(e)
        },
    }
}

/// Every character of a token is a hexadecimal digit, two for each byte.
pub proof fn law_token_is_hex(bytes: Seq<u8>)
    ensures
        hex(bytes).len() == 2 * bytes.len(),
        forall|i: int| 0 <= i < hex(bytes).len() ==> is_hex(#[trigger] hex(bytes)[i]),
{
    assert forall|i: int| 0 <= i < hex(bytes).len() implies is_hex(#[trigger] hex(bytes)[i]) by {
        let b = bytes[i / 2] as int;
        assert(0 <= b / 16 < 16);
        assert(0 <= b % 16 < 16);
    }
}

/// Different bytes make different tokens.
pub proof fn law_token_faithful(a: Seq<u8>, b: Seq<u8>)
    requires
        hex(a) == hex(b),
    ensures
        a == b,
{
    assert(hex(a).len() == 2 * a.len() && hex(b).len() == 2 * b.len());
    assert forall|i: int| 0 <= i < a.len() implies a[i] == b[i] by {
        let x = a[i] as int;
        let y = b[i] as int;
        assert((2 * i) / 2 == i && (2 * i + 1) / 2 == i);
        assert((2 * i) % 2 == 0 && (2 * i + 1) % 2 == 1);
        assert(hex(a)[2 * i] == hex_digit(x / 16) && hex(b)[2 * i] == hex_digit(y / 16));
        assert(hex(a)[2 * i + 1] == hex_digit(x % 16) && hex(b)[2 * i + 1] == hex_digit(y % 16));
        lemma_hex_digit_faithful(x / 16, y / 16);
        lemma_hex_digit_faithful(x % 16, y % 16);
    }
    assert(a =~= b);
}

proof fn lemma_hex_digit_faithful(m: int, n: int)
    requires
        0 <= m < 16,
        0 <= n < 16,
        hex_digit(m) == hex_digit(n),
    ensures
        m == n,
{
}

// ---------------------------------------------------------------- one daemon

pub open spec fn second_daemon_text(e: DaemonEntryView) -> Seq<char> {
    "já existe um daemon vivo (pid "@ + dec(e.pid as nat) + ", porta "@ + dec(e.port as nat)
        + ") — use `zcode-cli daemon --stop` antes de iniciar outro"@
}

/// Whether a new daemon may take over the discovery file, given the entry that
/// is there, whether its process lives, and whether it answers.
pub fn may_serve(existing: Option<&DaemonEntry>, is_alive: bool, answers: bool) -> (r: Result<
    (),
    String,
>)
    ensures
        match existing {
            Some(e) if entry_valid(e@, is_alive) && answers => r matches Err(m) && m@
                == second_daemon_text(e@),
            _ => r is Ok,
        },
{
    match existing {
        Some(e) => {
            if daemon_entry_valid(e, is_alive) && answers {
                let mut m = "já existe um daemon vivo (pid ".to_owned();
                let pid = decimal(e.pid as u64);
                m.append(pid.as_str());
                m.append(", porta ");
                let port = decimal(e.port as u64);
                m.append(port.as_str());
                m.append(") — use `zcode-cli daemon --stop` antes de iniciar outro");
                Err(m)
            } else {
                Ok(())
            }
        },
        None => Ok(()),
    }
}

// ---------------------------------------------------------------- connections

/// A client that has authenticated. Without a workspace it may not call.
pub struct Hello {
    pub id: u64,
    pub workspace: String,
}

/// The workspace that a greeting names, empty where it names none.
pub open spec fn hello_workspace(params: JsonView) -> Seq<char> {
    match params.text_at("workspace"@) {
        Some(w) => w,
        None => Seq::empty(),
    }
}

/// Takes in the first line of a connection; one that is refused is closed
/// without an answer.
pub fn greet(line: &str, token: &str) -> (r: Result<Hello, AuthFail>)
    ensures
        match r {
            Ok(h) => auth_of(line@, token@) matches Ok(m) && h.id == m.id && h.workspace@
                == hello_workspace(m.params),
            Err(e) => auth_of(line@, token@) == Err::<ClientMsgView, AuthFail>(e),
        },
{
    let m = match auth_line(line, token) {
        Ok(m) => m,
        Err(e) => {
            return Err(e);
        },
    };
    let workspace = match m.params.str_at("workspace") {
        Some(w) => w.to_owned(),
        None => String::new(),
    };
    Ok(Hello { id: m.id, workspace })
}

pub open spec fn busy_text() -> Seq<char> {
    "daemon ocupado (limite de conexões simultâneas)"@
}

/// The answer to a greeting, and whether the connection stays: there is room
/// for it or not.
pub fn welcome(hello: &Hello, room: bool) -> (r: (String, bool))
    ensures
        r.1 == room,
        room ==> answers_ok(r.0@, hello.id, no_fields().put("hello"@, JsonView::Bool(true))),
        !room ==> answers_err(r.0@, hello.id, busy_text(), None),
{
    broadcast use crate::json::group_readable;

    if room {
        (encode_ok(hello.id, Json::object().with("hello", Json::Bool(true))), true)
    } else {
        (encode_err(hello.id, "daemon ocupado (limite de conexões simultâneas)", None), false)
    }
}

// ---------------------------------------------------------------- requests

/// The time a call gets where the client names none, in seconds.
pub const CALL_TIMEOUT_SECS: u64 = 120;

/// What one request of a client asks for.
pub enum RequestStep {
    /// Send this line.
    Answer(String),
    /// Make this call, in a task of its own, and answer it later.
    Call { id: u64, rpc: String, params: Json, timeout_secs: u64 },
    /// Send this line and shut down.
    Shutdown(String),
}

pub open spec fn status_json(workspaces: Seq<Seq<char>>, uptime_secs: u64, version: Seq<char>) -> JsonView {
    no_fields().put(
        "workspaces"@,
        JsonView::Arr(workspaces.map_values(|t: Seq<char>| JsonView::Str(t))),
    ).put("uptime_secs"@, JsonView::Int(uptime_secs as int)).put("version"@, JsonView::Str(version))
}

/// The line that reports a success, in exactly these fields, and what a client
/// reads from it.
pub open spec fn answers_ok(line: Seq<char>, id: u64, result: JsonView) -> bool {
    &&& line == text_of_json(ok_json(id, result))
    &&& one_line(line)
    &&& daemon_line_of_text(line) == Some(
        DaemonLineView::Resp { id, ok: true, result, error: None, code: None },
    )
}

/// The line of a status answer: it lists the workspaces in order, each once.
pub open spec fn answers_status(
    line: Seq<char>,
    id: u64,
    workspaces: Seq<Seq<char>>,
    uptime_secs: u64,
    version: Seq<char>,
) -> bool {
    answers_ok(line, id, status_json(in_order(workspaces.to_set()), uptime_secs, version))
}

/// The line that reports an error, in exactly these fields, and what a client
/// reads from it.
pub open spec fn answers_err(line: Seq<char>, id: u64, message: Seq<char>, code: Option<i64>) -> bool {
    &&& line == text_of_json(err_json(id, message, code))
    &&& one_line(line)
    &&& daemon_line_of_text(line) == Some(
        DaemonLineView::Resp {
            id,
            ok: false,
            result: JsonView::Null,
            error: Some(message),
            code,
        },
    )
}

pub open spec fn no_workspace_text() -> Seq<char> {
    "hello sem workspace — conexão não faz call"@
}

pub open spec fn call_timeout(params: JsonView) -> u64 {
    match params.unsigned_at("timeout_secs"@) {
        Some(n) => n,
        None => CALL_TIMEOUT_SECS,
    }
}

pub open spec fn call_rpc(params: JsonView) -> Seq<char> {
    match params.text_at("rpc"@) {
        Some(t) => t,
        None => Seq::empty(),
    }
}

pub open spec fn call_params(params: JsonView) -> JsonView {
    match params.get("params"@) {
        Some(p) => p,
        None => JsonView::Null,
    }
}

/// How a step relates to the request line: the runtimes that are up are
/// `workspaces`, in any order.
pub open spec fn asks_for(
    line: Seq<char>,
    workspace: Seq<char>,
    workspaces: Seq<Seq<char>>,
    uptime_secs: u64,
    version: Seq<char>,
    step: RequestStep,
) -> bool {
    match client_msg_of_line(line) {
        None => step matches RequestStep::Answer(s) && answers_err(
            s@,
            0,
            client_line_error(line),
            None,
        ),
        Some(m) => if m.method == "call"@ {
            if workspace.len() == 0 {
                step matches RequestStep::Answer(s) && answers_err(
                    s@,
                    m.id,
                    no_workspace_text(),
                    None,
                )
            } else {
                step matches RequestStep::Call { id, rpc, params, timeout_secs } && id == m.id
                    && rpc@ == call_rpc(m.params) && params@ == call_params(m.params) && timeout_secs
                    == call_timeout(m.params)
            }
        } else if m.method == "ping"@ {
            step matches RequestStep::Answer(s) && answers_ok(s@, m.id, JsonView::Str("pong"@))
        } else if m.method == "status"@ {
            step matches RequestStep::Answer(s) && answers_status(
                s@,
                m.id,
                workspaces,
                uptime_secs,
                version,
            )
        } else if m.method == "shutdown"@ {
            step matches RequestStep::Shutdown(s) && answers_ok(
                s@,
                m.id,
                JsonView::Str("shutting down"@),
            )
        } else {
            step matches RequestStep::Answer(s) && answers_err(
                s@,
                m.id,
                "método desconhecido: "@ + m.method,
                None,
            )
        },
    }
}

fn status_answer(id: u64, workspaces: &Vec<String>, uptime_secs: u64, version: &str) -> (s: String)
    ensures
        answers_status(s@, id, workspaces.deep_view(), uptime_secs, version@),
{
    broadcast use crate::json::group_readable;

    let ws = ordered_texts(workspaces);
    let v = Json::object().with("workspaces", Json::texts(&ws)).with(
        "uptime_secs",
        Json::Unsigned(uptime_secs),
    ).with("version", Json::text(version));
    proof {
        let names = ws.deep_view();
        let list = JsonView::Arr(names.map_values(|t: Seq<char>| JsonView::Str(t)));
        assert forall|i: int| 0 <= i < list->Arr_0.len() implies readable(
            #[trigger] list->Arr_0[i],
            124,
        ) by {
            assert(list->Arr_0[i] == JsonView::Str(names[i]));
        }
        assert(readable(list, 125));
        assert(readable(v@, 126));
    }
    encode_ok(id, v)
}

/// Decides what one request asks for.
pub fn handle_request(
    line: &str,
    workspace: &str,
    workspaces: &Vec<String>,
    uptime_secs: u64,
    version: &str,
) -> (step: RequestStep)
    ensures
        asks_for(line@, workspace@, workspaces.deep_view(), uptime_secs, version@, step),
{
    let m = match parse_client_line(line) {
        Ok(m) => m,
        Err(e) => {
            return RequestStep::Answer(encode_err(0, e.as_str(), None));
        },
    };
    let method = m.method.as_str();
    if same(method, "call") {
        if workspace.is_empty() {
            return RequestStep::Answer(
                encode_err(m.id, "hello sem workspace — conexão não faz call", None),
            );
        }
        let rpc = match m.params.str_at("rpc") {
            Some(t) => t.to_owned(),
            None => String::new(),
        };
        let params = match m.params.get("params") {
            Some(p) => p.dup(),
            None => Json::Null,
        };
        let timeout_secs: u64 = match m.params.u64_at("timeout_secs") {
            Some(n) => n,
            None => CALL_TIMEOUT_SECS,
        };
        return RequestStep::Call { id: m.id, rpc, params, timeout_secs };
    }
    if same(method, "ping") {
        return RequestStep::Answer(encode_ok(m.id, Json::text("pong")));
    }
    if same(method, "status") {
        return RequestStep::Answer(status_answer(m.id, workspaces, uptime_secs, version));
    }
    if same(method, "shutdown") {
        return RequestStep::Shutdown(encode_ok(m.id, Json::text("shutting down")));
    }
    let mut e = "método desconhecido: ".to_owned();
    e.append(method);
    RequestStep::Answer(encode_err(m.id, e.as_str(), None))
}

// ---------------------------------------------------------------- calls

/// The message under which an error travels to the client.
pub open spec fn carried_text(e: RuntimeError) -> Seq<char> {
    match e {
        RuntimeError::Rpc(RpcError::Server { code, message }) => message@,
        _ => e.text(),
    }
}

/// The code under which it travels: that of the server's own error.
pub open spec fn carried_code(e: RuntimeError) -> Option<i64> {
    match e {
        RuntimeError::Rpc(RpcError::Server { code, message }) => Some(code),
        _ => None,
    }
}

/// The answer to a call that failed.
pub fn call_failed(id: u64, e: &RuntimeError) -> (s: String)
    ensures
        answers_err(s@, id, carried_text(*e), carried_code(*e)),
{
    match e {
        RuntimeError::Rpc(RpcError::Server { code, message }) => encode_err(
            id,
            message.as_str(),
            Some(*code),
        ),
        _ => {
            let t = e.to_text();
            encode_err(id, t.as_str(), None)
        },
    }
}

/// The answer to a call.
pub fn call_reply(id: u64, result: Result<Json, RuntimeError>) -> (s: String)
    ensures
        match result {
            Ok(v) => s@ == text_of_json(ok_json(id, v@)) && (readable(v@, 126) ==> answers_ok(
                s@,
                id,
                v@,
            )),
            Err(e) => answers_err(s@, id, carried_text(e), carried_code(e)),
        },
        one_line(s@),
{
    match result {
        Ok(v) => encode_ok(id, v),
        Err(e) => call_failed(id, &e),
    }
}

/// What follows the first attempt at a call.
pub enum AfterCall {
    /// Send this line.
    Reply(String),
    /// The runtime is dead: put a new one in its place and try once more.
    Recreate,
}

/// Decides what follows the first attempt: a call that failed on a runtime
/// that has ended is tried once more on a new one; an error of a living
/// runtime is passed on.
pub fn after_call(id: u64, result: Result<Json, RuntimeError>, exited: bool) -> (r: AfterCall)
    ensures
        match result {
            Ok(v) => r matches AfterCall::Reply(s) && s@ == text_of_json(ok_json(id, v@)) && (
            readable(v@, 126) ==> answers_ok(s@, id, v@)),
            Err(e) => if exited {
                r is Recreate
            } else {
                r matches AfterCall::Reply(s) && answers_err(
                    s@,
                    id,
                    carried_text(e),
                    carried_code(e),
                )
            },
        },
        r matches AfterCall::Reply(s) ==> one_line(s@),
{
    if result.is_err() && exited {
        AfterCall::Recreate
    } else {
        AfterCall::Reply(call_reply(id, result))
    }
}

/// The answer after the second attempt, where a new runtime came up, or where
/// none could be started.
pub fn after_retry(id: u64, second: Result<Result<Json, RuntimeError>, String>) -> (s: String)
    ensures
        match second {
            Ok(Ok(v)) => s@ == text_of_json(ok_json(id, v@)) && (readable(v@, 126)
                ==> answers_ok(s@, id, v@)),
            Ok(Err(e)) => answers_err(s@, id, carried_text(e), carried_code(e)),
            Err(m) => answers_err(s@, id, "falha ao spawnar runtime: "@ + m@, None),
        },
        one_line(s@),
{
    match second {
        Ok(r) => call_reply(id, r),
        Err(m) => call_failed(id, &RuntimeError::Spawn(m)),
    }
}

// ---------------------------------------------------------------- events

pub open spec fn event_method(v: JsonView) -> Seq<char> {
    match v.text_at("method"@) {
        Some(m) => m,
        None => Seq::empty(),
    }
}

pub open spec fn event_params(v: JsonView) -> JsonView {
    match v.get("params"@) {
        Some(p) => p,
        None => JsonView::Null,
    }
}

/// The line under which an event of a runtime goes to every client.
pub fn event_line(v: &Json) -> (s: String)
    ensures
        s@ == text_of_json(notify_json(event_method(v@), event_params(v@))),
        one_line(s@),
        readable(event_params(v@), 126) ==> daemon_line_of_text(s@) == Some(
            DaemonLineView::Notify { method: event_method(v@), params: event_params(v@) },
        ),
{
    let params = match v.get("params") {
        Some(p) => p.dup(),
        None => Json::Null,
    };
    match v.str_at("method") {
        Some(m) => encode_notify(m, &params),
        None => {
            proof {
                reveal_strlit("");
                assert(""@ =~= Seq::<char>::empty());
            }
            encode_notify("", &params)
        },
    }
}

// ---------------------------------------------------------------- stopping

pub open spec fn not_running_text(path: Seq<char>) -> Seq<char> {
    "sem daemon rodando ("@ + path + " ausente ou ilegível)"@
}

/// How a request to stop the daemon ended.
pub enum Stopping {
    NoEntry,
    NoAnswer(String),
    Refused(RuntimeError),
    Stopped,
}

/// What is said of it: to stop what does not run is no error.
pub fn stop_report(how: &Stopping, path: &str, pid: u32) -> (r: Result<String, String>)
    ensures
        match how {
            Stopping::NoEntry => r matches Ok(m) && m@ == not_running_text(path@),
            Stopping::NoAnswer(e) => r matches Err(m) && m@ == "daemon (pid "@ + dec(pid as nat)
                + ") não respondeu: "@ + e@,
            Stopping::Refused(e) => r matches Err(m) && m@ == "shutdown falhou: "@ + e.text(),
            Stopping::Stopped => r matches Ok(m) && m@ == "daemon (pid "@ + dec(pid as nat)
                + ") parado."@,
        },
{
    match how {
        Stopping::NoEntry => {
            let mut m = "sem daemon rodando (".to_owned();
            m.append(path);
            m.append(" ausente ou ilegível)");
            Ok(m)
        },
        Stopping::NoAnswer(e) => {
            let mut m = "daemon (pid ".to_owned();
            let d = decimal(pid as u64);
            m.append(d.as_str());
            m.append(") não respondeu: ");
            m.append(e.as_str());
            Err(m)
        },
        Stopping::Refused(e) => {
            let mut m = "shutdown falhou: ".to_owned();
            let t = e.to_text();
            m.append(t.as_str());
            Err(m)
        },
        Stopping::Stopped => {
            let mut m = "daemon (pid ".to_owned();
            let d = decimal(pid as u64);
            m.append(d.as_str());
            m.append(") parado.");
            Ok(m)
        },
    }
}

// ---------------------------------------------------------------- laws

/// An answer carries the number it was asked under and the result, or the
/// reason and the code; a client reads just that.
pub proof fn law_answers_read_back(id: u64, result: JsonView, message: Seq<char>, code: Option<i64>)
    ensures
        daemon_line_of(ok_json(id, result)) == Some(
            DaemonLineView::Resp { id, ok: true, result, error: None, code: None },
        ),
        daemon_line_of(err_json(id, message, code)) == Some(
            DaemonLineView::Resp {
                id,
                ok: false,
                result: JsonView::Null,
                error: Some(message),
                code,
            },
        ),
        ok_json(id, result).get("ok"@) == Some(JsonView::Bool(true)),
        ok_json(id, result).unsigned_at("id"@) == Some(id),
        ok_json(id, result).get("result"@) == Some(result),
        err_json(id, message, code).get("ok"@) == Some(JsonView::Bool(false)),
        err_json(id, message, code).unsigned_at("id"@) == Some(id),
        err_json(id, message, code).text_at("error"@) == Some(message),
{
    reveal_strlit("id");
    reveal_strlit("ok");
    reveal_strlit("result");
    reveal_strlit("error");
    reveal_strlit("code");
    reveal_strlit("notification");
    assert("id"@.len() == 2 && "ok"@.len() == 2 && "result"@.len() == 6 && "error"@.len() == 5 && "code"@.len() == 4 && "notification"@.len() == 12);
    assert("id"@[0] != "ok"@[0]);
}

/// A notice carries its method and its parameters; a client reads just that.
pub proof fn law_notices_read_back(method: Seq<char>, params: JsonView)
    ensures
        daemon_line_of(notify_json(method, params)) == Some(
            DaemonLineView::Notify { method, params },
        ),
        notify_json(method, params).text_at("method"@) == Some(method),
        notify_json(method, params).get("params"@) == Some(params),
{
    reveal_strlit("notification");
    reveal_strlit("method");
    reveal_strlit("params");
    assert("notification"@.len() == 12 && "method"@.len() == 6 && "params"@.len() == 6);
    assert("method"@[0] != "params"@[0]);
}

/// A message of a client carries its number, its token, its method and its
/// parameters; the daemon reads just that.
pub proof fn law_client_messages_read_back(m: ClientMsgView)
    ensures
        client_msg_of(client_msg_json(m)) == Some(m),
        client_msg_json(m).unsigned_at("id"@) == Some(m.id),
        client_msg_json(m).text_at("token"@) == m.token,
        client_msg_json(m).text_at("method"@) == Some(m.method),
        client_msg_json(m).get("params"@) == Some(m.params),
{
    reveal_strlit("id");
    reveal_strlit("token");
    reveal_strlit("method");
    reveal_strlit("params");
    assert("id"@.len() == 2 && "token"@.len() == 5 && "method"@.len() == 6 && "params"@.len() == 6);
    assert("method"@[0] != "params"@[0]);
}

/// The entry of a daemon holds its port, its token, its process and its start.
pub proof fn law_entry_reads_back(e: DaemonEntryView)
    ensures
        entry_of(entry_json(e)) == Some(e),
        entry_json(e).unsigned_at("port"@) == Some(e.port as u64),
        entry_json(e).text_at("token"@) == Some(e.token),
        entry_json(e).unsigned_at("pid"@) == Some(e.pid as u64),
        entry_json(e).text_at("startedAt"@) == Some(e.started_at),
{
    reveal_strlit("port");
    reveal_strlit("token");
    reveal_strlit("pid");
    reveal_strlit("startedAt");
    assert("port"@.len() == 4 && "token"@.len() == 5 && "pid"@.len() == 3 && "startedAt"@.len() == 9);
}

/// The state of a daemon lists its workspaces in order, how long it has run and
/// which version it is.
pub proof fn law_status_holds(workspaces: Seq<Seq<char>>, uptime_secs: u64, version: Seq<char>)
    ensures
        status_json(workspaces, uptime_secs, version).items_at("workspaces"@) matches Some(list)
            && list.len() == workspaces.len() && (forall|i: int|
            0 <= i < list.len() ==> #[trigger] list[i] == JsonView::Str(workspaces[i])),
        status_json(workspaces, uptime_secs, version).unsigned_at("uptime_secs"@) == Some(
            uptime_secs,
        ),
        status_json(workspaces, uptime_secs, version).text_at("version"@) == Some(version),
{
    reveal_strlit("workspaces");
    reveal_strlit("uptime_secs");
    reveal_strlit("version");
    assert("workspaces"@.len() == 10 && "uptime_secs"@.len() == 11 && "version"@.len() == 7);
    let list = status_json(workspaces, uptime_secs, version).items_at("workspaces"@)->Some_0;
    assert(list =~= workspaces.map_values(|t: Seq<char>| JsonView::Str(t)));
}

/// Every request is answered under its own number; one that the daemon does not
/// know is refused by its name, and a call needs a workspace.
pub proof fn law_requests_are_answered(
    line: Seq<char>,
    m: ClientMsgView,
    workspace: Seq<char>,
    workspaces: Seq<Seq<char>>,
    uptime_secs: u64,
    version: Seq<char>,
    step: RequestStep,
)
    requires
        client_msg_of_line(line) == Some(m),
        asks_for(line, workspace, workspaces, uptime_secs, version, step),
    ensures
        match step {
            RequestStep::Answer(s) => daemon_line_of_text(s@) matches Some(
                DaemonLineView::Resp { id, ok, result, error, code },
            ) && id == m.id && (ok <==> m.method == "ping"@ || m.method == "status"@),
            RequestStep::Shutdown(s) => m.method == "shutdown"@ && (daemon_line_of_text(
                s@,
            ) matches Some(DaemonLineView::Resp { id, ok, result, error, code }) && id == m.id && ok),
            RequestStep::Call { id, rpc, params, timeout_secs } => m.method == "call"@ && id == m.id
                && workspace.len() > 0,
        },
        m.method == "call"@ && workspace.len() > 0 ==> step is Call,
        m.method == "shutdown"@ ==> step is Shutdown,
{
    reveal_strlit("call");
    reveal_strlit("ping");
    reveal_strlit("status");
    reveal_strlit("shutdown");
    assert("call"@.len() == 4 && "ping"@.len() == 4 && "status"@.len() == 6 && "shutdown"@.len() == 8);
    assert("call"@[0] != "ping"@[0]);
}

/// A daemon that cannot be told apart from a dead one is not used.
pub proof fn law_only_live_daemons_are_used(e: DaemonEntryView, is_alive: bool)
    ensures
        entry_valid(e, is_alive) ==> is_alive && e.port > 0 && e.pid > 0 && !blank(e.token),
        is_alive && e.port > 0 && e.pid > 0 && !blank(e.token) ==> entry_valid(e, is_alive),
        contains(second_daemon_text(e), dec(e.pid as nat)),
        contains(second_daemon_text(e), dec(e.port as nat)),
{
    broadcast use group_contains;

}

/// The workspace of a connection is the one that its greeting names.
pub proof fn law_hello_names_the_workspace(params: JsonView, ws: Seq<char>)
    ensures
        params.get("workspace"@) == Some(JsonView::Str(ws)) ==> hello_workspace(params) == ws,
        params.get("workspace"@) is None ==> hello_workspace(params).len() == 0,
{
}

/// The state that is told is that of the daemon: its workspaces each once, how
/// long it has run, which version it is.
pub proof fn law_status_is_told(
    line: Seq<char>,
    m: ClientMsgView,
    workspace: Seq<char>,
    workspaces: Seq<Seq<char>>,
    uptime_secs: u64,
    version: Seq<char>,
    step: RequestStep,
    ws: Seq<char>,
)
    requires
        client_msg_of_line(line) == Some(m),
        m.method == "status"@,
        asks_for(line, workspace, workspaces, uptime_secs, version, step),
    ensures
        step matches RequestStep::Answer(s) && (daemon_line_of_text(s@) matches Some(
            DaemonLineView::Resp { id, ok, result, error, code },
        ) && id == m.id && ok && result.unsigned_at("uptime_secs"@) == Some(uptime_secs)
            && result.text_at("version"@) == Some(version) && (result.items_at(
            "workspaces"@,
        ) matches Some(list) && (list.contains(JsonView::Str(ws)) <==> workspaces.contains(ws)))),
{
    reveal_strlit("call");
    reveal_strlit("ping");
    reveal_strlit("status");
    reveal_strlit("shutdown");
    assert("call"@.len() == 4 && "ping"@.len() == 4 && "status"@.len() == 6 && "shutdown"@.len() == 8);
    assert("call"@[0] != "ping"@[0]);
    let all = in_order(workspaces.to_set());
    law_in_order(workspaces);
    law_status_holds(all, uptime_secs, version);
    let list = status_json(all, uptime_secs, version).items_at("workspaces"@)->Some_0;
    if all.contains(ws) {
        let i = choose|i: int| 0 <= i < all.len() && all[i] == ws;
        assert(list[i] == JsonView::Str(ws));
    }
    if list.contains(JsonView::Str(ws)) {
        let i = choose|i: int| 0 <= i < list.len() && list[i] == JsonView::Str(ws);
        assert(all[i] == ws);
    }
}

/// What is asked for again and again is answered alike: `ping` with `pong`.
pub proof fn law_ping_pong(
    line: Seq<char>,
    m: ClientMsgView,
    workspace: Seq<char>,
    workspaces: Seq<Seq<char>>,
    uptime_secs: u64,
    version: Seq<char>,
    step: RequestStep,
)
    requires
        client_msg_of_line(line) == Some(m),
        asks_for(line, workspace, workspaces, uptime_secs, version, step),
    ensures
        m.method == "ping"@ ==> (step matches RequestStep::Answer(s) && (daemon_line_of_text(
            s@,
        ) matches Some(DaemonLineView::Resp { id, ok, result, error, code }) && result
            == JsonView::Str("pong"@))),
        m.method != "ping"@ && m.method != "call"@ && m.method != "status"@ && m.method != "shutdown"@
            ==> (step matches RequestStep::Answer(s) && (daemon_line_of_text(s@) matches Some(
            DaemonLineView::Resp { id, ok, result, error: Some(e), code },
        ) && !ok && contains(e, m.method))),
{
    broadcast use group_contains;

    reveal_strlit("call");
    reveal_strlit("ping");
    reveal_strlit("status");
    reveal_strlit("shutdown");
    assert("call"@.len() == 4 && "ping"@.len() == 4 && "status"@.len() == 6 && "shutdown"@.len() == 8);
    assert("call"@[0] != "ping"@[0]);
}

} // verus!
