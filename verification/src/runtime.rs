//! The agent runtime as seen from its pipes: what each line of its output asks
//! for, and what is kept of its error output.

use crate::json::{json_of_text, one_line, read_json, readable, text_of_json, Json, JsonView};
use crate::rpc::{
    build_request, build_server_response, client_response, is_client_response, is_server_request, request_view,
    response_id, server_request, server_response_view, to_line, RequestId, RpcError,
};
use crate::server_requests::{answer, answer_view};
use crate::text::{
    contains, dec, dec_int, decimal, decimal_signed, from_chars, group_contains, to_chars, trim, trimmed,
};
use vstd::prelude::*;

verus! {

#[derive(Debug, Clone, PartialEq, Eq)]
pub enum RuntimeError {
    NodeMissing(String),
    ZcodeMissing(String),
    Spawn(String),
    /// The process ended: exit code and the end of its error output.
    Exited(Option<i32>, String),
    Rpc(RpcError),
    Timeout(u64, String),
    Io(String),
}

/// An exit code as a debug value.
pub open spec fn exit_text(code: Option<i32>) -> Seq<char> {
    match code {
        Some(c) => "Some("@ + dec_int(c as int) + ")"@,
        None => "None"@,
    }
}

pub fn exit_to_text(code: Option<i32>) -> (r: String)
    ensures
        r@ == exit_text(code),
{
    match code {
        Some(c) => {
            let mut s = "Some(".to_owned();
            let d = decimal_signed(c as i64);
            s.append(d.as_str());
            s.append(")");
            s
        },
        None => "None".to_owned(),
    }
}

impl RuntimeError {
    /// The message shown for the error.
    pub open spec fn text(&self) -> Seq<char> {
        match self {
            RuntimeError::NodeMissing(n) => "node não encontrado no PATH (node="@ + n@
                + "). Instale o Node ou ajuste runtime.node no config."@,
            RuntimeError::ZcodeMissing(m) => "ZCode não encontrado: "@ + m@,
            RuntimeError::Spawn(m) => "falha ao spawnar runtime: "@ + m@,
            RuntimeError::Exited(code, tail) => "runtime encerrou (exit="@ + exit_text(*code)
                + "). Último stderr: "@ + tail@,
            RuntimeError::Rpc(e) => "rpc: "@ + e.text(),
            RuntimeError::Timeout(secs, method) => "timeout após "@ + dec(*secs as nat) + "s em "@
                + method@,
            RuntimeError::Io(m) => "io: "@ + m@,
        }
    }

    pub fn to_text(&self) -> (r: String)
        ensures
            r@ == self.text(),
    {
        match self {
            RuntimeError::NodeMissing(n) => {
                let mut s = "node não encontrado no PATH (node=".to_owned();
                s.append(n.as_str());
                s.append("). Instale o Node ou ajuste runtime.node no config.");
                s
            },
            RuntimeError::ZcodeMissing(m) => {
                let mut s = "ZCode não encontrado: ".to_owned();
                s.append(m.as_str());
                s
            },
            RuntimeError::Spawn(m) => {
                let mut s = "falha ao spawnar runtime: ".to_owned();
                s.append(m.as_str());
                s
            },
            RuntimeError::Exited(code, tail) => {
                let mut s = "runtime encerrou (exit=".to_owned();
                let c = exit_to_text(*code);
                s.append(c.as_str());
                s.append("). Último stderr: ");
                s.append(tail.as_str());
                s
            },
            RuntimeError::Rpc(e) => {
                let mut s = "rpc: ".to_owned();
                let t = e.to_text();
                s.append(t.as_str());
                s
            },
            RuntimeError::Timeout(secs, method) => {
                let mut s = "timeout após ".to_owned();
                let d = decimal(*secs);
                s.append(d.as_str());
                s.append("s em ");
                s.append(method.as_str());
                s
            },
            RuntimeError::Io(m) => {
                let mut s = "io: ".to_owned();
                s.append(m.as_str());
                s
            },
        }
    }

    /// Equality of errors, their texts compared as texts.
    pub open spec fn alike(&self, other: &RuntimeError) -> bool {
        match (self, other) {
            (RuntimeError::NodeMissing(a), RuntimeError::NodeMissing(b)) => a@ == b@,
            (RuntimeError::ZcodeMissing(a), RuntimeError::ZcodeMissing(b)) => a@ == b@,
            (RuntimeError::Spawn(a), RuntimeError::Spawn(b)) => a@ == b@,
            (RuntimeError::Exited(c, a), RuntimeError::Exited(d, b)) => c == d && a@ == b@,
            (RuntimeError::Rpc(a), RuntimeError::Rpc(b)) => a.alike(b),
            (RuntimeError::Timeout(n, a), RuntimeError::Timeout(m, b)) => n == m && a@ == b@,
            (RuntimeError::Io(a), RuntimeError::Io(b)) => a@ == b@,
            _ => false,
        }
    }
}

// ---------------------------------------------------------------- output lines

/// What one line of the runtime's output asks for.
pub enum Inbound {
    /// An empty line.
    Blank,
    /// A line that is not JSON, which is passed over.
    NotJson,
    /// A request of the server, with the line to answer it with.
    Reply(String),
    /// The outcome of the request with this id.
    Outcome { id: u64, result: Result<Json, RpcError> },
    /// A response whose id no request can have.
    Stray,
    /// A notification, handed on to whoever listens.
    Event(Json),
    /// Anything else.
    Unknown,
}

/// The outcome that a response reports: its error wins over its result.
pub open spec fn outcome_ok(msg: JsonView) -> Option<JsonView> {
    if msg.get("error"@) is Some {
        None
    } else {
        msg.get("result"@)
    }
}

/// The code of the error that a response reports.
pub open spec fn error_code(msg: JsonView) -> int {
    match msg.get2("error"@, "code"@) {
        Some(c) => match c.as_signed() {
            Some(n) => n as int,
            None => -1,
        },
        None => -1,
    }
}

/// The message of the error that a response reports.
pub open spec fn error_message(msg: JsonView) -> Seq<char> {
    match msg.get2("error"@, "message"@) {
        Some(m) => match m.as_text() {
            Some(t) => t,
            None => "erro rpc"@,
        },
        None => "erro rpc"@,
    }
}

/// The reply line for a request of the server, without its line break.
pub open spec fn reply_view(msg: JsonView) -> JsonView {
    server_response_view(
        JsonView::Str(msg.text_at("id"@)->0),
        answer_view(msg.text_at("method"@)->0),
    )
}

/// How the meaning of a line relates to its text.
pub open spec fn means(line: Seq<char>, i: Inbound) -> bool {
    let t = trim(line);
    if t.len() == 0 {
        i is Blank
    } else {
        match json_of_text(t) {
            None => i is NotJson,
            Some(msg) => if server_request(msg) {
                i matches Inbound::Reply(s) && s@ == text_of_json(reply_view(msg)).push('\n')
                    && one_line(s@.drop_last()) && json_of_text(s@.drop_last()) == Some(reply_view(msg))
            } else if client_response(msg) {
                match msg.unsigned_at("id"@) {
                    Some(n) => i matches Inbound::Outcome { id, result } && id == n && match result {
                        Ok(v) => outcome_ok(msg) == Some(v@),
                        Err(e) => outcome_ok(msg) is None && (e matches RpcError::Server {
                            code,
                            message,
                        } && code == error_code(msg) && message@ == error_message(msg)),
                    },
                    None => i is Stray,
                }
            } else if msg.get("method"@) is Some {
                i matches Inbound::Event(v) && v@ == msg
            } else {
                i is Unknown
            },
        }
    }
}

/// The outcome that a response reports.
fn outcome(msg: &Json) -> (r: Result<Json, RpcError>)
    requires
        client_response(msg@),
    ensures
        match r {
            Ok(v) => outcome_ok(msg@) == Some(v@),
            Err(e) => outcome_ok(msg@) is None && (e matches RpcError::Server { code, message }
                && code == error_code(msg@) && message@ == error_message(msg@)),
        },
{
    if msg.get("error").is_some() {
        let code: i64 = match msg.get2("error", "code") {
            Some(c) => match c.as_i64() {
                Some(n) => n,
                None => -1,
            },
            None => -1,
        };
        let message = match msg.get2("error", "message") {
            Some(m) => match m.as_str() {
                Some(t) => t.to_owned(),
                None => "erro rpc".to_owned(),
            },
            None => "erro rpc".to_owned(),
        };
        return Err(RpcError::Server { code, message });
    }
    match msg.get("result") {
        Some(v) => Ok(v.dup()),
        None => Err(RpcError::EmptyResponse(String::new())),
    }
}

/// Decides what a line of the runtime's output asks for.
pub fn classify_line(raw: &str) -> (r: Inbound)
    ensures
        means(raw@, r),
{
    let line = trimmed(raw);
    if line.as_str().is_empty() {
        return Inbound::Blank;
    }
    let msg = match read_json(line.as_str()) {
        Ok(v) => v,
        Err(_) => {
            return Inbound::NotJson;
        },
    };
    if is_server_request(&msg) {
        match (msg.str_at("id"), msg.str_at("method")) {
            (Some(id), Some(method)) => {
                let params = match msg.get("params") {
                    Some(p) => p.dup(),
                    None => Json::Null,
                };
                let result = answer(method, &params);
                let resp = build_server_response(&RequestId::Str(id.to_owned()), result);
                proof {
                    lemma_reply_readable(msg@);
                }
                let mut out = to_line(&resp);
                let ghost line = out@;
                out.push('\n');
                assert(out@.drop_last() == line);
                return Inbound::Reply(out);
            },
            _ => {},
        }
    }
    if is_client_response(&msg) {
        return match response_id(&msg) {
            Some(id) => Inbound::Outcome { id, result: outcome(&msg) },
            None => Inbound::Stray,
        };
    }
    if msg.get("method").is_some() {
        return Inbound::Event(msg);
    }
    Inbound::Unknown
}

proof fn lemma_reply_readable(msg: JsonView)
    ensures
        readable(reply_view(msg), 127),
{
    broadcast use crate::json::group_readable;

    assert(readable(answer_view(msg.text_at("method"@)->0), 126));
}

// ---------------------------------------------------------------- error output

/// How much of the error output is kept, in bytes.
pub const STDERR_TAIL_BYTES: usize = 4000;

/// The bytes that a character takes in UTF-8.
pub open spec fn char_bytes(c: char) -> nat {
    let n = c as u32;
    if n < 0x80 {
        1
    } else if n < 0x800 {
        2
    } else if n < 0x10000 {
        3
    } else {
        4
    }
}

/// The bytes that a text takes in UTF-8.
pub open spec fn text_bytes(s: Seq<char>) -> nat
    decreases s.len(),
{
    if s.len() == 0 {
        0
    } else {
        char_bytes(s[0]) + text_bytes(s.drop_first())
    }
}

/// The end of `s` that takes exactly `n` bytes, if a character begins there.
pub open spec fn byte_suffix(s: Seq<char>, n: nat) -> Option<Seq<char>>
    decreases s.len(),
{
    if text_bytes(s) == n {
        Some(s)
    } else if s.len() == 0 {
        None
    } else {
        byte_suffix(s.drop_first(), n)
    }
}

/// What is kept after one more line: all of it, or its last bytes. `None`
/// where those begin inside a character.
pub open spec fn tail_after(kept: Seq<char>, line: Seq<char>) -> Option<Seq<char>> {
    let all = kept + line + "\n"@;
    if text_bytes(all) > STDERR_TAIL_BYTES {
        byte_suffix(all, STDERR_TAIL_BYTES as nat)
    } else {
        Some(all)
    }
}

fn char_width(c: char) -> (n: usize)
    ensures
        n == char_bytes(c),
        1 <= n <= 4,
{
    let n: u32 = c as u32;
    if n < 0x80 {
        1
    } else if n < 0x800 {
        2
    } else if n < 0x10000 {
        3
    } else {
        4
    }
}

proof fn lemma_byte_suffix_small(s: Seq<char>, n: nat)
    requires
        text_bytes(s) < n,
    ensures
        byte_suffix(s, n) is None,
    decreases s.len(),
{
    if s.len() > 0 {
        lemma_byte_suffix_small(s.drop_first(), n);
    }
}

proof fn lemma_byte_suffix_skip(s: Seq<char>, n: nat, i: int)
    requires
        0 <= i <= s.len(),
        i > 0 ==> text_bytes(s.skip(i - 1)) > n,
    ensures
        byte_suffix(s, n) == byte_suffix(s.skip(i), n),
    decreases i,
{
    if i > 0 {
        assert(s.skip(i - 1).drop_first() == s.skip(i));
        if i > 1 {
            lemma_text_bytes_skip(s, i - 2);
        }
        lemma_byte_suffix_skip(s, n, i - 1);
    } else {
        assert(s.skip(0) == s);
    }
}

proof fn lemma_text_bytes_skip(s: Seq<char>, i: int)
    requires
        0 <= i < s.len(),
    ensures
        text_bytes(s.skip(i)) == char_bytes(s[i]) + text_bytes(s.skip(i + 1)),
{
    assert(s.skip(i).drop_first() == s.skip(i + 1));
}

/// Where the end of the characters that takes exactly `n` bytes begins.
fn last_bytes(v: &[char], n: usize) -> (r: Option<usize>)
    requires
        n <= 0xffff,
    ensures
        match r {
            Some(i) => i <= v@.len() && byte_suffix(v@, n as nat) == Some(v@.skip(i as int)),
            None => byte_suffix(v@, n as nat) is None,
        },
{
    let mut i: usize = v.len();
    let mut bytes: usize = 0;
    assert(v@.skip(v@.len() as int).len() == 0);
    while i > 0 && bytes < n
        invariant
            n <= 0xffff,
            i <= v@.len(),
            bytes == text_bytes(v@.skip(i as int)),
            bytes < n + 4,
            i < v@.len() ==> text_bytes(v@.skip(i + 1)) < n,
        decreases i,
    {
        proof {
            lemma_text_bytes_skip(v@, i - 1);
        }
        i = i - 1;
        bytes = bytes + char_width(v[i]);
    }
    if bytes == n {
        proof {
            if i > 0 {
                lemma_text_bytes_skip(v@, i - 1);
            }
            lemma_byte_suffix_skip(v@, n as nat, i as int);
        }
        Some(i)
    } else {
        proof {
            if bytes < n {
                assert(v@.skip(0) == v@);
                lemma_byte_suffix_small(v@, n as nat);
            } else {
                lemma_byte_suffix_skip(v@, n as nat, i + 1);
                lemma_byte_suffix_small(v@.skip(i + 1), n as nat);
            }
        }
        None
    }
}

/// Whether the characters take more than `n` bytes.
fn exceeds_bytes(v: &[char], n: usize) -> (r: bool)
    requires
        n <= 0xffff,
    ensures
        r == (text_bytes(v@) > n),
{
    let mut i: usize = v.len();
    let mut bytes: usize = 0;
    assert(v@.skip(v@.len() as int).len() == 0);
    while i > 0 && bytes <= n
        invariant
            n <= 0xffff,
            i <= v@.len(),
            bytes == text_bytes(v@.skip(i as int)),
            bytes <= n + 4,
        decreases i,
    {
        proof {
            lemma_text_bytes_skip(v@, i - 1);
        }
        i = i - 1;
        bytes = bytes + char_width(v[i]);
    }
    proof {
        lemma_text_bytes_whole(v@, i as int);
    }
    assert(v@.skip(0) == v@);
    bytes > n
}

proof fn lemma_text_bytes_whole(s: Seq<char>, i: int)
    requires
        0 <= i <= s.len(),
    ensures
        text_bytes(s) >= text_bytes(s.skip(i)),
    decreases i,
{
    if i > 0 {
        lemma_text_bytes_skip(s, i - 1);
        lemma_text_bytes_whole(s, i - 1);
    } else {
        assert(s.skip(0) == s);
    }
}

/// The error output to keep after one more line; `None` where it would have to
/// be cut inside a character.
pub fn push_stderr(kept: &str, line: &str) -> (r: Option<String>)
    ensures
        match r {
            Some(t) => tail_after(kept@, line@) == Some(t@),
            None => tail_after(kept@, line@) is None,
        },
{
    let mut all = kept.to_owned();
    all.append(line);
    all.append("\n");
    let v = to_chars(all.as_str());
    if exceeds_bytes(v.as_slice(), STDERR_TAIL_BYTES) {
        match last_bytes(v.as_slice(), STDERR_TAIL_BYTES) {
            Some(i) => {
                assert(v@.subrange(i as int, v@.len() as int) == v@.skip(i as int));
                Some(from_chars(v.as_slice(), i, v.len()))
            },
            None => None,
        }
    } else {
        Some(all)
    }
}

proof fn lemma_byte_suffix_size(s: Seq<char>, n: nat)
    ensures
        byte_suffix(s, n) matches Some(t) ==> text_bytes(t) == n,
    decreases s.len(),
{
    if text_bytes(s) != n && s.len() > 0 {
        lemma_byte_suffix_size(s.drop_first(), n);
    }
}

/// However long the error output gets, what is kept of it takes at most
/// `STDERR_TAIL_BYTES` bytes.
pub proof fn law_tail_bounded(kept: Seq<char>, line: Seq<char>)
    ensures
        tail_after(kept, line) matches Some(t) ==> text_bytes(t) <= STDERR_TAIL_BYTES,
{
    lemma_byte_suffix_size(kept + line + "\n"@, STDERR_TAIL_BYTES as nat);
}

// ---------------------------------------------------------------- calls

/// What is known of the process before a call.
pub enum ChildState {
    Running,
    Ended(Option<i32>),
    Unreadable(String),
}

/// How the wait for a response ended.
pub enum Waited {
    TimedOut,
    Dropped,
    Got(Result<Json, RpcError>),
}

/// A call is made only while the process runs; otherwise it fails with how the
/// process ended and the end of its error output.
pub fn may_call(state: &ChildState, stderr: &str) -> (r: Result<(), RuntimeError>)
    ensures
        match state {
            ChildState::Running => r is Ok,
            ChildState::Ended(code) => r matches Err(RuntimeError::Exited(c, t)) && c == *code && t@
                == stderr@,
            ChildState::Unreadable(m) => r matches Err(RuntimeError::Io(t)) && t@ == m@,
        },
{
    match state {
        ChildState::Running => Ok(()),
        ChildState::Ended(code) => Err(RuntimeError::Exited(*code, stderr.to_owned())),
        ChildState::Unreadable(m) => Err(RuntimeError::Io(m.clone())),
    }
}

/// The line that carries a request.
pub fn request_line(id: u64, method: &str, params: Json) -> (s: String)
    ensures
        s@ == text_of_json(request_view(id, method@, params@)).push('\n'),
        one_line(s@.drop_last()),
        readable(params@, 126) ==> json_of_text(s@.drop_last()) == Some(
            request_view(id, method@, params@),
        ),
{
    broadcast use crate::json::group_readable;

    let req = build_request(id, method, params);
    let mut s = to_line(&req);
    let ghost before = s@;
    s.push('\n');
    assert(s@.drop_last() == before);
    s
}

/// The result of a call, from how the wait for its response ended.
pub fn call_result(waited: Waited, timeout_secs: u64, method: &str) -> (r: Result<Json, RuntimeError>)
    ensures
        match waited {
            Waited::TimedOut => r matches Err(RuntimeError::Timeout(n, m)) && n == timeout_secs
                && m@ == method@,
            Waited::Dropped => r matches Err(RuntimeError::Rpc(RpcError::Transport(m))) && m@
                == "resposta descartada"@,
            Waited::Got(Ok(v)) => r matches Ok(w) && w@ == v@,
            Waited::Got(Err(e)) => r == Err::<Json, RuntimeError>(RuntimeError::Rpc(e)),
        },
        r is Ok <==> (waited matches Waited::Got(Ok(v))),
{
    match waited {
        Waited::TimedOut => Err(RuntimeError::Timeout(timeout_secs, method.to_owned())),
        Waited::Dropped => Err(RuntimeError::Rpc(RpcError::Transport("resposta descartada".to_owned()))),
        Waited::Got(Ok(v)) => Ok(v),
        Waited::Got(Err(e)) => Err(RuntimeError::Rpc(e)),
    }
}

/// The error for a runtime that could not be started.
pub fn spawn_error(not_found: bool, node: &str, message: &str) -> (e: RuntimeError)
    ensures
        not_found ==> (e matches RuntimeError::NodeMissing(n) && n@ == node@),
        !not_found ==> (e matches RuntimeError::Spawn(m) && m@ == message@),
{
    if not_found {
        RuntimeError::NodeMissing(node.to_owned())
    } else {
        RuntimeError::Spawn(message.to_owned())
    }
}

/// A server request is answered whatever its method, with the id it came with;
/// the answer to the preferences request carries the field the server needs.
pub proof fn law_every_server_request_answered(line: Seq<char>, i: Inbound)
    requires
        means(line, i),
        trim(line).len() > 0,
        json_of_text(trim(line)) matches Some(msg) && server_request(msg),
    ensures
        i is Reply,
        ({
            let msg = json_of_text(trim(line))->0;
            &&& reply_view(msg).get("id"@) == Some(JsonView::Str(msg.text_at("id"@)->0))
            &&& msg.text_at("method"@) == Some("session/requestRuntimePreferences"@)
                ==> reply_view(msg).get2("result"@, "nativeSearchEnhancementsEnabled"@) == Some(
                JsonView::Bool(false),
            )
        }),
{
    reveal_strlit("id");
    reveal_strlit("result");
    assert("id"@.len() != "result"@.len());
}

// ---------------------------------------------------------------- laws

/// A result comes back to the call with its number, as the server gave it.
pub proof fn law_result_comes_back(line: Seq<char>, i: Inbound, n: u64, result: JsonView)
    requires
        means(line, i),
        trim(line).len() > 0,
        json_of_text(trim(line)) matches Some(msg) && msg.get("id"@) == Some(
            JsonView::Int(n as int),
        ) && msg.get("result"@) == Some(result) && msg.get("error"@) is None,
    ensures
        i matches Inbound::Outcome { id, result: Ok(v) } && id == n && v@ == result,
{
}

/// A refusal comes back to the call with its number, with its code and message.
pub proof fn law_refusal_comes_back(
    line: Seq<char>,
    i: Inbound,
    n: u64,
    error: JsonView,
    code: i64,
    message: Seq<char>,
)
    requires
        means(line, i),
        trim(line).len() > 0,
        json_of_text(trim(line)) matches Some(msg) && msg.get("id"@) == Some(
            JsonView::Int(n as int),
        ) && msg.get("error"@) == Some(error),
        error.get("code"@) == Some(JsonView::Int(code as int)),
        error.get("message"@) == Some(JsonView::Str(message)),
    ensures
        i matches Inbound::Outcome { id, result: Err(RpcError::Server { code: c, message: m }) } && id
            == n && c == code && m@ == message,
{
}

/// A notice of the server is handed on whole.
pub proof fn law_event_is_handed_on(line: Seq<char>, i: Inbound, msg: JsonView)
    requires
        means(line, i),
        trim(line).len() > 0,
        json_of_text(trim(line)) == Some(msg),
        msg.get("id"@) is None,
        msg.get("method"@) is Some,
    ensures
        i matches Inbound::Event(v) && v@ == msg,
{
}

/// What is kept of the error output is its end: all of it where it fits.
pub proof fn law_tail_is_the_end(kept: Seq<char>, line: Seq<char>)
    ensures
        tail_after(kept, line) matches Some(t) ==> t.is_suffix_of(kept + line + "\n"@),
        text_bytes(kept + line + "\n"@) <= STDERR_TAIL_BYTES ==> tail_after(kept, line) == Some(
            kept + line + "\n"@,
        ),
{
    let all = kept + line + "\n"@;
    if text_bytes(all) > STDERR_TAIL_BYTES {
        lemma_byte_suffix_is_suffix(all, STDERR_TAIL_BYTES as nat);
    } else {
        assert(all.subrange(0, all.len() as int) =~= all);
    }
}

proof fn lemma_byte_suffix_is_suffix(s: Seq<char>, n: nat)
    ensures
        byte_suffix(s, n) matches Some(t) ==> t.is_suffix_of(s),
    decreases s.len(),
{
    if text_bytes(s) == n {
        assert(s.subrange(0, s.len() as int) =~= s);
    } else if s.len() > 0 {
        lemma_byte_suffix_is_suffix(s.drop_first(), n);
        match byte_suffix(s.drop_first(), n) {
            Some(t) => {
                let d = s.drop_first();
                assert(d.subrange(d.len() - t.len(), d.len() as int) =~= s.subrange(
                    s.len() - t.len(),
                    s.len() as int,
                ));
            },
            None => {},
        }
    }
}

/// The text of an error holds what it is about.
pub proof fn law_runtime_error_text(e: RuntimeError)
    ensures
        e matches RuntimeError::NodeMissing(n) ==> contains(e.text(), n@),
        e matches RuntimeError::ZcodeMissing(m) ==> contains(e.text(), m@),
        e matches RuntimeError::Spawn(m) ==> contains(e.text(), m@),
        e matches RuntimeError::Exited(code, tail) ==> contains(e.text(), tail@) && contains(
            e.text(),
            exit_text(code),
        ),
        e matches RuntimeError::Rpc(r) ==> contains(e.text(), r.text()),
        e matches RuntimeError::Timeout(secs, method) ==> contains(e.text(), method@) && contains(
            e.text(),
            dec(secs as nat),
        ),
        e matches RuntimeError::Io(m) ==> contains(e.text(), m@),
{
    broadcast use group_contains;

}

} // verus!
