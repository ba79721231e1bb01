//! The client of the broker: which transport a command uses, what a client
//! sends, how it reads what comes back, and how a broker is started on demand.

use crate::daemon::{
    answers_err, answers_ok, asks_for, call_params, call_rpc, call_timeout, carried_code, carried_text,
    client_msg_of_line, daemon_line_of_text, event_method, event_params, hello_workspace, parse_daemon_line, ClientMsg,
    ClientMsgView, DaemonEntry, DaemonLine, DaemonLineView, RequestStep,
};
use crate::json::{no_fields, Json, JsonView};
use crate::paths::{app_file, data_file};
use crate::rpc::RpcError;
use crate::runtime::RuntimeError;
use crate::session::SessionError;
use crate::text::{
    dec, decimal, is_digit, law_decimal_reads_back, lemma_trim_solid, parse_unsigned, parsed, same, trim,
    trimmed,
};
use vstd::prelude::*;

verus! {

/// How often, and after what pause each time, a started daemon is looked for.
pub const AUTOSTART_TRIES: u32 = 10;

pub const AUTOSTART_INTERVAL_MS: u64 = 500;

// ---------------------------------------------------------------- selection

/// Where a command's runtime lives.
#[derive(Debug, Clone, Copy, PartialEq, Eq, Structural)]
pub enum TransportKind {
    Embedded,
    Daemon,
}

/// The transport of a command: the daemon only where it was not refused, its
/// entry is usable and it let the client in. A command never fails because of
/// the daemon.
pub fn decide_transport(no_daemon: bool, entry_ok: bool, connected: bool) -> (r: TransportKind)
    ensures
        r == TransportKind::Daemon <==> !no_daemon && entry_ok && connected,
{
    if no_daemon {
        return TransportKind::Embedded;
    }
    if entry_ok && connected {
        return TransportKind::Daemon;
    }
    TransportKind::Embedded
}

/// What the search for a transport does next.
#[derive(Debug, Clone, Copy, PartialEq, Eq, Structural)]
pub enum TransportStep {
    /// Use a runtime of the command's own.
    Embed,
    /// Connect to the daemon of the entry.
    Connect,
    /// Start a daemon and wait for it.
    Start,
}

/// The first step: `--no-daemon` neither connects nor starts one; a usable
/// entry is connected to; without one a daemon is started.
pub fn transport_step(no_daemon: bool, entry_ok: bool) -> (r: TransportStep)
    ensures
        r == TransportStep::Embed <==> no_daemon,
        r == TransportStep::Connect <==> !no_daemon && entry_ok,
        r == TransportStep::Start <==> !no_daemon && !entry_ok,
{
    if no_daemon {
        TransportStep::Embed
    } else if entry_ok {
        TransportStep::Connect
    } else {
        TransportStep::Start
    }
}

// ---------------------------------------------------------------- resumed sessions

/// A resumed session may take a new turn only where it can still be warm, in
/// the daemon.
pub fn r1_resume_may_send(kind: TransportKind) -> (r: bool)
    ensures
        r == (kind == TransportKind::Daemon),
{
    match kind {
        TransportKind::Daemon => true,
        TransportKind::Embedded => false,
    }
}

/// The code with which the server refuses a turn of a session that is not warm.
pub const COLD_SESSION: i64 = -32031;

pub open spec fn means_cold(e: SessionError) -> bool {
    e matches SessionError::Runtime(RuntimeError::Rpc(RpcError::Server { code, message })) && code
        == COLD_SESSION
}

/// Whether an error says that the session is cold in this runtime.
pub fn r1_send_err_means_cold(e: &SessionError) -> (r: bool)
    ensures
        r == means_cold(*e),
{
    match e {
        SessionError::Runtime(RuntimeError::Rpc(RpcError::Server { code, message: _ })) => *code
            == COLD_SESSION,
        _ => false,
    }
}

// ---------------------------------------------------------------- messages

/// The greeting: the only message that carries the token. Its id is 0.
pub fn hello_msg(entry: &DaemonEntry, workspace: &str) -> (m: ClientMsg)
    ensures
        m@.id == 0,
        m@.token == Some(entry@.token),
        m@.method == "hello"@,
        m@.params == no_fields().put("workspace"@, JsonView::Str(workspace@)),
        hello_workspace(m@.params) == workspace@,
{
    ClientMsg {
        id: 0,
        token: Some(entry.token.clone()),
        method: "hello".to_owned(),
        params: Json::object().with("workspace", Json::text(workspace)),
    }
}

/// Any other request.
pub fn request_msg(id: u64, method: &str, params: Json) -> (m: ClientMsg)
    ensures
        m@.id == id,
        m@.token is None,
        m@.method == method@,
        m@.params == params@,
{
    ClientMsg { id, token: None, method: method.to_owned(), params }
}

pub open spec fn call_json(rpc: Seq<char>, params: JsonView, timeout_secs: u64) -> JsonView {
    no_fields().put("rpc"@, JsonView::Str(rpc)).put("params"@, params).put(
        "timeout_secs"@,
        JsonView::Int(timeout_secs as int),
    )
}

/// The request that has the daemon make a call.
pub fn call_msg(id: u64, rpc: &str, params: Json, timeout_secs: u64) -> (m: ClientMsg)
    ensures
        m@.id == id,
        m@.token is None,
        m@.method == "call"@,
        m@.params == call_json(rpc@, params@, timeout_secs),
        call_rpc(m@.params) == rpc@,
        call_params(m@.params) == params@,
        call_timeout(m@.params) == timeout_secs,
{
    proof {
        law_call_passes_through(rpc@, params@, timeout_secs);
    }
    request_msg(
        id,
        "call",
        Json::object().with("rpc", Json::text(rpc)).with("params", params).with(
            "timeout_secs",
            Json::Unsigned(timeout_secs),
        ),
    )
}

// ---------------------------------------------------------------- lines

/// What a line of the daemon means to the client.
pub enum ClientLine {
    /// An event, in the form in which a runtime of one's own delivers it.
    Event(Json),
    /// The outcome of the request with this id.
    Answer { id: u64, result: Result<Json, RuntimeError> },
    /// A line that is not understood and passed over.
    Ignored,
}

pub open spec fn event_json(method: Seq<char>, params: JsonView) -> JsonView {
    no_fields().put("method"@, JsonView::Str(method)).put("params"@, params)
}

/// The error that a refusal of the daemon stands for: without a code it has -1.
pub open spec fn refusal(e: RuntimeError, error: Option<Seq<char>>, code: Option<i64>) -> bool {
    e matches RuntimeError::Rpc(RpcError::Server { code: c, message }) && c == (match code {
        Some(n) => n as int,
        None => -1,
    }) && message@ == match error {
        Some(t) => t,
        None => "erro no daemon"@,
    }
}

/// How the meaning of a line relates to its text.
pub open spec fn client_reads(line: Seq<char>, c: ClientLine) -> bool {
    match daemon_line_of_text(line) {
        None => c is Ignored,
        Some(DaemonLineView::Notify { method, params }) => c matches ClientLine::Event(v) && v@
            == event_json(method, params),
        Some(DaemonLineView::Resp { id: n, ok, result: value, error, code }) => c matches ClientLine::Answer {
            id,
            result,
        } && id == n && match result {
            Ok(v) => ok && v@ == value,
            Err(e) => !ok && refusal(e, error, code),
        },
    }
}

/// Reads a line of the daemon.
pub fn client_line(line: &str) -> (c: ClientLine)
    ensures
        client_reads(line@, c),
{
    match parse_daemon_line(line) {
        Err(_) => ClientLine::Ignored,
        Ok(DaemonLine::Notify { method, params }) => ClientLine::Event(
            Json::object().with("method", Json::Str(method)).with("params", params),
        ),
        Ok(DaemonLine::Resp { id, ok, result, error, code }) => {
            if ok {
                ClientLine::Answer { id, result: Ok(result) }
            } else {
                let code: i64 = match code {
                    Some(n) => n,
                    None => -1,
                };
                let message = match error {
                    Some(t) => t,
                    None => "erro no daemon".to_owned(),
                };
                ClientLine::Answer {
                    id,
                    result: Err(RuntimeError::Rpc(RpcError::Server { code, message })),
                }
            }
        },
    }
}

/// What the requests get that still wait when the daemon goes away.
pub fn disconnected() -> (e: RuntimeError)
    ensures
        e matches RuntimeError::Io(m) && m@ == "daemon desconectou"@,
{
    RuntimeError::Io("daemon desconectou".to_owned())
}

/// An error of the server reaches the client of a daemon as it reaches the
/// owner of a runtime: with the server's own code and message. Of any other
/// error the text arrives, under code -1.
pub proof fn law_server_error_survives(line: Seq<char>, id: u64, e: RuntimeError, c: ClientLine)
    requires
        answers_err(line, id, carried_text(e), carried_code(e)),
        client_reads(line, c),
    ensures
        c matches ClientLine::Answer { id: n, result: Err(got) } && n == id && (match e {
            RuntimeError::Rpc(RpcError::Server { code, message }) => got.alike(&e),
            _ => got matches RuntimeError::Rpc(RpcError::Server { code, message }) && code == -1
                && message@ == e.text(),
        }),
{
}

/// A session that is cold is recognised as cold through the daemon too, and no
/// other error is taken for it.
pub proof fn law_cold_session_recognised(line: Seq<char>, id: u64, e: RuntimeError, c: ClientLine)
    requires
        answers_err(line, id, carried_text(e), carried_code(e)),
        client_reads(line, c),
    ensures
        c matches ClientLine::Answer { id: _, result: Err(got) } && (means_cold(
            SessionError::Runtime(got),
        ) <==> means_cold(SessionError::Runtime(e))),
{
    law_server_error_survives(line, id, e, c);
}

/// An event with a method arrives at the client with its method and its
/// parameters.
pub proof fn law_event_arrives(line: Seq<char>, method: Seq<char>, params: JsonView, c: ClientLine)
    requires
        daemon_line_of_text(line) == Some(DaemonLineView::Notify { method, params }),
        client_reads(line, c),
    ensures
        c matches ClientLine::Event(v) && v@.text_at("method"@) == Some(method) && v@.get("params"@)
            == Some(params),
{
    reveal_strlit("method");
    reveal_strlit("params");
    assert("method"@[0] != "params"@[0]);
}

// ---------------------------------------------------------------- handshake

/// How the wait for the answer to the greeting ended.
pub enum Greeted {
    Accepted,
    Refused(RuntimeError),
    Silent,
}

/// The outcome of a handshake.
pub fn handshake_result(g: &Greeted) -> (r: Result<(), String>)
    ensures
        match g {
            Greeted::Accepted => r is Ok,
            Greeted::Refused(e) => r matches Err(m) && m@ == "handshake recusado: "@ + e.text(),
            Greeted::Silent => r matches Err(m) && m@ == "handshake sem resposta"@,
        },
{
    match g {
        Greeted::Accepted => Ok(()),
        Greeted::Refused(e) => {
            let mut m = "handshake recusado: ".to_owned();
            let t = e.to_text();
            m.append(t.as_str());
            Err(m)
        },
        Greeted::Silent => Err("handshake sem resposta".to_owned()),
    }
}

/// What is said of a handshake that took too long.
pub fn budget_exceeded(millis: u64) -> (m: String)
    ensures
        m@ == "handshake excedeu "@ + dec(millis as nat) + "ms"@,
{
    let mut m = "handshake excedeu ".to_owned();
    let d = decimal(millis);
    m.append(d.as_str());
    m.append("ms");
    m
}

// ---------------------------------------------------------------- start on demand

/// Where the lock lies that lets one command at a time start a daemon.
pub fn daemon_lock_path() -> (r: String)
    ensures
        exists|base: Option<Seq<char>>| r@ == #[trigger] app_file(base, "daemon.lock"@),
{
    data_file("daemon.lock")
}

/// The process that a lock file names, if it names one.
pub open spec fn lock_owner(text: Option<Seq<char>>) -> Option<nat> {
    match text {
        Some(t) => parse_unsigned(trim(t), u32::MAX as nat),
        None => None,
    }
}

pub fn lock_owner_pid(text: Option<&str>) -> (r: Option<u32>)
    ensures
        match r {
            Some(p) => lock_owner(
                match text {
                    Some(t) => Some(t@),
                    None => None,
                },
            ) == Some(p as nat),
            None => lock_owner(
                match text {
                    Some(t) => Some(t@),
                    None => None,
                },
            ) is None,
        },
{
    match text {
        Some(t) => {
            let s = trimmed(t);
            match parsed(s.as_str(), 4294967295) {
                Some(n) => Some(n as u32),
                None => None,
            }
        },
        None => None,
    }
}

/// How the creation of the lock file ended.
#[derive(Debug, Clone, Copy, PartialEq, Eq, Structural)]
pub enum Created {
    Made,
    Exists,
    Failed,
}

/// What the outcome means for the command.
#[derive(Debug, Clone, Copy, PartialEq, Eq, Structural)]
pub enum LockStep {
    /// The lock is ours: start the daemon.
    Won,
    /// Another command starts it: only wait.
    Lost,
    /// The owner is gone: remove the file and try once more.
    Retry,
}

/// What an attempt to create the lock means: one that another living process
/// holds is respected, a stale one is removed once.
pub open spec fn lock_decision(created: Created, owner_alive: bool, second: bool) -> LockStep {
    match created {
        Created::Made => LockStep::Won,
        Created::Exists => if owner_alive || second {
            LockStep::Lost
        } else {
            LockStep::Retry
        },
        Created::Failed => LockStep::Lost,
    }
}

/// Decides after an attempt to create the lock.
pub fn lock_step(created: Created, owner_alive: bool, second: bool) -> (r: LockStep)
    ensures
        r == lock_decision(created, owner_alive, second),
{
    match created {
        Created::Made => LockStep::Won,
        Created::Exists => {
            if owner_alive || second {
                LockStep::Lost
            } else {
                LockStep::Retry
            }
        },
        Created::Failed => LockStep::Lost,
    }
}

/// While the owner of the lock lives, no other command starts a daemon; and a
/// second attempt is the last.
pub proof fn law_one_starter(created: Created, owner_alive: bool, second: bool)
    ensures
        created == Created::Exists && owner_alive ==> lock_decision(created, owner_alive, second)
            == LockStep::Lost,
        second ==> lock_decision(created, owner_alive, second) != LockStep::Retry,
{
}

/// Whether an entry that is found while waiting is worth connecting to: one
/// that was there before the daemon was started is not.
pub open spec fn fresh(before: Option<DaemonEntry>, seen: Option<DaemonEntry>) -> bool {
    seen matches Some(e) && !(before matches Some(b) && b@ == e@)
}

pub fn fresh_entry(before: &Option<DaemonEntry>, seen: &Option<DaemonEntry>) -> (r: bool)
    ensures
        r == fresh(*before, *seen),
{
    match seen {
        Some(e) => match before {
            Some(b) => {
                let same_entry = b.port == e.port && b.pid == e.pid && same(
                    b.token.as_str(),
                    e.token.as_str(),
                ) && same(b.started_at.as_str(), e.started_at.as_str());
                assert(same_entry == (b@ =~= e@));
                !same_entry
            },
            None => true,
        },
        None => false,
    }
}

/// What follows one look at the discovery file.
#[derive(Debug, Clone, Copy, PartialEq, Eq, Structural)]
pub enum StartStep {
    Connected,
    Again,
    GaveUp,
}

/// Decides after the `tries`-th look, given whether a connection came about.
pub fn start_step(tries: u32, connected: bool) -> (r: StartStep)
    ensures
        r == (if connected {
            StartStep::Connected
        } else if tries < AUTOSTART_TRIES {
            StartStep::Again
        } else {
            StartStep::GaveUp
        }),
{
    if connected {
        StartStep::Connected
    } else if tries < AUTOSTART_TRIES {
        StartStep::Again
    } else {
        StartStep::GaveUp
    }
}

/// What is said of a daemon that was started and never answered.
pub fn start_failed() -> (m: String)
    ensures
        m@ == "daemon auto-iniciado não respondeu em 5s"@,
{
    "daemon auto-iniciado não respondeu em 5s".to_owned()
}

// ---------------------------------------------------------------- laws

/// What a client asks the daemon to call is what the daemon calls: the method,
/// the parameters and the time it may take.
pub proof fn law_call_passes_through(rpc: Seq<char>, params: JsonView, timeout_secs: u64)
    ensures
        call_rpc(call_json(rpc, params, timeout_secs)) == rpc,
        call_params(call_json(rpc, params, timeout_secs)) == params,
        call_timeout(call_json(rpc, params, timeout_secs)) == timeout_secs,
{
    reveal_strlit("rpc");
    reveal_strlit("params");
    reveal_strlit("timeout_secs");
    assert("rpc"@.len() == 3 && "params"@.len() == 6 && "timeout_secs"@.len() == 12);
}

/// From end to end: a call that a client sends is the call that is made.
pub proof fn law_call_is_made_as_asked(
    line: Seq<char>,
    m: ClientMsgView,
    rpc: Seq<char>,
    params: JsonView,
    timeout: u64,
    workspace: Seq<char>,
    workspaces: Seq<Seq<char>>,
    uptime_secs: u64,
    version: Seq<char>,
    step: RequestStep,
)
    requires
        client_msg_of_line(line) == Some(m),
        m.method == "call"@,
        m.params == call_json(rpc, params, timeout),
        workspace.len() > 0,
        asks_for(line, workspace, workspaces, uptime_secs, version, step),
    ensures
        step matches RequestStep::Call { id, rpc: r, params: p, timeout_secs } && id == m.id && r@
            == rpc && p@ == params && timeout_secs == timeout,
{
    law_call_passes_through(rpc, params, timeout);
}

/// An event that a client reads has the method and the parameters that the
/// daemon put on the line.
pub proof fn law_event_reads_back(method: Seq<char>, params: JsonView)
    ensures
        event_method(event_json(method, params)) == method,
        event_params(event_json(method, params)) == params,
{
    reveal_strlit("method");
    reveal_strlit("params");
    assert("method"@.len() == 6 && "params"@.len() == 6);
    assert("method"@[0] != "params"@[0]);
}

/// An answer is read as it was given: under its number, with its result or with
/// its reason.
pub proof fn law_answer_is_read(line: Seq<char>, n: u64, value: JsonView, message: Seq<char>, code: Option<i64>, c: ClientLine)
    requires
        client_reads(line, c),
    ensures
        answers_ok(line, n, value) ==> (c matches ClientLine::Answer { id, result: Ok(v) } && id == n
            && v@ == value),
        answers_err(line, n, message, code) ==> (c matches ClientLine::Answer {
            id,
            result: Err(RuntimeError::Rpc(RpcError::Server { code: x, message: t })),
        } && id == n && t@ == message && (code matches Some(y) ==> x == y)),
{
}

/// The owner of a lock reads back as it was written.
pub proof fn law_lock_owner_reads_back(pid: u32)
    ensures
        lock_owner(Some(dec(pid as nat))) == Some(pid as nat),
        lock_owner(None) is None,
{
    law_decimal_reads_back(pid as nat, u32::MAX as nat);
    let s = dec(pid as nat);
    assert(is_digit(s[0]) && is_digit(s[s.len() - 1]));
    lemma_trim_solid(s);
}

/// Who made the lock starts the daemon; a lock of a dead owner is tried once
/// more, and then given up.
pub proof fn law_lock(created: Created, owner_alive: bool, second: bool)
    ensures
        lock_decision(created, owner_alive, second) == LockStep::Won <==> created == Created::Made,
        lock_decision(created, owner_alive, second) == LockStep::Retry <==> created
            == Created::Exists && !owner_alive && !second,
{
}

/// Only an entry that was not there before is the one of a daemon just started.
pub proof fn law_fresh(before: DaemonEntry, seen: DaemonEntry)
    ensures
        !fresh(Some(before), Some(before)),
        fresh(None, Some(seen)),
        !fresh(Some(before), None),
        fresh(Some(before), Some(seen)) <==> before@ != seen@,
{
}

} // verus!
