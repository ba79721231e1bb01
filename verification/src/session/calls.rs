//! The requests that drive a session: parameters, methods and time limits.

use crate::config::{bad_model_text, model_ref, split_model_ref};
use crate::json::{no_fields, Json, JsonView};
use crate::session::SessionError;
use crate::text::{contains, group_contains, same};
use vstd::prelude::*;

verus! {

/// Parameters that name a session and nothing else.
pub open spec fn sid_view(session_id: Seq<char>) -> JsonView {
    no_fields().put("sessionId"@, JsonView::Str(session_id))
}

fn sid_params(session_id: &str) -> (r: Json)
    ensures
        r@ == sid_view(session_id@),
{
    Json::object().with("sessionId", Json::text(session_id))
}

pub open spec fn create_view(workspace: Seq<char>) -> JsonView {
    no_fields().put(
        "workspace"@,
        no_fields().put("workspacePath"@, JsonView::Str(workspace)).put(
            "workspaceKey"@,
            JsonView::Str(workspace),
        ),
    )
}

pub fn create_params(workspace: &str) -> (r: Json)
    ensures
        r@ == create_view(workspace@),
{
    Json::object().with(
        "workspace",
        Json::object().with("workspacePath", Json::text(workspace)).with(
            "workspaceKey",
            Json::text(workspace),
        ),
    )
}

pub open spec fn send_view(session_id: Seq<char>, content: Seq<char>) -> JsonView {
    sid_view(session_id).put("content"@, JsonView::Str(content))
}

/// The prompt travels under `content`.
pub fn send_params(session_id: &str, content: &str) -> (r: Json)
    ensures
        r@ == send_view(session_id@, content@),
{
    sid_params(session_id).with("content", Json::text(content))
}

pub fn messages_params(session_id: &str) -> (r: Json)
    ensures
        r@ == sid_view(session_id@),
{
    sid_params(session_id)
}

pub open spec fn list_view(limit: u32) -> JsonView {
    no_fields().put("limit"@, JsonView::Int(limit as int))
}

pub fn list_params(limit: u32) -> (r: Json)
    ensures
        r@ == list_view(limit),
{
    Json::object().with("limit", Json::Unsigned(limit as u64))
}

pub fn usage_params(session_id: &str) -> (r: Json)
    ensures
        r@ == sid_view(session_id@),
{
    sid_params(session_id)
}

pub open spec fn set_model_view(
    session_id: Seq<char>,
    provider_id: Seq<char>,
    model_id: Seq<char>,
) -> JsonView {
    sid_view(session_id).put(
        "model"@,
        no_fields().put("providerId"@, JsonView::Str(provider_id)).put(
            "modelId"@,
            JsonView::Str(model_id),
        ),
    )
}

/// The model is an object, never a text.
pub fn set_model_params(session_id: &str, provider_id: &str, model_id: &str) -> (r: Json)
    ensures
        r@ == set_model_view(session_id@, provider_id@, model_id@),
{
    sid_params(session_id).with(
        "model",
        Json::object().with("providerId", Json::text(provider_id)).with(
            "modelId",
            Json::text(model_id),
        ),
    )
}

pub open spec fn set_mode_view(session_id: Seq<char>, mode: Seq<char>) -> JsonView {
    sid_view(session_id).put("mode"@, JsonView::Str(mode))
}

pub fn set_mode_params(session_id: &str, mode: &str) -> (r: Json)
    ensures
        r@ == set_mode_view(session_id@, mode@),
{
    sid_params(session_id).with("mode", Json::text(mode))
}

pub open spec fn set_thought_view(session_id: Seq<char>, level: Seq<char>) -> JsonView {
    sid_view(session_id).put("thoughtLevel"@, JsonView::Str(level))
}

pub fn set_thought_params(session_id: &str, level: &str) -> (r: Json)
    ensures
        r@ == set_thought_view(session_id@, level@),
{
    sid_params(session_id).with("thoughtLevel", Json::text(level))
}

pub fn resume_params(session_id: &str) -> (r: Json)
    ensures
        r@ == sid_view(session_id@),
{
    sid_params(session_id)
}

pub fn stop_params(session_id: &str) -> (r: Json)
    ensures
        r@ == sid_view(session_id@),
{
    sid_params(session_id)
}

pub fn close_params(session_id: &str) -> (r: Json)
    ensures
        r@ == sid_view(session_id@),
{
    sid_params(session_id)
}

pub fn fork_params(session_id: &str) -> (r: Json)
    ensures
        r@ == sid_view(session_id@),
{
    sid_params(session_id)
}

/// Compaction takes the session and nothing else.
pub fn compact_params(session_id: &str) -> (r: Json)
    ensures
        r@ == sid_view(session_id@),
{
    sid_params(session_id)
}

pub open spec fn goal_view(session_id: Seq<char>, action: Seq<char>) -> JsonView {
    sid_view(session_id).put("action"@, JsonView::Str(action))
}

pub fn goal_params(session_id: &str, action: &str) -> (r: Json)
    ensures
        r@ == goal_view(session_id@, action@),
{
    sid_params(session_id).with("action", Json::text(action))
}

pub open spec fn subscribe_view(session_id: Seq<char>) -> JsonView {
    sid_view(session_id).put("deliveryKind"@, JsonView::Str("desktop-continuous"@))
}

/// Parameters of a subscription: the server refuses one without its delivery
/// kind.
pub fn tui_subscribe_params(session_id: &str) -> (r: Json)
    ensures
        r@ == subscribe_view(session_id@),
{
    sid_params(session_id).with("deliveryKind", Json::text("desktop-continuous"))
}

// ---------------------------------------------------------------- validation

pub open spec fn goal_action_known(action: Seq<char>) -> bool {
    ||| action == "show"@
    ||| action == "set"@
    ||| action == "replace"@
    ||| action == "pause"@
    ||| action == "resume"@
    ||| action == "clear"@
}

pub open spec fn mode_known(mode: Seq<char>) -> bool {
    mode == "plan"@ || mode == "build"@ || mode == "edit"@ || mode == "yolo"@
}

pub open spec fn thought_known(level: Seq<char>) -> bool {
    level == "low"@ || level == "high"@ || level == "max"@
}

/// A refusal with a given message.
pub open spec fn refuses<T>(r: Result<T, SessionError>, message: Seq<char>) -> bool {
    r matches Err(SessionError::Protocol(m)) && m@ == message
}

pub open spec fn bad_goal_text(action: Seq<char>) -> Seq<char> {
    "goal action inválida '"@ + action + "': use show|set|replace|pause|resume|clear"@
}

pub open spec fn bad_mode_text(mode: Seq<char>) -> Seq<char> {
    "mode inválido '"@ + mode + "': use plan|build|edit|yolo"@
}

pub open spec fn bad_thought_text(level: Seq<char>) -> Seq<char> {
    "thought-level inválido '"@ + level + "': use low|high|max"@
}

pub fn validate_goal_action(action: &str) -> (r: Result<(), SessionError>)
    ensures
        r is Ok <==> goal_action_known(action@),
        r is Err ==> refuses(r, bad_goal_text(action@)),
{
    if same(action, "show") || same(action, "set") || same(action, "replace") || same(
        action,
        "pause",
    ) || same(action, "resume") || same(action, "clear") {
        Ok(())
    } else {
        let mut m = "goal action inválida '".to_owned();
        m.append(action);
        m.append("': use show|set|replace|pause|resume|clear");
        Err(SessionError::Protocol(m))
    }
}

pub fn validate_mode(mode: &str) -> (r: Result<(), SessionError>)
    ensures
        r is Ok <==> mode_known(mode@),
        r is Err ==> refuses(r, bad_mode_text(mode@)),
{
    if same(mode, "plan") || same(mode, "build") || same(mode, "edit") || same(mode, "yolo") {
        Ok(())
    } else {
        let mut m = "mode inválido '".to_owned();
        m.append(mode);
        m.append("': use plan|build|edit|yolo");
        Err(SessionError::Protocol(m))
    }
}

pub fn validate_thought(level: &str) -> (r: Result<(), SessionError>)
    ensures
        r is Ok <==> thought_known(level@),
        r is Err ==> refuses(r, bad_thought_text(level@)),
{
    if same(level, "low") || same(level, "high") || same(level, "max") {
        Ok(())
    } else {
        let mut m = "thought-level inválido '".to_owned();
        m.append(level);
        m.append("': use low|high|max");
        Err(SessionError::Protocol(m))
    }
}

// ---------------------------------------------------------------- calls

/// One call to the runtime.
pub struct Call {
    pub method: String,
    pub params: Json,
    pub timeout_secs: u64,
}

impl Call {
    /// The call of a method with given parameters and time limit.
    pub open spec fn is(&self, method: Seq<char>, params: JsonView, timeout_secs: u64) -> bool {
        self.method@ == method && self.params@ == params && self.timeout_secs == timeout_secs
    }
}

fn make_call(method: &str, params: Json, timeout_secs: u64) -> (c: Call)
    ensures
        c.is(method@, params@, timeout_secs),
{
    Call { method: method.to_owned(), params, timeout_secs }
}

pub fn create_session(workspace: &str) -> (c: Call)
    ensures
        c.is("session/create"@, create_view(workspace@), 60),
        c.params@.get2("workspace"@, "workspacePath"@) == Some(JsonView::Str(workspace@)),
{
    proof {
        law_calls_carry_their_values(workspace@, workspace@, workspace@, workspace@, 0);
    }
    make_call("session/create", create_params(workspace), 60)
}

pub fn send_message(session_id: &str, content: &str) -> (c: Call)
    ensures
        c.is("session/send"@, send_view(session_id@, content@), 120),
        c.params@.text_at("sessionId"@) == Some(session_id@),
        c.params@.text_at("content"@) == Some(content@),
{
    proof {
        law_calls_name_their_session(session_id@, content@, session_id@, session_id@);
        law_calls_carry_their_values(session_id@, content@, content@, content@, 0);
    }
    make_call("session/send", send_params(session_id, content), 120)
}

pub fn fetch_messages(session_id: &str) -> (c: Call)
    ensures
        c.is("session/messages"@, sid_view(session_id@), 30),
        c.params@.text_at("sessionId"@) == Some(session_id@),
{
    proof {
        law_calls_name_their_session(session_id@, session_id@, session_id@, session_id@);
    }
    make_call("session/messages", messages_params(session_id), 30)
}

pub fn list_sessions(limit: u32) -> (c: Call)
    ensures
        c.is("session/list"@, list_view(limit), 30),
{
    make_call("session/list", list_params(limit), 30)
}

pub fn fetch_usage(session_id: &str) -> (c: Call)
    ensures
        c.is("session/usage"@, sid_view(session_id@), 30),
        c.params@.text_at("sessionId"@) == Some(session_id@),
{
    proof {
        law_calls_name_their_session(session_id@, session_id@, session_id@, session_id@);
    }
    make_call("session/usage", usage_params(session_id), 30)
}

pub fn resume_session(session_id: &str) -> (c: Call)
    ensures
        c.is("session/resume"@, sid_view(session_id@), 60),
        c.params@.text_at("sessionId"@) == Some(session_id@),
{
    proof {
        law_calls_name_their_session(session_id@, session_id@, session_id@, session_id@);
    }
    make_call("session/resume", resume_params(session_id), 60)
}

pub fn fork_session(session_id: &str) -> (c: Call)
    ensures
        c.is("session/fork"@, sid_view(session_id@), 60),
        c.params@.text_at("sessionId"@) == Some(session_id@),
{
    proof {
        law_calls_name_their_session(session_id@, session_id@, session_id@, session_id@);
    }
    make_call("session/fork", fork_params(session_id), 60)
}

pub fn subscribe_session(session_id: &str) -> (c: Call)
    ensures
        c.is("session/subscribe"@, subscribe_view(session_id@), 15),
        c.params@.text_at("sessionId"@) == Some(session_id@),
{
    proof {
        law_calls_name_their_session(session_id@, session_id@, session_id@, session_id@);
    }
    make_call("session/subscribe", tui_subscribe_params(session_id), 15)
}

pub fn close_session(session_id: &str) -> (c: Call)
    ensures
        c.is("session/close"@, sid_view(session_id@), 5),
        c.params@.text_at("sessionId"@) == Some(session_id@),
{
    proof {
        law_calls_name_their_session(session_id@, session_id@, session_id@, session_id@);
    }
    make_call("session/close", close_params(session_id), 5)
}

/// Stops the running turn.
pub fn stop_turn(session_id: &str) -> (c: Call)
    ensures
        c.is("session/stop"@, sid_view(session_id@), 15),
        c.params@.text_at("sessionId"@) == Some(session_id@),
{
    proof {
        law_calls_name_their_session(session_id@, session_id@, session_id@, session_id@);
    }
    make_call("session/stop", stop_params(session_id), 15)
}

/// Stops the running turn after an interrupt of the prompt loop.
pub fn interrupt_turn(session_id: &str) -> (c: Call)
    ensures
        c.is("session/stop"@, sid_view(session_id@), 10),
        c.params@.text_at("sessionId"@) == Some(session_id@),
{
    proof {
        law_calls_name_their_session(session_id@, session_id@, session_id@, session_id@);
    }
    make_call("session/stop", stop_params(session_id), 10)
}

pub fn compact_session(session_id: &str) -> (c: Call)
    ensures
        c.is("session/compact"@, sid_view(session_id@), 120),
        c.params@.text_at("sessionId"@) == Some(session_id@),
{
    proof {
        law_calls_name_their_session(session_id@, session_id@, session_id@, session_id@);
    }
    make_call("session/compact", compact_params(session_id), 120)
}

/// Sets the model: only a reference with a provider and a model makes a call.
pub fn apply_model(session_id: &str, model: &str) -> (r: Result<Call, SessionError>)
    ensures
        match model_ref(model@) {
            Some((p, m)) => r matches Ok(c) && c.is(
                "session/setModel"@,
                set_model_view(session_id@, p, m),
                30,
            ),
            None => r matches Err(SessionError::Config(m)) && m@ == bad_model_text(model@),
        },
{
    match split_model_ref(model) {
        Ok((p, m)) => Ok(
            make_call("session/setModel", set_model_params(session_id, p.as_str(), m.as_str()), 30),
        ),
        Err(e) => Err(SessionError::Config(e.to_text())),
    }
}

/// Sets the permission mode: only a known one makes a call.
pub fn apply_mode(session_id: &str, mode: &str) -> (r: Result<Call, SessionError>)
    ensures
        mode_known(mode@) ==> (r matches Ok(c) && c.is(
            "session/setMode"@,
            set_mode_view(session_id@, mode@),
            30,
        )),
        !mode_known(mode@) ==> refuses(r, bad_mode_text(mode@)),
{
    match validate_mode(mode) {
        Ok(()) => Ok(make_call("session/setMode", set_mode_params(session_id, mode), 30)),
        Err(e) => Err(e),
    }
}

/// Sets the level of thought: only a known one makes a call.
pub fn apply_thought(session_id: &str, level: &str) -> (r: Result<Call, SessionError>)
    ensures
        thought_known(level@) ==> (r matches Ok(c) && c.is(
            "session/setThoughtLevel"@,
            set_thought_view(session_id@, level@),
            30,
        )),
        !thought_known(level@) ==> refuses(r, bad_thought_text(level@)),
{
    match validate_thought(level) {
        Ok(()) => Ok(make_call("session/setThoughtLevel", set_thought_params(session_id, level), 30)),
        Err(e) => Err(e),
    }
}

pub open spec fn goal_text_needed() -> Seq<char> {
    "goal set/replace exigem campo de texto ainda não verificado no servidor — sem invenção (sonda futura)"@
}

/// Reads or controls the goal: of the known actions, those that would need a
/// text make no call.
pub fn goal_action(session_id: &str, action: &str) -> (r: Result<Call, SessionError>)
    ensures
        !goal_action_known(action@) ==> refuses(r, bad_goal_text(action@)),
        action@ == "set"@ || action@ == "replace"@ ==> refuses(r, goal_text_needed()),
        goal_action_known(action@) && action@ != "set"@ && action@ != "replace"@ ==> (
        r matches Ok(c) && c.is("session/goal"@, goal_view(session_id@, action@), 30)),
{
    match validate_goal_action(action) {
        Ok(()) => {},
        Err(e) => {
            return Err(e);
        },
    }
    if same(action, "set") || same(action, "replace") {
        return Err(
            SessionError::Protocol(
                "goal set/replace exigem campo de texto ainda não verificado no servidor — sem invenção (sonda futura)".to_owned(),
            ),
        );
    }
    Ok(make_call("session/goal", goal_params(session_id, action), 30))
}

// ---------------------------------------------------------------- laws

/// A call about a session names that session, whatever else it carries.
pub proof fn law_calls_name_their_session(
    sid: Seq<char>,
    content: Seq<char>,
    provider: Seq<char>,
    model: Seq<char>,
)
    ensures
        sid_view(sid).text_at("sessionId"@) == Some(sid),
        send_view(sid, content).text_at("sessionId"@) == Some(sid),
        set_model_view(sid, provider, model).text_at("sessionId"@) == Some(sid),
        set_mode_view(sid, content).text_at("sessionId"@) == Some(sid),
        set_thought_view(sid, content).text_at("sessionId"@) == Some(sid),
        goal_view(sid, content).text_at("sessionId"@) == Some(sid),
        subscribe_view(sid).text_at("sessionId"@) == Some(sid),
{
    reveal_strlit("sessionId");
    reveal_strlit("content");
    reveal_strlit("model");
    reveal_strlit("mode");
    reveal_strlit("thoughtLevel");
    reveal_strlit("action");
    reveal_strlit("deliveryKind");
    assert("sessionId"@.len() == 9 && "content"@.len() == 7 && "model"@.len() == 5 && "mode"@.len() == 4 && "thoughtLevel"@.len() == 12 && "action"@.len() == 6 && "deliveryKind"@.len() == 12);
    assert("thoughtLevel"@[0] != "deliveryKind"@[0]);
}

/// A call carries what it was asked to carry: the message of a turn, the two
/// halves of a model, a mode, a thought level, a goal action, a workspace under
/// both of its names, a limit.
pub proof fn law_calls_carry_their_values(
    sid: Seq<char>,
    value: Seq<char>,
    provider: Seq<char>,
    model: Seq<char>,
    limit: u32,
)
    ensures
        send_view(sid, value).text_at("content"@) == Some(value),
        set_mode_view(sid, value).text_at("mode"@) == Some(value),
        set_thought_view(sid, value).text_at("thoughtLevel"@) == Some(value),
        goal_view(sid, value).text_at("action"@) == Some(value),
        set_model_view(sid, provider, model).get2("model"@, "providerId"@) == Some(
            JsonView::Str(provider),
        ),
        set_model_view(sid, provider, model).get2("model"@, "modelId"@) == Some(
            JsonView::Str(model),
        ),
        create_view(value).get2("workspace"@, "workspacePath"@) == Some(JsonView::Str(value)),
        create_view(value).get2("workspace"@, "workspaceKey"@) == Some(JsonView::Str(value)),
        list_view(limit).unsigned_at("limit"@) == Some(limit as u64),
{
    reveal_strlit("providerId");
    reveal_strlit("modelId");
    reveal_strlit("workspacePath");
    reveal_strlit("workspaceKey");
    assert("providerId"@.len() == 10 && "modelId"@.len() == 7 && "workspacePath"@.len() == 13 && "workspaceKey"@.len() == 12);
}

/// Two calls are the same only where the session and what they carry are.
pub proof fn law_calls_tell_apart(
    sid: Seq<char>,
    value: Seq<char>,
    other_sid: Seq<char>,
    other_value: Seq<char>,
)
    ensures
        send_view(sid, value) == send_view(other_sid, other_value) ==> sid == other_sid && value
            == other_value,
        set_mode_view(sid, value) == set_mode_view(other_sid, other_value) ==> sid == other_sid
            && value == other_value,
        sid_view(sid) == sid_view(other_sid) ==> sid == other_sid,
        create_view(value) == create_view(other_value) ==> value == other_value,
{
    law_calls_name_their_session(sid, value, value, value);
    law_calls_name_their_session(other_sid, other_value, other_value, other_value);
    law_calls_carry_their_values(sid, value, value, value, 0);
    law_calls_carry_their_values(other_sid, other_value, other_value, other_value, 0);
}

/// The words that the server knows, and no others.
pub proof fn law_known_words(w: Seq<char>)
    ensures
        mode_known(w) <==> seq!["plan"@, "build"@, "edit"@, "yolo"@].contains(w),
        thought_known(w) <==> seq!["low"@, "high"@, "max"@].contains(w),
        goal_action_known(w) <==> seq![
            "show"@,
            "set"@,
            "replace"@,
            "pause"@,
            "resume"@,
            "clear"@,
        ].contains(w),
{
    let m = seq!["plan"@, "build"@, "edit"@, "yolo"@];
    assert(m[0] == "plan"@ && m[1] == "build"@ && m[2] == "edit"@ && m[3] == "yolo"@);
    let t = seq!["low"@, "high"@, "max"@];
    assert(t[0] == "low"@ && t[1] == "high"@ && t[2] == "max"@);
    let g = seq!["show"@, "set"@, "replace"@, "pause"@, "resume"@, "clear"@];
    assert(g[0] == "show"@ && g[1] == "set"@ && g[2] == "replace"@ && g[3] == "pause"@ && g[4]
        == "resume"@ && g[5] == "clear"@);
}

/// A word that is refused is told.
pub proof fn law_refusals_tell_the_word(w: Seq<char>)
    ensures
        contains(bad_mode_text(w), w),
        contains(bad_thought_text(w), w),
        contains(bad_goal_text(w), w),
{
    broadcast use group_contains;

}

} // verus!
