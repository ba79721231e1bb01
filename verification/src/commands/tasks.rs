//! Requests that the terminal interface makes in the background: which call
//! each is, and what its outcome reports.

use crate::commands::tui::UiUpdate;
use crate::commands::{model_plan, mode_plan, planned, thought_plan, CmdError, Planned};
use crate::commands::poll::runtime_exited_info;
use crate::config::model_ref;
use crate::json::{pretty_of_json, write_json_pretty, Json, JsonView};
use crate::notices::{
    boot_fail_text, dead_banner, fork_hint, fork_no_checkpoint_hint, runtime_dead_banner, session_boot_fail_notice,
};
use crate::runtime::RuntimeError;
use crate::session::calls::{
    apply_mode, apply_model, apply_thought, bad_goal_text, compact_session, create_session, create_view,
    fetch_usage, fork_session, goal_action, goal_action_known, goal_text_needed, goal_view,
    law_calls_carry_their_values, law_calls_name_their_session, list_sessions, list_view, mode_known,
    resume_session, sid_view, stop_turn, subscribe_session, subscribe_view, thought_known, Call,
};
use crate::session::extract::{
    effective_model, effective_model_text, extract_session_id, parse_usage, session_id_of, usage_of,
};
use crate::session::history::{HistoryEntry, HistoryEntryView};
use crate::session::SessionError;
use crate::text::{blank, contains, group_contains, trim};
use vstd::prelude::*;

verus! {

/// How many sessions the picker asks for.
pub const SESSION_PICKER_LIMIT: u32 = 50;

/// A request in the background.
pub enum Task {
    /// The usage of the session; `notice`: also as a message.
    Usage { notice: bool },
    Sessions,
    /// Turn to another session; `quente`: it may still be warm.
    Switch { id: String, quente: bool },
    Create,
    Compact,
    /// Stop the turn; `say`: success is told too.
    Stop { say: bool },
    Mode { mode: String },
    Model { model: String },
    Thought { level: String },
    Fork { id: String },
    Goal { action: String },
}

pub open spec fn goal_plan(sid: Seq<char>, action: Seq<char>) -> Planned {
    if !goal_action_known(action) {
        Planned::Refused("protocolo: "@ + bad_goal_text(action))
    } else if action == "set"@ || action == "replace"@ {
        Planned::Refused("protocolo: "@ + goal_text_needed())
    } else {
        Planned::Made { method: "session/goal"@, params: goal_view(sid, action), timeout_secs: 30 }
    }
}

/// The call of a task, in the session `sid` of the workspace `ws`.
pub open spec fn task_plan(task: Task, sid: Seq<char>, ws: Seq<char>) -> Planned {
    match task {
        Task::Usage { notice } => Planned::Made {
            method: "session/usage"@,
            params: sid_view(sid),
            timeout_secs: 30,
        },
        Task::Sessions => Planned::Made {
            method: "session/list"@,
            params: list_view(SESSION_PICKER_LIMIT),
            timeout_secs: 30,
        },
        Task::Switch { id, quente } => Planned::Made {
            method: "session/resume"@,
            params: sid_view(id@),
            timeout_secs: 60,
        },
        Task::Create => Planned::Made {
            method: "session/create"@,
            params: create_view(ws),
            timeout_secs: 60,
        },
        Task::Compact => Planned::Made {
            method: "session/compact"@,
            params: sid_view(sid),
            timeout_secs: 120,
        },
        Task::Stop { say } => Planned::Made {
            method: "session/stop"@,
            params: sid_view(sid),
            timeout_secs: 15,
        },
        Task::Mode { mode } => mode_plan(sid, mode@),
        Task::Model { model } => model_plan(sid, model@),
        Task::Thought { level } => thought_plan(sid, level@),
        Task::Fork { id } => Planned::Made {
            method: "session/fork"@,
            params: sid_view(id@),
            timeout_secs: 60,
        },
        Task::Goal { action } => goal_plan(sid, action@),
    }
}

pub fn task_call(task: &Task, sid: &str, ws: &str) -> (r: Result<Call, SessionError>)
    ensures
        planned(r) == task_plan(*task, sid@, ws@),
{
    match task {
        Task::Usage { notice: _ } => Ok(fetch_usage(sid)),
        Task::Sessions => Ok(list_sessions(SESSION_PICKER_LIMIT)),
        Task::Switch { id, quente: _ } => Ok(resume_session(id.as_str())),
        Task::Create => Ok(create_session(ws)),
        Task::Compact => Ok(compact_session(sid)),
        Task::Stop { say: _ } => Ok(stop_turn(sid)),
        Task::Mode { mode } => apply_mode(sid, mode.as_str()),
        Task::Model { model } => apply_model(sid, model.as_str()),
        Task::Thought { level } => apply_thought(sid, level.as_str()),
        Task::Fork { id } => Ok(fork_session(id.as_str())),
        Task::Goal { action } => goal_action(sid, action.as_str()),
    }
}

/// The text of an error of the call: as one of a session, but for a switch and
/// a fork, which are calls of the runtime itself.
pub fn task_error(task: &Task, e: &RuntimeError) -> (r: String)
    ensures
        r@ == if *task is Switch || *task is Fork {
            e.text()
        } else {
            "runtime: "@ + e.text()
        },
{
    let t = e.to_text();
    match task {
        Task::Switch { id: _, quente: _ } => t,
        Task::Fork { id: _ } => t,
        _ => {
            let mut s = "runtime: ".to_owned();
            s.append(t.as_str());
            s
        },
    }
}

/// The subscription that follows a new or resumed session.
pub fn task_subscription(task: &Task, result: &Json) -> (r: Option<Call>)
    ensures
        match *task {
            Task::Create => r matches Some(c) && c.is(
                "session/subscribe"@,
                subscribe_view(
                    match session_id_of(result@) {
                        Some(s) => s,
                        None => Seq::empty(),
                    },
                ),
                15,
            ),
            Task::Switch { id, quente } => r matches Some(c) && c.is(
                "session/subscribe"@,
                subscribe_view(
                    match session_id_of(result@) {
                        Some(s) => s,
                        None => id@,
                    },
                ),
                15,
            ),
            _ => r is None,
        },
        (*task is Create || *task is Switch) && session_id_of(result@) is Some ==> (r matches Some(
            c,
        ) && c.params@.text_at("sessionId"@) == session_id_of(result@)),
        *task is Switch && session_id_of(result@) is None ==> (r matches Some(c)
            && c.params@.text_at("sessionId"@) == Some(task->Switch_id@)),
{
    proof {
        match session_id_of(result@) {
            Some(s) => law_calls_name_their_session(s, s, s, s),
            None => if *task is Switch {
                let s = task->Switch_id@;
                law_calls_name_their_session(s, s, s, s);
            },
        }
    }
    match task {
        Task::Create => {
            let sid = match extract_session_id(result) {
                Some(s) => s,
                None => String::new(),
            };
            Some(subscribe_session(sid.as_str()))
        },
        Task::Switch { id, quente: _ } => {
            let sid = match extract_session_id(result) {
                Some(s) => s,
                None => id.clone(),
            };
            Some(subscribe_session(sid.as_str()))
        },
        _ => None,
    }
}

pub open spec fn says(u: Option<UiUpdate>, text: Seq<char>) -> bool {
    u matches Some(UiUpdate::Notice(s)) && s@ == text
}

/// What a task reports when its call was answered with `v`.
pub open spec fn reports_ok(task: Task, v: JsonView, u: Option<UiUpdate>) -> bool {
    match task {
        Task::Usage { notice } => u matches Some(UiUpdate::Usage { usage, notice: n }) && usage
            == usage_of(v) && n == notice,
        Task::Sessions => u matches Some(UiUpdate::SessionsLoaded { res: Ok(w) }) && w@ == v,
        Task::Switch { id, quente } => u matches Some(
            UiUpdate::ResumedSession { resumed, sid, model, quente: q },
        ) && resumed@ == v && sid@ == (match session_id_of(v) {
            Some(s) => s,
            None => id@,
        }) && model@ == effective_model_text(v) && q == quente,
        Task::Create => u matches Some(UiUpdate::NewSession { created, sid, model }) && created@ == v
            && sid@ == (match session_id_of(v) {
            Some(s) => s,
            None => Seq::empty(),
        }) && model@ == effective_model_text(v),
        Task::Compact => says(u, "(sessão compactada.)"@),
        Task::Stop { say } => if say {
            says(u, "(turn parado — prompt limpo.)"@)
        } else {
            u is None
        },
        Task::Mode { mode } => u is None,
        Task::Model { model } => u is None,
        Task::Thought { level } => u is None,
        Task::Fork { id } => says(
            u,
            "fork: "@ + id@ + " → "@ + (match session_id_of(v) {
                Some(s) => s,
                None => Seq::empty(),
            }),
        ),
        Task::Goal { action } => says(u, pretty_of_json(v)),
    }
}

/// What a task reports when its call failed with `e`.
pub open spec fn reports_err(task: Task, e: Seq<char>, u: Option<UiUpdate>) -> bool {
    match task {
        Task::Usage { notice } => says(u, "usage falhou: "@ + e),
        Task::Sessions => u matches Some(UiUpdate::SessionsLoaded { res: Err(m) }) && m@ == e,
        Task::Switch { id, quente } => says(u, "resume falhou: "@ + e),
        Task::Create => says(u, "new falhou: "@ + e),
        Task::Compact => says(u, "compact falhou: "@ + e),
        Task::Stop { say } => says(u, "stop falhou: "@ + e),
        Task::Mode { mode } => says(u, "mode falhou: "@ + e),
        Task::Model { model } => says(
            u,
            "model falhou: "@ + e + " (R3: ao vivo só zai/glm-5.3-Flash existe)"@,
        ),
        Task::Thought { level } => says(u, "thought falhou: "@ + e),
        Task::Fork { id } => says(u, "fork falhou: "@ + e + ". "@ + fork_hint()),
        Task::Goal { action } => says(u, "goal falhou: "@ + e),
    }
}

fn failed_notice(what: &str, e: &str) -> (r: UiUpdate)
    ensures
        says(Some(r), what@ + e@),
{
    let mut s = what.to_owned();
    s.append(e);
    UiUpdate::Notice(s)
}

fn task_failed(task: &Task, e: &str) -> (r: Option<UiUpdate>)
    ensures
        reports_err(*task, e@, r),
{
    let u = match task {
        Task::Usage { notice: _ } => failed_notice("usage falhou: ", e),
        Task::Sessions => UiUpdate::SessionsLoaded { res: Err(e.to_owned()) },
        Task::Switch { id: _, quente: _ } => failed_notice("resume falhou: ", e),
        Task::Create => failed_notice("new falhou: ", e),
        Task::Compact => failed_notice("compact falhou: ", e),
        Task::Stop { say: _ } => failed_notice("stop falhou: ", e),
        Task::Mode { mode: _ } => failed_notice("mode falhou: ", e),
        Task::Model { model: _ } => {
            let mut s = "model falhou: ".to_owned();
            s.append(e);
            s.append(" (R3: ao vivo só zai/glm-5.3-Flash existe)");
            UiUpdate::Notice(s)
        },
        Task::Thought { level: _ } => failed_notice("thought falhou: ", e),
        Task::Fork { id: _ } => {
            let mut s = "fork falhou: ".to_owned();
            s.append(e);
            s.append(". ");
            let h = fork_no_checkpoint_hint();
            s.append(h.as_str());
            UiUpdate::Notice(s)
        },
        Task::Goal { action: _ } => failed_notice("goal falhou: ", e),
    };
    Some(u)
}

fn task_answered(task: &Task, v: Json) -> (r: Option<UiUpdate>)
    ensures
        reports_ok(*task, v@, r),
{
    match task {
        Task::Usage { notice } => Some(
            UiUpdate::Usage { usage: parse_usage(&v), notice: *notice },
        ),
        Task::Sessions => Some(UiUpdate::SessionsLoaded { res: Ok(v) }),
        Task::Switch { id, quente } => {
            let sid = match extract_session_id(&v) {
                Some(s) => s,
                None => id.clone(),
            };
            let model = effective_model(&v);
            Some(UiUpdate::ResumedSession { resumed: v, sid, model, quente: *quente })
        },
        Task::Create => {
            let sid = match extract_session_id(&v) {
                Some(s) => s,
                None => String::new(),
            };
            let model = effective_model(&v);
            Some(UiUpdate::NewSession { created: v, sid, model })
        },
        Task::Compact => Some(UiUpdate::Notice("(sessão compactada.)".to_owned())),
        Task::Stop { say } => {
            if *say {
                Some(UiUpdate::Notice("(turn parado — prompt limpo.)".to_owned()))
            } else {
                None
            }
        },
        Task::Mode { mode: _ } => None,
        Task::Model { model: _ } => None,
        Task::Thought { level: _ } => None,
        Task::Fork { id } => {
            let mut s = "fork: ".to_owned();
            s.append(id.as_str());
            s.append(" → ");
            match extract_session_id(&v) {
                Some(n) => {
                    s.append(n.as_str());
                },
                None => {
                    proof {
                        assert(s@ + Seq::<char>::empty() =~= s@);
                    }
                },
            }
            Some(UiUpdate::Notice(s))
        },
        Task::Goal { action: _ } => Some(UiUpdate::Notice(write_json_pretty(&v))),
    }
}

/// What a task reports, given how its call ended.
pub fn task_update(task: &Task, res: Result<Json, String>) -> (r: Option<UiUpdate>)
    ensures
        match res {
            Ok(v) => reports_ok(*task, v@, r),
            Err(e) => reports_err(*task, e@, r),
        },
{
    match res {
        Ok(v) => task_answered(task, v),
        Err(e) => task_failed(task, e.as_str()),
    }
}

// ---------------------------------------------------------------- first session

/// The session that was made, and its model: the one asked for, else the one
/// in use.
pub struct Booted {
    pub sid: String,
    pub model: String,
}

/// What is reported of a first session that could not be made.
pub open spec fn boot_failure(e: SessionError, u: UiUpdate) -> bool {
    match e {
        SessionError::Runtime(RuntimeError::Exited(code, tail)) => u matches UiUpdate::RuntimeDead {
            notice,
        } && notice@ == dead_banner(code, tail@),
        _ => u matches UiUpdate::Notice(s) && s@ == boot_fail_text(e.text()),
    }
}

/// Decides on the first session, from the outcome of its creation.
pub fn boot_result(created: &Result<Json, SessionError>, model: &Option<String>) -> (r: Result<
    Booted,
    UiUpdate,
>)
    ensures
        match created {
            Ok(v) => match session_id_of(v@) {
                Some(s) if s.len() > 0 => r matches Ok(b) && b.sid@ == s && b.model@ == (
                match model.deep_view() {
                    Some(m) => m,
                    None => effective_model_text(v@),
                }),
                _ => r matches Err(UiUpdate::Notice(t)) && t@ == boot_fail_text(
                    "create não devolveu sessionId"@,
                ),
            },
            Err(e) => r matches Err(u) && boot_failure(*e, u),
        },
        r matches Ok(b) ==> b.sid@.len() > 0 && (created matches Ok(v) && session_id_of(v@) == Some(
            b.sid@,
        )) && (*model is Some ==> b.model@ == model->0@),
{
    match created {
        Err(e) => Err(
            match runtime_exited_info(e) {
                Some((code, tail)) => UiUpdate::RuntimeDead {
                    notice: runtime_dead_banner(code, tail.as_str()),
                },
                None => {
                    let t = e.to_text();
                    UiUpdate::Notice(session_boot_fail_notice(t.as_str()))
                },
            },
        ),
        Ok(v) => {
            let sid = match extract_session_id(v) {
                Some(s) => s,
                None => String::new(),
            };
            if sid.as_str().is_empty() {
                return Err(
                    UiUpdate::Notice(session_boot_fail_notice("create não devolveu sessionId")),
                );
            }
            let m = match model {
                Some(m) => m.clone(),
                None => effective_model(v),
            };
            Ok(Booted { sid, model: m })
        },
    }
}

/// What is reported where no runtime could be had.
pub fn no_transport_update(e: &CmdError) -> (r: UiUpdate)
    ensures
        r matches UiUpdate::Notice(s) && s@ == boot_fail_text(e.text()),
{
    let t = e.to_text();
    UiUpdate::Notice(session_boot_fail_notice(t.as_str()))
}

/// The entry of a session in the local record.
pub fn history_entry(sid: &str, title: &str, ws: &str, model: &str, now: &str) -> (r: HistoryEntry)
    ensures
        r.deep_view() == (HistoryEntryView {
            session_id: sid@,
            title: title@,
            workspace: ws@,
            model: model@,
            updated_at: now@,
        }),
{
    HistoryEntry {
        session_id: sid.to_owned(),
        title: title.to_owned(),
        workspace: ws.to_owned(),
        model: model.to_owned(),
        updated_at: now.to_owned(),
    }
}

// ---------------------------------------------------------------- laws

/// A switch resumes the session that was chosen, whichever session is open and
/// wherever the interface runs.
pub proof fn law_switch_resumes_the_chosen(
    id: String,
    quente: bool,
    sid: Seq<char>,
    ws: Seq<char>,
    other_sid: Seq<char>,
    other_ws: Seq<char>,
)
    ensures
        task_plan(Task::Switch { id, quente }, sid, ws) matches Planned::Made {
            method,
            params,
            timeout_secs,
        } && method == "session/resume"@ && params.text_at("sessionId"@) == Some(id@),
        task_plan(Task::Switch { id, quente }, sid, ws) == task_plan(
            Task::Switch { id, quente },
            other_sid,
            other_ws,
        ),
{
}

/// A fork is made of the session that was named, whichever session is open.
pub proof fn law_fork_copies_the_named(
    id: String,
    sid: Seq<char>,
    ws: Seq<char>,
    other_sid: Seq<char>,
    other_ws: Seq<char>,
)
    ensures
        task_plan(Task::Fork { id }, sid, ws) matches Planned::Made {
            method,
            params,
            timeout_secs,
        } && method == "session/fork"@ && params.text_at("sessionId"@) == Some(id@),
        task_plan(Task::Fork { id }, sid, ws) == task_plan(Task::Fork { id }, other_sid, other_ws),
{
}

/// Every other task about a session is about the open one: its call names it.
pub proof fn law_tasks_stay_in_the_session(task: Task, sid: Seq<char>, ws: Seq<char>)
    requires
        !(task is Switch) && !(task is Fork) && !(task is Create) && !(task is Sessions),
    ensures
        task_plan(task, sid, ws) matches Planned::Made { method, params, timeout_secs }
            ==> params.text_at("sessionId"@) == Some(sid),
        task is Usage || task is Compact || task is Stop ==> task_plan(task, sid, ws) is Made,
{
    law_calls_name_their_session(sid, sid, sid, sid);
    match task {
        Task::Mode { mode } => law_calls_name_their_session(sid, mode@, sid, sid),
        Task::Thought { level } => law_calls_name_their_session(sid, level@, sid, sid),
        Task::Goal { action } => law_calls_name_their_session(sid, action@, sid, sid),
        Task::Model { model } => match model_ref(model@) {
            Some((p, m)) => law_calls_name_their_session(sid, sid, p, m),
            None => {},
        },
        _ => {},
    }
}

/// A new session is made in the workspace of the interface.
pub proof fn law_create_in_the_workspace(sid: Seq<char>, ws: Seq<char>)
    ensures
        task_plan(Task::Create, sid, ws) matches Planned::Made { method, params, timeout_secs }
            && method == "session/create"@ && params.get2("workspace"@, "workspacePath"@) == Some(
            JsonView::Str(ws),
        ) && params.get2("workspace"@, "workspaceKey"@) == Some(JsonView::Str(ws)),
{
    law_calls_carry_their_values(sid, ws, sid, sid, 0);
}

/// A setting that the server knows is sent as it was given.
pub proof fn law_settings_are_sent_as_given(
    mode: String,
    level: String,
    action: String,
    sid: Seq<char>,
    ws: Seq<char>,
)
    ensures
        mode_known(mode@) ==> (task_plan(Task::Mode { mode }, sid, ws) matches Planned::Made {
            method,
            params,
            timeout_secs,
        } && method == "session/setMode"@ && params.text_at("mode"@) == Some(mode@)),
        thought_known(level@) ==> (task_plan(
            Task::Thought { level },
            sid,
            ws,
        ) matches Planned::Made { method, params, timeout_secs } && method
            == "session/setThoughtLevel"@ && params.text_at("thoughtLevel"@) == Some(level@)),
        task_plan(Task::Goal { action }, sid, ws) matches Planned::Made {
            method,
            params,
            timeout_secs,
        } ==> method == "session/goal"@ && params.text_at("action"@) == Some(action@),
        !mode_known(mode@) ==> task_plan(Task::Mode { mode }, sid, ws) is Refused,
        !thought_known(level@) ==> task_plan(Task::Thought { level }, sid, ws) is Refused,
{
    law_calls_carry_their_values(sid, mode@, sid, sid, 0);
    law_calls_carry_their_values(sid, level@, sid, sid, 0);
    law_calls_carry_their_values(sid, action@, sid, sid, 0);
}

/// A model is sent by its two halves.
pub proof fn law_model_is_sent_as_given(
    model: String,
    provider: Seq<char>,
    id: Seq<char>,
    sid: Seq<char>,
    ws: Seq<char>,
)
    requires
        model_ref(model@) == Some((provider, id)),
    ensures
        task_plan(Task::Model { model }, sid, ws) matches Planned::Made {
            method,
            params,
            timeout_secs,
        } && method == "session/setModel"@ && params.get2("model"@, "providerId"@) == Some(
            JsonView::Str(provider),
        ) && params.get2("model"@, "modelId"@) == Some(JsonView::Str(id)),
{
    law_calls_carry_their_values(sid, sid, provider, id, 0);
}

/// The interface turns to the session that the server answered with; where the
/// answer names none, to the one that was chosen.
pub proof fn law_switch_reports_the_session(
    id: String,
    quente: bool,
    v: JsonView,
    u: Option<UiUpdate>,
    answered: Seq<char>,
)
    requires
        reports_ok(Task::Switch { id, quente }, v, u),
    ensures
        u matches Some(UiUpdate::ResumedSession { resumed, sid, model, quente: q }) && q == quente
            && resumed@ == v && (v.get2("session"@, "sessionId"@) == Some(JsonView::Str(answered))
            ==> sid@ == answered) && (v.get("session"@) is None ==> sid@ == id@),
{
}

/// A failed task says why, and never reports a session, a list or a usage.
pub proof fn law_failures_say_why(task: Task, e: Seq<char>, u: Option<UiUpdate>)
    requires
        reports_err(task, e, u),
    ensures
        task is Sessions ==> (u matches Some(UiUpdate::SessionsLoaded { res: Err(m) }) && m@ == e),
        !(task is Sessions) ==> (u matches Some(UiUpdate::Notice(s)) && contains(s@, e)),
{
    broadcast use group_contains;

}

/// A first session that could not be made is told with the reason, and a runtime
/// that died with what it said last.
pub proof fn law_boot_failure_says_why(e: SessionError, u: UiUpdate)
    requires
        boot_failure(e, u),
    ensures
        e matches SessionError::Runtime(RuntimeError::Exited(code, tail)) ==> (u matches
            UiUpdate::RuntimeDead { notice } && (!blank(tail@) ==> contains(notice@, trim(tail@)))),
        !(e matches SessionError::Runtime(RuntimeError::Exited(code, tail))) ==> (u matches
            UiUpdate::Notice(s) && contains(s@, e.text())),
{
    broadcast use group_contains;

}

/// What is told of a fork names the session it was made of and the new one.
pub proof fn law_fork_tells_both(id: String, v: JsonView, u: Option<UiUpdate>, new: Seq<char>)
    requires
        reports_ok(Task::Fork { id }, v, u),
        v.get2("session"@, "sessionId"@) == Some(JsonView::Str(new)),
    ensures
        u matches Some(UiUpdate::Notice(s)) && contains(s@, id@) && contains(s@, new),
{
    broadcast use group_contains;

}

} // verus!
