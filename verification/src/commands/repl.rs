//! The prompt without a terminal interface: line in, line out.
//!
//! A session created here is warm and takes turns; one that was resumed is only
//! read.

use crate::commands::input::Input;
use crate::commands::slash::{format_models_list, goal_word, goal_writes, models_text};
use crate::commands::tables::{
    context_summary_line, context_text, format_session_list_numbered, format_todos, numbered_text,
    todos_text,
};
use crate::commands::tasks::{task_plan, Task};
use crate::commands::tui::{usage_line, usage_text};
use crate::commands::{
    bad_resume_text, goal_write_blocked, law_paths_are_told, mode_plan, model_plan, no_workspace_text, thought_plan,
    validate_resume_id, validate_workspace_exists, Planned,
};
use crate::json::{
    no_fields, pretty_of_json, text_of_json, write_json, write_json_pretty, Json, JsonView,
};
use crate::notices::{
    compact_confirm_prompt, compact_text, fork_hint, fork_no_checkpoint_hint, goal_blocked_text,
    goal_write_blocked_hint, help, help_text, readonly_text, resume_readonly_notice,
};
use crate::session::extract::{
    available_models, context_of, extract_session_id, models_of, offered, parse_context,
    parse_usage, session_id_of, usage_of,
};
use crate::session::listing::{parse_session_list, rows_of, SessionRowView};
use crate::session::todos::{extract_todos, todos_of};
use crate::session::SessionError;
use crate::text::{
    blank, contains, dec, group_contains, lemma_contains_back, parse_unsigned, parsed, same, trim, trimmed,
};
use vstd::prelude::*;

verus! {

// ---------------------------------------------------------------- output

/// What is written: to the output, or as a warning beside it.
#[derive(Debug, Clone, PartialEq, Eq)]
pub enum Said {
    Out(String),
    Warn(String),
}

pub enum SaidView {
    Out(Seq<char>),
    Warn(Seq<char>),
}

impl DeepView for Said {
    type V = SaidView;

    open spec fn deep_view(&self) -> SaidView {
        match self {
            Said::Out(t) => SaidView::Out(t@),
            Said::Warn(t) => SaidView::Warn(t@),
        }
    }
}

fn out(t: &str) -> (r: Said)
    ensures
        r.deep_view() == SaidView::Out(t@),
{
    Said::Out(t.to_owned())
}

fn warn(t: &str) -> (r: Said)
    ensures
        r.deep_view() == SaidView::Warn(t@),
{
    Said::Warn(t.to_owned())
}

fn out2(a: &str, b: &str) -> (r: Said)
    ensures
        r.deep_view() == SaidView::Out(a@ + b@),
{
    let mut s = a.to_owned();
    s.append(b);
    Said::Out(s)
}

fn warn2(a: &str, b: &str) -> (r: Said)
    ensures
        r.deep_view() == SaidView::Warn(a@ + b@),
{
    let mut s = a.to_owned();
    s.append(b);
    Said::Warn(s)
}

fn warn3(a: &str, b: &str, c: &str) -> (r: Said)
    ensures
        r.deep_view() == SaidView::Warn(a@ + b@ + c@),
{
    let mut s = a.to_owned();
    s.append(b);
    s.append(c);
    Said::Warn(s)
}

// ---------------------------------------------------------------- choosing

/// The session that a number stands for in the list last shown.
pub open spec fn chosen(ids: Seq<Seq<char>>, a: Seq<char>) -> Option<Seq<char>> {
    match parse_unsigned(a, usize::MAX as nat) {
        Some(n) => if 1 <= n <= ids.len() {
            Some(ids[n - 1])
        } else {
            None
        },
        None => None,
    }
}

pub open spec fn is_number(a: Seq<char>) -> bool {
    parse_unsigned(a, usize::MAX as nat) is Some
}

pub open spec fn off_list_text(a: Seq<char>) -> Seq<char> {
    "resume: "@ + a + " fora da lista (use /resume sem id p/ listar)."@
}

fn pick_of(ids: &Vec<String>, a: &str) -> (r: Option<String>)
    ensures
        r.deep_view() == chosen(ids.deep_view(), a@),
{
    match parsed(a, usize::MAX as u64) {
        Some(n) => {
            if n >= 1 && n <= ids.len() as u64 {
                let i: usize = (n - 1) as usize;
                assert(ids.deep_view()[i as int] == ids@[i as int]@);
                Some(ids[i].clone())
            } else {
                None
            }
        },
        None => None,
    }
}

fn numeric(a: &str) -> (r: bool)
    ensures
        r == is_number(a@),
{
    parsed(a, usize::MAX as u64).is_some()
}

/// The ids of a list, in its order.
pub open spec fn ids_of(rows: Seq<SessionRowView>) -> Seq<Seq<char>> {
    rows.map_values(|r: SessionRowView| r.id)
}

/// The ids of the sessions that an answer lists.
pub fn listed_ids(v: &Json) -> (r: Vec<String>)
    ensures
        r.deep_view() == ids_of(rows_of(v@)),
{
    let rows = parse_session_list(v);
    let ghost all = ids_of(rows.deep_view());
    let mut ids: Vec<String> = Vec::new();
    let mut i: usize = 0;
    while i < rows.len()
        invariant
            i <= rows@.len(),
            all == ids_of(rows.deep_view()),
            ids.deep_view() == all.take(i as int),
        decreases rows@.len() - i,
    {
        let ghost before = ids.deep_view();
        let s = rows[i].id.clone();
        let ghost one = s@;
        ids.push(s);
        proof {
            assert(one == all[i as int]);
            assert(ids.deep_view() =~= before.push(one));
            assert(all.take(i + 1) =~= all.take(i as int).push(one));
        }
        i = i + 1;
    }
    assert(all.take(all.len() as int) =~= all);
    ids
}

// ---------------------------------------------------------------- a warm session

/// What a line at the prompt leads to.
pub enum ReplStep {
    Again,
    Leave,
    Say(Said),
    Run(Task),
    /// Tell the changes in the workspace.
    Diff,
    Export { path: Option<String>, json: bool },
    /// A question; a yes compacts the session.
    Ask(String),
    Turn(String),
}

/// What the prompt knows of its surroundings.
pub struct ReplEnv {
    /// The answer that the session was created with.
    pub created: Json,
    /// The sessions of the list last shown.
    pub ids: Vec<String>,
    /// The workspace that `/new` names, and whether it is a directory.
    pub new_ws: String,
    pub new_is_dir: bool,
}

pub open spec fn tells(r: ReplStep, s: SaidView) -> bool {
    r matches ReplStep::Say(x) && x.deep_view() == s
}

pub open spec fn unknown_line(c: Seq<char>) -> Seq<char> {
    "comando desconhecido '"@ + c + "'. Use /help p/ a lista de comandos."@
}

/// `/resume` with an argument, in a warm session: another session is only named.
pub open spec fn resume_named(ids: Seq<Seq<char>>, a: Seq<char>) -> SaidView {
    match chosen(ids, a) {
        Some(id) => SaidView::Out(
            "resume "@ + a + " → "@ + id + "\n"@ + readonly_text()
                + "\npara continuar NESSA sessão: saia (/exit) e rode `zcode-cli resume "@ + id
                + "`."@,
        ),
        None => if is_number(a) {
            SaidView::Warn(off_list_text(a))
        } else {
            SaidView::Out(readonly_text())
        },
    }
}

pub open spec fn new_named(ws: Seq<char>, is_dir: bool) -> SaidView {
    if blank(ws) {
        SaidView::Warn("new falhou: "@ + "workspace vazio: informe --cwd <pasta>"@)
    } else if !is_dir {
        SaidView::Warn("new falhou: "@ + no_workspace_text(ws))
    } else {
        SaidView::Out(
            "sessão nova: saia (/exit) e rode `new "@ + ws + "` — ou `zcode-cli --cwd "@ + ws
                + "` sem args."@,
        )
    }
}

/// What a line does in a warm session.
pub open spec fn repl_does(input: Input, env: ReplEnv, r: ReplStep) -> bool {
    match input {
        Input::Empty => r is Again,
        Input::Exit => r is Leave,
        Input::Unknown(c) => tells(r, SaidView::Warn(unknown_line(c@))),
        Input::Help => tells(r, SaidView::Out(help())),
        Input::Diff => r is Diff,
        Input::Context => tells(r, SaidView::Out(context_text(context_of(env.created@)))),
        Input::Todos => tells(r, SaidView::Out(todos_text(todos_of(env.created@)))),
        Input::Queue(_) => tells(
            r,
            SaidView::Out("fila: indisponível no REPL (um turno por vez)."@),
        ),
        Input::Export { path, json } => r matches ReplStep::Export { path: p, json: j }
            && p.deep_view() == path.deep_view() && j == json,
        Input::Usage => r matches ReplStep::Run(Task::Usage { notice }) && notice,
        Input::Stop => r matches ReplStep::Run(Task::Stop { say }) && say,
        Input::Mode(None) => tells(r, SaidView::Warn("uso: /mode <plan|build|edit|yolo>"@)),
        Input::Mode(Some(m)) => r matches ReplStep::Run(Task::Mode { mode }) && mode@ == m@,
        Input::Model(None) => tells(
            r,
            SaidView::Out(models_text(models_of(offered(env.created@)))),
        ),
        Input::Model(Some(m)) => r matches ReplStep::Run(Task::Model { model }) && model@ == m@,
        Input::Thought(None) => tells(r, SaidView::Warn("uso: /thought <low|high|max>"@)),
        Input::Thought(Some(l)) => r matches ReplStep::Run(Task::Thought { level }) && level@ == l@,
        Input::Compact => r matches ReplStep::Ask(t) && t@ == compact_text(),
        Input::Resume(None) => r matches ReplStep::Run(Task::Sessions),
        Input::Resume(Some(a)) => tells(r, resume_named(env.ids.deep_view(), a@)),
        Input::New(None) => tells(
            r,
            SaidView::Warn("uso: /new <pasta> (ou saia e rode: new <pasta>)"@),
        ),
        Input::New(Some(_)) => tells(r, new_named(env.new_ws@, env.new_is_dir)),
        Input::Fork(None) => tells(r, SaidView::Warn("uso: /fork <id>"@)),
        Input::Fork(Some(i)) => if blank(i@) {
            tells(r, SaidView::Warn("fork falhou: "@ + bad_resume_text()))
        } else {
            r matches ReplStep::Run(Task::Fork { id }) && id@ == i@
        },
        Input::Goal(action) => if goal_writes(goal_word(action.deep_view())) {
            tells(r, SaidView::Warn(goal_blocked_text()))
        } else {
            r matches ReplStep::Run(Task::Goal { action: x }) && x@ == goal_word(
                action.deep_view(),
            )
        },
        Input::Text(t) => r matches ReplStep::Turn(x) && x@ == t@,
    }
}

fn name_resume(ids: &Vec<String>, a: &str) -> (r: Said)
    ensures
        r.deep_view() == resume_named(ids.deep_view(), a@),
{
    match pick_of(ids, a) {
        Some(id) => {
            let mut s = "resume ".to_owned();
            s.append(a);
            s.append(" → ");
            s.append(id.as_str());
            s.append("\n");
            let n = resume_readonly_notice();
            s.append(n.as_str());
            s.append("\npara continuar NESSA sessão: saia (/exit) e rode `zcode-cli resume ");
            s.append(id.as_str());
            s.append("`.");
            Said::Out(s)
        },
        None => if numeric(a) {
            warn3("resume: ", a, " fora da lista (use /resume sem id p/ listar).")
        } else {
            let n = resume_readonly_notice();
            Said::Out(n)
        },
    }
}

fn name_new(ws: &str, is_dir: bool) -> (r: Said)
    ensures
        r.deep_view() == new_named(ws@, is_dir),
{
    match validate_workspace_exists(ws, is_dir) {
        Ok(()) => {
            let mut s = "sessão nova: saia (/exit) e rode `new ".to_owned();
            s.append(ws);
            s.append("` — ou `zcode-cli --cwd ");
            s.append(ws);
            s.append("` sem args.");
            Said::Out(s)
        },
        Err(e) => {
            let t = e.to_text();
            warn2("new falhou: ", t.as_str())
        },
    }
}

fn goal_given(action: &Option<String>) -> (r: String)
    ensures
        r@ == goal_word(action.deep_view()),
{
    match action {
        Some(t) => t.clone(),
        None => "show".to_owned(),
    }
}

fn copied(path: &Option<String>) -> (r: Option<String>)
    ensures
        r.deep_view() == path.deep_view(),
{
    match path {
        Some(x) => Some(x.clone()),
        None => None,
    }
}

/// Carries out a line in a warm session.
pub fn repl_step(input: &Input, env: &ReplEnv) -> (r: ReplStep)
    ensures
        repl_does(*input, *env, r),
{
    match input {
        Input::Empty => ReplStep::Again,
        Input::Exit => ReplStep::Leave,
        Input::Unknown(c) => ReplStep::Say(
            warn3(
                "comando desconhecido '",
                c.as_str(),
                "'. Use /help p/ a lista de comandos.",
            ),
        ),
        Input::Help => ReplStep::Say(Said::Out(help_text())),
        Input::Diff => ReplStep::Diff,
        Input::Context => {
            let c = parse_context(&env.created);
            ReplStep::Say(Said::Out(context_summary_line(&c)))
        },
        Input::Todos => {
            let ts = extract_todos(&env.created);
            ReplStep::Say(Said::Out(format_todos(&ts)))
        },
        Input::Queue(_) => ReplStep::Say(out("fila: indisponível no REPL (um turno por vez).")),
        Input::Export { path, json } => ReplStep::Export { path: copied(path), json: *json },
        Input::Usage => ReplStep::Run(Task::Usage { notice: true }),
        Input::Stop => ReplStep::Run(Task::Stop { say: true }),
        Input::Mode(None) => ReplStep::Say(warn("uso: /mode <plan|build|edit|yolo>")),
        Input::Mode(Some(m)) => ReplStep::Run(Task::Mode { mode: m.clone() }),
        Input::Model(None) => {
            let ms = available_models(&env.created);
            ReplStep::Say(Said::Out(format_models_list(&ms)))
        },
        Input::Model(Some(m)) => ReplStep::Run(Task::Model { model: m.clone() }),
        Input::Thought(None) => ReplStep::Say(warn("uso: /thought <low|high|max>")),
        Input::Thought(Some(l)) => ReplStep::Run(Task::Thought { level: l.clone() }),
        Input::Compact => ReplStep::Ask(compact_confirm_prompt()),
        Input::Resume(None) => ReplStep::Run(Task::Sessions),
        Input::Resume(Some(a)) => ReplStep::Say(name_resume(&env.ids, a.as_str())),
        Input::New(None) => ReplStep::Say(warn("uso: /new <pasta> (ou saia e rode: new <pasta>)")),
        Input::New(Some(_)) => ReplStep::Say(name_new(env.new_ws.as_str(), env.new_is_dir)),
        Input::Fork(None) => ReplStep::Say(warn("uso: /fork <id>")),
        Input::Fork(Some(id)) => match validate_resume_id(id.as_str()) {
            Ok(()) => ReplStep::Run(Task::Fork { id: id.clone() }),
            Err(e) => {
                let t = e.to_text();
                ReplStep::Say(warn2("fork falhou: ", t.as_str()))
            },
        },
        Input::Goal(action) => {
            let a = goal_given(action);
            if goal_write_blocked(a.as_str()) {
                ReplStep::Say(Said::Warn(goal_write_blocked_hint()))
            } else {
                ReplStep::Run(Task::Goal { action: a })
            }
        },
        Input::Text(t) => ReplStep::Turn(t.clone()),
    }
}

/// What follows the answer to the question: only a yes goes on.
pub fn repl_answer(line: &str) -> (r: Option<Said>)
    ensures
        if crate::commands::means_yes(line@) {
            r is None
        } else {
            r matches Some(s) && s.deep_view() == SaidView::Out("(compact cancelado.)"@)
        },
{
    if crate::commands::confirm_yes(line) {
        None
    } else {
        Some(out("(compact cancelado.)"))
    }
}

// ---------------------------------------------------------------- answers

pub open spec fn new_id(v: JsonView) -> Seq<char> {
    match session_id_of(v) {
        Some(s) => s,
        None => Seq::empty(),
    }
}

/// What is told of the answer of a task.
pub open spec fn told_ok(task: Task, v: JsonView) -> SaidView {
    match task {
        Task::Usage { notice } => SaidView::Out(usage_text(usage_of(v))),
        Task::Sessions => SaidView::Out(numbered_text(rows_of(v))),
        Task::Switch { id, quente } => SaidView::Out(
            "sessão retomada: "@ + (match session_id_of(v) {
                Some(s) => s,
                None => id@,
            }),
        ),
        Task::Create => SaidView::Out("sessão criada: "@ + new_id(v)),
        Task::Compact => SaidView::Out("(sessão compactada.)"@),
        Task::Stop { say } => SaidView::Out("(turn parado — prompt limpo.)"@),
        Task::Mode { mode } => SaidView::Out("modo: "@ + mode@),
        Task::Model { model } => SaidView::Out("modelo: "@ + model@),
        Task::Thought { level } => SaidView::Out("thought-level: "@ + level@),
        Task::Fork { id } => SaidView::Out("fork: "@ + id@ + " → "@ + new_id(v)),
        Task::Goal { action } => SaidView::Out(pretty_of_json(v)),
    }
}

/// What is told of the failure of a task.
pub open spec fn told_err(task: Task, e: Seq<char>) -> SaidView {
    SaidView::Warn(
        match task {
            Task::Usage { notice } => "usage falhou: "@ + e,
            Task::Sessions => "sessions falhou: "@ + e,
            Task::Switch { id, quente } => "resume falhou: "@ + e,
            Task::Create => "new falhou: "@ + e,
            Task::Compact => "compact falhou: "@ + e,
            Task::Stop { say } => "stop falhou: "@ + e,
            Task::Mode { mode } => "mode falhou: "@ + e,
            Task::Model { model } => "model falhou: "@ + e
                + " (R3: ao vivo só zai/glm-5.3-Flash existe)"@,
            Task::Thought { level } => "thought falhou: "@ + e,
            Task::Fork { id } => "fork falhou: "@ + e + ". "@ + fork_hint(),
            Task::Goal { action } => "goal falhou: "@ + e,
        },
    )
}

fn id_or_empty(v: &Json) -> (r: String)
    ensures
        r@ == new_id(v@),
{
    match extract_session_id(v) {
        Some(s) => s,
        None => String::new(),
    }
}

fn tell_ok(task: &Task, v: &Json) -> (r: Said)
    ensures
        r.deep_view() == told_ok(*task, v@),
{
    match task {
        Task::Usage { notice: _ } => {
            let u = parse_usage(v);
            Said::Out(usage_line(&u))
        },
        Task::Sessions => {
            let rows = parse_session_list(v);
            Said::Out(format_session_list_numbered(&rows))
        },
        Task::Switch { id, quente: _ } => {
            let sid = match extract_session_id(v) {
                Some(s) => s,
                None => id.clone(),
            };
            out2("sessão retomada: ", sid.as_str())
        },
        Task::Create => {
            let sid = id_or_empty(v);
            out2("sessão criada: ", sid.as_str())
        },
        Task::Compact => out("(sessão compactada.)"),
        Task::Stop { say: _ } => out("(turn parado — prompt limpo.)"),
        Task::Mode { mode } => out2("modo: ", mode.as_str()),
        Task::Model { model } => out2("modelo: ", model.as_str()),
        Task::Thought { level } => out2("thought-level: ", level.as_str()),
        Task::Fork { id } => {
            let sid = id_or_empty(v);
            let mut s = "fork: ".to_owned();
            s.append(id.as_str());
            s.append(" → ");
            s.append(sid.as_str());
            Said::Out(s)
        },
        Task::Goal { action: _ } => Said::Out(write_json_pretty(v)),
    }
}

fn tell_err(task: &Task, e: &str) -> (r: Said)
    ensures
        r.deep_view() == told_err(*task, e@),
{
    match task {
        Task::Usage { notice: _ } => warn2("usage falhou: ", e),
        Task::Sessions => warn2("sessions falhou: ", e),
        Task::Switch { id: _, quente: _ } => warn2("resume falhou: ", e),
        Task::Create => warn2("new falhou: ", e),
        Task::Compact => warn2("compact falhou: ", e),
        Task::Stop { say: _ } => warn2("stop falhou: ", e),
        Task::Mode { mode: _ } => warn2("mode falhou: ", e),
        Task::Model { model: _ } => warn3(
            "model falhou: ",
            e,
            " (R3: ao vivo só zai/glm-5.3-Flash existe)",
        ),
        Task::Thought { level: _ } => warn2("thought falhou: ", e),
        Task::Fork { id: _ } => {
            let mut s = "fork falhou: ".to_owned();
            s.append(e);
            s.append(". ");
            let h = fork_no_checkpoint_hint();
            s.append(h.as_str());
            Said::Warn(s)
        },
        Task::Goal { action: _ } => warn2("goal falhou: ", e),
    }
}

/// What is told of a task that was carried out.
pub fn repl_report(task: &Task, res: &Result<Json, String>) -> (r: Said)
    ensures
        r.deep_view() == match *res {
            Ok(v) => told_ok(*task, v@),
            Err(e) => told_err(*task, e@),
        },
{
    match res {
        Ok(v) => tell_ok(task, v),
        Err(e) => tell_err(task, e.as_str()),
    }
}

pub open spec fn response_json(sid: Seq<char>, text: Seq<char>) -> JsonView {
    no_fields().put("sessionId"@, JsonView::Str(sid)).put("response"@, JsonView::Str(text))
}

/// An answer of the agent, for programs.
pub fn response_object(sid: &str, text: &str) -> (r: Json)
    ensures
        r@ == response_json(sid@, text@),
{
    Json::object().with("sessionId", Json::text(sid)).with("response", Json::text(text))
}

/// What is told of a turn.
pub fn repl_reply(json: bool, sid: &str, answer: &Result<String, SessionError>) -> (r: Said)
    ensures
        r.deep_view() == match *answer {
            Ok(t) => if json {
                SaidView::Out(text_of_json(response_json(sid@, t@)))
            } else {
                SaidView::Out(t@)
            },
            Err(e) => SaidView::Warn("erro: "@ + e.text()),
        },
{
    match answer {
        Ok(t) => if json {
            let v = response_object(sid, t.as_str());
            Said::Out(write_json(&v))
        } else {
            Said::Out(t.clone())
        },
        Err(e) => {
            let t = e.to_text();
            warn2("erro: ", t.as_str())
        },
    }
}

/// What `/diff` tells: the changes that git counts.
pub fn repl_diff(git_stat: Option<&str>, ws: &str) -> (r: String)
    ensures
        r@ == match git_stat {
            Some(s) => s@,
            None => "(sem diff git no workspace "@ + ws@ + ")"@,
        },
{
    match git_stat {
        Some(s) => s.to_owned(),
        None => {
            let mut s = "(sem diff git no workspace ".to_owned();
            s.append(ws);
            s.append(")");
            s
        },
    }
}

/// What is told of an export.
pub fn repl_exported(res: &Result<String, String>) -> (r: Said)
    ensures
        r.deep_view() == match *res {
            Ok(p) => SaidView::Out("exportado: "@ + p@),
            Err(e) => SaidView::Warn("export falhou: "@ + e@),
        },
{
    match res {
        Ok(p) => out2("exportado: ", p.as_str()),
        Err(e) => warn2("export falhou: ", e.as_str()),
    }
}

// ---------------------------------------------------------------- a session to read

/// What a line does where the session is only read.
pub open spec fn reader_does(
    input: Input,
    json: bool,
    target: Seq<char>,
    ids: Seq<Seq<char>>,
    r: ReplStep,
) -> bool {
    match input {
        Input::Empty => r is Again,
        Input::Exit => r is Leave,
        Input::Unknown(c) => tells(
            r,
            SaidView::Warn(
                "comando desconhecido '"@ + c@ + "'. Leitura: /help /usage /goal show /exit."@,
            ),
        ),
        Input::Help => tells(r, SaidView::Out(help())),
        Input::Usage => r matches ReplStep::Run(Task::Usage { notice }) && notice,
        Input::Goal(action) => if trim(goal_word(action.deep_view())) == "show"@ {
            r matches ReplStep::Run(Task::Goal { action: x }) && x@ == goal_word(
                action.deep_view(),
            )
        } else {
            tells(r, SaidView::Out(readonly_text()))
        },
        Input::Export { path, json: j } => r matches ReplStep::Export { path: p, json: k }
            && p.deep_view() == path.deep_view() && j == k,
        Input::Text(_) => tells(
            r,
            SaidView::Out(
                if json {
                    text_of_json(readonly_json(target))
                } else {
                    readonly_text()
                },
            ),
        ),
        Input::Resume(None) => r matches ReplStep::Run(Task::Sessions),
        Input::Resume(Some(a)) => match chosen(ids, a@) {
            Some(id) => r matches ReplStep::Run(Task::Switch { id: x, quente }) && x@ == id
                && !quente,
            None => if is_number(a@) {
                tells(r, SaidView::Warn(off_list_text(a@)))
            } else if blank(a@) {
                tells(r, SaidView::Warn("resume falhou: "@ + bad_resume_text()))
            } else {
                r matches ReplStep::Run(Task::Switch { id: x, quente }) && x@ == a@ && !quente
            },
        },
        _ => tells(r, SaidView::Out(readonly_text())),
    }
}

pub open spec fn readonly_json(sid: Seq<char>) -> JsonView {
    no_fields().put("sessionId"@, JsonView::Str(sid)).put("readOnly"@, JsonView::Bool(true))
}

fn resume_reading(ids: &Vec<String>, a: &str) -> (r: ReplStep)
    ensures
        match chosen(ids.deep_view(), a@) {
            Some(id) => r matches ReplStep::Run(Task::Switch { id: x, quente }) && x@ == id
                && !quente,
            None => if is_number(a@) {
                tells(r, SaidView::Warn(off_list_text(a@)))
            } else if blank(a@) {
                tells(r, SaidView::Warn("resume falhou: "@ + bad_resume_text()))
            } else {
                r matches ReplStep::Run(Task::Switch { id: x, quente }) && x@ == a@ && !quente
            },
        },
{
    match pick_of(ids, a) {
        Some(id) => ReplStep::Run(Task::Switch { id, quente: false }),
        None => if numeric(a) {
            ReplStep::Say(
                warn3("resume: ", a, " fora da lista (use /resume sem id p/ listar)."),
            )
        } else {
            match validate_resume_id(a) {
                Ok(()) => ReplStep::Run(Task::Switch { id: a.to_owned(), quente: false }),
                Err(e) => {
                    let t = e.to_text();
                    ReplStep::Say(warn2("resume falhou: ", t.as_str()))
                },
            }
        },
    }
}

/// Carries out a line where the session is only read: nothing is sent to it.
/// What only reads or leaves runs (`/usage`, `/goal show`, `/help`, `/export`,
/// `/resume`, `/exit`); an unknown command is named with a warning; text, under
/// `--json`, is answered with an object that says so; anything else gets the
/// notice that the session is only read.
pub fn readonly_step(input: &Input, json: bool, target: &str, ids: &Vec<String>) -> (r: ReplStep)
    ensures
        reader_does(*input, json, target@, ids.deep_view(), r),
{
    match input {
        Input::Empty => ReplStep::Again,
        Input::Exit => ReplStep::Leave,
        Input::Unknown(c) => ReplStep::Say(
            warn3(
                "comando desconhecido '",
                c.as_str(),
                "'. Leitura: /help /usage /goal show /exit.",
            ),
        ),
        Input::Help => ReplStep::Say(Said::Out(help_text())),
        Input::Usage => ReplStep::Run(Task::Usage { notice: true }),
        Input::Goal(action) => {
            let a = goal_given(action);
            let t = trimmed(a.as_str());
            if same(t.as_str(), "show") {
                ReplStep::Run(Task::Goal { action: a })
            } else {
                ReplStep::Say(Said::Out(resume_readonly_notice()))
            }
        },
        Input::Export { path, json: j } => ReplStep::Export { path: copied(path), json: *j },
        Input::Text(_) => if json {
            let v = Json::object().with("sessionId", Json::text(target)).with(
                "readOnly",
                Json::Bool(true),
            );
            ReplStep::Say(Said::Out(write_json(&v)))
        } else {
            ReplStep::Say(Said::Out(resume_readonly_notice()))
        },
        Input::Resume(None) => ReplStep::Run(Task::Sessions),
        Input::Resume(Some(a)) => resume_reading(ids, a.as_str()),
        _ => ReplStep::Say(Said::Out(resume_readonly_notice())),
    }
}

// ---------------------------------------------------------------- laws

/// A session that is only read is never written to: no line starts a turn,
/// changes a setting, compacts, forks or creates.
pub proof fn law_reading_only_reads(
    input: Input,
    json: bool,
    target: Seq<char>,
    ids: Seq<Seq<char>>,
    r: ReplStep,
)
    requires
        reader_does(input, json, target, ids, r),
    ensures
        !(r is Turn),
        !(r is Ask),
        r matches ReplStep::Run(t) ==> t is Usage || t is Sessions || t is Switch || (t matches
            Task::Goal { action } && trim(action@) == "show"@),
{
}

/// A warm session is never left for another one.
pub proof fn law_warm_session_stays(input: Input, env: ReplEnv, r: ReplStep)
    requires
        repl_does(input, env, r),
    ensures
        r matches ReplStep::Run(t) ==> !(t is Switch) && !(t is Create),
{
}

/// The number of a listed session stands for that session.
pub proof fn law_listed_number_chooses(ids: Seq<Seq<char>>, a: Seq<char>, n: nat)
    requires
        parse_unsigned(a, usize::MAX as nat) == Some(n),
        1 <= n <= ids.len(),
    ensures
        chosen(ids, a) == Some(ids[n - 1]),
{
}

/// A setting typed at the prompt is asked of the session as it was typed.
pub proof fn law_typed_settings_are_asked(input: Input, env: ReplEnv, r: ReplStep, sid: Seq<char>, ws: Seq<char>)
    requires
        repl_does(input, env, r),
    ensures
        input matches Input::Mode(Some(m)) ==> (r matches ReplStep::Run(t) && task_plan(t, sid, ws)
            == mode_plan(sid, m@)),
        input matches Input::Model(Some(m)) ==> (r matches ReplStep::Run(t) && task_plan(t, sid, ws)
            == model_plan(sid, m@)),
        input matches Input::Thought(Some(m)) ==> (r matches ReplStep::Run(t) && task_plan(
            t,
            sid,
            ws,
        ) == thought_plan(sid, m@)),
        input matches Input::Text(m) ==> (r matches ReplStep::Turn(t) && t@ == m@),
        input is Usage ==> (r matches ReplStep::Run(t) && t is Usage),
        input is Stop ==> (r matches ReplStep::Run(t) && t is Stop),
        input is Exit <==> r is Leave,
{
}

/// A number off the list is refused, and so never reads a session.
pub proof fn law_number_off_the_list(ids: Seq<Seq<char>>, a: Seq<char>, n: nat)
    requires
        parse_unsigned(a, usize::MAX as nat) == Some(n),
        n == 0 || n > ids.len(),
    ensures
        chosen(ids, a) is None,
        resume_named(ids, a) matches SaidView::Warn(t) && contains(t, a),
{
    broadcast use group_contains;

}

/// The session that a number chooses is named, and so is how to go on in it.
pub proof fn law_chosen_session_is_named(ids: Seq<Seq<char>>, a: Seq<char>, id: Seq<char>)
    requires
        chosen(ids, a) == Some(id),
    ensures
        resume_named(ids, a) matches SaidView::Out(t) && contains(t, id) && contains(
            t,
            "zcode-cli resume "@ + id,
        ),
{
    broadcast use group_contains;

    let tail = "\npara continuar NESSA sessão: saia (/exit) e rode `zcode-cli resume "@;
    let t = "resume "@ + a + " → "@ + id + "\n"@ + readonly_text() + tail + id + "`."@;
    reveal_strlit("\npara continuar NESSA sessão: saia (/exit) e rode `zcode-cli resume ");
    reveal_strlit("zcode-cli resume ");
    let n = tail.len() - "zcode-cli resume "@.len();
    assert(tail =~= tail.take(n) + "zcode-cli resume "@);
    let front = "resume "@ + a + " → "@ + id + "\n"@ + readonly_text();
    assert(t =~= front + tail.take(n) + ("zcode-cli resume "@ + id) + "`."@);
}

/// What is told of a task that went well holds what it was about.
pub proof fn law_told_holds(value: String, v: JsonView, new: Seq<char>, notice: bool, quente: bool)
    requires
        v.get2("session"@, "sessionId"@) == Some(JsonView::Str(new)),
    ensures
        told_ok(Task::Mode { mode: value }, v) matches SaidView::Out(t) && contains(t, value@),
        told_ok(Task::Model { model: value }, v) matches SaidView::Out(t) && contains(t, value@),
        told_ok(Task::Thought { level: value }, v) matches SaidView::Out(t) && contains(t, value@),
        told_ok(Task::Fork { id: value }, v) matches SaidView::Out(t) && contains(t, value@)
            && contains(t, new),
        told_ok(Task::Switch { id: value, quente }, v) matches SaidView::Out(t) && contains(t, new),
        told_ok(Task::Create, v) matches SaidView::Out(t) && contains(t, new),
{
    broadcast use group_contains;

}

/// A task that failed is told as a warning that holds the reason.
pub proof fn law_told_failure_says_why(task: Task, e: Seq<char>)
    ensures
        told_err(task, e) matches SaidView::Warn(t) && contains(t, e),
{
    broadcast use group_contains;

}

/// The answer of a turn for programs holds its session and its text; one that is
/// only read says so.
pub proof fn law_response_holds(sid: Seq<char>, text: Seq<char>)
    ensures
        response_json(sid, text).text_at("sessionId"@) == Some(sid),
        response_json(sid, text).text_at("response"@) == Some(text),
        readonly_json(sid).text_at("sessionId"@) == Some(sid),
        readonly_json(sid).get("readOnly"@) == Some(JsonView::Bool(true)),
{
    reveal_strlit("sessionId");
    reveal_strlit("response");
    reveal_strlit("readOnly");
    assert("sessionId"@.len() == 9 && "response"@.len() == 8 && "readOnly"@.len() == 8);
    assert("response"@[2] != "readOnly"@[2]);
}

/// A reader that names a session by its number or by its id turns to that one.
pub proof fn law_reader_turns_to_the_named(
    a: String,
    json: bool,
    target: Seq<char>,
    ids: Seq<Seq<char>>,
    r: ReplStep,
    sid: Seq<char>,
    ws: Seq<char>,
)
    requires
        reader_does(Input::Resume(Some(a)), json, target, ids, r),
    ensures
        r matches ReplStep::Run(t) ==> (task_plan(t, sid, ws) matches Planned::Made {
            method,
            params,
            timeout_secs,
        } && method == "session/resume"@ && (params.text_at("sessionId"@) == chosen(ids, a@)
            || chosen(ids, a@) is None && params.text_at("sessionId"@) == Some(a@))),
{
}

/// The ids to choose from are those of the rows, in their order.
pub proof fn law_ids_of_rows(rows: Seq<SessionRowView>, i: int)
    requires
        0 <= i < rows.len(),
    ensures
        ids_of(rows).len() == rows.len(),
        ids_of(rows)[i] == rows[i].id,
{
}

/// A new session is told by its folder, or why there is none.
pub proof fn law_new_named(ws: Seq<char>, is_dir: bool)
    ensures
        !blank(ws) && is_dir ==> (new_named(ws, is_dir) matches SaidView::Out(t) && contains(t, ws)),
        !blank(ws) && !is_dir ==> (new_named(ws, is_dir) matches SaidView::Warn(t) && contains(t, ws)),
        blank(ws) ==> new_named(ws, is_dir) is Warn,
        contains(unknown_line(ws), ws),
{
    broadcast use group_contains;

    if !blank(ws) && !is_dir {
        law_paths_are_told(ws);
        lemma_contains_back("new falhou: "@, no_workspace_text(ws), ws);
    }
}

/// The other commands of the prompt, told by what they come to: a fork of the
/// session that was named, the goal action that was named, the list, an export
/// as asked for, and what the session knows of its context and its todos.
pub proof fn law_typed_commands(input: Input, env: ReplEnv, r: ReplStep, sid: Seq<char>, ws: Seq<char>)
    requires
        repl_does(input, env, r),
    ensures
        input matches Input::Fork(Some(i)) ==> (!blank(i@) ==> (r matches ReplStep::Run(t) && (
        task_plan(t, sid, ws) matches Planned::Made { method, params, timeout_secs } && method
            == "session/fork"@ && params.text_at("sessionId"@) == Some(i@)))),
        input matches Input::Resume(None) ==> (r matches ReplStep::Run(t) && t is Sessions),
        input matches Input::Export { path, json } ==> (r matches ReplStep::Export {
            path: p,
            json: j,
        } && p.deep_view() == path.deep_view() && j == json),
        input is Context ==> (r matches ReplStep::Say(s) && (s.deep_view() matches SaidView::Out(t)
            && contains(t, dec(context_of(env.created@).used as nat)))),
        input matches Input::Goal(Some(g)) ==> (!goal_writes(g@) ==> (r matches ReplStep::Run(t) && (
        t matches Task::Goal { action } && action@ == g@))),
        input is Compact ==> r is Ask,
        input is Diff ==> r is Diff,
        input is Empty ==> r is Again,
{
    broadcast use group_contains;

}

} // verus!
