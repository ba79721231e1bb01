//! Slash commands in the terminal interface. Nothing here waits for the
//! server: what needs it becomes a task.

use crate::commands::input::Input;
use crate::commands::merge::{exported, law_exported_holds, splash_text};
use crate::commands::snapshot::{
    diff_notice, first_of, format_diff_notice, trunc_chars, truncated, WorkspaceDiff,
};
use crate::commands::tasks::{task_plan, Task};
use crate::commands::tui::{export_tuples, noticed, picker_opened, Overlay, TuiApp, TuiAppView};
use crate::commands::{
    bad_resume_text, goal_write_blocked, mode_plan, model_plan, thought_plan, validate_resume_id,
    validate_workspace_exists, Planned,
};
use crate::json::Json;
use crate::notices::{
    compact_confirm_prompt, compact_text, goal_blocked_text, goal_write_blocked_hint, help, help_text,
    readonly_text, resume_readonly_notice,
};
use crate::session::export::{entries, sid8, sid_short8};
use crate::session::extract::{
    available_models, models_of, offered, AvailableModel, AvailableModelView, MsgKind,
};
use crate::text::{
    blank, contains, dec, decimal, group_contains, join, joined, law_join_holds, lemma_contains_back,
    lemma_contains_trans,
    lemma_trim_solid, line_list, lines, trim,
};
use vstd::prelude::*;

verus! {

// ---------------------------------------------------------------- models

pub open spec fn model_entry(m: AvailableModelView) -> Seq<char> {
    "  "@ + m.provider_id + "/"@ + m.model_id + " — "@ + m.label + "\n"@
}

pub open spec fn model_entries(ms: Seq<AvailableModelView>) -> Seq<char>
    decreases ms.len(),
{
    if ms.len() == 0 {
        Seq::empty()
    } else {
        model_entries(ms.drop_last()) + model_entry(ms.last())
    }
}

pub open spec fn models_text(ms: Seq<AvailableModelView>) -> Seq<char> {
    if ms.len() == 0 {
        "(a sessão não listou modelos)"@
    } else {
        "modelos:\n"@ + model_entries(ms)
    }
}

/// The models that a session can be set to.
pub fn format_models_list(ms: &Vec<AvailableModel>) -> (r: String)
    ensures
        r@ == models_text(ms.deep_view()),
{
    if ms.len() == 0 {
        return "(a sessão não listou modelos)".to_owned();
    }
    let ghost all = ms.deep_view();
    let mut s = "modelos:\n".to_owned();
    let mut i: usize = 0;
    assert("modelos:\n"@ + model_entries(all.take(0)) =~= "modelos:\n"@);
    while i < ms.len()
        invariant
            i <= ms@.len(),
            all == ms.deep_view(),
            s@ == "modelos:\n"@ + model_entries(all.take(i as int)),
        decreases ms@.len() - i,
    {
        let ghost before = model_entries(all.take(i as int));
        let mut line = "  ".to_owned();
        line.append(ms[i].provider_id.as_str());
        line.append("/");
        line.append(ms[i].model_id.as_str());
        line.append(" — ");
        line.append(ms[i].label.as_str());
        line.append("\n");
        s.append(line.as_str());
        proof {
            assert(all.take(i + 1).drop_last() =~= all.take(i as int));
            assert(all.take(i + 1).last() == ms@[i as int].deep_view());
            assert(s@ =~= "modelos:\n"@ + (before + line@));
        }
        i = i + 1;
    }
    assert(all.take(all.len() as int) =~= all);
    s
}

// ---------------------------------------------------------------- queue

/// The waiting messages as they are shown: the first line of each, shortened.
pub open spec fn queue_items(queue: Seq<Seq<char>>) -> Seq<Seq<char>> {
    queue.map_values(|t: Seq<char>| truncated(first_of(lines(t)), 40))
}

pub open spec fn queue_text(queue: Seq<Seq<char>>) -> Seq<char> {
    if queue.len() == 0 {
        "fila vazia."@
    } else {
        "fila ("@ + dec(queue.len()) + "): "@ + join(queue_items(queue), " | "@)
    }
}

fn queue_line(queue: &Vec<String>) -> (r: String)
    ensures
        r@ == queue_text(queue.deep_view()),
{
    if queue.len() == 0 {
        return "fila vazia.".to_owned();
    }
    let ghost all = queue_items(queue.deep_view());
    let mut items: Vec<String> = Vec::new();
    let mut i: usize = 0;
    while i < queue.len()
        invariant
            i <= queue@.len(),
            all == queue_items(queue.deep_view()),
            items.deep_view() == all.take(i as int),
        decreases queue@.len() - i,
    {
        let ghost before = items.deep_view();
        let ls = line_list(queue[i].as_str());
        let first = if ls.len() == 0 {
            String::new()
        } else {
            ls[0].clone()
        };
        assert(first@ == first_of(lines(queue@[i as int]@)));
        let t = trunc_chars(first.as_str(), 40);
        let ghost one = t@;
        items.push(t);
        assert(items.deep_view() =~= before.push(one));
        assert(all.take(i + 1) =~= all.take(i as int).push(one));
        i = i + 1;
    }
    assert(all.take(all.len() as int) =~= all);
    let mut s = "fila (".to_owned();
    let d = decimal(queue.len() as u64);
    s.append(d.as_str());
    s.append("): ");
    let list = joined(&items, " | ");
    s.append(list.as_str());
    s
}

// ---------------------------------------------------------------- commands

/// What is done in the background after a command.
pub enum Job {
    Run(Task),
    /// Tell the changes in the workspace.
    Diff,
    /// Write the conversation out.
    Export { msgs: Vec<(String, String, MsgKind)>, path: Option<String>, json: bool },
}

/// What a command is told of its surroundings.
pub struct SlashEnv {
    /// The models of the session.
    pub models: Vec<AvailableModel>,
    /// A resumed session may be warm.
    pub quente: bool,
    /// The workspace that `/new` names, and whether it is a directory.
    pub new_ws: String,
    pub new_is_dir: bool,
}

pub open spec fn unknown_text(c: Seq<char>) -> Seq<char> {
    "comando desconhecido '"@ + c + "'. Use /help p/ a lista de comandos e atalhos."@
}

pub open spec fn queue_cleared_text(n: nat) -> Seq<char> {
    "fila limpa ("@ + dec(n) + " mensagem(ns) descartada(s))."@
}

pub open spec fn new_text(ws: Seq<char>, is_dir: bool) -> Seq<char> {
    if blank(ws) {
        "new falhou: "@ + "workspace vazio: informe --cwd <pasta>"@
    } else if !is_dir {
        "new falhou: "@ + crate::commands::no_workspace_text(ws)
    } else {
        "sessão nova: Ctrl+N aqui, ou saia e rode `new "@ + ws + "`."@
    }
}

/// A goal action, `show` where none is given.
pub open spec fn goal_word(action: Option<Seq<char>>) -> Seq<char> {
    match action {
        Some(a) => a,
        None => "show"@,
    }
}

pub open spec fn goal_writes(action: Seq<char>) -> bool {
    trim(action) == "set"@ || trim(action) == "replace"@
}

/// The interface after a command.
pub open spec fn slashed(a: TuiAppView, input: Input, env: SlashEnv) -> TuiAppView {
    match input {
        Input::Empty => TuiAppView { quit: true, ..a },
        Input::Exit => TuiAppView { quit: true, ..a },
        Input::Unknown(c) => noticed(a, unknown_text(c@)),
        Input::Help => noticed(a, help()),
        Input::Diff => a,
        Input::Usage => TuiAppView {
            overlay: Some(Overlay::Usage),
            status: "usage — qualquer tecla fecha"@,
            ..a
        },
        Input::Context => TuiAppView {
            overlay: Some(Overlay::Context),
            status: "contexto — qualquer tecla fecha"@,
            ..a
        },
        Input::Todos => TuiAppView {
            overlay: Some(Overlay::Todos),
            status: "todos — qualquer tecla fecha"@,
            ..a
        },
        Input::Queue(clear) => if clear {
            noticed(
                TuiAppView { queue: Seq::empty(), ..a },
                queue_cleared_text(a.queue.len()),
            )
        } else {
            noticed(a, queue_text(a.queue))
        },
        Input::Export { path, json } => noticed(a, "(exportando conversa…)"@),
        Input::Stop => a,
        Input::Mode(None) => noticed(a, "uso: /mode <plan|build|edit|yolo>"@),
        Input::Mode(Some(m)) => noticed(TuiAppView { mode: m@, ..a }, "modo: "@ + m@),
        Input::Model(None) => noticed(a, models_text(env.models.deep_view())),
        Input::Model(Some(m)) => noticed(TuiAppView { model: m@, ..a }, "modelo: "@ + m@),
        Input::Thought(None) => noticed(a, "uso: /thought <low|high|max>"@),
        Input::Thought(Some(l)) => noticed(a, "thought-level: "@ + l@),
        Input::Compact => noticed(TuiAppView { pending_compact: true, ..a }, compact_text()),
        Input::Resume(id) => if a.working {
            noticed(a, "(turno em andamento — Esc cancela antes de trocar de sessão.)"@)
        } else {
            match id {
                None => picker_opened(a),
                Some(i) => if blank(i@) {
                    noticed(a, "resume falhou: "@ + bad_resume_text())
                } else {
                    noticed(a, "(retomando sessão "@ + sid8(i@) + "…)"@)
                },
            }
        },
        Input::New(None) => noticed(
            a,
            "uso: Ctrl+N cria sessão nova aqui; ou saia e rode `new <pasta>`."@,
        ),
        Input::New(Some(_)) => noticed(a, new_text(env.new_ws@, env.new_is_dir)),
        Input::Fork(None) => noticed(a, "uso: /fork <id>"@),
        Input::Fork(Some(i)) => if blank(i@) {
            noticed(a, "fork falhou: "@ + bad_resume_text())
        } else {
            noticed(a, "(fork "@ + i@ + " em andamento…)"@)
        },
        Input::Goal(action) => if goal_writes(goal_word(action.deep_view())) {
            noticed(a, goal_blocked_text())
        } else {
            a
        },
        Input::Text(_) => noticed(a, readonly_text()),
    }
}

/// What a command leaves to be done.
pub open spec fn slash_job(a: TuiAppView, input: Input, env: SlashEnv, job: Option<Job>) -> bool {
    match input {
        Input::Diff => job matches Some(Job::Diff),
        Input::Usage => if a.last_usage is None {
            job matches Some(Job::Run(Task::Usage { notice })) && !notice
        } else {
            job is None
        },
        Input::Context => if a.last_usage is None {
            job matches Some(Job::Run(Task::Usage { notice })) && !notice
        } else {
            job is None
        },
        Input::Export { path, json } => job matches Some(Job::Export { msgs, path: p, json: j })
            && entries(msgs@) == exported(a.messages) && p.deep_view() == path.deep_view() && j == json,
        Input::Stop => job matches Some(Job::Run(Task::Stop { say })) && say,
        Input::Mode(Some(m)) => job matches Some(Job::Run(Task::Mode { mode })) && mode@ == m@,
        Input::Model(Some(m)) => job matches Some(Job::Run(Task::Model { model })) && model@ == m@,
        Input::Thought(Some(l)) => job matches Some(Job::Run(Task::Thought { level })) && level@
            == l@,
        Input::Resume(id) => if a.working {
            job is None
        } else {
            match id {
                None => job matches Some(Job::Run(Task::Sessions)),
                Some(i) => if blank(i@) {
                    job is None
                } else {
                    job matches Some(Job::Run(Task::Switch { id: x, quente })) && x@ == i@ && quente
                        == env.quente
                },
            }
        },
        Input::Fork(Some(i)) => if blank(i@) {
            job is None
        } else {
            job matches Some(Job::Run(Task::Fork { id })) && id@ == i@
        },
        Input::Goal(action) => if goal_writes(goal_word(action.deep_view())) {
            job is None
        } else {
            job matches Some(Job::Run(Task::Goal { action: x })) && x@ == goal_word(
                action.deep_view(),
            )
        },
        _ => job is None,
    }
}

fn say2(app: &mut TuiApp, a: &str, b: &str)
    ensures
        final(app)@ == noticed(old(app)@, a@ + b@),
{
    let mut s = a.to_owned();
    s.append(b);
    app.notice(s.as_str());
}

fn say3(app: &mut TuiApp, a: &str, b: &str, c: &str)
    ensures
        final(app)@ == noticed(old(app)@, a@ + b@ + c@),
{
    let mut s = a.to_owned();
    s.append(b);
    s.append(c);
    app.notice(s.as_str());
}

fn show_overlay(app: &mut TuiApp, o: Overlay, status: &str) -> (job: Option<Job>)
    ensures
        final(app)@ == (TuiAppView { overlay: Some(o), status: status@, ..old(app)@ }),
        if o != Overlay::Todos && old(app)@.last_usage is None {
            job matches Some(Job::Run(Task::Usage { notice })) && !notice
        } else {
            job is None
        },
{
    app.overlay = Some(o);
    app.status = status.to_owned();
    if o != Overlay::Todos && app.last_usage.is_none() {
        Some(Job::Run(Task::Usage { notice: false }))
    } else {
        None
    }
}

fn slash_queue(app: &mut TuiApp, clear: bool)
    ensures
        final(app)@ == if clear {
            noticed(
                TuiAppView { queue: Seq::empty(), ..old(app)@ },
                queue_cleared_text(old(app)@.queue.len()),
            )
        } else {
            noticed(old(app)@, queue_text(old(app)@.queue))
        },
{
    if clear {
        let n: usize = app.queue_clear();
        let d = decimal(n as u64);
        say3(app, "fila limpa (", d.as_str(), " mensagem(ns) descartada(s)).");
    } else {
        let t = queue_line(&app.queue);
        app.notice(t.as_str());
    }
}

fn slash_resume(app: &mut TuiApp, id: &Option<String>, quente: bool) -> (job: Option<Job>)
    ensures
        final(app)@ == if old(app)@.working {
            noticed(old(app)@, "(turno em andamento — Esc cancela antes de trocar de sessão.)"@)
        } else {
            match id {
                None => picker_opened(old(app)@),
                Some(i) => if blank(i@) {
                    noticed(old(app)@, "resume falhou: "@ + bad_resume_text())
                } else {
                    noticed(old(app)@, "(retomando sessão "@ + sid8(i@) + "…)"@)
                },
            }
        },
        if old(app)@.working {
            job is None
        } else {
            match id {
                None => job matches Some(Job::Run(Task::Sessions)),
                Some(i) => if blank(i@) {
                    job is None
                } else {
                    job matches Some(Job::Run(Task::Switch { id: x, quente: q })) && x@ == i@ && q
                        == quente
                },
            }
        },
{
    if app.working {
        app.notice("(turno em andamento — Esc cancela antes de trocar de sessão.)");
        return None;
    }
    match id {
        None => {
            app.open_session_picker();
            Some(Job::Run(Task::Sessions))
        },
        Some(i) => match validate_resume_id(i.as_str()) {
            Err(e) => {
                let t = e.to_text();
                say2(app, "resume falhou: ", t.as_str());
                None
            },
            Ok(()) => {
                let s = sid_short8(i.as_str());
                say3(app, "(retomando sessão ", s.as_str(), "…)");
                Some(Job::Run(Task::Switch { id: i.clone(), quente }))
            },
        },
    }
}

fn slash_new(app: &mut TuiApp, env: &SlashEnv)
    ensures
        final(app)@ == noticed(old(app)@, new_text(env.new_ws@, env.new_is_dir)),
{
    match validate_workspace_exists(env.new_ws.as_str(), env.new_is_dir) {
        Ok(()) => {
            say3(
                app,
                "sessão nova: Ctrl+N aqui, ou saia e rode `new ",
                env.new_ws.as_str(),
                "`.",
            );
        },
        Err(e) => {
            let t = e.to_text();
            say2(app, "new falhou: ", t.as_str());
        },
    }
}

fn slash_fork(app: &mut TuiApp, id: &String) -> (job: Option<Job>)
    ensures
        final(app)@ == if blank(id@) {
            noticed(old(app)@, "fork falhou: "@ + bad_resume_text())
        } else {
            noticed(old(app)@, "(fork "@ + id@ + " em andamento…)"@)
        },
        if blank(id@) {
            job is None
        } else {
            job matches Some(Job::Run(Task::Fork { id: x })) && x@ == id@
        },
{
    match validate_resume_id(id.as_str()) {
        Err(e) => {
            let t = e.to_text();
            say2(app, "fork falhou: ", t.as_str());
            None
        },
        Ok(()) => {
            say3(app, "(fork ", id.as_str(), " em andamento…)");
            Some(Job::Run(Task::Fork { id: id.clone() }))
        },
    }
}

fn slash_goal(app: &mut TuiApp, action: &Option<String>) -> (job: Option<Job>)
    ensures
        final(app)@ == if goal_writes(goal_word(action.deep_view())) {
            noticed(old(app)@, goal_blocked_text())
        } else {
            old(app)@
        },
        if goal_writes(goal_word(action.deep_view())) {
            job is None
        } else {
            job matches Some(Job::Run(Task::Goal { action: x })) && x@ == goal_word(
                action.deep_view(),
            )
        },
{
    let a = match action {
        Some(t) => t.clone(),
        None => "show".to_owned(),
    };
    if goal_write_blocked(a.as_str()) {
        let h = goal_write_blocked_hint();
        app.notice(h.as_str());
        None
    } else {
        Some(Job::Run(Task::Goal { action: a }))
    }
}

fn slash_setting(app: &mut TuiApp, input: &Input, env: &SlashEnv) -> (job: Option<Job>)
    requires
        *input is Mode || *input is Model || *input is Thought || *input is Compact,
    ensures
        final(app)@ == slashed(old(app)@, *input, *env),
        slash_job(old(app)@, *input, *env, job),
{
    match input {
        Input::Mode(None) => {
            app.notice("uso: /mode <plan|build|edit|yolo>");
            None
        },
        Input::Mode(Some(m)) => {
            app.mode = m.clone();
            say2(app, "modo: ", m.as_str());
            Some(Job::Run(Task::Mode { mode: m.clone() }))
        },
        Input::Model(None) => {
            let t = format_models_list(&env.models);
            app.notice(t.as_str());
            None
        },
        Input::Model(Some(m)) => {
            app.model = m.clone();
            say2(app, "modelo: ", m.as_str());
            Some(Job::Run(Task::Model { model: m.clone() }))
        },
        Input::Thought(None) => {
            app.notice("uso: /thought <low|high|max>");
            None
        },
        Input::Thought(Some(l)) => {
            say2(app, "thought-level: ", l.as_str());
            Some(Job::Run(Task::Thought { level: l.clone() }))
        },
        Input::Compact => {
            app.pending_compact = true;
            let t = compact_confirm_prompt();
            app.notice(t.as_str());
            None
        },
        _ => None,
    }
}

/// Carries out a command; returns what is left to be done in the background.
#[verifier::rlimit(30)]
pub fn handle_tui_slash(app: &mut TuiApp, input: &Input, env: &SlashEnv) -> (job: Option<Job>)
    ensures
        final(app)@ == slashed(old(app)@, *input, *env),
        slash_job(old(app)@, *input, *env, job),
{
    match input {
        Input::Empty => {
            app.quit = true;
            None
        },
        Input::Exit => {
            app.quit = true;
            None
        },
        Input::Unknown(c) => {
            say3(
                app,
                "comando desconhecido '",
                c.as_str(),
                "'. Use /help p/ a lista de comandos e atalhos.",
            );
            None
        },
        Input::Help => {
            let h = help_text();
            app.notice(h.as_str());
            None
        },
        Input::Diff => Some(Job::Diff),
        Input::Usage => show_overlay(app, Overlay::Usage, "usage — qualquer tecla fecha"),
        Input::Context => show_overlay(app, Overlay::Context, "contexto — qualquer tecla fecha"),
        Input::Todos => show_overlay(app, Overlay::Todos, "todos — qualquer tecla fecha"),
        Input::Queue(clear) => {
            slash_queue(app, *clear);
            None
        },
        Input::Export { path, json } => {
            let msgs = export_tuples(app);
            app.notice("(exportando conversa…)");
            let p = match path {
                Some(x) => Some(x.clone()),
                None => None,
            };
            Some(Job::Export { msgs, path: p, json: *json })
        },
        Input::Stop => Some(Job::Run(Task::Stop { say: true })),
        Input::Mode(_) => slash_setting(app, input, env),
        Input::Model(_) => slash_setting(app, input, env),
        Input::Thought(_) => slash_setting(app, input, env),
        Input::Compact => slash_setting(app, input, env),
        Input::Resume(id) => slash_resume(app, id, env.quente),
        Input::New(None) => {
            app.notice("uso: Ctrl+N cria sessão nova aqui; ou saia e rode `new <pasta>`.");
            None
        },
        Input::New(Some(_)) => {
            slash_new(app, env);
            None
        },
        Input::Fork(None) => {
            app.notice("uso: /fork <id>");
            None
        },
        Input::Fork(Some(id)) => slash_fork(app, id),
        Input::Goal(action) => slash_goal(app, action),
        Input::Text(_) => {
            let t = resume_readonly_notice();
            app.notice(t.as_str());
            None
        },
    }
}

/// The models that `/model` lists: those that the session was created with.
pub fn slash_env(created: &Json, quente: bool, new_ws: &str, new_is_dir: bool) -> (r: SlashEnv)
    ensures
        r.models.deep_view() == models_of(offered(created@)),
        r.quente == quente,
        r.new_ws@ == new_ws@,
        r.new_is_dir == new_is_dir,
{
    SlashEnv {
        models: available_models(created),
        quente,
        new_ws: new_ws.to_owned(),
        new_is_dir,
    }
}

/// What `/diff` tells: the changes of the last turn and those that git counts.
pub fn diff_report(last: Option<&WorkspaceDiff>, git_stat: Option<&str>) -> (r: String)
    ensures
        r@ == match diff_notice(
            match last {
                Some(d) => Some(*d),
                None => None,
            },
            match git_stat {
                Some(s) => Some(s@),
                None => None,
            },
        ) {
            Some(t) => t,
            None => "(sem mudanças: nem snapshot de turno nem diff git no workspace)"@,
        },
{
    match format_diff_notice(last, git_stat) {
        Some(t) => t,
        None => "(sem mudanças: nem snapshot de turno nem diff git no workspace)".to_owned(),
    }
}

// ---------------------------------------------------------------- laws

/// No command touches the messages of the agent or the user; a running turn is
/// not left by one; and only `/queue clear` empties the queue.
pub proof fn law_commands_are_gentle(a: TuiAppView, input: Input, env: SlashEnv)
    ensures
        ({
            let b = slashed(a, input, env);
            &&& b.session_id == a.session_id
            &&& b.working == a.working
            &&& a.messages.is_prefix_of(b.messages)
            &&& b.queue != a.queue ==> (input matches Input::Queue(clear) && clear)
            &&& b.quit && !a.quit ==> input is Exit || input is Empty
        }),
{
    let b = slashed(a, input, env);
    assert(a.messages =~= b.messages.subrange(0, a.messages.len() as int));
}

/// While a turn runs, no session is switched to.
pub proof fn law_no_switch_during_turn(a: TuiAppView, input: Input, env: SlashEnv, job: Option<Job>)
    requires
        a.working,
        slash_job(a, input, env, job),
    ensures
        !(job matches Some(Job::Run(Task::Switch { .. }))),
        !(job matches Some(Job::Run(Task::Sessions))),
{
}

/// A command of the prompt asks the server for what was typed: the session that
/// was named, the mode, the model, the level.
pub proof fn law_commands_ask_as_typed(
    a: TuiAppView,
    input: Input,
    env: SlashEnv,
    job: Option<Job>,
    sid: Seq<char>,
    ws: Seq<char>,
)
    requires
        slash_job(a, input, env, job),
    ensures
        input matches Input::Mode(Some(m)) ==> (job matches Some(Job::Run(t)) && task_plan(t, sid, ws)
            == mode_plan(sid, m@)),
        input matches Input::Model(Some(m)) ==> (job matches Some(Job::Run(t)) && task_plan(
            t,
            sid,
            ws,
        ) == model_plan(sid, m@)),
        input matches Input::Thought(Some(m)) ==> (job matches Some(Job::Run(t)) && task_plan(
            t,
            sid,
            ws,
        ) == thought_plan(sid, m@)),
        input matches Input::Resume(Some(i)) ==> (!a.working && !blank(i@) ==> (job matches Some(
            Job::Run(t),
        ) && (task_plan(t, sid, ws) matches Planned::Made { method, params, timeout_secs } && method
            == "session/resume"@ && params.text_at("sessionId"@) == Some(i@)))),
        input matches Input::Fork(Some(i)) ==> (!blank(i@) ==> (job matches Some(Job::Run(t)) && (
        task_plan(t, sid, ws) matches Planned::Made { method, params, timeout_secs } && method
            == "session/fork"@ && params.text_at("sessionId"@) == Some(i@)))),
        input is Stop ==> (job matches Some(Job::Run(t)) && t is Stop),
        input matches Input::Export { path, json } ==> (job matches Some(
            Job::Export { msgs, path: p, json: j },
        ) && j == json && p.deep_view() == path.deep_view() && (forall|i: int|
            0 <= i < a.messages.len() && a.messages[i].text != splash_text() ==> entries(
                msgs@,
            ).contains(
                ((#[trigger] a.messages[i]).role, a.messages[i].text, a.messages[i].kind),
            ))),
{
    assert forall|i: int|
        0 <= i < a.messages.len() && a.messages[i].text != splash_text() implies exported(
        a.messages,
    ).contains(((#[trigger] a.messages[i]).role, a.messages[i].text, a.messages[i].kind)) by {
        law_exported_holds(a.messages, i);
    }
}

/// What is typed is what is shown: the mode, the model, the window asked for.
pub proof fn law_commands_show_as_typed(a: TuiAppView, input: Input, env: SlashEnv)
    ensures
        ({
            let b = slashed(a, input, env);
            &&& input matches Input::Mode(Some(m)) ==> b.mode == m@ && b.model == a.model
            &&& input matches Input::Model(Some(m)) ==> b.model == m@ && b.mode == a.mode
            &&& input is Usage ==> b.overlay == Some(Overlay::Usage)
            &&& input is Context ==> b.overlay == Some(Overlay::Context)
            &&& input is Todos ==> b.overlay == Some(Overlay::Todos)
            &&& input matches Input::Queue(clear) ==> (clear ==> b.queue.len() == 0)
            &&& input is Exit ==> b.quit
            &&& input is Compact ==> b.pending_compact
        }),
{
}

/// Every model on offer is listed by its provider and id, and by its label.
pub proof fn law_models_text_holds(ms: Seq<AvailableModelView>, i: int)
    requires
        0 <= i < ms.len(),
    ensures
        contains(models_text(ms), ms[i].provider_id + "/"@ + ms[i].model_id),
        contains(models_text(ms), ms[i].label),
{
    let all = models_text(ms);
    let one = model_entry(ms[i]);
    let name = ms[i].provider_id + "/"@ + ms[i].model_id;
    lemma_model_entries_hold(ms, i);
    lemma_contains_back("modelos:\n"@, model_entries(ms), one);
    lemma_model_entry_holds(ms[i]);
    lemma_contains_trans(all, one, name);
    lemma_contains_trans(all, one, ms[i].label);
}

proof fn lemma_model_entry_holds(m: AvailableModelView)
    ensures
        contains(model_entry(m), m.provider_id + "/"@ + m.model_id),
        contains(model_entry(m), m.label),
{
    let name = m.provider_id + "/"@ + m.model_id;
    let one = "  "@ + name + " — "@ + m.label + "\n"@;
    assert(model_entry(m) =~= one);
    assert(contains(one, name) && contains(one, m.label)) by {
        broadcast use group_contains;

    }
}

proof fn lemma_model_entries_hold(ms: Seq<AvailableModelView>, i: int)
    requires
        0 <= i < ms.len(),
    ensures
        contains(model_entries(ms), model_entry(ms[i])),
    decreases ms.len(),
{
    broadcast use group_contains;

    if i < ms.len() - 1 {
        lemma_model_entries_hold(ms.drop_last(), i);
        assert(ms.drop_last()[i] == ms[i]);
    }
}

/// The models are listed in their order.
pub proof fn law_models_text_in_order(a: Seq<AvailableModelView>, b: Seq<AvailableModelView>)
    ensures
        model_entries(a + b) == model_entries(a) + model_entries(b),
    decreases b.len(),
{
    if b.len() == 0 {
        assert(a + b =~= a);
        assert(model_entries(a) + model_entries(b) =~= model_entries(a));
    } else {
        assert((a + b).drop_last() =~= a + b.drop_last());
        law_models_text_in_order(a, b.drop_last());
        assert(model_entries(a + b) =~= model_entries(a) + model_entries(b));
    }
}

/// The queue is told with its length and every message in it by its first line.
pub proof fn law_queue_text_holds(queue: Seq<Seq<char>>, i: int)
    requires
        0 <= i < queue.len(),
    ensures
        contains(queue_text(queue), dec(queue.len())),
        contains(queue_text(queue), truncated(first_of(lines(queue[i])), 40)),
        contains(queue_cleared_text(queue.len()), dec(queue.len())),
        contains(unknown_text(queue[i]), queue[i]),
{
    broadcast use group_contains;

    let all = queue_text(queue);
    let items = queue_items(queue);
    law_join_holds(items, " | "@, i);
    assert(items[i] == truncated(first_of(lines(queue[i])), 40));
    assert(contains(all, join(items, " | "@)));
    lemma_contains_trans(all, join(items, " | "@), items[i]);
}

/// A goal is shown unless another action is named, and writing one is told by
/// its word alone.
pub proof fn law_goal_words(action: Seq<char>)
    ensures
        goal_word(Some(action)) == action,
        goal_word(None) == "show"@,
        goal_writes("set"@),
        goal_writes("replace"@),
        !goal_writes("show"@),
        !goal_writes("pause"@),
{
    reveal_strlit("set");
    reveal_strlit("replace");
    reveal_strlit("show");
    reveal_strlit("pause");
    assert("set"@.len() == 3 && "replace"@.len() == 7 && "show"@.len() == 4 && "pause"@.len() == 5);
    lemma_trim_solid("set"@);
    lemma_trim_solid("replace"@);
    lemma_trim_solid("show"@);
    lemma_trim_solid("pause"@);
}

/// The commands without an argument of their own: the list of sessions, the
/// changes, the goal, the numbers where none are known yet.
pub proof fn law_plain_commands(a: TuiAppView, input: Input, env: SlashEnv, job: Option<Job>)
    requires
        slash_job(a, input, env, job),
    ensures
        input matches Input::Resume(None) ==> (!a.working ==> (job matches Some(Job::Run(t)) && t is Sessions)),
        input is Diff ==> job == Some(Job::Diff),
        input is Usage ==> (job is Some <==> a.last_usage is None),
        input matches Input::Goal(Some(g)) ==> (!goal_writes(g@) ==> (job matches Some(Job::Run(t)) && (
        t matches Task::Goal { action } && action@ == g@))),
        input is Exit || input is Help || input is Text || input is Unknown ==> job is None,
        job matches Some(Job::Run(t)) ==> (t matches Task::Switch { id, quente } ==> quente
            == env.quente),
{
}

} // verus!
