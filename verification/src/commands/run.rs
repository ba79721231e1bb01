//! The commands without an interface: what each decides, and what it tells.

use crate::commands::repl::{response_json, response_object, Said, SaidView};
use crate::commands::snapshot::{created_files, modified_files, WorkspaceDiff};
use crate::commands::tables::{
    format_local_history, format_session_list_numbered, format_sessions_table,
    law_numbered_list_holds, lists_sessions,
    local_text, numbered_text, reading_text, sessions_table, show_resumed_reading,
};
use crate::commands::tasks::history_entry;
use crate::commands::{
    bad_resume_text, runtime_failed, validate_resume_id, CmdError,
};
use crate::config::{normalize_workspace, parse_toml_in, workspace_path, FileConfig};
use crate::daemon_client::{
    means_cold, r1_resume_may_send, r1_send_err_means_cold, TransportKind,
};
use crate::json::{no_fields, pretty_of_json, write_json_pretty, Json, JsonView};
use crate::notices::{
    fork_hint, fork_no_checkpoint_hint, readonly_text, resume_readonly_notice,
};
use crate::runtime::RuntimeError;
use crate::session::calls::{fork_session, resume_session, sid_view, Call};
use crate::session::extract::{
    effective_model, effective_model_text, extract_session_id, law_usage_of_its_entries,
    session_id_of, session_title, title_of, usage_of, Usage,
};
use crate::session::history::{
    goes_on_with, latest, latest_for_workspace, law_latest_goes_on, HistoryEntry, HistoryEntryView,
};
use crate::session::listing::{pick_json, pick_list, SessionRow, SessionRowView};
use crate::session::SessionError;
use crate::text::{
    blank, contains, dec, decimal, group_contains, law_decimal_reads_back, lists, parse_unsigned, parsed, trim, trimmed,
};
use vstd::prelude::*;

verus! {

// ---------------------------------------------------------------- routes

/// A subcommand.
#[derive(Debug, Clone, PartialEq, Eq)]
pub enum Cmd {
    Tui,
    Sessions { limit: u32 },
    Resume { id: Option<String> },
    New { pasta: String },
    Fork { id: String },
    Usage { id: Option<String> },
    Doctor { fix: bool },
    Init { force: bool },
    Completions,
    Council { pergunta: String, agents: u8, rounds: u8, timeout: u64 },
    Daemon { stop: bool },
}

/// What a command line comes to.
#[derive(Debug, Clone, PartialEq, Eq)]
pub enum Route {
    Command(Cmd),
    /// A prompt for the last session of the workspace.
    ContinueWith(String),
    OneShot(String),
    /// Read the last session of the workspace.
    Continue,
    Repl,
}

/// A subcommand goes first; without one, a prompt is a single turn, and no
/// prompt is a conversation.
pub fn route(cmd: Option<Cmd>, prompt: Option<String>, cont: bool) -> (r: Route)
    ensures
        match cmd {
            Some(c) => r == Route::Command(c),
            None => match prompt {
                Some(p) => r == if cont {
                    Route::ContinueWith(p)
                } else {
                    Route::OneShot(p)
                },
                None => r == if cont {
                    Route::Continue
                } else {
                    Route::Repl
                },
            },
        },
        cmd is None && prompt is Some ==> r is ContinueWith || r is OneShot,
        cmd is None ==> (cont <==> r is ContinueWith || r is Continue),
{
    match cmd {
        Some(c) => Route::Command(c),
        None => match prompt {
            Some(p) => if cont {
                Route::ContinueWith(p)
            } else {
                Route::OneShot(p)
            },
            None => if cont {
                Route::Continue
            } else {
                Route::Repl
            },
        },
    }
}

/// The settings of a file, with a warning where it cannot be read.
pub fn load_config_warn(text: Option<&str>, workspace: &str) -> (r: (FileConfig, Option<String>))
    ensures
        r.0.deep_view() == match text {
            Some(t) => match crate::config::config_of_text(t@, workspace@) {
                Some(c) => c,
                None => crate::config::config_defaults(workspace@),
            },
            None => crate::config::config_defaults(workspace@),
        },
        match text {
            Some(t) => if crate::config::config_of_text(t@, workspace@) is Some {
                r.1 is None
            } else {
                r.1 matches Some(w) && w@ == "aviso: config.toml inválido ("@
                    + crate::config::config_error(t@) + ") — usando os padrões"@
            },
            None => r.1 is None,
        },
{
    match text {
        None => (FileConfig::of_workspace(workspace), None),
        Some(t) => match parse_toml_in(t, workspace) {
            Ok(c) => (c, None),
            Err(e) => {
                let mut s = "aviso: config.toml inválido (".to_owned();
                s.append(e.as_str());
                s.append(") — usando os padrões");
                (FileConfig::of_workspace(workspace), Some(s))
            },
        },
    }
}

/// The workspace as it was given: on the command line, else in the settings.
pub open spec fn workspace_given(cwd: Option<Seq<char>>, configured: Seq<char>) -> Seq<char> {
    match cwd {
        Some(c) => c,
        None => configured,
    }
}

/// The workspace of a command, before it is made absolute.
pub fn raw_workspace(cwd: Option<&str>, cfg: &FileConfig) -> (r: String)
    ensures
        r@ == workspace_given(
            match cwd {
                Some(c) => Some(c@),
                None => None,
            },
            cfg.default.workspace@,
        ),
{
    match cwd {
        Some(c) => c.to_owned(),
        None => cfg.default.workspace.clone(),
    }
}

/// The workspace of a command; `absolute` as for `normalize_workspace`.
pub fn resolve_workspace(cwd: Option<&str>, cfg: &FileConfig, absolute: Option<&str>) -> (r: String)
    ensures
        r@ == workspace_path(
            workspace_given(
                match cwd {
                    Some(c) => Some(c@),
                    None => None,
                },
                cfg.default.workspace@,
            ),
            match absolute {
                Some(a) => Some(a@),
                None => None,
            },
        ),
{
    let raw = raw_workspace(cwd, cfg);
    normalize_workspace(raw.as_str(), absolute)
}

// ---------------------------------------------------------------- targets

pub open spec fn fails_with<T>(r: Result<T, CmdError>, text: Seq<char>) -> bool {
    r matches Err(CmdError::Session(m)) && m@ == text
}

fn session_error2<T>(a: &str, b: &str) -> (r: Result<T, CmdError>)
    ensures
        fails_with(r, a@ + b@),
{
    let mut s = a.to_owned();
    s.append(b);
    Err(CmdError::Session(s))
}

fn session_error3<T>(a: &str, b: &str, c: &str) -> (r: Result<T, CmdError>)
    ensures
        fails_with(r, a@ + b@ + c@),
{
    let mut s = a.to_owned();
    s.append(b);
    s.append(c);
    Err(CmdError::Session(s))
}

fn latest_id(history: &Vec<HistoryEntry>, ws: &str) -> (r: Option<String>)
    ensures
        match latest(history.deep_view(), ws@) {
            Some(e) => r matches Some(s) && s@ == e.session_id,
            None => r is None,
        },
        r matches Some(s) ==> goes_on_with(history.deep_view(), ws@, s@),
{
    proof {
        law_latest_goes_on(history.deep_view(), ws@);
    }
    match latest_for_workspace(history, ws) {
        Some(e) => Some(e.session_id),
        None => None,
    }
}

/// The session that `-c` continues: the last of the workspace.
pub fn continue_target(history: &Vec<HistoryEntry>, ws: &str) -> (r: Result<String, CmdError>)
    ensures
        match latest(history.deep_view(), ws@) {
            Some(e) => if blank(e.session_id) {
                fails_with(r, bad_resume_text())
            } else {
                r matches Ok(s) && s@ == e.session_id
            },
            None => fails_with(r, "nenhuma sessão anterior em "@ + ws@),
        },
        r matches Ok(s) ==> goes_on_with(history.deep_view(), ws@, s@) && !blank(s@),
{
    match latest_id(history, ws) {
        Some(id) => match validate_resume_id(id.as_str()) {
            Ok(()) => Ok(id),
            Err(e) => Err(e),
        },
        None => session_error2("nenhuma sessão anterior em ", ws),
    }
}

/// The session that `usage` speaks of.
pub fn resolve_usage_target(id: &Option<String>, history: &Vec<HistoryEntry>, ws: &str) -> (r:
    Result<String, CmdError>)
    ensures
        match *id {
            Some(s) => r matches Ok(t) && t@ == s@,
            None => match latest(history.deep_view(), ws@) {
                Some(e) => r matches Ok(t) && t@ == e.session_id,
                None => fails_with(
                    r,
                    "sem id e sem sessão anterior em "@ + ws@ + ": use usage <id>"@,
                ),
            },
        },
        *id is None ==> (r matches Ok(s) ==> goes_on_with(history.deep_view(), ws@, s@)),
        *id is Some ==> (r matches Ok(s) && s@ == id->0@),
{
    match id {
        Some(s) => Ok(s.clone()),
        None => match latest_id(history, ws) {
            Some(t) => Ok(t),
            None => session_error3("sem id e sem sessão anterior em ", ws, ": use usage <id>"),
        },
    }
}

/// How the session to resume is found.
pub enum ResumeTarget {
    Known(String),
    Fail(CmdError),
    /// Choose one of the sessions that there are.
    List,
}

/// The session that `resume` names: by its id, or by `-c` the last of the
/// workspace; otherwise one has to be chosen.
pub fn resume_target(id: &Option<String>, cont: bool, history: &Vec<HistoryEntry>, ws: &str) -> (r:
    ResumeTarget)
    ensures
        match *id {
            Some(s) => if blank(s@) {
                r matches ResumeTarget::Fail(CmdError::Session(m)) && m@ == bad_resume_text()
            } else {
                r matches ResumeTarget::Known(t) && t@ == s@
            },
            None => if cont {
                match latest(history.deep_view(), ws@) {
                    Some(e) => r matches ResumeTarget::Known(t) && t@ == e.session_id,
                    None => r matches ResumeTarget::Fail(CmdError::Session(m)) && m@
                        == "nenhuma sessão anterior em "@ + ws@ + " (use resume <id>)"@,
                }
            } else {
                r is List
            },
        },
        r matches ResumeTarget::Known(t) ==> if *id is Some {
            t@ == id->0@ && !blank(t@)
        } else {
            cont && goes_on_with(history.deep_view(), ws@, t@)
        },
{
    match id {
        Some(s) => match validate_resume_id(s.as_str()) {
            Ok(()) => ResumeTarget::Known(s.clone()),
            Err(e) => ResumeTarget::Fail(e),
        },
        None => {
            if cont {
                match latest_id(history, ws) {
                    Some(t) => ResumeTarget::Known(t),
                    None => {
                        let mut s = "nenhuma sessão anterior em ".to_owned();
                        s.append(ws);
                        s.append(" (use resume <id>)");
                        ResumeTarget::Fail(CmdError::Session(s))
                    },
                }
            } else {
                ResumeTarget::List
            }
        },
    }
}

/// What is done with the sessions to choose from.
pub enum Choice {
    /// Tell, then fail.
    Refuse { says: Vec<Said>, error: CmdError },
    /// Show the list, ask for a number.
    Ask { list: String, question: String },
}

pub open spec fn nobody_to_ask() -> Seq<char> {
    "resume sem id em modo não interativo — escolha um id da lista"@
}

/// What is told where nobody can be asked.
pub open spec fn listing_told(rows: Seq<SessionRowView>, json: bool) -> Seq<SaidView> {
    if json {
        seq![SaidView::Out(pretty_of_json(pick_json(rows)))]
    } else {
        seq![
            SaidView::Warn(numbered_text(rows)),
            SaidView::Warn("informe: zcode-cli resume <id>  (ou -c p/ a última da pasta)"@),
        ]
    }
}

/// Offers the sessions; without a terminal, or for a program, they are listed
/// and the command fails.
pub fn offer_rows(rows: &Vec<SessionRow>, tty: bool, json: bool) -> (r: Choice)
    ensures
        if rows@.len() == 0 {
            r matches Choice::Refuse { says, error: CmdError::Session(m) } && says@.len() == 0 && m@
                == "nenhuma sessão encontrada (use new <pasta> p/ criar)"@
        } else if !tty || json {
            r matches Choice::Refuse { says, error: CmdError::Session(m) } && says.deep_view()
                == listing_told(rows.deep_view(), json) && m@ == nobody_to_ask()
        } else {
            r matches Choice::Ask { list, question } && list@ == numbered_text(rows.deep_view())
                && question@ == "número da sessão (1-"@ + dec(rows@.len()) + "): "@
        },
{
    if rows.len() == 0 {
        return Choice::Refuse {
            says: Vec::new(),
            error: CmdError::Session(
                "nenhuma sessão encontrada (use new <pasta> p/ criar)".to_owned(),
            ),
        };
    }
    if !tty || json {
        let mut says: Vec<Said> = Vec::new();
        if json {
            let v = pick_list(rows);
            says.push(Said::Out(write_json_pretty(&v)));
        } else {
            says.push(Said::Warn(format_session_list_numbered(rows)));
            says.push(
                Said::Warn(
                    "informe: zcode-cli resume <id>  (ou -c p/ a última da pasta)".to_owned(),
                ),
            );
        }
        assert(says.deep_view() =~= listing_told(rows.deep_view(), json));
        return Choice::Refuse {
            says,
            error: CmdError::Session(
                "resume sem id em modo não interativo — escolha um id da lista".to_owned(),
            ),
        };
    }
    let mut q = "número da sessão (1-".to_owned();
    let d = decimal(rows.len() as u64);
    q.append(d.as_str());
    q.append("): ");
    Choice::Ask { list: format_session_list_numbered(rows), question: q }
}

/// A text in quotes, with its special characters escaped, as `{:?}` writes it.
pub uninterp spec fn debug_of_text(s: Seq<char>) -> Seq<char>;

/// Calls `format!` with `{:?}` on a text: the contract names what `Debug` of
/// `str` writes for it.
#[verifier::external_body]
fn debug_text(s: &str) -> (r: String)
    ensures
        r@ == debug_of_text(s@),
{
    format!("{:?}", s)
}

/// The session that a typed number stands for.
pub fn chosen_row(rows: &Vec<SessionRow>, line: &str) -> (r: Result<String, CmdError>)
    ensures
        match parse_unsigned(trim(line@), usize::MAX as nat) {
            None => fails_with(r, "entrada inválida: "@ + debug_of_text(trim(line@))),
            Some(n) => if 1 <= n <= rows@.len() {
                r matches Ok(id) && id@ == rows.deep_view()[n - 1].id
            } else {
                fails_with(r, "fora do intervalo 1-"@ + dec(rows@.len()))
            },
        },
        forall|n: nat|
            trim(line@) == #[trigger] dec(n) && 1 <= n <= rows@.len() ==> (r matches Ok(id) && id@
                == rows.deep_view()[n - 1].id),
{
    proof {
        assert forall|n: nat| trim(line@) == #[trigger] dec(n) && 1 <= n <= rows@.len() implies parse_unsigned(
            trim(line@),
            usize::MAX as nat,
        ) == Some(n) by {
            assert(rows.len() == rows@.len());
            law_decimal_reads_back(n, usize::MAX as nat);
        }
    }
    let t = trimmed(line);
    match parsed(t.as_str(), usize::MAX as u64) {
        None => {
            let d = debug_text(t.as_str());
            session_error2("entrada inválida: ", d.as_str())
        },
        Some(n) => {
            if n == 0 || n > rows.len() as u64 {
                let d = decimal(rows.len() as u64);
                session_error2("fora do intervalo 1-", d.as_str())
            } else {
                let i: usize = (n - 1) as usize;
                assert(rows.deep_view()[i as int] == rows@[i as int].deep_view());
                Ok(rows[i].id.clone())
            }
        },
    }
}

// ---------------------------------------------------------------- resuming

/// A session being resumed: first it is read, then a prompt may be tried on it.
pub struct Resuming {
    pub target: String,
    pub prompt: Option<String>,
    pub json: bool,
    /// By the subcommand, not by `-c`.
    pub by_command: bool,
    pub kind: TransportKind,
}

/// What comes after the session was read.
pub enum AfterReading {
    /// Try the prompt as a turn.
    Send(String),
    /// The prompt is not sent; say so, and end.
    Ignore(Vec<Said>),
    /// Go on reading.
    Prompt,
}

pub open spec fn ignored_warning(by_command: bool) -> Seq<char> {
    if by_command {
        "R1: resume é leitura; novo turno só em sessão warm ou nova. Use: new <pasta> ou zcode-cli sem args."@
    } else {
        "R1: resume é leitura; novo turno só em sessão warm ou nova."@
    }
}

pub open spec fn ignored_json(sid: Seq<char>, prompt: Seq<char>, by_command: bool) -> JsonView {
    no_fields().put("sessionId"@, JsonView::Str(sid)).put("readOnly"@, JsonView::Bool(true)).put(
        "warning"@,
        JsonView::Str(ignored_warning(by_command)),
    ).put("ignoredPrompt"@, JsonView::Str(prompt))
}

/// What is told of a prompt that was not sent.
pub open spec fn ignored_told(sid: Seq<char>, prompt: Seq<char>, json: bool, by_command: bool) -> SaidView {
    if json {
        SaidView::Out(pretty_of_json(ignored_json(sid, prompt, by_command)))
    } else {
        SaidView::Warn("R1: prompt ignorado (resume é leitura). Use new <pasta> p/ continuar."@)
    }
}

pub open spec fn send_failed_text(e: SessionError) -> Seq<char> {
    if means_cold(e) {
        "sessão fria neste runtime ("@ + e.text() + ") — seguindo em leitura"@
    } else {
        "envio pós-resume falhou: "@ + e.text()
    }
}

/// What comes after the session was read: a prompt is tried only where the
/// session may still be warm.
pub open spec fn follows_reading(run: Resuming, sid: Seq<char>, r: AfterReading) -> bool {
    match run.prompt {
        Some(p) => if run.kind == TransportKind::Daemon {
            r matches AfterReading::Send(x) && x@ == p@
        } else {
            r matches AfterReading::Ignore(says) && says.deep_view() == seq![
                ignored_told(sid, p@, run.json, run.by_command),
            ]
        },
        None => r is Prompt,
    }
}

impl Resuming {
    /// The call that resumes the session.
    pub fn start(&self) -> (c: Call)
        ensures
            c.is("session/resume"@, sid_view(self.target@), 60),
            c.params@.text_at("sessionId"@) == Some(self.target@),
    {
        resume_session(self.target.as_str())
    }

    /// Takes the answer: the session that was resumed, as the server names it.
    pub fn resumed(&self, res: &Result<Json, RuntimeError>) -> (r: Result<String, CmdError>)
        ensures
            match *res {
                Ok(v) => r matches Ok(s) && s@ == match session_id_of(v@) {
                    Some(id) => id,
                    None => self.target@,
                },
                Err(e) => r matches Err(CmdError::Runtime(m)) && m@ == e.text(),
            },
            r matches Ok(s) ==> (res matches Ok(v) && (session_id_of(v@) == Some(s@)
                || session_id_of(v@) is None && s@ == self.target@)),
    {
        match res {
            Ok(v) => match extract_session_id(v) {
                Some(id) => Ok(id),
                None => Ok(self.target.clone()),
            },
            Err(e) => Err(runtime_failed(e)),
        }
    }

    fn ignored(&self, sid: &str, p: &str) -> (r: Said)
        ensures
            r.deep_view() == ignored_told(sid@, p@, self.json, self.by_command),
    {
        if self.json {
            let w = if self.by_command {
                "R1: resume é leitura; novo turno só em sessão warm ou nova. Use: new <pasta> ou zcode-cli sem args."
            } else {
                "R1: resume é leitura; novo turno só em sessão warm ou nova."
            };
            let v = Json::object().with("sessionId", Json::text(sid)).with(
                "readOnly",
                Json::Bool(true),
            ).with("warning", Json::text(w)).with("ignoredPrompt", Json::text(p));
            Said::Out(write_json_pretty(&v))
        } else {
            Said::Warn(
                "R1: prompt ignorado (resume é leitura). Use new <pasta> p/ continuar.".to_owned(),
            )
        }
    }

    /// What comes after the session `sid` was read: a prompt is tried only where
    /// the session may still be warm, that is in the daemon.
    pub fn after_reading(&self, sid: &str) -> (r: AfterReading)
        ensures
            follows_reading(*self, sid@, r),
    {
        match &self.prompt {
            Some(p) => {
                if r1_resume_may_send(self.kind) {
                    AfterReading::Send(p.clone())
                } else {
                    let s = self.ignored(sid, p.as_str());
                    let ghost one = s.deep_view();
                    let mut says: Vec<Said> = Vec::new();
                    says.push(s);
                    assert(says.deep_view() =~= seq![one]);
                    AfterReading::Ignore(says)
                }
            },
            None => AfterReading::Prompt,
        }
    }

    /// What is told of the turn that was tried on the session `sid`.
    pub fn after_send(&self, sid: &str, prompt: &str, answer: &Result<String, SessionError>) -> (r:
        Vec<Said>)
        ensures
            r.deep_view() == match *answer {
                Ok(t) => seq![
                    SaidView::Out(
                        if self.json {
                            pretty_of_json(response_json(sid@, t@))
                        } else {
                            t@
                        },
                    ),
                ],
                Err(e) => seq![
                    SaidView::Warn(send_failed_text(e)),
                    ignored_told(sid@, prompt@, self.json, self.by_command),
                ],
            },
    {
        let mut says: Vec<Said> = Vec::new();
        match answer {
            Ok(t) => {
                if self.json {
                    let v = response_object(sid, t.as_str());
                    says.push(Said::Out(write_json_pretty(&v)));
                } else {
                    says.push(Said::Out(t.clone()));
                }
                assert(says.deep_view() =~= seq![says@[0].deep_view()]);
            },
            Err(e) => {
                let t = e.to_text();
                let mut s;
                if r1_send_err_means_cold(e) {
                    s = "sessão fria neste runtime (".to_owned();
                    s.append(t.as_str());
                    s.append(") — seguindo em leitura");
                } else {
                    s = "envio pós-resume falhou: ".to_owned();
                    s.append(t.as_str());
                }
                says.push(Said::Warn(s));
                let i = self.ignored(sid, prompt);
                says.push(i);
                assert(says.deep_view() =~= seq![says@[0].deep_view(), says@[1].deep_view()]);
            },
        }
        says
    }
}

/// What is shown of a resumed session: its first messages, then that it is only
/// read.
pub fn reading_said(sid: &str, messages: &Result<Json, SessionError>) -> (r: Vec<Said>)
    ensures
        r.deep_view() == seq![
            match *messages {
                Ok(v) => SaidView::Out(reading_text(v@, sid@)),
                Err(e) => SaidView::Warn("leitura da sessão falhou: "@ + e.text()),
            },
            SaidView::Out(readonly_text()),
        ],
{
    let mut says: Vec<Said> = Vec::new();
    match messages {
        Ok(v) => says.push(Said::Out(show_resumed_reading(v, sid))),
        Err(e) => {
            let t = e.to_text();
            let mut s = "leitura da sessão falhou: ".to_owned();
            s.append(t.as_str());
            says.push(Said::Warn(s));
        },
    }
    says.push(Said::Out(resume_readonly_notice()));
    assert(says.deep_view() =~= seq![says@[0].deep_view(), says@[1].deep_view()]);
    says
}

// ---------------------------------------------------------------- reports

/// What `sessions` tells: the server's sessions, else those of the local record.
pub fn sessions_report(v: &Json, history: &Vec<HistoryEntry>, limit: u32, json: bool) -> (r: String)
    ensures
        r@ == if json {
            pretty_of_json(v@)
        } else if v@.items_at("sessions"@) matches Some(list) && list.len() > 0 {
            sessions_table(v@)
        } else {
            local_text(history.deep_view(), limit as int)
        },
{
    if json {
        write_json_pretty(v)
    } else if lists_sessions(v) {
        format_sessions_table(v)
    } else {
        format_local_history(history, limit)
    }
}

/// The id of a session just created.
pub fn created_id(created: &Json) -> (r: Result<String, CmdError>)
    ensures
        match session_id_of(created@) {
            Some(s) => r matches Ok(t) && t@ == s,
            None => fails_with(r, "create não devolveu sessionId"@),
        },
{
    match extract_session_id(created) {
        Some(s) => Ok(s),
        None => Err(CmdError::Session("create não devolveu sessionId".to_owned())),
    }
}

/// The model that a session is recorded with: the one that was asked for, else
/// the one that it uses.
pub open spec fn recorded_model(asked: Option<Seq<char>>, created: JsonView) -> Seq<char> {
    match asked {
        Some(m) => m,
        None => effective_model_text(created),
    }
}

/// The record of a session just created.
pub fn created_entry(
    created: &Json,
    sid: &str,
    titled: bool,
    model: &Option<String>,
    ws: &str,
    now: &str,
) -> (r: HistoryEntry)
    ensures
        r.deep_view() == (HistoryEntryView {
            session_id: sid@,
            title: if titled {
                title_of(created@)
            } else {
                ""@
            },
            workspace: ws@,
            model: recorded_model(model.deep_view(), created@),
            updated_at: now@,
        }),
        goes_on_with(seq![r.deep_view()], ws@, sid@),
        *model is Some ==> r.model@ == model->0@,
{
    proof {
        let e = HistoryEntryView {
            session_id: sid@,
            title: if titled {
                title_of(created@)
            } else {
                ""@
            },
            workspace: ws@,
            model: recorded_model(model.deep_view(), created@),
            updated_at: now@,
        };
        assert(seq![e][0] == e);
        assert(goes_on_with(seq![e], ws@, sid@));
    }
    let title = if titled {
        session_title(created)
    } else {
        "".to_owned()
    };
    let m = match model {
        Some(x) => x.clone(),
        None => effective_model(created),
    };
    history_entry(sid, title.as_str(), ws, m.as_str(), now)
}

pub open spec fn new_json(sid: Seq<char>, ws: Seq<char>) -> JsonView {
    no_fields().put("sessionId"@, JsonView::Str(sid)).put("workspace"@, JsonView::Str(ws))
}

/// What `new` tells.
pub fn new_report(sid: &str, ws: &str, json: bool) -> (r: String)
    ensures
        r@ == if json {
            pretty_of_json(new_json(sid@, ws@))
        } else {
            "sessão criada: "@ + sid@ + " em "@ + ws@
        },
        !json ==> contains(r@, sid@ + " em "@ + ws@),
{
    proof {
        broadcast use group_contains;

        assert("sessão criada: "@ + sid@ + " em "@ + ws@ =~= "sessão criada: "@ + (sid@ + " em "@
            + ws@));
    }
    if json {
        let v = Json::object().with("sessionId", Json::text(sid)).with(
            "workspace",
            Json::text(ws),
        );
        write_json_pretty(&v)
    } else {
        let mut s = "sessão criada: ".to_owned();
        s.append(sid);
        s.append(" em ");
        s.append(ws);
        s
    }
}

/// The id of a fork, empty where the answer has none.
pub open spec fn fork_id_of(v: JsonView) -> Seq<char> {
    match v.get2("session"@, "sessionId"@) {
        Some(JsonView::Str(s)) => s,
        _ => match session_id_of(v) {
            Some(s) => s,
            None => ""@,
        },
    }
}

pub fn fork_id(v: &Json) -> (r: String)
    ensures
        r@ == fork_id_of(v@),
{
    match v.get2("session", "sessionId") {
        Some(w) => match w.as_str() {
            Some(s) => {
                return s.to_owned();
            },
            None => {},
        },
        None => {},
    }
    match extract_session_id(v) {
        Some(s) => s,
        None => "".to_owned(),
    }
}

/// The call that forks a session; an id that says nothing asks for none.
pub fn fork_call(id: &str) -> (r: Result<Call, CmdError>)
    ensures
        if blank(id@) {
            fails_with(r, bad_resume_text())
        } else {
            r matches Ok(c) && c.is("session/fork"@, sid_view(id@), 60)
        },
        r matches Ok(c) ==> c.params@.text_at("sessionId"@) == Some(id@),
{
    match validate_resume_id(id) {
        Ok(()) => Ok(fork_session(id)),
        Err(e) => Err(e),
    }
}

/// The error of a fork, with what it takes to make one.
pub fn fork_failed(e: &RuntimeError) -> (r: CmdError)
    ensures
        r matches CmdError::Session(m) && m@ == e.text() + ". "@ + fork_hint(),
{
    let mut s = e.to_text();
    s.append(". ");
    let h = fork_no_checkpoint_hint();
    s.append(h.as_str());
    CmdError::Session(s)
}

/// What `fork` tells.
pub fn fork_report(id: &str, v: &Json, json: bool) -> (r: String)
    ensures
        r@ == if json {
            pretty_of_json(v@)
        } else {
            "fork: "@ + id@ + " → "@ + fork_id_of(v@)
        },
        !json ==> contains(r@, id@ + " → "@ + fork_id_of(v@)),
{
    proof {
        broadcast use group_contains;

        assert("fork: "@ + id@ + " → "@ + fork_id_of(v@) =~= "fork: "@ + (id@ + " → "@
            + fork_id_of(v@)));
    }
    if json {
        write_json_pretty(v)
    } else {
        let n = fork_id(v);
        let mut s = "fork: ".to_owned();
        s.append(id);
        s.append(" → ");
        s.append(n.as_str());
        s
    }
}

pub open spec fn count_json(n: u64) -> JsonView {
    JsonView::Int(n as int)
}

pub open spec fn usage_json(sid: Seq<char>, u: Usage) -> JsonView {
    no_fields().put("sessionId"@, JsonView::Str(sid)).put(
        "totalTokens"@,
        count_json(u.total_tokens),
    ).put("inputTokens"@, count_json(u.input_tokens)).put(
        "outputTokens"@,
        count_json(u.output_tokens),
    ).put("reasoningTokens"@, count_json(u.reasoning_tokens)).put(
        "cacheCreationTokens"@,
        count_json(u.cache_creation_tokens),
    ).put("cacheReadTokens"@, count_json(u.cache_read_tokens)).put(
        "modelRequestCount"@,
        count_json(u.model_request_count),
    )
}

pub open spec fn usage_told(sid: Seq<char>, u: Usage) -> Seq<char> {
    "usage "@ + sid + ": total="@ + dec(u.total_tokens as nat) + " in="@ + dec(
        u.input_tokens as nat,
    ) + " out="@ + dec(u.output_tokens as nat) + " reasoning="@ + dec(u.reasoning_tokens as nat)
        + " reqs="@ + dec(u.model_request_count as nat)
}

fn append_count(s: &mut String, label: &str, n: u64)
    ensures
        final(s)@ == old(s)@ + label@ + dec(n as nat),
{
    s.append(label);
    let d = decimal(n);
    s.append(d.as_str());
}

/// What `usage` tells.
pub fn usage_report(sid: &str, u: &Usage, json: bool) -> (r: String)
    ensures
        r@ == if json {
            pretty_of_json(usage_json(sid@, *u))
        } else {
            usage_told(sid@, *u)
        },
{
    if json {
        let v = Json::object().with("sessionId", Json::text(sid)).with(
            "totalTokens",
            Json::Unsigned(u.total_tokens),
        ).with("inputTokens", Json::Unsigned(u.input_tokens)).with(
            "outputTokens",
            Json::Unsigned(u.output_tokens),
        ).with("reasoningTokens", Json::Unsigned(u.reasoning_tokens)).with(
            "cacheCreationTokens",
            Json::Unsigned(u.cache_creation_tokens),
        ).with("cacheReadTokens", Json::Unsigned(u.cache_read_tokens)).with(
            "modelRequestCount",
            Json::Unsigned(u.model_request_count),
        );
        write_json_pretty(&v)
    } else {
        let mut s = "usage ".to_owned();
        s.append(sid);
        append_count(&mut s, ": total=", u.total_tokens);
        append_count(&mut s, " in=", u.input_tokens);
        append_count(&mut s, " out=", u.output_tokens);
        append_count(&mut s, " reasoning=", u.reasoning_tokens);
        append_count(&mut s, " reqs=", u.model_request_count);
        s
    }
}

pub open spec fn texts_json(v: Seq<Seq<char>>) -> JsonView {
    JsonView::Arr(v.map_values(|t: Seq<char>| JsonView::Str(t)))
}

pub open spec fn turn_usage_json(u: Usage) -> JsonView {
    no_fields().put("inputTokens"@, count_json(u.input_tokens)).put(
        "outputTokens"@,
        count_json(u.output_tokens),
    ).put("totalTokens"@, count_json(u.total_tokens)).put(
        "reasoningTokens"@,
        count_json(u.reasoning_tokens),
    ).put("modelRequestCount"@, count_json(u.model_request_count))
}

pub open spec fn tools_json(
    allowed: Seq<Seq<char>>,
    disallowed: Seq<Seq<char>>,
    warning: Option<Seq<char>>,
) -> JsonView {
    let t = no_fields().put("allowed"@, texts_json(allowed)).put(
        "disallowed"@,
        texts_json(disallowed),
    );
    match warning {
        Some(w) => t.put("warning"@, JsonView::Str(w)),
        None => t,
    }
}

pub open spec fn diff_json(d: WorkspaceDiff, git: Option<Seq<char>>) -> JsonView {
    let t = no_fields().put("created"@, texts_json(d.created.deep_view())).put(
        "modified"@,
        texts_json(d.modified.deep_view()),
    );
    match git {
        Some(g) => t.put("gitStat"@, JsonView::Str(g)),
        None => t,
    }
}

/// The answer of a single turn, for programs.
pub open spec fn one_shot_json(
    sid: Seq<char>,
    text: Seq<char>,
    u: Usage,
    tools: JsonView,
    diff: JsonView,
) -> JsonView {
    response_json(sid, text).put("usage"@, turn_usage_json(u)).put("tools"@, tools).put(
        "diff"@,
        diff,
    )
}

fn tools_object(allowed: &Vec<String>, disallowed: &Vec<String>, warning: &Option<String>) -> (r:
    Json)
    ensures
        r@ == tools_json(allowed.deep_view(), disallowed.deep_view(), warning.deep_view()),
{
    let t = Json::object().with("allowed", Json::texts(allowed)).with(
        "disallowed",
        Json::texts(disallowed),
    );
    match warning {
        Some(w) => t.with("warning", Json::text(w.as_str())),
        None => t,
    }
}

fn diff_object(d: &WorkspaceDiff, git: &Option<String>) -> (r: Json)
    ensures
        r@ == diff_json(*d, git.deep_view()),
{
    let t = Json::object().with("created", Json::texts(&d.created)).with(
        "modified",
        Json::texts(&d.modified),
    );
    match git {
        Some(g) => t.with("gitStat", Json::text(g.as_str())),
        None => t,
    }
}

/// What a single turn tells: the answer; for programs also what it used, the
/// tools it was limited to and what changed in the workspace.
pub fn one_shot_report(
    sid: &str,
    text: &str,
    u: &Usage,
    allowed: &Vec<String>,
    disallowed: &Vec<String>,
    warning: &Option<String>,
    diff: &WorkspaceDiff,
    git: &Option<String>,
    json: bool,
) -> (r: String)
    ensures
        r@ == if json {
            pretty_of_json(
                one_shot_json(
                        sid@,
                        text@,
                        *u,
                        tools_json(
                            allowed.deep_view(),
                            disallowed.deep_view(),
                            warning.deep_view(),
                        ),
                        diff_json(*diff, git.deep_view()),
                    ),
            )
        } else {
            text@
        },
{
    if json {
        let usage = Json::object().with("inputTokens", Json::Unsigned(u.input_tokens)).with(
            "outputTokens",
            Json::Unsigned(u.output_tokens),
        ).with("totalTokens", Json::Unsigned(u.total_tokens)).with(
            "reasoningTokens",
            Json::Unsigned(u.reasoning_tokens),
        ).with("modelRequestCount", Json::Unsigned(u.model_request_count));
        let tools = tools_object(allowed, disallowed, warning);
        let d = diff_object(diff, git);
        let v = response_object(sid, text).with("usage", usage).with("tools", tools).with(
            "diff",
            d,
        );
        write_json_pretty(&v)
    } else {
        text.to_owned()
    }
}

pub open spec fn init_json(path: Seq<char>, hint: Seq<char>) -> JsonView {
    no_fields().put("path"@, JsonView::Str(path)).put("wrote"@, JsonView::Bool(true)).put(
        "runtimeHint"@,
        if hint.len() == 0 {
            JsonView::Null
        } else {
            JsonView::Str(hint)
        },
    )
}

pub open spec fn init_told(path: Seq<char>, hint: Seq<char>) -> Seq<char> {
    "config gravado em "@ + path + "\n"@ + (if hint.len() == 0 {
        "runtime: autodetectará o zcode.cjs no próximo comando"@
    } else {
        "runtime detectado: "@ + hint
    }) + "\npróximo: zcode-cli doctor"@
}

/// What `init` tells once the settings are written.
pub fn init_report(path: &str, hint: &str, json: bool) -> (r: String)
    ensures
        r@ == if json {
            pretty_of_json(init_json(path@, hint@))
        } else {
            init_told(path@, hint@)
        },
{
    if json {
        let h = if hint.is_empty() {
            Json::Null
        } else {
            Json::text(hint)
        };
        let v = Json::object().with("path", Json::text(path)).with("wrote", Json::Bool(true)).with(
            "runtimeHint",
            h,
        );
        write_json_pretty(&v)
    } else {
        let mut s = "config gravado em ".to_owned();
        s.append(path);
        s.append("\n");
        let mut h;
        if hint.is_empty() {
            h = "runtime: autodetectará o zcode.cjs no próximo comando".to_owned();
        } else {
            h = "runtime detectado: ".to_owned();
            h.append(hint);
        }
        s.append(h.as_str());
        s.append("\npróximo: zcode-cli doctor");
        s
    }
}

// ---------------------------------------------------------------- laws

/// Outside the daemon a resumed session is never sent a turn, and a prompt for it
/// is never passed over in silence.
pub proof fn law_cold_sessions_are_read(run: Resuming, sid: Seq<char>, r: AfterReading)
    requires
        follows_reading(run, sid, r),
        run.kind == TransportKind::Embedded,
    ensures
        !(r is Send),
        run.prompt is Some ==> (r matches AfterReading::Ignore(says) && says@.len() > 0),
{
    match r {
        AfterReading::Ignore(says) => {
            assert(says.deep_view().len() == says@.len());
        },
        _ => {},
    }
}

/// A list of texts, as a program reads it: those texts and no others, in order.
pub open spec fn holds_texts(v: Option<JsonView>, texts: Seq<Seq<char>>) -> bool {
    v matches Some(JsonView::Arr(list)) && list.len() == texts.len() && (forall|i: int|
        0 <= i < list.len() ==> #[trigger] list[i] == JsonView::Str(texts[i]))
}

/// The answer of a single turn lists under `created` exactly the files that came
/// to be, under `modified` exactly those that were written to, each in its order,
/// and the git summary where there is one.
pub proof fn law_one_shot_tells_the_changes(
    sid: Seq<char>,
    text: Seq<char>,
    u: Usage,
    tools: JsonView,
    d: WorkspaceDiff,
    git: Option<Seq<char>>,
)
    ensures
        holds_texts(
            one_shot_json(sid, text, u, tools, diff_json(d, git)).get2("diff"@, "created"@),
            d.created.deep_view(),
        ),
        holds_texts(
            one_shot_json(sid, text, u, tools, diff_json(d, git)).get2("diff"@, "modified"@),
            d.modified.deep_view(),
        ),
        one_shot_json(sid, text, u, tools, diff_json(d, git)).get2("diff"@, "gitStat"@) == (
        match git {
            Some(g) => Some(JsonView::Str(g)),
            None => None,
        }),
{
    reveal_strlit("created");
    reveal_strlit("modified");
    reveal_strlit("gitStat");
    assert("created"@.len() == 7 && "modified"@.len() == 8 && "gitStat"@.len() == 7);
    assert("created"@[0] != "gitStat"@[0]);
    assert(d.created.deep_view().map_values(|t: Seq<char>| JsonView::Str(t)).len()
        == d.created.deep_view().len());
}

/// A path is told as modified exactly where it was there before and was written
/// to later, and as created exactly where it was not there before and is now.
pub proof fn law_one_shot_tells_each_path(
    before: Map<Seq<char>, u64>,
    after: Map<Seq<char>, u64>,
    d: WorkspaceDiff,
    git: Option<Seq<char>>,
    path: Seq<char>,
)
    requires
        lists(d.created.deep_view(), created_files(before, after)),
        lists(d.modified.deep_view(), modified_files(before, after)),
    ensures
        (diff_json(d, git).items_at("modified"@) matches Some(list) && list.contains(
            JsonView::Str(path),
        )) <==> (before.dom().contains(path) && after.dom().contains(path) && after[path]
            > before[path]),
        (diff_json(d, git).items_at("created"@) matches Some(list) && list.contains(
            JsonView::Str(path),
        )) <==> (!before.dom().contains(path) && after.dom().contains(path)),
{
    reveal_strlit("created");
    reveal_strlit("modified");
    reveal_strlit("gitStat");
    assert("created"@.len() == 7 && "modified"@.len() == 8 && "gitStat"@.len() == 7);
    assert("created"@[0] != "gitStat"@[0]);
    lemma_listed(d.created.deep_view(), path);
    lemma_listed(d.modified.deep_view(), path);
    assert(created_files(before, after).contains(path) <==> !before.dom().contains(path)
        && after.dom().contains(path));
    assert(modified_files(before, after).contains(path) <==> before.dom().contains(path)
        && after.dom().contains(path) && after[path] > before[path]);
}

proof fn lemma_listed(v: Seq<Seq<char>>, t: Seq<char>)
    ensures
        texts_json(v) matches JsonView::Arr(list) && (list.contains(JsonView::Str(t))
            <==> v.contains(t)),
{
    let f = |t: Seq<char>| JsonView::Str(t);
    let list = v.map_values(f);
    if v.contains(t) {
        let i = choose|i: int| 0 <= i < v.len() && v[i] == t;
        assert(list[i] == JsonView::Str(t));
    }
    if list.contains(JsonView::Str(t)) {
        let i = choose|i: int| 0 <= i < list.len() && list[i] == JsonView::Str(t);
        assert(v[i] == t);
    }
}

/// The answer of a single turn names the session and holds the text, what was
/// used, and the tools and the changes as they are handed over.
pub proof fn law_one_shot_holds(
    sid: Seq<char>,
    text: Seq<char>,
    u: Usage,
    tools: JsonView,
    diff: JsonView,
)
    ensures
        ({
            let v = one_shot_json(sid, text, u, tools, diff);
            &&& v.text_at("sessionId"@) == Some(sid)
            &&& v.text_at("response"@) == Some(text)
            &&& v.get("tools"@) == Some(tools)
            &&& v.get("diff"@) == Some(diff)
            &&& v.get2("usage"@, "inputTokens"@) == Some(JsonView::Int(u.input_tokens as int))
            &&& v.get2("usage"@, "outputTokens"@) == Some(JsonView::Int(u.output_tokens as int))
            &&& v.get2("usage"@, "totalTokens"@) == Some(JsonView::Int(u.total_tokens as int))
            &&& v.get2("usage"@, "reasoningTokens"@) == Some(
                JsonView::Int(u.reasoning_tokens as int),
            )
            &&& v.get2("usage"@, "modelRequestCount"@) == Some(
                JsonView::Int(u.model_request_count as int),
            )
        }),
{
    reveal_strlit("sessionId");
    reveal_strlit("response");
    reveal_strlit("usage");
    reveal_strlit("tools");
    reveal_strlit("diff");
    assert("sessionId"@.len() == 9 && "response"@.len() == 8 && "usage"@.len() == 5 && "tools"@.len() == 5 && "diff"@.len() == 4);
    assert("usage"@[0] != "tools"@[0]);
    reveal_strlit("inputTokens");
    reveal_strlit("outputTokens");
    reveal_strlit("totalTokens");
    reveal_strlit("reasoningTokens");
    reveal_strlit("modelRequestCount");
    assert("inputTokens"@.len() == 11 && "outputTokens"@.len() == 12 && "totalTokens"@.len() == 11 && "reasoningTokens"@.len() == 15 && "modelRequestCount"@.len() == 17);
    assert("inputTokens"@[0] != "totalTokens"@[0]);
}

/// The tools that a turn was limited to are told as they were given.
pub proof fn law_tools_told(
    allowed: Seq<Seq<char>>,
    disallowed: Seq<Seq<char>>,
    warning: Option<Seq<char>>,
)
    ensures
        holds_texts(tools_json(allowed, disallowed, warning).get("allowed"@), allowed),
        holds_texts(tools_json(allowed, disallowed, warning).get("disallowed"@), disallowed),
        tools_json(allowed, disallowed, warning).text_at("warning"@) == warning,
{
    reveal_strlit("allowed");
    reveal_strlit("disallowed");
    reveal_strlit("warning");
    assert("allowed"@.len() == 7 && "disallowed"@.len() == 10 && "warning"@.len() == 7);
    assert("allowed"@[0] != "warning"@[0]);
}

/// What `usage` tells a program reads back as the same usage of the same session.
pub proof fn law_usage_reads_back(sid: Seq<char>, u: Usage)
    ensures
        usage_of(usage_json(sid, u)) == u,
        usage_json(sid, u).text_at("sessionId"@) == Some(sid),
{
    reveal_strlit("sessionId");
    reveal_strlit("inputTokens");
    reveal_strlit("outputTokens");
    reveal_strlit("totalTokens");
    reveal_strlit("reasoningTokens");
    reveal_strlit("modelRequestCount");
    reveal_strlit("cacheCreationTokens");
    reveal_strlit("cacheReadTokens");
    assert("sessionId"@.len() == 9 && "inputTokens"@.len() == 11 && "outputTokens"@.len() == 12 && "totalTokens"@.len() == 11 && "reasoningTokens"@.len() == 15 && "modelRequestCount"@.len() == 17 && "cacheCreationTokens"@.len() == 19 && "cacheReadTokens"@.len() == 15);
    assert("inputTokens"@[0] != "totalTokens"@[0]);
    assert("reasoningTokens"@[0] != "cacheReadTokens"@[0]);
    let v = usage_json(sid, u);
    law_usage_of_its_entries(v, u.total_tokens);
    law_usage_of_its_entries(v, u.input_tokens);
    law_usage_of_its_entries(v, u.output_tokens);
    law_usage_of_its_entries(v, u.reasoning_tokens);
    law_usage_of_its_entries(v, u.cache_creation_tokens);
    law_usage_of_its_entries(v, u.cache_read_tokens);
    law_usage_of_its_entries(v, u.model_request_count);
    assert(usage_of(v).total_tokens == u.total_tokens);
    assert(usage_of(v).input_tokens == u.input_tokens);
    assert(usage_of(v).output_tokens == u.output_tokens);
    assert(usage_of(v).reasoning_tokens == u.reasoning_tokens);
    assert(usage_of(v).cache_creation_tokens == u.cache_creation_tokens);
    assert(usage_of(v).cache_read_tokens == u.cache_read_tokens);
    assert(usage_of(v).model_request_count == u.model_request_count);
}

/// What `usage` tells a reader: the session, and each count behind its name.
pub proof fn law_usage_told_holds(sid: Seq<char>, u: Usage)
    ensures
        contains(usage_told(sid, u), sid),
        contains(usage_told(sid, u), "total="@ + dec(u.total_tokens as nat)),
        contains(usage_told(sid, u), " in="@ + dec(u.input_tokens as nat)),
        contains(usage_told(sid, u), " out="@ + dec(u.output_tokens as nat)),
        contains(usage_told(sid, u), " reasoning="@ + dec(u.reasoning_tokens as nat)),
        contains(usage_told(sid, u), " reqs="@ + dec(u.model_request_count as nat)),
{
    broadcast use group_contains;

    reveal_strlit(": total=");
    reveal_strlit("total=");
    reveal_strlit(": ");
    let a = "usage "@ + sid;
    let t = dec(u.total_tokens as nat);
    let i = dec(u.input_tokens as nat);
    let o = dec(u.output_tokens as nat);
    let r = dec(u.reasoning_tokens as nat);
    let q = dec(u.model_request_count as nat);
    assert(": total="@ =~= ": "@ + "total="@);
    let s1 = a + ": total="@ + t;
    assert(s1 =~= a + ": "@ + ("total="@ + t));
    let s2 = s1 + " in="@ + i;
    assert(s2 =~= s1 + (" in="@ + i));
    let s3 = s2 + " out="@ + o;
    assert(s3 =~= s2 + (" out="@ + o));
    let s4 = s3 + " reasoning="@ + r;
    assert(s4 =~= s3 + (" reasoning="@ + r));
    let s5 = s4 + " reqs="@ + q;
    assert(s5 =~= s4 + (" reqs="@ + q));
    assert(usage_told(sid, u) == s5);
    assert(contains(s1, sid) && contains(s1, "total="@ + t));
    assert(contains(s2, sid) && contains(s2, "total="@ + t) && contains(s2, " in="@ + i));
    assert(contains(s3, sid) && contains(s3, "total="@ + t) && contains(s3, " in="@ + i)
        && contains(s3, " out="@ + o));
    assert(contains(s4, sid) && contains(s4, "total="@ + t) && contains(s4, " in="@ + i)
        && contains(s4, " out="@ + o) && contains(s4, " reasoning="@ + r));
}

/// What `new` and `init` tell a program.
pub proof fn law_new_and_init_told(sid: Seq<char>, ws: Seq<char>, path: Seq<char>, hint: Seq<char>)
    ensures
        new_json(sid, ws).text_at("sessionId"@) == Some(sid),
        new_json(sid, ws).text_at("workspace"@) == Some(ws),
        init_json(path, hint).text_at("path"@) == Some(path),
        hint.len() > 0 ==> init_json(path, hint).text_at("runtimeHint"@) == Some(hint),
        init_json(path, hint).get("wrote"@) == Some(JsonView::Bool(true)),
        contains(init_told(path, hint), path),
        hint.len() > 0 ==> contains(init_told(path, hint), hint),
{
    broadcast use group_contains;

    reveal_strlit("sessionId");
    reveal_strlit("workspace");
    assert("sessionId"@.len() == 9 && "workspace"@.len() == 9);
    assert("sessionId"@[0] != "workspace"@[0]);
    reveal_strlit("path");
    reveal_strlit("wrote");
    reveal_strlit("runtimeHint");
    assert("path"@.len() == 4 && "wrote"@.len() == 5 && "runtimeHint"@.len() == 11);
}

/// A prompt that is passed over is told as such: a program reads the session and
/// the prompt itself, and that the session is only read.
pub proof fn law_ignored_prompt_told(sid: Seq<char>, prompt: Seq<char>, by_command: bool)
    ensures
        ignored_json(sid, prompt, by_command).text_at("sessionId"@) == Some(sid),
        ignored_json(sid, prompt, by_command).text_at("ignoredPrompt"@) == Some(prompt),
        ignored_json(sid, prompt, by_command).get("readOnly"@) == Some(JsonView::Bool(true)),
        ignored_told(sid, prompt, false, by_command) is Warn,
        ignored_told(sid, prompt, true, by_command) is Out,
{
    reveal_strlit("sessionId");
    reveal_strlit("readOnly");
    reveal_strlit("warning");
    reveal_strlit("ignoredPrompt");
    assert("sessionId"@.len() == 9 && "readOnly"@.len() == 8 && "warning"@.len() == 7 && "ignoredPrompt"@.len() == 13);
}

/// In the daemon a prompt for a resumed session is sent as it is.
pub proof fn law_warm_prompt_is_sent(run: Resuming, sid: Seq<char>, r: AfterReading, p: String)
    requires
        follows_reading(run, sid, r),
        run.kind == TransportKind::Daemon,
        run.prompt == Some(p),
    ensures
        r matches AfterReading::Send(x) && x@ == p@,
{
}

/// The fork that is told is the session of the answer.
pub proof fn law_fork_id(v: JsonView, new: Seq<char>)
    ensures
        v.get2("session"@, "sessionId"@) == Some(JsonView::Str(new)) ==> fork_id_of(v) == new,
        v.get("session"@) is None ==> fork_id_of(v) == ""@,
{
}

/// A model that was asked for is recorded; only where none was, the server's.
pub proof fn law_recorded_model(asked: Seq<char>, created: JsonView)
    ensures
        recorded_model(Some(asked), created) == asked,
        recorded_model(None, created) == effective_model_text(created),
{
}

/// A folder that was given is the workspace; only where none was, the
/// configured one.
pub proof fn law_workspace_given(cwd: Seq<char>, configured: Seq<char>)
    ensures
        workspace_given(Some(cwd), configured) == cwd,
        workspace_given(None, configured) == configured,
{
}

/// What is told when a turn could not be sent holds the reason.
pub proof fn law_send_failure_says_why(e: SessionError)
    ensures
        contains(send_failed_text(e), e.text()),
{
    broadcast use group_contains;

}

/// Where nobody can be asked every session is told: to a program with its
/// number, to a reader in the list.
pub proof fn law_listing_told(rows: Seq<SessionRowView>, i: int)
    requires
        0 <= i < rows.len(),
    ensures
        listing_told(rows, false)[0] matches SaidView::Warn(t) && contains(
            t,
            dec((i + 1) as nat) + ") "@ + rows[i].id,
        ),
        listing_told(rows, true) == seq![SaidView::Out(pretty_of_json(pick_json(rows)))],
{
    law_numbered_list_holds(rows, i);
}

} // verus!
