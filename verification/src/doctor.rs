//! Local diagnosis: what each check says, and the report.

use crate::commands::{config_toml, default_config_toml, CmdError};
use crate::config::{
    config_error, config_of_text, config_path, lost_workspace, parse_toml_str, ConfigError, FileConfig,
};
use crate::daemon::{daemon_entry_valid, entry_valid, DaemonEntry};
use crate::json::{
    json_error_of_text, json_of_text, no_fields, pretty_of_json, read_json, write_json_pretty, Json,
    JsonView,
};
use crate::paths::app_file;
use crate::text::{
    blank, contains, dec, decimal, group_contains, in_order, is_blank, is_digit, join, joined,
    lemma_contains_trans, to_chars, trim, trimmed,
};
use vstd::prelude::*;

verus! {

#[derive(Debug, Clone, Copy, PartialEq, Eq, Structural)]
pub enum Status {
    Pass,
    Warn,
    Fail,
}

impl Status {
    pub open spec fn tag_text(self) -> Seq<char> {
        match self {
            Status::Pass => "OK  "@,
            Status::Warn => "AVISO"@,
            Status::Fail => "FALHA"@,
        }
    }

    pub open spec fn word(self) -> Seq<char> {
        match self {
            Status::Pass => "ok"@,
            Status::Warn => "warn"@,
            Status::Fail => "fail"@,
        }
    }

    pub fn tag(self) -> (r: &'static str)
        ensures
            r@ == self.tag_text(),
    {
        match self {
            Status::Pass => "OK  ",
            Status::Warn => "AVISO",
            Status::Fail => "FALHA",
        }
    }

    pub fn as_str(self) -> (r: &'static str)
        ensures
            r@ == self.word(),
    {
        match self {
            Status::Pass => "ok",
            Status::Warn => "warn",
            Status::Fail => "fail",
        }
    }
}

#[derive(Debug, Clone)]
pub struct Check {
    pub name: &'static str,
    pub status: Status,
    pub detail: String,
}

pub struct CheckView {
    pub name: Seq<char>,
    pub status: Status,
    pub detail: Seq<char>,
}

impl DeepView for Check {
    type V = CheckView;

    open spec fn deep_view(&self) -> CheckView {
        CheckView { name: self.name@, status: self.status, detail: self.detail@ }
    }
}

impl Check {
    /// The check says this.
    pub open spec fn says(&self, name: Seq<char>, status: Status, detail: Seq<char>) -> bool {
        self.name@ == name && self.status == status && self.detail@ == detail
    }
}

// ---------------------------------------------------------------- node

/// The version that the node program reports: two characters or more that
/// begin with `v` or a digit.
pub open spec fn node_version(stdout: Seq<char>) -> Option<Seq<char>> {
    let v = trim(stdout);
    if v.len() > 1 && (v[0] == 'v' || is_digit(v[0])) {
        Some(v)
    } else {
        None
    }
}

pub fn parse_node_version(stdout: &str) -> (r: Option<String>)
    ensures
        match r {
            Some(v) => node_version(stdout@) == Some(v@),
            None => node_version(stdout@) is None,
        },
{
    let v = trimmed(stdout);
    let c = to_chars(v.as_str());
    if c.len() > 1 && (c[0] == 'v' || ('0' <= c[0] && c[0] <= '9')) {
        Some(v)
    } else {
        None
    }
}

/// The check of the node program, from what it printed; `None` where it could
/// not be run.
pub fn check_node(node_bin: &str, stdout: Option<&str>) -> (r: Check)
    ensures
        match stdout {
            Some(out) => match node_version(out@) {
                Some(v) => r.says("node"@, Status::Pass, node_bin@ + " "@ + v),
                None => r.says("node"@, Status::Fail, node_bin@ + " respondeu lixo"@),
            },
            None => r.says(
                "node"@,
                Status::Fail,
                "node não encontrado no PATH (node="@ + node_bin@ + "). Instale o Node.js."@,
            ),
        },
        r.status == Status::Pass <==> (stdout matches Some(out) && node_version(out@) is Some),
        r.status != Status::Warn,
{
    match stdout {
        Some(out) => match parse_node_version(out) {
            Some(v) => {
                let mut d = node_bin.to_owned();
                d.append(" ");
                d.append(v.as_str());
                Check { name: "node", status: Status::Pass, detail: d }
            },
            None => {
                let mut d = node_bin.to_owned();
                d.append(" respondeu lixo");
                Check { name: "node", status: Status::Fail, detail: d }
            },
        },
        None => {
            let mut d = "node não encontrado no PATH (node=".to_owned();
            d.append(node_bin);
            d.append("). Instale o Node.js.");
            Check { name: "node", status: Status::Fail, detail: d }
        },
    }
}

// ---------------------------------------------------------------- runtime

/// Where the search for the runtime was told to look.
pub open spec fn route(explicit: Option<Seq<char>>, env: Option<Seq<char>>, configured: Seq<char>) -> Seq<
    char,
> {
    if explicit matches Some(e) && e.len() > 0 {
        "override --runtime"@
    } else if env matches Some(v) && !blank(v) {
        "env ZCODE_CJS"@
    } else if !blank(configured) {
        "config TOML"@
    } else {
        "autodetecção"@
    }
}

/// The check of the runtime, from the result of the search for it.
pub fn check_zcode(
    explicit: &Option<String>,
    env: &Option<String>,
    cfg: &FileConfig,
    found: &Result<String, ConfigError>,
) -> (r: Check)
    ensures
        match found {
            Ok(p) => r.says(
                "zcode.cjs"@,
                Status::Pass,
                p@ + " ("@ + route(explicit.deep_view(), env.deep_view(), cfg.runtime.zcode_cjs@)
                    + ")"@,
            ),
            Err(e) => r.says("zcode.cjs"@, Status::Fail, e.text()),
        },
        r.status == Status::Pass <==> found is Ok,
        found matches Ok(p) ==> contains(r.detail@, p@),
        found matches Err(e) ==> r.detail@ == e.text(),
{
    proof {
        broadcast use group_contains;

    }
    let by_flag = match explicit {
        Some(e) => !e.as_str().is_empty(),
        None => false,
    };
    let by_env = match env {
        Some(v) => !is_blank(v.as_str()),
        None => false,
    };
    let way = if by_flag {
        "override --runtime"
    } else if by_env {
        "env ZCODE_CJS"
    } else if !is_blank(cfg.runtime.zcode_cjs.as_str()) {
        "config TOML"
    } else {
        "autodetecção"
    };
    match found {
        Ok(p) => {
            let mut d = p.clone();
            d.append(" (");
            d.append(way);
            d.append(")");
            Check { name: "zcode.cjs", status: Status::Pass, detail: d }
        },
        Err(e) => Check { name: "zcode.cjs", status: Status::Fail, detail: e.to_text() },
    }
}

// ---------------------------------------------------------------- configuration

/// The check of the configuration file at `path`: a missing one is a warning,
/// one that does not parse a failure.
pub open spec fn toml_check(text: Option<Seq<char>>, path: Seq<char>) -> (Status, Seq<char>) {
    match text {
        None => (Status::Warn, "sem "@ + path + " — usando defaults"@),
        Some(t) => match config_of_text(t, lost_workspace()) {
            Some(_) => (Status::Pass, path),
            None => (Status::Fail, "TOML inválido: "@ + config_error(t)),
        },
    }
}

pub fn check_toml_at(text: Option<&str>, path: &str) -> (r: Check)
    ensures
        ({
            let (status, detail) = toml_check(
                match text {
                    Some(t) => Some(t@),
                    None => None,
                },
                path@,
            );
            r.says("config"@, status, detail)
        }),
{
    match text {
        None => {
            let mut d = "sem ".to_owned();
            d.append(path);
            d.append(" — usando defaults");
            Check { name: "config", status: Status::Warn, detail: d }
        },
        Some(t) => match parse_toml_str(t) {
            Ok(_) => Check { name: "config", status: Status::Pass, detail: path.to_owned() },
            Err(e) => {
                let mut d = "TOML inválido: ".to_owned();
                d.append(e.as_str());
                Check { name: "config", status: Status::Fail, detail: d }
            },
        },
    }
}

/// The check of the configuration file where it lies on this machine.
pub fn check_toml_text(text: Option<&str>) -> (r: Check)
    ensures
        exists|base: Option<Seq<char>>|
            {
                let (status, detail) = toml_check(
                    match text {
                        Some(t) => Some(t@),
                        None => None,
                    },
                    #[trigger] app_file(base, "config.toml"@),
                );
                r.says("config"@, status, detail)
            },
        r.status == toml_check(
            match text {
                Some(t) => Some(t@),
                None => None,
            },
            Seq::empty(),
        ).0,
{
    let path = config_path();
    check_toml_at(text, path.as_str())
}

// ---------------------------------------------------------------- models

/// A model that the desktop application names.
pub open spec fn model_line(v: JsonView, key: Seq<char>) -> Seq<Seq<char>> {
    match v.get2("model"@, key) {
        Some(JsonView::Str(s)) => seq!["model."@ + key + "="@ + s],
        _ => Seq::empty(),
    }
}

pub open spec fn provider_names(v: JsonView) -> Set<Seq<char>> {
    match v.get("provider"@) {
        Some(JsonView::Obj(m)) => m.dom(),
        _ => Set::empty(),
    }
}

/// The models and the names of the providers: nothing else of the file.
pub open spec fn gui_lines(v: JsonView) -> Seq<Seq<char>> {
    model_line(v, "main"@) + model_line(v, "lite"@) + (match v.get("provider"@) {
        Some(JsonView::Obj(m)) => in_order(m.dom()).map_values(|n: Seq<char>| "provider."@ + n),
        _ => Seq::empty(),
    })
}

pub open spec fn gui_models(text: Seq<char>) -> Option<Seq<Seq<char>>> {
    match json_of_text(text) {
        Some(v) => if gui_lines(v).len() > 0 {
            Some(gui_lines(v))
        } else {
            None
        },
        None => None,
    }
}

pub open spec fn gui_error(text: Seq<char>) -> Seq<char> {
    match json_of_text(text) {
        Some(_) => "sem model.* nem provider.* legíveis"@,
        None => json_error_of_text(text),
    }
}

fn push_model(out: &mut Vec<String>, v: &Json, key: &str)
    ensures
        final(out).deep_view() == old(out).deep_view() + model_line(v@, key@),
{
    let ghost before = out.deep_view();
    match v.get2("model", key) {
        Some(m) => match m.as_str() {
            Some(s) => {
                let mut t = "model.".to_owned();
                t.append(key);
                t.append("=");
                t.append(s);
                let ghost line = t@;
                out.push(t);
                assert(out.deep_view() =~= before + seq![line]);
                return;
            },
            None => {},
        },
        None => {},
    }
    assert(before + Seq::<Seq<char>>::empty() =~= before);
}

/// Reads the models and the names of the providers.
pub fn parse_gui_models(text: &str) -> (r: Result<Vec<String>, String>)
    ensures
        match r {
            Ok(ms) => gui_models(text@) == Some(ms.deep_view()),
            Err(e) => gui_models(text@) is None && e@ == gui_error(text@),
        },
{
    let v = match read_json(text) {
        Ok(v) => v,
        Err(e) => {
            return Err(e);
        },
    };
    let mut out: Vec<String> = Vec::new();
    assert(out.deep_view() =~= Seq::empty());
    push_model(&mut out, &v, "main");
    push_model(&mut out, &v, "lite");
    let ghost models = out.deep_view();
    assert(models =~= model_line(v@, "main"@) + model_line(v@, "lite"@));
    match v.get("provider") {
        Some(p) => match p.keys() {
            Some(names) => {
                let ghost all = names.deep_view().map_values(|n: Seq<char>| "provider."@ + n);
                let mut i: usize = 0;
                assert(models + all.take(0) =~= models);
                while i < names.len()
                    invariant
                        i <= names@.len(),
                        all == names.deep_view().map_values(|n: Seq<char>| "provider."@ + n),
                        out.deep_view() == models + all.take(i as int),
                    decreases names@.len() - i,
                {
                    let ghost before = out.deep_view();
                    let mut t = "provider.".to_owned();
                    t.append(names[i].as_str());
                    let ghost line = t@;
                    out.push(t);
                    assert(out.deep_view() =~= before.push(line));
                    assert(all.take(i + 1) =~= all.take(i as int).push(line));
                    i = i + 1;
                }
                assert(all.take(all.len() as int) =~= all);
            },
            None => {
                assert(models + Seq::<Seq<char>>::empty() =~= models);
            },
        },
        None => {
            assert(models + Seq::<Seq<char>>::empty() =~= models);
        },
    }
    assert(out.deep_view() == gui_lines(v@));
    if out.len() == 0 {
        return Err("sem model.* nem provider.* legíveis".to_owned());
    }
    Ok(out)
}

/// What is read of the desktop application's file is decided by the two model
/// references and the names of the providers: no other part of it, such as a
/// key, can show.
pub proof fn law_models_only(v: JsonView, w: JsonView)
    requires
        v.get2("model"@, "main"@) == w.get2("model"@, "main"@),
        v.get2("model"@, "lite"@) == w.get2("model"@, "lite"@),
        v.get("provider"@) is Some && v.get("provider"@)->0 is Obj <==> w.get("provider"@) is Some
            && w.get("provider"@)->0 is Obj,
        provider_names(v) == provider_names(w),
    ensures
        gui_lines(v) == gui_lines(w),
{
}

pub open spec fn models_check(text: Option<Seq<char>>) -> (Status, Seq<char>) {
    match text {
        None => (
            Status::Warn,
            "sem ~/.zcode/cli/config.json — /model usa effective_model da sessão"@,
        ),
        Some(t) => match gui_models(t) {
            Some(ms) => (Status::Pass, join(ms, ", "@)),
            None => (Status::Warn, "ilegível ("@ + gui_error(t) + ")"@),
        },
    }
}

/// The check of the desktop application's models.
pub fn check_gui_models(text: Option<&str>) -> (r: Check)
    ensures
        ({
            let (status, detail) = models_check(
                match text {
                    Some(t) => Some(t@),
                    None => None,
                },
            );
            r.says("modelos"@, status, detail)
        }),
{
    match text {
        None => Check {
            name: "modelos",
            status: Status::Warn,
            detail: "sem ~/.zcode/cli/config.json — /model usa effective_model da sessão".to_owned(),
        },
        Some(t) => match parse_gui_models(t) {
            Ok(ms) => Check { name: "modelos", status: Status::Pass, detail: joined(&ms, ", ") },
            Err(e) => {
                let mut d = "ilegível (".to_owned();
                d.append(e.as_str());
                d.append(")");
                Check { name: "modelos", status: Status::Warn, detail: d }
            },
        },
    }
}

// ---------------------------------------------------------------- daemon

/// What is known of the daemon.
#[derive(Debug, Clone, PartialEq, Eq)]
pub enum DaemonState {
    Ausente,
    Obsoleto { pid: u32 },
    SemResposta { pid: u32, erro: String },
    Rodando { pid: u32, uptime_secs: u64, workspaces: usize },
}

/// What is known of the daemon before it is asked; `None` where it has to be
/// asked.
pub fn daemon_state_known(entry: &Option<DaemonEntry>, is_alive: bool) -> (r: Option<DaemonState>)
    ensures
        match entry {
            None => r matches Some(DaemonState::Ausente),
            Some(e) => if entry_valid(e@, is_alive) {
                r is None
            } else {
                r matches Some(DaemonState::Obsoleto { pid }) && pid == e.pid
            },
        },
{
    match entry {
        None => Some(DaemonState::Ausente),
        Some(e) => {
            if daemon_entry_valid(e, is_alive) {
                None
            } else {
                Some(DaemonState::Obsoleto { pid: e.pid })
            }
        },
    }
}

/// What its answer to a status request says of a daemon.
pub fn daemon_state_asked(pid: u32, status: &Result<Json, String>) -> (r: DaemonState)
    ensures
        match status {
            Ok(v) => r matches DaemonState::Rodando { pid: p, uptime_secs, workspaces } && p == pid
                && uptime_secs == (match v@.unsigned_at("uptime_secs"@) {
                Some(n) => n,
                None => 0,
            }) && workspaces == (match v@.items_at("workspaces"@) {
                Some(a) => a.len(),
                None => 0,
            }),
            Err(e) => r matches DaemonState::SemResposta { pid: p, erro } && p == pid && erro@ == e@,
        },
{
    match status {
        Ok(v) => {
            let uptime_secs: u64 = match v.u64_at("uptime_secs") {
                Some(n) => n,
                None => 0,
            };
            let workspaces: usize = match v.array_at("workspaces") {
                Some(a) => a.len(),
                None => 0,
            };
            DaemonState::Rodando { pid, uptime_secs, workspaces }
        },
        Err(e) => DaemonState::SemResposta { pid, erro: e.clone() },
    }
}

pub open spec fn daemon_detail(st: DaemonState) -> Seq<char> {
    match st {
        DaemonState::Ausente =>
            "sem daemon — runtime embutido (auto-start no próximo comando; opcional)"@,
        DaemonState::Obsoleto { pid } => "daemon.json obsoleto (pid "@ + dec(pid as nat)
            + " não está vivo) — será renovado"@,
        DaemonState::SemResposta { pid, erro } => "daemon.json existe mas pid "@ + dec(pid as nat)
            + " não responde: "@ + erro@,
        DaemonState::Rodando { pid, uptime_secs, workspaces } => "daemon rodando (pid "@ + dec(
            pid as nat,
        ) + ", uptime "@ + dec(uptime_secs as nat) + "s, "@ + dec(workspaces as nat)
            + " workspace(s))"@,
    }
}

/// The check of the program itself: where it lies, or why that is not known.
pub fn check_exe(exe: &Result<String, String>) -> (r: Check)
    ensures
        match *exe {
            Ok(p) => r.says("binário"@, Status::Pass, p@),
            Err(e) => r.says("binário"@, Status::Warn, e@),
        },
{
    match exe {
        Ok(p) => Check { name: "binário", status: Status::Pass, detail: p.clone() },
        Err(e) => Check { name: "binário", status: Status::Warn, detail: e.clone() },
    }
}

/// The check of the daemon. The daemon is optional: it is never a failure.
pub fn check_daemon_state(st: &DaemonState) -> (r: Check)
    ensures
        r.says(
            "daemon"@,
            if *st is Rodando {
                Status::Pass
            } else {
                Status::Warn
            },
            daemon_detail(*st),
        ),
        r.status != Status::Fail,
{
    match st {
        DaemonState::Ausente => Check {
            name: "daemon",
            status: Status::Warn,
            detail: "sem daemon — runtime embutido (auto-start no próximo comando; opcional)".to_owned(),
        },
        DaemonState::Obsoleto { pid } => {
            let mut d = "daemon.json obsoleto (pid ".to_owned();
            let n = decimal(*pid as u64);
            d.append(n.as_str());
            d.append(" não está vivo) — será renovado");
            Check { name: "daemon", status: Status::Warn, detail: d }
        },
        DaemonState::SemResposta { pid, erro } => {
            let mut d = "daemon.json existe mas pid ".to_owned();
            let n = decimal(*pid as u64);
            d.append(n.as_str());
            d.append(" não responde: ");
            d.append(erro.as_str());
            Check { name: "daemon", status: Status::Warn, detail: d }
        },
        DaemonState::Rodando { pid, uptime_secs, workspaces } => {
            let mut d = "daemon rodando (pid ".to_owned();
            let n = decimal(*pid as u64);
            d.append(n.as_str());
            d.append(", uptime ");
            let u = decimal(*uptime_secs);
            d.append(u.as_str());
            d.append("s, ");
            let w = decimal(*workspaces as u64);
            d.append(w.as_str());
            d.append(" workspace(s))");
            Check { name: "daemon", status: Status::Pass, detail: d }
        },
    }
}

// ---------------------------------------------------------------- report

/// Some check failed.
pub open spec fn any_fails(checks: Seq<Check>) -> bool {
    exists|i: int| 0 <= i < checks.len() && (#[trigger] checks[i]).status == Status::Fail
}

/// The exit code of the diagnosis: warnings are tolerated.
pub fn overall_exit(checks: &[Check]) -> (r: i32)
    ensures
        r == (if any_fails(checks@) {
            1int
        } else {
            0
        }),
        r == 0 || r == 1,
        r == 0 <==> forall|i: int| 0 <= i < checks@.len() ==> (#[trigger] checks@[i]).status != Status::Fail,
{
    let mut i: usize = 0;
    while i < checks.len()
        invariant
            i <= checks@.len(),
            forall|k: int| 0 <= k < i ==> (#[trigger] checks@[k]).status != Status::Fail,
        decreases checks@.len() - i,
    {
        if checks[i].status == Status::Fail {
            return 1;
        }
        i = i + 1;
    }
    0
}

pub open spec fn blanks(n: nat) -> Seq<char> {
    Seq::new(n, |i: int| ' ')
}

/// `s` filled with blanks up to `n` characters.
pub open spec fn padded(s: Seq<char>, n: int) -> Seq<char> {
    if s.len() < n {
        s + blanks((n - s.len()) as nat)
    } else {
        s
    }
}

fn pad(s: &str, n: usize) -> (r: String)
    ensures
        r@ == padded(s@, n as int),
{
    let mut out = s.to_owned();
    let mut k: usize = crate::text::char_count(s);
    let ghost start = k as int;
    assert(s@ + blanks(0) =~= s@);
    while k < n
        invariant
            start == s@.len(),
            start <= k,
            k <= n || k == start,
            out@ == s@ + blanks((k - start) as nat),
        decreases n - k,
    {
        out.push(' ');
        assert(blanks((k + 1 - start) as nat) =~= blanks((k - start) as nat).push(' '));
        assert(out@ =~= s@ + blanks((k + 1 - start) as nat));
        k = k + 1;
    }
    out
}

/// One line of the report.
pub open spec fn report_line(c: CheckView) -> Seq<char> {
    "  ["@ + c.status.tag_text() + "] "@ + padded(c.name, 9) + " "@ + c.detail + "\n"@
}

pub open spec fn report_lines(checks: Seq<CheckView>) -> Seq<char>
    decreases checks.len(),
{
    if checks.len() == 0 {
        Seq::empty()
    } else {
        report_lines(checks.drop_last()) + report_line(checks.last())
    }
}

/// The report for people.
pub fn format_human(checks: &[Check]) -> (r: String)
    ensures
        r@ == "zcode-cli doctor\n"@ + report_lines(checks.deep_view()),
{
    let ghost all = checks.deep_view();
    let mut s = "zcode-cli doctor\n".to_owned();
    let mut i: usize = 0;
    assert("zcode-cli doctor\n"@ + report_lines(all.take(0)) =~= "zcode-cli doctor\n"@);
    while i < checks.len()
        invariant
            i <= checks@.len(),
            all == checks.deep_view(),
            s@ == "zcode-cli doctor\n"@ + report_lines(all.take(i as int)),
        decreases checks@.len() - i,
    {
        let c = &checks[i];
        let mut line = "  [".to_owned();
        line.append(c.status.tag());
        line.append("] ");
        let name = pad(c.name, 9);
        line.append(name.as_str());
        line.append(" ");
        line.append(c.detail.as_str());
        line.append("\n");
        let ghost before = s@;
        s.append(line.as_str());
        proof {
            assert(all.take(i + 1).drop_last() =~= all.take(i as int));
            assert(all.take(i + 1).last() == checks@[i as int].deep_view());
            assert(s@ =~= "zcode-cli doctor\n"@ + (report_lines(all.take(i as int)) + line@));
        }
        i = i + 1;
    }
    assert(all.take(all.len() as int) =~= all);
    s
}

pub open spec fn check_json(c: CheckView) -> JsonView {
    no_fields().put("check"@, JsonView::Str(c.name)).put("status"@, JsonView::Str(c.status.word())).put(
        "detail"@,
        JsonView::Str(c.detail),
    )
}

pub open spec fn report_json(checks: Seq<CheckView>, fails: bool) -> JsonView {
    no_fields().put("ok"@, JsonView::Bool(!fails)).put(
        "checks"@,
        JsonView::Arr(checks.map_values(|c: CheckView| check_json(c))),
    )
}

/// The report for programs.
pub fn format_json(checks: &[Check]) -> (r: Json)
    ensures
        r@ == report_json(checks.deep_view(), any_fails(checks@)),
{
    let ghost all = checks.deep_view().map_values(|c: CheckView| check_json(c));
    let mut items: Vec<Json> = Vec::new();
    let mut i: usize = 0;
    while i < checks.len()
        invariant
            i <= checks@.len(),
            all == checks.deep_view().map_values(|c: CheckView| check_json(c)),
            items.deep_view() == all.take(i as int),
        decreases checks@.len() - i,
    {
        let ghost before = items.deep_view();
        let c = &checks[i];
        let item = Json::object().with("check", Json::text(c.name)).with(
            "status",
            Json::text(c.status.as_str()),
        ).with("detail", Json::text(c.detail.as_str()));
        let ghost one = item@;
        items.push(item);
        assert(items.deep_view() =~= before.push(one));
        assert(all.take(i + 1) =~= all.take(i as int).push(one));
        i = i + 1;
    }
    assert(all.take(all.len() as int) =~= all);
    Json::object().with("ok", Json::Bool(overall_exit(checks) == 0)).with("checks", Json::list(items))
}

// ---------------------------------------------------------------- repair

/// A configuration that is missing or does not parse is written anew; one that
/// parses is left alone.
pub fn fix_needed(text: Option<&str>) -> (r: bool)
    ensures
        r == match text {
            Some(t) => config_of_text(t@, lost_workspace()) is None,
            None => true,
        },
{
    match text {
        None => true,
        Some(t) => parse_toml_str(t).is_err(),
    }
}

/// The configuration that a repair writes.
pub fn fix_body() -> (r: String)
    ensures
        r@ == config_toml(Seq::empty()),
{
    proof {
        reveal_strlit("");
        assert(""@ =~= Seq::<char>::empty());
    }
    default_config_toml("")
}

/// What was done by a repair: the outcome of writing, or nothing.
pub fn fix_report(path: &str, written: Option<Result<(), String>>) -> (r: String)
    ensures
        r@ == match written {
            None => "config.toml já está ok — nada a fazer"@,
            Some(Ok(())) => "config.toml escrito em "@ + path@,
            Some(Err(e)) => "falha ao gravar config.toml: "@ + e@,
        },
{
    match written {
        None => "config.toml já está ok — nada a fazer".to_owned(),
        Some(Ok(())) => {
            let mut s = "config.toml escrito em ".to_owned();
            s.append(path);
            s
        },
        Some(Err(e)) => {
            let mut s = "falha ao gravar config.toml: ".to_owned();
            s.append(e.as_str());
            s
        },
    }
}

pub open spec fn fix_lines(fixed: Seq<Seq<char>>) -> Seq<char>
    decreases fixed.len(),
{
    if fixed.len() == 0 {
        Seq::empty()
    } else {
        fix_lines(fixed.drop_last()) + ("  [FIX  ] "@ + fixed.last() + "\n"@)
    }
}

pub open spec fn full_report_json(checks: Seq<CheckView>, fails: bool, fixed: Seq<Seq<char>>) -> JsonView {
    if fixed.len() == 0 {
        report_json(checks, fails)
    } else {
        report_json(checks, fails).put(
            "fixed"@,
            JsonView::Arr(fixed.map_values(|t: Seq<char>| JsonView::Str(t))),
        )
    }
}

fn fix_text(fixed: &Vec<String>) -> (r: String)
    ensures
        r@ == fix_lines(fixed.deep_view()),
{
    let ghost all = fixed.deep_view();
    let mut s = String::new();
    let mut i: usize = 0;
    assert(s@ =~= fix_lines(all.take(0)));
    while i < fixed.len()
        invariant
            i <= fixed@.len(),
            all == fixed.deep_view(),
            s@ == fix_lines(all.take(i as int)),
        decreases fixed@.len() - i,
    {
        let mut line = "  [FIX  ] ".to_owned();
        line.append(fixed[i].as_str());
        line.append("\n");
        s.append(line.as_str());
        proof {
            assert(all.take(i + 1).drop_last() =~= all.take(i as int));
            assert(all.take(i + 1).last() == fixed@[i as int]@);
        }
        i = i + 1;
    }
    assert(all.take(all.len() as int) =~= all);
    s
}

/// The whole output of the diagnosis, and its outcome.
pub fn doctor_output(checks: &[Check], fixed: &Vec<String>, json: bool) -> (r: (
    String,
    Result<(), CmdError>,
))
    ensures
        r.0@ == if json {
            pretty_of_json(
                full_report_json(checks.deep_view(), any_fails(checks@), fixed.deep_view()),
            ) + "\n"@
        } else {
            "zcode-cli doctor\n"@ + report_lines(checks.deep_view()) + fix_lines(fixed.deep_view())
        },
        match r.1 {
            Ok(()) => !any_fails(checks@),
            Err(e) => any_fails(checks@) && e is Config && e.text()
                == "doctor: há falhas acima (exit 1)"@,
        },
        r.1 is Ok <==> forall|i: int|
            0 <= i < checks@.len() ==> (#[trigger] checks@[i]).status != Status::Fail,
{
    let mut out = if json {
        let base = format_json(checks);
        let v = if fixed.len() == 0 {
            base
        } else {
            base.with("fixed", Json::texts(fixed))
        };
        let mut s = write_json_pretty(&v);
        s.append("\n");
        s
    } else {
        let mut s = format_human(checks);
        let f = fix_text(fixed);
        s.append(f.as_str());
        s
    };
    let outcome = if overall_exit(checks) == 0 {
        Ok(())
    } else {
        Err(CmdError::Config("doctor: há falhas acima (exit 1)".to_owned()))
    };
    (out, outcome)
}

// ---------------------------------------------------------------- laws

/// The report tells the checks in their order.
pub proof fn law_report_in_order(a: Seq<CheckView>, b: Seq<CheckView>)
    ensures
        report_lines(a + b) == report_lines(a) + report_lines(b),
    decreases b.len(),
{
    if b.len() == 0 {
        assert(a + b =~= a);
        assert(report_lines(a) + report_lines(b) =~= report_lines(a));
    } else {
        assert((a + b).drop_last() =~= a + b.drop_last());
        law_report_in_order(a, b.drop_last());
        assert(report_lines(a + b) =~= report_lines(a) + report_lines(b));
    }
}

/// Every check is told with its name, its detail and the tag of its status.
pub proof fn law_report_holds(checks: Seq<CheckView>, i: int)
    requires
        0 <= i < checks.len(),
    ensures
        contains(report_lines(checks), checks[i].name),
        contains(report_lines(checks), checks[i].detail),
        contains(report_lines(checks), "["@ + checks[i].status.tag_text() + "]"@),
{
    let c = checks[i];
    lemma_report_holds_line(checks, i);
    lemma_report_line_holds(c);
    lemma_contains_trans(report_lines(checks), report_line(c), c.name);
    lemma_contains_trans(report_lines(checks), report_line(c), c.detail);
    lemma_contains_trans(
        report_lines(checks),
        report_line(c),
        "["@ + c.status.tag_text() + "]"@,
    );
}

proof fn lemma_report_holds_line(checks: Seq<CheckView>, i: int)
    requires
        0 <= i < checks.len(),
    ensures
        contains(report_lines(checks), report_line(checks[i])),
    decreases checks.len(),
{
    broadcast use group_contains;

    if i < checks.len() - 1 {
        lemma_report_holds_line(checks.drop_last(), i);
        assert(checks.drop_last()[i] == checks[i]);
    }
}

proof fn lemma_report_line_holds(c: CheckView)
    ensures
        contains(report_line(c), c.name),
        contains(report_line(c), c.detail),
        contains(report_line(c), "["@ + c.status.tag_text() + "]"@),
{
    reveal_strlit("  [");
    reveal_strlit("  ");
    reveal_strlit("[");
    reveal_strlit("] ");
    reveal_strlit("]");
    reveal_strlit(" ");
    let tag = "["@ + c.status.tag_text() + "]"@;
    let p = padded(c.name, 9);
    let line = "  "@ + tag + " "@ + p + " "@ + c.detail + "\n"@;
    assert("  ["@ =~= "  "@ + "["@);
    assert("] "@ =~= "]"@ + " "@);
    assert(report_line(c) =~= line);
    assert(contains(line, c.name) && contains(line, c.detail) && contains(line, tag)) by {
        broadcast use group_contains;

        assert(contains(p, c.name));
    }
}

/// No two statuses have the same tag or the same word.
pub proof fn law_statuses_tell_apart(a: Status, b: Status)
    requires
        a != b,
    ensures
        a.tag_text() != b.tag_text(),
        a.word() != b.word(),
        Status::Pass.word() == "ok"@,
        Status::Fail.word() == "fail"@,
{
    reveal_strlit("OK  ");
    reveal_strlit("AVISO");
    reveal_strlit("FALHA");
    assert("OK  "@.len() == 4 && "AVISO"@.len() == 5 && "FALHA"@.len() == 5);
    assert("AVISO"@[0] != "FALHA"@[0]);
    reveal_strlit("ok");
    reveal_strlit("warn");
    reveal_strlit("fail");
    assert("ok"@.len() == 2 && "warn"@.len() == 4 && "fail"@.len() == 4);
    assert("warn"@[0] != "fail"@[0]);
}

/// For programs: whether all is well, and every check in its place with its
/// name, its status and its detail.
pub proof fn law_report_json_holds(checks: Seq<CheckView>, fails: bool, fixed: Seq<Seq<char>>)
    ensures
        ({
            let v = full_report_json(checks, fails, fixed);
            &&& v.get("ok"@) == Some(JsonView::Bool(!fails))
            &&& v.items_at("checks"@) matches Some(list) && list.len() == checks.len() && (forall|
                i: int,
            |
                0 <= i < list.len() ==> (#[trigger] list[i]).text_at("check"@) == Some(
                    checks[i].name,
                ) && list[i].text_at("status"@) == Some(checks[i].status.word())
                    && list[i].text_at("detail"@) == Some(checks[i].detail))
            &&& fixed.len() > 0 ==> (v.items_at("fixed"@) matches Some(list) && list.len()
                == fixed.len() && (forall|i: int|
                0 <= i < list.len() ==> #[trigger] list[i] == JsonView::Str(fixed[i])))
        }),
{
    reveal_strlit("ok");
    reveal_strlit("checks");
    reveal_strlit("fixed");
    assert("ok"@.len() == 2 && "checks"@.len() == 6 && "fixed"@.len() == 5);
    reveal_strlit("check");
    reveal_strlit("status");
    reveal_strlit("detail");
    assert("check"@.len() == 5 && "status"@.len() == 6 && "detail"@.len() == 6);
    assert("status"@[0] != "detail"@[0]);
    let list = full_report_json(checks, fails, fixed).items_at("checks"@)->Some_0;
    assert(list =~= checks.map_values(|c: CheckView| check_json(c)));
    if fixed.len() > 0 {
        let l = full_report_json(checks, fails, fixed).items_at("fixed"@)->Some_0;
        assert(l =~= fixed.map_values(|t: Seq<char>| JsonView::Str(t)));
    }
}

/// What was mended is told, each behind the mark.
pub proof fn law_fixes_told(fixed: Seq<Seq<char>>, i: int)
    requires
        0 <= i < fixed.len(),
    ensures
        contains(fix_lines(fixed), fixed[i]),
    decreases fixed.len(),
{
    broadcast use group_contains;

    if i == fixed.len() - 1 {
        assert(contains(fix_lines(fixed), fixed.last()));
    } else {
        law_fixes_told(fixed.drop_last(), i);
        assert(contains(fix_lines(fixed.drop_last()), fixed[i]));
    }
}

/// One failing check is enough, and one is needed.
pub proof fn law_any_fails(a: Seq<Check>, c: Check)
    ensures
        any_fails(a.push(c)) <==> any_fails(a) || c.status == Status::Fail,
        !any_fails(Seq::empty()),
{
    let b = a.push(c);
    if any_fails(a) {
        let i = choose|i: int| 0 <= i < a.len() && (#[trigger] a[i]).status == Status::Fail;
        assert(b[i].status == Status::Fail);
    }
    if c.status == Status::Fail {
        assert(b[a.len() as int].status == Status::Fail);
    }
    if any_fails(b) {
        let i = choose|i: int| 0 <= i < b.len() && (#[trigger] b[i]).status == Status::Fail;
        if i < a.len() {
            assert(a[i].status == Status::Fail);
        }
    }
}

/// The state of the daemon is told by its process, and by its reason where it
/// does not answer.
pub proof fn law_daemon_detail(st: DaemonState)
    ensures
        st matches DaemonState::Obsoleto { pid } ==> contains(daemon_detail(st), dec(pid as nat)),
        st matches DaemonState::SemResposta { pid, erro } ==> contains(
            daemon_detail(st),
            dec(pid as nat),
        ) && contains(daemon_detail(st), erro@),
        st matches DaemonState::Rodando { pid, uptime_secs, workspaces } ==> contains(
            daemon_detail(st),
            dec(pid as nat),
        ) && contains(daemon_detail(st), dec(uptime_secs as nat)) && contains(
            daemon_detail(st),
            dec(workspaces as nat),
        ),
{
    broadcast use group_contains;

}

/// A name is filled up with blanks behind it, never cut.
pub proof fn law_padded(s: Seq<char>, n: nat)
    ensures
        s.is_prefix_of(padded(s, n as int)),
        padded(s, n as int).len() == if s.len() < n {
            n
        } else {
            s.len()
        },
{
}

/// The settings of the desktop program are told: its models by their names, then
/// its providers in order.
pub proof fn law_gui_lines_hold(v: JsonView, main: Seq<char>, lite: Seq<char>)
    ensures
        v.get2("model"@, "main"@) == Some(JsonView::Str(main)) ==> gui_lines(v).len() > 0
            && gui_lines(v)[0] == "model."@ + "main"@ + "="@ + main,
        v.get2("model"@, "main"@) == Some(JsonView::Str(main)) && v.get2("model"@, "lite"@) == Some(
            JsonView::Str(lite),
        ) ==> gui_lines(v).len() > 1 && gui_lines(v)[1] == "model."@ + "lite"@ + "="@ + lite,
{
}

/// Where a configuration comes from, by rank: the command line, the environment,
/// the file, a search.
pub proof fn law_route_ranks(explicit: Seq<char>, env: Seq<char>, configured: Seq<char>, other: Option<Seq<char>>)
    ensures
        explicit.len() > 0 ==> route(Some(explicit), other, configured) == "override --runtime"@,
        !blank(env) ==> route(None, Some(env), configured) == "env ZCODE_CJS"@,
        !blank(configured) ==> route(None, None, configured) == "config TOML"@,
        blank(configured) ==> route(None, None, configured) == "autodetecção"@,
{
}

/// A file that is missing is a warning, one that cannot be read a failure.
pub proof fn law_toml_check(text: Seq<char>, path: Seq<char>)
    ensures
        toml_check(None, path).0 == Status::Warn && contains(toml_check(None, path).1, path),
        config_of_text(text, lost_workspace()) is Some ==> toml_check(Some(text), path) == (
            Status::Pass,
            path,
        ),
        config_of_text(text, lost_workspace()) is None ==> toml_check(Some(text), path).0
            == Status::Fail && contains(toml_check(Some(text), path).1, config_error(text)),
        models_check(None).0 == Status::Warn,
        gui_models(text) is Some ==> models_check(Some(text)).0 == Status::Pass,
        gui_models(text) is None ==> models_check(Some(text)).0 == Status::Warn,
{
    broadcast use group_contains;

}

} // verus!
