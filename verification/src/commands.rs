//! The commands: their errors and exit codes, what their flags mean, and the
//! decisions behind them.

use crate::config::{
    bad_model_text, config_of, model_ref, number_field, text_field, ConfigError, DefaultCfgView,
    FileConfig, FileConfigView, RuntimeCfgView, UiCfgView,
};
use crate::json::JsonView;
use crate::runtime::RuntimeError;
use crate::session::calls::{
    apply_mode, apply_model, apply_thought, bad_mode_text, bad_thought_text,
    law_calls_carry_their_values, law_calls_name_their_session, mode_known, set_mode_view,
    set_model_view, set_thought_view, thought_known, Call,
};
use crate::session::turn::timeout_text;
use crate::session::SessionError;
use crate::text::{
    ascii_lower, blank, contains, dec, decimal, group_contains, has, is_blank, law_split_in_order, law_trim,
    lemma_trim_empty_iff_blank, lemma_trim_solid, lowered, nonempty, occurs_at, pieces, replace_char, replaced, same, split, to_chars, trim, trimmed,
};
use crate::toml_text::{
    bare, bare_upto, lemma_bare, lemma_no_control, no_control, no_control_upto, plain, Toml,
};
use vstd::prelude::*;

pub mod editor;
pub mod input;
pub mod key_laws;
pub mod keys;
pub mod merge;
pub mod poll;
pub mod repl;
pub mod run;
pub mod screen;
pub mod slash;
pub mod snapshot;
pub mod tables;
pub mod tasks;
pub mod tui;
pub mod turns;

verus! {

#[derive(Debug, Clone, PartialEq, Eq)]
pub enum CmdError {
    Runtime(String),
    Session(String),
    Config(String),
    Io(String),
    /// The turn stopped without an answer.
    Stopped(String),
}

impl CmdError {
    /// The message shown for the error.
    pub open spec fn text(&self) -> Seq<char> {
        match self {
            CmdError::Runtime(m) => m@,
            CmdError::Session(m) => m@,
            CmdError::Config(m) => m@,
            CmdError::Io(m) => m@,
            CmdError::Stopped(m) => "turno parado: "@ + m@,
        }
    }

    pub fn to_text(&self) -> (r: String)
        ensures
            r@ == self.text(),
    {
        match self {
            CmdError::Runtime(m) => m.clone(),
            CmdError::Session(m) => m.clone(),
            CmdError::Config(m) => m.clone(),
            CmdError::Io(m) => m.clone(),
            CmdError::Stopped(m) => {
                let mut s = "turno parado: ".to_owned();
                s.append(m.as_str());
                s
            },
        }
    }
}

/// The command's error for an error of the runtime.
pub fn runtime_failed(e: &RuntimeError) -> (r: CmdError)
    ensures
        r matches CmdError::Runtime(m) && m@ == e.text(),
{
    CmdError::Runtime(e.to_text())
}

/// The command's error for an error of a session.
pub fn session_failed(e: &SessionError) -> (r: CmdError)
    ensures
        r matches CmdError::Session(m) && m@ == e.text(),
{
    CmdError::Session(e.to_text())
}

/// The command's error for an error of the configuration.
pub fn config_failed(e: &ConfigError) -> (r: CmdError)
    ensures
        r matches CmdError::Config(m) && m@ == e.text(),
{
    CmdError::Config(e.to_text())
}

// ---------------------------------------------------------------- exit codes

pub open spec fn exit_code_of(e: CmdError) -> i32 {
    if e is Stopped {
        2
    } else {
        1
    }
}

/// The exit code of a command that failed: 2 for a turn that stopped, 1 for
/// anything else.
pub fn exit_code(e: &CmdError) -> (r: i32)
    ensures
        r == exit_code_of(*e),
{
    match e {
        CmdError::Stopped(_) => 2,
        _ => 1,
    }
}

pub open spec fn turn_stalled(e: CmdError) -> bool {
    e matches CmdError::Session(m) && contains(m@, "timeout"@)
}

/// Whether an error says that no answer came in time.
pub fn is_turn_stalled(e: &CmdError) -> (r: bool)
    ensures
        r == turn_stalled(*e),
{
    match e {
        CmdError::Session(m) => has(m.as_str(), "timeout"),
        _ => false,
    }
}

/// The error of a one-shot command whose turn failed with `e`.
pub fn turn_failed(e: &SessionError) -> (r: CmdError)
    ensures
        if contains(e.text(), "timeout"@) {
            r matches CmdError::Stopped(m) && m@ == e.text()
        } else {
            r matches CmdError::Session(m) && m@ == e.text()
        },
{
    let ce = session_failed(e);
    if is_turn_stalled(&ce) {
        CmdError::Stopped(ce.to_text())
    } else {
        ce
    }
}

/// A one-shot turn that got no answer in time ends the command with exit code
/// 2, whatever its limit.
pub proof fn law_timeout_exits_with_two(e: SessionError, timeout_secs: u64, r: CmdError)
    requires
        e matches SessionError::Protocol(m) && m@ == timeout_text(timeout_secs),
        if contains(e.text(), "timeout"@) {
            r matches CmdError::Stopped(m) && m@ == e.text()
        } else {
            r matches CmdError::Session(m) && m@ == e.text()
        },
    ensures
        exit_code_of(r) == 2,
{
    reveal_strlit("protocolo: ");
    reveal_strlit("timeout (");
    reveal_strlit("timeout");
    let t = e.text();
    assert(t.subrange(11, 18) =~= "timeout"@);
    assert(occurs_at(t, "timeout"@, 11));
}

// ---------------------------------------------------------------- checks

pub open spec fn bad_resume_text() -> Seq<char> {
    "resume id inválido: informe o id ou use -c p/ a última da pasta"@
}

/// A session id must say something.
pub fn validate_resume_id(id: &str) -> (r: Result<(), CmdError>)
    ensures
        blank(id@) ==> (r matches Err(CmdError::Session(m)) && m@ == bad_resume_text()),
        !blank(id@) ==> r is Ok,
{
    if is_blank(id) {
        return Err(
            CmdError::Session(
                "resume id inválido: informe o id ou use -c p/ a última da pasta".to_owned(),
            ),
        );
    }
    Ok(())
}

pub open spec fn no_workspace_text(ws: Seq<char>) -> Seq<char> {
    "workspace inexistente: "@ + ws + " (verifique --cwd / pasta)"@
}

/// A workspace must be named and be a directory.
pub fn validate_workspace_exists(ws_norm: &str, is_dir: bool) -> (r: Result<(), CmdError>)
    ensures
        match r {
            Ok(()) => !blank(ws_norm@) && is_dir,
            Err(e) => e is Config && if blank(ws_norm@) {
                e.text() == "workspace vazio: informe --cwd <pasta>"@
            } else {
                !is_dir && e.text() == no_workspace_text(ws_norm@)
            },
        },
{
    if is_blank(ws_norm) {
        return Err(CmdError::Config("workspace vazio: informe --cwd <pasta>".to_owned()));
    }
    if !is_dir {
        let mut m = "workspace inexistente: ".to_owned();
        m.append(ws_norm);
        m.append(" (verifique --cwd / pasta)");
        return Err(CmdError::Config(m));
    }
    Ok(())
}

/// Goals cannot be written from here.
pub fn goal_write_blocked(action: &str) -> (r: bool)
    ensures
        r == (trim(action@) == "set"@ || trim(action@) == "replace"@),
{
    let a = trimmed(action);
    same(a.as_str(), "set") || same(a.as_str(), "replace")
}

// ---------------------------------------------------------------- tool filters

/// How many parentheses are open after a text; one that closes nothing counts
/// for nothing.
pub open spec fn open_parens(s: Seq<char>) -> nat
    decreases s.len(),
{
    if s.len() == 0 {
        0
    } else {
        let before = open_parens(s.drop_last());
        if s.last() == '(' {
            before + 1
        } else if s.last() == ')' && before > 0 {
            (before - 1) as nat
        } else {
            before
        }
    }
}

/// The pieces of a text between its blanks and tabs; one inside parentheses
/// divides nothing.
pub open spec fn outside_parens(s: Seq<char>) -> Seq<Seq<char>>
    decreases s.len(),
{
    if s.len() == 0 {
        seq![Seq::<char>::empty()]
    } else {
        let before = outside_parens(s.drop_last());
        if (s.last() == ' ' || s.last() == '\t') && open_parens(s.drop_last()) == 0 {
            before.push(Seq::empty())
        } else {
            before.drop_last().push(before.last().push(s.last()))
        }
    }
}

/// The tools that one segment of a filter names.
pub open spec fn tools_of_segment(segment: Seq<char>) -> Seq<Seq<char>> {
    outside_parens(trim(segment)).filter(|p: Seq<char>| p.len() > 0)
}

pub open spec fn tools_of(segments: Seq<Seq<char>>) -> Seq<Seq<char>>
    decreases segments.len(),
{
    if segments.len() == 0 {
        Seq::empty()
    } else {
        tools_of(segments.drop_last()) + tools_of_segment(segments.last())
    }
}

/// The tools that a filter names: segments end at commas and line breaks, tools
/// at blanks that are not inside parentheses.
pub open spec fn tools_filter(raw: Seq<char>) -> Seq<Seq<char>> {
    tools_of(split(raw, |c: char| c == ',' || c == '\n'))
}

/// The pieces of a text between its blanks and tabs, but for those inside
/// parentheses.
fn cut_outside_parens(s: &str) -> (r: Vec<String>)
    ensures
        r.deep_view() == outside_parens(s@),
{
    let v = to_chars(s);
    let mut out: Vec<String> = Vec::new();
    let mut cur: String = String::new();
    let mut open: usize = 0;
    let mut i: usize = 0;
    assert(v@.take(0).len() == 0);
    assert(out.deep_view().push(cur@) =~= outside_parens(v@.take(0)));
    while i < v.len()
        invariant
            i <= v@.len(),
            v@ == s@,
            open == open_parens(v@.take(i as int)),
            open <= i,
            out.deep_view().push(cur@) == outside_parens(v@.take(i as int)),
        decreases v@.len() - i,
    {
        let c = v[i];
        proof {
            assert(v@.take(i + 1).drop_last() == v@.take(i as int));
            assert(v@.take(i + 1).last() == c);
            assert(out.deep_view().push(cur@).drop_last() == out.deep_view());
            assert(out.deep_view().push(cur@).last() == cur@);
        }
        if (c == ' ' || c == '\t') && open == 0 {
            let ghost old_out = out.deep_view();
            let ghost old_cur = cur@;
            out.push(cur);
            assert(out.deep_view() =~= old_out.push(old_cur));
            cur = String::new();
        } else {
            cur.push(c);
        }
        if c == '(' {
            open = open + 1;
        } else if c == ')' && open > 0 {
            open = open - 1;
        }
        i = i + 1;
    }
    assert(v@.take(v@.len() as int) == v@);
    let ghost old_out = out.deep_view();
    let ghost old_cur = cur@;
    out.push(cur);
    assert(out.deep_view() =~= old_out.push(old_cur));
    out
}

fn append_all(out: &mut Vec<String>, more: Vec<String>)
    ensures
        final(out).deep_view() == old(out).deep_view() + more.deep_view(),
{
    let ghost start = out.deep_view();
    let mut i: usize = 0;
    assert(start + more.deep_view().take(0) =~= start);
    while i < more.len()
        invariant
            i <= more@.len(),
            out.deep_view() == start + more.deep_view().take(i as int),
        decreases more@.len() - i,
    {
        let ghost before = out.deep_view();
        out.push(more[i].clone());
        assert(out.deep_view() =~= before.push(more@[i as int]@));
        assert(more.deep_view().take(i + 1) =~= more.deep_view().take(i as int).push(
            more@[i as int]@,
        ));
        i = i + 1;
    }
    assert(more.deep_view().take(more@.len() as int) =~= more.deep_view());
}

/// Reads a list of tools.
pub fn parse_tools_filter(raw: Option<&str>) -> (r: Vec<String>)
    ensures
        r.deep_view() == match raw {
            Some(t) => tools_filter(t@),
            None => Seq::empty(),
        },
{
    let mut out: Vec<String> = Vec::new();
    let text = match raw {
        Some(t) => t,
        None => {
            assert(out.deep_view() =~= Seq::empty());
            return out;
        },
    };
    let segments = pieces(text, ',', '\n');
    let mut i: usize = 0;
    assert(out.deep_view() =~= tools_of(segments.deep_view().take(0)));
    while i < segments.len()
        invariant
            i <= segments@.len(),
            out.deep_view() == tools_of(segments.deep_view().take(i as int)),
        decreases segments@.len() - i,
    {
        proof {
            let t = segments.deep_view().take(i + 1);
            assert(t.drop_last() == segments.deep_view().take(i as int));
            assert(t.last() == segments@[i as int]@);
        }
        let seg = trimmed(segments[i].as_str());
        let parts = cut_outside_parens(seg.as_str());
        append_all(&mut out, nonempty(&parts));
        i = i + 1;
    }
    assert(segments.deep_view().take(segments@.len() as int) =~= segments.deep_view());
    out
}

proof fn lemma_cut_is_split(s: Seq<char>)
    requires
        !s.contains('('),
    ensures
        outside_parens(s) == split(s, |c: char| c == ' ' || c == '\t'),
        open_parens(s) == 0,
    decreases s.len(),
{
    if s.len() > 0 {
        let t = s.drop_last();
        assert forall|i: int| 0 <= i < t.len() implies #[trigger] t[i] != '(' by {
            assert(s.contains(s[i]));
        }
        lemma_cut_is_split(t);
        assert(s.contains(s.last()));
    }
}

/// Where nothing is in parentheses, every blank divides.
pub proof fn law_blanks_divide(segment: Seq<char>)
    requires
        !trim(segment).contains('('),
    ensures
        tools_of_segment(segment) == split(trim(segment), |c: char| c == ' ' || c == '\t').filter(
            |p: Seq<char>| p.len() > 0,
        ),
{
    lemma_cut_is_split(trim(segment));
}

pub open spec fn filter_warning() -> Seq<char> {
    "filtro de tools ainda não aplicado ao protocolo (sem setter RPC verificado no servidor)"@
}

/// What is said of tool filters, which the server has no way to apply.
pub fn tools_filter_warning(allowed: &[String], disallowed: &[String]) -> (r: Option<String>)
    ensures
        match r {
            Some(w) => (allowed@.len() > 0 || disallowed@.len() > 0) && w@ == filter_warning(),
            None => allowed@.len() == 0 && disallowed@.len() == 0,
        },
{
    if allowed.len() == 0 && disallowed.len() == 0 {
        return None;
    }
    Some(
        "filtro de tools ainda não aplicado ao protocolo (sem setter RPC verificado no servidor)".to_owned(),
    )
}

// ---------------------------------------------------------------- notification

/// What is done when a one-shot command is done.
#[derive(Debug, Clone, PartialEq, Eq)]
pub enum NotifyAction {
    Nothing,
    Beep,
    Command(String),
}

/// A command is run only where one is given that is not blank.
pub fn notify_action(on_done: bool, cmd: Option<&str>) -> (r: NotifyAction)
    ensures
        if !on_done {
            r is Nothing
        } else {
            match cmd {
                Some(c) if !blank(c@) => r matches NotifyAction::Command(t) && t@ == trim(c@),
                _ => r is Beep,
            }
        },
{
    if !on_done {
        return NotifyAction::Nothing;
    }
    match cmd {
        Some(c) => {
            if is_blank(c) {
                NotifyAction::Beep
            } else {
                NotifyAction::Command(trimmed(c))
            }
        },
        None => NotifyAction::Beep,
    }
}

// ---------------------------------------------------------------- small answers

/// The answers that mean yes.
pub open spec fn means_yes(line: Seq<char>) -> bool {
    let t = ascii_lower(trim(line));
    t == "y"@ || t == "yes"@ || t == "s"@ || t == "sim"@
}

/// Whether a question was answered with yes.
pub fn confirm_yes(line: &str) -> (r: bool)
    ensures
        r == means_yes(line@),
{
    let t = trimmed(line);
    let l = lowered(t.as_str());
    same(l.as_str(), "y") || same(l.as_str(), "yes") || same(l.as_str(), "s") || same(
        l.as_str(),
        "sim",
    )
}

/// Whether the retro look was asked for.
pub fn is_retro(cfg: &FileConfig) -> (r: bool)
    ensures
        r == (cfg.ui.theme@ == "retro"@),
{
    same(cfg.ui.theme.as_str(), "retro")
}

// ---------------------------------------------------------------- first configuration

/// The settings of the runtime: where it lies, or a hint how to say so.
pub open spec fn runtime_table(runtime_hint: Seq<char>) -> Toml {
    let head = Toml::Start.comment(" zcode-cli config — gerado por `zcode-cli init`"@).comment(
        " Docs: https://github.com/danjour/CLI-ZCode"@,
    ).blank().table("runtime"@);
    let place = if runtime_hint.len() == 0 {
        head.comment(" zcode_cjs = \"C:/.../zcode.cjs\"  # opcional; autodetecta se omitido"@)
    } else {
        head.text("zcode_cjs"@, runtime_hint)
    };
    place.text("node"@, "node"@).blank()
}

/// The settings of a session.
pub open spec fn default_table(before: Toml) -> Toml {
    before.table("default"@).text("workspace"@, "."@).text("mode"@, "build"@).comment(
        " Modelo só é aplicado se --model explícito (servidor Flash em 2026-09)."@,
    ).text("model"@, "zai/glm-5.3"@).text("thought_level"@, "max"@).blank()
}

/// The settings of the interface.
pub open spec fn ui_table(before: Toml) -> Toml {
    before.table("ui"@).text("theme"@, "dark"@).number("stream_refresh_ms"@, 300)
}

pub open spec fn first_toml(runtime_hint: Seq<char>) -> Toml {
    ui_table(default_table(runtime_table(runtime_hint)))
}

/// The text of the first configuration.
pub open spec fn config_toml(runtime_hint: Seq<char>) -> Seq<char> {
    first_toml(runtime_hint).written()
}

fn put_comment(s: &mut String, text: &str)
    ensures
        final(s)@ == old(s)@ + "#"@ + text@ + "\n"@,
{
    s.append("#");
    s.append(text);
    s.append("\n");
}

fn put_table(s: &mut String, name: &str)
    ensures
        final(s)@ == old(s)@ + "["@ + name@ + "]\n"@,
{
    s.append("[");
    s.append(name);
    s.append("]\n");
}

fn put_text(s: &mut String, key: &str, value: &str)
    ensures
        final(s)@ == old(s)@ + key@ + " = \""@ + replace_char(value@, '\\', "\\\\"@) + "\"\n"@,
{
    s.append(key);
    s.append(" = \"");
    let v = replaced(value, '\\', "\\\\");
    s.append(v.as_str());
    s.append("\"\n");
}

fn put_number(s: &mut String, key: &str, value: u64)
    ensures
        final(s)@ == old(s)@ + key@ + " = "@ + dec(value as nat) + "\n"@,
{
    s.append(key);
    s.append(" = ");
    let v = decimal(value);
    s.append(v.as_str());
    s.append("\n");
}

/// The first configuration file.
pub fn default_config_toml(runtime_hint: &str) -> (r: String)
    ensures
        r@ == config_toml(runtime_hint@),
{
    proof {
        reveal_with_fuel(Toml::written, 20);
    }
    let mut s: String = String::new();
    put_comment(&mut s, " zcode-cli config — gerado por `zcode-cli init`");
    put_comment(&mut s, " Docs: https://github.com/danjour/CLI-ZCode");
    s.append("\n");
    put_table(&mut s, "runtime");
    if runtime_hint.is_empty() {
        put_comment(
            &mut s,
            " zcode_cjs = \"C:/.../zcode.cjs\"  # opcional; autodetecta se omitido",
        );
    } else {
        put_text(&mut s, "zcode_cjs", runtime_hint);
    }
    put_text(&mut s, "node", "node");
    s.append("\n");
    assert(s@ == runtime_table(runtime_hint@).written());
    put_table(&mut s, "default");
    put_text(&mut s, "workspace", ".");
    put_text(&mut s, "mode", "build");
    put_comment(&mut s, " Modelo só é aplicado se --model explícito (servidor Flash em 2026-09).");
    put_text(&mut s, "model", "zai/glm-5.3");
    put_text(&mut s, "thought_level", "max");
    s.append("\n");
    assert(s@ == default_table(runtime_table(runtime_hint@)).written());
    put_table(&mut s, "ui");
    put_text(&mut s, "theme", "dark");
    put_number(&mut s, "stream_refresh_ms", 300);
    s
}

/// What the first configuration sets.
pub open spec fn first_settings(runtime_hint: Seq<char>) -> FileConfigView {
    FileConfigView {
        runtime: RuntimeCfgView { zcode_cjs: runtime_hint, node: "node"@ },
        default: DefaultCfgView {
            workspace: "."@,
            mode: "build"@,
            model: "zai/glm-5.3"@,
            thought_level: "max"@,
        },
        ui: UiCfgView { theme: "dark"@, stream_refresh_ms: 300 },
    }
}

proof fn lemma_first_keys()
    ensures
        bare("runtime"@),
        bare("zcode_cjs"@),
        bare("node"@),
        bare("default"@),
        bare("workspace"@),
        bare("mode"@),
        bare("model"@),
        bare("thought_level"@),
        bare("ui"@),
        bare("theme"@),
        bare("stream_refresh_ms"@),
{
    reveal_with_fuel(bare_upto, 20);
    reveal_strlit("runtime");
    reveal_strlit("zcode_cjs");
    reveal_strlit("node");
    reveal_strlit("default");
    reveal_strlit("workspace");
    reveal_strlit("mode");
    reveal_strlit("model");
    reveal_strlit("thought_level");
    reveal_strlit("ui");
    reveal_strlit("theme");
    reveal_strlit("stream_refresh_ms");
    lemma_bare("runtime"@);
    lemma_bare("zcode_cjs"@);
    lemma_bare("node"@);
    lemma_bare("default"@);
    lemma_bare("workspace"@);
    lemma_bare("mode"@);
    lemma_bare("model"@);
    lemma_bare("thought_level"@);
    lemma_bare("ui"@);
    lemma_bare("theme"@);
    lemma_bare("stream_refresh_ms"@);
}

proof fn lemma_first_texts()
    ensures
        plain("node"@),
        plain("."@),
        plain("build"@),
        plain("zai/glm-5.3"@),
        plain("max"@),
        plain("dark"@),
{
    reveal_strlit("node");
    reveal_strlit(".");
    reveal_strlit("build");
    reveal_strlit("zai/glm-5.3");
    reveal_strlit("max");
    reveal_strlit("dark");
    assert("node"@ =~= seq!['n', 'o', 'd', 'e']);
    assert("."@ =~= seq!['.']);
    assert("build"@ =~= seq!['b', 'u', 'i', 'l', 'd']);
    assert("zai/glm-5.3"@ =~= seq!['z', 'a', 'i', '/', 'g', 'l', 'm', '-', '5', '.', '3']);
    assert("max"@ =~= seq!['m', 'a', 'x']);
    assert("dark"@ =~= seq!['d', 'a', 'r', 'k']);
}

proof fn lemma_first_comments()
    ensures
        no_control(" zcode-cli config — gerado por `zcode-cli init`"@),
        no_control(" Docs: https://github.com/danjour/CLI-ZCode"@),
        no_control(" zcode_cjs = \"C:/.../zcode.cjs\"  # opcional; autodetecta se omitido"@),
        no_control(" Modelo só é aplicado se --model explícito (servidor Flash em 2026-09)."@),
{
    reveal_with_fuel(no_control_upto, 90);
    assert(no_control(" zcode-cli config — gerado por `zcode-cli init`"@)) by {
        reveal_strlit(" zcode-cli config — gerado por `zcode-cli init`");
        lemma_no_control(" zcode-cli config — gerado por `zcode-cli init`"@);
    }
    assert(no_control(" Docs: https://github.com/danjour/CLI-ZCode"@)) by {
        reveal_strlit(" Docs: https://github.com/danjour/CLI-ZCode");
        lemma_no_control(" Docs: https://github.com/danjour/CLI-ZCode"@);
    }
    assert(no_control(" zcode_cjs = \"C:/.../zcode.cjs\"  # opcional; autodetecta se omitido"@)) by {
        reveal_strlit(" zcode_cjs = \"C:/.../zcode.cjs\"  # opcional; autodetecta se omitido");
        lemma_no_control(" zcode_cjs = \"C:/.../zcode.cjs\"  # opcional; autodetecta se omitido"@);
    }
    assert(no_control(" Modelo só é aplicado se --model explícito (servidor Flash em 2026-09)."@)) by {
        reveal_strlit(" Modelo só é aplicado se --model explícito (servidor Flash em 2026-09).");
        lemma_no_control(" Modelo só é aplicado se --model explícito (servidor Flash em 2026-09)."@);
    }
}

proof fn lemma_runtime_table(hint: Seq<char>)
    requires
        plain(hint),
    ensures
        runtime_table(hint).fits(),
        runtime_table(hint).opened() == Some("runtime"@),
        runtime_table(hint).tables() == map!["runtime"@ => (if hint.len() == 0 {
            map!["node"@ => JsonView::Str("node"@)]
        } else {
            map!["zcode_cjs"@ => JsonView::Str(hint), "node"@ => JsonView::Str("node"@)]
        })],
{
    reveal_with_fuel(Toml::fits, 10);
    reveal_with_fuel(Toml::tables, 10);
    reveal_with_fuel(Toml::opened, 10);
    lemma_first_keys();
    lemma_first_texts();
    lemma_first_comments();
    reveal_strlit("zcode_cjs");
    reveal_strlit("node");
    let t = runtime_table(hint).tables();
    let inner = if hint.len() == 0 {
        map!["node"@ => JsonView::Str("node"@)]
    } else {
        map!["zcode_cjs"@ => JsonView::Str(hint), "node"@ => JsonView::Str("node"@)]
    };
    assert(t["runtime"@] =~= inner);
    assert(t =~= map!["runtime"@ => inner]);
}

proof fn lemma_default_table(d: Toml)
    requires
        d.fits(),
        !d.tables().dom().contains("default"@),
    ensures
        default_table(d).fits(),
        default_table(d).tables() == d.tables().insert(
            "default"@,
            map![
                "workspace"@ => JsonView::Str("."@),
                "mode"@ => JsonView::Str("build"@),
                "model"@ => JsonView::Str("zai/glm-5.3"@),
                "thought_level"@ => JsonView::Str("max"@),
            ],
        ),
{
    reveal_with_fuel(Toml::fits, 10);
    reveal_with_fuel(Toml::tables, 10);
    reveal_with_fuel(Toml::opened, 10);
    lemma_first_keys();
    lemma_first_texts();
    lemma_first_comments();
    reveal_strlit("workspace");
    reveal_strlit("mode");
    reveal_strlit("model");
    reveal_strlit("thought_level");
    let d1 = d.table("default"@);
    let d2 = d1.text("workspace"@, "."@);
    let d3 = d2.text("mode"@, "build"@).comment(
        " Modelo só é aplicado se --model explícito (servidor Flash em 2026-09)."@,
    );
    let d4 = d3.text("model"@, "zai/glm-5.3"@);
    let m2 = map!["workspace"@ => JsonView::Str("."@)];
    let m3 = m2.insert("mode"@, JsonView::Str("build"@));
    let m4 = m3.insert("model"@, JsonView::Str("zai/glm-5.3"@));
    let m5 = m4.insert("thought_level"@, JsonView::Str("max"@));
    assert(d2.tables() =~= d.tables().insert("default"@, m2));
    assert(d3.tables() =~= d.tables().insert("default"@, m3));
    assert(d4.tables() =~= d.tables().insert("default"@, m4));
    assert(default_table(d).tables() =~= d.tables().insert("default"@, m5));
}

proof fn lemma_ui_table(d: Toml)
    requires
        d.fits(),
        !d.tables().dom().contains("ui"@),
    ensures
        ui_table(d).fits(),
        ui_table(d).tables() == d.tables().insert(
            "ui"@,
            map!["theme"@ => JsonView::Str("dark"@), "stream_refresh_ms"@ => JsonView::Int(300)],
        ),
{
    reveal_with_fuel(Toml::fits, 10);
    reveal_with_fuel(Toml::tables, 10);
    reveal_with_fuel(Toml::opened, 10);
    lemma_first_keys();
    lemma_first_texts();
    reveal_strlit("theme");
    reveal_strlit("stream_refresh_ms");
    let t = ui_table(d).tables();
    assert(t["ui"@] =~= map![
        "theme"@ => JsonView::Str("dark"@),
        "stream_refresh_ms"@ => JsonView::Int(300),
    ]);
    assert(t =~= d.tables().insert("ui"@, t["ui"@]));
}

/// The first configuration, read, gives its settings, wherever it is read: the
/// runtime that was found, and the defaults.
pub proof fn law_first_config(runtime_hint: Seq<char>, workspace: Seq<char>)
    requires
        plain(runtime_hint),
    ensures
        first_toml(runtime_hint).fits(),
        config_of(first_toml(runtime_hint).value(), workspace) == Some(first_settings(runtime_hint)),
{
    reveal_strlit("runtime");
    reveal_strlit("default");
    reveal_strlit("ui");
    assert("runtime"@[0] != "default"@[0]);
    let a = runtime_table(runtime_hint);
    let b = default_table(a);
    lemma_runtime_table(runtime_hint);
    lemma_default_table(a);
    lemma_ui_table(b);
    let t = first_toml(runtime_hint).tables();
    let v = first_toml(runtime_hint).value();
    assert("ui"@.len() == 2 && "default"@.len() == 7 && "runtime"@.len() == 7);
    assert(t["default"@] == b.tables()["default"@]);
    assert(t["runtime"@] == a.tables()["runtime"@]);
    assert(v.get("runtime"@) == Some(JsonView::Obj(t["runtime"@])));
    assert(v.get("default"@) == Some(JsonView::Obj(t["default"@])));
    assert(v.get("ui"@) == Some(JsonView::Obj(t["ui"@])));
    reveal_strlit("zcode_cjs");
    reveal_strlit("node");
    reveal_strlit("workspace");
    reveal_strlit("mode");
    reveal_strlit("model");
    reveal_strlit("thought_level");
    reveal_strlit("theme");
    reveal_strlit("stream_refresh_ms");
    reveal_strlit("");
    assert(runtime_hint.len() == 0 ==> runtime_hint =~= ""@);
    assert("workspace"@.len() == 9 && "mode"@.len() == 4 && "model"@.len() == 5);
    assert("thought_level"@.len() == 13);
    assert("workspace"@ != "mode"@ && "workspace"@ != "model"@ && "workspace"@ != "thought_level"@);
    assert("mode"@ != "model"@ && "mode"@ != "thought_level"@);
    let rt = v.get("runtime"@);
    let df = v.get("default"@);
    let ui = v.get("ui"@);
    assert(text_field(rt, 0, "zcode_cjs"@, ""@) == Some(runtime_hint));
    assert(text_field(rt, 1, "node"@, "node"@) == Some("node"@));
    assert(text_field(df, 0, "workspace"@, workspace) == Some("."@));
    assert(text_field(df, 1, "mode"@, "build"@) == Some("build"@));
    assert(text_field(df, 2, "model"@, "zai/glm-5.3"@) == Some("zai/glm-5.3"@));
    assert(text_field(df, 3, "thought_level"@, "max"@) == Some("max"@));
    assert(text_field(ui, 0, "theme"@, "dark"@) == Some("dark"@));
    assert(number_field(ui, 1, "stream_refresh_ms"@, 300) == Some(300u64));
}

pub open spec fn config_exists_text(path: Seq<char>) -> Seq<char> {
    "config já existe em "@ + path + " (use --force p/ sobrescrever)"@
}

/// Whether the first configuration may be written: an existing one is only
/// replaced on demand.
pub fn may_init(present: bool, force: bool, path: &str) -> (r: Result<(), CmdError>)
    ensures
        match r {
            Ok(()) => !present || force,
            Err(e) => present && !force && e is Config && e.text() == config_exists_text(path@),
        },
{
    if present && !force {
        let mut m = "config já existe em ".to_owned();
        m.append(path);
        m.append(" (use --force p/ sobrescrever)");
        return Err(CmdError::Config(m));
    }
    Ok(())
}

// ---------------------------------------------------------------- crashes

/// What is written to the log of a crash.
pub fn panic_report(payload: &str, loc: &str) -> (r: String)
    ensures
        r@ == "panic em "@ + loc@ + "\npayload: "@ + payload@ + "\n"@,
{
    let mut s = "panic em ".to_owned();
    s.append(loc);
    s.append("\npayload: ");
    s.append(payload);
    s.append("\n");
    s
}

/// What is shown of a crash once the terminal is restored.
pub fn panic_stderr_line(loc: &str, log: &str) -> (r: String)
    ensures
        r@ == "panic em "@ + loc@ + " — detalhes em "@ + log@ + "; rode `zcode-cli doctor`"@,
{
    let mut s = "panic em ".to_owned();
    s.append(loc);
    s.append(" — detalhes em ");
    s.append(log);
    s.append("; rode `zcode-cli doctor`");
    s
}

/// What is shown of a turn whose task died.
pub fn turn_join_error_notice() -> (r: String)
    ensures
        r@
            == "⚠ turno terminou inesperadamente (erro interno — detalhes no log; rode zcode-cli doctor)"@,
{
    "⚠ turno terminou inesperadamente (erro interno — detalhes no log; rode zcode-cli doctor)".to_owned()
}

// ---------------------------------------------------------------- terminal

/// The terminal interface needs a terminal on both sides.
pub fn ensure_tui_tty(stdin_tty: bool, stdout_tty: bool) -> (r: Result<(), CmdError>)
    ensures
        match r {
            Ok(()) => stdin_tty && stdout_tty,
            Err(e) => !(stdin_tty && stdout_tty) && e is Io && e.text()
                == "a TUI requer um terminal interativo (stdin/stdout em TTY). Para saída não interativa use -p/--json."@,
        },
{
    if stdin_tty && stdout_tty {
        Ok(())
    } else {
        Err(
            CmdError::Io(
                "a TUI requer um terminal interativo (stdin/stdout em TTY). Para saída não interativa use -p/--json.".to_owned(),
            ),
        )
    }
}

/// What is said where the `node` program cannot be run.
pub fn node_missing(node: &str) -> (e: CmdError)
    ensures
        e matches CmdError::Config(m) && m@ == "node não encontrado no PATH (node="@ + node@
            + "). Instale o Node.js e tente de novo."@,
{
    let mut m = "node não encontrado no PATH (node=".to_owned();
    m.append(node);
    m.append("). Instale o Node.js e tente de novo.");
    CmdError::Config(m)
}

// ---------------------------------------------------------------- settings of a session

/// A call as a value; for one that is not made, the message of its error.
pub enum Planned {
    Made { method: Seq<char>, params: JsonView, timeout_secs: u64 },
    Refused(Seq<char>),
}

pub open spec fn planned(r: Result<Call, SessionError>) -> Planned {
    match r {
        Ok(c) => Planned::Made { method: c.method@, params: c.params@, timeout_secs: c.timeout_secs },
        Err(e) => Planned::Refused(e.text()),
    }
}

pub open spec fn planned_all(v: Seq<Result<Call, SessionError>>) -> Seq<Planned> {
    v.map_values(|r: Result<Call, SessionError>| planned(r))
}

/// A setting that was given.
pub open spec fn is_set(v: Option<Seq<char>>) -> bool {
    v matches Some(t) && !blank(t)
}

pub open spec fn model_plan(sid: Seq<char>, model: Seq<char>) -> Planned {
    match model_ref(model) {
        Some((p, m)) => Planned::Made {
            method: "session/setModel"@,
            params: set_model_view(sid, p, m),
            timeout_secs: 30,
        },
        None => Planned::Refused("config: "@ + bad_model_text(model)),
    }
}

pub open spec fn mode_plan(sid: Seq<char>, mode: Seq<char>) -> Planned {
    if mode_known(mode) {
        Planned::Made {
            method: "session/setMode"@,
            params: set_mode_view(sid, mode),
            timeout_secs: 30,
        }
    } else {
        Planned::Refused("protocolo: "@ + bad_mode_text(mode))
    }
}

pub open spec fn thought_plan(sid: Seq<char>, level: Seq<char>) -> Planned {
    if thought_known(level) {
        Planned::Made {
            method: "session/setThoughtLevel"@,
            params: set_thought_view(sid, level),
            timeout_secs: 30,
        }
    } else {
        Planned::Refused("protocolo: "@ + bad_thought_text(level))
    }
}

/// The settings of the command line that were given, each as a call, in the
/// order model, mode, thought.
pub open spec fn overrides(
    sid: Seq<char>,
    model: Option<Seq<char>>,
    mode: Option<Seq<char>>,
    thought: Option<Seq<char>>,
) -> Seq<Planned> {
    let a = if is_set(model) {
        seq![model_plan(sid, model->0)]
    } else {
        Seq::empty()
    };
    let b = if is_set(mode) {
        a.push(mode_plan(sid, mode->0))
    } else {
        a
    };
    if is_set(thought) {
        b.push(thought_plan(sid, thought->0))
    } else {
        b
    }
}

/// The calls that bring the settings of the command line to a session. They
/// are made in order, up to the first that fails.
pub fn override_calls(
    session_id: &str,
    model: &Option<String>,
    mode: &Option<String>,
    thought: &Option<String>,
) -> (r: Vec<Result<Call, SessionError>>)
    ensures
        planned_all(r@) == overrides(
            session_id@,
            model.deep_view(),
            mode.deep_view(),
            thought.deep_view(),
        ),
{
    let mut out: Vec<Result<Call, SessionError>> = Vec::new();
    assert(planned_all(out@) =~= Seq::empty());
    match model {
        Some(m) => {
            if !is_blank(m.as_str()) {
                let ghost before = out@;
                out.push(apply_model(session_id, m.as_str()));
                assert(planned_all(out@) =~= planned_all(before).push(planned(out@.last())));
            }
        },
        None => {},
    }
    assert(planned_all(out@) =~= if is_set(model.deep_view()) {
        seq![model_plan(session_id@, model.deep_view()->0)]
    } else {
        Seq::empty()
    });
    match mode {
        Some(m) => {
            if !is_blank(m.as_str()) {
                let ghost before = out@;
                out.push(apply_mode(session_id, m.as_str()));
                assert(planned_all(out@) =~= planned_all(before).push(planned(out@.last())));
            }
        },
        None => {},
    }
    match thought {
        Some(t) => {
            if !is_blank(t.as_str()) {
                let ghost before = out@;
                out.push(apply_thought(session_id, t.as_str()));
                assert(planned_all(out@) =~= planned_all(before).push(planned(out@.last())));
            }
        },
        None => {},
    }
    out
}

/// What comes next of the calls that set a session.
pub enum OverrideStep {
    Make(Call),
    /// One failed: this is told, and no other is made.
    Failed(String),
    Done,
}

/// Takes the next of the calls that set a session, given how the one before it
/// failed, if it did.
pub fn next_override(
    pending: &mut Vec<Result<Call, SessionError>>,
    failure: Option<&SessionError>,
) -> (step: OverrideStep)
    ensures
        match failure {
            Some(e) => step matches OverrideStep::Failed(t) && t@ == e.text()
                && final(pending)@.len() == 0,
            None => if old(pending)@.len() == 0 {
                step is Done && final(pending)@.len() == 0
            } else {
                match old(pending)@[0] {
                    Ok(c) => step == OverrideStep::Make(c)
                        && final(pending)@ == old(pending)@.drop_first(),
                    Err(e) => step matches OverrideStep::Failed(t) && t@ == e.text()
                        && final(pending)@.len() == 0,
                }
            },
        },
{
    match failure {
        Some(e) => {
            pending.clear();
            return OverrideStep::Failed(e.to_text());
        },
        None => {},
    }
    if pending.len() == 0 {
        return OverrideStep::Done;
    }
    let ghost all = pending@;
    let next = pending.remove(0);
    assert(pending@ =~= all.drop_first());
    match next {
        Ok(c) => OverrideStep::Make(c),
        Err(e) => {
            pending.clear();
            OverrideStep::Failed(e.to_text())
        },
    }
}

// ---------------------------------------------------------------- laws

/// The tools of a filter are read in their order.
pub proof fn law_tools_in_order(a: Seq<Seq<char>>, b: Seq<Seq<char>>)
    ensures
        tools_of(a + b) == tools_of(a) + tools_of(b),
    decreases b.len(),
{
    if b.len() == 0 {
        assert(a + b =~= a);
        assert(tools_of(a) + tools_of(b) =~= tools_of(a));
    } else {
        assert((a + b).drop_last() =~= a + b.drop_last());
        law_tools_in_order(a, b.drop_last());
        assert(tools_of(a + b) =~= tools_of(a) + tools_of(b));
    }
}

/// The settings of a command line are applied to the session in one order: the
/// model, the mode, the thought level; each once, and only where it was given.
pub proof fn law_overrides(
    sid: Seq<char>,
    model: Option<Seq<char>>,
    mode: Option<Seq<char>>,
    thought: Option<Seq<char>>,
)
    ensures
        ({
            let all = overrides(sid, model, mode, thought);
            let m = if model matches Some(t) && !blank(t) {
                1int
            } else {
                0
            };
            let o = if mode matches Some(t) && !blank(t) {
                1int
            } else {
                0
            };
            let h = if thought matches Some(t) && !blank(t) {
                1int
            } else {
                0
            };
            &&& all.len() == m + o + h
            &&& m == 1 ==> all[0] == model_plan(sid, model->0)
            &&& o == 1 ==> all[m] == mode_plan(sid, mode->0)
            &&& h == 1 ==> all[m + o] == thought_plan(sid, thought->0)
        }),
{
}

/// A setting is sent to the session it is for, as it was given.
pub proof fn law_settings_carry(sid: Seq<char>, value: Seq<char>, p: Seq<char>, m: Seq<char>)
    ensures
        mode_known(value) ==> (mode_plan(sid, value) matches Planned::Made {
            method,
            params,
            timeout_secs,
        } && method == "session/setMode"@ && params.text_at("sessionId"@) == Some(sid)
            && params.text_at("mode"@) == Some(value)),
        thought_known(value) ==> (thought_plan(sid, value) matches Planned::Made {
            method,
            params,
            timeout_secs,
        } && method == "session/setThoughtLevel"@ && params.text_at("sessionId"@) == Some(sid)
            && params.text_at("thoughtLevel"@) == Some(value)),
        model_ref(value) == Some((p, m)) ==> (model_plan(sid, value) matches Planned::Made {
            method,
            params,
            timeout_secs,
        } && method == "session/setModel"@ && params.text_at("sessionId"@) == Some(sid)
            && params.get2("model"@, "providerId"@) == Some(JsonView::Str(p)) && params.get2(
            "model"@,
            "modelId"@,
        ) == Some(JsonView::Str(m))),
        !mode_known(value) ==> (mode_plan(sid, value) matches Planned::Refused(t) && contains(
            t,
            value,
        )),
        !thought_known(value) ==> (thought_plan(sid, value) matches Planned::Refused(t)
            && contains(t, value)),
{
    broadcast use group_contains;

    law_calls_name_their_session(sid, value, p, m);
    law_calls_carry_their_values(sid, value, p, m, 0);
}

/// Every answer that means yes does so in capitals and with white space around
/// it, and a blank answer does not.
pub proof fn law_means_yes(line: Seq<char>)
    ensures
        blank(line) ==> !means_yes(line),
        means_yes(line) ==> means_yes(trim(line)),
{
    lemma_trim_empty_iff_blank(line);
    reveal_strlit("y");
    reveal_strlit("yes");
    reveal_strlit("s");
    reveal_strlit("sim");
    assert("y"@.len() == 1 && "yes"@.len() == 3 && "s"@.len() == 1 && "sim"@.len() == 3);
    law_trim(line);
    lemma_trim_solid(trim(line));
}

/// Only a turn that was stopped ends with two; every error is told by its text.
pub proof fn law_exit_codes(e: CmdError)
    ensures
        exit_code_of(e) == 2 <==> e is Stopped,
        exit_code_of(e) == 1 <==> !(e is Stopped),
        e matches CmdError::Stopped(m) ==> contains(e.text(), m@),
{
    broadcast use group_contains;

}

/// White space inside brackets does not divide: what holds no other is one tool.
pub proof fn law_brackets_hold_together(s: Seq<char>)
    requires
        forall|i: int|
            0 <= i < s.len() && (s[i] == ' ' || s[i] == '\t') ==> open_parens(#[trigger] s.take(i)) > 0,
    ensures
        outside_parens(s) == seq![s],
    decreases s.len(),
{
    if s.len() > 0 {
        let t = s.drop_last();
        assert forall|i: int| 0 <= i < t.len() && (t[i] == ' ' || t[i] == '\t') implies open_parens(
            #[trigger] t.take(i),
        ) > 0 by {
            assert(t.take(i) =~= s.take(i));
            assert(s[i] == t[i]);
        }
        law_brackets_hold_together(t);
        assert(s.take(s.len() - 1) =~= t);
        assert(t.push(s.last()) =~= s);
        assert(outside_parens(s) =~= seq![s]);
    } else {
        assert(s =~= Seq::empty());
        assert(outside_parens(s) =~= seq![s]);
    }
}

/// Brackets are counted as they open and close.
pub proof fn law_open_parens(s: Seq<char>, c: char)
    ensures
        open_parens(s.push('(')) == open_parens(s) + 1,
        open_parens(s.push('(').push(')')) == open_parens(s),
        c != '(' && c != ')' ==> open_parens(s.push(c)) == open_parens(s),
        open_parens(Seq::empty()) == 0,
{
    assert(s.push('(').drop_last() =~= s);
    assert(s.push(c).drop_last() =~= s);
    let opened = s.push('(');
    assert(open_parens(opened) == open_parens(s) + 1);
    assert(opened.push(')').drop_last() =~= opened);
    assert(opened.push(')').last() == ')');
}

/// A comma or a line end parts two filters: the tools of the first, then those
/// of the second.
pub proof fn law_tools_filter_in_order(a: Seq<char>, b: Seq<char>)
    ensures
        tools_filter(a.push(',') + b) == tools_filter(a) + tools_filter(b),
        tools_filter(a.push('\n') + b) == tools_filter(a) + tools_filter(b),
{
    let f = |c: char| c == ',' || c == '\n';
    law_split_in_order(a, b, ',', f);
    law_split_in_order(a, b, '\n', f);
    law_tools_in_order(split(a, f), split(b, f));
}

/// What stands in the way is told by its path.
pub proof fn law_paths_are_told(path: Seq<char>)
    ensures
        contains(no_workspace_text(path), path),
        contains(config_exists_text(path), path),
{
    broadcast use group_contains;

}

} // verus!
