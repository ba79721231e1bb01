//! What the keyboard and the mouse do to the terminal interface.
//!
//! A window over the transcript comes first, then the list of sessions, then the
//! search line; what none of them takes goes to the input and the shortcuts. A
//! key changes only the interface: what has to be sent is handed back.

use crate::commands::editor::{
    backspaced, cursor_left, cursor_right, deleted, downed, newer_prompt, older_prompt, page_of,
    query_edited, query_typed, scrolled_down, scrolled_up, search_kept, stepped, typed, unbroken,
    upped, QueryEdit,
};
use crate::commands::tasks::Task;
use crate::commands::tui::{
    moved, noticed, picked, picker_closed, queued, search_dropped, search_opened, TuiApp,
    TuiAppView,
};
use crate::commands::turns::boot_single_flight_trava;
use crate::commands::{confirm_yes, means_yes};
use crate::notices::{
    dead_blocked_text, pending_text, perm_text, perm_unsupported_note, readonly_text,
    resume_readonly_notice, runtime_dead_blocked, session_pending_notice,
};
use crate::session::export::{sid8, sid_short8};
use crate::text::{begins_with, blank, has_char, is_blank, trim, trimmed};
use vstd::prelude::*;

verus! {

// ---------------------------------------------------------------- events

#[derive(Debug, Clone, Copy, PartialEq, Eq, Structural)]
pub enum KeyCode {
    Char(char),
    Enter,
    Backspace,
    Delete,
    Left,
    Right,
    Up,
    Down,
    Home,
    End,
    PageUp,
    PageDown,
    Esc,
    F(u8),
    Other,
}

#[derive(Debug, Clone, Copy, PartialEq, Eq, Structural)]
pub enum KeyKind {
    Press,
    Repeat,
    Release,
}

#[derive(Debug, Clone, Copy, PartialEq, Eq, Structural)]
pub struct KeyEvent {
    pub code: KeyCode,
    pub ctrl: bool,
    pub shift: bool,
    pub alt: bool,
    /// Any other modifier.
    pub other: bool,
    pub kind: KeyKind,
}

/// What the terminal reports.
#[derive(Debug, Clone, PartialEq, Eq)]
pub enum TermEvent {
    Key(KeyEvent),
    Paste(String),
    ScrollUp,
    ScrollDown,
    /// Anything else of the mouse.
    Mouse,
    Resize,
    Focus,
}

/// A key as the interface knows it.
#[derive(Debug, Clone, Copy, PartialEq, Eq, Structural)]
pub enum TuiKey {
    Ignore,
    Char(char),
    Newline,
    Enter,
    Backspace,
    Delete,
    Left,
    Right,
    Up,
    Down,
    CtrlUp,
    CtrlDown,
    Home,
    CtrlHome,
    End,
    CtrlEnd,
    PageUp,
    PageDown,
    Esc,
    CtrlC,
    CtrlR,
    CtrlN,
    CtrlU,
    CtrlP,
    CtrlF,
    F3,
    ShiftF3,
}

pub open spec fn ctrl_letter(c: char) -> TuiKey {
    if c == 'c' || c == 'C' {
        TuiKey::CtrlC
    } else if c == 'r' || c == 'R' {
        TuiKey::CtrlR
    } else if c == 'n' || c == 'N' {
        TuiKey::CtrlN
    } else if c == 'u' || c == 'U' {
        TuiKey::CtrlU
    } else if c == 'p' || c == 'P' {
        TuiKey::CtrlP
    } else if c == 'f' || c == 'F' {
        TuiKey::CtrlF
    } else if c == 'j' || c == 'J' {
        TuiKey::Newline
    } else {
        TuiKey::Ignore
    }
}

pub open spec fn mapped(k: KeyEvent) -> TuiKey {
    if k.kind == KeyKind::Release {
        TuiKey::Ignore
    } else {
        match k.code {
            KeyCode::Char(c) => if k.ctrl {
                ctrl_letter(c)
            } else if k.alt {
                TuiKey::Ignore
            } else {
                TuiKey::Char(c)
            },
            KeyCode::Enter => if k.ctrl || k.shift || k.alt {
                TuiKey::Newline
            } else {
                TuiKey::Enter
            },
            KeyCode::Backspace => TuiKey::Backspace,
            KeyCode::Delete => TuiKey::Delete,
            KeyCode::Left => TuiKey::Left,
            KeyCode::Right => TuiKey::Right,
            KeyCode::Up => if k.ctrl {
                TuiKey::CtrlUp
            } else {
                TuiKey::Up
            },
            KeyCode::Down => if k.ctrl {
                TuiKey::CtrlDown
            } else {
                TuiKey::Down
            },
            KeyCode::Home => if k.ctrl {
                TuiKey::CtrlHome
            } else {
                TuiKey::Home
            },
            KeyCode::End => if k.ctrl {
                TuiKey::CtrlEnd
            } else {
                TuiKey::End
            },
            KeyCode::PageUp => TuiKey::PageUp,
            KeyCode::PageDown => TuiKey::PageDown,
            KeyCode::Esc => TuiKey::Esc,
            KeyCode::F(n) => if n == 3 {
                if k.shift {
                    TuiKey::ShiftF3
                } else {
                    TuiKey::F3
                }
            } else {
                TuiKey::Ignore
            },
            KeyCode::Other => TuiKey::Ignore,
        }
    }
}

fn ctrl_key(c: char) -> (r: TuiKey)
    ensures
        r == ctrl_letter(c),
{
    if c == 'c' || c == 'C' {
        TuiKey::CtrlC
    } else if c == 'r' || c == 'R' {
        TuiKey::CtrlR
    } else if c == 'n' || c == 'N' {
        TuiKey::CtrlN
    } else if c == 'u' || c == 'U' {
        TuiKey::CtrlU
    } else if c == 'p' || c == 'P' {
        TuiKey::CtrlP
    } else if c == 'f' || c == 'F' {
        TuiKey::CtrlF
    } else if c == 'j' || c == 'J' {
        TuiKey::Newline
    } else {
        TuiKey::Ignore
    }
}

/// The key that an event stands for.
pub fn map_key(k: KeyEvent) -> (r: TuiKey)
    ensures
        r == mapped(k),
{
    if k.kind == KeyKind::Release {
        return TuiKey::Ignore;
    }
    match k.code {
        KeyCode::Char(c) => if k.ctrl {
            ctrl_key(c)
        } else if k.alt {
            TuiKey::Ignore
        } else {
            TuiKey::Char(c)
        },
        KeyCode::Enter => if k.ctrl || k.shift || k.alt {
            TuiKey::Newline
        } else {
            TuiKey::Enter
        },
        KeyCode::Backspace => TuiKey::Backspace,
        KeyCode::Delete => TuiKey::Delete,
        KeyCode::Left => TuiKey::Left,
        KeyCode::Right => TuiKey::Right,
        KeyCode::Up => if k.ctrl {
            TuiKey::CtrlUp
        } else {
            TuiKey::Up
        },
        KeyCode::Down => if k.ctrl {
            TuiKey::CtrlDown
        } else {
            TuiKey::Down
        },
        KeyCode::Home => if k.ctrl {
            TuiKey::CtrlHome
        } else {
            TuiKey::Home
        },
        KeyCode::End => if k.ctrl {
            TuiKey::CtrlEnd
        } else {
            TuiKey::End
        },
        KeyCode::PageUp => TuiKey::PageUp,
        KeyCode::PageDown => TuiKey::PageDown,
        KeyCode::Esc => TuiKey::Esc,
        KeyCode::F(n) => if n == 3 {
            if k.shift {
                TuiKey::ShiftF3
            } else {
                TuiKey::F3
            }
        } else {
            TuiKey::Ignore
        },
        KeyCode::Other => TuiKey::Ignore,
    }
}

/// Control and C, in either case.
pub open spec fn interrupts(ev: TermEvent) -> bool {
    ev matches TermEvent::Key(k) && k.ctrl && (k.code == KeyCode::Char('c') || k.code
        == KeyCode::Char('C'))
}

/// Whether an event is Control and C, in either case.
pub fn is_ctrl_c_event(ev: &TermEvent) -> (r: bool)
    ensures
        r == interrupts(*ev),
{
    match ev {
        TermEvent::Key(k) => k.ctrl && match k.code {
            KeyCode::Char(c) => c == 'c' || c == 'C',
            _ => false,
        },
        _ => false,
    }
}

// ---------------------------------------------------------------- paste

/// Keys of a pasted text come closer together than this; typed ones do not.
pub const PASTE_GAP_MS: u64 = 20;

/// A plain Enter.
pub open spec fn plain_enter(ev: TermEvent) -> bool {
    ev matches TermEvent::Key(k) && k.code == KeyCode::Enter && k.kind == KeyKind::Press && !k.ctrl
        && !k.shift && !k.alt && !k.other
}

/// Whether an Enter, `gap_ms` after the key before it, belongs to a pasted text.
pub fn should_convert_enter(gap_ms: u128, ev: &TermEvent) -> (r: bool)
    ensures
        r == (plain_enter(*ev) && gap_ms < PASTE_GAP_MS),
{
    match ev {
        TermEvent::Key(k) => k.code == KeyCode::Enter && k.kind == KeyKind::Press && !k.ctrl
            && !k.shift && !k.alt && !k.other && gap_ms < PASTE_GAP_MS as u128,
        _ => false,
    }
}

/// The line break that a pasted Enter stands for. The first key of all is never
/// one.
pub fn enter_to_newline(since_last_key_ms: Option<u128>, ev: &TermEvent) -> (r: Option<TermEvent>)
    ensures
        match since_last_key_ms {
            Some(gap) => if plain_enter(*ev) && gap < PASTE_GAP_MS {
                r matches Some(TermEvent::Paste(t)) && t@ == "\n"@
            } else {
                r is None
            },
            None => r is None,
        },
{
    match since_last_key_ms {
        Some(gap) => if should_convert_enter(gap, ev) {
            Some(TermEvent::Paste("\n".to_owned()))
        } else {
            None
        },
        None => None,
    }
}

// ---------------------------------------------------------------- outcome

/// What a key asks to be done behind the interface.
#[derive(Debug, Clone, PartialEq, Eq)]
pub enum Act {
    Switch(String),
    Compact,
    Usage,
    /// A new session, with the runtime that is there.
    Create,
    /// The first session, runtime included.
    Boot,
    /// Drop the turn under way, and stop it at the server too.
    Abort { stop: bool },
    Slash(String),
    Turn(String),
}

pub enum ActView {
    Switch(Seq<char>),
    Compact,
    Usage,
    Create,
    Boot,
    Abort { stop: bool },
    Slash(Seq<char>),
    Turn(Seq<char>),
}

impl DeepView for Act {
    type V = ActView;

    open spec fn deep_view(&self) -> ActView {
        match self {
            Act::Switch(id) => ActView::Switch(id@),
            Act::Compact => ActView::Compact,
            Act::Usage => ActView::Usage,
            Act::Create => ActView::Create,
            Act::Boot => ActView::Boot,
            Act::Abort { stop } => ActView::Abort { stop: *stop },
            Act::Slash(t) => ActView::Slash(t@),
            Act::Turn(t) => ActView::Turn(t@),
        }
    }
}

/// What the keyboard is told of the rest.
#[derive(Debug, Clone, Copy, PartialEq, Eq)]
pub struct KeyEnv {
    pub runtime_up: bool,
    pub turn_running: bool,
}

pub struct KeyOut {
    pub app: TuiAppView,
    pub redraw: bool,
    pub act: Option<ActView>,
}

/// Only the interface changes.
pub open spec fn only(app: TuiAppView) -> KeyOut {
    KeyOut { app, redraw: true, act: None }
}

pub open spec fn calm(a: TuiAppView) -> TuiAppView {
    TuiAppView { ctrlc_once: false, ..a }
}

// ---------------------------------------------------------------- picker

/// The rows that a page of the list of sessions has.
pub const PICKER_PAGE_STEP: isize = 10;

pub open spec fn picker_moved(a: TuiAppView, by: int) -> TuiAppView {
    match a.picker {
        Some(p) => TuiAppView { picker: Some(moved(p, by)), ..a },
        None => a,
    }
}

pub open spec fn resuming_text(id: Seq<char>) -> Seq<char> {
    "(retomando sessão "@ + sid8(id) + "…)"@
}

/// Enter in the list: the selected session is taken, the list closed.
pub open spec fn picker_chosen(a: TuiAppView, env: KeyEnv) -> KeyOut {
    match a.picker {
        Some(p) => match picked(p) {
            Some(id) => {
                let b = noticed(TuiAppView { picker: None, ..a }, resuming_text(id));
                if env.runtime_up {
                    KeyOut { app: b, redraw: true, act: Some(ActView::Switch(id)) }
                } else {
                    only(noticed(b, pending_text()))
                }
            },
            None => only(a),
        },
        None => only(a),
    }
}

#[verifier::opaque]
pub open spec fn picker_keyed(a: TuiAppView, env: KeyEnv, key: TuiKey) -> KeyOut {
    match key {
        TuiKey::Up => only(picker_moved(a, -1)),
        TuiKey::Down => only(picker_moved(a, 1)),
        TuiKey::PageUp => only(picker_moved(a, -PICKER_PAGE_STEP)),
        TuiKey::PageDown => only(picker_moved(a, PICKER_PAGE_STEP as int)),
        TuiKey::Enter => picker_chosen(a, env),
        TuiKey::Esc => only(picker_closed(a)),
        _ => only(a),
    }
}

fn move_picker(app: &mut TuiApp, by: isize)
    ensures
        final(app)@ == picker_moved(old(app)@, by as int),
{
    match &mut app.picker {
        Some(p) => p.move_selected(by),
        None => {},
    }
}

fn choose_session(app: &mut TuiApp, env: &KeyEnv) -> (act: Option<Act>)
    ensures
        final(app)@ == picker_chosen(old(app)@, *env).app,
        act.deep_view() == picker_chosen(old(app)@, *env).act,
        picker_chosen(old(app)@, *env).redraw,
{
    match app.take_selected_session() {
        Some(id) => {
            let mut t = "(retomando sessão ".to_owned();
            let s = sid_short8(id.as_str());
            t.append(s.as_str());
            t.append("…)");
            app.notice(t.as_str());
            if env.runtime_up {
                Some(Act::Switch(id))
            } else {
                let n = session_pending_notice();
                app.notice(n.as_str());
                None
            }
        },
        None => None,
    }
}

fn picker_key(app: &mut TuiApp, env: &KeyEnv, key: TuiKey) -> (act: Option<Act>)
    ensures
        final(app)@ == picker_keyed(old(app)@, *env, key).app,
        act.deep_view() == picker_keyed(old(app)@, *env, key).act,
        picker_keyed(old(app)@, *env, key).redraw,
{
    reveal(picker_keyed);
    match key {
        TuiKey::Up => move_picker(app, -1),
        TuiKey::Down => move_picker(app, 1),
        TuiKey::PageUp => move_picker(app, -PICKER_PAGE_STEP),
        TuiKey::PageDown => move_picker(app, PICKER_PAGE_STEP),
        TuiKey::Enter => {
            return choose_session(app, env);
        },
        TuiKey::Esc => app.close_session_picker(),
        _ => {},
    }
    None
}

// ---------------------------------------------------------------- search

/// A key in the search line; `None` where it has no effect there.
#[verifier::opaque]
pub open spec fn search_keyed(a: TuiAppView, key: TuiKey) -> Option<TuiAppView> {
    match key {
        TuiKey::Char(c) => Some(query_typed(a, seq![c])),
        TuiKey::Backspace => Some(query_edited(a, QueryEdit::Backspace)),
        TuiKey::Delete => Some(query_edited(a, QueryEdit::Delete)),
        TuiKey::Left => Some(query_edited(a, QueryEdit::Left)),
        TuiKey::Right => Some(query_edited(a, QueryEdit::Right)),
        TuiKey::Home => Some(query_edited(a, QueryEdit::Home)),
        TuiKey::End => Some(query_edited(a, QueryEdit::End)),
        TuiKey::Up => Some(stepped(a, false)),
        TuiKey::ShiftF3 => Some(stepped(a, false)),
        TuiKey::Down => Some(stepped(a, true)),
        TuiKey::F3 => Some(stepped(a, true)),
        TuiKey::Enter => Some(search_kept(a)),
        TuiKey::Esc => Some(search_dropped(a)),
        _ => None,
    }
}

/// An event in the search line.
#[verifier::opaque]
pub open spec fn search_fed(a: TuiAppView, ev: TermEvent) -> KeyOut {
    match ev {
        TermEvent::Paste(t) => only(query_typed(a, t@)),
        TermEvent::Key(k) => match search_keyed(a, mapped(k)) {
            Some(b) => only(b),
            None => KeyOut { app: a, redraw: false, act: None },
        },
        _ => KeyOut { app: a, redraw: false, act: None },
    }
}

fn search_key(app: &mut TuiApp, key: TuiKey) -> (r: bool)
    ensures
        match search_keyed(old(app)@, key) {
            Some(b) => r && final(app)@ == b,
            None => !r && final(app)@ == old(app)@,
        },
{
    reveal(search_keyed);
    match key {
        TuiKey::Char(c) => app.search_insert_char(c),
        TuiKey::Backspace => app.search_edit(QueryEdit::Backspace),
        TuiKey::Delete => app.search_edit(QueryEdit::Delete),
        TuiKey::Left => app.search_edit(QueryEdit::Left),
        TuiKey::Right => app.search_edit(QueryEdit::Right),
        TuiKey::Home => app.search_edit(QueryEdit::Home),
        TuiKey::End => app.search_edit(QueryEdit::End),
        TuiKey::Up => app.search_step(false),
        TuiKey::ShiftF3 => app.search_step(false),
        TuiKey::Down => app.search_step(true),
        TuiKey::F3 => app.search_step(true),
        TuiKey::Enter => app.search_confirm_jump(),
        TuiKey::Esc => app.cancel_search(),
        _ => {
            return false;
        },
    }
    true
}

/// An event while the search line is open; nothing of it reaches the input.
pub fn handle_search_event(app: &mut TuiApp, ev: &TermEvent) -> (redraw: bool)
    ensures
        final(app)@ == search_fed(old(app)@, *ev).app,
        redraw == search_fed(old(app)@, *ev).redraw,
        search_fed(old(app)@, *ev).act is None,
{
    reveal(search_fed);
    match ev {
        TermEvent::Paste(t) => {
            app.search_insert_str(t.as_str());
            true
        },
        TermEvent::Key(k) => search_key(app, map_key(*k)),
        _ => false,
    }
}

// ---------------------------------------------------------------- confirmation

pub open spec fn waits_for_answer(a: TuiAppView, key: TuiKey) -> bool {
    (a.pending_compact || a.pending_permission) && (key is Char || key is Enter)
}

pub open spec fn affirms(key: TuiKey) -> bool {
    key matches TuiKey::Char(c) && means_yes(seq![c])
}

pub open spec fn emptied(a: TuiAppView) -> TuiAppView {
    TuiAppView { input: Seq::empty(), cursor: 0, ..a }
}

/// The answer to a question: only a yes compacts.
#[verifier::opaque]
pub open spec fn confirmed(a: TuiAppView, env: KeyEnv, key: TuiKey) -> KeyOut {
    if a.pending_compact {
        let b = TuiAppView { pending_compact: false, ..a };
        if affirms(key) {
            KeyOut {
                app: emptied(noticed(b, "(compactando… a sessão pode levar um minuto.)"@)),
                redraw: true,
                act: if env.runtime_up {
                    Some(ActView::Compact)
                } else {
                    None
                },
            }
        } else {
            only(emptied(noticed(b, "(compact cancelado.)"@)))
        }
    } else {
        only(emptied(noticed(TuiAppView { pending_permission: false, ..a }, perm_text())))
    }
}

fn affirmed(key: TuiKey) -> (r: bool)
    ensures
        r == affirms(key),
{
    match key {
        TuiKey::Char(c) => {
            let mut t = String::new();
            t.push(c);
            assert(t@ =~= seq![c]);
            confirm_yes(t.as_str())
        },
        _ => false,
    }
}

fn empty_input(app: &mut TuiApp)
    ensures
        final(app)@ == emptied(old(app)@),
{
    app.input = String::new();
    app.cursor = 0;
}

#[verifier::rlimit(40)]
fn answer_pending(app: &mut TuiApp, env: &KeyEnv, key: TuiKey) -> (act: Option<Act>)
    ensures
        final(app)@ == confirmed(old(app)@, *env, key).app,
        act.deep_view() == confirmed(old(app)@, *env, key).act,
        confirmed(old(app)@, *env, key).redraw,
{
    reveal(confirmed);
    let ghost before = app@;
    let mut act: Option<Act> = None;
    if app.pending_compact {
        app.pending_compact = false;
        assert(app@ == (TuiAppView { pending_compact: false, ..before }));
        if affirmed(key) {
            app.notice("(compactando… a sessão pode levar um minuto.)");
            if env.runtime_up {
                act = Some(Act::Compact);
            }
        } else {
            app.notice("(compact cancelado.)");
        }
    } else {
        app.pending_permission = false;
        assert(app@ == (TuiAppView { pending_permission: false, ..before }));
        let t = perm_unsupported_note();
        app.notice(t.as_str());
    }
    empty_input(app);
    act
}

// ---------------------------------------------------------------- enter

/// The interface with a text back in the input, the cursor behind it.
pub open spec fn given_back(a: TuiAppView, text: Seq<char>) -> TuiAppView {
    TuiAppView { input: text, cursor: text.len() as usize, ..a }
}

/// A command: one line that begins with a slash.
pub open spec fn is_slash(text: Seq<char>) -> bool {
    !text.contains('\n') && "/"@.is_prefix_of(trim(text))
}

/// Enter: the input is sent, queued, carried out, or given back.
#[verifier::opaque]
pub open spec fn entered(a: TuiAppView, env: KeyEnv) -> KeyOut {
    let text = a.input;
    let b = emptied(calm(a));
    if blank(text) {
        only(b)
    } else if !a.session_ready {
        only(
            given_back(
                noticed(
                    b,
                    if a.booting {
                        "conectando (aguarde)…"@
                    } else {
                        pending_text()
                    },
                ),
                text,
            ),
        )
    } else if is_slash(text) {
        if env.runtime_up {
            KeyOut { app: b, redraw: true, act: Some(ActView::Slash(trim(text))) }
        } else {
            only(noticed(b, pending_text()))
        }
    } else if a.read_only {
        only(given_back(noticed(b, readonly_text()), text))
    } else if a.runtime_dead {
        only(given_back(noticed(b, dead_blocked_text()), text))
    } else if a.working {
        only(queued(b, trim(text)))
    } else if !env.runtime_up {
        only(given_back(noticed(b, pending_text()), text))
    } else {
        KeyOut { app: b, redraw: true, act: Some(ActView::Turn(text)) }
    }
}

fn give_back(app: &mut TuiApp, notice: &str, text: String)
    ensures
        final(app)@ == given_back(noticed(old(app)@, notice@), text@),
{
    app.notice(notice);
    app.input = text;
    app.cursor = app.input_len();
}

fn slash_line(text: &str) -> (r: bool)
    ensures
        r == is_slash(text@),
{
    if has_char(text, '\n') {
        return false;
    }
    let t = trimmed(text);
    begins_with(t.as_str(), "/")
}

fn press_enter(app: &mut TuiApp, env: &KeyEnv) -> (act: Option<Act>)
    ensures
        final(app)@ == entered(old(app)@, *env).app,
        act.deep_view() == entered(old(app)@, *env).act,
        entered(old(app)@, *env).redraw,
{
    reveal(entered);
    app.disarm_ctrlc();
    let text = app.input.clone();
    app.input = String::new();
    app.cursor = 0;
    assert(app@ == emptied(calm(old(app)@)));
    if is_blank(text.as_str()) {
        return None;
    }
    if !app.session_ready {
        if app.booting {
            give_back(app, "conectando (aguarde)…", text);
        } else {
            let n = session_pending_notice();
            give_back(app, n.as_str(), text);
        }
        return None;
    }
    if slash_line(text.as_str()) {
        if env.runtime_up {
            return Some(Act::Slash(trimmed(text.as_str())));
        }
        let n = session_pending_notice();
        app.notice(n.as_str());
        return None;
    }
    if app.read_only {
        let n = resume_readonly_notice();
        give_back(app, n.as_str(), text);
        None
    } else if app.runtime_dead {
        let n = runtime_dead_blocked();
        give_back(app, n.as_str(), text);
        None
    } else if app.working {
        let t = trimmed(text.as_str());
        app.queue_push(t.as_str());
        None
    } else if !env.runtime_up {
        let n = session_pending_notice();
        give_back(app, n.as_str(), text);
        None
    } else {
        Some(Act::Turn(text))
    }
}

// ---------------------------------------------------------------- shortcuts

/// Ctrl+C: a warning first, then out.
pub open spec fn interrupted(a: TuiAppView) -> TuiAppView {
    if a.ctrlc_once {
        TuiAppView { quit: true, ..a }
    } else {
        TuiAppView { ctrlc_once: true, status: "Ctrl+C de novo p/ sair"@, ..a }
    }
}

/// Ctrl+N: a new session, one at a time while the first is still starting.
pub open spec fn renewed(a: TuiAppView, env: KeyEnv) -> KeyOut {
    if !a.session_ready && a.booting {
        only(noticed(a, "conectando (aguarde)…"@))
    } else {
        let b = noticed(a, "(criando sessão…)"@);
        if !a.session_ready {
            KeyOut {
                app: TuiAppView { booting: true, ..b },
                redraw: true,
                act: Some(ActView::Boot),
            }
        } else {
            KeyOut {
                app: b,
                redraw: true,
                act: if env.runtime_up {
                    Some(ActView::Create)
                } else {
                    None
                },
            }
        }
    }
}

/// Esc: the turn under way is dropped.
pub open spec fn escaped(a: TuiAppView, env: KeyEnv) -> KeyOut {
    if env.turn_running {
        KeyOut {
            app: noticed(TuiAppView { working: false, ..a }, "(turn parado — prompt limpo.)"@),
            redraw: true,
            act: Some(ActView::Abort { stop: env.runtime_up }),
        }
    } else {
        only(a)
    }
}

pub open spec fn usage_asked(a: TuiAppView, env: KeyEnv) -> KeyOut {
    if env.runtime_up {
        KeyOut { app: a, redraw: true, act: Some(ActView::Usage) }
    } else {
        only(noticed(a, pending_text()))
    }
}

#[verifier::opaque]
pub open spec fn shortcut(a: TuiAppView, env: KeyEnv, key: TuiKey) -> KeyOut {
    match key {
        TuiKey::Esc => escaped(a, env),
        TuiKey::CtrlC => only(interrupted(a)),
        TuiKey::CtrlR => only(noticed(a, readonly_text())),
        TuiKey::CtrlN => renewed(a, env),
        TuiKey::CtrlU => usage_asked(a, env),
        TuiKey::CtrlP => only(noticed(a, perm_text())),
        TuiKey::CtrlF => only(search_opened(calm(a))),
        TuiKey::F3 => only(stepped(calm(a), true)),
        TuiKey::ShiftF3 => only(stepped(calm(a), false)),
        TuiKey::Enter => entered(a, env),
        _ => only(a),
    }
}

fn press_new(app: &mut TuiApp, env: &KeyEnv) -> (act: Option<Act>)
    ensures
        final(app)@ == renewed(old(app)@, *env).app,
        act.deep_view() == renewed(old(app)@, *env).act,
        renewed(old(app)@, *env).redraw,
{
    if boot_single_flight_trava(app.session_ready, app.booting) {
        app.notice("conectando (aguarde)…");
        return None;
    }
    app.notice("(criando sessão…)");
    if !app.session_ready {
        app.booting = true;
        Some(Act::Boot)
    } else if env.runtime_up {
        Some(Act::Create)
    } else {
        None
    }
}

fn press_esc(app: &mut TuiApp, env: &KeyEnv) -> (act: Option<Act>)
    ensures
        final(app)@ == escaped(old(app)@, *env).app,
        act.deep_view() == escaped(old(app)@, *env).act,
        escaped(old(app)@, *env).redraw,
{
    if env.turn_running {
        app.working = false;
        app.notice("(turn parado — prompt limpo.)");
        Some(Act::Abort { stop: env.runtime_up })
    } else {
        None
    }
}

fn press_usage(app: &mut TuiApp, env: &KeyEnv) -> (act: Option<Act>)
    ensures
        final(app)@ == usage_asked(old(app)@, *env).app,
        act.deep_view() == usage_asked(old(app)@, *env).act,
        usage_asked(old(app)@, *env).redraw,
{
    if env.runtime_up {
        Some(Act::Usage)
    } else {
        let n = session_pending_notice();
        app.notice(n.as_str());
        None
    }
}

fn press_shortcut(app: &mut TuiApp, env: &KeyEnv, key: TuiKey) -> (act: Option<Act>)
    ensures
        final(app)@ == shortcut(old(app)@, *env, key).app,
        act.deep_view() == shortcut(old(app)@, *env, key).act,
        shortcut(old(app)@, *env, key).redraw,
{
    reveal(shortcut);
    match key {
        TuiKey::Esc => press_esc(app, env),
        TuiKey::CtrlC => {
            app.ctrlc();
            None
        },
        TuiKey::CtrlR => {
            let n = resume_readonly_notice();
            app.notice(n.as_str());
            None
        },
        TuiKey::CtrlN => press_new(app, env),
        TuiKey::CtrlU => press_usage(app, env),
        TuiKey::CtrlP => {
            let n = perm_unsupported_note();
            app.notice(n.as_str());
            None
        },
        TuiKey::CtrlF => {
            app.disarm_ctrlc();
            app.open_search();
            None
        },
        TuiKey::F3 => {
            app.disarm_ctrlc();
            app.search_step(true);
            None
        },
        TuiKey::ShiftF3 => {
            app.disarm_ctrlc();
            app.search_step(false);
            None
        },
        TuiKey::Enter => press_enter(app, env),
        _ => None,
    }
}

/// Keys that edit the input or scroll.
#[verifier::opaque]
pub open spec fn edited(a: TuiAppView, key: TuiKey) -> Option<TuiAppView> {
    match key {
        TuiKey::Char(c) => Some(typed(calm(a), seq![c])),
        TuiKey::Newline => Some(typed(calm(a), seq!['\n'])),
        TuiKey::Backspace => Some(backspaced(a)),
        TuiKey::Delete => Some(deleted(a)),
        TuiKey::Left => Some(TuiAppView { cursor: cursor_left(a.input, a.cursor), ..a }),
        TuiKey::Right => Some(TuiAppView { cursor: cursor_right(a.input, a.cursor), ..a }),
        TuiKey::Up => Some(upped(a)),
        TuiKey::Down => Some(downed(a)),
        TuiKey::CtrlUp => Some(older_prompt(a)),
        TuiKey::CtrlDown => Some(newer_prompt(a)),
        TuiKey::Home => Some(TuiAppView { scroll: 0, follow: false, ..a }),
        TuiKey::CtrlHome => Some(TuiAppView { scroll: 0, follow: false, ..a }),
        TuiKey::End => Some(TuiAppView { follow: true, ..a }),
        TuiKey::CtrlEnd => Some(TuiAppView { follow: true, ..a }),
        TuiKey::PageUp => Some(scrolled_up(a, page_of(a))),
        TuiKey::PageDown => Some(scrolled_down(a, page_of(a))),
        _ => None,
    }
}

fn press_edit(app: &mut TuiApp, key: TuiKey) -> (r: bool)
    ensures
        match edited(old(app)@, key) {
            Some(b) => r && final(app)@ == b,
            None => !r && final(app)@ == old(app)@,
        },
{
    reveal(edited);
    match key {
        TuiKey::Char(c) => {
            app.disarm_ctrlc();
            app.insert_char(c);
        },
        TuiKey::Newline => {
            app.disarm_ctrlc();
            app.newline();
        },
        TuiKey::Backspace => app.backspace(),
        TuiKey::Delete => app.delete(),
        TuiKey::Left => app.move_left(),
        TuiKey::Right => app.move_right(),
        TuiKey::Up => app.up_key(),
        TuiKey::Down => app.down_key(),
        TuiKey::CtrlUp => app.history_up_force(),
        TuiKey::CtrlDown => app.history_down_force(),
        TuiKey::Home => app.scroll_home(),
        TuiKey::CtrlHome => app.scroll_home(),
        TuiKey::End => app.scroll_end(),
        TuiKey::CtrlEnd => app.scroll_end(),
        TuiKey::PageUp => {
            let n: usize = app.page_step();
            app.scroll_up(n);
        },
        TuiKey::PageDown => {
            let n: usize = app.page_step();
            app.scroll_down(n);
        },
        _ => {
            return false;
        },
    }
    true
}

// ---------------------------------------------------------------- gates

/// A key with nothing open over the input.
pub open spec fn key_taken(a: TuiAppView, env: KeyEnv, key: TuiKey) -> KeyOut {
    if waits_for_answer(a, key) {
        confirmed(a, env, key)
    } else {
        match edited(a, key) {
            Some(b) => only(b),
            None => shortcut(a, env, key),
        }
    }
}

/// An event with nothing open over the input.
#[verifier::opaque]
pub open spec fn plainly(a: TuiAppView, env: KeyEnv, ev: TermEvent) -> KeyOut {
    match ev {
        TermEvent::ScrollUp => only(scrolled_up(a, 3)),
        TermEvent::ScrollDown => only(scrolled_down(a, 3)),
        TermEvent::Mouse => KeyOut { app: a, redraw: false, act: None },
        TermEvent::Paste(t) => only(typed(calm(a), unbroken(t@))),
        TermEvent::Key(k) => key_taken(a, env, mapped(k)),
        _ => only(a),
    }
}

/// An event where the search line may be open.
#[verifier::opaque]
pub open spec fn past_search(a: TuiAppView, env: KeyEnv, ev: TermEvent) -> KeyOut {
    if a.search matches Some(s) && s.open && (ev is Key || ev is Paste) {
        if interrupts(ev) {
            plainly(search_dropped(a), env, ev)
        } else {
            search_fed(a, ev)
        }
    } else {
        plainly(a, env, ev)
    }
}

/// An event where the list of sessions may be open.
#[verifier::opaque]
pub open spec fn past_picker(a: TuiAppView, env: KeyEnv, ev: TermEvent) -> KeyOut {
    if a.picker is Some {
        if interrupts(ev) {
            past_search(TuiAppView { picker: None, ..a }, env, ev)
        } else {
            match ev {
                TermEvent::Key(k) => picker_keyed(a, env, mapped(k)),
                _ => only(a),
            }
        }
    } else {
        past_search(a, env, ev)
    }
}

/// What an event does.
#[verifier::opaque]
pub open spec fn keyed(a: TuiAppView, env: KeyEnv, ev: TermEvent) -> KeyOut {
    if a.overlay is Some {
        let b = TuiAppView { overlay: None, ..a };
        if interrupts(ev) {
            past_picker(b, env, ev)
        } else {
            only(b)
        }
    } else {
        past_picker(a, env, ev)
    }
}

fn take_key(app: &mut TuiApp, env: &KeyEnv, key: TuiKey) -> (act: Option<Act>)
    ensures
        final(app)@ == key_taken(old(app)@, *env, key).app,
        act.deep_view() == key_taken(old(app)@, *env, key).act,
        key_taken(old(app)@, *env, key).redraw,
{
    let question = match key {
        TuiKey::Char(_) => true,
        TuiKey::Enter => true,
        _ => false,
    };
    if question && (app.pending_compact || app.pending_permission) {
        return answer_pending(app, env, key);
    }
    if press_edit(app, key) {
        return None;
    }
    press_shortcut(app, env, key)
}

fn handle_plain(app: &mut TuiApp, env: &KeyEnv, ev: &TermEvent) -> (r: (bool, Option<Act>))
    ensures
        final(app)@ == plainly(old(app)@, *env, *ev).app,
        r.0 == plainly(old(app)@, *env, *ev).redraw,
        r.1.deep_view() == plainly(old(app)@, *env, *ev).act,
{
    reveal(plainly);
    match ev {
        TermEvent::ScrollUp => {
            app.scroll_up(3);
            (true, None)
        },
        TermEvent::ScrollDown => {
            app.scroll_down(3);
            (true, None)
        },
        TermEvent::Mouse => (false, None),
        TermEvent::Paste(t) => {
            app.disarm_ctrlc();
            app.insert_str(t.as_str());
            (true, None)
        },
        TermEvent::Key(k) => (true, take_key(app, env, map_key(*k))),
        _ => (true, None),
    }
}

fn handle_past_search(app: &mut TuiApp, env: &KeyEnv, ev: &TermEvent) -> (r: (bool, Option<Act>))
    ensures
        final(app)@ == past_search(old(app)@, *env, *ev).app,
        r.0 == past_search(old(app)@, *env, *ev).redraw,
        r.1.deep_view() == past_search(old(app)@, *env, *ev).act,
{
    reveal(past_search);
    let open = match &app.search {
        Some(s) => s.open,
        None => false,
    };
    let text = match ev {
        TermEvent::Key(_) => true,
        TermEvent::Paste(_) => true,
        _ => false,
    };
    if open && text {
        if !is_ctrl_c_event(ev) {
            return (handle_search_event(app, ev), None);
        }
        app.cancel_search();
    }
    handle_plain(app, env, ev)
}

fn handle_past_picker(app: &mut TuiApp, env: &KeyEnv, ev: &TermEvent) -> (r: (bool, Option<Act>))
    ensures
        final(app)@ == past_picker(old(app)@, *env, *ev).app,
        r.0 == past_picker(old(app)@, *env, *ev).redraw,
        r.1.deep_view() == past_picker(old(app)@, *env, *ev).act,
{
    reveal(past_picker);
    if app.picker.is_some() {
        if !is_ctrl_c_event(ev) {
            return match ev {
                TermEvent::Key(k) => (true, picker_key(app, env, map_key(*k))),
                _ => (true, None),
            };
        }
        app.picker = None;
    }
    handle_past_search(app, env, ev)
}

/// Takes in an event: says whether to draw again, and what is to be done behind
/// the interface.
pub fn handle_key_event(app: &mut TuiApp, env: &KeyEnv, ev: &TermEvent) -> (r: (bool, Option<Act>))
    ensures
        final(app)@ == keyed(old(app)@, *env, *ev).app,
        r.0 == keyed(old(app)@, *env, *ev).redraw,
        r.1.deep_view() == keyed(old(app)@, *env, *ev).act,
{
    reveal(keyed);
    if app.overlay.is_some() {
        app.overlay = None;
        if !is_ctrl_c_event(ev) {
            return (true, None);
        }
    }
    handle_past_picker(app, env, ev)
}

/// The call to the server that an act stands for, where it is one.
pub fn act_task(act: &Act, quente: bool) -> (r: Option<Task>)
    ensures
        match act {
            Act::Switch(id) => r matches Some(Task::Switch { id: x, quente: q }) && x@ == id@ && q
                == quente,
            Act::Compact => r == Some(Task::Compact),
            Act::Usage => r == Some(Task::Usage { notice: false }),
            Act::Create => r == Some(Task::Create),
            Act::Abort { stop } => r == if *stop {
                Some(Task::Stop { say: false })
            } else {
                None::<Task>
            },
            _ => r is None,
        },
        act matches Act::Switch(id) ==> (r matches Some(t) && t is Switch && t->Switch_id@ == id@),
        r matches Some(t) ==> !(t is Fork) && !(t is Goal) && !(t is Mode),
{
    match act {
        Act::Switch(id) => Some(Task::Switch { id: id.clone(), quente }),
        Act::Compact => Some(Task::Compact),
        Act::Usage => Some(Task::Usage { notice: false }),
        Act::Create => Some(Task::Create),
        Act::Abort { stop } => if *stop {
            Some(Task::Stop { say: false })
        } else {
            None
        },
        _ => None,
    }
}

// ---------------------------------------------------------------- laws

/// An open window takes every event but Ctrl+C: it closes, and nothing else
/// happens.
pub proof fn law_window_takes_all(a: TuiAppView, env: KeyEnv, ev: TermEvent)
    requires
        a.overlay is Some,
        !interrupts(ev),
    ensures
        keyed(a, env, ev) == only(TuiAppView { overlay: None, ..a }),
{
    reveal(keyed);
}

/// The list of sessions lets nothing through to the input.
pub proof fn law_list_takes_all(a: TuiAppView, env: KeyEnv, ev: TermEvent)
    requires
        a.overlay is None,
        a.picker is Some,
        !interrupts(ev),
    ensures
        keyed(a, env, ev).app.input == a.input,
        keyed(a, env, ev).app.cursor == a.cursor,
        !(keyed(a, env, ev).act matches Some(ActView::Turn(_))),
        !(keyed(a, env, ev).act matches Some(ActView::Slash(_))),
{
    reveal(keyed);
    reveal(past_picker);
    reveal(picker_keyed);
}

/// Nothing typed in the search line reaches a turn or the list of commands.
pub proof fn law_search_takes_text(a: TuiAppView, env: KeyEnv, ev: TermEvent)
    requires
        a.overlay is None,
        a.picker is None,
        a.search matches Some(s) && s.open,
        ev is Key || ev is Paste,
        !interrupts(ev),
    ensures
        keyed(a, env, ev).act is None,
        keyed(a, env, ev).app.messages == a.messages,
{
    reveal(keyed);
    reveal(past_picker);
    reveal(past_search);
    reveal(search_fed);
    reveal(search_keyed);
}

proof fn lemma_plain_interrupt(a: TuiAppView, env: KeyEnv, k: KeyEvent)
    requires
        mapped(k) == TuiKey::CtrlC,
    ensures
        plainly(a, env, TermEvent::Key(k)) == only(interrupted(a)),
{
    reveal(plainly);
    reveal(edited);
    reveal(shortcut);
}

proof fn lemma_interrupt(a: TuiAppView, env: KeyEnv, k: KeyEvent)
    requires
        interrupts(TermEvent::Key(k)),
        k.kind != KeyKind::Release,
    ensures
        a.ctrlc_once ==> keyed(a, env, TermEvent::Key(k)).app.quit,
        !a.ctrlc_once ==> keyed(a, env, TermEvent::Key(k)).app.ctrlc_once,
{
    let ev = TermEvent::Key(k);
    let b = TuiAppView { overlay: None, ..a };
    let c = if a.overlay is Some {
        b
    } else {
        a
    };
    let d = if c.picker is Some {
        TuiAppView { picker: None, ..c }
    } else {
        c
    };
    let open = d.search matches Some(s) && s.open;
    let e = if open {
        search_dropped(d)
    } else {
        d
    };
    assert(mapped(k) == TuiKey::CtrlC);
    assert(e.ctrlc_once == a.ctrlc_once);
    assert(keyed(a, env, ev) == past_picker(c, env, ev)) by {
        reveal(keyed);
    }
    assert(past_picker(c, env, ev) == past_search(d, env, ev)) by {
        reveal(past_picker);
    }
    assert(past_search(d, env, ev) == plainly(e, env, ev)) by {
        reveal(past_search);
    }
    lemma_plain_interrupt(e, env, k);
}

/// Ctrl+C twice in a row leaves, whatever is open.
pub proof fn law_two_interrupts_leave(a: TuiAppView, env: KeyEnv, env2: KeyEnv, k: KeyEvent)
    requires
        interrupts(TermEvent::Key(k)),
        k.kind != KeyKind::Release,
    ensures
        ({
            let once = keyed(a, env, TermEvent::Key(k)).app;
            a.ctrlc_once && once.quit || keyed(once, env2, TermEvent::Key(k)).app.quit
        }),
{
    lemma_interrupt(a, env, k);
    lemma_interrupt(keyed(a, env, TermEvent::Key(k)).app, env2, k);
}

proof fn lemma_acts_of_enter(a: TuiAppView, env: KeyEnv)
    ensures
        ({
            let out = entered(a, env);
            &&& (out.act matches Some(ActView::Turn(t)) ==> env.runtime_up && a.session_ready
                && !a.read_only && !a.runtime_dead && !a.working && t == a.input && !blank(t)
                && !is_slash(t))
            &&& (out.act is None ==> blank(a.input) || is_slash(a.input) || out.app.input == a.input
                || out.app.queue == a.queue.push(trim(a.input)))
        }),
{
    reveal(entered);
}

proof fn lemma_turn_act(a: TuiAppView, env: KeyEnv, ev: TermEvent)
    ensures
        plainly(a, env, ev).act matches Some(ActView::Turn(t)) ==> env.runtime_up && a.session_ready
            && !a.read_only && !a.runtime_dead && !a.working && t == a.input && !blank(t)
            && !interrupts(ev),
{
    reveal(plainly);
    match ev {
        TermEvent::Key(k) => {
            let key = mapped(k);
            assert(!(confirmed(a, env, key).act is Some && confirmed(a, env, key).act->0 is Turn)) by {
                reveal(confirmed);
            }
            lemma_acts_of_enter(a, env);
            assert(key != TuiKey::Enter ==> !(shortcut(a, env, key).act is Some && shortcut(
                a,
                env,
                key,
            ).act->0 is Turn)) by {
                reveal(shortcut);
            }
            assert(key == TuiKey::Enter ==> shortcut(a, env, key) == entered(a, env)) by {
                reveal(shortcut);
            }
            assert(interrupts(ev) ==> key != TuiKey::Enter);
        },
        _ => {},
    }
}

/// A turn starts only in a session that is there, can be written to and is not
/// at work.
pub proof fn law_turns_start_when_ready(a: TuiAppView, env: KeyEnv, ev: TermEvent)
    ensures
        keyed(a, env, ev).act matches Some(ActView::Turn(t)) ==> env.runtime_up && a.session_ready
            && !a.read_only && !a.runtime_dead && !a.working && t == a.input && !blank(t),
{
    let c = if a.overlay is Some {
        TuiAppView { overlay: None, ..a }
    } else {
        a
    };
    let d = if c.picker is Some {
        TuiAppView { picker: None, ..c }
    } else {
        c
    };
    reveal(keyed);
    assert(past_search(d, env, ev).act matches Some(ActView::Turn(t)) ==> env.runtime_up
        && d.session_ready && !d.read_only && !d.runtime_dead && !d.working && t == d.input && !blank(
        t,
    )) by {
        reveal(past_search);
        reveal(search_fed);
        lemma_turn_act(d, env, ev);
        lemma_turn_act(search_dropped(d), env, ev);
    }
    assert(past_picker(c, env, ev).act matches Some(ActView::Turn(t)) ==> env.runtime_up
        && d.session_ready && !d.read_only && !d.runtime_dead && !d.working && t == d.input && !blank(
        t,
    )) by {
        reveal(past_picker);
        reveal(picker_keyed);
    }
}

/// Enter loses no text: what is neither sent nor a command is queued or stays in
/// the input.
pub proof fn law_enter_keeps_text(a: TuiAppView, env: KeyEnv, k: KeyEvent)
    requires
        a.overlay is None,
        a.picker is None,
        !(a.search matches Some(s) && s.open),
        !a.pending_compact,
        !a.pending_permission,
        mapped(k) == TuiKey::Enter,
        !blank(a.input),
        !is_slash(a.input),
    ensures
        ({
            let out = keyed(a, env, TermEvent::Key(k));
            out.act == Some(ActView::Turn(a.input)) || out.app.input == a.input || out.app.queue
                == a.queue.push(trim(a.input))
        }),
{
    reveal(keyed);
    reveal(past_picker);
    reveal(past_search);
    reveal(plainly);
    reveal(edited);
    reveal(shortcut);
    reveal(entered);
}

proof fn lemma_compact_act(a: TuiAppView, env: KeyEnv, ev: TermEvent)
    ensures
        plainly(a, env, ev).act == Some(ActView::Compact) ==> a.pending_compact && (ev matches
            TermEvent::Key(k) && affirms(mapped(k))),
{
    reveal(plainly);
    match ev {
        TermEvent::Key(k) => {
            let key = mapped(k);
            assert(confirmed(a, env, key).act == Some(ActView::Compact) ==> a.pending_compact
                && affirms(key)) by {
                reveal(confirmed);
            }
            assert(entered(a, env).act != Some(ActView::Compact)) by {
                reveal(entered);
            }
            assert(shortcut(a, env, key).act != Some(ActView::Compact)) by {
                reveal(shortcut);
            }
        },
        _ => {},
    }
}

/// Only a yes compacts the session.
pub proof fn law_compact_needs_yes(a: TuiAppView, env: KeyEnv, ev: TermEvent)
    ensures
        keyed(a, env, ev).act == Some(ActView::Compact) ==> a.pending_compact && (ev matches
            TermEvent::Key(k) && affirms(mapped(k))),
{
    let b = TuiAppView { overlay: None, ..a };
    let c = if a.overlay is Some {
        b
    } else {
        a
    };
    let d = if c.picker is Some {
        TuiAppView { picker: None, ..c }
    } else {
        c
    };
    reveal(keyed);
    assert(past_search(d, env, ev).act == Some(ActView::Compact) ==> d.pending_compact && (ev matches
        TermEvent::Key(k) && affirms(mapped(k)))) by {
        reveal(past_search);
        reveal(search_fed);
        lemma_compact_act(d, env, ev);
        lemma_compact_act(search_dropped(d), env, ev);
    }
    assert(past_picker(c, env, ev).act == Some(ActView::Compact) ==> d.pending_compact && (ev matches
        TermEvent::Key(k) && affirms(mapped(k)))) by {
        reveal(past_picker);
        reveal(picker_keyed);
    }
}

} // verus!
