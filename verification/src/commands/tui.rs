//! The state of the terminal interface, and how it takes in what other tasks
//! report: answers of the server, new sessions, failures, the end of a turn.

use crate::commands::merge::{
    agree, exportable, exported, law_merge_follows_server, law_unchanged_is_untouched, merge_messages,
    merged, no_system, talk, ChatMsg, ChatMsgView, MergeResult,
};
use crate::json::{Json, JsonView};
use crate::session::export::{entries, sid8, sid_short8};
use crate::session::extract::{
    context_of, parse_context, ContextUsage, MsgItem, MsgItemView, MsgKind, TurnStats, Usage,
};
use crate::session::listing::{parse_session_list, rows_of, SessionRow, SessionRowView};
use crate::session::todos::{extract_todos, todos_of, TodoItem, TodoItemView};
use crate::text::{char_count, contains, dec, decimal, group_contains, has};
use vstd::prelude::*;

verus! {

// ---------------------------------------------------------------- parts

/// A window over the transcript; any key closes it.
#[derive(Debug, Clone, Copy, PartialEq, Eq, Structural)]
pub enum Overlay {
    Usage,
    Context,
    Todos,
}

impl DeepView for Overlay {
    type V = Overlay;

    open spec fn deep_view(&self) -> Overlay {
        *self
    }
}

/// The list of sessions to choose from; without rows while it is fetched.
#[derive(Debug, Clone)]
pub struct Picker {
    pub rows: Option<Vec<SessionRow>>,
    pub selected: usize,
}

#[verifier::ext_equal]
pub struct PickerView {
    pub rows: Option<Seq<SessionRowView>>,
    pub selected: usize,
}

impl DeepView for Picker {
    type V = PickerView;

    open spec fn deep_view(&self) -> PickerView {
        PickerView { rows: self.rows.deep_view(), selected: self.selected }
    }
}

pub open spec fn picker_len(p: PickerView) -> nat {
    match p.rows {
        Some(r) => r.len(),
        None => 0,
    }
}

/// The id of the selected session.
pub open spec fn picked(p: PickerView) -> Option<Seq<char>> {
    match p.rows {
        Some(r) => if p.selected < r.len() {
            Some(r[p.selected as int].id)
        } else {
            None
        },
        None => None,
    }
}

/// The picker with its selection moved by `by`, kept within the list.
pub open spec fn moved(p: PickerView, by: int) -> PickerView {
    let n = picker_len(p) as int;
    let to = p.selected + by;
    PickerView {
        selected: if n == 0 || to < 0 {
            0
        } else if to >= n {
            (n - 1) as usize
        } else {
            to as usize
        },
        ..p
    }
}

impl Picker {
    pub fn len(&self) -> (r: usize)
        ensures
            r == picker_len(self.deep_view()),
    {
        match &self.rows {
            Some(v) => v.len(),
            None => 0,
        }
    }

    pub fn selected_id(&self) -> (r: Option<String>)
        ensures
            r.deep_view() == picked(self.deep_view()),
    {
        match &self.rows {
            Some(v) => {
                if self.selected < v.len() {
                    assert(v.deep_view()[self.selected as int] == v@[self.selected as int].deep_view());
                    Some(v[self.selected].id.clone())
                } else {
                    None
                }
            },
            None => None,
        }
    }

    pub fn move_selected(&mut self, by: isize)
        ensures
            final(self).deep_view() == moved(old(self).deep_view(), by as int),
    {
        let n: usize = self.len();
        let cur: usize = self.selected;
        if n == 0 {
            self.selected = 0;
        } else if by >= 0 {
            let up: usize = by as usize;
            if cur >= n || up >= n - cur {
                self.selected = n - 1;
            } else {
                self.selected = cur + up;
            }
        } else {
            let down: usize = if by == isize::MIN {
                isize::MAX as usize + 1
            } else {
                (-by) as usize
            };
            if down > cur {
                self.selected = 0;
            } else if cur - down >= n {
                self.selected = n - 1;
            } else {
                self.selected = cur - down;
            }
        }
    }
}

/// The search in the transcript. While its line is open it takes the place of
/// the input, whose text is kept.
#[derive(Debug, Clone)]
pub struct Search {
    pub open: bool,
    pub query: String,
    /// Where the next character goes, in characters.
    pub cursor: usize,
    pub saved: String,
    /// The messages that hold the query.
    pub matches: Vec<usize>,
    /// The match last jumped to.
    pub current: usize,
}

#[verifier::ext_equal]
pub struct SearchView {
    pub open: bool,
    pub query: Seq<char>,
    pub cursor: usize,
    pub saved: Seq<char>,
    pub matches: Seq<usize>,
    pub current: usize,
}

impl DeepView for Search {
    type V = SearchView;

    open spec fn deep_view(&self) -> SearchView {
        SearchView {
            open: self.open,
            query: self.query@,
            cursor: self.cursor,
            saved: self.saved@,
            matches: self.matches@,
            current: self.current,
        }
    }
}

/// The positions of the messages that hold a text.
pub open spec fn found_in(msgs: Seq<ChatMsgView>, query: Seq<char>) -> Seq<usize>
    decreases msgs.len(),
{
    if msgs.len() == 0 {
        Seq::empty()
    } else {
        let before = found_in(msgs.drop_last(), query);
        if contains(msgs.last().text, query) {
            before.push((msgs.len() - 1) as usize)
        } else {
            before
        }
    }
}

// ---------------------------------------------------------------- state

/// The terminal interface.
pub struct TuiApp {
    pub session_id: String,
    pub workspace: String,
    pub read_only: bool,
    pub messages: Vec<ChatMsg>,
    /// Changes with the transcript.
    pub messages_rev: u64,
    /// Messages that wait for the running turn to end.
    pub queue: Vec<String>,
    pub overlay: Option<Overlay>,
    pub picker: Option<Picker>,
    pub search: Option<Search>,
    pub scroll: usize,
    pub follow: bool,
    pub ctx: ContextUsage,
    pub last_stats: Option<TurnStats>,
    pub last_usage: Option<Usage>,
    pub todos: Vec<TodoItem>,
    pub model: String,
    pub mode: String,
    pub runtime_dead: bool,
    pub session_ready: bool,
    pub booting: bool,
    pub status: String,
    pub working: bool,
    pub quit: bool,
    pub ctrlc_once: bool,
    pub input: String,
    pub cursor: usize,
    pub prompt_history: Vec<String>,
    /// The prompt that was called back, and the text put aside for it.
    pub recalled: Option<usize>,
    pub draft: String,
    /// The height of the transcript, as last drawn.
    pub page: usize,
    pub pending_compact: bool,
    pub pending_permission: bool,
    pub tokens_in: u64,
    pub tokens_out: u64,
    pub tick: u64,
}

#[verifier::ext_equal]
pub struct TuiAppView {
    pub session_id: Seq<char>,
    pub workspace: Seq<char>,
    pub read_only: bool,
    pub messages: Seq<ChatMsgView>,
    pub messages_rev: u64,
    pub queue: Seq<Seq<char>>,
    pub overlay: Option<Overlay>,
    pub picker: Option<PickerView>,
    pub search: Option<SearchView>,
    pub scroll: usize,
    pub follow: bool,
    pub ctx: ContextUsage,
    pub last_stats: Option<TurnStats>,
    pub last_usage: Option<Usage>,
    pub todos: Seq<TodoItemView>,
    pub model: Seq<char>,
    pub mode: Seq<char>,
    pub runtime_dead: bool,
    pub session_ready: bool,
    pub booting: bool,
    pub status: Seq<char>,
    pub working: bool,
    pub quit: bool,
    pub ctrlc_once: bool,
    pub input: Seq<char>,
    pub cursor: usize,
    pub prompt_history: Seq<Seq<char>>,
    pub recalled: Option<usize>,
    pub draft: Seq<char>,
    pub page: usize,
    pub pending_compact: bool,
    pub pending_permission: bool,
    pub tokens_in: u64,
    pub tokens_out: u64,
    pub tick: u64,
}

impl View for TuiApp {
    type V = TuiAppView;

    open spec fn view(&self) -> TuiAppView {
        TuiAppView {
            session_id: self.session_id@,
            workspace: self.workspace@,
            read_only: self.read_only,
            messages: self.messages.deep_view(),
            messages_rev: self.messages_rev,
            queue: self.queue.deep_view(),
            overlay: self.overlay,
            picker: self.picker.deep_view(),
            search: self.search.deep_view(),
            scroll: self.scroll,
            follow: self.follow,
            ctx: self.ctx,
            last_stats: self.last_stats,
            last_usage: self.last_usage,
            todos: self.todos.deep_view(),
            model: self.model@,
            mode: self.mode@,
            runtime_dead: self.runtime_dead,
            session_ready: self.session_ready,
            booting: self.booting,
            status: self.status@,
            working: self.working,
            quit: self.quit,
            ctrlc_once: self.ctrlc_once,
            input: self.input@,
            cursor: self.cursor,
            prompt_history: self.prompt_history.deep_view(),
            recalled: self.recalled,
            draft: self.draft@,
            page: self.page,
            pending_compact: self.pending_compact,
            pending_permission: self.pending_permission,
            tokens_in: self.tokens_in,
            tokens_out: self.tokens_out,
            tick: self.tick,
        }
    }
}

/// The interface at its start.
pub open spec fn fresh_app(session_id: Seq<char>, workspace: Seq<char>, read_only: bool) -> TuiAppView {
    TuiAppView {
        session_id,
        workspace,
        read_only,
        messages: Seq::empty(),
        messages_rev: 0,
        queue: Seq::empty(),
        overlay: None,
        picker: None,
        search: None,
        scroll: 0,
        follow: true,
        ctx: ContextUsage { window: 0, used: 0 },
        last_stats: None,
        last_usage: None,
        todos: Seq::empty(),
        model: Seq::empty(),
        mode: Seq::empty(),
        runtime_dead: false,
        session_ready: false,
        booting: false,
        status: "pronto"@,
        working: false,
        quit: false,
        ctrlc_once: false,
        input: Seq::empty(),
        cursor: 0,
        prompt_history: Seq::empty(),
        recalled: None,
        draft: Seq::empty(),
        page: 0,
        pending_compact: false,
        pending_permission: false,
        tokens_in: 0,
        tokens_out: 0,
        tick: 0,
    }
}

/// The interface with one more message.
pub open spec fn told(a: TuiAppView, role: Seq<char>, text: Seq<char>, wire: Option<Seq<char>>) -> TuiAppView {
    TuiAppView {
        messages: a.messages.push(ChatMsgView { role, text, kind: MsgKind::Text, wire }),
        messages_rev: a.messages_rev.wrapping_add(1),
        ..a
    }
}

/// The interface with one more notice.
pub open spec fn noticed(a: TuiAppView, text: Seq<char>) -> TuiAppView {
    told(a, "system"@, text, None)
}

/// The interface with the line of an open search closed and the input back.
pub open spec fn search_closed(a: TuiAppView) -> TuiAppView {
    match a.search {
        Some(s) => if s.open {
            TuiAppView {
                search: Some(SearchView { open: false, saved: Seq::empty(), ..s }),
                input: s.saved,
                cursor: s.saved.len() as usize,
                ..a
            }
        } else {
            a
        },
        None => a,
    }
}

/// The interface without its search.
pub open spec fn search_dropped(a: TuiAppView) -> TuiAppView {
    TuiAppView { search: None, ..search_closed(a) }
}

/// The interface with the search line open: the input is put aside, an earlier
/// query comes back.
pub open spec fn search_opened(a: TuiAppView) -> TuiAppView {
    match a.search {
        Some(s) => if s.open {
            a
        } else {
            TuiAppView {
                search: Some(SearchView { open: true, saved: a.input, ..s }),
                input: Seq::empty(),
                cursor: 0,
                ..a
            }
        },
        None => TuiAppView {
            search: Some(
                SearchView {
                    open: true,
                    query: Seq::empty(),
                    cursor: 0,
                    saved: a.input,
                    matches: Seq::empty(),
                    current: 0,
                },
            ),
            input: Seq::empty(),
            cursor: 0,
            ..a
        },
    }
}

pub open spec fn picker_opened(a: TuiAppView) -> TuiAppView {
    TuiAppView {
        picker: Some(PickerView { rows: None, selected: 0 }),
        status: "buscando sessões…"@,
        ..a
    }
}

pub open spec fn picker_filled(a: TuiAppView, rows: Seq<SessionRowView>) -> TuiAppView {
    match a.picker {
        Some(_) => TuiAppView {
            picker: Some(PickerView { rows: Some(rows), selected: 0 }),
            status: if rows.len() == 0 {
                "nenhuma sessão — Esc fecha"@
            } else {
                "sessões: ↑/↓ escolhe · Enter retoma · Esc fecha"@
            },
            ..a
        },
        None => a,
    }
}

pub open spec fn picker_closed(a: TuiAppView) -> TuiAppView {
    TuiAppView { picker: None, status: "pronto"@, ..a }
}

/// The interface with one more message waiting.
pub open spec fn queued(a: TuiAppView, text: Seq<char>) -> TuiAppView {
    TuiAppView { queue: a.queue.push(text), ..a }
}

impl TuiApp {
    pub fn new(session_id: &str, workspace: &str, read_only: bool) -> (r: TuiApp)
        ensures
            r@ == fresh_app(session_id@, workspace@, read_only),
    {
        let r = TuiApp {
            session_id: session_id.to_owned(),
            workspace: workspace.to_owned(),
            read_only,
            messages: Vec::new(),
            messages_rev: 0,
            queue: Vec::new(),
            overlay: None,
            picker: None,
            search: None,
            scroll: 0,
            follow: true,
            ctx: ContextUsage { window: 0, used: 0 },
            last_stats: None,
            last_usage: None,
            todos: Vec::new(),
            model: String::new(),
            mode: String::new(),
            runtime_dead: false,
            session_ready: false,
            booting: false,
            status: "pronto".to_owned(),
            working: false,
            quit: false,
            ctrlc_once: false,
            input: String::new(),
            cursor: 0,
            prompt_history: Vec::new(),
            recalled: None,
            draft: String::new(),
            page: 0,
            pending_compact: false,
            pending_permission: false,
            tokens_in: 0,
            tokens_out: 0,
            tick: 0,
        };
        assert(r@ =~= fresh_app(session_id@, workspace@, read_only));
        r
    }

    /// Marks the transcript as changed.
    pub fn bump_rev(&mut self)
        ensures
            final(self)@ == (TuiAppView {
                messages_rev: old(self)@.messages_rev.wrapping_add(1),
                ..old(self)@
            }),
    {
        self.messages_rev = self.messages_rev.wrapping_add(1);
    }

    /// Adds a message that was sent as `wire` where that is given.
    pub fn push_msg_with_wire(&mut self, role: &str, text: &str, wire: Option<String>)
        ensures
            final(self)@ == told(old(self)@, role@, text@, wire.deep_view()),
    {
        let ghost before = self.messages.deep_view();
        let ghost w = wire.deep_view();
        self.messages.push(
            ChatMsg { role: role.to_owned(), text: text.to_owned(), kind: MsgKind::Text, wire },
        );
        assert(self.messages.deep_view() =~= before.push(
            ChatMsgView { role: role@, text: text@, kind: MsgKind::Text, wire: w },
        ));
        self.messages_rev = self.messages_rev.wrapping_add(1);
    }

    pub fn push_msg(&mut self, role: &str, text: &str)
        ensures
            final(self)@ == told(old(self)@, role@, text@, None),
    {
        self.push_msg_with_wire(role, text, None);
    }

    /// Adds a notice of the program.
    pub fn notice(&mut self, text: &str)
        ensures
            final(self)@ == noticed(old(self)@, text@),
    {
        self.push_msg("system", text);
    }

    /// Puts a message at the end of the queue.
    pub fn queue_push(&mut self, text: &str)
        ensures
            final(self)@ == queued(old(self)@, text@),
    {
        let ghost before = self.queue.deep_view();
        self.queue.push(text.to_owned());
        assert(self.queue.deep_view() =~= before.push(text@));
    }

    /// Empties the queue; returns how many messages it held.
    pub fn queue_clear(&mut self) -> (n: usize)
        ensures
            n == old(self)@.queue.len(),
            final(self)@ == (TuiAppView { queue: Seq::empty(), ..old(self)@ }),
    {
        let n: usize = self.queue.len();
        self.queue = Vec::new();
        assert(self.queue.deep_view() =~= Seq::empty());
        n
    }

    /// Takes the message that waited longest.
    pub fn next_queued(&mut self) -> (r: Option<String>)
        ensures
            if old(self)@.queue.len() > 0 {
                r matches Some(t) && t@ == old(self)@.queue[0] && final(self)@ == (TuiAppView {
                    queue: old(self)@.queue.drop_first(),
                    ..old(self)@
                })
            } else {
                r is None && final(self)@ == old(self)@
            },
            r matches Some(t) ==> seq![t@] + final(self)@.queue == old(self)@.queue,
    {
        if self.queue.len() == 0 {
            return None;
        }
        let ghost before = self.queue.deep_view();
        let t = self.queue.remove(0);
        assert(self.queue.deep_view() =~= before.drop_first());
        assert(seq![t@] + self.queue.deep_view() =~= before);
        Some(t)
    }

    pub fn set_usage(&mut self, input: u64, output: u64)
        ensures
            final(self)@ == (TuiAppView { tokens_in: input, tokens_out: output, ..old(self)@ }),
    {
        self.tokens_in = input;
        self.tokens_out = output;
    }

    pub fn remember_prompt(&mut self, text: &str)
        ensures
            final(self)@ == (TuiAppView {
                prompt_history: old(self)@.prompt_history.push(text@),
                recalled: None,
                draft: Seq::empty(),
                ..old(self)@
            }),
    {
        let ghost before = self.prompt_history.deep_view();
        self.prompt_history.push(text.to_owned());
        assert(self.prompt_history.deep_view() =~= before.push(text@));
        self.recalled = None;
        self.draft = String::new();
    }

    pub fn mark_session_ready(&mut self)
        ensures
            final(self)@ == (TuiAppView { session_ready: true, ..old(self)@ }),
    {
        self.session_ready = true;
    }

    /// The length of the input in characters.
    pub fn input_len(&self) -> (r: usize)
        ensures
            r == self@.input.len(),
    {
        char_count(self.input.as_str())
    }

    pub fn open_session_picker(&mut self)
        ensures
            final(self)@ == picker_opened(old(self)@),
    {
        self.picker = Some(Picker { rows: None, selected: 0 });
        self.status = "buscando sessões…".to_owned();
    }

    /// Fills the picker; one that was closed meanwhile stays closed.
    pub fn fill_session_picker(&mut self, rows: Vec<SessionRow>)
        ensures
            final(self)@ == picker_filled(old(self)@, rows.deep_view()),
    {
        if self.picker.is_some() {
            self.status = if rows.len() == 0 {
                "nenhuma sessão — Esc fecha".to_owned()
            } else {
                "sessões: ↑/↓ escolhe · Enter retoma · Esc fecha".to_owned()
            };
            self.picker = Some(Picker { rows: Some(rows), selected: 0 });
        }
    }

    pub fn close_session_picker(&mut self)
        ensures
            final(self)@ == picker_closed(old(self)@),
    {
        self.picker = None;
        self.status = "pronto".to_owned();
    }

    /// Takes the selected session and closes the picker; nothing happens where
    /// there is none to take.
    pub fn take_selected_session(&mut self) -> (r: Option<String>)
        ensures
            match old(self)@.picker {
                Some(p) => r.deep_view() == picked(p) && final(self)@ == if picked(p) is Some {
                    TuiAppView { picker: None, ..old(self)@ }
                } else {
                    old(self)@
                },
                None => r is None && final(self)@ == old(self)@,
            },
    {
        let r = match &self.picker {
            Some(p) => p.selected_id(),
            None => None,
        };
        if r.is_some() {
            self.picker = None;
        }
        r
    }

    pub fn open_search(&mut self)
        ensures
            final(self)@ == search_opened(old(self)@),
    {
        let (query, cursor, matches, current) = match &self.search {
            Some(s) => {
                if s.open {
                    return;
                }
                (s.query.clone(), s.cursor, dup_positions(&s.matches), s.current)
            },
            None => (String::new(), 0, Vec::new(), 0),
        };
        let saved = self.input.clone();
        self.search = Some(Search { open: true, query, cursor, saved, matches, current });
        self.input = String::new();
        self.cursor = 0;
        assert(self@ =~= search_opened(old(self)@));
    }

    /// Closes the search line and brings the input back; the query stays.
    pub fn close_search_keep(&mut self)
        ensures
            final(self)@ == search_closed(old(self)@),
    {
        let (query, at, saved, matches, current) = match &self.search {
            Some(s) => {
                if !s.open {
                    return;
                }
                (
                    s.query.clone(),
                    s.cursor,
                    s.saved.clone(),
                    dup_positions(&s.matches),
                    s.current,
                )
            },
            None => {
                return;
            },
        };
        self.cursor = char_count(saved.as_str());
        self.input = saved;
        self.search = Some(
            Search { open: false, query, cursor: at, saved: String::new(), matches, current },
        );
        assert(self@ =~= search_closed(old(self)@));
    }

    /// Ends the search and brings the input back.
    pub fn cancel_search(&mut self)
        ensures
            final(self)@ == search_dropped(old(self)@),
    {
        self.close_search_keep();
        self.search = None;
    }

    pub fn disarm_ctrlc(&mut self)
        ensures
            final(self)@ == (TuiAppView { ctrlc_once: false, ..old(self)@ }),
    {
        self.ctrlc_once = false;
    }

    /// The first interrupt is a warning, the second leaves.
    pub fn ctrlc(&mut self)
        ensures
            final(self)@ == if old(self)@.ctrlc_once {
                TuiAppView { quit: true, ..old(self)@ }
            } else {
                TuiAppView {
                    ctrlc_once: true,
                    status: "Ctrl+C de novo p/ sair"@,
                    ..old(self)@
                }
            },
    {
        if self.ctrlc_once {
            self.quit = true;
        } else {
            self.ctrlc_once = true;
            self.status = "Ctrl+C de novo p/ sair".to_owned();
        }
    }
}

fn dup_positions(v: &Vec<usize>) -> (r: Vec<usize>)
    ensures
        r@ == v@,
{
    let mut out: Vec<usize> = Vec::new();
    let mut i: usize = 0;
    while i < v.len()
        invariant
            i <= v@.len(),
            out@ == v@.take(i as int),
        decreases v@.len() - i,
    {
        out.push(v[i]);
        assert(v@.take(i + 1) =~= v@.take(i as int).push(v@[i as int]));
        i = i + 1;
    }
    assert(v@.take(v@.len() as int) =~= v@);
    out
}

pub fn find_messages(messages: &Vec<ChatMsg>, query: &str) -> (r: Vec<usize>)
    ensures
        r@ == found_in(messages.deep_view(), query@),
{
    let ghost all = messages.deep_view();
    let mut out: Vec<usize> = Vec::new();
    let mut i: usize = 0;
    while i < messages.len()
        invariant
            i <= messages@.len(),
            all == messages.deep_view(),
            out@ == found_in(all.take(i as int), query@),
        decreases messages@.len() - i,
    {
        proof {
            assert(all.take(i + 1).drop_last() =~= all.take(i as int));
            assert(all.take(i + 1).last() == messages@[i as int].deep_view());
        }
        if has(messages[i].text.as_str(), query) {
            out.push(i);
        }
        i = i + 1;
    }
    assert(all.take(all.len() as int) =~= all);
    out
}

/// What an export holds: everything but the opening screen.
pub fn export_tuples(app: &TuiApp) -> (r: Vec<(String, String, MsgKind)>)
    ensures
        entries(r@) == exported(app@.messages),
{
    exportable(&app.messages)
}

// ---------------------------------------------------------------- updates

/// What other tasks report to the interface.
pub enum UiUpdate {
    /// The messages of a session as the server has them.
    Messages { sid: String, msgs: Vec<MsgItem>, result: MergeResult },
    Usage { usage: Usage, notice: bool },
    Notice(String),
    NewSession { created: Json, sid: String, model: String },
    /// The runtime reported something; nothing is made of it.
    SessionEvent { method: String },
    RuntimeDead { notice: String },
    SessionsLoaded { res: Result<Json, String> },
    ResumedSession { resumed: Json, sid: String, model: String, quente: bool },
}

pub open spec fn dropped_text(n: usize) -> Seq<char> {
    "⚠ "@ + dec(n as nat)
        + " mensagem(ns) locais não confirmadas pelo servidor foram removidas do histórico"@
}

pub open spec fn usage_text(u: Usage) -> Seq<char> {
    "total="@ + dec(u.total_tokens as nat) + " in="@ + dec(u.input_tokens as nat) + " out="@ + dec(
        u.output_tokens as nat,
    ) + " reqs="@ + dec(u.model_request_count as nat)
}

/// The totals of a session in one line.
pub fn usage_line(u: &Usage) -> (r: String)
    ensures
        r@ == usage_text(*u),
{
    let mut s = "total=".to_owned();
    let a = decimal(u.total_tokens);
    s.append(a.as_str());
    s.append(" in=");
    let b = decimal(u.input_tokens);
    s.append(b.as_str());
    s.append(" out=");
    let c = decimal(u.output_tokens);
    s.append(c.as_str());
    s.append(" reqs=");
    let d = decimal(u.model_request_count);
    s.append(d.as_str());
    s
}

/// How much of what a session read came from the cache: that part over the
/// whole; none where nothing was read.
pub fn cache_hit(u: &Usage) -> (r: Option<(u64, u128)>)
    ensures
        r == if u.input_tokens + u.cache_read_tokens == 0 {
            None::<(u64, u128)>
        } else {
            Some((u.cache_read_tokens, (u.input_tokens + u.cache_read_tokens) as u128))
        },
        r matches Some((hit, whole)) ==> hit <= whole && whole - hit == u.input_tokens && whole > 0,
{
    let whole: u128 = u.input_tokens as u128 + u.cache_read_tokens as u128;
    if whole == 0 {
        None
    } else {
        Some((u.cache_read_tokens, whole))
    }
}

pub open spec fn resumed_text(sid: Seq<char>, quente: bool) -> Seq<char> {
    "sessão retomada: "@ + sid8(sid) + if quente {
        " (quente — pode enviar)"@
    } else {
        " (leitura — R1)"@
    }
}

pub open spec fn queue_lost_text(n: nat) -> Seq<char> {
    "fila descartada na troca de sessão ("@ + dec(n) + " mensagem/ns)"@
}

/// The interface in another session: nothing of the earlier one is left.
#[verifier::opaque]
pub open spec fn switched(
    a: TuiAppView,
    created: JsonView,
    sid: Seq<char>,
    model: Seq<char>,
    status: Seq<char>,
    notice: Seq<char>,
) -> TuiAppView {
    let clean = TuiAppView {
        session_id: sid,
        messages: Seq::empty(),
        messages_rev: a.messages_rev.wrapping_add(1),
        queue: Seq::empty(),
        overlay: None,
        scroll: 0,
        follow: true,
        ctx: context_of(created),
        last_stats: None,
        last_usage: None,
        todos: todos_of(created),
        model: if model.len() > 0 {
            model
        } else {
            a.model
        },
        runtime_dead: false,
        session_ready: true,
        booting: false,
        status,
        ..search_dropped(a)
    };
    let spoken = noticed(clean, notice);
    if a.queue.len() > 0 {
        noticed(spoken, queue_lost_text(a.queue.len()))
    } else {
        spoken
    }
}

/// The interface after the server's messages were read again.
#[verifier::opaque]
pub open spec fn reread_messages(a: TuiAppView, server: Seq<MsgItemView>) -> TuiAppView {
    let (list, how) = merged(a.messages, server);
    let b = TuiAppView {
        messages: list,
        messages_rev: a.messages_rev.wrapping_add(1),
        ..a
    };
    match how {
        MergeResult::Unchanged => a,
        MergeResult::Appended => b,
        MergeResult::Replaced { dropped_local } => if dropped_local > 0 {
            noticed(b, dropped_text(dropped_local))
        } else {
            b
        },
    }
}

#[verifier::opaque]
pub open spec fn usage_taken(a: TuiAppView, usage: Usage, notice: bool) -> TuiAppView {
    let b = TuiAppView {
        tokens_in: usage.input_tokens,
        tokens_out: usage.output_tokens,
        last_usage: Some(usage),
        ..a
    };
    if notice {
        noticed(b, usage_text(usage))
    } else {
        b
    }
}

/// Any answer lets a new attempt at a first session be made.
#[verifier::opaque]
pub open spec fn notice_taken(a: TuiAppView, text: Seq<char>) -> TuiAppView {
    noticed(TuiAppView { booting: false, ..a }, text)
}

/// No turn is started on a dead runtime.
#[verifier::opaque]
pub open spec fn death_taken(a: TuiAppView, text: Seq<char>) -> TuiAppView {
    noticed(
        TuiAppView { runtime_dead: true, status: "runtime morto"@, booting: false, ..a },
        text,
    )
}

#[verifier::opaque]
pub open spec fn sessions_taken(a: TuiAppView, res: Result<Json, String>) -> TuiAppView {
    match res {
        Ok(v) => picker_filled(a, rows_of(v@)),
        Err(e) => noticed(picker_closed(a), "sessions falhou: "@ + e@),
    }
}

/// What an update leads to: the interface, the description of the session, and
/// the session that the poller is to turn to.
pub struct Applied {
    pub app: TuiAppView,
    pub created: JsonView,
    pub follow: Option<Seq<char>>,
}

pub open spec fn applied(a: TuiAppView, created: JsonView, u: UiUpdate) -> Applied {
    match u {
        UiUpdate::Messages { sid, msgs, result } => Applied {
            app: if sid@ != a.session_id {
                a
            } else {
                reread_messages(a, msgs.deep_view())
            },
            created,
            follow: None,
        },
        UiUpdate::Usage { usage, notice } => Applied {
            app: usage_taken(a, usage, notice),
            created,
            follow: None,
        },
        UiUpdate::Notice(s) => Applied {
            app: notice_taken(a, s@),
            created,
            follow: None,
        },
        UiUpdate::NewSession { created: c, sid, model } => Applied {
            app: switched(a, c@, sid@, model@, "pronto"@, "sessão nova: "@ + sid@),
            created: c@,
            follow: Some(sid@),
        },
        UiUpdate::SessionEvent { method } => Applied { app: a, created, follow: None },
        UiUpdate::RuntimeDead { notice } => Applied {
            app: death_taken(a, notice@),
            created,
            follow: None,
        },
        UiUpdate::SessionsLoaded { res } => Applied {
            app: sessions_taken(a, res),
            created,
            follow: None,
        },
        UiUpdate::ResumedSession { resumed, sid, model, quente } => Applied {
            app: switched(
                a,
                resumed@,
                sid@,
                model@,
                resumed_text(sid@, quente),
                resumed_text(sid@, quente),
            ),
            created: resumed@,
            follow: Some(sid@),
        },
    }
}

fn merge_into(messages: &mut Vec<ChatMsg>, msgs: &Vec<MsgItem>) -> (how: MergeResult)
    ensures
        final(messages).deep_view() == merged(old(messages).deep_view(), msgs.deep_view()).0,
        how == merged(old(messages).deep_view(), msgs.deep_view()).1,
{
    merge_messages(messages, msgs.as_slice())
}

fn apply_messages(app: &mut TuiApp, msgs: &Vec<MsgItem>)
    ensures
        final(app)@ == reread_messages(old(app)@, msgs.deep_view()),
{
    let ghost a = app@;
    let ghost server = msgs.deep_view();
    let how = merge_into(&mut app.messages, msgs);
    let ghost list = merged(a.messages, server).0;
    assert(app@ == TuiAppView { messages: list, ..a });
    match how {
        MergeResult::Unchanged => {
            proof {
                law_unchanged_is_untouched(a.messages, server);
                assert(app@ == a);
                reveal(reread_messages);
            }
        },
        MergeResult::Appended => {
            app.bump_rev();
            reveal(reread_messages);
        },
        MergeResult::Replaced { dropped_local } => {
            app.bump_rev();
            reveal(reread_messages);
            if dropped_local > 0 {
                let mut m = "⚠ ".to_owned();
                let d = decimal(dropped_local as u64);
                m.append(d.as_str());
                m.append(
                    " mensagem(ns) locais não confirmadas pelo servidor foram removidas do histórico",
                );
                app.notice(m.as_str());
            }
        },
    }
}

/// Puts the interface into another session.
pub fn apply_session_switch(
    app: &mut TuiApp,
    created: &Json,
    sid: &str,
    model: &str,
    status: &str,
    notice: &str,
)
    ensures
        final(app)@ == switched(old(app)@, created@, sid@, model@, status@, notice@),
{
    reveal(switched);
    app.session_id = sid.to_owned();
    app.messages = Vec::new();
    assert(app.messages.deep_view() =~= Seq::empty());
    app.bump_rev();
    let lost: usize = app.queue_clear();
    app.overlay = None;
    app.scroll = 0;
    app.follow = true;
    app.ctx = parse_context(created);
    app.last_stats = None;
    app.last_usage = None;
    app.todos = extract_todos(created);
    if !model.is_empty() {
        app.model = model.to_owned();
    }
    app.runtime_dead = false;
    if app.search.is_some() {
        app.cancel_search();
    }
    app.mark_session_ready();
    app.booting = false;
    app.status = status.to_owned();
    app.notice(notice);
    if lost > 0 {
        let mut m = "fila descartada na troca de sessão (".to_owned();
        let d = decimal(lost as u64);
        m.append(d.as_str());
        m.append(" mensagem/ns)");
        app.notice(m.as_str());
    }
}

fn apply_usage(app: &mut TuiApp, usage: Usage, notice: bool)
    ensures
        final(app)@ == usage_taken(old(app)@, usage, notice),
{
    reveal(usage_taken);
    app.set_usage(usage.input_tokens, usage.output_tokens);
    app.last_usage = Some(usage);
    if notice {
        let t = usage_line(&usage);
        app.notice(t.as_str());
    }
}

fn apply_notice(app: &mut TuiApp, text: &str)
    ensures
        final(app)@ == notice_taken(old(app)@, text@),
{
    reveal(notice_taken);
    app.booting = false;
    app.notice(text);
}

fn apply_death(app: &mut TuiApp, text: &str)
    ensures
        final(app)@ == death_taken(old(app)@, text@),
{
    reveal(death_taken);
    app.runtime_dead = true;
    app.status = "runtime morto".to_owned();
    app.booting = false;
    app.notice(text);
}

fn apply_sessions(app: &mut TuiApp, res: &Result<Json, String>)
    ensures
        final(app)@ == sessions_taken(old(app)@, *res),
{
    reveal(sessions_taken);
    match res {
        Ok(v) => {
            app.fill_session_picker(parse_session_list(v));
        },
        Err(e) => {
            app.close_session_picker();
            let mut m = "sessions falhou: ".to_owned();
            m.append(e.as_str());
            app.notice(m.as_str());
        },
    }
}

/// What is said of a session that was resumed.
pub fn resumed_notice(sid: &str, quente: bool) -> (r: String)
    ensures
        r@ == resumed_text(sid@, quente),
{
    let mut m = "sessão retomada: ".to_owned();
    let id8 = sid_short8(sid);
    m.append(id8.as_str());
    if quente {
        m.append(" (quente — pode enviar)");
    } else {
        m.append(" (leitura — R1)");
    }
    m
}

/// Takes in one update; returns the session that the poller is to turn to.
pub fn apply_ui_update(app: &mut TuiApp, created: &mut Json, u: UiUpdate) -> (follow: Option<String>)
    ensures
        final(app)@ == applied(old(app)@, old(created)@, u).app,
        final(created)@ == applied(old(app)@, old(created)@, u).created,
        follow.deep_view() == applied(old(app)@, old(created)@, u).follow,
{
    match u {
        UiUpdate::Messages { sid, msgs, result: _ } => {
            if sid == app.session_id {
                apply_messages(app, &msgs);
            }
            None
        },
        UiUpdate::Usage { usage, notice } => {
            apply_usage(app, usage, notice);
            None
        },
        UiUpdate::Notice(s) => {
            apply_notice(app, s.as_str());
            None
        },
        UiUpdate::NewSession { created: c, sid, model } => {
            let mut m = "sessão nova: ".to_owned();
            m.append(sid.as_str());
            apply_session_switch(app, &c, sid.as_str(), model.as_str(), "pronto", m.as_str());
            *created = c;
            Some(sid)
        },
        UiUpdate::SessionEvent { method: _ } => None,
        UiUpdate::RuntimeDead { notice } => {
            apply_death(app, notice.as_str());
            None
        },
        UiUpdate::SessionsLoaded { res } => {
            apply_sessions(app, &res);
            None
        },
        UiUpdate::ResumedSession { resumed, sid, model, quente } => {
            let m = resumed_notice(sid.as_str(), quente);
            apply_session_switch(app, &resumed, sid.as_str(), model.as_str(), m.as_str(), m.as_str());
            *created = resumed;
            Some(sid)
        },
    }
}

// ---------------------------------------------------------------- laws

/// What is chosen in the list is the session under the mark, and one step down
/// or up marks the next or the one before.
pub proof fn law_list_marks(p: PickerView, rows: Seq<SessionRowView>, i: int)
    requires
        p.rows == Some(rows),
        0 <= i < rows.len() <= usize::MAX,
        p.selected == i,
    ensures
        picked(p) == Some(rows[i].id),
        i + 1 < rows.len() ==> picked(moved(p, 1)) == Some(rows[i + 1].id),
        i > 0 ==> picked(moved(p, -1)) == Some(rows[i - 1].id),
        i + 1 == rows.len() ==> moved(p, 1) == p,
        i == 0 ==> moved(p, -1) == p,
        moved(p, 1).rows == p.rows,
{
}

/// However far the mark is moved it stays on a session.
pub proof fn law_mark_stays_on_the_list(p: PickerView, by: int)
    requires
        0 < picker_len(p) <= usize::MAX,
    ensures
        moved(p, by).selected < picker_len(p),
        picked(moved(p, by)) is Some,
{
}

/// A search finds exactly the messages whose text holds what is sought, in order.
pub proof fn law_search_finds(msgs: Seq<ChatMsgView>, query: Seq<char>)
    requires
        msgs.len() <= usize::MAX,
    ensures
        forall|i: int|
            0 <= i < msgs.len() ==> (found_in(msgs, query).contains(i as usize) <==> contains(
                (#[trigger] msgs[i]).text,
                query,
            )),
        forall|k: int|
            0 <= k < found_in(msgs, query).len() ==> (#[trigger] found_in(msgs, query)[k])
                < msgs.len(),
        forall|j: int, k: int|
            0 <= j < k < found_in(msgs, query).len() ==> (#[trigger] found_in(msgs, query)[j]) < (
            #[trigger] found_in(msgs, query)[k]),
    decreases msgs.len(),
{
    let f = found_in(msgs, query);
    if msgs.len() > 0 {
        let rest = msgs.drop_last();
        let before = found_in(rest, query);
        law_search_finds(rest, query);
        let n = msgs.len() - 1;
        let hit = contains(msgs.last().text, query);
        if hit {
            assert(f == before.push(n as usize));
            assert(f[before.len() as int] == n as usize);
        }
        assert forall|i: int| 0 <= i < msgs.len() implies (f.contains(i as usize) <==> contains(
            (#[trigger] msgs[i]).text,
            query,
        )) by {
            if i < n {
                assert(rest[i] == msgs[i]);
                if before.contains(i as usize) {
                    let k = choose|k: int| 0 <= k < before.len() && before[k] == i as usize;
                    assert(f[k] == i as usize);
                }
                if f.contains(i as usize) {
                    let k = choose|k: int| 0 <= k < f.len() && f[k] == i as usize;
                    assert(k < before.len());
                    assert(before[k] == i as usize);
                }
            } else if !hit {
                if f.contains(i as usize) {
                    let k = choose|k: int| 0 <= k < f.len() && f[k] == i as usize;
                    assert(before[k] < rest.len());
                }
            }
        }
        assert forall|k: int| 0 <= k < f.len() implies (#[trigger] f[k]) < msgs.len() by {
            if k < before.len() {
                assert(before[k] < rest.len());
            }
        }
        assert forall|j: int, k: int| 0 <= j < k < f.len() implies (#[trigger] f[j]) < (
        #[trigger] f[k]) by {
            if k < before.len() {
                assert(before[j] < before[k]);
            } else {
                assert(before[j] < rest.len());
            }
        }
    }
}

/// Opening a search and closing it again leaves the prompt as it was.
pub proof fn law_search_gives_back_the_prompt(a: TuiAppView)
    requires
        !(a.search matches Some(s) && s.open),
    ensures
        search_closed(search_opened(a)).input == a.input,
        search_dropped(search_opened(a)).input == a.input,
        search_dropped(search_opened(a)).search is None,
        search_opened(a).input.len() == 0,
        search_opened(a).messages == a.messages,
        search_dropped(a).messages == a.messages,
{
}

/// A notice is one more message of the system at the end, and changes nothing
/// else but the count of changes.
pub proof fn law_notice_is_added(a: TuiAppView, text: Seq<char>)
    ensures
        noticed(a, text).messages.len() == a.messages.len() + 1,
        noticed(a, text).messages.last().text == text,
        noticed(a, text).messages.last().role == "system"@,
        a.messages.is_prefix_of(noticed(a, text).messages),
        noticed(a, text) == (TuiAppView {
            messages: noticed(a, text).messages,
            messages_rev: noticed(a, text).messages_rev,
            ..a
        }),
{
}

/// The numbers of the server are shown as they are: what went in as in, what
/// came out as out.
pub proof fn law_usage_is_shown(a: TuiAppView, created: JsonView, usage: Usage, notice: bool)
    ensures
        ({
            let b = applied(a, created, UiUpdate::Usage { usage, notice }).app;
            &&& b.tokens_in == usage.input_tokens
            &&& b.tokens_out == usage.output_tokens
            &&& b.last_usage == Some(usage)
            &&& notice ==> b.messages.len() == a.messages.len() + 1 && b.messages.last().text
                == usage_text(usage)
            &&& !notice ==> b.messages == a.messages
        }),
{
    reveal(usage_taken);
}

/// The line of the numbers: each behind its name.
pub proof fn law_usage_text_holds(u: Usage)
    ensures
        contains(usage_text(u), "total="@ + dec(u.total_tokens as nat)),
        contains(usage_text(u), " in="@ + dec(u.input_tokens as nat)),
        contains(usage_text(u), " out="@ + dec(u.output_tokens as nat)),
        contains(usage_text(u), " reqs="@ + dec(u.model_request_count as nat)),
{
    let t = "total="@ + dec(u.total_tokens as nat);
    let i = " in="@ + dec(u.input_tokens as nat);
    let o = " out="@ + dec(u.output_tokens as nat);
    let q = " reqs="@ + dec(u.model_request_count as nat);
    assert(usage_text(u) =~= t + i + o + q);
    assert(contains(t + i + o + q, t) && contains(t + i + o + q, i) && contains(t + i + o + q, o)
        && contains(t + i + o + q, q)) by {
        broadcast use group_contains;

    }
}

/// A notice, a death and a list are shown for what they are.
pub proof fn law_updates_are_shown(a: TuiAppView, created: JsonView, s: String, v: Json)
    ensures
        applied(a, created, UiUpdate::Notice(s)).app.messages.last().text == s@,
        applied(a, created, UiUpdate::RuntimeDead { notice: s }).app.messages.last().text == s@,
        applied(a, created, UiUpdate::RuntimeDead { notice: s }).app.runtime_dead,
        a.picker is Some ==> (applied(
            a,
            created,
            UiUpdate::SessionsLoaded { res: Ok(v) },
        ).app.picker matches Some(p) && p.rows == Some(rows_of(v@)) && p.selected == 0),
        applied(a, created, UiUpdate::SessionsLoaded { res: Err(s) }).app.picker is None,
        contains(
            applied(a, created, UiUpdate::SessionsLoaded { res: Err(s) }).app.messages.last().text,
            s@,
        ),
{
    broadcast use group_contains;

    reveal(notice_taken);
    reveal(death_taken);
    reveal(sessions_taken);
}

/// After a switch the interface shows the session it turned to: its id, its
/// model where the server names one, its context and its todos.
pub proof fn law_switch_shows_the_session(
    a: TuiAppView,
    created: JsonView,
    v: Json,
    sid: String,
    model: String,
    quente: bool,
)
    ensures
        ({
            let out = applied(
                a,
                created,
                UiUpdate::ResumedSession { resumed: v, sid, model, quente },
            );
            &&& out.app.session_id == sid@
            &&& out.created == v@
            &&& out.follow == Some(sid@)
            &&& model@.len() > 0 ==> out.app.model == model@
            &&& out.app.ctx == context_of(v@)
            &&& out.app.todos == todos_of(v@)
            &&& out.app.messages[0].text == resumed_text(sid@, quente)
        }),
        ({
            let out = applied(a, created, UiUpdate::NewSession { created: v, sid, model });
            &&& out.app.session_id == sid@
            &&& out.created == v@
            &&& out.follow == Some(sid@)
            &&& model@.len() > 0 ==> out.app.model == model@
            &&& contains(out.app.messages[0].text, sid@)
        }),
{
    broadcast use group_contains;

    reveal(switched);
}

/// What is said of a resumed session: which one, and whether it can go on.
pub proof fn law_resumed_text(sid: Seq<char>)
    ensures
        contains(resumed_text(sid, true), sid8(sid)),
        contains(resumed_text(sid, false), sid8(sid)),
        contains(resumed_text(sid, true), " (quente — pode enviar)"@),
        contains(resumed_text(sid, false), " (leitura — R1)"@),
{
    broadcast use group_contains;

}

/// A message that must wait is the last of the queue.
pub proof fn law_queued_last(a: TuiAppView, text: Seq<char>)
    ensures
        queued(a, text).queue.last() == text,
        queued(a, text).queue.drop_last() == a.queue,
        queued(a, text).messages == a.messages,
{
    assert(queued(a, text).queue.drop_last() =~= a.queue);
}

/// What is lost is told with how much it was.
pub proof fn law_losses_are_counted(n: usize)
    ensures
        contains(dropped_text(n), dec(n as nat)),
        contains(queue_lost_text(n as nat), dec(n as nat)),
{
    broadcast use group_contains;

}

/// A fresh interface is that of its session and workspace, and holds nothing.
pub proof fn law_fresh_app(sid: Seq<char>, ws: Seq<char>, read_only: bool)
    ensures
        fresh_app(sid, ws, read_only).session_id == sid,
        fresh_app(sid, ws, read_only).workspace == ws,
        fresh_app(sid, ws, read_only).read_only == read_only,
        fresh_app(sid, ws, read_only).messages.len() == 0,
        fresh_app(sid, ws, read_only).queue.len() == 0,
        fresh_app(sid, ws, read_only).follow,
        !fresh_app(sid, ws, read_only).working,
{
}

/// The list of sessions opens empty, is filled with the sessions in their order,
/// and closes.
pub proof fn law_list_opens_and_closes(a: TuiAppView, rows: Seq<SessionRowView>)
    ensures
        picker_opened(a).picker matches Some(p) && p.rows is None,
        picker_filled(picker_opened(a), rows).picker matches Some(p) && p.rows == Some(rows)
            && p.selected == 0,
        picker_closed(a).picker is None,
        a.picker is None ==> picker_filled(a, rows) == a,
        picker_opened(a).messages == a.messages,
{
}

/// Messages read again make the conversation that of the server, and keep what
/// the program said in its own name.
pub proof fn law_reread_follows_server(a: TuiAppView, server: Seq<MsgItemView>)
    requires
        no_system(server),
    ensures
        talk(reread_messages(a, server).messages).len() == server.len(),
        agree(talk(reread_messages(a, server).messages), server),
        reread_messages(a, server).session_id == a.session_id,
        reread_messages(a, server).queue == a.queue,
{
    reveal(reread_messages);
    law_merge_follows_server(a.messages, server);
    law_unchanged_is_untouched(a.messages, server);
    let list = merged(a.messages, server).0;
    reveal(Seq::filter);
    match merged(a.messages, server).1 {
        MergeResult::Replaced { dropped_local } => {
            let n = ChatMsgView {
                role: "system"@,
                text: dropped_text(dropped_local),
                kind: MsgKind::Text,
                wire: None,
            };
            assert(list.push(n).drop_last() =~= list);
            assert(talk(list.push(n)) == talk(list));
        },
        _ => {},
    }
}

/// The messages of the session that is shown are taken over; those of another
/// are not.
pub proof fn law_messages_are_taken(
    a: TuiAppView,
    created: JsonView,
    sid: String,
    msgs: Vec<MsgItem>,
    result: MergeResult,
)
    requires
        no_system(msgs.deep_view()),
    ensures
        ({
            let out = applied(a, created, UiUpdate::Messages { sid, msgs, result });
            &&& out.created == created
            &&& out.follow is None
            &&& sid@ == a.session_id ==> talk(out.app.messages).len() == msgs.deep_view().len() && agree(
                talk(out.app.messages),
                msgs.deep_view(),
            )
            &&& sid@ != a.session_id ==> out.app == a
        }),
{
    law_reread_follows_server(a, msgs.deep_view());
}

} // verus!
