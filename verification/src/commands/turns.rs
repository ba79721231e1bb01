//! The course of a turn in the terminal interface: how it starts, how it ends,
//! and what comes after it.

use crate::commands::merge::{of_system, sent_text};
use crate::commands::poll::runtime_exited_info;
use crate::commands::snapshot::{diff_notice, format_diff_notice, WorkspaceDiff};
use crate::commands::tui::{
    applied, death_taken, notice_taken, noticed, queued, switched, told, TuiApp, TuiAppView,
    UiUpdate,
};
use crate::commands::turn_join_error_notice;
use crate::json::{Json, JsonView};
use crate::notices::{dead_banner, runtime_dead_banner};
use crate::runtime::RuntimeError;
use crate::session::extract::{
    context_of, law_turn_adds_up, measure_turn, parse_context, turn_stats, Usage,
};
use crate::session::todos::{extract_todos, summarize_active_tools, todos_of, tools_summary};
use crate::session::SessionError;
use crate::text::same;
use vstd::prelude::*;

verus! {

/// What a turn left behind.
pub struct TurnOutcome {
    pub before: Usage,
    /// The answer of the server to the prompt.
    pub res: Result<Json, SessionError>,
    pub elapsed_nanos: u128,
    pub after: Result<Usage, SessionError>,
    pub ws_diff: Option<WorkspaceDiff>,
    pub git_stat: Option<String>,
    /// How long the turn took, as it is shown.
    pub timing: String,
}

/// How a turn ended.
pub enum TurnEnd {
    Done(TurnOutcome),
    /// Its task died.
    Died,
}

pub open spec fn numbers_taken(a: TuiAppView, o: TurnOutcome, u: Usage) -> TuiAppView {
    TuiAppView {
        status: o.timing@,
        tokens_in: u.input_tokens,
        tokens_out: u.output_tokens,
        last_usage: Some(u),
        last_stats: Some(turn_stats(o.before, u, o.elapsed_nanos)),
        ..a
    }
}

/// What the answer says of the context and the to-dos is taken over; what it
/// does not mention stays.
pub open spec fn projection_taken(a: TuiAppView, p: JsonView) -> TuiAppView {
    TuiAppView {
        ctx: if context_of(p).window > 0 {
            context_of(p)
        } else {
            a.ctx
        },
        todos: if todos_of(p).len() > 0 {
            todos_of(p)
        } else {
            a.todos
        },
        ..a
    }
}

pub open spec fn tools_taken(a: TuiAppView, p: JsonView) -> TuiAppView {
    match tools_summary(p) {
        Some(t) => noticed(a, t),
        None => a,
    }
}

/// The interface after a turn that got its answer.
pub open spec fn answered(a: TuiAppView, o: TurnOutcome, p: JsonView, u: Usage) -> TuiAppView {
    tools_taken(projection_taken(numbers_taken(a, o, u), p), p)
}

/// The interface after a turn that failed: a dead runtime takes no more.
#[verifier::opaque]
pub open spec fn failed(a: TuiAppView, e: SessionError) -> TuiAppView {
    match e {
        SessionError::Runtime(RuntimeError::Exited(code, tail)) => noticed(
            TuiAppView { runtime_dead: true, status: "runtime morto"@, ..a },
            dead_banner(code, tail@),
        ),
        _ => TuiAppView { status: "turno falhou/parado"@, ..a },
    }
}

/// The interface after the result of a turn.
pub open spec fn result_taken(a: TuiAppView, o: TurnOutcome) -> TuiAppView {
    match (o.res, o.after) {
        (Ok(p), Ok(u)) => answered(a, o, p@, u),
        (Ok(_), Err(_)) => TuiAppView { status: "turno concluído"@, ..a },
        (Err(e), _) => failed(a, e),
    }
}

/// The interface after a turn.
pub open spec fn turn_ended(a: TuiAppView, end: TurnEnd) -> TuiAppView {
    let idle = TuiAppView { working: false, ..a };
    match end {
        TurnEnd::Done(o) => {
            let b = result_taken(idle, o);
            match diff_notice(o.ws_diff, o.git_stat.deep_view()) {
                Some(t) => noticed(b, t),
                None => b,
            }
        },
        TurnEnd::Died => noticed(
            TuiAppView { status: "turno interrompido (erro interno)"@, ..idle },
            "⚠ turno terminou inesperadamente (erro interno — detalhes no log; rode zcode-cli doctor)"@,
        ),
    }
}

/// Whether a waiting message is sent now: not to a dead runtime, nor without
/// one.
pub open spec fn sends_next(a: TuiAppView, runtime_up: bool) -> bool {
    a.queue.len() > 0 && !a.runtime_dead && runtime_up
}

/// The interface as the message that waited longest leaves the queue.
pub open spec fn next_taken(a: TuiAppView) -> TuiAppView {
    noticed(TuiAppView { queue: a.queue.drop_first(), ..a }, "enviando mensagem da fila…"@)
}

fn take_numbers(app: &mut TuiApp, o: &TurnOutcome, u: &Usage)
    ensures
        final(app)@ == numbers_taken(old(app)@, *o, *u),
{
    app.status = o.timing.clone();
    app.set_usage(u.input_tokens, u.output_tokens);
    app.last_usage = Some(*u);
    app.last_stats = Some(measure_turn(&o.before, u, o.elapsed_nanos));
}

fn take_projection(app: &mut TuiApp, p: &Json)
    ensures
        final(app)@ == projection_taken(old(app)@, p@),
{
    let c = parse_context(p);
    if c.window > 0 {
        app.ctx = c;
    }
    let todos = extract_todos(p);
    if todos.len() > 0 {
        app.todos = todos;
    }
}

fn take_tools(app: &mut TuiApp, p: &Json)
    ensures
        final(app)@ == tools_taken(old(app)@, p@),
{
    match summarize_active_tools(p) {
        Some(t) => {
            app.notice(t.as_str());
        },
        None => {},
    }
}

fn take_answer(app: &mut TuiApp, o: &TurnOutcome, p: &Json, u: &Usage)
    ensures
        final(app)@ == answered(old(app)@, *o, p@, *u),
{
    take_numbers(app, o, u);
    take_projection(app, p);
    take_tools(app, p);
}

fn take_failure(app: &mut TuiApp, e: &SessionError)
    ensures
        final(app)@ == failed(old(app)@, *e),
{
    reveal(failed);
    match runtime_exited_info(e) {
        Some((code, tail)) => {
            app.runtime_dead = true;
            app.status = "runtime morto".to_owned();
            let b = runtime_dead_banner(code, tail.as_str());
            app.notice(b.as_str());
        },
        None => {
            app.status = "turno falhou/parado".to_owned();
        },
    }
}

fn take_result(app: &mut TuiApp, o: &TurnOutcome)
    ensures
        final(app)@ == result_taken(old(app)@, *o),
{
    match (&o.res, &o.after) {
        (Ok(p), Ok(u)) => {
            take_answer(app, o, p, u);
        },
        (Ok(_), Err(_)) => {
            app.status = "turno concluído".to_owned();
        },
        (Err(e), _) => {
            take_failure(app, e);
        },
    }
}

/// Takes in the end of a turn.
pub fn end_turn(app: &mut TuiApp, end: &TurnEnd)
    ensures
        final(app)@ == turn_ended(old(app)@, *end),
{
    app.working = false;
    match end {
        TurnEnd::Done(o) => {
            take_result(app, o);
            let git = match &o.git_stat {
                Some(g) => Some(g.as_str()),
                None => None,
            };
            match format_diff_notice(o.ws_diff.as_ref(), git) {
                Some(t) => {
                    app.notice(t.as_str());
                },
                None => {},
            }
        },
        TurnEnd::Died => {
            app.status = "turno interrompido (erro interno)".to_owned();
            let t = turn_join_error_notice();
            app.notice(t.as_str());
        },
    }
}

/// After a turn, takes the message that is sent next, if one is.
pub fn next_turn(app: &mut TuiApp, runtime_up: bool) -> (r: Option<String>)
    ensures
        if sends_next(old(app)@, runtime_up) {
            r matches Some(t) && t@ == old(app)@.queue[0] && final(app)@ == next_taken(old(app)@)
        } else {
            r is None && final(app)@ == old(app)@
        },
{
    if app.queue.len() == 0 || app.runtime_dead || !runtime_up {
        return None;
    }
    let r = app.next_queued();
    app.notice("enviando mensagem da fila…");
    r
}

// ---------------------------------------------------------------- start

/// The interface with a warning for each text.
pub open spec fn warned(a: TuiAppView, warnings: Seq<Seq<char>>) -> TuiAppView
    decreases warnings.len(),
{
    if warnings.len() == 0 {
        a
    } else {
        noticed(warned(a, warnings.drop_last()), warnings.last())
    }
}

/// The interface as a turn starts: the prompt stands in the transcript as it
/// was typed, with what is sent where that differs.
pub open spec fn turn_started(
    a: TuiAppView,
    text: Seq<char>,
    sent: Seq<char>,
    warnings: Seq<Seq<char>>,
) -> TuiAppView {
    let b = told(
        warned(a, warnings),
        "user"@,
        text,
        if sent == text {
            None
        } else {
            Some(sent)
        },
    );
    TuiAppView {
        prompt_history: b.prompt_history.push(text),
        recalled: None,
        draft: Seq::empty(),
        working: true,
        status: "working…"@,
        ..b
    }
}

/// Starts a turn: `sent` is what goes to the server for the prompt `text`.
pub fn start_turn(app: &mut TuiApp, text: &str, sent: &str, warnings: &Vec<String>)
    ensures
        final(app)@ == turn_started(old(app)@, text@, sent@, warnings.deep_view()),
{
    let ghost a = app@;
    let ghost all = warnings.deep_view();
    let mut i: usize = 0;
    while i < warnings.len()
        invariant
            i <= warnings@.len(),
            all == warnings.deep_view(),
            app@ == warned(a, all.take(i as int)),
        decreases warnings@.len() - i,
    {
        app.notice(warnings[i].as_str());
        proof {
            assert(all.take(i + 1).drop_last() =~= all.take(i as int));
            assert(all.take(i + 1).last() == warnings@[i as int]@);
        }
        i = i + 1;
    }
    assert(all.take(all.len() as int) =~= all);
    let wire = if same(sent, text) {
        None
    } else {
        Some(sent.to_owned())
    };
    app.push_msg_with_wire("user", text, wire);
    app.remember_prompt(text);
    app.working = true;
    app.status = "working…".to_owned();
}

// ---------------------------------------------------------------- first session

/// Whether a wish for a session has to wait: there is none, and one is being
/// made.
pub fn boot_single_flight_trava(session_ready: bool, booting: bool) -> (r: bool)
    ensures
        r == (!session_ready && booting),
{
    !session_ready && booting
}

// ---------------------------------------------------------------- laws

/// A session that is left leaves nothing behind: no waiting message, window,
/// search, usage or statistics of it; and no message but the program's own.
pub proof fn law_switch_leaves_nothing(
    a: TuiAppView,
    created: JsonView,
    sid: Seq<char>,
    model: Seq<char>,
    status: Seq<char>,
    notice: Seq<char>,
)
    ensures
        ({
            let b = switched(a, created, sid, model, status, notice);
            &&& b.session_id == sid
            &&& b.queue.len() == 0
            &&& b.overlay is None
            &&& b.search is None
            &&& b.last_usage is None
            &&& b.last_stats is None
            &&& b.scroll == 0 && b.follow
            &&& b.todos == todos_of(created)
            &&& b.session_ready && !b.booting && !b.runtime_dead
            &&& b.messages.len() == if a.queue.len() > 0 {
                2int
            } else {
                1
            }
            &&& forall|i: int| 0 <= i < b.messages.len() ==> of_system(#[trigger] b.messages[i])
        }),
{
    reveal(switched);
}

/// An open search line gives the input back when its session is left.
pub proof fn law_switch_restores_input(
    a: TuiAppView,
    created: JsonView,
    sid: Seq<char>,
    model: Seq<char>,
    status: Seq<char>,
    notice: Seq<char>,
)
    ensures
        switched(a, created, sid, model, status, notice).input == match a.search {
            Some(s) => if s.open {
                s.saved
            } else {
                a.input
            },
            None => a.input,
        },
{
    reveal(switched);
}

/// Messages of a session that was left change nothing.
pub proof fn law_stale_messages_ignored(a: TuiAppView, created: JsonView, u: UiUpdate)
    requires
        u matches UiUpdate::Messages { sid, msgs, result } && sid@ != a.session_id,
    ensures
        applied(a, created, u).app == a,
        applied(a, created, u).follow is None,
{
}

/// Whatever the attempt at a first session comes to, another can be made.
pub proof fn law_boot_is_unlocked(a: TuiAppView, created: JsonView, u: UiUpdate)
    requires
        u is NewSession || u is ResumedSession || u is Notice || u is RuntimeDead,
    ensures
        !applied(a, created, u).app.booting,
{
    reveal(switched);
    reveal(notice_taken);
    reveal(death_taken);
}

/// Only an update that switches the session turns the poller, and to that
/// session.
pub proof fn law_poller_follows_session(a: TuiAppView, created: JsonView, u: UiUpdate)
    ensures
        applied(a, created, u).follow matches Some(sid) ==> applied(a, created, u).app.session_id
            == sid,
        applied(a, created, u).follow is None ==> applied(a, created, u).app.session_id
            == a.session_id,
{
    reveal(switched);
    reveal(notice_taken);
    reveal(death_taken);
    reveal(crate::commands::tui::usage_taken);
    reveal(crate::commands::tui::sessions_taken);
    reveal(crate::commands::tui::reread_messages);
}

/// However a turn ends, the interface is free again, and the messages that
/// wait are all still there.
pub proof fn law_turn_end_frees(a: TuiAppView, end: TurnEnd)
    ensures
        !turn_ended(a, end).working,
        turn_ended(a, end).queue == a.queue,
        turn_ended(a, end).session_id == a.session_id,
{
    reveal(failed);
}

/// The interface after messages were put in the queue one after the other.
pub open spec fn all_queued(a: TuiAppView, texts: Seq<Seq<char>>) -> TuiAppView
    decreases texts.len(),
{
    if texts.len() == 0 {
        a
    } else {
        queued(all_queued(a, texts.drop_last()), texts.last())
    }
}

/// The interface after `n` messages left the queue.
pub open spec fn all_taken(a: TuiAppView, n: nat) -> TuiAppView
    decreases n,
{
    if n == 0 {
        a
    } else {
        next_taken(all_taken(a, (n - 1) as nat))
    }
}

proof fn lemma_all_queued(a: TuiAppView, texts: Seq<Seq<char>>)
    ensures
        all_queued(a, texts).queue == a.queue + texts,
        all_queued(a, texts).runtime_dead == a.runtime_dead,
    decreases texts.len(),
{
    if texts.len() > 0 {
        lemma_all_queued(a, texts.drop_last());
        assert(a.queue + texts =~= (a.queue + texts.drop_last()).push(texts.last()));
    } else {
        assert(a.queue + texts =~= a.queue);
    }
}

proof fn lemma_all_taken(a: TuiAppView, n: nat)
    requires
        n <= a.queue.len(),
    ensures
        all_taken(a, n).queue == a.queue.skip(n as int),
        all_taken(a, n).runtime_dead == a.runtime_dead,
    decreases n,
{
    if n > 0 {
        lemma_all_taken(a, (n - 1) as nat);
        assert(a.queue.skip(n - 1).drop_first() =~= a.queue.skip(n as int));
    } else {
        assert(a.queue.skip(0) =~= a.queue);
    }
}

/// Messages are sent in the order in which they were written: of those put in
/// the queue, each is the next to go once what was before it has left, as long
/// as the runtime is there; and then nothing waits.
pub proof fn law_queue_in_order(a: TuiAppView, texts: Seq<Seq<char>>, i: nat)
    requires
        i < texts.len(),
    ensures
        all_taken(all_queued(a, texts), a.queue.len() + i).queue[0] == texts[i as int],
        !a.runtime_dead ==> sends_next(all_taken(all_queued(a, texts), a.queue.len() + i), true),
        all_taken(all_queued(a, texts), a.queue.len() + texts.len()).queue.len() == 0,
{
    let b = all_queued(a, texts);
    lemma_all_queued(a, texts);
    lemma_all_taken(b, a.queue.len() + i);
    lemma_all_taken(b, a.queue.len() + texts.len());
}

/// A dead runtime is sent nothing: the messages stay in the queue.
pub proof fn law_dead_runtime_keeps_queue(a: TuiAppView, e: SessionError, runtime_up: bool)
    requires
        e matches SessionError::Runtime(RuntimeError::Exited(code, tail)),
    ensures
        !sends_next(failed(a, e), runtime_up),
        failed(a, e).queue == a.queue,
{
    reveal(failed);
}

/// Warnings are told one after the other, in their order.
pub proof fn law_warned_in_order(a: TuiAppView, warnings: Seq<Seq<char>>, i: int)
    requires
        0 <= i < warnings.len(),
    ensures
        warned(a, warnings).messages.len() == a.messages.len() + warnings.len(),
        warned(a, warnings).messages[a.messages.len() + i].text == warnings[i],
        a.messages.is_prefix_of(warned(a, warnings).messages),
    decreases warnings.len(),
{
    let before = warnings.drop_last();
    if before.len() == 0 {
        assert(warned(a, before) == a);
    } else if i < before.len() {
        law_warned_in_order(a, before, i);
    } else {
        law_warned_in_order(a, before, 0);
    }
}

/// A turn shows what the user wrote, as the last message and as the last prompt;
/// what was sent is kept beside it only where it differs.
pub proof fn law_turn_shows_the_prompt(
    a: TuiAppView,
    text: Seq<char>,
    sent: Seq<char>,
    warnings: Seq<Seq<char>>,
)
    ensures
        ({
            let b = turn_started(a, text, sent, warnings);
            &&& b.messages.len() > 0
            &&& b.messages.last().role == "user"@
            &&& b.messages.last().text == text
            &&& sent_text(b.messages.last()) == sent
            &&& b.prompt_history == a.prompt_history.push(text)
            &&& b.working
            &&& b.recalled is None
            &&& b.queue == a.queue
        }),
{
    lemma_warned_keeps(a, warnings);
}

proof fn lemma_warned_keeps(a: TuiAppView, warnings: Seq<Seq<char>>)
    ensures
        warned(a, warnings).prompt_history == a.prompt_history,
        warned(a, warnings).queue == a.queue,
    decreases warnings.len(),
{
    if warnings.len() > 0 {
        lemma_warned_keeps(a, warnings.drop_last());
    }
}

/// A turn that was answered leaves the numbers of the server, and what it took
/// added to what was used before is what is used now.
pub proof fn law_turn_leaves_its_numbers(a: TuiAppView, o: TurnOutcome, u: Usage)
    ensures
        ({
            let b = numbers_taken(a, o, u);
            &&& b.tokens_in == u.input_tokens
            &&& b.tokens_out == u.output_tokens
            &&& b.last_usage == Some(u)
            &&& b.status == o.timing@
            &&& o.before.total_tokens <= u.total_tokens ==> (b.last_stats matches Some(s)
                && o.before.total_tokens + s.total_tokens == u.total_tokens)
            &&& o.before.input_tokens <= u.input_tokens ==> (b.last_stats matches Some(s)
                && o.before.input_tokens + s.input_tokens == u.input_tokens)
            &&& o.before.output_tokens <= u.output_tokens ==> (b.last_stats matches Some(s)
                && o.before.output_tokens + s.output_tokens == u.output_tokens)
            &&& b.messages == a.messages
        }),
{
    law_turn_adds_up(o.before, u, o.elapsed_nanos);
}

/// The context and the todos follow the server; where it tells nothing they stay.
pub proof fn law_projection_follows(a: TuiAppView, p: JsonView)
    ensures
        context_of(p).window > 0 ==> projection_taken(a, p).ctx == context_of(p),
        context_of(p).window == 0 ==> projection_taken(a, p).ctx == a.ctx,
        todos_of(p).len() > 0 ==> projection_taken(a, p).todos == todos_of(p),
        todos_of(p).len() == 0 ==> projection_taken(a, p).todos == a.todos,
        tools_summary(p) matches Some(t) ==> tools_taken(a, p).messages.last().text == t,
        tools_summary(p) is None ==> tools_taken(a, p) == a,
{
}

/// What a turn changed in the workspace is the last thing told of it, and is
/// told whenever there is something to tell.
pub proof fn law_turn_tells_its_changes(a: TuiAppView, o: TurnOutcome)
    ensures
        diff_notice(o.ws_diff, o.git_stat.deep_view()) matches Some(t) ==> turn_ended(
            a,
            TurnEnd::Done(o),
        ).messages.len() > 0 && turn_ended(a, TurnEnd::Done(o)).messages.last().text == t,
{
}

/// The next message is taken from the front of the queue.
pub proof fn law_next_is_the_first(a: TuiAppView)
    requires
        a.queue.len() > 0,
    ensures
        seq![a.queue[0]] + next_taken(a).queue == a.queue,
        sends_next(a, true) <==> !a.runtime_dead,
        !sends_next(a, false),
{
    assert(seq![a.queue[0]] + next_taken(a).queue =~= a.queue);
}

/// How a turn ends: with numbers where both the answer and they came, with a
/// dead runtime where it died, else only by its status.
pub proof fn law_turn_outcomes(a: TuiAppView, o: TurnOutcome)
    ensures
        ({
            let b = result_taken(a, o);
            &&& o.res is Ok ==> (o.after matches Ok(u) ==> b.tokens_in == u.input_tokens
                && b.tokens_out == u.output_tokens && b.last_usage == Some(u))
            &&& o.after is Err && o.res is Ok ==> b.tokens_in == a.tokens_in && b.messages == a.messages
            &&& o.res matches Err(SessionError::Runtime(RuntimeError::Exited(code, tail)))
                ==> b.runtime_dead && b.messages.len() == a.messages.len() + 1
            &&& o.res is Ok ==> b.runtime_dead == a.runtime_dead
            &&& a.messages.is_prefix_of(b.messages)
        }),
{
    reveal(failed);
}

} // verus!
