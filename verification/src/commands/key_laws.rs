//! What the keys of the terminal interface come to, told from the outside.

use crate::commands::editor::{law_query_is_sought, unbroken};
use crate::commands::keys::{
    affirms, confirmed, edited, entered, interrupts, is_slash, key_taken, keyed, mapped, past_picker,
    past_search, picker_keyed, plainly, search_fed, search_keyed, shortcut, ActView, KeyCode, KeyEnv, KeyEvent, KeyKind,
    TermEvent, TuiKey,
};
use crate::commands::tui::{found_in, PickerView, SearchView, TuiAppView};
use crate::session::listing::SessionRowView;
use crate::text::{ascii_lower, ascii_lower_char, blank, is_white, lemma_trim_solid, trim};
use vstd::prelude::*;

verus! {

/// The state in which keys write into the prompt: no window, no list, no search,
/// no question.
pub open spec fn writes_prompt(a: TuiAppView) -> bool {
    &&& a.overlay is None
    &&& a.picker is None
    &&& !(a.search matches Some(s) && s.open)
    &&& !a.pending_compact
    &&& !a.pending_permission
}

proof fn lemma_plain_key(a: TuiAppView, env: KeyEnv, k: KeyEvent)
    requires
        writes_prompt(a),
    ensures
        keyed(a, env, TermEvent::Key(k)) == key_taken(a, env, mapped(k)),
{
    reveal(keyed);
    reveal(past_picker);
    reveal(past_search);
    reveal(plainly);
}

/// A letter is written into the prompt at the mark.
pub proof fn law_letter_is_written(a: TuiAppView, env: KeyEnv, k: KeyEvent, c: char)
    requires
        writes_prompt(a),
        a.cursor <= a.input.len() < usize::MAX,
        k.code == KeyCode::Char(c),
        k.kind != KeyKind::Release,
        !k.ctrl,
        !k.alt,
    ensures
        ({
            let out = keyed(a, env, TermEvent::Key(k));
            &&& out.app.input == a.input.take(a.cursor as int) + seq![c] + a.input.skip(
                a.cursor as int,
            )
            &&& out.app.cursor == a.cursor + 1
            &&& out.act is None
            &&& out.app.messages == a.messages
        }),
{
    lemma_plain_key(a, env, k);
    reveal(edited);
}

/// A key that is let go does nothing at the prompt.
pub proof fn law_release_does_nothing(a: TuiAppView, env: KeyEnv, k: KeyEvent)
    requires
        writes_prompt(a),
        k.kind == KeyKind::Release,
    ensures
        keyed(a, env, TermEvent::Key(k)).app == a,
        keyed(a, env, TermEvent::Key(k)).act is None,
{
    lemma_plain_key(a, env, k);
    reveal(edited);
    reveal(shortcut);
}

/// A paste is written into the prompt at the mark, with plain line breaks.
pub proof fn law_paste_is_written(a: TuiAppView, env: KeyEnv, t: String)
    requires
        writes_prompt(a),
        a.cursor <= a.input.len(),
    ensures
        keyed(a, env, TermEvent::Paste(t)).app.input == a.input.take(a.cursor as int) + unbroken(t@)
            + a.input.skip(a.cursor as int),
        keyed(a, env, TermEvent::Paste(t)).act is None,
{
    reveal(keyed);
    reveal(past_picker);
    reveal(past_search);
    reveal(plainly);
}

/// Enter sends what is written where a turn can start: whole, and the prompt is
/// empty after it.
pub proof fn law_enter_sends(a: TuiAppView, env: KeyEnv, k: KeyEvent)
    requires
        writes_prompt(a),
        mapped(k) == TuiKey::Enter,
        !blank(a.input),
        !is_slash(a.input),
        a.session_ready,
        !a.read_only,
        !a.runtime_dead,
        !a.working,
        env.runtime_up,
    ensures
        keyed(a, env, TermEvent::Key(k)).act == Some(ActView::Turn(a.input)),
        keyed(a, env, TermEvent::Key(k)).app.input.len() == 0,
{
    lemma_plain_key(a, env, k);
    reveal(edited);
    reveal(shortcut);
    reveal(entered);
}

/// While a turn runs Enter puts what is written at the end of the queue.
pub proof fn law_enter_queues(a: TuiAppView, env: KeyEnv, k: KeyEvent)
    requires
        writes_prompt(a),
        mapped(k) == TuiKey::Enter,
        !blank(a.input),
        !is_slash(a.input),
        a.session_ready,
        !a.read_only,
        !a.runtime_dead,
        a.working,
    ensures
        keyed(a, env, TermEvent::Key(k)).act is None,
        keyed(a, env, TermEvent::Key(k)).app.queue == a.queue.push(trim(a.input)),
        keyed(a, env, TermEvent::Key(k)).app.input.len() == 0,
{
    lemma_plain_key(a, env, k);
    reveal(edited);
    reveal(shortcut);
    reveal(entered);
}

/// A command is run as it is written, but for white space around it.
pub proof fn law_enter_runs_commands(a: TuiAppView, env: KeyEnv, k: KeyEvent)
    requires
        writes_prompt(a),
        mapped(k) == TuiKey::Enter,
        !blank(a.input),
        is_slash(a.input),
        a.session_ready,
        env.runtime_up,
    ensures
        keyed(a, env, TermEvent::Key(k)).act == Some(ActView::Slash(trim(a.input))),
{
    lemma_plain_key(a, env, k);
    reveal(edited);
    reveal(shortcut);
    reveal(entered);
}

/// Where nothing can be sent, nothing is: a session that is only read, a runtime
/// that is dead or not there, give the text back.
pub proof fn law_enter_gives_back(a: TuiAppView, env: KeyEnv, k: KeyEvent)
    requires
        writes_prompt(a),
        mapped(k) == TuiKey::Enter,
        !blank(a.input),
        !is_slash(a.input),
        a.read_only || a.runtime_dead || !a.session_ready || (!env.runtime_up && !a.working),
    ensures
        keyed(a, env, TermEvent::Key(k)).act is None,
        keyed(a, env, TermEvent::Key(k)).app.input == a.input,
        keyed(a, env, TermEvent::Key(k)).app.queue == a.queue,
{
    lemma_plain_key(a, env, k);
    reveal(edited);
    reveal(shortcut);
    reveal(entered);
}

/// In the list Enter turns to the session under the mark, and the arrows move
/// the mark by one.
pub proof fn law_list_keys(a: TuiAppView, env: KeyEnv, k: KeyEvent, p: PickerView, rows: Seq<SessionRowView>, i: int)
    requires
        a.overlay is None,
        a.picker == Some(p),
        p.rows == Some(rows),
        0 <= i < rows.len() <= usize::MAX,
        p.selected == i,
        !interrupts(TermEvent::Key(k)),
    ensures
        ({
            let out = keyed(a, env, TermEvent::Key(k));
            &&& mapped(k) == TuiKey::Enter && env.runtime_up ==> out.act == Some(
                ActView::Switch(rows[i].id),
            ) && out.app.picker is None
            &&& mapped(k) == TuiKey::Enter && !env.runtime_up ==> out.act is None
            &&& mapped(k) == TuiKey::Down && i + 1 < rows.len() ==> (out.app.picker matches Some(q)
                && q.selected == i + 1 && q.rows == p.rows)
            &&& mapped(k) == TuiKey::Up && i > 0 ==> (out.app.picker matches Some(q) && q.selected
                == i - 1 && q.rows == p.rows)
            &&& mapped(k) == TuiKey::Esc ==> out.app.picker is None && out.act is None
        }),
{
    reveal(keyed);
    reveal(past_picker);
    reveal(picker_keyed);
}

/// Escape stops a turn that runs, and only such a one.
pub proof fn law_escape_stops(a: TuiAppView, env: KeyEnv, k: KeyEvent)
    requires
        writes_prompt(a),
        mapped(k) == TuiKey::Esc,
    ensures
        env.turn_running ==> keyed(a, env, TermEvent::Key(k)).act == Some(
            ActView::Abort { stop: env.runtime_up },
        ) && !keyed(a, env, TermEvent::Key(k)).app.working,
        !env.turn_running ==> keyed(a, env, TermEvent::Key(k)).act is None && keyed(
            a,
            env,
            TermEvent::Key(k),
        ).app == a,
{
    lemma_plain_key(a, env, k);
    reveal(edited);
    reveal(shortcut);
}

/// A new session is made, or where there is none yet the first one; the numbers
/// are asked for.
pub proof fn law_shortcuts_ask(a: TuiAppView, env: KeyEnv, k: KeyEvent)
    requires
        writes_prompt(a),
        env.runtime_up,
    ensures
        mapped(k) == TuiKey::CtrlN && a.session_ready ==> keyed(a, env, TermEvent::Key(k)).act
            == Some(ActView::Create),
        mapped(k) == TuiKey::CtrlN && !a.session_ready && !a.booting ==> keyed(
            a,
            env,
            TermEvent::Key(k),
        ).act == Some(ActView::Boot) && keyed(a, env, TermEvent::Key(k)).app.booting,
        mapped(k) == TuiKey::CtrlN && !a.session_ready && a.booting ==> keyed(
            a,
            env,
            TermEvent::Key(k),
        ).act is None,
        mapped(k) == TuiKey::CtrlU ==> keyed(a, env, TermEvent::Key(k)).act == Some(ActView::Usage),
{
    lemma_plain_key(a, env, k);
    reveal(edited);
    reveal(shortcut);
}

/// A question about compacting is answered by one key: a yes compacts, any other
/// letter does not, and the question is gone.
pub proof fn law_compact_answer(a: TuiAppView, env: KeyEnv, k: KeyEvent)
    requires
        a.overlay is None,
        a.picker is None,
        !(a.search matches Some(s) && s.open),
        a.pending_compact,
        mapped(k) is Char,
    ensures
        ({
            let out = keyed(a, env, TermEvent::Key(k));
            &&& !out.app.pending_compact
            &&& env.runtime_up ==> (out.act == Some(ActView::Compact) <==> affirms(mapped(k)))
            &&& !affirms(mapped(k)) ==> out.act is None
        }),
{
    reveal(keyed);
    reveal(past_picker);
    reveal(past_search);
    reveal(plainly);
    reveal(confirmed);
}

/// The keys that say yes, and one that does not.
pub proof fn law_yes_keys(c: char)
    ensures
        c == 'y' || c == 'Y' || c == 's' || c == 'S' ==> affirms(TuiKey::Char(c)),
        c == 'n' || c == 'N' ==> !affirms(TuiKey::Char(c)),
        !affirms(TuiKey::Enter),
{
    reveal_strlit("y");
    reveal_strlit("s");
    reveal_strlit("yes");
    reveal_strlit("sim");
    assert("y"@.len() == 1 && "s"@.len() == 1 && "yes"@.len() == 3 && "sim"@.len() == 3);
    if !is_white(c) {
        lemma_trim_solid(seq![c]);
        let t = ascii_lower(seq![c]);
        assert(t.len() == 1 && t[0] == ascii_lower_char(c));
        if c == 'y' || c == 'Y' {
            assert(t =~= "y"@);
        }
        if c == 's' || c == 'S' {
            assert(t =~= "s"@);
        }
        if c == 'n' || c == 'N' {
            assert(t[0] == 'n');
            assert("y"@[0] == 'y' && "s"@[0] == 's');
        }
    }
}

/// Keys mean what is written on them: a plain Enter sends, one with another key
/// makes a new line, a letter is itself, and with control it is a command.
pub proof fn law_keys_mean(k: KeyEvent, c: char)
    requires
        k.kind != KeyKind::Release,
    ensures
        k.code == KeyCode::Enter ==> mapped(k) == if k.ctrl || k.shift || k.alt {
            TuiKey::Newline
        } else {
            TuiKey::Enter
        },
        k.code == KeyCode::Char(c) && !k.ctrl && !k.alt ==> mapped(k) == TuiKey::Char(c),
        k.code == KeyCode::Char('c') && k.ctrl ==> mapped(k) == TuiKey::CtrlC,
        k.code == KeyCode::Char('n') && k.ctrl ==> mapped(k) == TuiKey::CtrlN,
        k.code == KeyCode::Char('u') && k.ctrl ==> mapped(k) == TuiKey::CtrlU,
        k.code == KeyCode::Char('f') && k.ctrl ==> mapped(k) == TuiKey::CtrlF,
        k.code == KeyCode::Char('j') && k.ctrl ==> mapped(k) == TuiKey::Newline,
        k.code == KeyCode::Backspace ==> mapped(k) == TuiKey::Backspace,
        k.code == KeyCode::Delete ==> mapped(k) == TuiKey::Delete,
        k.code == KeyCode::Left ==> mapped(k) == TuiKey::Left,
        k.code == KeyCode::Right ==> mapped(k) == TuiKey::Right,
        k.code == KeyCode::Up && !k.ctrl ==> mapped(k) == TuiKey::Up,
        k.code == KeyCode::Down && !k.ctrl ==> mapped(k) == TuiKey::Down,
        k.code == KeyCode::PageUp ==> mapped(k) == TuiKey::PageUp,
        k.code == KeyCode::PageDown ==> mapped(k) == TuiKey::PageDown,
        k.code == KeyCode::Esc ==> mapped(k) == TuiKey::Esc,
{
}

/// The keys that edit the prompt: Backspace takes the character before the mark,
/// Delete the one at it, the arrows move the mark by one, a new line is written.
pub proof fn law_editing_keys(a: TuiAppView, env: KeyEnv, k: KeyEvent)
    requires
        writes_prompt(a),
        a.cursor <= a.input.len() < usize::MAX,
    ensures
        ({
            let out = keyed(a, env, TermEvent::Key(k)).app;
            let c = a.cursor as int;
            &&& mapped(k) == TuiKey::Backspace && c > 0 ==> out.input == a.input.take(c - 1)
                + a.input.skip(c) && out.cursor == c - 1
            &&& mapped(k) == TuiKey::Delete && c < a.input.len() ==> out.input == a.input.take(c)
                + a.input.skip(c + 1) && out.cursor == c
            &&& mapped(k) == TuiKey::Left && c > 0 ==> out.cursor == c - 1 && out.input == a.input
            &&& mapped(k) == TuiKey::Right && c < a.input.len() ==> out.cursor == c + 1 && out.input
                == a.input
            &&& mapped(k) == TuiKey::Newline ==> out.input == a.input.take(c) + seq!['\n']
                + a.input.skip(c)
            &&& mapped(k) == TuiKey::PageUp ==> !out.follow && out.scroll <= a.scroll
            &&& mapped(k) == TuiKey::PageDown ==> out.scroll >= a.scroll
            &&& mapped(k) == TuiKey::End ==> out.follow
            &&& mapped(k) == TuiKey::Home ==> out.scroll == 0 && !out.follow
        }),
{
    lemma_plain_key(a, env, k);
    reveal(edited);
}

/// In a search letters go into what is sought, and Escape gives the prompt back.
pub proof fn law_search_keys(a: TuiAppView, env: KeyEnv, k: KeyEvent, s: SearchView, c: char)
    requires
        a.overlay is None,
        a.picker is None,
        a.search == Some(s),
        s.open,
        s.cursor == s.query.len(),
        s.query.len() < usize::MAX,
        !interrupts(TermEvent::Key(k)),
    ensures
        mapped(k) == TuiKey::Char(c) ==> (keyed(a, env, TermEvent::Key(k)).app.search matches Some(r)
            && r.query == s.query.push(c) && r.matches == found_in(a.messages, s.query.push(c))),
        mapped(k) == TuiKey::Esc ==> keyed(a, env, TermEvent::Key(k)).app.search is None && keyed(
            a,
            env,
            TermEvent::Key(k),
        ).app.input == s.saved,
        mapped(k) == TuiKey::Enter ==> (keyed(a, env, TermEvent::Key(k)).app.search matches Some(r)
            && !r.open && r.query == s.query) && keyed(a, env, TermEvent::Key(k)).app.input
            == s.saved,
        keyed(a, env, TermEvent::Key(k)).act is None,
{
    reveal(keyed);
    reveal(past_picker);
    reveal(past_search);
    reveal(search_fed);
    reveal(search_keyed);
    law_query_is_sought(a, s, seq![c]);
    assert(s.query + seq![c] =~= s.query.push(c));
}

} // verus!
