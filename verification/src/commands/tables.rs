//! Lists written for people: sessions, the agent's list of things to do, the
//! messages of a session.

use crate::json::{Json, JsonView};
use crate::session::extract::{
    display_items, extract_text_messages, text_or_empty, texts_of, ContextUsage,
};
use crate::session::history::{HistoryEntry, HistoryEntryView};
use crate::session::listing::{SessionRow, SessionRowView};
use crate::session::todos::{TodoItem, TodoItemView, TodoStatus};
use crate::text::{
    contains, dec, decimal, group_contains, join, joined, law_join_holds, law_join_in_order,
    lemma_contains_trans,
};
use vstd::prelude::*;

verus! {

// ---------------------------------------------------------------- sessions

/// One session of a numbered list.
pub open spec fn numbered_row(n: int, r: SessionRowView) -> Seq<char> {
    dec(n as nat) + ") "@ + r.id + "  "@ + r.title + "  ["@ + r.status + "]  "@ + r.created + "\n"@
}

pub open spec fn numbered_rows(rows: Seq<SessionRowView>) -> Seq<Seq<char>> {
    Seq::new(rows.len(), |i: int| numbered_row(i + 1, rows[i]))
}

pub open spec fn numbered_text(rows: Seq<SessionRowView>) -> Seq<char> {
    if rows.len() == 0 {
        "(nenhuma sessão)"@
    } else {
        join(numbered_rows(rows), ""@)
    }
}

/// The sessions to choose from, numbered from one.
pub fn format_session_list_numbered(rows: &Vec<SessionRow>) -> (r: String)
    ensures
        r@ == numbered_text(rows.deep_view()),
{
    if rows.len() == 0 {
        return "(nenhuma sessão)".to_owned();
    }
    let ghost all = numbered_rows(rows.deep_view());
    let mut out: Vec<String> = Vec::new();
    let mut i: usize = 0;
    while i < rows.len()
        invariant
            i <= rows@.len(),
            all == numbered_rows(rows.deep_view()),
            out.deep_view() == all.take(i as int),
        decreases rows@.len() - i,
    {
        let ghost before = out.deep_view();
        let mut s = decimal(i as u64 + 1);
        s.append(") ");
        s.append(rows[i].id.as_str());
        s.append("  ");
        s.append(rows[i].title.as_str());
        s.append("  [");
        s.append(rows[i].status.as_str());
        s.append("]  ");
        s.append(rows[i].created.as_str());
        s.append("\n");
        let ghost one = s@;
        out.push(s);
        proof {
            assert(one == numbered_row(i + 1, rows.deep_view()[i as int]));
            assert(out.deep_view() =~= before.push(one));
            assert(all.take(i + 1) =~= all.take(i as int).push(one));
        }
        i = i + 1;
    }
    assert(all.take(all.len() as int) =~= all);
    joined(&out, "")
}

pub open spec fn table_head() -> Seq<char> {
    "id  titulo  modo  status  data\n"@
}

/// One session of the table.
pub open spec fn table_row(s: JsonView) -> Seq<char> {
    text_or_empty(s, "sessionId"@) + "  "@ + text_or_empty(s, "title"@) + "  "@ + text_or_empty(
        s,
        "mode"@,
    ) + "  "@ + text_or_empty(s, "status"@) + "  "@ + text_or_empty(s, "createdAt"@) + "\n"@
}

pub open spec fn table_rows(list: Seq<JsonView>) -> Seq<Seq<char>> {
    list.map_values(|s: JsonView| table_row(s))
}

/// The sessions of an answer as a table.
pub open spec fn sessions_table(v: JsonView) -> Seq<char> {
    match v.items_at("sessions"@) {
        Some(list) => if list.len() == 0 {
            "(nenhuma sessão)"@
        } else {
            table_head() + join(table_rows(list), ""@)
        },
        None => "(nenhuma sessão)"@,
    }
}

fn append_text(s: &mut String, v: &Json, key: &str, after: &str)
    ensures
        final(s)@ == old(s)@ + text_or_empty(v@, key@) + after@,
{
    match v.str_at(key) {
        Some(t) => s.append(t),
        None => s.append(""),
    }
    s.append(after);
}

fn table_line(v: &Json) -> (r: String)
    ensures
        r@ == table_row(v@),
{
    let mut s = String::new();
    append_text(&mut s, v, "sessionId", "  ");
    append_text(&mut s, v, "title", "  ");
    append_text(&mut s, v, "mode", "  ");
    append_text(&mut s, v, "status", "  ");
    append_text(&mut s, v, "createdAt", "\n");
    assert(s@ =~= table_row(v@));
    s
}

/// The sessions of an answer of the server, as a table.
pub fn format_sessions_table(v: &Json) -> (r: String)
    ensures
        r@ == sessions_table(v@),
{
    let list = match v.array_at("sessions") {
        Some(l) => l,
        None => {
            return "(nenhuma sessão)".to_owned();
        },
    };
    if list.len() == 0 {
        return "(nenhuma sessão)".to_owned();
    }
    let ghost all = table_rows(list.deep_view());
    let mut out: Vec<String> = Vec::new();
    let mut i: usize = 0;
    while i < list.len()
        invariant
            i <= list@.len(),
            all == table_rows(list.deep_view()),
            out.deep_view() == all.take(i as int),
        decreases list@.len() - i,
    {
        let ghost before = out.deep_view();
        let s = table_line(&list[i]);
        let ghost one = s@;
        out.push(s);
        proof {
            assert(one == table_row(list.deep_view()[i as int]));
            assert(out.deep_view() =~= before.push(one));
            assert(all.take(i + 1) =~= all.take(i as int).push(one));
        }
        i = i + 1;
    }
    assert(all.take(all.len() as int) =~= all);
    let mut s = "id  titulo  modo  status  data\n".to_owned();
    let rows = joined(&out, "");
    s.append(rows.as_str());
    s
}

/// Whether an answer lists a session.
pub fn lists_sessions(v: &Json) -> (r: bool)
    ensures
        r == (v@.items_at("sessions"@) matches Some(list) && list.len() > 0),
{
    match v.array_at("sessions") {
        Some(l) => l.len() > 0,
        None => false,
    }
}

/// One session of the local record.
pub open spec fn local_line(e: HistoryEntryView) -> Seq<char> {
    e.session_id + "  "@ + e.title + "  "@ + e.workspace
}

pub open spec fn local_lines(history: Seq<HistoryEntryView>, limit: int) -> Seq<Seq<char>> {
    (if history.len() <= limit {
        history
    } else {
        history.take(limit)
    }).map_values(|e: HistoryEntryView| local_line(e))
}

pub open spec fn local_text(history: Seq<HistoryEntryView>, limit: int) -> Seq<char> {
    if local_lines(history, limit).len() == 0 {
        "(nenhuma sessão)"@
    } else {
        "histórico local:\n"@ + join(local_lines(history, limit), "\n"@)
    }
}

/// The sessions of the local record.
pub fn format_local_history(history: &Vec<HistoryEntry>, limit: u32) -> (r: String)
    ensures
        r@ == local_text(history.deep_view(), limit as int),
{
    let ghost h = history.deep_view();
    let ghost all = h.map_values(|e: HistoryEntryView| local_line(e));
    let mut out: Vec<String> = Vec::new();
    let mut i: usize = 0;
    while i < history.len() && i < limit as usize
        invariant
            i <= history@.len(),
            i <= limit,
            h == history.deep_view(),
            all == h.map_values(|e: HistoryEntryView| local_line(e)),
            out.deep_view() == all.take(i as int),
        decreases history@.len() - i,
    {
        let ghost before = out.deep_view();
        let mut s = history[i].session_id.clone();
        s.append("  ");
        s.append(history[i].title.as_str());
        s.append("  ");
        s.append(history[i].workspace.as_str());
        let ghost one = s@;
        out.push(s);
        proof {
            assert(one == local_line(h[i as int]));
            assert(out.deep_view() =~= before.push(one));
            assert(all.take(i + 1) =~= all.take(i as int).push(one));
        }
        i = i + 1;
    }
    assert(out.deep_view() == local_lines(h, limit as int)) by {
        if h.len() <= limit {
            assert(all.take(i as int) =~= all);
        } else {
            assert(all.take(i as int) =~= h.take(limit as int).map_values(
                |e: HistoryEntryView| local_line(e),
            ));
        }
    }
    assert(out.deep_view().len() == out@.len());
    if out.len() == 0 {
        return "(nenhuma sessão)".to_owned();
    }
    let mut s = "histórico local:\n".to_owned();
    let rows = joined(&out, "\n");
    s.append(rows.as_str());
    s
}

// ---------------------------------------------------------------- todos

pub open spec fn todo_mark(s: TodoStatus) -> Seq<char> {
    match s {
        TodoStatus::Pending => "[ ] "@,
        TodoStatus::InProgress => "[~] "@,
        TodoStatus::Completed => "[x] "@,
    }
}

pub open spec fn todo_lines(ts: Seq<TodoItemView>) -> Seq<Seq<char>> {
    ts.map_values(|t: TodoItemView| todo_mark(t.status) + t.content)
}

pub open spec fn todos_text(ts: Seq<TodoItemView>) -> Seq<char> {
    if ts.len() == 0 {
        "(sem todos)"@
    } else {
        join(todo_lines(ts), "\n"@)
    }
}

/// The agent's list of things to do.
pub fn format_todos(ts: &Vec<TodoItem>) -> (r: String)
    ensures
        r@ == todos_text(ts.deep_view()),
{
    if ts.len() == 0 {
        return "(sem todos)".to_owned();
    }
    let ghost all = todo_lines(ts.deep_view());
    let mut out: Vec<String> = Vec::new();
    let mut i: usize = 0;
    while i < ts.len()
        invariant
            i <= ts@.len(),
            all == todo_lines(ts.deep_view()),
            out.deep_view() == all.take(i as int),
        decreases ts@.len() - i,
    {
        let ghost before = out.deep_view();
        let mut s = match ts[i].status {
            TodoStatus::Pending => "[ ] ",
            TodoStatus::InProgress => "[~] ",
            TodoStatus::Completed => "[x] ",
        }.to_owned();
        s.append(ts[i].content.as_str());
        let ghost one = s@;
        out.push(s);
        proof {
            assert(one == all[i as int]);
            assert(out.deep_view() =~= before.push(one));
            assert(all.take(i + 1) =~= all.take(i as int).push(one));
        }
        i = i + 1;
    }
    assert(all.take(all.len() as int) =~= all);
    joined(&out, "\n")
}

/// How full the context window is.
pub open spec fn context_text(c: ContextUsage) -> Seq<char> {
    "contexto: "@ + dec(c.used as nat) + "/"@ + dec(c.window as nat) + " tokens"@
}

pub fn context_summary_line(c: &ContextUsage) -> (r: String)
    ensures
        r@ == context_text(*c),
{
    let mut s = "contexto: ".to_owned();
    let a = decimal(c.used);
    s.append(a.as_str());
    s.append("/");
    let b = decimal(c.window);
    s.append(b.as_str());
    s.append(" tokens");
    s
}

// ---------------------------------------------------------------- reading

/// How many messages of a resumed session are shown.
pub const READING_MAX: usize = 20;

pub open spec fn message_line(role: Seq<char>, text: Seq<char>) -> Seq<char> {
    role + ": "@ + text
}

/// One message, with its role.
pub fn format_message(role: &str, text: &str) -> (r: String)
    ensures
        r@ == message_line(role@, text@),
{
    let mut s = role.to_owned();
    s.append(": ");
    s.append(text);
    s
}

pub open spec fn reading_lines(list: Seq<(Seq<char>, Seq<char>)>) -> Seq<Seq<char>> {
    (if list.len() <= READING_MAX {
        list
    } else {
        list.take(READING_MAX as int)
    }).map_values(|m: (Seq<char>, Seq<char>)| message_line(m.0, m.1))
}

/// The first messages of a resumed session.
pub open spec fn reading_text(v: JsonView, sid: Seq<char>) -> Seq<char> {
    let list = texts_of(display_items(v));
    if list.len() == 0 {
        "(sessão "@ + sid + " sem mensagens)"@
    } else {
        join(reading_lines(list), "\n"@)
    }
}

/// The first messages of a resumed session, as the server has them.
pub fn show_resumed_reading(messages_result: &Json, sid: &str) -> (r: String)
    ensures
        r@ == reading_text(messages_result@, sid@),
{
    let list = extract_text_messages(messages_result);
    let ghost l = list.deep_view();
    if list.len() == 0 {
        let mut s = "(sessão ".to_owned();
        s.append(sid);
        s.append(" sem mensagens)");
        return s;
    }
    let ghost all = l.map_values(|m: (Seq<char>, Seq<char>)| message_line(m.0, m.1));
    let mut out: Vec<String> = Vec::new();
    let mut i: usize = 0;
    while i < list.len() && i < READING_MAX
        invariant
            i <= list@.len(),
            i <= READING_MAX,
            l == list.deep_view(),
            all == l.map_values(|m: (Seq<char>, Seq<char>)| message_line(m.0, m.1)),
            out.deep_view() == all.take(i as int),
        decreases list@.len() - i,
    {
        let ghost before = out.deep_view();
        let s = format_message(list[i].0.as_str(), list[i].1.as_str());
        let ghost one = s@;
        out.push(s);
        proof {
            assert(l[i as int] == list@[i as int].deep_view());
            assert(one == all[i as int]);
            assert(out.deep_view() =~= before.push(one));
            assert(all.take(i + 1) =~= all.take(i as int).push(one));
        }
        i = i + 1;
    }
    assert(out.deep_view() == reading_lines(l)) by {
        if l.len() <= READING_MAX {
            assert(all.take(i as int) =~= all);
        } else {
            assert(all.take(i as int) =~= l.take(READING_MAX as int).map_values(
                |m: (Seq<char>, Seq<char>)| message_line(m.0, m.1),
            ));
        }
    }
    joined(&out, "\n")
}

// ---------------------------------------------------------------- laws

/// Every session of a list is told with its number, its id, its title, its
/// status and its date.
pub proof fn law_numbered_list_holds(rows: Seq<SessionRowView>, i: int)
    requires
        0 <= i < rows.len(),
    ensures
        contains(numbered_text(rows), dec((i + 1) as nat) + ") "@ + rows[i].id),
        contains(numbered_text(rows), rows[i].title),
        contains(numbered_text(rows), rows[i].status),
        contains(numbered_text(rows), rows[i].created),
{
    broadcast use group_contains;

    let all = numbered_text(rows);
    let row = numbered_row(i + 1, rows[i]);
    law_join_holds(numbered_rows(rows), ""@, i);
    assert(contains(all, row));
    assert(contains(row, dec((i + 1) as nat) + ") "@ + rows[i].id));
    assert(contains(row, rows[i].title));
    assert(contains(row, rows[i].status));
    assert(contains(row, rows[i].created));
    lemma_contains_trans(all, row, dec((i + 1) as nat) + ") "@ + rows[i].id);
    lemma_contains_trans(all, row, rows[i].title);
    lemma_contains_trans(all, row, rows[i].status);
    lemma_contains_trans(all, row, rows[i].created);
}

/// More sessions only add to the end of the list.
pub proof fn law_numbered_list_grows(a: Seq<SessionRowView>, b: Seq<SessionRowView>)
    requires
        a.len() > 0,
    ensures
        numbered_text(a).is_prefix_of(numbered_text(a + b)),
{
    let x = numbered_rows(a);
    let y = numbered_rows(a + b).skip(a.len() as int);
    assert(numbered_rows(a + b) =~= x + y);
    if y.len() > 0 {
        law_join_in_order(x, y, ""@);
    } else {
        assert(x + y =~= x);
    }
}

/// The table of sessions tells of each its id, title, mode, status and date, in
/// the order of the answer.
pub proof fn law_sessions_table_holds(v: JsonView, list: Seq<JsonView>, i: int, id: Seq<char>)
    requires
        v.get("sessions"@) == Some(JsonView::Arr(list)),
        0 <= i < list.len(),
    ensures
        list[i].get("sessionId"@) == Some(JsonView::Str(id)) ==> contains(sessions_table(v), id),
        list[i].get("title"@) == Some(JsonView::Str(id)) ==> contains(sessions_table(v), id),
        list[i].get("mode"@) == Some(JsonView::Str(id)) ==> contains(sessions_table(v), id),
        list[i].get("status"@) == Some(JsonView::Str(id)) ==> contains(sessions_table(v), id),
        list[i].get("createdAt"@) == Some(JsonView::Str(id)) ==> contains(sessions_table(v), id),
{
    broadcast use group_contains;

    let row = table_row(list[i]);
    let all = sessions_table(v);
    law_join_holds(table_rows(list), ""@, i);
    assert(contains(join(table_rows(list), ""@), row));
    assert(contains(all, row));
    if contains(row, id) {
        lemma_contains_trans(all, row, id);
    }
}

/// The rows of the table stand in the order of the answer.
pub proof fn law_sessions_table_grows(
    v: JsonView,
    w: JsonView,
    a: Seq<JsonView>,
    b: Seq<JsonView>,
)
    requires
        a.len() > 0,
        v.get("sessions"@) == Some(JsonView::Arr(a)),
        w.get("sessions"@) == Some(JsonView::Arr(a + b)),
    ensures
        sessions_table(v).is_prefix_of(sessions_table(w)),
{
    let x = table_rows(a);
    let y = table_rows(b);
    assert(table_rows(a + b) =~= x + y);
    if y.len() > 0 {
        law_join_in_order(x, y, ""@);
    } else {
        assert(x + y =~= x);
    }
}

/// The local record is told from its first entry on, as many as asked for.
pub proof fn law_local_text_holds(history: Seq<HistoryEntryView>, limit: nat, i: int)
    requires
        0 <= i < history.len(),
        i < limit,
    ensures
        contains(local_text(history, limit as int), history[i].session_id),
        contains(local_text(history, limit as int), history[i].title),
        contains(local_text(history, limit as int), history[i].workspace),
{
    broadcast use group_contains;

    let ls = local_lines(history, limit as int);
    let all = local_text(history, limit as int);
    law_join_holds(ls, "\n"@, i);
    assert(ls[i] == local_line(history[i]));
    assert(contains(all, join(ls, "\n"@)));
    lemma_contains_trans(all, join(ls, "\n"@), ls[i]);
    assert(contains(ls[i], history[i].session_id));
    assert(contains(ls[i], history[i].title));
    assert(contains(ls[i], history[i].workspace));
    lemma_contains_trans(all, ls[i], history[i].session_id);
    lemma_contains_trans(all, ls[i], history[i].title);
    lemma_contains_trans(all, ls[i], history[i].workspace);
}

/// Every todo is told behind the mark of its state, and no two states have the
/// same mark.
pub proof fn law_todos_text_holds(ts: Seq<TodoItemView>, i: int)
    requires
        0 <= i < ts.len(),
    ensures
        contains(todos_text(ts), todo_mark(ts[i].status) + ts[i].content),
        todo_mark(TodoStatus::Pending) == "[ ] "@,
        todo_mark(TodoStatus::InProgress) == "[~] "@,
        todo_mark(TodoStatus::Completed) == "[x] "@,
{
    law_join_holds(todo_lines(ts), "\n"@, i);
    assert(todo_lines(ts)[i] == todo_mark(ts[i].status) + ts[i].content);
}

/// Todos are told in their order.
pub proof fn law_todos_text_grows(a: Seq<TodoItemView>, b: Seq<TodoItemView>)
    requires
        a.len() > 0,
    ensures
        todos_text(a).is_prefix_of(todos_text(a + b)),
{
    let x = todo_lines(a);
    let y = todo_lines(b);
    assert(todo_lines(a + b) =~= x + y);
    if y.len() > 0 {
        law_join_in_order(x, y, "\n"@);
    } else {
        assert(x + y =~= x);
    }
}

/// The context tells what is used before the window.
pub proof fn law_context_text(c: ContextUsage)
    ensures
        contains(context_text(c), dec(c.used as nat) + "/"@ + dec(c.window as nat)),
{
    broadcast use group_contains;

    let n = dec(c.used as nat) + "/"@ + dec(c.window as nat);
    assert(context_text(c) =~= "contexto: "@ + n + " tokens"@);
}

/// A resumed session is shown from its first message on, each behind its role.
pub proof fn law_reading_holds(v: JsonView, sid: Seq<char>, i: int)
    requires
        0 <= i < texts_of(display_items(v)).len(),
        i < READING_MAX,
    ensures
        contains(
            reading_text(v, sid),
            texts_of(display_items(v))[i].0 + ": "@ + texts_of(display_items(v))[i].1,
        ),
{
    let list = texts_of(display_items(v));
    law_join_holds(reading_lines(list), "\n"@, i);
    assert(reading_lines(list)[i] == message_line(list[i].0, list[i].1));
}

/// A session without messages is told as such, by its id.
pub proof fn law_reading_of_nothing(v: JsonView, sid: Seq<char>)
    requires
        texts_of(display_items(v)).len() == 0,
    ensures
        contains(reading_text(v, sid), sid),
{
    broadcast use group_contains;

}

} // verus!
