//! The agent's checklist and tool activity, as a result reports them.

use crate::json::{Json, JsonView};
use crate::session::extract::projection_of;
use crate::text::{
    ascii_lower, blank, contains, dec, decimal, is_blank, join, joined, law_join_holds, lemma_contains_back,
    lemma_trim_empty_iff_blank, lemma_trim_solid, lowered, same, trim, trimmed,
};
use vstd::prelude::*;

verus! {

/// The state of an item of the checklist.
#[derive(Debug, Clone, Copy, PartialEq, Eq, Structural)]
pub enum TodoStatus {
    Pending,
    InProgress,
    Completed,
}

/// An item of the checklist.
#[derive(Debug, Clone, PartialEq, Eq)]
pub struct TodoItem {
    pub content: String,
    pub status: TodoStatus,
}

pub struct TodoItemView {
    pub content: Seq<char>,
    pub status: TodoStatus,
}

impl DeepView for TodoItem {
    type V = TodoItemView;

    open spec fn deep_view(&self) -> TodoItemView {
        TodoItemView { content: self.content@, status: self.status }
    }
}

/// The state that the server's word stands for; an unknown word is pending.
pub open spec fn status_of_word(raw: Seq<char>) -> TodoStatus {
    let w = ascii_lower(trim(raw));
    if w == "completed"@ || w == "done"@ {
        TodoStatus::Completed
    } else if w == "in-progress"@ || w == "in_progress"@ || w == "inprogress"@ {
        TodoStatus::InProgress
    } else {
        TodoStatus::Pending
    }
}

pub fn todo_status(raw: &str) -> (r: TodoStatus)
    ensures
        r == status_of_word(raw@),
{
    let t = trimmed(raw);
    let w = lowered(t.as_str());
    if same(w.as_str(), "completed") || same(w.as_str(), "done") {
        TodoStatus::Completed
    } else if same(w.as_str(), "in-progress") || same(w.as_str(), "in_progress") || same(
        w.as_str(),
        "inprogress",
    ) {
        TodoStatus::InProgress
    } else {
        TodoStatus::Pending
    }
}

/// The trimmed text under a key, unless it is blank.
pub open spec fn content_at(v: JsonView, key: Seq<char>) -> Option<Seq<char>> {
    match v.text_at(key) {
        Some(t) => if trim(t).len() > 0 {
            Some(trim(t))
        } else {
            None
        },
        None => None,
    }
}

/// The first of `content`, `text` and `label` that says something.
pub open spec fn content_of(v: JsonView) -> Option<Seq<char>> {
    if content_at(v, "content"@) is Some {
        content_at(v, "content"@)
    } else if content_at(v, "text"@) is Some {
        content_at(v, "text"@)
    } else {
        content_at(v, "label"@)
    }
}

fn read_content(v: &Json, key: &str) -> (r: Option<String>)
    ensures
        r.deep_view() == content_at(v@, key@),
{
    match v.str_at(key) {
        Some(t) => {
            let u = trimmed(t);
            if u.as_str().is_empty() {
                None
            } else {
                Some(u)
            }
        },
        None => None,
    }
}

fn todo_content(v: &Json) -> (r: Option<String>)
    ensures
        r.deep_view() == content_of(v@),
{
    match read_content(v, "content") {
        Some(t) => {
            return Some(t);
        },
        None => {},
    }
    match read_content(v, "text") {
        Some(t) => {
            return Some(t);
        },
        None => {},
    }
    read_content(v, "label")
}

/// `status`, else `state`.
pub open spec fn status_of(v: JsonView) -> TodoStatus {
    let s = match v.get("status"@) {
        Some(x) => Some(x),
        None => v.get("state"@),
    };
    match s {
        Some(x) => match x.as_text() {
            Some(t) => status_of_word(t),
            None => TodoStatus::Pending,
        },
        None => TodoStatus::Pending,
    }
}

/// One item: a text that is not blank, pending; or an object with a content and
/// perhaps a state.
pub open spec fn todo_of(v: JsonView) -> Option<TodoItemView> {
    match v.as_text() {
        Some(s) => if trim(s).len() > 0 {
            Some(TodoItemView { content: trim(s), status: TodoStatus::Pending })
        } else {
            None
        },
        None => match content_of(v) {
            Some(c) => Some(TodoItemView { content: c, status: status_of(v) }),
            None => None,
        },
    }
}

fn todo_from_value(v: &Json) -> (r: Option<TodoItem>)
    ensures
        r.deep_view() == todo_of(v@),
{
    match v.as_str() {
        Some(s) => {
            let t = trimmed(s);
            if t.as_str().is_empty() {
                return None;
            }
            return Some(TodoItem { content: t, status: TodoStatus::Pending });
        },
        None => {},
    }
    match todo_content(v) {
        Some(content) => {
            let s = match v.get("status") {
                Some(x) => Some(x),
                None => v.get("state"),
            };
            let status = match s {
                Some(x) => match x.as_str() {
                    Some(t) => todo_status(t),
                    None => TodoStatus::Pending,
                },
                None => TodoStatus::Pending,
            };
            Some(TodoItem { content, status })
        },
        None => None,
    }
}

/// The items of a list that say something, in its order.
pub open spec fn todos_of_list(list: Seq<JsonView>) -> Seq<TodoItemView>
    decreases list.len(),
{
    if list.len() == 0 {
        Seq::empty()
    } else {
        match todo_of(list.last()) {
            Some(t) => todos_of_list(list.drop_last()).push(t),
            None => todos_of_list(list.drop_last()),
        }
    }
}

/// The list inside a group: the first of `todos`, `items` and `tasks` that is
/// one.
pub open spec fn group_list(g: JsonView) -> Option<Seq<JsonView>> {
    if g.items_at("todos"@) is Some {
        g.items_at("todos"@)
    } else if g.items_at("items"@) is Some {
        g.items_at("items"@)
    } else {
        g.items_at("tasks"@)
    }
}

/// The items of one group; a group without a list counts as an item itself.
pub open spec fn todos_of_group(g: JsonView) -> Seq<TodoItemView> {
    match group_list(g) {
        Some(list) => todos_of_list(list),
        None => match todo_of(g) {
            Some(t) => seq![t],
            None => Seq::empty(),
        },
    }
}

pub open spec fn todos_of_groups(groups: Seq<JsonView>) -> Seq<TodoItemView>
    decreases groups.len(),
{
    if groups.len() == 0 {
        Seq::empty()
    } else {
        todos_of_groups(groups.drop_last()) + todos_of_group(groups.last())
    }
}

/// The items directly under `todos`.
pub open spec fn direct_todos(v: JsonView) -> Seq<TodoItemView> {
    match v.items_at("todos"@) {
        Some(list) => todos_of_list(list),
        None => Seq::empty(),
    }
}

/// The items of the groups under `todoGroups`.
pub open spec fn grouped_todos(v: JsonView) -> Seq<TodoItemView> {
    match v.items_at("todoGroups"@) {
        Some(groups) => todos_of_groups(groups),
        None => Seq::empty(),
    }
}

/// The projection inside a result.
pub open spec fn inner_projection(v: JsonView) -> JsonView {
    match v.get("projection"@) {
        Some(p) => p,
        None => JsonView::Null,
    }
}

/// The checklist of a result: the first of these that has an item: its direct
/// items, those of its projection, its grouped items, those of its projection.
pub open spec fn todos_of(v: JsonView) -> Seq<TodoItemView> {
    let p = inner_projection(v);
    if direct_todos(v).len() > 0 {
        direct_todos(v)
    } else if direct_todos(p).len() > 0 {
        direct_todos(p)
    } else if grouped_todos(v).len() > 0 {
        grouped_todos(v)
    } else {
        grouped_todos(p)
    }
}

/// Adds the items of a list.
fn add_items(out: &mut Vec<TodoItem>, list: &Vec<Json>)
    ensures
        final(out).deep_view() == old(out).deep_view() + todos_of_list(list.deep_view()),
{
    let ghost start = out.deep_view();
    let mut i: usize = 0;
    assert(out.deep_view() =~= start + todos_of_list(list.deep_view().take(0)));
    while i < list.len()
        invariant
            i <= list@.len(),
            out.deep_view() == start + todos_of_list(list.deep_view().take(i as int)),
        decreases list@.len() - i,
    {
        proof {
            let t = list.deep_view().take(i + 1);
            assert(t.drop_last() == list.deep_view().take(i as int));
            assert(t.last() == list@[i as int]@);
        }
        let ghost before = out.deep_view();
        match todo_from_value(&list[i]) {
            Some(t) => {
                out.push(t);
                assert(out.deep_view() =~= before.push(t.deep_view()));
                assert(out.deep_view() =~= start + todos_of_list(list.deep_view().take(i + 1)));
            },
            None => {},
        }
        i = i + 1;
    }
    assert(list.deep_view().take(list@.len() as int) == list.deep_view());
}

fn read_direct(v: &Json) -> (r: Vec<TodoItem>)
    ensures
        r.deep_view() == direct_todos(v@),
{
    let mut out: Vec<TodoItem> = Vec::new();
    match v.array_at("todos") {
        Some(list) => {
            add_items(&mut out, list);
            assert(out.deep_view() =~= todos_of_list(list.deep_view()));
        },
        None => {
            assert(out.deep_view() =~= Seq::empty());
        },
    }
    out
}

fn read_grouped(v: &Json) -> (r: Vec<TodoItem>)
    ensures
        r.deep_view() == grouped_todos(v@),
{
    let mut out: Vec<TodoItem> = Vec::new();
    match v.array_at("todoGroups") {
        Some(groups) => {
            let mut i: usize = 0;
            assert(out.deep_view() =~= todos_of_groups(groups.deep_view().take(0)));
            while i < groups.len()
                invariant
                    i <= groups@.len(),
                    out.deep_view() == todos_of_groups(groups.deep_view().take(i as int)),
                decreases groups@.len() - i,
            {
                proof {
                    let t = groups.deep_view().take(i + 1);
                    assert(t.drop_last() == groups.deep_view().take(i as int));
                    assert(t.last() == groups@[i as int]@);
                }
                let ghost before = out.deep_view();
                let g = &groups[i];
                let inner = match g.array_at("todos") {
                    Some(l) => Some(l),
                    None => match g.array_at("items") {
                        Some(l) => Some(l),
                        None => g.array_at("tasks"),
                    },
                };
                match inner {
                    Some(list) => {
                        add_items(&mut out, list);
                    },
                    None => match todo_from_value(g) {
                        Some(t) => {
                            out.push(t);
                            assert(out.deep_view() =~= before + seq![t.deep_view()]);
                        },
                        None => {
                            assert(out.deep_view() =~= before + Seq::empty());
                        },
                    },
                }
                assert(out.deep_view() == before + todos_of_group(g@));
                i = i + 1;
            }
            assert(groups.deep_view().take(groups@.len() as int) == groups.deep_view());
        },
        None => {
            assert(out.deep_view() =~= Seq::empty());
        },
    }
    out
}

/// The checklist of a result of `session/create` or `session/send`.
pub fn extract_todos(create_or_send_result: &Json) -> (r: Vec<TodoItem>)
    ensures
        r.deep_view() == todos_of(create_or_send_result@),
{
    let null = Json::Null;
    let proj = match create_or_send_result.get("projection") {
        Some(p) => p,
        None => &null,
    };
    assert(proj@ == inner_projection(create_or_send_result@));
    let a = read_direct(create_or_send_result);
    assert(a.deep_view().len() == a@.len());
    if a.len() > 0 {
        return a;
    }
    let b = read_direct(proj);
    assert(b.deep_view().len() == b@.len());
    if b.len() > 0 {
        return b;
    }
    let c = read_grouped(create_or_send_result);
    assert(c.deep_view().len() == c@.len());
    if c.len() > 0 {
        return c;
    }
    read_grouped(proj)
}

proof fn lemma_todos_of_list_say_something(list: Seq<JsonView>, i: int)
    requires
        0 <= i < todos_of_list(list).len(),
    ensures
        todos_of_list(list)[i].content.len() > 0,
    decreases list.len(),
{
    let before = todos_of_list(list.drop_last());
    if i < before.len() {
        lemma_todos_of_list_say_something(list.drop_last(), i);
    }
}

proof fn lemma_todos_of_groups_say_something(groups: Seq<JsonView>, i: int)
    requires
        0 <= i < todos_of_groups(groups).len(),
    ensures
        todos_of_groups(groups)[i].content.len() > 0,
    decreases groups.len(),
{
    let before = todos_of_groups(groups.drop_last());
    if i < before.len() {
        lemma_todos_of_groups_say_something(groups.drop_last(), i);
    } else {
        match group_list(groups.last()) {
            Some(list) => {
                lemma_todos_of_list_say_something(list, i - before.len());
            },
            None => {},
        }
    }
}

/// Whatever a result looks like, every item of the checklist read from it says
/// something.
pub proof fn law_todos_say_something(v: JsonView, i: int)
    requires
        0 <= i < todos_of(v).len(),
    ensures
        todos_of(v)[i].content.len() > 0,
{
    let p = inner_projection(v);
    if direct_todos(v).len() > 0 {
        lemma_todos_of_list_say_something(v.items_at("todos"@)->0, i);
    } else if direct_todos(p).len() > 0 {
        lemma_todos_of_list_say_something(p.items_at("todos"@)->0, i);
    } else if grouped_todos(v).len() > 0 {
        lemma_todos_of_groups_say_something(v.items_at("todoGroups"@)->0, i);
    } else {
        lemma_todos_of_groups_say_something(p.items_at("todoGroups"@)->0, i);
    }
}

// ---------------------------------------------------------------- tools

/// The name of a tool call: `name`, else `tool`.
pub open spec fn tool_name(c: JsonView) -> Option<Seq<char>> {
    match c.text_at("name"@) {
        Some(t) => Some(t),
        None => c.text_at("tool"@),
    }
}

/// Whether every call of a list has a name that says something.
pub open spec fn all_named(calls: Seq<JsonView>) -> bool {
    forall|i: int|
        0 <= i < calls.len() ==> (tool_name(#[trigger] calls[i]) matches Some(n) && !blank(n))
}

/// How often each name occurs, in the order of the first occurrences.
pub open spec fn tally(names: Seq<Seq<char>>) -> Seq<(Seq<char>, nat)>
    decreases names.len(),
{
    if names.len() == 0 {
        Seq::empty()
    } else {
        count_in(tally(names.drop_last()), names.last())
    }
}

/// A tally with one more occurrence of a name.
pub open spec fn count_in(t: Seq<(Seq<char>, nat)>, name: Seq<char>) -> Seq<(Seq<char>, nat)>
    decreases t.len(),
{
    if t.len() == 0 {
        seq![(name, 1nat)]
    } else if t[0].0 == name {
        t.update(0, (name, t[0].1 + 1))
    } else {
        seq![t[0]] + count_in(t.drop_first(), name)
    }
}

pub open spec fn tally_line(t: Seq<(Seq<char>, nat)>) -> Seq<char> {
    join(t.map_values(|e: (Seq<char>, nat)| e.0 + " ×"@ + dec(e.1)), ", "@)
}

/// The calls in progress that a result reports: those of its projection, else
/// its own.
pub open spec fn active_calls(v: JsonView) -> Option<Seq<JsonView>> {
    let a = match projection_of(v).get("activeToolCalls"@) {
        Some(x) => Some(x),
        None => v.get("activeToolCalls"@),
    };
    match a {
        Some(x) => x.as_items(),
        None => None,
    }
}

/// The summary of the calls in progress: only where there are some and each
/// has a name that says something.
pub open spec fn tools_summary(v: JsonView) -> Option<Seq<char>> {
    match active_calls(v) {
        Some(calls) => if calls.len() > 0 && all_named(calls) {
            Some(
                "tools neste turno: "@ + tally_line(
                    tally(calls.map_values(|c: JsonView| tool_name(c)->0)),
                ),
            )
        } else {
            None
        },
        None => None,
    }
}

/// A tally as it is kept: names and counts.
pub open spec fn tally_view(v: Seq<(String, usize)>) -> Seq<(Seq<char>, nat)> {
    v.map_values(|e: (String, usize)| (e.0@, e.1 as nat))
}

proof fn lemma_count_in_found(t: Seq<(Seq<char>, nat)>, name: Seq<char>, i: int)
    requires
        0 <= i <= t.len(),
        forall|k: int| 0 <= k < i ==> (#[trigger] t[k]).0 != name,
        i < t.len() ==> t[i].0 == name,
    ensures
        count_in(t, name) == if i < t.len() {
            t.update(i, (name, t[i].1 + 1))
        } else {
            t.push((name, 1nat))
        },
    decreases i,
{
    if i > 0 {
        lemma_count_in_found(t.drop_first(), name, i - 1);
        if i < t.len() {
            assert(seq![t[0]] + t.drop_first().update(i - 1, (name, t[i].1 + 1)) =~= t.update(
                i,
                (name, t[i].1 + 1),
            ));
        } else {
            assert(seq![t[0]] + t.drop_first().push((name, 1nat)) =~= t.push((name, 1nat)));
        }
    } else if t.len() == 0 {
        assert(t.push((name, 1nat)) =~= seq![(name, 1nat)]);
    }
}

/// The sum of the counts of a tally.
pub open spec fn tally_sum(t: Seq<(Seq<char>, nat)>) -> nat
    decreases t.len(),
{
    if t.len() == 0 {
        0
    } else {
        t[0].1 + tally_sum(t.drop_first())
    }
}

proof fn lemma_total_count_in(t: Seq<(Seq<char>, nat)>, name: Seq<char>)
    ensures
        tally_sum(count_in(t, name)) == tally_sum(t) + 1,
    decreases t.len(),
{
    if t.len() == 0 {
        assert(tally_sum(seq![(name, 1nat)].drop_first()) == 0);
    } else if t[0].0 == name {
        assert(t.update(0, (name, t[0].1 + 1)).drop_first() =~= t.drop_first());
    } else {
        lemma_total_count_in(t.drop_first(), name);
        assert((seq![t[0]] + count_in(t.drop_first(), name)).drop_first() =~= count_in(
            t.drop_first(),
            name,
        ));
    }
}

proof fn lemma_total_bounds(t: Seq<(Seq<char>, nat)>, i: int)
    requires
        0 <= i < t.len(),
    ensures
        t[i].1 <= tally_sum(t),
    decreases i,
{
    if i > 0 {
        lemma_total_bounds(t.drop_first(), i - 1);
    }
}

/// Counts one more occurrence of a name.
fn count_name(t: &mut Vec<(String, usize)>, name: &str)
    requires
        tally_sum(tally_view(old(t)@)) < usize::MAX,
    ensures
        tally_view(final(t)@) == count_in(tally_view(old(t)@), name@),
{
    let ghost before = tally_view(t@);
    let mut i: usize = 0;
    while i < t.len() && !same(t[i].0.as_str(), name)
        invariant
            i <= t@.len(),
            before == tally_view(t@),
            forall|k: int| 0 <= k < i ==> (#[trigger] before[k]).0 != name@,
        decreases t@.len() - i,
    {
        assert(before[i as int].0 == t@[i as int].0@);
        i = i + 1;
    }
    if i < t.len() {
        assert(before[i as int].0 == t@[i as int].0@);
    }
    proof {
        lemma_count_in_found(before, name@, i as int);
    }
    if i < t.len() {
        proof {
            lemma_total_bounds(before, i as int);
        }
        let k: usize = t[i].1;
        t.set(i, (name.to_owned(), k + 1));
        assert(tally_view(t@) =~= before.update(i as int, (name@, before[i as int].1 + 1)));
    } else {
        t.push((name.to_owned(), 1));
        assert(tally_view(t@) =~= before.push((name@, 1nat)));
    }
}

/// The line of a tally.
fn tally_text(t: &Vec<(String, usize)>) -> (r: String)
    ensures
        r@ == tally_line(tally_view(t@)),
{
    let ghost show = |e: (Seq<char>, nat)| e.0 + " ×"@ + dec(e.1);
    let mut parts: Vec<String> = Vec::new();
    let mut i: usize = 0;
    while i < t.len()
        invariant
            i <= t@.len(),
            show == (|e: (Seq<char>, nat)| e.0 + " ×"@ + dec(e.1)),
            parts.deep_view() == tally_view(t@).map_values(show).take(i as int),
        decreases t@.len() - i,
    {
        let ghost before = parts.deep_view();
        let mut s = t[i].0.clone();
        s.append(" ×");
        let d = decimal(t[i].1 as u64);
        s.append(d.as_str());
        parts.push(s);
        assert(parts.deep_view() =~= before.push(s@));
        assert(parts.deep_view() =~= tally_view(t@).map_values(show).take(i + 1));
        i = i + 1;
    }
    assert(tally_view(t@).map_values(show).take(t@.len() as int) =~= tally_view(t@).map_values(
        show,
    ));
    joined(&parts, ", ")
}

/// The summary of the tool calls in progress, where they are all named.
pub fn summarize_active_tools(send_result: &Json) -> (r: Option<String>)
    ensures
        r.deep_view() == tools_summary(send_result@),
{
    let proj = match send_result.get("projection") {
        Some(p) => p,
        None => send_result,
    };
    let found = match proj.get("activeToolCalls") {
        Some(x) => Some(x),
        None => send_result.get("activeToolCalls"),
    };
    let calls = match found {
        Some(x) => match x.as_array() {
            Some(a) => a,
            None => {
                return None;
            },
        },
        None => {
            return None;
        },
    };
    let ghost list = calls.deep_view();
    let ghost names = list.map_values(|c: JsonView| tool_name(c)->0);
    assert(active_calls(send_result@) == Some(list));
    if calls.len() == 0 {
        return None;
    }
    let mut agg: Vec<(String, usize)> = Vec::new();
    let mut i: usize = 0;
    assert(tally_view(agg@) =~= tally(names.take(0)));
    while i < calls.len()
        invariant
            i <= calls@.len(),
            list == calls.deep_view(),
            active_calls(send_result@) == Some(list),
            names == list.map_values(|c: JsonView| tool_name(c)->0),
            forall|k: int|
                0 <= k < i ==> (tool_name(#[trigger] list[k]) matches Some(n) && !blank(n)),
            tally_view(agg@) == tally(names.take(i as int)),
            tally_sum(tally_view(agg@)) == i,
        decreases calls@.len() - i,
    {
        assert(list[i as int] == calls@[i as int]@);
        let found_name = match calls[i].str_at("name") {
            Some(t) => Some(t),
            None => calls[i].str_at("tool"),
        };
        let name = match found_name {
            Some(t) => t,
            None => {
                return None;
            },
        };
        if is_blank(name) {
            return None;
        }
        proof {
            assert(names.take(i + 1).drop_last() == names.take(i as int));
            assert(names.take(i + 1).last() == name@);
            lemma_total_count_in(tally_view(agg@), name@);
        }
        count_name(&mut agg, name);
        i = i + 1;
    }
    assert(names.take(calls@.len() as int) == names);
    let mut s = "tools neste turno: ".to_owned();
    let t = tally_text(&agg);
    s.append(t.as_str());
    Some(s)
}

/// A name is counted once for each of its occurrences: the counts of a tally
/// add up to the number of names.
pub proof fn law_tally_complete(names: Seq<Seq<char>>)
    ensures
        tally_sum(tally(names)) == names.len(),
    decreases names.len(),
{
    if names.len() > 0 {
        law_tally_complete(names.drop_last());
        lemma_total_count_in(tally(names.drop_last()), names.last());
    }
}

// ---------------------------------------------------------------- laws

/// Todos are read in their order.
pub proof fn law_todos_in_order(a: Seq<JsonView>, b: Seq<JsonView>)
    ensures
        todos_of_list(a + b) == todos_of_list(a) + todos_of_list(b),
        todos_of_groups(a + b) == todos_of_groups(a) + todos_of_groups(b),
    decreases b.len(),
{
    if b.len() == 0 {
        assert(a + b =~= a);
        assert(todos_of_list(a) + todos_of_list(b) =~= todos_of_list(a));
        assert(todos_of_groups(a) + todos_of_groups(b) =~= todos_of_groups(a));
    } else {
        assert((a + b).drop_last() =~= a + b.drop_last());
        law_todos_in_order(a, b.drop_last());
        assert(todos_of_list(a + b) =~= todos_of_list(a) + todos_of_list(b));
        assert(todos_of_groups(a + b) =~= todos_of_groups(a) + todos_of_groups(b));
    }
}

/// A todo is told by its content, trimmed, and by its own state.
pub proof fn law_todo_of_its_entries(v: JsonView, content: Seq<char>, state: Seq<char>)
    requires
        v is Obj,
        v.get("content"@) == Some(JsonView::Str(content)),
        v.get("status"@) == Some(JsonView::Str(state)) || (v.get("status"@) is None && v.get(
            "state"@,
        ) == Some(JsonView::Str(state))),
        !blank(content),
    ensures
        todo_of(v) == Some(
            TodoItemView { content: trim(content), status: status_of_word(state) },
        ),
        todos_of_list(seq![v]) == seq![
            TodoItemView { content: trim(content), status: status_of_word(state) },
        ],
{
    lemma_trim_empty_iff_blank(content);
    reveal_with_fuel(todos_of_list, 2);
    assert(seq![v].drop_last() =~= Seq::empty());
    assert(todos_of_list(seq![v]) =~= seq![todo_of(v)->0]);
}

/// The three states are told apart by their words; a text alone is to be done.
pub proof fn law_status_words()
    ensures
        status_of_word("completed"@) == TodoStatus::Completed,
        status_of_word("done"@) == TodoStatus::Completed,
        status_of_word("in_progress"@) == TodoStatus::InProgress,
        status_of_word("in-progress"@) == TodoStatus::InProgress,
        status_of_word("pending"@) == TodoStatus::Pending,
{
    reveal_strlit("completed");
    reveal_strlit("done");
    reveal_strlit("in-progress");
    reveal_strlit("in_progress");
    reveal_strlit("inprogress");
    reveal_strlit("pending");
    assert("completed"@.len() == 9 && "done"@.len() == 4 && "in-progress"@.len() == 11 && "in_progress"@.len() == 11 && "inprogress"@.len() == 10 && "pending"@.len() == 7);
    assert("in-progress"@[2] != "in_progress"@[2]);
    lemma_trim_solid("completed"@);
    lemma_trim_solid("done"@);
    lemma_trim_solid("in_progress"@);
    lemma_trim_solid("in-progress"@);
    lemma_trim_solid("pending"@);
    assert(ascii_lower("completed"@) =~= "completed"@);
    assert(ascii_lower("done"@) =~= "done"@);
    assert(ascii_lower("in_progress"@) =~= "in_progress"@);
    assert(ascii_lower("in-progress"@) =~= "in-progress"@);
    assert(ascii_lower("pending"@) =~= "pending"@);
}

/// How often a name is told in a tally.
pub open spec fn told_of(t: Seq<(Seq<char>, nat)>, name: Seq<char>) -> nat
    decreases t.len(),
{
    if t.len() == 0 {
        0
    } else {
        (if t[0].0 == name {
            t[0].1
        } else {
            0
        }) + told_of(t.drop_first(), name)
    }
}

/// How often a name stands in a list.
pub open spec fn times_in(names: Seq<Seq<char>>, name: Seq<char>) -> nat
    decreases names.len(),
{
    if names.len() == 0 {
        0
    } else {
        times_in(names.drop_last(), name) + (if names.last() == name {
            1nat
        } else {
            0
        })
    }
}

proof fn lemma_count_in_counts(t: Seq<(Seq<char>, nat)>, added: Seq<char>, name: Seq<char>)
    ensures
        told_of(count_in(t, added), name) == told_of(t, name) + (if added == name {
            1nat
        } else {
            0
        }),
    decreases t.len(),
{
    let r = count_in(t, added);
    if t.len() == 0 {
        assert(r.drop_first() =~= Seq::empty());
        reveal_with_fuel(told_of, 2);
    } else if t[0].0 == added {
        assert(r.drop_first() =~= t.drop_first());
    } else {
        lemma_count_in_counts(t.drop_first(), added, name);
        assert(r.drop_first() =~= count_in(t.drop_first(), added));
    }
}

/// The tally tells each tool as often as it was called.
pub proof fn law_tally_counts(names: Seq<Seq<char>>, name: Seq<char>)
    ensures
        told_of(tally(names), name) == times_in(names, name),
    decreases names.len(),
{
    if names.len() > 0 {
        law_tally_counts(names.drop_last(), name);
        lemma_count_in_counts(tally(names.drop_last()), names.last(), name);
    }
}

/// What is told of the tools names every tool of the tally with its count.
pub proof fn law_tally_line_holds(t: Seq<(Seq<char>, nat)>, i: int)
    requires
        0 <= i < t.len(),
    ensures
        contains(tally_line(t), t[i].0 + " ×"@ + dec(t[i].1)),
{
    let parts = t.map_values(|e: (Seq<char>, nat)| e.0 + " ×"@ + dec(e.1));
    law_join_holds(parts, ", "@, i);
    assert(parts[i] == t[i].0 + " ×"@ + dec(t[i].1));
}

/// The todos of an answer are its own; where it has none, those of its
/// projection.
pub proof fn law_todos_of_answer(v: JsonView, list: Seq<JsonView>, p: JsonView)
    requires
        todos_of_list(list).len() > 0,
    ensures
        v.get("todos"@) == Some(JsonView::Arr(list)) ==> todos_of(v) == todos_of_list(list),
        v.get("todos"@) is None && v.get("projection"@) == Some(p) && p.get("todos"@) == Some(
            JsonView::Arr(list),
        ) ==> todos_of(v) == todos_of_list(list),
        v.get("todos"@) is None && v.get("projection"@) is None && v.get("todoGroups"@) == Some(
            JsonView::Arr(seq![p]),
        ) && p.get("todos"@) == Some(JsonView::Arr(list)) ==> todos_of(v) == todos_of_list(list),
{
    reveal_with_fuel(todos_of_groups, 2);
    assert(seq![p].drop_last() =~= Seq::empty());
    assert(Seq::<TodoItemView>::empty() + todos_of_group(p) =~= todos_of_group(p));
}

spec fn names_differ(t: Seq<(Seq<char>, nat)>) -> bool {
    forall|i: int, j: int| 0 <= i < j < t.len() ==> (#[trigger] t[i]).0 != (#[trigger] t[j]).0
}

proof fn lemma_count_in_names(t: Seq<(Seq<char>, nat)>, name: Seq<char>)
    requires
        names_differ(t),
    ensures
        names_differ(count_in(t, name)),
        exists|k: int| 0 <= k < count_in(t, name).len() && (#[trigger] count_in(t, name)[k]).0 == name,
        t.len() <= count_in(t, name).len() <= t.len() + 1,
        forall|k: int| 0 <= k < t.len() ==> (#[trigger] count_in(t, name)[k]).0 == t[k].0,
        forall|k: int|
            t.len() <= k < count_in(t, name).len() ==> (#[trigger] count_in(t, name)[k]).0 == name,
        count_in(t, name).len() > t.len() ==> forall|k: int|
            0 <= k < t.len() ==> (#[trigger] t[k]).0 != name,
    decreases t.len(),
{
    let r = count_in(t, name);
    if t.len() == 0 {
        assert(r[0].0 == name);
    } else if t[0].0 == name {
        assert(r[0].0 == name);
        assert forall|k: int| 0 <= k < t.len() implies (#[trigger] r[k]).0 == t[k].0 by {
            if k > 0 {
                assert(r[k] == t[k]);
            }
        }
    } else {
        let rest = t.drop_first();
        let q = count_in(rest, name);
        assert forall|i: int, j: int| 0 <= i < j < rest.len() implies (#[trigger] rest[i]).0 != (
        #[trigger] rest[j]).0 by {
            assert(rest[i] == t[i + 1] && rest[j] == t[j + 1]);
        }
        lemma_count_in_names(rest, name);
        let k0 = choose|k: int| 0 <= k < q.len() && (#[trigger] q[k]).0 == name;
        assert(r[k0 + 1] == q[k0]);
        assert forall|k: int| 0 <= k < t.len() implies (#[trigger] r[k]).0 == t[k].0 by {
            if k > 0 {
                assert(rest[k - 1] == t[k]);
                assert(q[k - 1].0 == rest[k - 1].0);
                assert(r[k] == q[k - 1]);
            }
        }
        assert forall|k: int| t.len() <= k < r.len() implies (#[trigger] r[k]).0 == name by {
            assert(r[k] == q[k - 1]);
        }
        if r.len() > t.len() {
            assert forall|k: int| 0 <= k < t.len() implies (#[trigger] t[k]).0 != name by {
                if k > 0 {
                    assert(rest[k - 1] == t[k]);
                }
            }
        }
        assert forall|i: int, j: int| 0 <= i < j < r.len() implies (#[trigger] r[i]).0 != (
        #[trigger] r[j]).0 by {
            assert(r[j] == q[j - 1]);
            if i > 0 {
                assert(r[i] == q[i - 1]);
            } else if j < t.len() {
                assert(rest[j - 1] == t[j]);
                assert(q[j - 1].0 == rest[j - 1].0);
            } else {
                assert(q[j - 1].0 == name);
            }
        }
    }
}

proof fn lemma_told_of_entry(t: Seq<(Seq<char>, nat)>, k: int)
    requires
        names_differ(t),
        0 <= k < t.len(),
    ensures
        told_of(t, t[k].0) == t[k].1,
    decreases t.len(),
{
    let rest = t.drop_first();
    assert forall|i: int, j: int| 0 <= i < j < rest.len() implies (#[trigger] rest[i]).0 != (
    #[trigger] rest[j]).0 by {
        assert(rest[i] == t[i + 1] && rest[j] == t[j + 1]);
    }
    if k == 0 {
        lemma_told_of_none(rest, t[0].0);
    } else {
        assert(t[0].0 != t[k].0);
        assert(rest[k - 1] == t[k]);
        lemma_told_of_entry(rest, k - 1);
    }
}

proof fn lemma_told_of_none(t: Seq<(Seq<char>, nat)>, name: Seq<char>)
    requires
        forall|i: int| 0 <= i < t.len() ==> (#[trigger] t[i]).0 != name,
    ensures
        told_of(t, name) == 0,
    decreases t.len(),
{
    if t.len() > 0 {
        assert(t[0].0 != name);
        assert forall|i: int| 0 <= i < t.drop_first().len() implies (
        #[trigger] t.drop_first()[i]).0 != name by {
            assert(t.drop_first()[i] == t[i + 1]);
        }
        lemma_told_of_none(t.drop_first(), name);
    }
}

proof fn lemma_tally_has(names: Seq<Seq<char>>, i: int)
    requires
        0 <= i < names.len(),
    ensures
        names_differ(tally(names)),
        exists|k: int| 0 <= k < tally(names).len() && (#[trigger] tally(names)[k]).0 == names[i],
    decreases names.len(),
{
    let before = names.drop_last();
    let t = tally(before);
    if before.len() > 0 {
        lemma_tally_has(before, 0);
    }
    lemma_count_in_names(t, names.last());
    if i < before.len() {
        lemma_tally_has(before, i);
        let k = choose|k: int| 0 <= k < t.len() && (#[trigger] t[k]).0 == before[i];
        assert(tally(names)[k].0 == t[k].0);
        assert(before[i] == names[i]);
    } else {
        let c = count_in(t, names.last());
        let k = choose|k: int| 0 <= k < c.len() && (#[trigger] c[k]).0 == names.last();
        assert(tally(names)[k].0 == names[i]);
    }
}

/// What is told of the tools of a turn names each with how often it was called.
pub proof fn law_tools_are_told(v: JsonView, calls: Seq<JsonView>, i: int)
    requires
        active_calls(v) == Some(calls),
        all_named(calls),
        0 <= i < calls.len(),
    ensures
        ({
            let names = calls.map_values(|c: JsonView| tool_name(c)->0);
            tools_summary(v) matches Some(t) && contains(
                t,
                names[i] + " ×"@ + dec(times_in(names, names[i])),
            )
        }),
{
    let names = calls.map_values(|c: JsonView| tool_name(c)->0);
    let t = tally(names);
    lemma_tally_has(names, i);
    let k = choose|k: int| 0 <= k < t.len() && (#[trigger] t[k]).0 == names[i];
    lemma_told_of_entry(t, k);
    law_tally_counts(names, names[i]);
    law_tally_line_holds(t, k);
    lemma_contains_back("tools neste turno: "@, tally_line(t), t[k].0 + " ×"@ + dec(t[k].1));
}

/// The tool of a call is told by its name, else by its other name.
pub proof fn law_tool_name(c: JsonView, n: Seq<char>)
    ensures
        c.get("name"@) == Some(JsonView::Str(n)) ==> tool_name(c) == Some(n),
        c.get("name"@) is None && c.get("tool"@) == Some(JsonView::Str(n)) ==> tool_name(c) == Some(
            n,
        ),
{
}

} // verus!
