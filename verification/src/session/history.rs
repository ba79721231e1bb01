//! The local record of sessions: the newest first, each session once.

use crate::json::{
    json_of_text, no_fields, pretty_of_json, read_json, readable, slot, struct_shape, write_json_pretty,
    Json, JsonView,
};
use crate::paths::{app_file, data_file};
use vstd::prelude::*;

verus! {

/// How many sessions the record keeps.
pub const HISTORY_MAX: usize = 200;

/// One session of the record.
#[derive(Debug, Clone, PartialEq, Eq)]
pub struct HistoryEntry {
    pub session_id: String,
    pub title: String,
    pub workspace: String,
    pub model: String,
    pub updated_at: String,
}

pub struct HistoryEntryView {
    pub session_id: Seq<char>,
    pub title: Seq<char>,
    pub workspace: Seq<char>,
    pub model: Seq<char>,
    pub updated_at: Seq<char>,
}

impl DeepView for HistoryEntry {
    type V = HistoryEntryView;

    open spec fn deep_view(&self) -> HistoryEntryView {
        HistoryEntryView {
            session_id: self.session_id@,
            title: self.title@,
            workspace: self.workspace@,
            model: self.model@,
            updated_at: self.updated_at@,
        }
    }
}

impl HistoryEntry {
    /// A copy.
    pub fn dup(&self) -> (r: HistoryEntry)
        ensures
            r.deep_view() == self.deep_view(),
    {
        HistoryEntry {
            session_id: self.session_id.clone(),
            title: self.title.clone(),
            workspace: self.workspace.clone(),
            model: self.model.clone(),
            updated_at: self.updated_at.clone(),
        }
    }
}

/// The sessions other than one.
pub open spec fn without(all: Seq<HistoryEntryView>, id: Seq<char>) -> Seq<HistoryEntryView> {
    all.filter(|e: HistoryEntryView| e.session_id != id)
}

/// The record after a session was used: that session first, the others after
/// it, at most `HISTORY_MAX` in all.
pub open spec fn recorded(all: Seq<HistoryEntryView>, entry: HistoryEntryView) -> Seq<
    HistoryEntryView,
> {
    let list = seq![entry] + without(all, entry.session_id);
    if list.len() > HISTORY_MAX {
        list.take(HISTORY_MAX as int)
    } else {
        list
    }
}

/// The first session of a workspace.
pub open spec fn latest(all: Seq<HistoryEntryView>, workspace: Seq<char>) -> Option<
    HistoryEntryView,
>
    decreases all.len(),
{
    if all.len() == 0 {
        None
    } else if all[0].workspace == workspace {
        Some(all[0])
    } else {
        latest(all.drop_first(), workspace)
    }
}

/// Records a session: it replaces an earlier entry of the same session.
pub fn record_session(all: Vec<HistoryEntry>, entry: HistoryEntry) -> (r: Vec<HistoryEntry>)
    ensures
        r.deep_view() == recorded(all.deep_view(), entry.deep_view()),
{
    let ghost keep = |e: HistoryEntryView| e.session_id != entry.session_id@;
    let ghost new = entry.deep_view();
    let mut rest: Vec<HistoryEntry> = Vec::new();
    let mut i: usize = 0;
    assert(rest.deep_view() =~= all.deep_view().take(0).filter(keep));
    while i < all.len()
        invariant
            i <= all@.len(),
            keep == (|e: HistoryEntryView| e.session_id != entry.session_id@),
            rest.deep_view() == all.deep_view().take(i as int).filter(keep),
        decreases all@.len() - i,
    {
        proof {
            reveal(Seq::filter);
            let t = all.deep_view().take(i + 1);
            assert(t.drop_last() == all.deep_view().take(i as int));
            assert(t.last() == all@[i as int].deep_view());
        }
        if all[i].session_id != entry.session_id {
            let ghost before = rest.deep_view();
            rest.push(all[i].dup());
            assert(rest.deep_view() =~= before.push(all@[i as int].deep_view()));
        }
        i = i + 1;
    }
    assert(all.deep_view().take(all@.len() as int) == all.deep_view());
    let ghost others = rest.deep_view();
    rest.insert(0, entry);
    assert(rest.deep_view() =~= seq![new] + others);
    if rest.len() > HISTORY_MAX {
        let ghost whole = rest.deep_view();
        rest.truncate(HISTORY_MAX);
        assert(rest.deep_view() =~= whole.take(HISTORY_MAX as int));
    }
    rest
}

/// The newest session of a workspace.
pub fn latest_for_workspace(all: &Vec<HistoryEntry>, workspace_norm: &str) -> (r: Option<
    HistoryEntry,
>)
    ensures
        r.deep_view() == latest(all.deep_view(), workspace_norm@),
{
    let mut i: usize = 0;
    assert(all.deep_view().skip(0) == all.deep_view());
    while i < all.len()
        invariant
            i <= all@.len(),
            latest(all.deep_view(), workspace_norm@) == latest(
                all.deep_view().skip(i as int),
                workspace_norm@,
            ),
        decreases all@.len() - i,
    {
        proof {
            let t = all.deep_view().skip(i as int);
            assert(t[0] == all@[i as int].deep_view());
            assert(t.drop_first() == all.deep_view().skip(i + 1));
        }
        if crate::text::same(all[i].workspace.as_str(), workspace_norm) {
            return Some(all[i].dup());
        }
        i = i + 1;
    }
    None
}

/// No session stands in the record twice.
pub open spec fn each_once(all: Seq<HistoryEntryView>) -> bool {
    forall|i: int, j: int|
        0 <= i < j < all.len() ==> (#[trigger] all[i]).session_id != (#[trigger] all[j]).session_id
}

proof fn lemma_without_once(all: Seq<HistoryEntryView>, id: Seq<char>)
    requires
        each_once(all),
    ensures
        each_once(without(all, id)),
        forall|i: int| 0 <= i < without(all, id).len() ==> (#[trigger] without(all, id)[i]).session_id != id,
        forall|i: int|
            0 <= i < without(all, id).len() ==> all.contains(#[trigger] without(all, id)[i]),
    decreases all.len(),
{
    reveal(Seq::filter);
    if all.len() > 0 {
        let head = all.drop_last();
        assert(each_once(head)) by {
            assert forall|i: int, j: int| 0 <= i < j < head.len() implies (
            #[trigger] head[i]).session_id != (#[trigger] head[j]).session_id by {
                assert(head[i] == all[i] && head[j] == all[j]);
            }
        }
        lemma_without_once(head, id);
        let w = without(all, id);
        let v = without(head, id);
        assert forall|i: int| 0 <= i < w.len() implies all.contains(#[trigger] w[i]) by {
            if i < v.len() {
                assert(w[i] == v[i]);
                let j = choose|j: int| 0 <= j < head.len() && #[trigger] head[j] == v[i];
                assert(all[j] == w[i]);
            } else {
                assert(all[all.len() - 1] == w[i]);
            }
        }
        assert forall|i: int, j: int| 0 <= i < j < w.len() implies (#[trigger] w[i]).session_id != (
        #[trigger] w[j]).session_id by {
            if j < v.len() {
                assert(w[i] == v[i] && w[j] == v[j]);
            } else {
                assert(w[i] == v[i]);
                assert(head.contains(v[i]));
                let k = choose|k: int| 0 <= k < head.len() && #[trigger] head[k] == v[i];
                assert(all[k] == w[i]);
                assert(w[j] == all[all.len() - 1]);
            }
        }
    }
}

/// Recording keeps the record in order: the recorded session comes first, no
/// session stands in it twice, and it has at most `HISTORY_MAX` entries.
pub proof fn law_record(all: Seq<HistoryEntryView>, entry: HistoryEntryView)
    requires
        each_once(all),
    ensures
        recorded(all, entry).len() <= HISTORY_MAX,
        recorded(all, entry)[0] == entry,
        each_once(recorded(all, entry)),
{
    lemma_without_once(all, entry.session_id);
    let w = without(all, entry.session_id);
    let list = seq![entry] + w;
    let r = recorded(all, entry);
    assert forall|i: int, j: int| 0 <= i < j < r.len() implies (#[trigger] r[i]).session_id != (
    #[trigger] r[j]).session_id by {
        assert(r[j] == w[j - 1]);
        if i > 0 {
            assert(r[i] == w[i - 1]);
        }
    }
}

/// The session recorded last is the one its workspace is continued with.
pub proof fn law_record_then_latest(all: Seq<HistoryEntryView>, entry: HistoryEntryView)
    ensures
        latest(recorded(all, entry), entry.workspace) == Some(entry),
{
    assert(recorded(all, entry)[0] == entry);
}

// ---------------------------------------------------------------- file

pub open spec fn entry_view(e: HistoryEntryView) -> JsonView {
    no_fields().put("sessionId"@, JsonView::Str(e.session_id)).put(
        "title"@,
        JsonView::Str(e.title),
    ).put("workspace"@, JsonView::Str(e.workspace)).put("model"@, JsonView::Str(e.model)).put(
        "updatedAt"@,
        JsonView::Str(e.updated_at),
    )
}

pub open spec fn history_view(all: Seq<HistoryEntryView>) -> JsonView {
    JsonView::Arr(all.map_values(|e: HistoryEntryView| entry_view(e)))
}

/// A text that may be missing, but not of another type.
pub open spec fn text_slot(v: JsonView, i: int, key: Seq<char>) -> Option<Seq<char>> {
    match slot(v, i, key) {
        Some(x) => x.as_text(),
        None => Some(Seq::empty()),
    }
}

/// An entry of the file: the session must be there, the rest may be missing.
pub open spec fn entry_of(v: JsonView) -> Option<HistoryEntryView> {
    if !struct_shape(v, 5) {
        None
    } else {
        match slot(v, 0, "sessionId"@) {
            Some(id) => match (
                id.as_text(),
                text_slot(v, 1, "title"@),
                text_slot(v, 2, "workspace"@),
                text_slot(v, 3, "model"@),
                text_slot(v, 4, "updatedAt"@),
            ) {
                (
                    Some(session_id),
                    Some(title),
                    Some(workspace),
                    Some(model),
                    Some(updated_at),
                ) => Some(
                    HistoryEntryView { session_id, title, workspace, model, updated_at },
                ),
                _ => None,
            },
            None => None,
        }
    }
}

/// All the entries of a list, or none where one is not an entry.
pub open spec fn entries_of(list: Seq<JsonView>) -> Option<Seq<HistoryEntryView>>
    decreases list.len(),
{
    if list.len() == 0 {
        Some(Seq::empty())
    } else {
        match (entries_of(list.drop_last()), entry_of(list.last())) {
            (Some(before), Some(e)) => Some(before.push(e)),
            _ => None,
        }
    }
}

/// The record that a file holds; empty where it holds none.
pub open spec fn history_of(text: Seq<char>) -> Seq<HistoryEntryView> {
    match json_of_text(text) {
        Some(JsonView::Arr(list)) => match entries_of(list) {
            Some(es) => es,
            None => Seq::empty(),
        },
        _ => Seq::empty(),
    }
}

fn read_text_slot(v: &Json, i: usize, key: &str) -> (r: Option<String>)
    ensures
        r.deep_view() == text_slot(v@, i as int, key@),
{
    match v.slot(i, key) {
        Some(x) => match x.as_str() {
            Some(t) => Some(t.to_owned()),
            None => None,
        },
        None => Some(String::new()),
    }
}

fn read_entry(v: &Json) -> (r: Option<HistoryEntry>)
    ensures
        r.deep_view() == entry_of(v@),
{
    if !v.is_struct(5) {
        return None;
    }
    let id = match v.slot(0, "sessionId") {
        Some(x) => match x.as_str() {
            Some(t) => t.to_owned(),
            None => {
                return None;
            },
        },
        None => {
            return None;
        },
    };
    match (
        read_text_slot(v, 1, "title"),
        read_text_slot(v, 2, "workspace"),
        read_text_slot(v, 3, "model"),
        read_text_slot(v, 4, "updatedAt"),
    ) {
        (Some(title), Some(workspace), Some(model), Some(updated_at)) => Some(
            HistoryEntry { session_id: id, title, workspace, model, updated_at },
        ),
        _ => None,
    }
}

/// Reads the record from the text of its file.
pub fn load_history(text: &str) -> (r: Vec<HistoryEntry>)
    ensures
        r.deep_view() == history_of(text@),
{
    let v = match read_json(text) {
        Ok(v) => v,
        Err(_) => {
            let none: Vec<HistoryEntry> = Vec::new();
            assert(none.deep_view() =~= Seq::empty());
            return none;
        },
    };
    let mut out: Vec<HistoryEntry> = Vec::new();
    match v.as_array() {
        Some(list) => {
            let mut i: usize = 0;
            let mut good = true;
            assert(Some(out.deep_view()) == entries_of(list.deep_view().take(0))) by {
                assert(out.deep_view() =~= Seq::empty());
            }
            while i < list.len()
                invariant
                    i <= list@.len(),
                    good ==> entries_of(list.deep_view().take(i as int)) == Some(out.deep_view()),
                    !good ==> entries_of(list.deep_view().take(i as int)) is None,
                decreases list@.len() - i,
            {
                proof {
                    let t = list.deep_view().take(i + 1);
                    assert(t.drop_last() == list.deep_view().take(i as int));
                    assert(t.last() == list@[i as int]@);
                }
                let ghost before = out.deep_view();
                match read_entry(&list[i]) {
                    Some(e) => {
                        out.push(e);
                        assert(out.deep_view() =~= before.push(e.deep_view()));
                    },
                    None => {
                        good = false;
                    },
                }
                i = i + 1;
            }
            assert(list.deep_view().take(list@.len() as int) == list.deep_view());
            if !good {
                out = Vec::new();
                assert(out.deep_view() =~= Seq::empty());
            }
        },
        None => {
            assert(out.deep_view() =~= Seq::empty());
        },
    }
    out
}

/// The text of the record's file; `load_history` reads the record back from
/// it.
pub fn save_history(all: &Vec<HistoryEntry>) -> (s: String)
    ensures
        s@ == pretty_of_json(history_view(all.deep_view())),
        history_of(s@) == all.deep_view(),
{
    let ghost es = all.deep_view();
    let ghost show = |e: HistoryEntryView| entry_view(e);
    let mut list: Vec<Json> = Vec::new();
    let mut i: usize = 0;
    while i < all.len()
        invariant
            i <= all@.len(),
            es == all.deep_view(),
            show == (|e: HistoryEntryView| entry_view(e)),
            list.deep_view() == es.map_values(show).take(i as int),
        decreases all@.len() - i,
    {
        let ghost before = list.deep_view();
        let e = &all[i];
        let item = Json::object().with("sessionId", Json::text(e.session_id.as_str())).with(
            "title",
            Json::text(e.title.as_str()),
        ).with("workspace", Json::text(e.workspace.as_str())).with(
            "model",
            Json::text(e.model.as_str()),
        ).with("updatedAt", Json::text(e.updated_at.as_str()));
        assert(item@ == entry_view(es[i as int]));
        list.push(item);
        assert(list.deep_view() =~= before.push(entry_view(es[i as int])));
        assert(list.deep_view() =~= es.map_values(show).take(i + 1));
        i = i + 1;
    }
    assert(list.deep_view() =~= es.map_values(show));
    let v = Json::list(list);
    proof {
        lemma_history_readable(es);
        lemma_entries_back(es);
    }
    write_json_pretty(&v)
}

proof fn lemma_history_readable(es: Seq<HistoryEntryView>)
    ensures
        readable(history_view(es), 127),
{
    broadcast use crate::json::group_readable;

    let a = history_view(es)->Arr_0;
    assert forall|i: int| 0 <= i < a.len() implies readable(#[trigger] a[i], 126) by {
        assert(a[i] == entry_view(es[i]));
    }
}

proof fn lemma_entry_back(e: HistoryEntryView)
    ensures
        entry_of(entry_view(e)) == Some(e),
{
    reveal_strlit("sessionId");
    reveal_strlit("title");
    reveal_strlit("workspace");
    reveal_strlit("model");
    reveal_strlit("updatedAt");
    assert("sessionId"@[0] == 's');
    assert("title"@[0] == 't');
    assert("workspace"@[0] == 'w');
    assert("model"@[0] == 'm');
    assert("updatedAt"@[0] == 'u');
}

proof fn lemma_entries_back(es: Seq<HistoryEntryView>)
    ensures
        entries_of(history_view(es)->Arr_0) == Some(es),
    decreases es.len(),
{
    let a = history_view(es)->Arr_0;
    if es.len() > 0 {
        lemma_entries_back(es.drop_last());
        lemma_entry_back(es.last());
        assert(a.drop_last() =~= history_view(es.drop_last())->Arr_0);
        assert(a.last() == entry_view(es.last()));
        assert(es.drop_last().push(es.last()) =~= es);
    } else {
        assert(es =~= Seq::empty());
    }
}

/// Where the record lies.
pub fn history_path() -> (r: String)
    ensures
        exists|base: Option<Seq<char>>| r@ == #[trigger] app_file(base, "history.json"@),
{
    data_file("history.json")
}

// ---------------------------------------------------------------- laws

/// The session that a workspace is continued with is the first of that workspace
/// in the record; there is none exactly where no session is of that workspace.
pub proof fn law_latest_is_the_first(all: Seq<HistoryEntryView>, workspace: Seq<char>)
    ensures
        match latest(all, workspace) {
            Some(e) => e.workspace == workspace && exists|i: int|
                0 <= i < all.len() && #[trigger] all[i] == e && (forall|j: int|
                    0 <= j < i ==> (#[trigger] all[j]).workspace != workspace),
            None => forall|i: int| 0 <= i < all.len() ==> (#[trigger] all[i]).workspace != workspace,
        },
    decreases all.len(),
{
    if all.len() > 0 {
        if all[0].workspace != workspace {
            let rest = all.drop_first();
            law_latest_is_the_first(rest, workspace);
            match latest(rest, workspace) {
                Some(e) => {
                    let i = choose|i: int|
                        0 <= i < rest.len() && #[trigger] rest[i] == e && (forall|j: int|
                            0 <= j < i ==> (#[trigger] rest[j]).workspace != workspace);
                    assert(all[i + 1] == e);
                    assert forall|j: int| 0 <= j < i + 1 implies (#[trigger] all[j]).workspace
                        != workspace by {
                        if j > 0 {
                            assert(rest[j - 1] == all[j]);
                        }
                    }
                },
                None => {
                    assert forall|i: int| 0 <= i < all.len() implies (#[trigger] all[i]).workspace
                        != workspace by {
                        if i > 0 {
                            assert(rest[i - 1] == all[i]);
                        }
                    }
                },
            }
        }
    }
}

/// A workspace goes on with a session: it is of that workspace, and none of the
/// record before it is.
pub open spec fn goes_on_with(all: Seq<HistoryEntryView>, workspace: Seq<char>, sid: Seq<char>) -> bool {
    exists|i: int|
        0 <= i < all.len() && (#[trigger] all[i]).workspace == workspace && all[i].session_id == sid && (
        forall|j: int| 0 <= j < i ==> (#[trigger] all[j]).workspace != workspace)
}

/// The latest session of a workspace is the one that it goes on with.
pub proof fn law_latest_goes_on(all: Seq<HistoryEntryView>, workspace: Seq<char>)
    ensures
        latest(all, workspace) matches Some(e) ==> goes_on_with(all, workspace, e.session_id),
{
    law_latest_is_the_first(all, workspace);
}

proof fn lemma_without_stranger(all: Seq<HistoryEntryView>, id: Seq<char>)
    requires
        forall|i: int| 0 <= i < all.len() ==> (#[trigger] all[i]).session_id != id,
    ensures
        without(all, id) == all,
    decreases all.len(),
{
    reveal(Seq::filter);
    if all.len() > 0 {
        assert(all[all.len() - 1].session_id != id);
        assert forall|i: int| 0 <= i < all.drop_last().len() implies (
        #[trigger] all.drop_last()[i]).session_id != id by {
            assert(all.drop_last()[i] == all[i]);
        }
        lemma_without_stranger(all.drop_last(), id);
        assert(all.drop_last().push(all.last()) =~= all);
    } else {
        assert(without(all, id) =~= all);
    }
}

/// A session used for the first time is put before all others, which stay as
/// they were; only what is over the limit falls off the end.
pub proof fn law_record_new_session(all: Seq<HistoryEntryView>, entry: HistoryEntryView)
    requires
        forall|i: int| 0 <= i < all.len() ==> (#[trigger] all[i]).session_id != entry.session_id,
    ensures
        all.len() < HISTORY_MAX ==> recorded(all, entry) == seq![entry] + all,
        all.len() >= HISTORY_MAX ==> recorded(all, entry) == seq![entry] + all.take(
            HISTORY_MAX - 1,
        ),
{
    lemma_without_stranger(all, entry.session_id);
    assert((seq![entry] + all).take(HISTORY_MAX as int) =~= seq![entry] + all.take(
        HISTORY_MAX - 1,
    ) || all.len() < HISTORY_MAX);
}

/// A session used again leaves its old place and comes first; the others keep
/// their order.
pub proof fn law_record_known_session(
    a: Seq<HistoryEntryView>,
    old_entry: HistoryEntryView,
    b: Seq<HistoryEntryView>,
    entry: HistoryEntryView,
)
    requires
        old_entry.session_id == entry.session_id,
        forall|i: int| 0 <= i < a.len() ==> (#[trigger] a[i]).session_id != entry.session_id,
        forall|i: int| 0 <= i < b.len() ==> (#[trigger] b[i]).session_id != entry.session_id,
        a.len() + b.len() < HISTORY_MAX,
    ensures
        recorded(a + seq![old_entry] + b, entry) == seq![entry] + a + b,
{
    let keep = |e: HistoryEntryView| e.session_id != entry.session_id;
    lemma_without_stranger(a, entry.session_id);
    lemma_without_stranger(b, entry.session_id);
    Seq::filter_distributes_over_add(a + seq![old_entry], b, keep);
    Seq::filter_distributes_over_add(a, seq![old_entry], keep);
    reveal(Seq::filter);
    reveal_with_fuel(Seq::filter, 2);
    assert(seq![old_entry].drop_last() =~= Seq::empty());
    assert(seq![old_entry].filter(keep) =~= Seq::empty());
    assert(without(a + seq![old_entry] + b, entry.session_id) =~= a + b);
    assert(seq![entry] + (a + b) =~= seq![entry] + a + b);
}

/// An entry of the file holds each of its texts under its own name.
pub proof fn law_entry_keys(e: HistoryEntryView)
    ensures
        entry_view(e).text_at("sessionId"@) == Some(e.session_id),
        entry_view(e).text_at("title"@) == Some(e.title),
        entry_view(e).text_at("workspace"@) == Some(e.workspace),
        entry_view(e).text_at("model"@) == Some(e.model),
        entry_view(e).text_at("updatedAt"@) == Some(e.updated_at),
        entry_of(entry_view(e)) == Some(e),
{
    reveal_strlit("sessionId");
    reveal_strlit("title");
    reveal_strlit("workspace");
    reveal_strlit("model");
    reveal_strlit("updatedAt");
    assert("sessionId"@.len() == 9 && "title"@.len() == 5 && "workspace"@.len() == 9 && "model"@.len() == 5 && "updatedAt"@.len() == 9);
    assert("sessionId"@[0] != "workspace"@[0]);
    assert("sessionId"@[0] != "updatedAt"@[0]);
    assert("title"@[0] != "model"@[0]);
    assert("workspace"@[0] != "updatedAt"@[0]);
}

} // verus!
