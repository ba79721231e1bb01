//! Lists of sessions to choose from.

use crate::json::{no_fields, Json, JsonView};
use crate::session::extract::text_or_empty;
use crate::session::history::{HistoryEntry, HistoryEntryView};
use vstd::prelude::*;

verus! {

/// One session of a list.
#[derive(Debug, Clone, PartialEq, Eq)]
pub struct SessionRow {
    pub id: String,
    pub title: String,
    pub status: String,
    pub created: String,
}

pub struct SessionRowView {
    pub id: Seq<char>,
    pub title: Seq<char>,
    pub status: Seq<char>,
    pub created: Seq<char>,
}

impl DeepView for SessionRow {
    type V = SessionRowView;

    open spec fn deep_view(&self) -> SessionRowView {
        SessionRowView {
            id: self.id@,
            title: self.title@,
            status: self.status@,
            created: self.created@,
        }
    }
}

/// The sessions of a list; one without an id is passed over.
pub open spec fn rows_of_list(list: Seq<JsonView>) -> Seq<SessionRowView>
    decreases list.len(),
{
    if list.len() == 0 {
        Seq::empty()
    } else {
        let s = list.last();
        let before = rows_of_list(list.drop_last());
        if text_or_empty(s, "sessionId"@).len() == 0 {
            before
        } else {
            before.push(
                SessionRowView {
                    id: text_or_empty(s, "sessionId"@),
                    title: text_or_empty(s, "title"@),
                    status: text_or_empty(s, "status"@),
                    created: text_or_empty(s, "createdAt"@),
                },
            )
        }
    }
}

/// The sessions that an answer of the server lists.
pub open spec fn rows_of(v: JsonView) -> Seq<SessionRowView> {
    match v.items_at("sessions"@) {
        Some(list) => rows_of_list(list),
        None => Seq::empty(),
    }
}

fn text_of(v: &Json, key: &str) -> (r: String)
    ensures
        r@ == text_or_empty(v@, key@),
{
    match v.str_at(key) {
        Some(t) => t.to_owned(),
        None => "".to_owned(),
    }
}

/// Reads the sessions that an answer of the server lists.
pub fn parse_session_list(v: &Json) -> (r: Vec<SessionRow>)
    ensures
        r.deep_view() == rows_of(v@),
{
    let mut out: Vec<SessionRow> = Vec::new();
    assert(out.deep_view() =~= Seq::empty());
    let list = match v.array_at("sessions") {
        Some(a) => a,
        None => {
            return out;
        },
    };
    let ghost all = list.deep_view();
    let mut i: usize = 0;
    assert(out.deep_view() =~= rows_of_list(all.take(0)));
    while i < list.len()
        invariant
            i <= list@.len(),
            all == list.deep_view(),
            out.deep_view() == rows_of_list(all.take(i as int)),
        decreases list@.len() - i,
    {
        let ghost before = out.deep_view();
        proof {
            assert(all.take(i + 1).drop_last() =~= all.take(i as int));
            assert(all.take(i + 1).last() == list@[i as int]@);
        }
        let s = &list[i];
        let id = text_of(s, "sessionId");
        if !id.as_str().is_empty() {
            let row = SessionRow {
                id,
                title: text_of(s, "title"),
                status: text_of(s, "status"),
                created: text_of(s, "createdAt"),
            };
            let ghost one = row.deep_view();
            out.push(row);
            assert(out.deep_view() =~= before.push(one));
        }
        i = i + 1;
    }
    assert(all.take(all.len() as int) =~= all);
    out
}

/// A session of the local record as a row.
pub open spec fn local_row(e: HistoryEntryView) -> SessionRowView {
    SessionRowView {
        id: e.session_id,
        title: if e.title.len() == 0 {
            "-"@
        } else {
            e.title
        },
        status: "local"@,
        created: e.updated_at,
    }
}

pub open spec fn local_rows(history: Seq<HistoryEntryView>, limit: int) -> Seq<SessionRowView> {
    (if history.len() <= limit {
        history
    } else {
        history.take(limit)
    }).map_values(|e: HistoryEntryView| local_row(e))
}

/// The sessions to choose from: those of the server, and where it has none
/// those of the local record.
pub fn picker_rows(server: &Json, history: &Vec<HistoryEntry>, limit: u32) -> (r: Vec<SessionRow>)
    ensures
        r.deep_view() == if rows_of(server@).len() > 0 {
            rows_of(server@)
        } else {
            local_rows(history.deep_view(), limit as int)
        },
{
    let rows = parse_session_list(server);
    if rows.len() > 0 {
        return rows;
    }
    let ghost all = history.deep_view().map_values(|e: HistoryEntryView| local_row(e));
    let mut out: Vec<SessionRow> = Vec::new();
    let mut i: usize = 0;
    while i < history.len() && i < limit as usize
        invariant
            i <= history@.len(),
            i <= limit,
            all == history.deep_view().map_values(|e: HistoryEntryView| local_row(e)),
            out.deep_view() == all.take(i as int),
        decreases history@.len() - i,
    {
        let ghost before = out.deep_view();
        let e = &history[i];
        let title = if e.title.as_str().is_empty() {
            "-".to_owned()
        } else {
            e.title.clone()
        };
        let row = SessionRow {
            id: e.session_id.clone(),
            title,
            status: "local".to_owned(),
            created: e.updated_at.clone(),
        };
        let ghost one = row.deep_view();
        out.push(row);
        proof {
            assert(one == local_row(history.deep_view()[i as int]));
            assert(out.deep_view() =~= before.push(one));
            assert(all.take(i + 1) =~= all.take(i as int).push(one));
        }
        i = i + 1;
    }
    proof {
        let h = history.deep_view();
        if h.len() <= limit {
            assert(all.take(i as int) =~= all);
        } else {
            assert(all.take(i as int) =~= h.take(limit as int).map_values(
                |e: HistoryEntryView| local_row(e),
            ));
        }
    }
    out
}

pub open spec fn row_json(n: int, r: SessionRowView) -> JsonView {
    no_fields().put("n"@, JsonView::Int(n)).put("id"@, JsonView::Str(r.id)).put(
        "title"@,
        JsonView::Str(r.title),
    ).put("status"@, JsonView::Str(r.status)).put("created"@, JsonView::Str(r.created))
}

pub open spec fn pick_json(rows: Seq<SessionRowView>) -> JsonView {
    no_fields().put("action"@, JsonView::Str("pick"@)).put(
        "hint"@,
        JsonView::Str("escolha com: zcode-cli resume <id>"@),
    ).put(
        "sessions"@,
        JsonView::Arr(Seq::new(rows.len(), |i: int| row_json(i + 1, rows[i]))),
    )
}

/// The sessions to choose from, for programs.
pub fn pick_list(rows: &Vec<SessionRow>) -> (r: Json)
    ensures
        r@ == pick_json(rows.deep_view()),
{
    let ghost v = rows.deep_view();
    let ghost all = Seq::new(v.len(), |i: int| row_json(i + 1, v[i]));
    let mut items: Vec<Json> = Vec::new();
    let mut i: usize = 0;
    while i < rows.len()
        invariant
            i <= rows@.len(),
            v == rows.deep_view(),
            all == Seq::new(v.len(), |i: int| row_json(i + 1, v[i])),
            items.deep_view() == all.take(i as int),
        decreases rows@.len() - i,
    {
        let ghost before = items.deep_view();
        let r = &rows[i];
        let item = Json::object().with("n", Json::Unsigned(i as u64 + 1)).with(
            "id",
            Json::text(r.id.as_str()),
        ).with("title", Json::text(r.title.as_str())).with("status", Json::text(r.status.as_str())).with(
            "created",
            Json::text(r.created.as_str()),
        );
        let ghost one = item@;
        items.push(item);
        proof {
            assert(one == row_json(i + 1, v[i as int]));
            assert(items.deep_view() =~= before.push(one));
            assert(all.take(i + 1) =~= all.take(i as int).push(one));
        }
        i = i + 1;
    }
    assert(all.take(all.len() as int) =~= all);
    Json::object().with("action", Json::text("pick")).with(
        "hint",
        Json::text("escolha com: zcode-cli resume <id>"),
    ).with("sessions", Json::list(items))
}

// ---------------------------------------------------------------- laws

/// The sessions of a list are read in their order.
pub proof fn law_rows_in_order(a: Seq<JsonView>, b: Seq<JsonView>)
    ensures
        rows_of_list(a + b) == rows_of_list(a) + rows_of_list(b),
    decreases b.len(),
{
    if b.len() == 0 {
        assert(a + b =~= a);
        assert(rows_of_list(a) + rows_of_list(b) =~= rows_of_list(a));
    } else {
        assert((a + b).drop_last() =~= a + b.drop_last());
        law_rows_in_order(a, b.drop_last());
        assert(rows_of_list(a + b) =~= rows_of_list(a) + rows_of_list(b));
    }
}

/// A session with an id gives one row with its own texts; one without an id
/// gives none.
pub proof fn law_row_of_session(
    s: JsonView,
    id: Seq<char>,
    title: Seq<char>,
    status: Seq<char>,
    created: Seq<char>,
)
    requires
        s.get("sessionId"@) == Some(JsonView::Str(id)),
        s.get("title"@) == Some(JsonView::Str(title)),
        s.get("status"@) == Some(JsonView::Str(status)),
        s.get("createdAt"@) == Some(JsonView::Str(created)),
    ensures
        id.len() > 0 ==> rows_of_list(seq![s]) == seq![SessionRowView { id, title, status, created }],
        id.len() == 0 ==> rows_of_list(seq![s]).len() == 0,
{
    reveal_with_fuel(rows_of_list, 2);
    assert(seq![s].drop_last() =~= Seq::empty());
    if id.len() > 0 {
        assert(rows_of_list(seq![s]) =~= seq![SessionRowView { id, title, status, created }]);
    }
}

/// Where the server has no list the newest of the local record are offered, in
/// its order, by their own ids.
pub proof fn law_local_rows(history: Seq<HistoryEntryView>, limit: nat, i: int)
    requires
        0 <= i < history.len(),
        i < limit,
    ensures
        i < local_rows(history, limit as int).len(),
        local_rows(history, limit as int).len() <= limit,
        local_rows(history, limit as int)[i].id == history[i].session_id,
        local_rows(history, limit as int)[i].created == history[i].updated_at,
        history[i].title.len() > 0 ==> local_rows(history, limit as int)[i].title
            == history[i].title,
{
}

/// A program is offered every session under its number, with its own texts.
pub proof fn law_pick_lists_all(rows: Seq<SessionRowView>)
    ensures
        pick_json(rows).items_at("sessions"@) matches Some(list) && list.len() == rows.len() && (
        forall|i: int|
            0 <= i < rows.len() ==> (#[trigger] list[i]).get("n"@) == Some(JsonView::Int(i + 1))
                && list[i].text_at("id"@) == Some(rows[i].id) && list[i].text_at("title"@) == Some(
                rows[i].title,
            ) && list[i].text_at("status"@) == Some(rows[i].status) && list[i].text_at("created"@)
                == Some(rows[i].created)),
{
    reveal_strlit("action");
    reveal_strlit("hint");
    reveal_strlit("sessions");
    assert("action"@.len() == 6 && "hint"@.len() == 4 && "sessions"@.len() == 8);
    reveal_strlit("n");
    reveal_strlit("id");
    reveal_strlit("title");
    reveal_strlit("status");
    reveal_strlit("created");
    assert("n"@.len() == 1 && "id"@.len() == 2 && "title"@.len() == 5 && "status"@.len() == 6 && "created"@.len() == 7);
    let list = pick_json(rows).items_at("sessions"@)->Some_0;
    assert(list =~= Seq::new(rows.len(), |i: int| row_json(i + 1, rows[i])));
}

} // verus!
