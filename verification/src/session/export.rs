//! A conversation written out as Markdown or as JSON.

use crate::json::{no_fields, pretty_of_json, write_json_pretty, Json, JsonView};
use crate::session::extract::{display_items, extract_display_items, MsgItemView, MsgKind};
use crate::text::{
    contains, first_chars, group_contains, head_chars, lemma_contains_trans, line_list, lines, occurs_at, same,
};
use vstd::prelude::*;

verus! {

impl DeepView for MsgKind {
    type V = MsgKind;

    open spec fn deep_view(&self) -> MsgKind {
        *self
    }
}

/// A message to write out: role, text and kind.
pub type Entry = (Seq<char>, Seq<char>, MsgKind);

/// The messages to write out.
pub open spec fn entries(v: Seq<(String, String, MsgKind)>) -> Seq<Entry> {
    v.map_values(|e: (String, String, MsgKind)| (e.0@, e.1@, e.2))
}

/// The first eight characters of a session id.
pub open spec fn sid8(sid: Seq<char>) -> Seq<char> {
    first_chars(sid, 8)
}

pub fn sid_short8(sid: &str) -> (r: String)
    ensures
        r@ == sid8(sid@),
{
    head_chars(sid, 8)
}

/// A short id is a prefix of the id and has at most eight characters.
pub proof fn law_short_id(sid: Seq<char>)
    ensures
        sid8(sid).len() <= 8,
        sid8(sid).is_prefix_of(sid),
        sid.len() <= 8 ==> sid8(sid) == sid,
{
    assert(sid.take(sid.len() as int) == sid);
}

/// The heading of a message.
pub open spec fn badge(role: Seq<char>, kind: MsgKind) -> Seq<char> {
    if kind == MsgKind::Reasoning {
        "THINK"@
    } else if role == "user"@ {
        "USER"@
    } else if role == "assistant"@ {
        "ASSIST"@
    } else {
        "SYS"@
    }
}

pub fn export_role_badge(role: &str, kind: MsgKind) -> (r: &'static str)
    ensures
        r@ == badge(role@, kind),
{
    if kind == MsgKind::Reasoning {
        "THINK"
    } else if same(role, "user") {
        "USER"
    } else if same(role, "assistant") {
        "ASSIST"
    } else {
        "SYS"
    }
}

/// Lines as a block quote.
pub open spec fn quoted(ls: Seq<Seq<char>>) -> Seq<char>
    decreases ls.len(),
{
    if ls.len() == 0 {
        Seq::empty()
    } else {
        quoted(ls.drop_last()) + "> "@ + ls.last() + "\n"@
    }
}

/// What stands under the heading of a message: reasoning as a block quote,
/// text as it is.
pub open spec fn body_md(e: Entry) -> Seq<char> {
    if e.2 == MsgKind::Reasoning {
        "> (thinking)\n"@ + quoted(lines(e.1))
    } else {
        e.1 + "\n"@
    }
}

pub open spec fn section_md(e: Entry) -> Seq<char> {
    "## "@ + badge(e.0, e.2) + "\n\n"@ + body_md(e) + "\n"@
}

pub open spec fn sections_md(es: Seq<Entry>) -> Seq<char>
    decreases es.len(),
{
    if es.len() == 0 {
        Seq::empty()
    } else {
        sections_md(es.drop_last()) + section_md(es.last())
    }
}

pub open spec fn head_md(sid: Seq<char>, model: Seq<char>, quando: Seq<char>) -> Seq<char> {
    "# Conversa zcode-cli (sessão "@ + sid8(sid) + ", modelo "@ + (if model.len() == 0 {
        "-"@
    } else {
        model
    }) + ", "@ + quando + ")\n\n"@
}

pub open spec fn export_md(
    es: Seq<Entry>,
    sid: Seq<char>,
    model: Seq<char>,
    quando: Seq<char>,
) -> Seq<char> {
    head_md(sid, model, quando) + (if es.len() == 0 {
        "(sem mensagens)\n"@
    } else {
        sections_md(es)
    })
}

fn quote_lines(text: &str) -> (r: String)
    ensures
        r@ == quoted(lines(text@)),
{
    let ls = line_list(text);
    let mut out: String = String::new();
    let mut i: usize = 0;
    while i < ls.len()
        invariant
            i <= ls@.len(),
            out@ == quoted(ls.deep_view().take(i as int)),
        decreases ls@.len() - i,
    {
        proof {
            let t = ls.deep_view().take(i + 1);
            assert(t.drop_last() == ls.deep_view().take(i as int));
            assert(t.last() == ls@[i as int]@);
        }
        out.append("> ");
        out.append(ls[i].as_str());
        out.append("\n");
        i = i + 1;
    }
    assert(ls.deep_view().take(ls@.len() as int) == ls.deep_view());
    out
}

fn write_body(text: &str, kind: MsgKind, role: &str) -> (r: String)
    ensures
        r@ == body_md((role@, text@, kind)),
{
    if kind == MsgKind::Reasoning {
        let mut s = "> (thinking)\n".to_owned();
        let q = quote_lines(text);
        s.append(q.as_str());
        s
    } else {
        let mut s = text.to_owned();
        s.append("\n");
        s
    }
}

/// The conversation as Markdown: a heading with the session, the model and the
/// time, and one section for each message.
pub fn build_export_md(
    messages: &[(String, String, MsgKind)],
    sid: &str,
    model: &str,
    quando: &str,
) -> (r: String)
    ensures
        r@ == export_md(entries(messages@), sid@, model@, quando@),
{
    let mut out = "# Conversa zcode-cli (sessão ".to_owned();
    let short = sid_short8(sid);
    out.append(short.as_str());
    out.append(", modelo ");
    if model.is_empty() {
        out.append("-");
    } else {
        out.append(model);
    }
    out.append(", ");
    out.append(quando);
    out.append(")\n\n");
    let ghost head = out@;
    let ghost es = entries(messages@);
    if messages.len() == 0 {
        out.append("(sem mensagens)\n");
        return out;
    }
    let mut body: String = String::new();
    let mut i: usize = 0;
    while i < messages.len()
        invariant
            i <= messages@.len(),
            es == entries(messages@),
            body@ == sections_md(es.take(i as int)),
        decreases messages@.len() - i,
    {
        proof {
            assert(es.take(i + 1).drop_last() == es.take(i as int));
            assert(es.take(i + 1).last() == es[i as int]);
        }
        let ghost before = body@;
        let kind = messages[i].2;
        let mut section = "## ".to_owned();
        section.append(export_role_badge(messages[i].0.as_str(), kind));
        section.append("\n\n");
        let b = write_body(messages[i].1.as_str(), kind, messages[i].0.as_str());
        section.append(b.as_str());
        section.append("\n");
        assert(section@ == section_md(es[i as int]));
        body.append(section.as_str());
        i = i + 1;
    }
    assert(es.take(messages@.len() as int) == es);
    out.append(body.as_str());
    out
}

pub open spec fn kind_word(kind: MsgKind) -> Seq<char> {
    if kind == MsgKind::Reasoning {
        "reasoning"@
    } else {
        "text"@
    }
}

pub open spec fn entry_json(e: Entry) -> JsonView {
    no_fields().put("role"@, JsonView::Str(e.0)).put("kind"@, JsonView::Str(kind_word(e.2))).put(
        "text"@,
        JsonView::Str(e.1),
    )
}

pub open spec fn export_json(
    es: Seq<Entry>,
    sid: Seq<char>,
    model: Seq<char>,
    quando: Seq<char>,
) -> JsonView {
    no_fields().put("sessionId"@, JsonView::Str(sid)).put("model"@, JsonView::Str(model)).put(
        "exportedAt"@,
        JsonView::Str(quando),
    ).put("messages"@, JsonView::Arr(es.map_values(|e: Entry| entry_json(e))))
}

/// The conversation as JSON: the session, the model, the time and the messages.
pub fn build_export_json(
    messages: &[(String, String, MsgKind)],
    sid: &str,
    model: &str,
    quando: &str,
) -> (r: Json)
    ensures
        r@ == export_json(entries(messages@), sid@, model@, quando@),
{
    let ghost es = entries(messages@);
    let mut list: Vec<Json> = Vec::new();
    let mut i: usize = 0;
    while i < messages.len()
        invariant
            i <= messages@.len(),
            es == entries(messages@),
            list.deep_view() == es.map_values(|e: Entry| entry_json(e)).take(i as int),
        decreases messages@.len() - i,
    {
        let ghost before = list.deep_view();
        let word = if messages[i].2 == MsgKind::Reasoning {
            "reasoning"
        } else {
            "text"
        };
        let item = Json::object().with("role", Json::text(messages[i].0.as_str())).with(
            "kind",
            Json::text(word),
        ).with("text", Json::text(messages[i].1.as_str()));
        assert(item@ == entry_json(es[i as int]));
        list.push(item);
        assert(list.deep_view() =~= before.push(entry_json(es[i as int])));
        assert(list.deep_view() =~= es.map_values(|e: Entry| entry_json(e)).take(i + 1));
        i = i + 1;
    }
    assert(list.deep_view() =~= es.map_values(|e: Entry| entry_json(e)));
    let arr = Json::list(list);
    Json::object().with("sessionId", Json::text(sid)).with("model", Json::text(model)).with(
        "exportedAt",
        Json::text(quando),
    ).with("messages", arr)
}

/// The file name of an export: the short id of the session, and an extension
/// for the form.
pub open spec fn export_name(sid: Seq<char>, json: bool) -> Seq<char> {
    "zcode-export-"@ + (if sid8(sid).len() == 0 {
        "sess"@
    } else {
        sid8(sid)
    }) + "."@ + (if json {
        "json"@
    } else {
        "md"@
    })
}

pub fn export_default_path(sid: &str, json: bool) -> (r: String)
    ensures
        r@ == export_name(sid@, json),
{
    let short = sid_short8(sid);
    let mut s = "zcode-export-".to_owned();
    if short.as_str().is_empty() {
        s.append("sess");
    } else {
        s.append(short.as_str());
    }
    s.append(".");
    s.append(if json {
        "json"
    } else {
        "md"
    });
    s
}

/// What an export holds.
pub open spec fn export_body(
    es: Seq<Entry>,
    sid: Seq<char>,
    model: Seq<char>,
    quando: Seq<char>,
    json: bool,
) -> Seq<char> {
    if json {
        pretty_of_json(export_json(es, sid, model, quando))
    } else {
        export_md(es, sid, model, quando)
    }
}

/// The file of an export, and what it holds: the file that was asked for, else
/// one named after the session.
pub fn export_file(
    msgs: &[(String, String, MsgKind)],
    sid: &str,
    model: &str,
    quando: &str,
    path: Option<&str>,
    json: bool,
) -> (r: (String, String))
    ensures
        r.0@ == match path {
            Some(p) => p@,
            None => export_name(sid@, json),
        },
        r.1@ == export_body(entries(msgs@), sid@, model@, quando@, json),
        path matches Some(p) ==> r.0@ == p@,
        !json ==> forall|i: int|
            0 <= i < msgs@.len() && msgs@[i].2 == MsgKind::Text ==> contains(
                r.1@,
                (#[trigger] msgs@[i]).1@,
            ),
{
    proof {
        assert forall|i: int| 0 <= i < msgs@.len() && msgs@[i].2 == MsgKind::Text implies contains(
            export_md(entries(msgs@), sid@, model@, quando@),
            (#[trigger] msgs@[i]).1@,
        ) by {
            law_export_keeps_texts(entries(msgs@), i, sid@, model@, quando@);
        }
    }
    let body = if json {
        let v = build_export_json(msgs, sid, model, quando);
        write_json_pretty(&v)
    } else {
        build_export_md(msgs, sid, model, quando)
    };
    let name = match path {
        Some(p) => p.to_owned(),
        None => export_default_path(sid, json),
    };
    (name, body)
}

/// The messages of a conversation, to be written out.
pub open spec fn entries_of_items(items: Seq<MsgItemView>) -> Seq<Entry> {
    items.map_values(|i: MsgItemView| (i.role, i.text, i.kind))
}

/// The conversation that the server has, to be written out.
pub fn transcript_entries(messages_result: &Json) -> (r: Vec<(String, String, MsgKind)>)
    ensures
        entries(r@) == entries_of_items(display_items(messages_result@)),
{
    let items = extract_display_items(messages_result);
    let ghost all = entries_of_items(items.deep_view());
    let mut out: Vec<(String, String, MsgKind)> = Vec::new();
    let mut i: usize = 0;
    while i < items.len()
        invariant
            i <= items@.len(),
            all == entries_of_items(items.deep_view()),
            entries(out@) == all.take(i as int),
        decreases items@.len() - i,
    {
        let ghost before = out@;
        out.push((items[i].role.clone(), items[i].text.clone(), items[i].kind));
        proof {
            assert(entries(out@) =~= entries(before).push(all[i as int]));
            assert(all.take(i + 1) =~= all.take(i as int).push(all[i as int]));
        }
        i = i + 1;
    }
    assert(all.take(all.len() as int) =~= all);
    out
}

// ---------------------------------------------------------------- laws

/// The sections of a conversation stand in the order of its messages: those of
/// two runs of messages are those of the first, then those of the second.
pub proof fn law_sections_in_order(a: Seq<Entry>, b: Seq<Entry>)
    ensures
        sections_md(a + b) == sections_md(a) + sections_md(b),
    decreases b.len(),
{
    if b.len() == 0 {
        assert(a + b =~= a);
        assert(sections_md(a) + sections_md(b) =~= sections_md(a));
    } else {
        assert((a + b).drop_last() =~= a + b.drop_last());
        law_sections_in_order(a, b.drop_last());
        assert(sections_md(a) + sections_md(b.drop_last()) + section_md(b.last())
            =~= sections_md(a) + (sections_md(b.drop_last()) + section_md(b.last())));
    }
}

/// More messages only add to the end of the Markdown: what was exported of a
/// conversation begins what is exported of it when it has grown.
pub proof fn law_export_grows_at_the_end(
    a: Seq<Entry>,
    b: Seq<Entry>,
    sid: Seq<char>,
    model: Seq<char>,
    quando: Seq<char>,
)
    requires
        a.len() > 0,
    ensures
        export_md(a, sid, model, quando).is_prefix_of(export_md(a + b, sid, model, quando)),
        export_md(a + b, sid, model, quando) == export_md(a, sid, model, quando) + sections_md(b),
{
    law_sections_in_order(a, b);
    assert(export_md(a + b, sid, model, quando) =~= export_md(a, sid, model, quando) + sections_md(
        b,
    ));
}

/// The text of every message stands in the Markdown, after those before it and
/// before those after it; of thinking every line stands there.
pub proof fn law_export_keeps_texts(
    es: Seq<Entry>,
    i: int,
    sid: Seq<char>,
    model: Seq<char>,
    quando: Seq<char>,
)
    requires
        0 <= i < es.len(),
    ensures
        es[i].2 == MsgKind::Text ==> contains(export_md(es, sid, model, quando), es[i].1),
        es[i].2 == MsgKind::Reasoning ==> forall|k: int|
            0 <= k < lines(es[i].1).len() ==> contains(
                export_md(es, sid, model, quando),
                #[trigger] lines(es[i].1)[k],
            ),
{
    broadcast use group_contains;

    let before = es.take(i);
    let one = es.subrange(i, i + 1);
    let after = es.skip(i + 1);
    assert(es =~= before + (one + after));
    law_sections_in_order(before, one + after);
    law_sections_in_order(one, after);
    reveal_with_fuel(sections_md, 2);
    assert(one.drop_last() =~= Seq::<Entry>::empty());
    assert(one.last() == es[i]);
    assert(sections_md(one) =~= section_md(es[i]));
    let md = export_md(es, sid, model, quando);
    assert(contains(sections_md(one) + sections_md(after), section_md(es[i])));
    assert(contains(sections_md(es), section_md(es[i])));
    assert(contains(md, section_md(es[i])));
    assert(contains(section_md(es[i]), body_md(es[i])));
    lemma_contains_trans(md, section_md(es[i]), body_md(es[i]));
    if es[i].2 == MsgKind::Text {
        assert(contains(body_md(es[i]), es[i].1));
        lemma_contains_trans(md, body_md(es[i]), es[i].1);
    } else {
        assert forall|k: int| 0 <= k < lines(es[i].1).len() implies contains(
            md,
            #[trigger] lines(es[i].1)[k],
        ) by {
            lemma_quoted_keeps_lines(lines(es[i].1), k);
            assert(contains(body_md(es[i]), lines(es[i].1)[k]));
            lemma_contains_trans(md, body_md(es[i]), lines(es[i].1)[k]);
        }
    }
}

proof fn lemma_quoted_keeps_lines(ls: Seq<Seq<char>>, k: int)
    requires
        0 <= k < ls.len(),
    ensures
        contains(quoted(ls), ls[k]),
    decreases ls.len(),
{
    broadcast use group_contains;

    if k == ls.len() - 1 {
        assert(contains(quoted(ls), ls.last()));
    } else {
        lemma_quoted_keeps_lines(ls.drop_last(), k);
        assert(contains(quoted(ls.drop_last()), ls[k]));
    }
}

/// The lines of thinking stand in their order.
pub proof fn law_quoted_in_order(a: Seq<Seq<char>>, b: Seq<Seq<char>>)
    ensures
        quoted(a + b) == quoted(a) + quoted(b),
    decreases b.len(),
{
    if b.len() == 0 {
        assert(a + b =~= a);
        assert(quoted(a) + quoted(b) =~= quoted(a));
    } else {
        assert((a + b).drop_last() =~= a + b.drop_last());
        law_quoted_in_order(a, b.drop_last());
        assert(quoted(a + b) =~= quoted(a) + quoted(b));
    }
}

/// The head of the Markdown names the session, the model and the time.
pub proof fn law_export_head(es: Seq<Entry>, sid: Seq<char>, model: Seq<char>, quando: Seq<char>)
    ensures
        contains(export_md(es, sid, model, quando), first_chars(sid, 8)),
        contains(export_md(es, sid, model, quando), model),
        contains(export_md(es, sid, model, quando), quando),
{
    broadcast use group_contains;

    let head = head_md(sid, model, quando);
    let md = export_md(es, sid, model, quando);
    assert(contains(md, head));
    assert(contains(head, sid8(sid)));
    assert(contains(head, quando));
    if model.len() == 0 {
        assert(head.subrange(0, 0) =~= model);
        assert(occurs_at(head, model, 0));
    }
    assert(contains(head, model));
    lemma_contains_trans(md, head, sid8(sid));
    lemma_contains_trans(md, head, quando);
    lemma_contains_trans(md, head, model);
}

/// Which heading a message gets: thinking is told apart from texts, and the
/// texts of the user, of the assistant and of anyone else from each other.
pub proof fn law_headings_tell_apart(role: Seq<char>, other: Seq<char>)
    ensures
        badge(role, MsgKind::Reasoning) == badge(other, MsgKind::Reasoning),
        badge(role, MsgKind::Reasoning) != badge(other, MsgKind::Text),
        role == "user"@ && other != "user"@ ==> badge(role, MsgKind::Text) != badge(
            other,
            MsgKind::Text,
        ),
        role == "assistant"@ && other != "assistant"@ ==> badge(role, MsgKind::Text) != badge(
            other,
            MsgKind::Text,
        ),
        badge("user"@, MsgKind::Text) == "USER"@,
        badge("assistant"@, MsgKind::Text) == "ASSIST"@,
        badge(role, MsgKind::Reasoning) == "THINK"@,
{
    reveal_strlit("THINK");
    reveal_strlit("USER");
    reveal_strlit("ASSIST");
    reveal_strlit("SYS");
    reveal_strlit("user");
    reveal_strlit("assistant");
    assert("THINK"@.len() == 5 && "USER"@.len() == 4 && "ASSIST"@.len() == 6 && "SYS"@.len() == 3);
    assert("user"@.len() == 4 && "assistant"@.len() == 9);
}

/// The JSON form holds the session, the model, the time, and every message in
/// its place with its role, its text and its kind.
pub proof fn law_export_json_keeps_all(
    es: Seq<Entry>,
    sid: Seq<char>,
    model: Seq<char>,
    quando: Seq<char>,
)
    ensures
        export_json(es, sid, model, quando).text_at("sessionId"@) == Some(sid),
        export_json(es, sid, model, quando).text_at("model"@) == Some(model),
        export_json(es, sid, model, quando).text_at("exportedAt"@) == Some(quando),
        export_json(es, sid, model, quando).items_at("messages"@) matches Some(ms) && ms.len()
            == es.len() && (forall|i: int|
            0 <= i < es.len() ==> (#[trigger] ms[i]).text_at("role"@) == Some(es[i].0)
                && ms[i].text_at("text"@) == Some(es[i].1) && ms[i].text_at("kind"@) == Some(
                if es[i].2 == MsgKind::Reasoning {
                    "reasoning"@
                } else {
                    "text"@
                },
            )),
{
    reveal_strlit("sessionId");
    reveal_strlit("model");
    reveal_strlit("exportedAt");
    reveal_strlit("messages");
    assert("sessionId"@.len() == 9 && "model"@.len() == 5 && "exportedAt"@.len() == 10 && "messages"@.len() == 8);
    reveal_strlit("role");
    reveal_strlit("kind");
    reveal_strlit("text");
    assert("role"@.len() == 4 && "kind"@.len() == 4 && "text"@.len() == 4);
    assert("role"@[0] != "kind"@[0]);
    assert("role"@[0] != "text"@[0]);
    assert("kind"@[0] != "text"@[0]);
}

/// The entries of a conversation are its items one for one.
pub proof fn law_entries_of_items(items: Seq<MsgItemView>, i: int)
    requires
        0 <= i < items.len(),
    ensures
        entries_of_items(items).len() == items.len(),
        entries_of_items(items)[i].0 == items[i].role,
        entries_of_items(items)[i].1 == items[i].text,
        entries_of_items(items)[i].2 == items[i].kind,
{
}

/// The name of the file holds the short id and ends as its form does.
pub proof fn law_export_name(sid: Seq<char>)
    ensures
        contains(export_name(sid, true), first_chars(sid, 8)),
        contains(export_name(sid, false), first_chars(sid, 8)),
        ".json"@.is_suffix_of(export_name(sid, true)),
        ".md"@.is_suffix_of(export_name(sid, false)),
        export_name(sid, true) != export_name(sid, false),
{
    broadcast use group_contains;

    reveal_strlit(".");
    reveal_strlit("json");
    reveal_strlit("md");
    reveal_strlit(".json");
    reveal_strlit(".md");
    let a = export_name(sid, true);
    let b = export_name(sid, false);
    if sid8(sid).len() == 0 {
        assert(a.subrange(0, 0) =~= sid8(sid));
        assert(occurs_at(a, sid8(sid), 0));
        assert(b.subrange(0, 0) =~= sid8(sid));
        assert(occurs_at(b, sid8(sid), 0));
    }
    assert(a.subrange(a.len() - 5, a.len() as int) =~= ".json"@);
    assert(b.subrange(b.len() - 3, b.len() as int) =~= ".md"@);
    assert(a.len() != b.len());
}

/// A section begins with the heading of its message.
pub proof fn law_section_heading(e: Entry)
    ensures
        ("## "@ + badge(e.0, e.2)).is_prefix_of(section_md(e)),
{
    let h = "## "@ + badge(e.0, e.2);
    assert(section_md(e).subrange(0, h.len() as int) =~= h);
}

} // verus!
