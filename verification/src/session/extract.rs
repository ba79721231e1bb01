//! What is read from the results of session calls. The shapes are read
//! defensively: a field that is missing or of another type counts as absent.

use crate::config::default_model;
use crate::json::{Json, JsonView};
use crate::text::{blank, is_blank, same};
use vstd::prelude::*;

verus! {

// ---------------------------------------------------------------- creation

pub open spec fn session_id_of(v: JsonView) -> Option<Seq<char>> {
    match v.get2("session"@, "sessionId"@) {
        Some(s) => s.as_text(),
        None => None,
    }
}

pub fn extract_session_id(create_result: &Json) -> (r: Option<String>)
    ensures
        r.deep_view() == session_id_of(create_result@),
{
    match create_result.get2("session", "sessionId") {
        Some(s) => match s.as_str() {
            Some(t) => Some(t.to_owned()),
            None => None,
        },
        None => None,
    }
}

/// The session that a call reached: the one the server names, else the one that
/// was asked for.
pub fn session_id_or(result: &Json, asked: &str) -> (r: String)
    ensures
        r@ == match session_id_of(result@) {
            Some(s) => s,
            None => asked@,
        },
{
    match extract_session_id(result) {
        Some(s) => s,
        None => asked.to_owned(),
    }
}

pub open spec fn title_of(v: JsonView) -> Seq<char> {
    match v.get2("session"@, "title"@) {
        Some(s) => match s.as_text() {
            Some(t) => t,
            None => ""@,
        },
        None => ""@,
    }
}

/// The title of a created session, empty where it has none.
pub fn session_title(create_result: &Json) -> (r: String)
    ensures
        r@ == title_of(create_result@),
{
    match create_result.get2("session", "title") {
        Some(s) => match s.as_str() {
            Some(t) => t.to_owned(),
            None => "".to_owned(),
        },
        None => "".to_owned(),
    }
}

pub fn extract_protocol_version(create_result: &Json) -> (r: Option<u64>)
    ensures
        r == match create_result@.get2("protocol"@, "version"@) {
            Some(v) => v.as_unsigned(),
            None => None,
        },
{
    match create_result.get2("protocol", "version") {
        Some(v) => v.as_u64(),
        None => None,
    }
}

// ---------------------------------------------------------------- models

/// `settings.model` of a result.
pub open spec fn model_settings(v: JsonView) -> Option<JsonView> {
    v.get2("settings"@, "model"@)
}

/// The reference of the model in use: the current one, else the last used.
pub open spec fn model_in_use(v: JsonView) -> Option<JsonView> {
    match model_settings(v) {
        Some(m) => match m.get("current"@) {
            Some(c) => Some(c),
            None => m.get("lastUsed"@),
        },
        None => None,
    }
}

pub open spec fn effective_model_text(v: JsonView) -> Seq<char> {
    match model_in_use(v) {
        Some(c) => match (c.text_at("providerId"@), c.text_at("modelId"@)) {
            (Some(p), Some(m)) => p + "/"@ + m,
            _ => "zai/glm-5.3"@,
        },
        None => "zai/glm-5.3"@,
    }
}

/// The model in use on the server, else the default one.
pub fn effective_model(create_or_resume_result: &Json) -> (r: String)
    ensures
        r@ == effective_model_text(create_or_resume_result@),
{
    let used = match create_or_resume_result.get2("settings", "model") {
        Some(m) => match m.get("current") {
            Some(c) => Some(c),
            None => m.get("lastUsed"),
        },
        None => None,
    };
    match used {
        Some(c) => match (c.str_at("providerId"), c.str_at("modelId")) {
            (Some(p), Some(m)) => {
                let mut s = p.to_owned();
                s.append("/");
                s.append(m);
                return s;
            },
            _ => {},
        },
        None => {},
    }
    default_model()
}

/// A model that a session can be set to.
#[derive(Debug, Clone, PartialEq, Eq, Default)]
pub struct AvailableModel {
    pub label: String,
    pub provider_id: String,
    pub model_id: String,
    pub context_window: u64,
}

pub struct AvailableModelView {
    pub label: Seq<char>,
    pub provider_id: Seq<char>,
    pub model_id: Seq<char>,
    pub context_window: u64,
}

impl DeepView for AvailableModel {
    type V = AvailableModelView;

    open spec fn deep_view(&self) -> AvailableModelView {
        AvailableModelView {
            label: self.label@,
            provider_id: self.provider_id@,
            model_id: self.model_id@,
            context_window: self.context_window,
        }
    }
}

/// A text under a key, empty where there is none.
pub open spec fn text_or_empty(v: JsonView, key: Seq<char>) -> Seq<char> {
    match v.text_at(key) {
        Some(t) => t,
        None => ""@,
    }
}

fn str_or_empty(v: &Json, key: &str) -> (r: String)
    ensures
        r@ == text_or_empty(v@, key@),
{
    match v.str_at(key) {
        Some(t) => t.to_owned(),
        None => "".to_owned(),
    }
}

/// A text under two keys, empty where there is none.
pub open spec fn text2_or_empty(v: JsonView, a: Seq<char>, b: Seq<char>) -> Seq<char> {
    match v.get(a) {
        Some(w) => text_or_empty(w, b),
        None => ""@,
    }
}

fn str2_or_empty(v: &Json, a: &str, b: &str) -> (r: String)
    ensures
        r@ == text2_or_empty(v@, a@, b@),
{
    match v.get(a) {
        Some(w) => str_or_empty(w, b),
        None => "".to_owned(),
    }
}

pub open spec fn model_of(m: JsonView) -> AvailableModelView {
    AvailableModelView {
        label: text_or_empty(m, "label"@),
        provider_id: text2_or_empty(m, "ref"@, "providerId"@),
        model_id: text2_or_empty(m, "ref"@, "modelId"@),
        context_window: match m.unsigned_at("contextWindow"@) {
            Some(n) => n,
            None => 0,
        },
    }
}

/// The models of a list that have an id, in its order.
pub open spec fn models_of(list: Seq<JsonView>) -> Seq<AvailableModelView> {
    list.map_values(|m: JsonView| model_of(m)).filter(|m: AvailableModelView| m.model_id.len() > 0)
}

pub open spec fn offered(v: JsonView) -> Seq<JsonView> {
    match model_settings(v) {
        Some(m) => match m.items_at("available"@) {
            Some(a) => a,
            None => Seq::empty(),
        },
        None => Seq::empty(),
    }
}

fn read_model(m: &Json) -> (r: AvailableModel)
    ensures
        r.deep_view() == model_of(m@),
{
    AvailableModel {
        label: str_or_empty(m, "label"),
        provider_id: str2_or_empty(m, "ref", "providerId"),
        model_id: str2_or_empty(m, "ref", "modelId"),
        context_window: match m.u64_at("contextWindow") {
            Some(n) => n,
            None => 0,
        },
    }
}

/// The models that a result offers.
pub fn available_models(create_or_resume_result: &Json) -> (r: Vec<AvailableModel>)
    ensures
        r.deep_view() == models_of(offered(create_or_resume_result@)),
{
    let ghost keep = |m: AvailableModelView| m.model_id.len() > 0;
    let mut out: Vec<AvailableModel> = Vec::new();
    let list = match create_or_resume_result.get2("settings", "model") {
        Some(m) => m.array_at("available"),
        None => None,
    };
    match list {
        Some(a) => {
            let ghost read = a.deep_view().map_values(|m: JsonView| model_of(m));
            let mut i: usize = 0;
            assert(out.deep_view() =~= read.take(0).filter(keep));
            while i < a.len()
                invariant
                    i <= a@.len(),
                    keep == (|m: AvailableModelView| m.model_id.len() > 0),
                    read == a.deep_view().map_values(|m: JsonView| model_of(m)),
                    out.deep_view() == read.take(i as int).filter(keep),
                decreases a@.len() - i,
            {
                let m = read_model(&a[i]);
                proof {
                    reveal(Seq::filter);
                    assert(read.take(i + 1).drop_last() == read.take(i as int));
                    assert(read.take(i + 1).last() == m.deep_view());
                }
                if !m.model_id.as_str().is_empty() {
                    let ghost before = out.deep_view();
                    out.push(m);
                    assert(out.deep_view() =~= before.push(m.deep_view()));
                }
                i = i + 1;
            }
            assert(read.take(a@.len() as int) == read);
        },
        None => {
            assert(offered(create_or_resume_result@) =~= Seq::empty());
            assert(out.deep_view() =~= models_of(offered(create_or_resume_result@)));
        },
    }
    out
}

// ---------------------------------------------------------------- messages

/// The kind of an item of a transcript.
#[derive(Debug, Clone, Copy, PartialEq, Eq, Structural)]
pub enum MsgKind {
    Text,
    Reasoning,
}

impl Default for MsgKind {
    fn default() -> (r: MsgKind)
        ensures
            r == MsgKind::Text,
    {
        MsgKind::Text
    }
}

/// An item of a transcript.
#[derive(Debug, Clone, PartialEq, Eq)]
pub struct MsgItem {
    pub role: String,
    pub text: String,
    pub kind: MsgKind,
}

pub struct MsgItemView {
    pub role: Seq<char>,
    pub text: Seq<char>,
    pub kind: MsgKind,
}

impl DeepView for MsgItem {
    type V = MsgItemView;

    open spec fn deep_view(&self) -> MsgItemView {
        MsgItemView { role: self.role@, text: self.text@, kind: self.kind }
    }
}

impl MsgItem {
    /// A copy.
    pub fn dup(&self) -> (r: MsgItem)
        ensures
            r.deep_view() == self.deep_view(),
    {
        MsgItem { role: self.role.clone(), text: self.text.clone(), kind: self.kind }
    }

    pub fn same_as(&self, other: &MsgItem) -> (r: bool)
        ensures
            r == (self.deep_view() == other.deep_view()),
    {
        self.role == other.role && self.text == other.text && self.kind == other.kind
    }
}

/// The messages of a result: its `messages`, else the result itself as a list.
pub open spec fn message_list(v: JsonView) -> Seq<JsonView> {
    match v.items_at("messages"@) {
        Some(a) => a,
        None => match v.as_items() {
            Some(a) => a,
            None => Seq::empty(),
        },
    }
}

/// The role of a message: `info.role`, else `role`, else `?`.
pub open spec fn role_of(m: JsonView) -> Seq<char> {
    match m.get("info"@) {
        Some(i) => match i.text_at("role"@) {
            Some(t) => t,
            None => match m.text_at("role"@) {
                Some(t) => t,
                None => "?"@,
            },
        },
        None => match m.text_at("role"@) {
            Some(t) => t,
            None => "?"@,
        },
    }
}

/// The texts of the parts of one type, one after the other.
pub open spec fn parts_text(parts: Seq<JsonView>, kind: Seq<char>) -> Seq<char>
    decreases parts.len(),
{
    if parts.len() == 0 {
        Seq::empty()
    } else {
        let before = parts_text(parts.drop_last(), kind);
        if parts.last().text_at("type"@) == Some(kind) {
            match parts.last().text_at("text"@) {
                Some(t) => before + t,
                None => before,
            }
        } else {
            before
        }
    }
}

pub open spec fn parts_of(m: JsonView) -> Seq<JsonView> {
    match m.items_at("parts"@) {
        Some(p) => p,
        None => Seq::empty(),
    }
}

/// An item, unless its text is blank.
pub open spec fn item_unless_blank(role: Seq<char>, text: Seq<char>, kind: MsgKind) -> Seq<
    MsgItemView,
> {
    if blank(text) {
        Seq::empty()
    } else {
        seq![MsgItemView { role, text, kind }]
    }
}

/// The items of one message: its reasoning, then its text.
pub open spec fn items_of(m: JsonView) -> Seq<MsgItemView> {
    item_unless_blank(role_of(m), parts_text(parts_of(m), "reasoning"@), MsgKind::Reasoning)
        + item_unless_blank(role_of(m), parts_text(parts_of(m), "text"@), MsgKind::Text)
}

pub open spec fn items_of_all(list: Seq<JsonView>) -> Seq<MsgItemView>
    decreases list.len(),
{
    if list.len() == 0 {
        Seq::empty()
    } else {
        items_of_all(list.drop_last()) + items_of(list.last())
    }
}

/// The transcript that a result of `session/messages` shows.
pub open spec fn display_items(v: JsonView) -> Seq<MsgItemView> {
    items_of_all(message_list(v))
}

fn message_role(m: &Json) -> (r: String)
    ensures
        r@ == role_of(m@),
{
    match m.get("info") {
        Some(i) => match i.str_at("role") {
            Some(t) => {
                return t.to_owned();
            },
            None => {},
        },
        None => {},
    }
    match m.str_at("role") {
        Some(t) => t.to_owned(),
        None => "?".to_owned(),
    }
}

/// The texts of the parts of one type.
fn read_parts(m: &Json, kind: &str) -> (r: String)
    ensures
        r@ == parts_text(parts_of(m@), kind@),
{
    let mut out: String = String::new();
    match m.array_at("parts") {
        Some(parts) => {
            let mut i: usize = 0;
            while i < parts.len()
                invariant
                    i <= parts@.len(),
                    out@ == parts_text(parts.deep_view().take(i as int), kind@),
                decreases parts@.len() - i,
            {
                proof {
                    let t = parts.deep_view().take(i + 1);
                    assert(t.drop_last() == parts.deep_view().take(i as int));
                    assert(t.last() == parts@[i as int]@);
                }
                match parts[i].str_at("type") {
                    Some(t) => {
                        if same(t, kind) {
                            match parts[i].str_at("text") {
                                Some(x) => {
                                    out.append(x);
                                },
                                None => {},
                            }
                        }
                    },
                    None => {},
                }
                i = i + 1;
            }
            assert(parts.deep_view().take(parts@.len() as int) == parts.deep_view());
        },
        None => {},
    }
    out
}

/// The transcript that a result of `session/messages` shows: for each message
/// its reasoning before its text, blank ones left out.
pub fn extract_display_items(messages_result: &Json) -> (r: Vec<MsgItem>)
    ensures
        r.deep_view() == display_items(messages_result@),
{
    let mut out: Vec<MsgItem> = Vec::new();
    let list = match messages_result.array_at("messages") {
        Some(a) => Some(a),
        None => messages_result.as_array(),
    };
    match list {
        Some(a) => {
            let mut i: usize = 0;
            assert(out.deep_view() =~= items_of_all(a.deep_view().take(0)));
            while i < a.len()
                invariant
                    i <= a@.len(),
                    out.deep_view() == items_of_all(a.deep_view().take(i as int)),
                decreases a@.len() - i,
            {
                let ghost before = out.deep_view();
                let ghost m = a@[i as int]@;
                proof {
                    let t = a.deep_view().take(i + 1);
                    assert(t.drop_last() == a.deep_view().take(i as int));
                    assert(t.last() == m);
                }
                let role = message_role(&a[i]);
                let reasoning = read_parts(&a[i], "reasoning");
                let text = read_parts(&a[i], "text");
                if !is_blank(reasoning.as_str()) {
                    out.push(
                        MsgItem { role: role.clone(), text: reasoning, kind: MsgKind::Reasoning },
                    );
                }
                let ghost mid = out.deep_view();
                assert(mid =~= before + item_unless_blank(
                    role_of(m),
                    parts_text(parts_of(m), "reasoning"@),
                    MsgKind::Reasoning,
                ));
                if !is_blank(text.as_str()) {
                    out.push(MsgItem { role, text, kind: MsgKind::Text });
                }
                assert(out.deep_view() =~= mid + item_unless_blank(
                    role_of(m),
                    parts_text(parts_of(m), "text"@),
                    MsgKind::Text,
                ));
                assert(out.deep_view() =~= before + items_of(m));
                i = i + 1;
            }
            assert(a.deep_view().take(a@.len() as int) == a.deep_view());
        },
        None => {
            assert(out.deep_view() =~= display_items(messages_result@));
        },
    }
    out
}

/// The items that are text, as role and text.
pub open spec fn texts_of(items: Seq<MsgItemView>) -> Seq<(Seq<char>, Seq<char>)>
    decreases items.len(),
{
    if items.len() == 0 {
        Seq::empty()
    } else if items.last().kind == MsgKind::Text {
        texts_of(items.drop_last()).push((items.last().role, items.last().text))
    } else {
        texts_of(items.drop_last())
    }
}

/// Role and text of each text item; reasoning is left out.
pub fn extract_text_messages(messages_result: &Json) -> (r: Vec<(String, String)>)
    ensures
        r.deep_view() == texts_of(display_items(messages_result@)),
{
    let items = extract_display_items(messages_result);
    let mut out: Vec<(String, String)> = Vec::new();
    let mut i: usize = 0;
    assert(out.deep_view() =~= texts_of(items.deep_view().take(0)));
    while i < items.len()
        invariant
            i <= items@.len(),
            out.deep_view() == texts_of(items.deep_view().take(i as int)),
        decreases items@.len() - i,
    {
        proof {
            let t = items.deep_view().take(i + 1);
            assert(t.drop_last() == items.deep_view().take(i as int));
            assert(t.last() == items@[i as int].deep_view());
        }
        if items[i].kind == MsgKind::Text {
            let ghost before = out.deep_view();
            out.push((items[i].role.clone(), items[i].text.clone()));
            assert(out.deep_view() =~= before.push(
                (items@[i as int].role@, items@[i as int].text@),
            ));
        }
        i = i + 1;
    }
    assert(items.deep_view().take(items@.len() as int) == items.deep_view());
    out
}

/// The text of the last message of a role.
pub open spec fn last_of_role(list: Seq<(Seq<char>, Seq<char>)>, role: Seq<char>) -> Option<
    Seq<char>,
>
    decreases list.len(),
{
    if list.len() == 0 {
        None
    } else if list.last().0 == role {
        Some(list.last().1)
    } else {
        last_of_role(list.drop_last(), role)
    }
}

pub open spec fn assistant_text(v: JsonView) -> Option<Seq<char>> {
    last_of_role(texts_of(display_items(v)), "assistant"@)
}

pub fn last_assistant_text(messages_result: &Json) -> (r: Option<String>)
    ensures
        r.deep_view() == assistant_text(messages_result@),
{
    let list = extract_text_messages(messages_result);
    let mut i: usize = list.len();
    assert(list.deep_view().take(list@.len() as int) == list.deep_view());
    while i > 0
        invariant
            i <= list@.len(),
            list.deep_view() == texts_of(display_items(messages_result@)),
            last_of_role(list.deep_view(), "assistant"@) == last_of_role(
                list.deep_view().take(i as int),
                "assistant"@,
            ),
        decreases i,
    {
        proof {
            let t = list.deep_view().take(i as int);
            assert(t.last() == list@[i - 1].deep_view());
            assert(t.drop_last() == list.deep_view().take(i - 1));
        }
        if same(list[i - 1].0.as_str(), "assistant") {
            return Some(list[i - 1].1.clone());
        }
        i = i - 1;
    }
    None
}

/// No item of a transcript is blank.
pub proof fn law_items_not_blank(v: JsonView, i: int)
    requires
        0 <= i < display_items(v).len(),
    ensures
        !blank(display_items(v)[i].text),
{
    lemma_items_not_blank(message_list(v), i);
}

proof fn lemma_items_not_blank(list: Seq<JsonView>, i: int)
    requires
        0 <= i < items_of_all(list).len(),
    ensures
        !blank(items_of_all(list)[i].text),
    decreases list.len(),
{
    let before = items_of_all(list.drop_last());
    if i < before.len() {
        lemma_items_not_blank(list.drop_last(), i);
    } else {
        assert(items_of_all(list)[i] == items_of(list.last())[i - before.len()]);
    }
}

// ---------------------------------------------------------------- usage

/// Token counts of a session.
#[derive(Debug, Clone, Copy, PartialEq, Eq, Structural)]
pub struct Usage {
    pub total_tokens: u64,
    pub input_tokens: u64,
    pub output_tokens: u64,
    pub reasoning_tokens: u64,
    pub cache_creation_tokens: u64,
    pub cache_read_tokens: u64,
    pub model_request_count: u64,
}

impl Default for Usage {
    fn default() -> (r: Usage)
        ensures
            r == no_usage(),
    {
        Usage {
            total_tokens: 0,
            input_tokens: 0,
            output_tokens: 0,
            reasoning_tokens: 0,
            cache_creation_tokens: 0,
            cache_read_tokens: 0,
            model_request_count: 0,
        }
    }
}

pub open spec fn no_usage() -> Usage {
    Usage {
        total_tokens: 0,
        input_tokens: 0,
        output_tokens: 0,
        reasoning_tokens: 0,
        cache_creation_tokens: 0,
        cache_read_tokens: 0,
        model_request_count: 0,
    }
}

/// A count under its camel-case key, else under its snake-case key, else zero.
pub open spec fn count_at(v: JsonView, camel: Seq<char>, snake: Seq<char>) -> u64 {
    match v.unsigned_at(camel) {
        Some(n) => n,
        None => match v.unsigned_at(snake) {
            Some(n) => n,
            None => 0,
        },
    }
}

pub open spec fn usage_of(v: JsonView) -> Usage {
    Usage {
        total_tokens: count_at(v, "totalTokens"@, "total_tokens"@),
        input_tokens: count_at(v, "inputTokens"@, "input_tokens"@),
        output_tokens: count_at(v, "outputTokens"@, "output_tokens"@),
        reasoning_tokens: count_at(v, "reasoningTokens"@, "reasoning_tokens"@),
        cache_creation_tokens: count_at(v, "cacheCreationTokens"@, "cache_creation_tokens"@),
        cache_read_tokens: count_at(v, "cacheReadTokens"@, "cache_read_tokens"@),
        model_request_count: count_at(v, "modelRequestCount"@, "model_request_count"@),
    }
}

fn read_count(v: &Json, camel: &str, snake: &str) -> (r: u64)
    ensures
        r == count_at(v@, camel@, snake@),
{
    match v.u64_at(camel) {
        Some(n) => n,
        None => match v.u64_at(snake) {
            Some(n) => n,
            None => 0,
        },
    }
}

pub fn parse_usage(v: &Json) -> (r: Usage)
    ensures
        r == usage_of(v@),
{
    Usage {
        total_tokens: read_count(v, "totalTokens", "total_tokens"),
        input_tokens: read_count(v, "inputTokens", "input_tokens"),
        output_tokens: read_count(v, "outputTokens", "output_tokens"),
        reasoning_tokens: read_count(v, "reasoningTokens", "reasoning_tokens"),
        cache_creation_tokens: read_count(v, "cacheCreationTokens", "cache_creation_tokens"),
        cache_read_tokens: read_count(v, "cacheReadTokens", "cache_read_tokens"),
        model_request_count: read_count(v, "modelRequestCount", "model_request_count"),
    }
}

/// What one turn took.
#[derive(Debug, Clone, Copy, PartialEq, Eq, Structural)]
pub struct TurnStats {
    pub input_tokens: u64,
    pub output_tokens: u64,
    pub total_tokens: u64,
    pub elapsed_ms: u64,
    pub elapsed_nanos: u128,
}

/// A difference that stops at zero.
pub open spec fn gain(before: u64, after: u64) -> u64 {
    if after >= before {
        (after - before) as u64
    } else {
        0
    }
}

pub open spec fn turn_stats(before: Usage, after: Usage, elapsed_nanos: u128) -> TurnStats {
    TurnStats {
        input_tokens: gain(before.input_tokens, after.input_tokens),
        output_tokens: gain(before.output_tokens, after.output_tokens),
        total_tokens: gain(before.total_tokens, after.total_tokens),
        elapsed_ms: if elapsed_nanos / 1_000_000 > u64::MAX {
            u64::MAX
        } else {
            (elapsed_nanos / 1_000_000) as u64
        },
        elapsed_nanos,
    }
}

/// The differences between the counts before and after a turn.
pub fn measure_turn(before: &Usage, after: &Usage, elapsed_nanos: u128) -> (r: TurnStats)
    ensures
        r == turn_stats(*before, *after, elapsed_nanos),
{
    let millis: u128 = elapsed_nanos / 1_000_000;
    TurnStats {
        input_tokens: after.input_tokens.saturating_sub(before.input_tokens),
        output_tokens: after.output_tokens.saturating_sub(before.output_tokens),
        total_tokens: after.total_tokens.saturating_sub(before.total_tokens),
        elapsed_ms: if millis > u64::MAX as u128 {
            u64::MAX
        } else {
            millis as u64
        },
        elapsed_nanos,
    }
}

impl TurnStats {
    /// The tokens put out and the nanoseconds they took, from which the rate is
    /// computed; none where no time passed.
    pub fn rate(&self) -> (r: Option<(u64, u128)>)
        ensures
            r == if self.elapsed_nanos > 0 {
                Some((self.output_tokens, self.elapsed_nanos))
            } else {
                None::<(u64, u128)>
            },
            r matches Some((tokens, nanos)) ==> tokens == self.output_tokens && 0 < nanos == self.elapsed_nanos,
    {
        if self.elapsed_nanos > 0 {
            Some((self.output_tokens, self.elapsed_nanos))
        } else {
            None
        }
    }
}

// ---------------------------------------------------------------- context

/// How much of the context window is used.
#[derive(Debug, Clone, Copy, PartialEq, Eq, Structural)]
pub struct ContextUsage {
    pub window: u64,
    pub used: u64,
}

impl Default for ContextUsage {
    fn default() -> (r: ContextUsage)
        ensures
            r == (ContextUsage { window: 0, used: 0 }),
    {
        ContextUsage { window: 0, used: 0 }
    }
}

impl ContextUsage {
    /// The used part over the window, never more than the whole of it; none
    /// where the window is not known.
    pub fn share(&self) -> (r: Option<(u64, u64)>)
        ensures
            r == if self.window == 0 {
                None::<(u64, u64)>
            } else if self.used <= self.window {
                Some((self.used, self.window))
            } else {
                Some((self.window, self.window))
            },
            r matches Some((used, whole)) ==> used <= whole && whole == self.window && (self.used
                <= self.window ==> used == self.used),
    {
        if self.window == 0 {
            None
        } else if self.used <= self.window {
            Some((self.used, self.window))
        } else {
            Some((self.window, self.window))
        }
    }
}

/// The projection of a result, else the result itself.
pub open spec fn projection_of(v: JsonView) -> JsonView {
    match v.get("projection"@) {
        Some(p) => p,
        None => v,
    }
}

pub open spec fn context_of(v: JsonView) -> ContextUsage {
    ContextUsage {
        window: match projection_of(v).unsigned_at("contextWindow"@) {
            Some(n) => n,
            None => 0,
        },
        used: match projection_of(v).unsigned_at("contextUsed"@) {
            Some(n) => n,
            None => 0,
        },
    }
}

/// The context that a result, or a projection, reports; zero where it reports
/// none.
pub fn parse_context(create_or_projection: &Json) -> (r: ContextUsage)
    ensures
        r == context_of(create_or_projection@),
{
    let proj = match create_or_projection.get("projection") {
        Some(p) => p,
        None => create_or_projection,
    };
    ContextUsage {
        window: match proj.u64_at("contextWindow") {
            Some(n) => n,
            None => 0,
        },
        used: match proj.u64_at("contextUsed") {
            Some(n) => n,
            None => 0,
        },
    }
}

// ---------------------------------------------------------------- laws

/// What one role said last, told by positions: some message of the role holds
/// it and no later message is of that role; there is nothing exactly where no
/// message is of that role.
pub proof fn law_last_of_role(list: Seq<(Seq<char>, Seq<char>)>, role: Seq<char>)
    ensures
        match last_of_role(list, role) {
            Some(t) => exists|i: int|
                0 <= i < list.len() && #[trigger] list[i] == (role, t) && (forall|j: int|
                    i < j < list.len() ==> (#[trigger] list[j]).0 != role),
            None => forall|i: int| 0 <= i < list.len() ==> (#[trigger] list[i]).0 != role,
        },
    decreases list.len(),
{
    if list.len() > 0 {
        let before = list.drop_last();
        let n = list.len() - 1;
        if list.last().0 == role {
            assert(list[n] == (role, list.last().1));
        } else {
            law_last_of_role(before, role);
            match last_of_role(before, role) {
                Some(t) => {
                    let i = choose|i: int|
                        0 <= i < before.len() && #[trigger] before[i] == (role, t) && (forall|j: int|
                            i < j < before.len() ==> (#[trigger] before[j]).0 != role);
                    assert(list[i] == (role, t));
                    assert forall|j: int| i < j < list.len() implies (#[trigger] list[j]).0
                        != role by {
                        if j < n {
                            assert(before[j] == list[j]);
                        }
                    }
                },
                None => {
                    assert forall|i: int| 0 <= i < list.len() implies (#[trigger] list[i]).0
                        != role by {
                        if i < n {
                            assert(before[i] == list[i]);
                        }
                    }
                },
            }
        }
    }
}

/// A message of a role that no message of the role follows is what that role
/// said last.
pub proof fn law_last_of_role_at(list: Seq<(Seq<char>, Seq<char>)>, role: Seq<char>, i: int)
    requires
        0 <= i < list.len(),
        list[i].0 == role,
        forall|j: int| i < j < list.len() ==> (#[trigger] list[j]).0 != role,
    ensures
        last_of_role(list, role) == Some(list[i].1),
{
    law_last_of_role(list, role);
    match last_of_role(list, role) {
        Some(t) => {
            let k = choose|k: int|
                0 <= k < list.len() && #[trigger] list[k] == (role, t) && (forall|j: int|
                    k < j < list.len() ==> (#[trigger] list[j]).0 != role);
            assert(k == i);
        },
        None => {},
    }
}

/// The answer of a conversation is the assistant's last text, not an earlier one.
pub proof fn law_answer_is_the_last(v: JsonView, i: int)
    requires
        0 <= i < texts_of(display_items(v)).len(),
        texts_of(display_items(v))[i].0 == "assistant"@,
    ensures
        assistant_text(v) is Some,
        (forall|j: int|
            i < j < texts_of(display_items(v)).len() ==> (#[trigger] texts_of(
                display_items(v),
            )[j]).0 != "assistant"@) ==> assistant_text(v) == Some(
            texts_of(display_items(v))[i].1,
        ),
{
    law_last_of_role(texts_of(display_items(v)), "assistant"@);
    if forall|j: int|
        i < j < texts_of(display_items(v)).len() ==> (#[trigger] texts_of(display_items(v))[j]).0
            != "assistant"@ {
        law_last_of_role_at(texts_of(display_items(v)), "assistant"@, i);
    }
}

/// The pieces of a message are read in their order.
pub proof fn law_parts_in_order(a: Seq<JsonView>, b: Seq<JsonView>, kind: Seq<char>)
    ensures
        parts_text(a + b, kind) == parts_text(a, kind) + parts_text(b, kind),
    decreases b.len(),
{
    if b.len() == 0 {
        assert(a + b =~= a);
        assert(parts_text(a, kind) + parts_text(b, kind) =~= parts_text(a, kind));
    } else {
        assert((a + b).drop_last() =~= a + b.drop_last());
        law_parts_in_order(a, b.drop_last(), kind);
        match b.last().text_at("text"@) {
            Some(t) => {
                assert(parts_text(a, kind) + parts_text(b.drop_last(), kind) + t =~= parts_text(
                    a,
                    kind,
                ) + (parts_text(b.drop_last(), kind) + t));
            },
            None => {},
        }
    }
}

/// A piece gives its text to its own kind and nothing to any other.
pub proof fn law_part_of_its_kind(p: JsonView, t: Seq<char>, kind: Seq<char>, other: Seq<char>)
    requires
        p.get("type"@) == Some(JsonView::Str(kind)),
        p.get("text"@) == Some(JsonView::Str(t)),
        other != kind,
    ensures
        parts_text(seq![p], kind) == t,
        parts_text(seq![p], other).len() == 0,
{
    reveal_with_fuel(parts_text, 2);
    assert(seq![p].drop_last() =~= Seq::<JsonView>::empty());
    assert(Seq::<char>::empty() + t =~= t);
}

/// The role of a message: the one in its description, else its own, else `?`.
pub proof fn law_role_of_message(m: JsonView, r: Seq<char>)
    ensures
        m.get2("info"@, "role"@) == Some(JsonView::Str(r)) ==> role_of(m) == r,
        m.get("info"@) is None && m.get("role"@) == Some(JsonView::Str(r)) ==> role_of(m) == r,
        m.get("info"@) is None && m.get("role"@) is None ==> role_of(m) == "?"@,
{
}

/// The messages of a conversation are shown in their order: what is shown of
/// two runs of messages is what is shown of the first, then of the second.
pub proof fn law_shown_in_order(a: Seq<JsonView>, b: Seq<JsonView>)
    ensures
        items_of_all(a + b) == items_of_all(a) + items_of_all(b),
    decreases b.len(),
{
    if b.len() == 0 {
        assert(a + b =~= a);
        assert(items_of_all(a) + items_of_all(b) =~= items_of_all(a));
    } else {
        assert((a + b).drop_last() =~= a + b.drop_last());
        law_shown_in_order(a, b.drop_last());
        assert(items_of_all(a) + items_of_all(b.drop_last()) + items_of(b.last())
            =~= items_of_all(a) + (items_of_all(b.drop_last()) + items_of(b.last())));
    }
}

/// Of one message its thinking is shown first and its text after, each under
/// the message's role and only where it is not blank.
pub proof fn law_shown_of_one(m: JsonView)
    ensures
        ({
            let think = parts_text(parts_of(m), "reasoning"@);
            let text = parts_text(parts_of(m), "text"@);
            let shown = items_of_all(seq![m]);
            &&& forall|i: int|
                0 <= i < shown.len() ==> (#[trigger] shown[i]).role == role_of(m) && (shown[i].kind
                    == MsgKind::Reasoning && shown[i].text == think || shown[i].kind
                    == MsgKind::Text && shown[i].text == text)
            &&& shown.len() == (if blank(think) {
                0int
            } else {
                1
            }) + (if blank(text) {
                0int
            } else {
                1
            })
            &&& !blank(think) ==> shown[0].kind == MsgKind::Reasoning
            &&& !blank(text) ==> shown.last().kind == MsgKind::Text
        }),
{
    reveal_with_fuel(items_of_all, 2);
    assert(seq![m].drop_last() =~= Seq::<JsonView>::empty());
    assert(Seq::<MsgItemView>::empty() + items_of(m) =~= items_of(m));
}

/// The texts of a conversation are kept in order.
pub proof fn law_texts_in_order(a: Seq<MsgItemView>, b: Seq<MsgItemView>)
    ensures
        texts_of(a + b) == texts_of(a) + texts_of(b),
    decreases b.len(),
{
    if b.len() == 0 {
        assert(a + b =~= a);
        assert(texts_of(a) + texts_of(b) =~= texts_of(a));
    } else {
        assert((a + b).drop_last() =~= a + b.drop_last());
        law_texts_in_order(a, b.drop_last());
        if b.last().kind == MsgKind::Text {
            let one = (b.last().role, b.last().text);
            assert((texts_of(a) + texts_of(b.drop_last())).push(one) =~= texts_of(a) + texts_of(
                b.drop_last(),
            ).push(one));
        }
    }
}

/// A message that comes last: where it is the assistant's and its text is not
/// blank, that text is the answer; where it is someone else's, the answer stays.
pub proof fn law_answer_follows_the_last_message(v: JsonView, w: JsonView, m: JsonView)
    requires
        message_list(w) == message_list(v).push(m),
    ensures
        role_of(m) == "assistant"@ && !blank(parts_text(parts_of(m), "text"@))
            ==> assistant_text(w) == Some(parts_text(parts_of(m), "text"@)),
        role_of(m) != "assistant"@ || blank(parts_text(parts_of(m), "text"@))
            ==> assistant_text(w) == assistant_text(v),
{
    let text = parts_text(parts_of(m), "text"@);
    let think = parts_text(parts_of(m), "reasoning"@);
    let role = role_of(m);
    let old_texts = texts_of(display_items(v));
    assert(message_list(w).drop_last() =~= message_list(v));
    assert(display_items(w) == display_items(v) + items_of(m));
    law_texts_in_order(display_items(v), items_of(m));
    let a = item_unless_blank(role, think, MsgKind::Reasoning);
    let b = item_unless_blank(role, text, MsgKind::Text);
    law_texts_in_order(a, b);
    reveal_with_fuel(texts_of, 2);
    assert(texts_of(a) =~= Seq::empty());
    if blank(text) {
        assert(texts_of(b) =~= Seq::empty());
        assert(texts_of(display_items(w)) =~= old_texts);
    } else {
        assert(b.drop_last() =~= Seq::empty());
        assert(texts_of(b) =~= seq![(role, text)]);
        assert(texts_of(display_items(w)) =~= old_texts.push((role, text)));
        assert(old_texts.push((role, text)).drop_last() =~= old_texts);
    }
}

/// The session of an answer is the text that stands there, and there is none
/// exactly where no text stands there.
pub proof fn law_session_id(v: JsonView, sid: Seq<char>)
    ensures
        session_id_of(v) == Some(sid) <==> v.get2("session"@, "sessionId"@) == Some(
            JsonView::Str(sid),
        ),
        v.get2("session"@, "title"@) == Some(JsonView::Str(sid)) ==> title_of(v) == sid,
{
}

/// The model in use: the current one where one is named, else the one used
/// last, written as provider and model.
pub proof fn law_model_in_use(v: JsonView, m: JsonView, c: JsonView, p: Seq<char>, id: Seq<char>)
    requires
        v.get2("settings"@, "model"@) == Some(m),
        m.get("current"@) == Some(c) || (m.get("current"@) is None && m.get("lastUsed"@) == Some(
            c,
        )),
        c.get("providerId"@) == Some(JsonView::Str(p)),
        c.get("modelId"@) == Some(JsonView::Str(id)),
    ensures
        effective_model_text(v) == p + "/"@ + id,
{
}

/// The models on offer keep their order, and one with an id is among them.
pub proof fn law_models_in_order(a: Seq<JsonView>, b: Seq<JsonView>)
    ensures
        models_of(a + b) == models_of(a) + models_of(b),
{
    let f = |m: JsonView| model_of(m);
    let keep = |m: AvailableModelView| m.model_id.len() > 0;
    assert((a + b).map_values(f) =~= a.map_values(f) + b.map_values(f));
    Seq::filter_distributes_over_add(a.map_values(f), b.map_values(f), keep);
}

/// A model on offer is told by its own label, provider, id and window.
pub proof fn law_model_on_offer(
    m: JsonView,
    r: JsonView,
    label: Seq<char>,
    provider: Seq<char>,
    id: Seq<char>,
    window: u64,
)
    requires
        m.get("label"@) == Some(JsonView::Str(label)),
        m.get("ref"@) == Some(r),
        r.get("providerId"@) == Some(JsonView::Str(provider)),
        r.get("modelId"@) == Some(JsonView::Str(id)),
        m.get("contextWindow"@) == Some(JsonView::Int(window as int)),
    ensures
        id.len() > 0 ==> models_of(seq![m]) == seq![
            AvailableModelView { label, provider_id: provider, model_id: id, context_window: window },
        ],
        id.len() == 0 ==> models_of(seq![m]).len() == 0,
{
    reveal(Seq::filter);
    reveal_with_fuel(Seq::filter, 2);
    let f = |m: JsonView| model_of(m);
    assert(seq![m].map_values(f) =~= seq![model_of(m)]);
    assert(seq![model_of(m)].drop_last() =~= Seq::empty());
    assert(models_of(seq![m]) =~= if id.len() > 0 {
        seq![model_of(m)]
    } else {
        Seq::empty()
    });
}

/// Each count is read from its own entry.
pub proof fn law_usage_of_its_entries(v: JsonView, n: u64)
    ensures
        v.get("totalTokens"@) == Some(JsonView::Int(n as int)) ==> usage_of(v).total_tokens == n,
        v.get("inputTokens"@) == Some(JsonView::Int(n as int)) ==> usage_of(v).input_tokens == n,
        v.get("outputTokens"@) == Some(JsonView::Int(n as int)) ==> usage_of(v).output_tokens == n,
        v.get("reasoningTokens"@) == Some(JsonView::Int(n as int))
            ==> usage_of(v).reasoning_tokens == n,
        v.get("cacheCreationTokens"@) == Some(JsonView::Int(n as int))
            ==> usage_of(v).cache_creation_tokens == n,
        v.get("cacheReadTokens"@) == Some(JsonView::Int(n as int)) ==> usage_of(v).cache_read_tokens
            == n,
        v.get("modelRequestCount"@) == Some(JsonView::Int(n as int))
            ==> usage_of(v).model_request_count == n,
{
}

/// The same counts under their other names, where the first name is missing.
pub proof fn law_usage_of_its_other_entries(v: JsonView, n: u64)
    ensures
        v.get("inputTokens"@) is None && v.get("input_tokens"@) == Some(JsonView::Int(n as int))
            ==> usage_of(v).input_tokens == n,
        v.get("outputTokens"@) is None && v.get("output_tokens"@) == Some(JsonView::Int(n as int))
            ==> usage_of(v).output_tokens == n,
        v.get("totalTokens"@) is None && v.get("total_tokens"@) == Some(JsonView::Int(n as int))
            ==> usage_of(v).total_tokens == n,
        v.get("inputTokens"@) is None && v.get("input_tokens"@) is None
            ==> usage_of(v).input_tokens == 0,
        v.get("outputTokens"@) is None && v.get("output_tokens"@) is None
            ==> usage_of(v).output_tokens == 0,
        v.get("totalTokens"@) is None && v.get("total_tokens"@) is None
            ==> usage_of(v).total_tokens == 0,
{
}

/// What a turn took, added to what was used before it, is what is used after it.
pub proof fn law_turn_adds_up(before: Usage, after: Usage, nanos: u128)
    ensures
        before.input_tokens <= after.input_tokens ==> before.input_tokens + turn_stats(
            before,
            after,
            nanos,
        ).input_tokens == after.input_tokens,
        before.output_tokens <= after.output_tokens ==> before.output_tokens + turn_stats(
            before,
            after,
            nanos,
        ).output_tokens == after.output_tokens,
        before.total_tokens <= after.total_tokens ==> before.total_tokens + turn_stats(
            before,
            after,
            nanos,
        ).total_tokens == after.total_tokens,
        turn_stats(before, before, nanos).total_tokens == 0,
        turn_stats(before, after, nanos).elapsed_ms < u64::MAX ==> turn_stats(
            before,
            after,
            nanos,
        ).elapsed_ms * 1_000_000 <= nanos < (turn_stats(before, after, nanos).elapsed_ms + 1)
            * 1_000_000,
{
}

/// The window and what is used of it are read from their own entries, inside
/// the projection where there is one.
pub proof fn law_context_of_its_entries(v: JsonView, p: JsonView, n: u64)
    requires
        v.get("projection"@) == Some(p) || (v.get("projection"@) is None && p == v),
    ensures
        p.get("contextWindow"@) == Some(JsonView::Int(n as int)) ==> context_of(v).window == n,
        p.get("contextUsed"@) == Some(JsonView::Int(n as int)) ==> context_of(v).used == n,
        p.get("contextWindow"@) is None ==> context_of(v).window == 0,
        p.get("contextUsed"@) is None ==> context_of(v).used == 0,
{
}

/// The messages are those under their name, or the answer itself where it is a
/// list; the pieces of a message are those under theirs.
pub proof fn law_messages_of_answer(v: JsonView, list: Seq<JsonView>)
    ensures
        v.get("messages"@) == Some(JsonView::Arr(list)) ==> message_list(v) == list,
        v == JsonView::Arr(list) ==> message_list(v) == list,
        v.get("parts"@) == Some(JsonView::Arr(list)) ==> parts_of(v) == list,
        v is Obj && v.get("messages"@) is None ==> message_list(v).len() == 0,
{
}

/// A conversation of one plain message by someone shows that message.
pub proof fn law_plain_message_is_shown(m: JsonView, p: JsonView, role: Seq<char>, text: Seq<char>)
    requires
        m.get("info"@) is None,
        m.get("role"@) == Some(JsonView::Str(role)),
        m.get("parts"@) == Some(JsonView::Arr(seq![p])),
        p.get("type"@) == Some(JsonView::Str("text"@)),
        p.get("text"@) == Some(JsonView::Str(text)),
        !blank(text),
    ensures
        display_items(JsonView::Arr(seq![m])) == seq![
            MsgItemView { role, text, kind: MsgKind::Text },
        ],
        texts_of(display_items(JsonView::Arr(seq![m]))) == seq![(role, text)],
        role == "assistant"@ ==> assistant_text(JsonView::Arr(seq![m])) == Some(text),
{
    reveal_strlit("text");
    reveal_strlit("reasoning");
    assert("text"@.len() != "reasoning"@.len());
    law_part_of_its_kind(p, text, "text"@, "reasoning"@);
    law_shown_of_one(m);
    let shown = items_of_all(seq![m]);
    let think = parts_text(parts_of(m), "reasoning"@);
    assert(think.len() == 0);
    assert(blank(think));
    assert(shown.len() == 1);
    assert(shown =~= seq![MsgItemView { role, text, kind: MsgKind::Text }]);
    reveal_with_fuel(texts_of, 2);
    reveal_with_fuel(last_of_role, 2);
    assert(shown.drop_last() =~= Seq::empty());
    assert(texts_of(shown) =~= seq![(role, text)]);
}

} // verus!
