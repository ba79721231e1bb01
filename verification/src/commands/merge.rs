//! The transcript and how it follows the server: the server decides on the
//! messages of the user and the assistant, notices of the program stay where
//! they are.

use crate::session::export::{entries, Entry};
use crate::session::extract::{MsgItem, MsgItemView, MsgKind};
use crate::text::same;
use vstd::prelude::*;

verus! {

/// One message of the transcript. A message whose text was expanded before it
/// was sent keeps what was typed, and what was sent under `wire`.
#[derive(Debug, Clone, PartialEq, Eq)]
pub struct ChatMsg {
    pub role: String,
    pub text: String,
    pub kind: MsgKind,
    pub wire: Option<String>,
}

pub struct ChatMsgView {
    pub role: Seq<char>,
    pub text: Seq<char>,
    pub kind: MsgKind,
    pub wire: Option<Seq<char>>,
}

impl DeepView for ChatMsg {
    type V = ChatMsgView;

    open spec fn deep_view(&self) -> ChatMsgView {
        ChatMsgView {
            role: self.role@,
            text: self.text@,
            kind: self.kind,
            wire: self.wire.deep_view(),
        }
    }
}

impl ChatMsg {
    /// A copy.
    pub fn dup(&self) -> (r: ChatMsg)
        ensures
            r.deep_view() == self.deep_view(),
    {
        ChatMsg {
            role: self.role.clone(),
            text: self.text.clone(),
            kind: self.kind,
            wire: match &self.wire {
                Some(w) => Some(w.clone()),
                None => None,
            },
        }
    }

    /// A message of the program itself.
    pub fn is_system(&self) -> (r: bool)
        ensures
            r == of_system(self.deep_view()),
    {
        same(self.role.as_str(), "system")
    }

    /// A message as the server has it.
    pub fn of_item(s: &MsgItem) -> (r: ChatMsg)
        ensures
            r.deep_view() == from_item(s.deep_view()),
    {
        ChatMsg { role: s.role.clone(), text: s.text.clone(), kind: s.kind, wire: None }
    }
}

pub open spec fn of_system(m: ChatMsgView) -> bool {
    m.role == "system"@
}

/// What the server holds of a message: what was sent.
pub open spec fn sent_text(m: ChatMsgView) -> Seq<char> {
    match m.wire {
        Some(w) => w,
        None => m.text,
    }
}

/// A message of the transcript and one of the server are the same.
pub open spec fn same_msg(m: ChatMsgView, s: MsgItemView) -> bool {
    m.role == s.role && m.kind == s.kind && sent_text(m) == s.text
}

pub open spec fn from_item(s: MsgItemView) -> ChatMsgView {
    ChatMsgView { role: s.role, text: s.text, kind: s.kind, wire: None }
}

pub open spec fn from_items(server: Seq<MsgItemView>) -> Seq<ChatMsgView> {
    server.map_values(|s: MsgItemView| from_item(s))
}

/// The messages that are not the program's own.
pub open spec fn talk(msgs: Seq<ChatMsgView>) -> Seq<ChatMsgView> {
    msgs.filter(|m: ChatMsgView| !of_system(m))
}

/// The program's own messages.
pub open spec fn notices(msgs: Seq<ChatMsgView>) -> Seq<ChatMsgView> {
    msgs.filter(|m: ChatMsgView| of_system(m))
}

/// As far as both go, the messages are the same.
pub open spec fn agree(local: Seq<ChatMsgView>, server: Seq<MsgItemView>) -> bool {
    forall|i: int| 0 <= i < local.len() && i < server.len() ==> same_msg(#[trigger] local[i], server[i])
}

/// Whether a message of the transcript is the server's.
pub fn msg_eq(m: &ChatMsg, s: &MsgItem) -> (r: bool)
    ensures
        r == same_msg(m.deep_view(), s.deep_view()),
{
    m.role == s.role && m.kind == s.kind && match &m.wire {
        Some(w) => same(w.as_str(), s.text.as_str()),
        None => same(m.text.as_str(), s.text.as_str()),
    }
}

// ---------------------------------------------------------------- merge

/// How the transcript changed.
#[derive(Debug, Clone, Copy, PartialEq, Eq, Structural)]
pub enum MergeResult {
    /// Not at all.
    Unchanged,
    /// Messages came at the end.
    Appended,
    /// Messages changed; `dropped_local` of the transcript had no counterpart.
    Replaced { dropped_local: usize },
}

/// The transcript with its `i`-th message of the talk replaced by the server's
/// `i`-th, or left out where the server has fewer.
pub open spec fn rewritten(msgs: Seq<ChatMsgView>, server: Seq<MsgItemView>) -> Seq<ChatMsgView>
    decreases msgs.len(),
{
    if msgs.len() == 0 {
        Seq::empty()
    } else {
        let before = rewritten(msgs.drop_last(), server);
        let k = talk(msgs.drop_last()).len() as int;
        if of_system(msgs.last()) {
            before.push(msgs.last())
        } else if k < server.len() {
            before.push(from_item(server[k]))
        } else {
            before
        }
    }
}

/// What the server has beyond the first `n` messages.
pub open spec fn beyond(server: Seq<MsgItemView>, n: int) -> Seq<ChatMsgView> {
    if n < server.len() {
        from_items(server.skip(n))
    } else {
        Seq::empty()
    }
}

/// The transcript and the server, merged.
#[verifier::opaque]
pub open spec fn merged(msgs: Seq<ChatMsgView>, server: Seq<MsgItemView>) -> (
    Seq<ChatMsgView>,
    MergeResult,
) {
    let local = talk(msgs);
    if agree(local, server) && local.len() == server.len() {
        (msgs, MergeResult::Unchanged)
    } else if agree(local, server) && local.len() < server.len() {
        (msgs + beyond(server, local.len() as int), MergeResult::Appended)
    } else {
        (
            rewritten(msgs, server) + beyond(server, local.len() as int),
            MergeResult::Replaced {
                dropped_local: if local.len() > server.len() {
                    (local.len() - server.len()) as usize
                } else {
                    0
                },
            },
        )
    }
}

/// A transcript that did not change is what it was.
pub proof fn law_unchanged_is_untouched(msgs: Seq<ChatMsgView>, server: Seq<MsgItemView>)
    ensures
        merged(msgs, server).1 == MergeResult::Unchanged ==> merged(msgs, server).0 == msgs,
{
    reveal(merged);
}

proof fn lemma_talk_step(msgs: Seq<ChatMsgView>, i: int)
    requires
        0 <= i < msgs.len(),
    ensures
        talk(msgs.take(i + 1)) == if of_system(msgs[i]) {
            talk(msgs.take(i))
        } else {
            talk(msgs.take(i)).push(msgs[i])
        },
        msgs.take(i + 1).drop_last() == msgs.take(i),
        msgs.take(i + 1).last() == msgs[i],
        talk(msgs.take(i)).len() <= i,
    decreases i,
{
    reveal(Seq::filter);
    assert(msgs.take(i + 1).drop_last() =~= msgs.take(i));
    if i > 0 {
        lemma_talk_step(msgs, i - 1);
    }
}

/// Appends what the server has beyond the first `n` messages.
fn push_beyond(messages: &mut Vec<ChatMsg>, server: &[MsgItem], n: usize)
    ensures
        final(messages).deep_view() == old(messages).deep_view() + beyond(
            server.deep_view(),
            n as int,
        ),
{
    let ghost start = messages.deep_view();
    if n >= server.len() {
        assert(start + Seq::<ChatMsgView>::empty() =~= start);
        return;
    }
    let mut k: usize = n;
    let ghost rest = from_items(server.deep_view().skip(n as int));
    assert(start + rest.take(0) =~= start);
    while k < server.len()
        invariant
            n <= k <= server@.len(),
            rest == from_items(server.deep_view().skip(n as int)),
            messages.deep_view() == start + rest.take(k - n),
        decreases server@.len() - k,
    {
        let ghost before = messages.deep_view();
        messages.push(ChatMsg::of_item(&server[k]));
        proof {
            assert(messages.deep_view() =~= before.push(from_item(server@[k as int].deep_view())));
            assert(server.deep_view().skip(n as int)[k - n] == server@[k as int].deep_view());
            assert(rest.take(k - n + 1) =~= rest.take(k - n).push(rest[k - n]));
        }
        k = k + 1;
    }
    assert(rest.take(rest.len() as int) =~= rest);
}

/// Brings the transcript in line with the server.
pub fn merge_messages(messages: &mut Vec<ChatMsg>, server: &[MsgItem]) -> (r: MergeResult)
    ensures
        (final(messages).deep_view(), r) == merged(old(messages).deep_view(), server.deep_view()),
{
    reveal(merged);
    let ghost msgs = messages.deep_view();
    let ghost remote = server.deep_view();
    let mut k: usize = 0;
    let mut alike = true;
    let mut i: usize = 0;
    assert(talk(msgs.take(0)) =~= Seq::empty()) by {
        reveal(Seq::filter);
    }
    while i < messages.len()
        invariant
            i <= messages@.len(),
            msgs == messages.deep_view(),
            remote == server.deep_view(),
            k == talk(msgs.take(i as int)).len(),
            k <= i,
            alike == agree(talk(msgs.take(i as int)), remote),
        decreases messages@.len() - i,
    {
        let ghost before = talk(msgs.take(i as int));
        proof {
            lemma_talk_step(msgs, i as int);
        }
        if !messages[i].is_system() {
            let ghost after = before.push(msgs[i as int]);
            if k < server.len() {
                let same_one = msg_eq(&messages[i], &server[k]);
                proof {
                    assert(remote[k as int] == server@[k as int].deep_view());
                    if alike && same_one {
                        assert(agree(after, remote));
                    }
                    if agree(after, remote) {
                        assert(same_msg(after[k as int], remote[k as int]));
                        assert forall|j: int|
                            0 <= j < before.len() && j < remote.len() implies same_msg(
                            #[trigger] before[j],
                            remote[j],
                        ) by {
                            assert(after[j] == before[j]);
                        }
                    }
                }
                alike = alike && same_one;
            } else {
                proof {
                    assert(agree(before, remote) == agree(after, remote)) by {
                        if agree(after, remote) {
                            assert forall|j: int|
                                0 <= j < before.len() && j < remote.len() implies same_msg(
                                #[trigger] before[j],
                                remote[j],
                            ) by {
                                assert(after[j] == before[j]);
                            }
                        }
                    }
                }
            }
            k = k + 1;
        }
        i = i + 1;
    }
    assert(msgs.take(msgs.len() as int) =~= msgs);
    if alike && k == server.len() {
        return MergeResult::Unchanged;
    }
    if alike && k < server.len() {
        push_beyond(messages, server, k);
        return MergeResult::Appended;
    }
    let mut out: Vec<ChatMsg> = Vec::new();
    let mut n: usize = 0;
    let mut j: usize = 0;
    assert(out.deep_view() =~= rewritten(msgs.take(0), remote));
    assert(talk(msgs.take(0)) =~= Seq::empty()) by {
        reveal(Seq::filter);
    }
    while j < messages.len()
        invariant
            j <= messages@.len(),
            msgs == messages.deep_view(),
            remote == server.deep_view(),
            n == talk(msgs.take(j as int)).len(),
            n <= j,
            out.deep_view() == rewritten(msgs.take(j as int), remote),
        decreases messages@.len() - j,
    {
        let ghost before = out.deep_view();
        proof {
            lemma_talk_step(msgs, j as int);
        }
        if messages[j].is_system() {
            out.push(messages[j].dup());
            assert(out.deep_view() =~= before.push(msgs[j as int]));
        } else {
            if n < server.len() {
                out.push(ChatMsg::of_item(&server[n]));
                assert(remote[n as int] == server@[n as int].deep_view());
                assert(out.deep_view() =~= before.push(from_item(remote[n as int])));
            }
            n = n + 1;
        }
        j = j + 1;
    }
    push_beyond(&mut out, server, n);
    let dropped_local: usize = if n > server.len() {
        n - server.len()
    } else {
        0
    };
    *messages = out;
    MergeResult::Replaced { dropped_local }
}

// ---------------------------------------------------------------- comparison of readings

/// What changed between two readings of the server's messages.
pub open spec fn difference(prev: Seq<MsgItemView>, next: Seq<MsgItemView>) -> MergeResult {
    if prev == next {
        MergeResult::Unchanged
    } else if prev.is_prefix_of(next) {
        MergeResult::Appended
    } else {
        MergeResult::Replaced { dropped_local: 0 }
    }
}

/// Compares two readings of the server's messages.
pub fn diff_lists(prev: &[MsgItem], next: &[MsgItem]) -> (r: MergeResult)
    ensures
        r == difference(prev.deep_view(), next.deep_view()),
{
    let ghost a = prev.deep_view();
    let ghost b = next.deep_view();
    let mut i: usize = 0;
    while i < prev.len() && i < next.len() && prev[i].same_as(&next[i])
        invariant
            i <= prev@.len(),
            i <= next@.len(),
            a == prev.deep_view(),
            b == next.deep_view(),
            a.take(i as int) == b.take(i as int),
        decreases prev@.len() - i,
    {
        assert(a.take(i + 1) =~= a.take(i as int).push(a[i as int]));
        assert(b.take(i + 1) =~= b.take(i as int).push(b[i as int]));
        i = i + 1;
    }
    proof {
        assert(a.take(a.len() as int) =~= a);
        assert(b.take(b.len() as int) =~= b);
        if i < a.len() && i < b.len() {
            assert(a[i as int] == prev@[i as int].deep_view());
            assert(b[i as int] == next@[i as int].deep_view());
            assert(a[i as int] != b[i as int]);
        }
        if a.is_prefix_of(b) {
            assert(a =~= b.subrange(0, a.len() as int));
            assert(i < a.len() ==> a[i as int] == b[i as int]);
        }
    }
    if i == prev.len() {
        if i == next.len() {
            MergeResult::Unchanged
        } else {
            MergeResult::Appended
        }
    } else {
        MergeResult::Replaced { dropped_local: 0 }
    }
}

// ---------------------------------------------------------------- laws

/// No message of the server poses as one of the program.
pub open spec fn no_system(server: Seq<MsgItemView>) -> bool {
    forall|i: int| 0 <= i < server.len() ==> (#[trigger] server[i]).role != "system"@
}

proof fn lemma_talk_concat(a: Seq<ChatMsgView>, b: Seq<ChatMsgView>)
    ensures
        talk(a + b) == talk(a) + talk(b),
        notices(a + b) == notices(a) + notices(b),
{
    Seq::filter_distributes_over_add(a, b, |m: ChatMsgView| !of_system(m));
    Seq::filter_distributes_over_add(a, b, |m: ChatMsgView| of_system(m));
}

proof fn lemma_talk_push(a: Seq<ChatMsgView>, m: ChatMsgView)
    ensures
        talk(a.push(m)) == if of_system(m) {
            talk(a)
        } else {
            talk(a).push(m)
        },
        notices(a.push(m)) == if of_system(m) {
            notices(a).push(m)
        } else {
            notices(a)
        },
{
    reveal(Seq::filter);
    assert(a.push(m).drop_last() =~= a);
}

proof fn lemma_items_are_talk(server: Seq<MsgItemView>)
    requires
        no_system(server),
    ensures
        talk(from_items(server)) == from_items(server),
        notices(from_items(server)) == Seq::<ChatMsgView>::empty(),
    decreases server.len(),
{
    reveal(Seq::filter);
    if server.len() > 0 {
        let t = server.drop_last();
        assert forall|i: int| 0 <= i < t.len() implies (#[trigger] t[i]).role != "system"@ by {
            assert(t[i] == server[i]);
        }
        lemma_items_are_talk(t);
        assert(server.last().role != "system"@) by {
            assert(server[server.len() - 1] == server.last());
        }
        assert(from_items(server) =~= from_items(t).push(from_item(server.last())));
        lemma_talk_push(from_items(t), from_item(server.last()));
    } else {
        assert(from_items(server) =~= Seq::empty());
    }
}

proof fn lemma_rewritten(msgs: Seq<ChatMsgView>, server: Seq<MsgItemView>)
    requires
        no_system(server),
    ensures
        notices(rewritten(msgs, server)) == notices(msgs),
        talk(rewritten(msgs, server)) == from_items(
            server.take(
                if talk(msgs).len() < server.len() {
                    talk(msgs).len() as int
                } else {
                    server.len() as int
                },
            ),
        ),
    decreases msgs.len(),
{
    reveal(Seq::filter);
    if msgs.len() == 0 {
        assert(server.take(0) =~= Seq::empty());
        assert(from_items(server.take(0)) =~= Seq::empty());
    } else {
        let init = msgs.drop_last();
        lemma_rewritten(init, server);
        lemma_talk_push(init, msgs.last());
        assert(init.push(msgs.last()) =~= msgs);
        let before = rewritten(init, server);
        let k = talk(init).len() as int;
        if of_system(msgs.last()) {
            lemma_talk_push(before, msgs.last());
        } else if k < server.len() {
            lemma_talk_push(before, from_item(server[k]));
            assert(server.take(k + 1) =~= server.take(k).push(server[k]));
            assert(from_items(server.take(k + 1)) =~= from_items(server.take(k)).push(
                from_item(server[k]),
            ));
        }
    }
}

/// After a merge the transcript shows the server's messages, in order and in
/// full, and the program's own messages are all still there.
pub proof fn law_merge_follows_server(msgs: Seq<ChatMsgView>, server: Seq<MsgItemView>)
    requires
        no_system(server),
    ensures
        talk(merged(msgs, server).0).len() == server.len(),
        agree(talk(merged(msgs, server).0), server),
        notices(merged(msgs, server).0) == notices(msgs),
{
    reveal(merged);
    let local = talk(msgs);
    let n = local.len() as int;
    if agree(local, server) && n == server.len() {
    } else {
        if n < server.len() {
            let rest = server.skip(n);
            assert forall|i: int| 0 <= i < rest.len() implies (#[trigger] rest[i]).role
                != "system"@ by {
                assert(rest[i] == server[n + i]);
            }
            lemma_items_are_talk(rest);
        } else {
            reveal(Seq::filter);
        }
        let more = beyond(server, n);
        if agree(local, server) && n < server.len() {
            lemma_talk_concat(msgs, more);
            let t = local + from_items(server.skip(n));
            assert(notices(msgs) + Seq::<ChatMsgView>::empty() =~= notices(msgs));
            assert forall|i: int| 0 <= i < t.len() && i < server.len() implies same_msg(
                #[trigger] t[i],
                server[i],
            ) by {
                if i < n {
                    assert(t[i] == local[i]);
                } else {
                    assert(t[i] == from_item(server[i]));
                }
            }
        } else {
            lemma_rewritten(msgs, server);
            lemma_talk_concat(rewritten(msgs, server), more);
            let head = rewritten(msgs, server);
            assert(notices(head) + Seq::<ChatMsgView>::empty() =~= notices(head));
            let t = talk(head) + talk(more);
            if n < server.len() {
                assert(talk(more) == from_items(server.skip(n)));
                assert(t =~= from_items(server));
            } else {
                assert(server.take(server.len() as int) =~= server);
                assert(t =~= from_items(server));
            }
        }
    }
}

/// A merge settles: the same reading of the server changes nothing more.
pub proof fn law_merge_settles(msgs: Seq<ChatMsgView>, server: Seq<MsgItemView>)
    requires
        no_system(server),
    ensures
        merged(merged(msgs, server).0, server) == (merged(msgs, server).0, MergeResult::Unchanged),
{
    reveal(merged);
    law_merge_follows_server(msgs, server);
}

/// The comparison of two readings says of the change what the merge says, on a
/// transcript that shows the first of them (but for the number of messages
/// that fell away).
pub proof fn law_comparison_agrees_with_merge(prev: Seq<MsgItemView>, next: Seq<MsgItemView>)
    requires
        no_system(prev),
    ensures
        ({
            let m = merged(from_items(prev), next).1;
            match difference(prev, next) {
                MergeResult::Unchanged => m == MergeResult::Unchanged,
                MergeResult::Appended => m == MergeResult::Appended,
                MergeResult::Replaced { .. } => m is Replaced,
            }
        }),
{
    reveal(merged);
    lemma_items_are_talk(prev);
    let local = from_items(prev);
    assert(forall|i: int|
        0 <= i < prev.len() && i < next.len() ==> (same_msg(#[trigger] local[i], next[i]) <==> prev[i]
            == next[i]));
    if agree(local, next) && prev.len() <= next.len() {
        assert forall|i: int| 0 <= i < prev.len() implies prev[i] == next[i] by {
            assert(same_msg(local[i], next[i]));
        }
        assert(prev =~= next.subrange(0, prev.len() as int));
        if prev.len() == next.len() {
            assert(prev =~= next);
        }
    }
    if prev.is_prefix_of(next) {
        assert(prev =~= next.subrange(0, prev.len() as int));
        assert forall|i: int| 0 <= i < local.len() && i < next.len() implies same_msg(
            #[trigger] local[i],
            next[i],
        ) by {
            assert(prev[i] == next.subrange(0, prev.len() as int)[i]);
        }
    }
}

/// What was sent comes back as it was sent: a message with a wire text stays
/// as it was typed when the server shows what was sent.
pub proof fn law_echo_keeps_original(before: Seq<ChatMsgView>, m: ChatMsgView, server: Seq<MsgItemView>)
    requires
        !of_system(m),
        agree(talk(before), server),
        talk(before).len() + 1 == server.len(),
        same_msg(m, server.last()),
    ensures
        merged(before.push(m), server) == (before.push(m), MergeResult::Unchanged),
{
    reveal(merged);
    lemma_talk_push(before, m);
    let local = talk(before.push(m));
    assert forall|i: int| 0 <= i < local.len() && i < server.len() implies same_msg(
        #[trigger] local[i],
        server[i],
    ) by {
        if i < talk(before).len() {
            assert(local[i] == talk(before)[i]);
        }
    }
}

// ---------------------------------------------------------------- export

/// The text of the message that stands for the opening screen.
pub open spec fn splash_text() -> Seq<char> {
    "[splash]"@
}

pub fn splash_marker() -> (r: &'static str)
    ensures
        r@ == splash_text(),
{
    "[splash]"
}

/// What an export holds of the transcript: everything but the opening screen.
pub open spec fn exported(msgs: Seq<ChatMsgView>) -> Seq<Entry>
    decreases msgs.len(),
{
    if msgs.len() == 0 {
        Seq::empty()
    } else {
        let m = msgs.last();
        if m.text == splash_text() {
            exported(msgs.drop_last())
        } else {
            exported(msgs.drop_last()).push((m.role, m.text, m.kind))
        }
    }
}

/// The messages to write out.
pub fn exportable(messages: &Vec<ChatMsg>) -> (r: Vec<(String, String, MsgKind)>)
    ensures
        entries(r@) == exported(messages.deep_view()),
{
    let ghost msgs = messages.deep_view();
    let mut out: Vec<(String, String, MsgKind)> = Vec::new();
    let mut i: usize = 0;
    assert(entries(out@) =~= exported(msgs.take(0)));
    while i < messages.len()
        invariant
            i <= messages@.len(),
            msgs == messages.deep_view(),
            entries(out@) == exported(msgs.take(i as int)),
        decreases messages@.len() - i,
    {
        let ghost before = out@;
        proof {
            assert(msgs.take(i + 1).drop_last() =~= msgs.take(i as int));
            assert(msgs.take(i + 1).last() == messages@[i as int].deep_view());
        }
        let m = &messages[i];
        if !same(m.text.as_str(), splash_marker()) {
            out.push((m.role.clone(), m.text.clone(), m.kind));
            assert(entries(out@) =~= entries(before).push((m.role@, m.text@, m.kind)));
        }
        i = i + 1;
    }
    assert(msgs.take(msgs.len() as int) =~= msgs);
    out
}

// ---------------------------------------------------------------- what is exported

/// What is exported keeps its order.
pub proof fn law_exported_in_order(a: Seq<ChatMsgView>, b: Seq<ChatMsgView>)
    ensures
        exported(a + b) == exported(a) + exported(b),
    decreases b.len(),
{
    if b.len() == 0 {
        assert(a + b =~= a);
        assert(exported(a) + exported(b) =~= exported(a));
    } else {
        assert((a + b).drop_last() =~= a + b.drop_last());
        law_exported_in_order(a, b.drop_last());
        assert(exported(a + b) =~= exported(a) + exported(b));
    }
}

/// A message is exported with its role, its text and its kind; the picture that
/// opens the interface is not.
pub proof fn law_exported_of_one(m: ChatMsgView)
    ensures
        m.text != splash_text() ==> exported(seq![m]) == seq![(m.role, m.text, m.kind)],
        m.text == splash_text() ==> exported(seq![m]).len() == 0,
{
    reveal_with_fuel(exported, 2);
    assert(seq![m].drop_last() =~= Seq::empty());
    if m.text != splash_text() {
        assert(exported(seq![m]) =~= seq![(m.role, m.text, m.kind)]);
    }
}

/// A message of the server is shown as it is.
pub proof fn law_from_item(s: MsgItemView)
    ensures
        same_msg(from_item(s), s),
        from_item(s).text == s.text,
        sent_text(from_item(s)) == s.text,
{
}

/// Messages that are new at the server come after those that are there, as they
/// are and in their order.
pub proof fn law_new_messages_come_last(msgs: Seq<ChatMsgView>, server: Seq<MsgItemView>, i: int)
    requires
        agree(talk(msgs), server),
        talk(msgs).len() < server.len(),
        talk(msgs).len() <= i < server.len(),
    ensures
        merged(msgs, server).1 == MergeResult::Appended,
        msgs.is_prefix_of(merged(msgs, server).0),
        merged(msgs, server).0.len() == msgs.len() + server.len() - talk(msgs).len(),
        merged(msgs, server).0[msgs.len() + i - talk(msgs).len()].text == server[i].text,
        merged(msgs, server).0[msgs.len() + i - talk(msgs).len()].role == server[i].role,
        merged(msgs, server).0[msgs.len() + i - talk(msgs).len()].kind == server[i].kind,
{
    reveal(merged);
    let n = talk(msgs).len() as int;
    assert(beyond(server, n)[i - n] == from_item(server[i]));
}

/// Every message but the picture that opens the interface is exported.
pub proof fn law_exported_holds(msgs: Seq<ChatMsgView>, i: int)
    requires
        0 <= i < msgs.len(),
        msgs[i].text != splash_text(),
    ensures
        exported(msgs).contains((msgs[i].role, msgs[i].text, msgs[i].kind)),
{
    let one = seq![msgs[i]];
    let before = msgs.take(i);
    let after = msgs.skip(i + 1);
    let e = (msgs[i].role, msgs[i].text, msgs[i].kind);
    assert(msgs =~= before + (one + after));
    law_exported_in_order(before, one + after);
    law_exported_in_order(one, after);
    law_exported_of_one(msgs[i]);
    let k = exported(before).len() as int;
    assert(exported(msgs)[k] == e);
}

} // verus!
