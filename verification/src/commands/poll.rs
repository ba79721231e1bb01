//! How the transcript is kept up to date: how often the server is asked, what
//! is made of its answers, and when the runtime counts as dead.

use crate::commands::merge::{diff_lists, difference, MergeResult};
use crate::json::Json;
use crate::notices::{dead_banner, no_answer_text, runtime_dead_banner, runtime_silent_notice};
use crate::runtime::RuntimeError;
use crate::session::extract::{display_items, extract_display_items, MsgItem, MsgItemView};
use crate::session::SessionError;
use crate::text::{blank, contains, group_contains, trim};
use vstd::arithmetic::power2::{lemma_pow2_pos, lemma_pow2_strictly_increases, lemma_pow2_unfold, pow2};
use vstd::prelude::*;

verus! {

/// How many failures in a row of the process or its pipes mean that the
/// runtime is dead.
pub const POLL_DEAD_STREAK: u32 = 3;

/// The pause between readings while nothing runs.
pub const IDLE_POLL_MS: u64 = 1500;

/// The shortest pause while a turn runs.
pub const MIN_POLL_MS: u64 = 100;

/// The longest pause that failures lead to.
pub const POLL_BACKOFF_CAP_MS: u64 = 15000;

// ---------------------------------------------------------------- cadence

pub open spec fn interval(working: bool, configured_ms: u64) -> u64 {
    if !working {
        IDLE_POLL_MS
    } else if configured_ms < MIN_POLL_MS {
        MIN_POLL_MS
    } else {
        configured_ms
    }
}

/// The pause between readings: as configured while a turn runs, long
/// otherwise.
pub fn poll_interval_ms(working: bool, configured_ms: u64) -> (r: u64)
    ensures
        r == interval(working, configured_ms),
{
    if working {
        if configured_ms < MIN_POLL_MS {
            MIN_POLL_MS
        } else {
            configured_ms
        }
    } else {
        IDLE_POLL_MS
    }
}

/// The pause after `fails` failures in a row: it doubles with each, up to the
/// cap; without failures it is the base.
pub open spec fn backoff(base_ms: u64, fails: u32) -> int {
    if fails == 0 {
        base_ms as int
    } else if base_ms * pow2(fails as nat) < POLL_BACKOFF_CAP_MS {
        base_ms * pow2(fails as nat)
    } else {
        POLL_BACKOFF_CAP_MS as int
    }
}

proof fn lemma_double(base: int, i: nat)
    ensures
        base * pow2(i + 1) == 2 * (base * pow2(i)),
{
    lemma_pow2_unfold(i + 1);
    assert(base * (2 * pow2(i)) == 2 * (base * pow2(i))) by (nonlinear_arith);
}

proof fn lemma_power_grows(base: int, i: nat, j: nat)
    requires
        0 <= base,
        i <= j,
    ensures
        base * pow2(i) <= base * pow2(j),
{
    if i < j {
        lemma_pow2_strictly_increases(i, j);
    }
    assert(base * pow2(i) <= base * pow2(j)) by (nonlinear_arith)
        requires
            0 <= base,
            pow2(i) <= pow2(j),
    ;
}

pub fn poll_backoff_ms(base_ms: u64, fails: u32) -> (r: u64)
    ensures
        r == backoff(base_ms, fails),
{
    if fails == 0 {
        return base_ms;
    }
    if base_ms == 0 {
        assert(0 * pow2(fails as nat) == 0);
        return 0;
    }
    let mut ms: u64 = base_ms;
    let mut i: u32 = 0;
    proof {
        vstd::arithmetic::power2::lemma2_to64();
        assert(base_ms * 1 == base_ms);
    }
    while i < fails && ms < POLL_BACKOFF_CAP_MS
        invariant
            0 < base_ms,
            i <= fails,
            ms == base_ms * pow2(i as nat),
        decreases fails - i,
    {
        proof {
            lemma_double(base_ms as int, i as nat);
        }
        ms = ms * 2;
        i = i + 1;
    }
    proof {
        lemma_power_grows(base_ms as int, i as nat, fails as nat);
    }
    if ms < POLL_BACKOFF_CAP_MS {
        ms
    } else {
        POLL_BACKOFF_CAP_MS
    }
}

/// With failures the pause never exceeds the cap, and another failure never
/// shortens it.
pub proof fn law_backoff(base_ms: u64, fails: u32)
    requires
        0 < fails < u32::MAX,
    ensures
        0 <= backoff(base_ms, fails) <= POLL_BACKOFF_CAP_MS,
        backoff(base_ms, fails) <= backoff(base_ms, (fails + 1) as u32),
        base_ms <= POLL_BACKOFF_CAP_MS ==> base_ms <= backoff(base_ms, fails),
{
    lemma_power_grows(base_ms as int, fails as nat, fails as nat + 1);
    lemma_power_grows(base_ms as int, 0, fails as nat);
    vstd::arithmetic::power2::lemma2_to64();
    assert(base_ms * 1 == base_ms);
    lemma_pow2_pos(fails as nat);
    assert(0 <= base_ms * pow2(fails as nat)) by (nonlinear_arith)
        requires
            0 <= base_ms,
            0 < pow2(fails as nat),
    ;
}

/// Whatever is configured and however often a reading failed, the server is
/// never asked without a pause.
pub proof fn law_never_without_pause(working: bool, configured_ms: u64, fails: u32)
    ensures
        backoff(interval(working, configured_ms), fails) >= MIN_POLL_MS,
{
    let base = interval(working, configured_ms);
    lemma_power_grows(base as int, 0, fails as nat);
    vstd::arithmetic::power2::lemma2_to64();
    assert(base * 1 == base);
}

/// Nothing is asked of a session that does not exist yet.
pub fn poll_should_fetch(sid: &str) -> (r: bool)
    ensures
        r == (sid@.len() > 0),
{
    !sid.is_empty()
}

// ---------------------------------------------------------------- failures

pub open spec fn is_timeout(e: SessionError) -> bool {
    e matches SessionError::Runtime(r) && r is Timeout
}

/// A slow answer is no failure of the process.
pub fn poll_err_is_timeout(e: &SessionError) -> (r: bool)
    ensures
        r == is_timeout(*e),
{
    match e {
        SessionError::Runtime(RuntimeError::Timeout(_, _)) => true,
        _ => false,
    }
}

/// The process is gone, or its pipes are.
pub open spec fn is_local(e: SessionError) -> bool {
    e matches SessionError::Runtime(r) && (r is Exited || r is Io)
}

pub fn poll_err_is_local(e: &SessionError) -> (r: bool)
    ensures
        r == is_local(*e),
{
    match e {
        SessionError::Runtime(RuntimeError::Exited(_, _)) => true,
        SessionError::Runtime(RuntimeError::Io(_)) => true,
        _ => false,
    }
}

pub open spec fn streak_after(prev: u32, e: SessionError) -> u32 {
    if !is_local(e) {
        0
    } else if prev == u32::MAX {
        u32::MAX
    } else {
        (prev + 1) as u32
    }
}

/// Counts failures of the process in a row; anything else starts over.
pub fn poll_fail_streak(prev: u32, e: &SessionError) -> (r: u32)
    ensures
        r == streak_after(prev, *e),
{
    if poll_err_is_timeout(e) || !poll_err_is_local(e) {
        0
    } else if prev == u32::MAX {
        u32::MAX
    } else {
        prev + 1
    }
}

/// How the runtime ended, if that is what an error says.
pub fn runtime_exited_info(e: &SessionError) -> (r: Option<(Option<i32>, String)>)
    ensures
        match *e {
            SessionError::Runtime(RuntimeError::Exited(code, tail)) => r matches Some((c, t)) && c
                == code && t@ == tail@,
            _ => r is None,
        },
{
    match e {
        SessionError::Runtime(RuntimeError::Exited(code, tail)) => Some((*code, tail.clone())),
        _ => None,
    }
}

/// What is said of a runtime that is dead.
pub open spec fn dead_notice(e: SessionError) -> Seq<char> {
    match e {
        SessionError::Runtime(RuntimeError::Exited(code, tail)) => dead_banner(code, tail@),
        _ => no_answer_text(e.text()),
    }
}

fn dead_notice_text(e: &SessionError) -> (r: String)
    ensures
        r@ == dead_notice(*e),
{
    match runtime_exited_info(e) {
        Some((code, tail)) => runtime_dead_banner(code, tail.as_str()),
        None => {
            let t = e.to_text();
            runtime_silent_notice(t.as_str())
        },
    }
}

// ---------------------------------------------------------------- poller

/// What the poller remembers.
pub struct Poller {
    /// The session it reads.
    pub sid: String,
    /// The messages it read last.
    pub snapshot: Vec<MsgItem>,
    pub fail_streak: u32,
    pub backoff_fails: u32,
    pub dead_notified: bool,
}

#[verifier::ext_equal]
pub struct PollerView {
    pub sid: Seq<char>,
    pub snapshot: Seq<MsgItemView>,
    pub fail_streak: u32,
    pub backoff_fails: u32,
    pub dead_notified: bool,
}

impl View for Poller {
    type V = PollerView;

    open spec fn view(&self) -> PollerView {
        PollerView {
            sid: self.sid@,
            snapshot: self.snapshot.deep_view(),
            fail_streak: self.fail_streak,
            backoff_fails: self.backoff_fails,
            dead_notified: self.dead_notified,
        }
    }
}

/// How one reading ended.
pub enum Fetched {
    Messages(Json),
    Failed(SessionError),
    /// The reading itself took too long.
    TimedOut,
}

/// What a reading tells the interface.
pub enum News {
    Messages { sid: String, msgs: Vec<MsgItem>, result: MergeResult },
    Dead { notice: String },
}

pub enum NewsView {
    Messages { sid: Seq<char>, msgs: Seq<MsgItemView>, result: MergeResult },
    Dead { notice: Seq<char> },
}

pub open spec fn news_view(n: Option<News>) -> Option<NewsView> {
    match n {
        Some(News::Messages { sid, msgs, result }) => Some(
            NewsView::Messages { sid: sid@, msgs: msgs.deep_view(), result },
        ),
        Some(News::Dead { notice }) => Some(NewsView::Dead { notice: notice@ }),
        None => None,
    }
}

/// What the poller remembers and tells after one reading.
pub open spec fn poll_next(p: PollerView, f: Fetched) -> (PollerView, Option<NewsView>) {
    match f {
        Fetched::Messages(v) => {
            let list = display_items(v@);
            let calm = PollerView { fail_streak: 0, backoff_fails: 0, ..p };
            if list == p.snapshot {
                (calm, None)
            } else {
                (
                    PollerView { snapshot: list, ..calm },
                    Some(
                        NewsView::Messages {
                            sid: p.sid,
                            msgs: list,
                            result: difference(p.snapshot, list),
                        },
                    ),
                )
            }
        },
        Fetched::Failed(e) => {
            let streak = streak_after(p.fail_streak, e);
            let worse = PollerView {
                fail_streak: streak,
                backoff_fails: if p.backoff_fails == u32::MAX {
                    u32::MAX
                } else {
                    (p.backoff_fails + 1) as u32
                },
                ..p
            };
            if streak >= POLL_DEAD_STREAK && !p.dead_notified {
                (
                    PollerView { dead_notified: true, ..worse },
                    Some(NewsView::Dead { notice: dead_notice(e) }),
                )
            } else {
                (worse, None)
            }
        },
        Fetched::TimedOut => (PollerView { fail_streak: 0, ..p }, None),
    }
}

impl Poller {
    pub fn new() -> (r: Poller)
        ensures
            r@ == (PollerView {
                sid: Seq::empty(),
                snapshot: Seq::empty(),
                fail_streak: 0,
                backoff_fails: 0,
                dead_notified: false,
            }),
    {
        let p = Poller {
            sid: String::new(),
            snapshot: Vec::new(),
            fail_streak: 0,
            backoff_fails: 0,
            dead_notified: false,
        };
        assert(p@.snapshot =~= Seq::empty());
        p
    }

    /// The pause before the next reading.
    pub fn wait_ms(&self, working: bool, configured_ms: u64) -> (r: u64)
        ensures
            r == backoff(interval(working, configured_ms), self@.backoff_fails),
    {
        poll_backoff_ms(poll_interval_ms(working, configured_ms), self.backoff_fails)
    }

    /// Turns to a session; what was read of another is forgotten.
    pub fn follow(&mut self, sid: &str)
        ensures
            final(self)@ == if sid@ == old(self)@.sid {
                old(self)@
            } else {
                PollerView { sid: sid@, snapshot: Seq::empty(), ..old(self)@ }
            },
    {
        let sid = sid.to_owned();
        if sid != self.sid {
            self.snapshot = Vec::new();
            self.sid = sid;
            assert(self@.snapshot =~= Seq::empty());
        }
    }

    /// Whether there is anything to read: a runtime and a session.
    pub fn ready(&self, runtime_up: bool) -> (r: bool)
        ensures
            r == (runtime_up && self@.sid.len() > 0),
    {
        runtime_up && poll_should_fetch(self.sid.as_str())
    }

    /// Takes in one reading.
    pub fn observe(&mut self, f: Fetched) -> (news: Option<News>)
        ensures
            (final(self)@, news_view(news)) == poll_next(old(self)@, f),
    {
        match f {
            Fetched::Messages(v) => {
                self.fail_streak = 0;
                self.backoff_fails = 0;
                let list = extract_display_items(&v);
                let result = diff_lists(self.snapshot.as_slice(), list.as_slice());
                match result {
                    MergeResult::Unchanged => {
                        return None;
                    },
                    _ => {},
                }
                let kept = dup_items(&list);
                self.snapshot = kept;
                Some(News::Messages { sid: self.sid.clone(), msgs: list, result })
            },
            Fetched::Failed(e) => {
                self.fail_streak = poll_fail_streak(self.fail_streak, &e);
                self.backoff_fails = if self.backoff_fails == u32::MAX {
                    u32::MAX
                } else {
                    self.backoff_fails + 1
                };
                if self.fail_streak >= POLL_DEAD_STREAK && !self.dead_notified {
                    self.dead_notified = true;
                    return Some(News::Dead { notice: dead_notice_text(&e) });
                }
                None
            },
            Fetched::TimedOut => {
                self.fail_streak = 0;
                None
            },
        }
    }
}

fn dup_items(v: &Vec<MsgItem>) -> (r: Vec<MsgItem>)
    ensures
        r.deep_view() == v.deep_view(),
{
    let mut out: Vec<MsgItem> = Vec::new();
    let mut i: usize = 0;
    while i < v.len()
        invariant
            i <= v@.len(),
            out.deep_view() == v.deep_view().take(i as int),
        decreases v@.len() - i,
    {
        let ghost before = out.deep_view();
        out.push(v[i].dup());
        assert(out.deep_view() =~= before.push(v@[i as int].deep_view()));
        assert(v.deep_view().take(i + 1) =~= v.deep_view().take(i as int).push(
            v.deep_view()[i as int],
        ));
        i = i + 1;
    }
    assert(v.deep_view().take(v@.len() as int) =~= v.deep_view());
    out
}

// ---------------------------------------------------------------- laws

/// A server that answers with errors is never taken for a dead runtime, but it
/// is asked less often; a slow answer is neither.
pub proof fn law_living_server_is_not_dead(p: PollerView, f: Fetched)
    requires
        f matches Fetched::Failed(e) ==> !is_local(e),
        p.fail_streak == 0,
    ensures
        poll_next(p, f).0.fail_streak == 0,
        !(poll_next(p, f).1 matches Some(NewsView::Dead { .. })),
        f is Failed && p.backoff_fails < u32::MAX ==> poll_next(p, f).0.backoff_fails
            == p.backoff_fails + 1,
        f is TimedOut ==> poll_next(p, f).0.backoff_fails == p.backoff_fails,
{
}

/// A dead runtime is announced once.
pub proof fn law_death_announced_once(p: PollerView, f: Fetched)
    ensures
        poll_next(p, f).1 matches Some(NewsView::Dead { .. }) ==> !p.dead_notified && poll_next(
            p,
            f,
        ).0.dead_notified,
        p.dead_notified ==> poll_next(p, f).0.dead_notified,
{
}

/// A reading brings the pause back to the base, and one that shows nothing new
/// tells nothing.
pub proof fn law_reading_calms(p: PollerView, v: Json, working: bool, configured_ms: u64)
    ensures
        ({
            let (q, news) = poll_next(p, Fetched::Messages(v));
            &&& backoff(interval(working, configured_ms), q.backoff_fails) == interval(
                working,
                configured_ms,
            )
            &&& q.fail_streak == 0
            &&& q.snapshot == display_items(v@)
            &&& news is None <==> display_items(v@) == p.snapshot
        }),
{
}

/// It takes three failures of the process in a row to declare a runtime dead.
pub proof fn law_death_takes_three(p: PollerView, a: SessionError, b: SessionError, c: SessionError)
    requires
        p.fail_streak == 0,
        !p.dead_notified,
        is_local(a),
        is_local(b),
        is_local(c),
    ensures
        ({
            let (p1, n1) = poll_next(p, Fetched::Failed(a));
            let (p2, n2) = poll_next(p1, Fetched::Failed(b));
            let (p3, n3) = poll_next(p2, Fetched::Failed(c));
            n1 is None && n2 is None && n3 == Some(NewsView::Dead { notice: dead_notice(c) })
        }),
{
}

/// A changed conversation is told whole, under the session it was read from.
pub proof fn law_changes_are_told(p: PollerView, v: Json)
    ensures
        display_items(v@) != p.snapshot ==> (poll_next(p, Fetched::Messages(v)).1 matches Some(
            NewsView::Messages { sid, msgs, result },
        ) && sid == p.sid && msgs == display_items(v@) && result == difference(
            p.snapshot,
            display_items(v@),
        )),
        poll_next(p, Fetched::Messages(v)).0.sid == p.sid,
{
}

/// What is said of a dead runtime holds why it is taken for dead.
pub proof fn law_death_says_why(e: SessionError)
    ensures
        !(e matches SessionError::Runtime(RuntimeError::Exited(code, tail))) ==> contains(
            dead_notice(e),
            e.text(),
        ),
        e matches SessionError::Runtime(RuntimeError::Exited(code, tail)) ==> (!blank(tail@)
            ==> contains(dead_notice(e), trim(tail@))),
{
    broadcast use group_contains;

}

/// While a turn runs the messages are read as often as configured, never more
/// often than allowed; else at the idle pace.
pub proof fn law_interval(configured_ms: u64)
    ensures
        configured_ms >= MIN_POLL_MS ==> interval(true, configured_ms) == configured_ms,
        configured_ms < MIN_POLL_MS ==> interval(true, configured_ms) == MIN_POLL_MS,
        interval(false, configured_ms) == IDLE_POLL_MS,
{
}

} // verus!
