//! Waiting for the answer of a turn: the transcript is read again and again
//! until the answer stops changing.

use crate::session::SessionError;
use crate::text::{blank, contains, dec, decimal, group_contains, is_blank};
use vstd::prelude::*;

verus! {

/// How often the transcript is read in the prompt loops, and how many unchanged
/// answers in a row end the turn there.
pub const WAIT_POLL_MS: u64 = 1000;

pub const WAIT_STABLE: u32 = 3;

/// The same for the terminal interface, which shows the answer as it grows.
pub const FAST_POLL_MS: u64 = 200;

pub const FAST_STABLE: u32 = 2;

/// What is known of a turn that is being waited for.
pub struct TurnWait {
    /// The answer seen last.
    pub last_text: String,
    /// How many times in a row it was seen again.
    pub stable: u32,
}

#[verifier::ext_equal]
pub struct TurnWaitView {
    pub last_text: Seq<char>,
    pub stable: int,
}

impl View for TurnWait {
    type V = TurnWaitView;

    open spec fn view(&self) -> TurnWaitView {
        TurnWaitView { last_text: self.last_text@, stable: self.stable as int }
    }
}

/// What is known before the first reading.
pub open spec fn wait_start() -> TurnWaitView {
    TurnWaitView { last_text: Seq::empty(), stable: 0 }
}

/// What is known after one more reading of the answer (empty where there is
/// none): the same answer counts once more, unless it is blank; another one
/// starts over.
pub open spec fn wait_next(w: TurnWaitView, answer: Seq<char>) -> TurnWaitView {
    if answer != w.last_text {
        TurnWaitView { last_text: answer, stable: 0 }
    } else if blank(answer) {
        w
    } else {
        TurnWaitView { last_text: w.last_text, stable: w.stable + 1 }
    }
}

/// The answer is there and has been the same often enough.
pub open spec fn settled(w: TurnWaitView, needed: int) -> bool {
    w.stable >= needed && !blank(w.last_text)
}

/// What a reading means for the turn.
pub enum WaitStep {
    /// Read again after the pause.
    Again,
    /// The turn has ended with this answer.
    Done(String),
    /// No answer came in time.
    Failed(SessionError),
}

pub open spec fn timeout_text(timeout_secs: u64) -> Seq<char> {
    "timeout ("@ + dec(timeout_secs as nat) + "s) sem resposta do assistant"@
}

/// How a step follows from what is known: a settled answer ends the turn; when
/// the time is up, what there is of the answer ends it, and nothing fails it.
pub open spec fn step_follows(
    step: WaitStep,
    w: TurnWaitView,
    needed: u32,
    elapsed_secs: u64,
    timeout_secs: u64,
) -> bool {
    if settled(w, needed as int) {
        step matches WaitStep::Done(t) && t@ == w.last_text
    } else if elapsed_secs >= timeout_secs {
        if blank(w.last_text) {
            step matches WaitStep::Failed(SessionError::Protocol(m)) && m@ == timeout_text(
                timeout_secs,
            )
        } else {
            step matches WaitStep::Done(t) && t@ == w.last_text
        }
    } else {
        step is Again
    }
}

/// A wait that has not ended: no answer was seen again as often as needed.
pub open spec fn waiting(w: TurnWaitView, needed: u32) -> bool {
    &&& 0 <= w.stable
    &&& w.stable > 0 ==> w.stable < needed && !blank(w.last_text)
}

impl TurnWait {
    pub fn new() -> (r: TurnWait)
        ensures
            r@ == wait_start(),
            forall|needed: u32| waiting(r@, needed),
    {
        TurnWait { last_text: String::new(), stable: 0 }
    }

    /// Takes in one reading of the transcript.
    pub fn observe(
        &mut self,
        answer: Option<String>,
        needed: u32,
        elapsed_secs: u64,
        timeout_secs: u64,
    ) -> (step: WaitStep)
        requires
            waiting(old(self)@, needed),
        ensures
            final(self)@ == wait_next(
                old(self)@,
                match answer {
                    Some(t) => t@,
                    None => Seq::empty(),
                },
            ),
            step_follows(step, final(self)@, needed, elapsed_secs, timeout_secs),
            step is Again ==> waiting(final(self)@, needed),
    {
        let cur = match answer {
            Some(t) => t,
            None => String::new(),
        };
        if cur == self.last_text {
            if !is_blank(cur.as_str()) {
                self.stable = self.stable + 1;
            }
        } else {
            self.stable = 0;
            self.last_text = cur;
        }
        if self.stable >= needed && !is_blank(self.last_text.as_str()) {
            return WaitStep::Done(self.last_text.clone());
        }
        if elapsed_secs >= timeout_secs {
            if is_blank(self.last_text.as_str()) {
                let mut m = "timeout (".to_owned();
                let d = decimal(timeout_secs);
                m.append(d.as_str());
                m.append("s) sem resposta do assistant");
                return WaitStep::Failed(SessionError::Protocol(m));
            }
            return WaitStep::Done(self.last_text.clone());
        }
        WaitStep::Again
    }
}

/// Whatever is read and however long it takes, a turn ends only with an answer
/// that says something, the one read last.
pub proof fn law_answer_not_blank(
    step: WaitStep,
    w: TurnWaitView,
    needed: u32,
    elapsed_secs: u64,
    timeout_secs: u64,
)
    requires
        step_follows(step, w, needed, elapsed_secs, timeout_secs),
    ensures
        step matches WaitStep::Done(t) ==> !blank(t@) && t@ == w.last_text,
{
}

/// The wait never outlasts its limit: the first reading at or after it ends
/// the turn.
pub proof fn law_wait_bounded(
    step: WaitStep,
    w: TurnWaitView,
    needed: u32,
    elapsed_secs: u64,
    timeout_secs: u64,
)
    requires
        step_follows(step, w, needed, elapsed_secs, timeout_secs),
        elapsed_secs >= timeout_secs,
    ensures
        !(step is Again),
{
}

/// What is known after reading the same answer `n` times more.
pub open spec fn seen_again(w: TurnWaitView, answer: Seq<char>, n: nat) -> TurnWaitView
    decreases n,
{
    if n == 0 {
        w
    } else {
        wait_next(seen_again(w, answer, (n - 1) as nat), answer)
    }
}

/// An answer that says something and stays the same settles after exactly as
/// many further readings as are needed.
pub proof fn law_stable_answer_settles(w: TurnWaitView, answer: Seq<char>, needed: nat, n: nat)
    requires
        answer != w.last_text,
        !blank(answer),
    ensures
        seen_again(w, answer, n + 1) == (TurnWaitView { last_text: answer, stable: n as int }),
        settled(seen_again(w, answer, n + 1), needed as int) <==> n >= needed,
    decreases n,
{
    if n > 0 {
        law_stable_answer_settles(w, answer, needed, (n - 1) as nat);
    } else {
        assert(seen_again(w, answer, 0) == w);
    }
}

/// When the time is up an answer that has begun is taken as it is; without one
/// the turn fails.
pub proof fn law_timeout_keeps_the_answer(
    step: WaitStep,
    w: TurnWaitView,
    needed: u32,
    elapsed_secs: u64,
    timeout_secs: u64,
)
    requires
        step_follows(step, w, needed, elapsed_secs, timeout_secs),
    ensures
        elapsed_secs >= timeout_secs && !blank(w.last_text) ==> (step matches WaitStep::Done(t) && t@
            == w.last_text),
        elapsed_secs >= timeout_secs && blank(w.last_text) ==> step is Failed,
        elapsed_secs < timeout_secs && blank(w.last_text) ==> step is Again,
        elapsed_secs < timeout_secs && w.stable < needed ==> step is Again,
        elapsed_secs < timeout_secs && w.stable >= needed && !blank(w.last_text) ==> step is Done,
{
}

/// An answer that changes is watched anew; a wait that fails tells how long it was.
pub proof fn law_change_starts_anew(w: TurnWaitView, answer: Seq<char>, secs: u64)
    ensures
        wait_next(w, answer).last_text == answer,
        answer != w.last_text ==> wait_next(w, answer).stable == 0,
        answer == w.last_text && !blank(answer) ==> wait_next(w, answer).stable == w.stable + 1,
        answer == w.last_text && blank(answer) ==> wait_next(w, answer).stable == w.stable,
        contains(timeout_text(secs), dec(secs as nat)),
{
    broadcast use group_contains;

}

} // verus!
