//! The council: several agents answer a question, criticise each other over
//! some rounds, and a chair sums up.

use crate::commands::CmdError;
use crate::json::{no_fields, Json, JsonView};
use crate::paths::{app_dir, below, law_below, path_below, user_data_dir};
use crate::session::calls::{
    apply_mode, law_calls_carry_their_values, law_calls_name_their_session, set_mode_view, Call,
};
use crate::session::extract::{extract_session_id, session_id_of};
use crate::session::SessionError;
use crate::text::{
    blank, contains, dec, decimal, from_chars, group_contains, is_blank, join, joined,
    lemma_contains_trans, occurs_at, to_chars, word_list, words,
};
use vstd::prelude::*;

verus! {

// ---------------------------------------------------------------- roles

/// How many agents a council of `n` has.
pub open spec fn agents_of(n: u8) -> int {
    if n < 2 {
        2
    } else if n > 8 {
        8
    } else {
        n as int
    }
}

/// The role of the `i`-th agent.
pub open spec fn role_at(i: int) -> Seq<char> {
    if i == 0 {
        "Implementação (como fazer, ordem de passos, custo)"@
    } else if i == 1 {
        "Riscos & falhas (o que pode quebrar, edge cases, segurança)"@
    } else if i == 2 {
        "Alternativas (outros caminhos, trade-offs, o que não fazer)"@
    } else {
        "Especialista "@ + dec((i + 1) as nat) + " (ângulo extra da pergunta)"@
    }
}

pub open spec fn roles_of(n: u8) -> Seq<Seq<char>> {
    Seq::new(agents_of(n) as nat, |i: int| role_at(i))
}

fn role_text(i: usize) -> (r: String)
    requires
        i < 8,
    ensures
        r@ == role_at(i as int),
{
    if i == 0 {
        "Implementação (como fazer, ordem de passos, custo)".to_owned()
    } else if i == 1 {
        "Riscos & falhas (o que pode quebrar, edge cases, segurança)".to_owned()
    } else if i == 2 {
        "Alternativas (outros caminhos, trade-offs, o que não fazer)".to_owned()
    } else {
        let mut s = "Especialista ".to_owned();
        let d = decimal(i as u64 + 1);
        s.append(d.as_str());
        s.append(" (ângulo extra da pergunta)");
        s
    }
}

/// The roles of a council of `n` agents, at least two and at most eight.
pub fn default_roles(n: u8) -> (r: Vec<String>)
    ensures
        r.deep_view() == roles_of(n),
{
    let count: usize = if n < 2 {
        2
    } else if n > 8 {
        8
    } else {
        n as usize
    };
    let mut out: Vec<String> = Vec::new();
    let mut i: usize = 0;
    while i < count
        invariant
            i <= count <= 8,
            count == agents_of(n),
            out.deep_view() == roles_of(n).take(i as int),
        decreases count - i,
    {
        let ghost before = out.deep_view();
        out.push(role_text(i));
        assert(out.deep_view() =~= before.push(role_at(i as int)));
        assert(roles_of(n).take(i + 1) =~= roles_of(n).take(i as int).push(role_at(i as int)));
        i = i + 1;
    }
    assert(roles_of(n).take(count as int) =~= roles_of(n));
    out
}

/// What stands before the first blank that is followed by a parenthesis.
pub open spec fn before_paren(s: Seq<char>) -> Seq<char>
    decreases s.len(),
{
    if s.len() == 0 {
        s
    } else if s.len() >= 2 && s[0] == ' ' && s[1] == '(' {
        Seq::empty()
    } else {
        seq![s[0]] + before_paren(s.drop_first())
    }
}

proof fn lemma_before_paren(s: Seq<char>, i: int)
    requires
        0 <= i <= s.len(),
        forall|k: int| 0 <= k < i && k + 1 < s.len() ==> !(#[trigger] s[k] == ' ' && s[k + 1] == '('),
        i == s.len() || (i + 1 < s.len() && s[i] == ' ' && s[i + 1] == '('),
    ensures
        before_paren(s) == s.take(i),
    decreases s.len(),
{
    if s.len() == 0 {
        assert(s.take(0) =~= s);
    } else if i == 0 {
        assert(s.take(0) =~= Seq::empty());
    } else {
        let t = s.drop_first();
        assert forall|k: int| 0 <= k < i - 1 && k + 1 < t.len() implies !(#[trigger] t[k] == ' '
            && t[k + 1] == '(') by {
            assert(t[k] == s[k + 1] && t[k + 1] == s[k + 2]);
        }
        lemma_before_paren(t, i - 1);
        if s.len() >= 2 {
            assert(!(s[0] == ' ' && s[1] == '('));
        }
        assert(seq![s[0]] + t.take(i - 1) =~= s.take(i));
    }
}

/// A role in at most two words.
pub open spec fn short(role: Seq<char>) -> Seq<char> {
    let w = words(before_paren(role));
    join(
        if w.len() > 2 {
            w.take(2)
        } else {
            w
        },
        " "@,
    )
}

pub fn short_role(role: &str) -> (r: String)
    ensures
        r@ == short(role@),
{
    let c = to_chars(role);
    let n: usize = c.len();
    let mut i: usize = 0;
    while i < n && !(i + 1 < n && c[i] == ' ' && c[i + 1] == '(')
        invariant
            i <= n,
            n == c@.len(),
            c@ == role@,
            forall|k: int|
                0 <= k < i && k + 1 < n ==> !(#[trigger] c@[k] == ' ' && c@[k + 1] == '('),
        decreases n - i,
    {
        i = i + 1;
    }
    proof {
        lemma_before_paren(c@, i as int);
        assert(c@.subrange(0, i as int) =~= c@.take(i as int));
    }
    let head = from_chars(c.as_slice(), 0, i);
    let mut w = word_list(head.as_str());
    if w.len() > 2 {
        let ghost all = w.deep_view();
        w.truncate(2);
        assert(w.deep_view() =~= all.take(2));
    }
    joined(&w, " ")
}

// ---------------------------------------------------------------- files

/// The directory of one council below a data directory.
pub open spec fn council_place(base: Option<Seq<char>>, run_id: Seq<char>) -> Seq<char> {
    below(below(app_dir(base), "council"@), run_id)
}

pub fn council_dir_in(base: Option<&str>, run_id: &str) -> (r: String)
    ensures
        r@ == council_place(
            match base {
                Some(b) => Some(b@),
                None => None,
            },
            run_id@,
        ),
{
    let app = match base {
        Some(b) => path_below(b, "zcode-cli"),
        None => path_below(".", "zcode-cli"),
    };
    let dir = path_below(app.as_str(), "council");
    path_below(dir.as_str(), run_id)
}

/// The directory of one council on this machine.
pub fn council_dir(run_id: &str) -> (r: String)
    ensures
        exists|base: Option<Seq<char>>| r@ == #[trigger] council_place(base, run_id@),
{
    let base = user_data_dir();
    let r = match &base {
        Some(b) => council_dir_in(Some(b.as_str()), run_id),
        None => council_dir_in(None, run_id),
    };
    assert(r@ == council_place(base.deep_view(), run_id@));
    r
}

/// The memory of one agent.
pub fn agent_memory_path(dir: &str, agent_idx: usize) -> (r: String)
    ensures
        r@ == below(dir@, "agent-"@ + dec(agent_idx as nat) + ".md"@),
{
    let mut name = "agent-".to_owned();
    let d = decimal(agent_idx as u64);
    name.append(d.as_str());
    name.append(".md");
    path_below(dir, name.as_str())
}

pub fn chair_path(dir: &str) -> (r: String)
    ensures
        r@ == below(dir@, "chair.md"@),
{
    path_below(dir, "chair.md")
}

pub fn board_path(dir: &str) -> (r: String)
    ensures
        r@ == below(dir@, "board.md"@),
{
    path_below(dir, "board.md")
}

/// An agent's memory after one more answer.
pub open spec fn memory_with(prev: Seq<char>, round: u8, text: Seq<char>) -> Seq<char> {
    let start = if prev.len() > 0 && prev.last() != '\n' {
        prev.push('\n')
    } else {
        prev
    };
    start + ("\n---\n\n## Rodada "@ + dec(round as nat) + "\n\n"@ + text + "\n"@)
}

pub fn append_memory(prev: &str, round: u8, text: &str) -> (r: String)
    ensures
        r@ == memory_with(prev@, round, text@),
{
    let c = to_chars(prev);
    let mut s = prev.to_owned();
    if c.len() > 0 && c[c.len() - 1] != '\n' {
        s.push('\n');
    }
    let mut part = "\n---\n\n## Rodada ".to_owned();
    let d = decimal(round as u64);
    part.append(d.as_str());
    part.append("\n\n");
    part.append(text);
    part.append("\n");
    s.append(part.as_str());
    s
}

/// Nothing that an agent remembered is lost.
pub proof fn law_memory_grows(prev: Seq<char>, round: u8, text: Seq<char>)
    ensures
        prev.is_prefix_of(memory_with(prev, round, text)),
{
    let m = memory_with(prev, round, text);
    assert(prev =~= m.subrange(0, prev.len() as int));
}

// ---------------------------------------------------------------- prompts

pub open spec fn first_prompt(question: Seq<char>, role: Seq<char>, memory: Seq<char>) -> Seq<char> {
    let mem = if blank(memory) {
        "(sem memória anterior)"@
    } else {
        "## Sua memória de rodadas anteriores\n"@ + memory
    };
    "Você é um membro do conselho. Seu papel nesta discussão:\n**"@ + role
        + "**\n\n## Pergunta do conselho\n"@ + question + "\n\n"@ + mem
        + "\n\nResponda APENAS do seu papel. Máximo ~400 palavras. Seja concreto (passos, números, nomes). Termine com 2–3 bullets em `## Pontos-chave`."@
}

/// What an agent is asked in the first round.
pub fn prompt_round1(question: &str, role: &str, memory: &str) -> (r: String)
    ensures
        r@ == first_prompt(question@, role@, memory@),
{
    let mut mem = "(sem memória anterior)".to_owned();
    if !is_blank(memory) {
        mem = "## Sua memória de rodadas anteriores\n".to_owned();
        mem.append(memory);
    }
    let mut s = "Você é um membro do conselho. Seu papel nesta discussão:\n**".to_owned();
    s.append(role);
    s.append("**\n\n## Pergunta do conselho\n");
    s.append(question);
    s.append("\n\n");
    s.append(mem.as_str());
    s.append(
        "\n\nResponda APENAS do seu papel. Máximo ~400 palavras. Seja concreto (passos, números, nomes). Termine com 2–3 bullets em `## Pontos-chave`.",
    );
    s
}

pub open spec fn critique_prompt(
    question: Seq<char>,
    role: Seq<char>,
    board: Seq<char>,
    memory: Seq<char>,
    round: u8,
) -> Seq<char> {
    let mem = if blank(memory) {
        Seq::empty()
    } else {
        "## Sua memória\n"@ + memory + "\n\n"@
    };
    "Você é um membro do conselho. Papel:\n**"@ + role + "**\n\n## Pergunta\n"@ + question
        + "\n\n## Quadro atual (respostas dos pares, rodada "@ + dec(round as nat) + ")\n"@ + board
        + "\n\n"@ + mem
        + "Crítica construtiva: aponte falhas lógicas, o que falta, onde os outros estão certos/errados. Máximo ~300 palavras. Se concordar, diga o que preservar. Termine com `## Revisão` (sua posição atual em 3 bullets)."@
}

/// What an agent is asked in a later round.
pub fn prompt_critique(question: &str, role: &str, board: &str, memory: &str, round: u8) -> (r: String)
    ensures
        r@ == critique_prompt(question@, role@, board@, memory@, round),
{
    let mut mem = String::new();
    if !is_blank(memory) {
        mem = "## Sua memória\n".to_owned();
        mem.append(memory);
        mem.append("\n\n");
    }
    let mut s = "Você é um membro do conselho. Papel:\n**".to_owned();
    s.append(role);
    s.append("**\n\n## Pergunta\n");
    s.append(question);
    s.append("\n\n## Quadro atual (respostas dos pares, rodada ");
    let d = decimal(round as u64);
    s.append(d.as_str());
    s.append(")\n");
    s.append(board);
    s.append("\n\n");
    s.append(mem.as_str());
    s.append(
        "Crítica construtiva: aponte falhas lógicas, o que falta, onde os outros estão certos/errados. Máximo ~300 palavras. Se concordar, diga o que preservar. Termine com `## Revisão` (sua posição atual em 3 bullets).",
    );
    s
}

pub open spec fn chair_question(question: Seq<char>, board: Seq<char>) -> Seq<char> {
    "Você é o CHEFE do conselho. Não é um worker.\n\n## Pergunta\n"@ + question
        + "\n\n## Debate completo\n"@ + board
        + "\n\nProduza a decisão do conselho:\n1. **Consenso** — o que todos (ou maioria) aceitam\n2. **Divergências** — pontos em aberto e quem defendeu o quê\n3. **Recomendação** — ação concreta (faça X, evite Y, meça Z)\n4. **Próximos passos** — 3 itens no máximo\n\nMáximo ~500 palavras. Sem floreio. Se não houver consenso, diga."@
}

/// What the chair is asked.
pub fn prompt_chair(question: &str, board: &str) -> (r: String)
    ensures
        r@ == chair_question(question@, board@),
{
    let mut s = "Você é o CHEFE do conselho. Não é um worker.\n\n## Pergunta\n".to_owned();
    s.append(question);
    s.append("\n\n## Debate completo\n");
    s.append(board);
    s.append(
        "\n\nProduza a decisão do conselho:\n1. **Consenso** — o que todos (ou maioria) aceitam\n2. **Divergências** — pontos em aberto e quem defendeu o quê\n3. **Recomendação** — ação concreta (faça X, evite Y, meça Z)\n4. **Próximos passos** — 3 itens no máximo\n\nMáximo ~500 palavras. Sem floreio. Se não houver consenso, diga.",
    );
    s
}

// ---------------------------------------------------------------- board

/// An answer: who gave it, and what it says.
pub type Answer = (Seq<char>, Seq<char>);

/// The answers of one round.
pub type Round = (u8, Seq<Answer>);

pub open spec fn answers_view(v: Seq<(String, String)>) -> Seq<Answer> {
    v.map_values(|a: (String, String)| (a.0@, a.1@))
}

pub open spec fn rounds_view(v: Seq<(u8, Vec<(String, String)>)>) -> Seq<Round> {
    v.map_values(|r: (u8, Vec<(String, String)>)| (r.0, answers_view(r.1@)))
}

pub open spec fn answers_md(answers: Seq<Answer>) -> Seq<char>
    decreases answers.len(),
{
    if answers.len() == 0 {
        Seq::empty()
    } else {
        answers_md(answers.drop_last()) + ("\n### "@ + answers.last().0 + "\n\n"@
            + answers.last().1 + "\n"@)
    }
}

pub open spec fn rounds_md(rounds: Seq<Round>) -> Seq<char>
    decreases rounds.len(),
{
    if rounds.len() == 0 {
        Seq::empty()
    } else {
        rounds_md(rounds.drop_last()) + ("\n## Rodada "@ + dec(rounds.last().0 as nat) + "\n"@)
            + answers_md(rounds.last().1)
    }
}

/// The whole debate.
pub open spec fn board_md(question: Seq<char>, rounds: Seq<Round>) -> Seq<char> {
    "# Conselho — "@ + question + "\n"@ + rounds_md(rounds)
}

fn answers_text(answers: &Vec<(String, String)>) -> (r: String)
    ensures
        r@ == answers_md(answers_view(answers@)),
{
    let ghost all = answers_view(answers@);
    let mut s = String::new();
    let mut i: usize = 0;
    assert(s@ =~= answers_md(all.take(0)));
    while i < answers.len()
        invariant
            i <= answers@.len(),
            all == answers_view(answers@),
            s@ == answers_md(all.take(i as int)),
        decreases answers@.len() - i,
    {
        let mut part = "\n### ".to_owned();
        part.append(answers[i].0.as_str());
        part.append("\n\n");
        part.append(answers[i].1.as_str());
        part.append("\n");
        s.append(part.as_str());
        proof {
            assert(all.take(i + 1).drop_last() =~= all.take(i as int));
            assert(all.take(i + 1).last() == (answers@[i as int].0@, answers@[i as int].1@));
        }
        i = i + 1;
    }
    assert(all.take(all.len() as int) =~= all);
    s
}

/// Writes the debate down.
pub fn build_board(question: &str, rounds: &[(u8, Vec<(String, String)>)]) -> (r: String)
    ensures
        r@ == board_md(question@, rounds_view(rounds@)),
{
    let ghost all = rounds_view(rounds@);
    let mut s = "# Conselho — ".to_owned();
    s.append(question);
    s.append("\n");
    let ghost head = s@;
    let mut i: usize = 0;
    assert(head + rounds_md(all.take(0)) =~= head);
    while i < rounds.len()
        invariant
            i <= rounds@.len(),
            all == rounds_view(rounds@),
            s@ == head + rounds_md(all.take(i as int)),
        decreases rounds@.len() - i,
    {
        let ghost before = rounds_md(all.take(i as int));
        let mut title = "\n## Rodada ".to_owned();
        let d = decimal(rounds[i].0 as u64);
        title.append(d.as_str());
        title.append("\n");
        s.append(title.as_str());
        let body = answers_text(&rounds[i].1);
        s.append(body.as_str());
        proof {
            assert(all.take(i + 1).drop_last() =~= all.take(i as int));
            assert(all.take(i + 1).last() == (
                rounds@[i as int].0,
                answers_view(rounds@[i as int].1@),
            ));
            assert(s@ =~= head + (before + title@ + body@));
        }
        i = i + 1;
    }
    assert(all.take(all.len() as int) =~= all);
    s
}

// ---------------------------------------------------------------- limits

pub open spec fn within_limits(agents: u8, rounds: u8) -> bool {
    2 <= agents <= 8 && 1 <= rounds <= 4
}

pub open spec fn limits_text(agents: u8, rounds: u8) -> Seq<char> {
    if !(2 <= agents <= 8) {
        "--agents deve ser 2–8 (recebido "@ + dec(agents as nat) + ")"@
    } else {
        "--rounds deve ser 1–4 (recebido "@ + dec(rounds as nat) + ")"@
    }
}

/// A council has two to eight agents and one to four rounds.
pub fn validate_council(agents: u8, rounds: u8) -> (r: Result<(), String>)
    ensures
        match r {
            Ok(()) => within_limits(agents, rounds),
            Err(m) => !within_limits(agents, rounds) && m@ == limits_text(agents, rounds),
        },
{
    if !(2 <= agents && agents <= 8) {
        let mut m = "--agents deve ser 2–8 (recebido ".to_owned();
        let d = decimal(agents as u64);
        m.append(d.as_str());
        m.append(")");
        return Err(m);
    }
    if !(1 <= rounds && rounds <= 4) {
        let mut m = "--rounds deve ser 1–4 (recebido ".to_owned();
        let d = decimal(rounds as u64);
        m.append(d.as_str());
        m.append(")");
        return Err(m);
    }
    Ok(())
}

// ---------------------------------------------------------------- course

/// A council under way: the rounds that are over, and the answers of the one
/// that is not.
pub struct Council {
    pub question: String,
    pub roles: Vec<String>,
    pub rounds: u8,
    pub history: Vec<(u8, Vec<(String, String)>)>,
    pub answers: Vec<(String, String)>,
}

#[verifier::ext_equal]
pub struct CouncilView {
    pub question: Seq<char>,
    pub roles: Seq<Seq<char>>,
    pub rounds: u8,
    pub history: Seq<Round>,
    pub answers: Seq<Answer>,
}

impl View for Council {
    type V = CouncilView;

    open spec fn view(&self) -> CouncilView {
        CouncilView {
            question: self.question@,
            roles: self.roles.deep_view(),
            rounds: self.rounds,
            history: rounds_view(self.history@),
            answers: answers_view(self.answers@),
        }
    }
}

/// How many times each agent speaks: the first answer, then `rounds` critiques.
pub open spec fn all_rounds(c: CouncilView) -> int {
    1 + c.rounds
}

/// What holds of every council: its limits, and that a round ends when every
/// agent has answered.
pub open spec fn under_way(c: CouncilView) -> bool {
    &&& 2 <= c.roles.len() <= 8
    &&& 1 <= c.rounds <= 4
    &&& c.history.len() <= all_rounds(c)
    &&& c.answers.len() < c.roles.len()
    &&& c.history.len() == all_rounds(c) ==> c.answers.len() == 0
    &&& forall|i: int|
        0 <= i < c.history.len() ==> (#[trigger] c.history[i]).0 == i + 1 && c.history[i].1.len()
            == c.roles.len()
}

/// How many answers are still to come.
pub open spec fn asks_left(c: CouncilView) -> int {
    (all_rounds(c) - c.history.len()) * c.roles.len() - c.answers.len()
}

/// Who answers next.
pub open spec fn speaker(c: CouncilView) -> Seq<char> {
    "Agente "@ + dec(c.answers.len() + 1) + " — "@ + short(c.roles[c.answers.len() as int])
}

/// What the next agent is asked, given its memory.
pub open spec fn next_prompt(c: CouncilView, memory: Seq<char>) -> Seq<char> {
    let role = c.roles[c.answers.len() as int];
    if c.history.len() == 0 {
        first_prompt(c.question, role, memory)
    } else {
        critique_prompt(
            c.question,
            role,
            board_md(c.question, c.history),
            memory,
            (c.history.len() + 1) as u8,
        )
    }
}

/// The council after one more answer.
pub open spec fn heard(c: CouncilView, text: Seq<char>) -> CouncilView {
    let answers = c.answers.push((speaker(c), text));
    if answers.len() == c.roles.len() {
        CouncilView {
            history: c.history.push(((c.history.len() + 1) as u8, answers)),
            answers: Seq::empty(),
            ..c
        }
    } else {
        CouncilView { answers, ..c }
    }
}

/// What is written down of an answer: its text, or how it failed.
pub open spec fn answer_text(outcome: Result<String, SessionError>) -> Seq<char> {
    match outcome {
        Ok(t) => t@,
        Err(e) => "(falhou: "@ + e.text() + ")"@,
    }
}

/// The next question of a council.
pub struct Ask {
    pub round: u8,
    /// The number of the agent, from 0.
    pub agent: usize,
    pub prompt: String,
}

impl Council {
    /// Opens a council.
    pub fn open(question: &str, agents: u8, rounds: u8) -> (r: Result<Council, CmdError>)
        ensures
            match r {
                Ok(c) => within_limits(agents, rounds) && under_way(c@) && c@ == (CouncilView {
                    question: question@,
                    roles: roles_of(agents),
                    rounds,
                    history: Seq::empty(),
                    answers: Seq::empty(),
                }),
                Err(e) => !within_limits(agents, rounds) && e is Session && e.text() == limits_text(
                    agents,
                    rounds,
                ),
            },
    {
        match validate_council(agents, rounds) {
            Ok(()) => {},
            Err(m) => {
                return Err(CmdError::Session(m));
            },
        }
        let c = Council {
            question: question.to_owned(),
            roles: default_roles(agents),
            rounds,
            history: Vec::new(),
            answers: Vec::new(),
        };
        proof {
            assert(c@.history =~= Seq::empty());
            assert(c@.answers =~= Seq::empty());
        }
        Ok(c)
    }

    /// The round and the agent that come next; `None` when all have spoken.
    pub fn turn(&self) -> (r: Option<(u8, usize)>)
        requires
            under_way(self@),
        ensures
            match r {
                Some((round, agent)) => self@.history.len() < all_rounds(self@) && round
                    == self@.history.len() + 1 && agent == self@.answers.len(),
                None => self@.history.len() == all_rounds(self@),
            },
    {
        if self.history.len() <= self.rounds as usize {
            Some((self.history.len() as u8 + 1, self.answers.len()))
        } else {
            None
        }
    }

    /// What the next agent is asked, given its memory.
    pub fn ask(&self, memory: &str) -> (r: Option<Ask>)
        requires
            under_way(self@),
        ensures
            match r {
                Some(a) => self@.history.len() < all_rounds(self@) && a.round == self@.history.len() + 1
                    && a.agent == self@.answers.len() && a.prompt@ == next_prompt(self@, memory@),
                None => self@.history.len() == all_rounds(self@),
            },
    {
        let (round, agent) = match self.turn() {
            Some(t) => t,
            None => {
                return None;
            },
        };
        assert(self@.roles[agent as int] == self.roles@[agent as int]@);
        let prompt = if self.history.len() == 0 {
            prompt_round1(self.question.as_str(), self.roles[agent].as_str(), memory)
        } else {
            let board = build_board(self.question.as_str(), self.history.as_slice());
            prompt_critique(
                self.question.as_str(),
                self.roles[agent].as_str(),
                board.as_str(),
                memory,
                round,
            )
        };
        Some(Ask { round, agent, prompt })
    }

    /// Takes in the outcome of the question; returns what the agent is to
    /// remember, which is nothing where it failed.
    pub fn hear(&mut self, outcome: Result<String, SessionError>) -> (remember: Option<String>)
        requires
            under_way(old(self)@),
            old(self)@.history.len() < all_rounds(old(self)@),
        ensures
            final(self)@ == heard(old(self)@, answer_text(outcome)),
            under_way(final(self)@),
            match outcome {
                Ok(t) => remember matches Some(m) && m@ == t@,
                Err(_) => remember is None,
            },
    {
        let ghost c = self@;
        let ghost said = answer_text(outcome);
        let agent: usize = self.answers.len();
        assert(c.roles[agent as int] == self.roles@[agent as int]@);
        let mut who = "Agente ".to_owned();
        let d = decimal(agent as u64 + 1);
        who.append(d.as_str());
        who.append(" — ");
        let role = short_role(self.roles[agent].as_str());
        who.append(role.as_str());
        let (text, remember) = match outcome {
            Ok(t) => (t.clone(), Some(t)),
            Err(e) => {
                let mut m = "(falhou: ".to_owned();
                let x = e.to_text();
                m.append(x.as_str());
                m.append(")");
                (m, None)
            },
        };
        assert(who@ == speaker(c));
        let ghost before = self.answers@;
        self.answers.push((who, text));
        assert(answers_view(self.answers@) =~= answers_view(before).push((speaker(c), said)));
        if self.answers.len() == self.roles.len() {
            let round: u8 = self.history.len() as u8 + 1;
            let mut full: Vec<(String, String)> = Vec::new();
            std::mem::swap(&mut full, &mut self.answers);
            let ghost past = self.history@;
            self.history.push((round, full));
            proof {
                assert(rounds_view(self.history@) =~= rounds_view(past).push(
                    (round, answers_view(full@)),
                ));
                assert(answers_view(self.answers@) =~= Seq::empty());
            }
        }
        proof {
            let n = self@;
            assert forall|i: int| 0 <= i < n.history.len() implies (#[trigger] n.history[i]).0 == i
                + 1 && n.history[i].1.len() == n.roles.len() by {
                if i < c.history.len() {
                    assert(n.history[i] == c.history[i]);
                }
            }
        }
        remember
    }

    /// The debate so far.
    pub fn board(&self) -> (r: String)
        ensures
            r@ == board_md(self@.question, self@.history),
    {
        build_board(self.question.as_str(), self.history.as_slice())
    }
}

/// Every answer brings a council one step closer to its end: each agent speaks
/// once in each round, and the council is over exactly when no answer is left.
pub proof fn law_council_ends(c: CouncilView, text: Seq<char>)
    requires
        under_way(c),
        c.history.len() < all_rounds(c),
    ensures
        asks_left(heard(c, text)) == asks_left(c) - 1,
        asks_left(c) > 0,
        heard(c, text).history.len() == all_rounds(c) <==> asks_left(heard(c, text)) == 0,
{
    let n = c.roles.len() as int;
    let h = all_rounds(c) - c.history.len();
    assert(h * n - n == (h - 1) * n) by (nonlinear_arith);
    assert(h * n >= n) by (nonlinear_arith)
        requires
            h >= 1,
            n >= 0,
    ;
    if h >= 2 {
        assert((h - 1) * n >= n) by (nonlinear_arith)
            requires
                h >= 2,
                n >= 0,
        ;
    }
    let d = heard(c, text);
    if c.answers.len() + 1 == n {
        assert(all_rounds(d) - d.history.len() == h - 1);
        if h == 1 {
            assert((h - 1) * n == 0) by (nonlinear_arith)
                requires
                    h == 1,
            ;
        }
    }
}

/// A council asks each agent for a first answer and for `rounds` critiques.
pub proof fn law_council_length(c: CouncilView)
    requires
        under_way(c),
        c.history.len() == 0,
        c.answers.len() == 0,
    ensures
        asks_left(c) == (1 + c.rounds) * c.roles.len(),
{
}

/// Only the first round asks for an answer of its own; every later one asks for
/// a critique of what was said before.
pub proof fn law_critique_follows(c: CouncilView, memory: Seq<char>)
    requires
        under_way(c),
        c.history.len() < all_rounds(c),
    ensures
        c.history.len() == 0 ==> next_prompt(c, memory) == first_prompt(
            c.question,
            c.roles[c.answers.len() as int],
            memory,
        ),
        c.history.len() > 0 ==> next_prompt(c, memory) == critique_prompt(
            c.question,
            c.roles[c.answers.len() as int],
            board_md(c.question, c.history),
            memory,
            (c.history.len() + 1) as u8,
        ),
{
}

// ---------------------------------------------------------------- sessions and result

/// The session of an agent or of the chair, and the call that puts it in the
/// mode of a discussion.
pub fn council_session(created: &Json, chair: bool) -> (r: Result<(String, Option<Call>), CmdError>)
    ensures
        match r {
            Ok((sid, call)) => session_id_of(created@) == Some(sid@) && (call matches Some(c)
                && c.is("session/setMode"@, set_mode_view(sid@, "plan"@), 30)
                && c.params@.text_at("sessionId"@) == Some(sid@) && c.params@.text_at("mode"@)
                == Some("plan"@)),
            Err(e) => session_id_of(created@) is None && e is Session && e.text() == if chair {
                "create chefe não devolveu sessionId"@
            } else {
                "create worker não devolveu sessionId"@
            },
        },
{
    match extract_session_id(created) {
        Some(sid) => {
            proof {
                law_calls_name_their_session(sid@, "plan"@, sid@, sid@);
                law_calls_carry_their_values(sid@, "plan"@, sid@, sid@, 0);
            }
            let call = match apply_mode(sid.as_str(), "plan") {
                Ok(c) => Some(c),
                Err(_) => None,
            };
            Ok((sid, call))
        },
        None => {
            if chair {
                Err(CmdError::Session("create chefe não devolveu sessionId".to_owned()))
            } else {
                Err(CmdError::Session("create worker não devolveu sessionId".to_owned()))
            }
        },
    }
}

/// What the chair said, or how that failed.
pub fn synthesis(outcome: &Result<String, SessionError>) -> (r: String)
    ensures
        match outcome {
            Ok(t) => r@ == t@,
            Err(e) => r@ == "(síntese falhou: "@ + e.text() + ")"@,
        },
{
    match outcome {
        Ok(t) => t.clone(),
        Err(e) => {
            let mut m = "(síntese falhou: ".to_owned();
            let x = e.to_text();
            m.append(x.as_str());
            m.append(")");
            m
        },
    }
}

pub open spec fn answer_json(a: Answer) -> JsonView {
    no_fields().put("who"@, JsonView::Str(a.0)).put("text"@, JsonView::Str(a.1))
}

pub open spec fn round_json(r: Round) -> JsonView {
    no_fields().put("round"@, JsonView::Int(r.0 as int)).put(
        "answers"@,
        JsonView::Arr(r.1.map_values(|a: Answer| answer_json(a))),
    )
}

pub open spec fn result_json(
    c: CouncilView,
    run_id: Seq<char>,
    dir: Seq<char>,
    said: Seq<char>,
    workers: Seq<Seq<char>>,
    chair: Seq<char>,
) -> JsonView {
    no_fields().put("runId"@, JsonView::Str(run_id)).put("question"@, JsonView::Str(c.question)).put(
        "agents"@,
        JsonView::Int(c.roles.len() as int),
    ).put("rounds"@, JsonView::Int(c.rounds as int)).put("memoryDir"@, JsonView::Str(dir)).put(
        "board"@,
        JsonView::Str(board_md(c.question, c.history)),
    ).put("synthesis"@, JsonView::Str(said)).put(
        "roundsDetail"@,
        JsonView::Arr(c.history.map_values(|r: Round| round_json(r))),
    ).put(
        "sessionIds"@,
        no_fields().put(
            "workers"@,
            JsonView::Arr(workers.map_values(|t: Seq<char>| JsonView::Str(t))),
        ).put("chair"@, JsonView::Str(chair)),
    )
}

fn round_value(round: u8, answers: &Vec<(String, String)>) -> (r: Json)
    ensures
        r@ == round_json((round, answers_view(answers@))),
{
    let ghost all = answers_view(answers@).map_values(|a: Answer| answer_json(a));
    let mut items: Vec<Json> = Vec::new();
    let mut i: usize = 0;
    while i < answers.len()
        invariant
            i <= answers@.len(),
            all == answers_view(answers@).map_values(|a: Answer| answer_json(a)),
            items.deep_view() == all.take(i as int),
        decreases answers@.len() - i,
    {
        let ghost before = items.deep_view();
        let item = Json::object().with("who", Json::text(answers[i].0.as_str())).with(
            "text",
            Json::text(answers[i].1.as_str()),
        );
        let ghost one = item@;
        items.push(item);
        assert(items.deep_view() =~= before.push(one));
        assert(all.take(i + 1) =~= all.take(i as int).push(one));
        i = i + 1;
    }
    assert(all.take(all.len() as int) =~= all);
    Json::object().with("round", Json::Unsigned(round as u64)).with("answers", Json::list(items))
}

/// The result of a council for programs.
pub fn council_json(
    c: &Council,
    run_id: &str,
    dir: &str,
    said: &str,
    workers: &Vec<String>,
    chair: &str,
) -> (r: Json)
    ensures
        r@ == result_json(c@, run_id@, dir@, said@, workers.deep_view(), chair@),
{
    let ghost all = c@.history.map_values(|r: Round| round_json(r));
    let mut items: Vec<Json> = Vec::new();
    let mut i: usize = 0;
    while i < c.history.len()
        invariant
            i <= c.history@.len(),
            all == c@.history.map_values(|r: Round| round_json(r)),
            items.deep_view() == all.take(i as int),
        decreases c.history@.len() - i,
    {
        let ghost before = items.deep_view();
        let item = round_value(c.history[i].0, &c.history[i].1);
        let ghost one = item@;
        items.push(item);
        proof {
            assert(c@.history[i as int] == (
                c.history@[i as int].0,
                answers_view(c.history@[i as int].1@),
            ));
            assert(items.deep_view() =~= before.push(one));
            assert(all.take(i + 1) =~= all.take(i as int).push(one));
        }
        i = i + 1;
    }
    assert(all.take(all.len() as int) =~= all);
    let board = c.board();
    assert(c@.roles.len() == c.roles@.len());
    Json::object().with("runId", Json::text(run_id)).with("question", Json::text(c.question.as_str())).with(
        "agents",
        Json::Unsigned(c.roles.len() as u64),
    ).with("rounds", Json::Unsigned(c.rounds as u64)).with("memoryDir", Json::text(dir)).with(
        "board",
        Json::text(board.as_str()),
    ).with("synthesis", Json::text(said)).with("roundsDetail", Json::list(items)).with(
        "sessionIds",
        Json::object().with("workers", Json::texts(workers)).with("chair", Json::text(chair)),
    )
}

// ---------------------------------------------------------------- what the prompts hold

/// A worker is told its role, the question, and what it remembers.
pub proof fn law_first_prompt_holds(question: Seq<char>, role: Seq<char>, memory: Seq<char>)
    ensures
        contains(first_prompt(question, role, memory), question),
        contains(first_prompt(question, role, memory), role),
        !blank(memory) ==> contains(first_prompt(question, role, memory), memory),
{
    broadcast use group_contains;

}

/// A critic is told its role, the question, the whole board, and what it
/// remembers.
pub proof fn law_critique_prompt_holds(
    question: Seq<char>,
    role: Seq<char>,
    board: Seq<char>,
    memory: Seq<char>,
    round: u8,
)
    ensures
        contains(critique_prompt(question, role, board, memory, round), question),
        contains(critique_prompt(question, role, board, memory, round), role),
        contains(critique_prompt(question, role, board, memory, round), board),
        contains(critique_prompt(question, role, board, memory, round), dec(round as nat)),
        !blank(memory) ==> contains(critique_prompt(question, role, board, memory, round), memory),
{
    broadcast use group_contains;

}

/// The chair is told the question and the whole board, in this order.
pub proof fn law_chair_prompt_holds(question: Seq<char>, board: Seq<char>)
    ensures
        contains(chair_question(question, board), board),
        contains(chair_question(question, board), question),
        exists|i: int, j: int|
            #![trigger occurs_at(chair_question(question, board), question, i), occurs_at(
                chair_question(question, board),
                board,
                j,
            )]
            i + question.len() <= j && occurs_at(chair_question(question, board), question, i)
                && occurs_at(chair_question(question, board), board, j),
{
    broadcast use group_contains;

    let a = "Você é o CHEFE do conselho. Não é um worker.\n\n## Pergunta\n"@;
    let b = "\n\n## Debate completo\n"@;
    let all = chair_question(question, board);
    let i = a.len() as int;
    let j = i + question.len() + b.len();
    assert(all.subrange(i, i + question.len()) =~= question);
    assert(all.subrange(j, j + board.len()) =~= board);
    assert(occurs_at(all, question, i));
    assert(occurs_at(all, board, j));
}

/// Answers stand on the board in their order.
pub proof fn law_answers_in_order(a: Seq<Answer>, b: Seq<Answer>)
    ensures
        answers_md(a + b) == answers_md(a) + answers_md(b),
    decreases b.len(),
{
    if b.len() == 0 {
        assert(a + b =~= a);
        assert(answers_md(a) + answers_md(b) =~= answers_md(a));
    } else {
        assert((a + b).drop_last() =~= a + b.drop_last());
        law_answers_in_order(a, b.drop_last());
        assert(answers_md(a + b) =~= answers_md(a) + answers_md(b));
    }
}

/// Rounds stand on the board in their order, and a later board begins with the
/// earlier one.
pub proof fn law_board_grows_at_the_end(question: Seq<char>, a: Seq<Round>, b: Seq<Round>)
    ensures
        rounds_md(a + b) == rounds_md(a) + rounds_md(b),
        board_md(question, a + b) == board_md(question, a) + rounds_md(b),
        board_md(question, a).is_prefix_of(board_md(question, a + b)),
    decreases b.len(),
{
    if b.len() == 0 {
        assert(a + b =~= a);
        assert(rounds_md(a) + rounds_md(b) =~= rounds_md(a));
    } else {
        assert((a + b).drop_last() =~= a + b.drop_last());
        law_board_grows_at_the_end(question, a, b.drop_last());
        assert(rounds_md(a + b) =~= rounds_md(a) + rounds_md(b));
    }
    assert(board_md(question, a + b) =~= board_md(question, a) + rounds_md(b));
}

proof fn lemma_answers_hold(answers: Seq<Answer>, j: int)
    requires
        0 <= j < answers.len(),
    ensures
        contains(answers_md(answers), answers[j].0),
        contains(answers_md(answers), answers[j].1),
    decreases answers.len(),
{
    broadcast use group_contains;

    if j == answers.len() - 1 {
        assert(contains(answers_md(answers), answers.last().0));
        assert(contains(answers_md(answers), answers.last().1));
    } else {
        lemma_answers_hold(answers.drop_last(), j);
        assert(contains(answers_md(answers.drop_last()), answers[j].0));
        assert(contains(answers_md(answers.drop_last()), answers[j].1));
    }
}

proof fn lemma_rounds_hold(rounds: Seq<Round>, i: int)
    requires
        0 <= i < rounds.len(),
    ensures
        contains(rounds_md(rounds), answers_md(rounds[i].1)),
        contains(rounds_md(rounds), dec(rounds[i].0 as nat)),
    decreases rounds.len(),
{
    broadcast use group_contains;

    if i == rounds.len() - 1 {
        assert(contains(rounds_md(rounds), answers_md(rounds.last().1)));
        assert(contains(rounds_md(rounds), dec(rounds.last().0 as nat)));
    } else {
        lemma_rounds_hold(rounds.drop_last(), i);
        assert(contains(rounds_md(rounds.drop_last()), answers_md(rounds[i].1)));
        assert(contains(rounds_md(rounds.drop_last()), dec(rounds[i].0 as nat)));
    }
}

/// The board holds the question and, of every round, who answered and what.
pub proof fn law_board_holds(question: Seq<char>, rounds: Seq<Round>, i: int, j: int)
    requires
        0 <= i < rounds.len(),
        0 <= j < rounds[i].1.len(),
    ensures
        contains(board_md(question, rounds), question),
        contains(board_md(question, rounds), dec(rounds[i].0 as nat)),
        contains(board_md(question, rounds), rounds[i].1[j].0),
        contains(board_md(question, rounds), rounds[i].1[j].1),
{
    broadcast use group_contains;

    let board = board_md(question, rounds);
    lemma_rounds_hold(rounds, i);
    lemma_answers_hold(rounds[i].1, j);
    assert(contains(board, rounds_md(rounds)));
    lemma_contains_trans(board, rounds_md(rounds), answers_md(rounds[i].1));
    lemma_contains_trans(board, rounds_md(rounds), dec(rounds[i].0 as nat));
    lemma_contains_trans(board, answers_md(rounds[i].1), rounds[i].1[j].0);
    lemma_contains_trans(board, answers_md(rounds[i].1), rounds[i].1[j].1);
}

/// The chair reads the whole debate: the text of every answer of every round
/// stands in its prompt, under who gave it.
pub proof fn law_chair_reads_every_answer(c: CouncilView, i: int, j: int)
    requires
        0 <= i < c.history.len(),
        0 <= j < c.history[i].1.len(),
    ensures
        contains(
            chair_question(c.question, board_md(c.question, c.history)),
            c.history[i].1[j].1,
        ),
        contains(
            chair_question(c.question, board_md(c.question, c.history)),
            c.history[i].1[j].0,
        ),
{
    let board = board_md(c.question, c.history);
    law_chair_prompt_holds(c.question, board);
    law_board_holds(c.question, c.history, i, j);
    lemma_contains_trans(chair_question(c.question, board), board, c.history[i].1[j].1);
    lemma_contains_trans(chair_question(c.question, board), board, c.history[i].1[j].0);
}

/// After the first round every worker reads every answer of the rounds before,
/// and every worker at any time reads the question and its own role.
pub proof fn law_workers_read_the_debate(c: CouncilView, memory: Seq<char>, i: int, j: int)
    requires
        under_way(c),
        0 <= i < c.history.len(),
        0 <= j < c.history[i].1.len(),
    ensures
        contains(next_prompt(c, memory), c.history[i].1[j].1),
        contains(next_prompt(c, memory), c.question),
        contains(next_prompt(c, memory), c.roles[c.answers.len() as int]),
{
    let board = board_md(c.question, c.history);
    let role = c.roles[c.answers.len() as int];
    let round = (c.history.len() + 1) as u8;
    law_critique_prompt_holds(c.question, role, board, memory, round);
    law_board_holds(c.question, c.history, i, j);
    lemma_contains_trans(next_prompt(c, memory), board, c.history[i].1[j].1);
}

/// What a worker answered is kept: the answer joins those of the round, or
/// closes the round as its last answer, and nothing heard before changes.
pub proof fn law_answer_is_kept(c: CouncilView, text: Seq<char>)
    requires
        under_way(c),
        c.history.len() < all_rounds(c),
    ensures
        ({
            let d = heard(c, text);
            &&& d.question == c.question && d.roles == c.roles && d.rounds == c.rounds
            &&& c.answers.len() + 1 < c.roles.len() ==> d.history == c.history && d.answers.len()
                == c.answers.len() + 1 && d.answers.last() == (speaker(c), text)
                && c.answers.is_prefix_of(d.answers)
            &&& c.answers.len() + 1 == c.roles.len() ==> d.answers.len() == 0
                && d.history.len() == c.history.len() + 1 && c.history.is_prefix_of(d.history)
                && d.history.last().1.len() == c.roles.len() && d.history.last().1.last() == (
            speaker(c),
            text,
        )
                && c.answers.is_prefix_of(d.history.last().1) && d.history.last().0
                == d.history.len()
        }),
{
}

/// Who speaks is told by the place in the round and by the role of that place.
pub proof fn law_speaker_named(c: CouncilView)
    requires
        under_way(c),
    ensures
        contains(speaker(c), dec(c.answers.len() + 1)),
        contains(speaker(c), short(c.roles[c.answers.len() as int])),
{
    broadcast use group_contains;

}

/// What a worker said, and in which round, is the end of what it remembers.
pub proof fn law_memory_holds(prev: Seq<char>, round: u8, text: Seq<char>)
    ensures
        contains(memory_with(prev, round, text), text),
        contains(memory_with(prev, round, text), dec(round as nat)),
        (text + "\n"@).is_suffix_of(memory_with(prev, round, text)),
{
    broadcast use group_contains;

    let m = memory_with(prev, round, text);
    assert(m.subrange(m.len() - (text + "\n"@).len(), m.len() as int) =~= text + "\n"@);
}

/// A worker that failed is heard as failed, with the reason.
pub proof fn law_answer_text(e: SessionError, t: String)
    ensures
        answer_text(Ok(t)) == t@,
        contains(answer_text(Err(e)), e.text()),
{
    broadcast use group_contains;

}

/// No two places of a council have the same role.
pub proof fn law_roles_differ(i: int, j: int)
    requires
        0 <= i < j < 3,
    ensures
        role_at(i) != role_at(j),
{
    reveal_strlit("Implementação (como fazer, ordem de passos, custo)");
    reveal_strlit("Riscos & falhas (o que pode quebrar, edge cases, segurança)");
    reveal_strlit("Alternativas (outros caminhos, trade-offs, o que não fazer)");
    assert(role_at(0)[0] == 'I');
    assert(role_at(1)[0] == 'R');
    assert(role_at(2)[0] == 'A');
}

/// The result for programs holds the question, the synthesis, the board, every
/// answer of every round in its place, and the sessions.
pub proof fn law_result_holds(
    c: CouncilView,
    run_id: Seq<char>,
    dir: Seq<char>,
    said: Seq<char>,
    workers: Seq<Seq<char>>,
    chair: Seq<char>,
)
    ensures
        ({
            let v = result_json(c, run_id, dir, said, workers, chair);
            &&& v.text_at("runId"@) == Some(run_id)
            &&& v.text_at("question"@) == Some(c.question)
            &&& v.get("agents"@) == Some(JsonView::Int(c.roles.len() as int))
            &&& v.get("rounds"@) == Some(JsonView::Int(c.rounds as int))
            &&& v.text_at("memoryDir"@) == Some(dir)
            &&& v.text_at("board"@) == Some(board_md(c.question, c.history))
            &&& v.text_at("synthesis"@) == Some(said)
            &&& v.get2("sessionIds"@, "chair"@) == Some(JsonView::Str(chair))
            &&& v.get2("sessionIds"@, "workers"@) matches Some(JsonView::Arr(ws)) && ws.len()
                == workers.len() && (forall|i: int|
                0 <= i < ws.len() ==> #[trigger] ws[i] == JsonView::Str(workers[i]))
            &&& v.items_at("roundsDetail"@) matches Some(rs) && rs.len() == c.history.len() && (
            forall|i: int|
                0 <= i < rs.len() ==> (#[trigger] rs[i]).get("round"@) == Some(
                    JsonView::Int(c.history[i].0 as int),
                ) && holds_answers(rs[i], c.history[i].1))
        }),
{
    reveal_strlit("runId");
    reveal_strlit("question");
    reveal_strlit("agents");
    reveal_strlit("rounds");
    reveal_strlit("memoryDir");
    reveal_strlit("board");
    reveal_strlit("synthesis");
    reveal_strlit("roundsDetail");
    reveal_strlit("sessionIds");
    assert("runId"@.len() == 5 && "question"@.len() == 8 && "agents"@.len() == 6 && "rounds"@.len() == 6 && "memoryDir"@.len() == 9 && "board"@.len() == 5 && "synthesis"@.len() == 9 && "roundsDetail"@.len() == 12 && "sessionIds"@.len() == 10);
    assert("runId"@[0] != "board"@[0]);
    assert("agents"@[0] != "rounds"@[0]);
    assert("memoryDir"@[0] != "synthesis"@[0]);
    reveal_strlit("workers");
    reveal_strlit("chair");
    assert("workers"@.len() == 7 && "chair"@.len() == 5);
    reveal_strlit("round");
    assert("round"@.len() == 5);
    let v = result_json(c, run_id, dir, said, workers, chair);
    let rs = v.items_at("roundsDetail"@)->Some_0;
    assert(rs =~= c.history.map_values(|r: Round| round_json(r)));
    assert forall|i: int| 0 <= i < rs.len() implies (#[trigger] rs[i]).get("round"@) == Some(
        JsonView::Int(c.history[i].0 as int),
    ) && holds_answers(rs[i], c.history[i].1) by {
        law_round_holds(c.history[i]);
    }
}

/// The answers of a round are told in their order, each with who gave it.
pub open spec fn holds_answers(v: JsonView, answers: Seq<Answer>) -> bool {
    v.items_at("answers"@) matches Some(list) && list.len() == answers.len() && (forall|j: int|
        0 <= j < list.len() ==> (#[trigger] list[j]).text_at("who"@) == Some(answers[j].0)
            && list[j].text_at("text"@) == Some(answers[j].1))
}

/// A round for programs holds its number and its answers.
pub proof fn law_round_holds(r: Round)
    ensures
        round_json(r).get("round"@) == Some(JsonView::Int(r.0 as int)),
        holds_answers(round_json(r), r.1),
{
    reveal_strlit("round");
    reveal_strlit("answers");
    assert("round"@.len() == 5 && "answers"@.len() == 7);
    reveal_strlit("who");
    reveal_strlit("text");
    assert("who"@.len() == 3 && "text"@.len() == 4);
    let list = round_json(r).items_at("answers"@)->Some_0;
    assert(list =~= r.1.map_values(|a: Answer| answer_json(a)));
}

/// A council has as many roles as agents, within its bounds.
pub proof fn law_roles_of(n: u8)
    ensures
        2 <= roles_of(n).len() <= 8,
        2 <= n <= 8 ==> roles_of(n).len() == n,
        roles_of(n)[0] == role_at(0),
        roles_of(n)[1] == role_at(1),
        n >= 4 ==> contains(roles_of(n)[3], dec(4)),
{
    broadcast use group_contains;

}

/// A role is told by what stands before its bracket.
pub proof fn law_before_paren(a: Seq<char>, b: Seq<char>)
    requires
        forall|i: int| 0 <= i < a.len() ==> #[trigger] a[i] != '(',
    ensures
        before_paren(a) == a,
        before_paren(a + seq![' ', '('] + b) == a,
    decreases a.len(),
{
    if a.len() > 0 {
        let r = a.drop_first();
        assert forall|i: int| 0 <= i < r.len() implies #[trigger] r[i] != '(' by {
            assert(r[i] == a[i + 1]);
        }
        law_before_paren(r, b);
        let all = a + seq![' ', '('] + b;
        assert(all.drop_first() =~= r + seq![' ', '('] + b);
        assert(seq![a[0]] + r =~= a);
        assert(all[1] != '(') by {
            if a.len() > 1 {
                assert(all[1] == a[1]);
            } else {
                assert(all[1] == ' ');
            }
        }
        if a.len() > 1 {
            assert(a[1] != '(');
        }
    } else {
        let all = a + seq![' ', '('] + b;
        assert(all[0] == ' ' && all[1] == '(');
        assert(before_paren(a) =~= a);
    }
}

/// Every run of a council has a place of its own, below that of the program.
pub proof fn law_council_place(base: Seq<char>, run_id: Seq<char>, other: Seq<char>)
    ensures
        base.is_prefix_of(council_place(Some(base), run_id)),
        run_id.is_suffix_of(council_place(Some(base), run_id)),
        council_place(Some(base), run_id) == council_place(Some(base), other) ==> run_id == other,
{
    let d = app_dir(Some(base));
    let c = below(d, "council"@);
    law_below(base, "zcode-cli"@, "zcode-cli"@);
    law_below(d, "council"@, "council"@);
    law_below(c, run_id, other);
    let n = base.len() as int;
    assert(c.subrange(0, n) =~= d.subrange(0, n));
    assert(council_place(Some(base), run_id).subrange(0, n) =~= c.subrange(0, n));
}

/// What is out of bounds is told with what was given.
pub proof fn law_limits(agents: u8, rounds: u8)
    ensures
        within_limits(agents, rounds) <==> 2 <= agents <= 8 && 1 <= rounds <= 4,
        agents < 2 || agents > 8 ==> contains(limits_text(agents, rounds), dec(agents as nat)),
        2 <= agents <= 8 && !within_limits(agents, rounds) ==> contains(
            limits_text(agents, rounds),
            dec(rounds as nat),
        ),
{
    broadcast use group_contains;

}

} // verus!
