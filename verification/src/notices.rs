//! What the program says in its own name.

use crate::text::{
    blank, contains, dec_int, decimal_signed, group_contains, is_blank, trim, trimmed,
};
use vstd::prelude::*;

verus! {

pub open spec fn pending_text() -> Seq<char> {
    "sessão ainda não está pronta (Ctrl+N p/ tentar de novo)"@
}

/// There is no session yet.
pub fn session_pending_notice() -> (r: String)
    ensures
        r@ == pending_text(),
{
    "sessão ainda não está pronta (Ctrl+N p/ tentar de novo)".to_owned()
}

pub open spec fn readonly_text() -> Seq<char> {
    "R1: sessão retomada é leitura; novo turno só em sessão warm ou nova (new <pasta> ou zcode-cli sem args)."@
}

/// A resumed session is only read.
pub fn resume_readonly_notice() -> (r: String)
    ensures
        r@ == readonly_text(),
{
    "R1: sessão retomada é leitura; novo turno só em sessão warm ou nova (new <pasta> ou zcode-cli sem args).".to_owned()
}

pub open spec fn dead_blocked_text() -> Seq<char> {
    "runtime morto: nenhum turno novo — use /exit e reabra, ou Ctrl+N p/ sessão nova."@
}

/// The runtime is gone and takes no turn.
pub fn runtime_dead_blocked() -> (r: String)
    ensures
        r@ == dead_blocked_text(),
{
    "runtime morto: nenhum turno novo — use /exit e reabra, ou Ctrl+N p/ sessão nova.".to_owned()
}

pub open spec fn dead_banner(code: Option<i32>, tail: Seq<char>) -> Seq<char> {
    let head = "⚠ runtime encerrou (exit "@ + match code {
        Some(c) => dec_int(c as int),
        None => "?"@,
    } + "). Use /exit e reabra."@;
    if blank(tail) {
        head
    } else {
        head + "\n"@ + trim(tail)
    }
}

/// The runtime has ended, with the end of its error output.
pub fn runtime_dead_banner(code: Option<i32>, tail: &str) -> (r: String)
    ensures
        r@ == dead_banner(code, tail@),
{
    let mut s = "⚠ runtime encerrou (exit ".to_owned();
    match code {
        Some(c) => {
            let d = decimal_signed(c as i64);
            s.append(d.as_str());
        },
        None => {
            s.append("?");
        },
    }
    s.append("). Use /exit e reabra.");
    if !is_blank(tail) {
        s.append("\n");
        let t = trimmed(tail);
        s.append(t.as_str());
    }
    s
}

pub open spec fn no_answer_text(e: Seq<char>) -> Seq<char> {
    "⚠ runtime não responde ("@ + e + "). Se persistir, use /exit e reabra."@
}

/// The runtime does not answer.
pub fn runtime_silent_notice(e: &str) -> (r: String)
    ensures
        r@ == no_answer_text(e@),
{
    let mut s = "⚠ runtime não responde (".to_owned();
    s.append(e);
    s.append("). Se persistir, use /exit e reabra.");
    s
}

pub open spec fn boot_fail_text(e: Seq<char>) -> Seq<char> {
    "falha ao criar sessão: "@ + e + " (Ctrl+N p/ tentar de novo)"@
}

/// The first session could not be made.
pub fn session_boot_fail_notice(e: &str) -> (r: String)
    ensures
        r@ == boot_fail_text(e@),
{
    let mut s = "falha ao criar sessão: ".to_owned();
    s.append(e);
    s.append(" (Ctrl+N p/ tentar de novo)");
    s
}

pub open spec fn compact_text() -> Seq<char> {
    "/compact GASTA PLANO (resume a conversa no servidor). Confirmar? (y/n)"@
}

/// Compaction costs and is confirmed first.
pub fn compact_confirm_prompt() -> (r: String)
    ensures
        r@ == compact_text(),
{
    "/compact GASTA PLANO (resume a conversa no servidor). Confirmar? (y/n)".to_owned()
}

pub open spec fn goal_blocked_text() -> Seq<char> {
    "goal set/replace não disponíveis aqui: use /goal show|pause|resume|clear"@
}

/// Goals are not written from here.
pub fn goal_write_blocked_hint() -> (r: String)
    ensures
        r@ == goal_blocked_text(),
{
    "goal set/replace não disponíveis aqui: use /goal show|pause|resume|clear".to_owned()
}

pub open spec fn fork_hint() -> Seq<char> {
    "R4: fork exige workspace checkpoint do servidor"@
}

/// A fork needs a checkpoint.
pub fn fork_no_checkpoint_hint() -> (r: String)
    ensures
        r@ == fork_hint(),
{
    "R4: fork exige workspace checkpoint do servidor".to_owned()
}

pub open spec fn perm_text() -> Seq<char> {
    "permissões: sem RPC de approve/deny no servidor — em build, ferramentas podem falhar; use --mode yolo p/ execução autônoma."@
}

/// Permissions cannot be granted from here.
pub fn perm_unsupported_note() -> (r: String)
    ensures
        r@ == perm_text(),
{
    "permissões: sem RPC de approve/deny no servidor — em build, ferramentas podem falhar; use --mode yolo p/ execução autônoma.".to_owned()
}

pub open spec fn help() -> Seq<char> {
    "comandos: /help /diff /usage /context /todos /queue [clear] /export [arquivo] [--json] /stop /mode <plan|build|edit|yolo> /model [provider/modelo] /thought <low|high|max> /compact /resume [id] /new <pasta> /fork <id> /goal [show|pause|resume|clear] /exit\natalhos: Enter envia · Esc para o turno · Ctrl+N sessão nova · Ctrl+U usage · Ctrl+F busca · Ctrl+C 2× sai"@
}

/// The commands and the keys.
pub fn help_text() -> (r: String)
    ensures
        r@ == help(),
{
    "comandos: /help /diff /usage /context /todos /queue [clear] /export [arquivo] [--json] /stop /mode <plan|build|edit|yolo> /model [provider/modelo] /thought <low|high|max> /compact /resume [id] /new <pasta> /fork <id> /goal [show|pause|resume|clear] /exit\natalhos: Enter envia · Esc para o turno · Ctrl+N sessão nova · Ctrl+U usage · Ctrl+F busca · Ctrl+C 2× sai".to_owned()
}

// ---------------------------------------------------------------- laws

/// What is said of an error holds the error.
pub proof fn law_notices_say_why(code: i32, tail: Seq<char>, e: Seq<char>)
    ensures
        contains(dead_banner(Some(code), tail), dec_int(code as int)),
        !blank(tail) ==> contains(dead_banner(Some(code), tail), trim(tail)) && contains(
            dead_banner(None, tail),
            trim(tail),
        ),
        contains(no_answer_text(e), e),
        contains(boot_fail_text(e), e),
{
    broadcast use group_contains;

}

} // verus!
