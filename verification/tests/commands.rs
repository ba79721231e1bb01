use zcode_cli::commands::input::{parse_input, Input};
use zcode_cli::commands::merge::MergeResult;
use zcode_cli::commands::poll::{
    poll_backoff_ms, poll_err_is_local, poll_err_is_timeout, poll_fail_streak, poll_interval_ms,
    poll_should_fetch, runtime_exited_info, Fetched, News, Poller, IDLE_POLL_MS,
    POLL_BACKOFF_CAP_MS, POLL_DEAD_STREAK,
};
use zcode_cli::commands::slash::{diff_report, format_models_list};
use zcode_cli::commands::snapshot::{
    diff_snapshots, format_diff_notice, git_diff_stat, git_stat_summary, snapshot_skip_dir,
    trunc_chars, turn_diff, EntryKind, Snapshot, Walk, WalkStep, WorkspaceDiff, SNAPSHOT_MAX,
};
use zcode_cli::commands::tables::{
    context_summary_line, format_local_history, format_message, format_session_list_numbered,
    format_sessions_table, format_todos, show_resumed_reading,
};
use zcode_cli::commands::{
    confirm_yes, default_config_toml, ensure_tui_tty, exit_code, goal_write_blocked, is_retro,
    is_turn_stalled, may_init, next_override, node_missing, notify_action, override_calls,
    panic_report, panic_stderr_line, parse_tools_filter, tools_filter_warning, turn_failed,
    turn_join_error_notice, validate_resume_id, validate_workspace_exists, CmdError, NotifyAction,
    OverrideStep,
};
use zcode_cli::config::FileConfig;
use zcode_cli::json::{read_json, Json};
use zcode_cli::notices::{
    compact_confirm_prompt, fork_no_checkpoint_hint, goal_write_blocked_hint, help_text,
};
use zcode_cli::rpc::RpcError;
use zcode_cli::runtime::RuntimeError;
use zcode_cli::session::calls::{validate_mode, validate_thought};
use zcode_cli::session::extract::{available_models, ContextUsage, MsgItem, MsgKind};
use zcode_cli::session::history::HistoryEntry;
use zcode_cli::session::listing::parse_session_list;
use zcode_cli::session::todos::{TodoItem, TodoStatus};
use zcode_cli::session::SessionError;

fn j(text: &str) -> Json {
    read_json(text).unwrap()
}

#[test]
fn ux_input_vazio_volta_ao_prompt() {
    assert_eq!(parse_input(""), Input::Empty);
    assert_eq!(parse_input("   "), Input::Empty);
}

#[test]
fn commands_are_read() {
    assert_eq!(parse_input("/exit"), Input::Exit);
    assert_eq!(parse_input(" /quit "), Input::Exit);
    assert_eq!(parse_input("/mode"), Input::Mode(None));
    assert_eq!(parse_input("/mode plan"), Input::Mode(Some("plan".into())));
    assert_eq!(parse_input("/queue clear"), Input::Queue(true));
    assert_eq!(parse_input("/queue"), Input::Queue(false));
    assert_eq!(
        parse_input("/export --json c.json"),
        Input::Export { path: Some("c.json".into()), json: true }
    );
    assert_eq!(parse_input("/export"), Input::Export { path: None, json: false });
    assert_eq!(parse_input("/resume 2"), Input::Resume(Some("2".into())));
    assert!(matches!(parse_input("/nada"), Input::Unknown(_)));
    assert_eq!(parse_input("explique isto"), Input::Text("explique isto".into()));
}

#[test]
fn ux_workspace_inexistente_erro_claro() {
    let e = validate_workspace_exists("C:/caminho/que/nao/existe-xyz-123", false).unwrap_err();
    assert!(e.to_text().contains("workspace inexistente"));
    assert!(validate_workspace_exists("  ", true).unwrap_err().to_text().contains("vazio"));
    assert!(validate_workspace_exists("C:/x", true).is_ok());
}

#[test]
fn ux_resume_id_invalido_erro_claro() {
    assert!(validate_resume_id("").is_err());
    assert!(validate_resume_id("   ").is_err());
    assert!(validate_resume_id("sess_abc").is_ok());
    let e = validate_resume_id("").unwrap_err();
    assert!(e.to_text().contains("resume id inválido"));
}

#[test]
fn ux_sessions_tabela_tem_colunas() {
    let v = j(
        r#"{"sessions":[{"sessionId":"sess_1","title":"t","mode":"build","status":"active","createdAt":"2026-09-08"}]}"#,
    );
    let t = format_sessions_table(&v);
    for col in ["id", "titulo", "modo", "status", "data"] {
        assert!(t.contains(col), "falta coluna {col}");
    }
    assert!(t.contains("sess_1  t  build  active  2026-09-08"));
    assert_eq!(format_sessions_table(&j("{}")), "(nenhuma sessão)");
}

#[test]
fn fase3_goal_write_bloqueado_com_hint() {
    assert!(goal_write_blocked("set"));
    assert!(goal_write_blocked("replace"));
    assert!(!goal_write_blocked("show"));
    assert!(!goal_write_blocked("pause"));
    assert!(goal_write_blocked_hint().contains("show|pause|resume|clear"));
}

#[test]
fn fase3_compact_exige_confirmacao() {
    assert!(confirm_yes("y"));
    assert!(confirm_yes("yes"));
    assert!(confirm_yes(" S "));
    assert!(!confirm_yes("n"));
    assert!(!confirm_yes(""));
    assert!(compact_confirm_prompt().contains("GASTA PLANO"));
}

#[test]
fn fase3_modelos_fixture_sem_chamada() {
    let create = j(
        r#"{"settings":{"model":{
              "current":{"providerId":"zai","modelId":"glm-5.3-Flash"},
              "available":[
                {"label":"glm-5.3-Flash","ref":{"providerId":"zai","modelId":"glm-5.3-Flash"},"contextWindow":1000000}
              ]}}}"#,
    );
    let ms = available_models(&create);
    assert_eq!(ms.len(), 1);
    let t = format_models_list(&ms);
    assert!(t.contains("zai/glm-5.3-Flash"));
    assert!(validate_mode("turbo").is_err());
    assert!(validate_thought("medio").is_err());
}

#[test]
fn fase3_fork_sem_id_erro_claro() {
    let e = validate_resume_id("   ").unwrap_err();
    assert!(e.to_text().contains("resume id inválido"));
    assert!(fork_no_checkpoint_hint().contains("R4"));
}

#[test]
fn panic_report_e_stderr_line_shape() {
    let r = panic_report("índice fora dos limites", "src/ui/tui.rs:1234:9");
    assert!(r.contains("panic em src/ui/tui.rs:1234:9"), "{r}");
    assert!(r.contains("payload: índice fora dos limites"), "{r}");
    assert!(r.ends_with('\n'), "termina em nova linha");
    let l = panic_stderr_line(
        "src/commands.rs:99:5",
        r"C:\Users\x\AppData\Roaming\zcode-cli\log.txt",
    );
    assert!(l.starts_with("panic em src/commands.rs:99:5"), "{l}");
    assert!(l.contains("zcode-cli\\log.txt"), "{l}");
    assert!(l.contains("zcode-cli doctor"), "{l}");
    assert!(
        l.lines().count() == 1,
        "uma linha só (terminal sujo = mensagem perdida)"
    );
    assert!(panic_stderr_line("local desconhecido", "log.txt").contains("panic em"));
}

#[test]
fn fase5_exit_codes() {
    assert_eq!(exit_code(&CmdError::Runtime("x".into())), 1);
    assert_eq!(exit_code(&CmdError::Session("x".into())), 1);
    assert_eq!(exit_code(&CmdError::Config("x".into())), 1);
    assert_eq!(exit_code(&CmdError::Io("x".into())), 1);
    assert_eq!(exit_code(&CmdError::Stopped("timeout (300s)".into())), 2);
    let e = CmdError::Session("timeout (300s) sem resposta do assistant".into());
    assert!(is_turn_stalled(&e));
    assert!(!is_turn_stalled(&CmdError::Session("outro erro".into())));
    assert!(!is_turn_stalled(&CmdError::Runtime("timeout".into())));
}

#[test]
fn a_turn_that_times_out_exits_with_two() {
    let e = turn_failed(&SessionError::Protocol(
        "timeout (300s) sem resposta do assistant".into(),
    ));
    assert!(matches!(e, CmdError::Stopped(_)));
    assert_eq!(exit_code(&e), 2);
    let e = turn_failed(&SessionError::Io("pipe".into()));
    assert_eq!(exit_code(&e), 1);
}

#[test]
fn fase5_tools_filter_parse() {
    assert!(parse_tools_filter(None).is_empty());
    assert!(parse_tools_filter(Some("")).is_empty());
    assert_eq!(
        parse_tools_filter(Some("Bash(git *), Edit")),
        vec!["Bash(git *)", "Edit"]
    );
    assert_eq!(parse_tools_filter(Some("Bash Read")), vec!["Bash", "Read"]);
    assert_eq!(
        parse_tools_filter(Some("  Bash ,,  Read ")),
        vec!["Bash", "Read"]
    );
    assert!(tools_filter_warning(&[], &[]).is_none());
    let w = tools_filter_warning(&["Bash".into()], &[]).unwrap();
    assert!(w.contains("não aplicado ao protocolo"));
}

fn snap(items: &[(&str, u64)]) -> Snapshot {
    let mut s = Snapshot::new();
    for (path, at) in items {
        s.note(path, *at);
    }
    s
}

#[test]
fn fase5_diff_snapshots_fixture() {
    let before = snap(&[("a.txt", 10), ("b.txt", 20)]);
    let after = snap(&[("a.txt", 10), ("b.txt", 30), ("novo.txt", 5)]);
    let d = diff_snapshots(&before, &after);
    assert_eq!(d.created, vec!["novo.txt".to_string()]);
    assert_eq!(d.modified, vec!["b.txt".to_string()]);
    let empty = diff_snapshots(&before, &before);
    assert!(empty.created.is_empty() && empty.modified.is_empty());
}

#[test]
fn snapshot_keeps_the_last_time() {
    let mut s = snap(&[("b", 1), ("a", 2)]);
    assert_eq!(s.len(), 2);
    s.note("b", 7);
    assert_eq!(s.len(), 2);
    assert_eq!(s.get("b"), Some(7));
    assert_eq!(s.get("c"), None);
}

#[test]
fn walk_skips_caches() {
    let mut w = Walk::new();
    let file = EntryKind::File { mtime: Some(3) };
    assert_eq!(w.visit(file, "f.txt", "f.txt"), WalkStep::Next);
    assert_eq!(w.visit(EntryKind::Dir, "node_modules", "node_modules"), WalkStep::Next);
    assert_eq!(w.visit(EntryKind::Dir, ".git", ".git"), WalkStep::Next);
    assert_eq!(w.visit(EntryKind::Dir, "src", "src"), WalkStep::Descend);
    assert_eq!(w.visit(file, "main.rs", "src\\main.rs"), WalkStep::Next);
    assert_eq!(w.visit(EntryKind::Other, "fifo", "fifo"), WalkStep::Next);
    assert_eq!(w.files.len(), 2);
    assert_eq!(w.files.get("f.txt"), Some(3));
    assert_eq!(w.files.get("src/main.rs"), Some(3));
}

#[test]
fn git_says_nothing_outside_a_repository() {
    assert!(git_diff_stat(false, "fatal").is_none());
    assert!(git_diff_stat(true, " \n").is_none());
    assert_eq!(git_diff_stat(true, " x | 1 +\n").unwrap(), "x | 1 +");
}

#[test]
fn snapshot_skip_dir_cobre_caches_e_ocultos() {
    assert!(snapshot_skip_dir(".git"));
    assert!(snapshot_skip_dir("node_modules"));
    assert!(snapshot_skip_dir("target"));
    assert!(snapshot_skip_dir("__pycache__"));
    assert!(snapshot_skip_dir(".venv"));
    assert!(snapshot_skip_dir(".cache"));
    assert!(snapshot_skip_dir(".github"));
    assert!(!snapshot_skip_dir("src"));
    assert!(!snapshot_skip_dir("docs"));
    assert!(!snapshot_skip_dir("assets"));
}

#[test]
fn fase5_notify_action() {
    assert_eq!(notify_action(false, None), NotifyAction::Nothing);
    assert_eq!(notify_action(false, Some("x")), NotifyAction::Nothing);
    assert_eq!(notify_action(true, None), NotifyAction::Beep);
    assert_eq!(notify_action(true, Some("  ")), NotifyAction::Beep);
    assert_eq!(
        notify_action(true, Some("cmd pronto")),
        NotifyAction::Command("cmd pronto".into())
    );
}

#[test]
fn poll_interval_working_curto_ocioso_longo() {
    assert_eq!(poll_interval_ms(true, 300), 300);
    assert_eq!(poll_interval_ms(true, 500), 500, "config antiga respeitada");
    assert_eq!(poll_interval_ms(true, 50), 100, "clamp mínimo .max(100)");
    assert_eq!(poll_interval_ms(false, 300), IDLE_POLL_MS);
    assert_eq!(poll_interval_ms(false, 500), IDLE_POLL_MS);
    assert!(IDLE_POLL_MS >= 1000, "ocioso é ordens mais lento que working");
}

#[test]
fn poll_backoff_exponencial_cap_e_saturacao() {
    assert_eq!(poll_backoff_ms(1500, 0), 1500);
    assert_eq!(poll_backoff_ms(300, 0), 300);
    assert_eq!(poll_backoff_ms(1500, 1), 3000);
    assert_eq!(poll_backoff_ms(1500, 2), 6000);
    assert_eq!(poll_backoff_ms(1500, 3), 12000);
    assert_eq!(poll_backoff_ms(1500, 4), POLL_BACKOFF_CAP_MS);
    assert_eq!(poll_backoff_ms(1500, 100), POLL_BACKOFF_CAP_MS);
    assert_eq!(
        poll_backoff_ms(1500, u32::MAX),
        POLL_BACKOFF_CAP_MS,
        "saturação u32 sem overflow no shift"
    );
    assert_eq!(poll_backoff_ms(100, 8), POLL_BACKOFF_CAP_MS);
    assert_eq!(poll_backoff_ms(100, 1), 200);
}

fn server_error(code: i64) -> SessionError {
    SessionError::Runtime(RuntimeError::Rpc(RpcError::Server {
        code,
        message: "erro interno".into(),
    }))
}

#[test]
fn poll_backoff_independe_do_streak_de_morte() {
    let mut streak = 0u32;
    let mut fails = 0u32;
    for _ in 0..5 {
        streak = poll_fail_streak(streak, &server_error(-32603));
        fails = fails.saturating_add(1);
    }
    assert_eq!(streak, 0, "RPC não é morte de runtime");
    assert_eq!(
        poll_backoff_ms(IDLE_POLL_MS, fails),
        POLL_BACKOFF_CAP_MS,
        "5 falhas seguidas → espera no teto (15s)"
    );
    assert_eq!(poll_backoff_ms(IDLE_POLL_MS, 0), IDLE_POLL_MS);
}

#[test]
fn poll_should_fetch_so_com_sid_real() {
    assert!(!poll_should_fetch(""), "placeholder segura o poller");
    assert!(poll_should_fetch("sess_abc"), "sid real libera o fetch");
}

#[test]
fn runtime_exited_info_mapeia_so_exited() {
    let e = SessionError::Runtime(RuntimeError::Exited(Some(1), "boom\n".into()));
    assert_eq!(
        runtime_exited_info(&e),
        Some((Some(1), "boom\n".to_string()))
    );
    let e2 = SessionError::Runtime(RuntimeError::Exited(None, String::new()));
    assert_eq!(runtime_exited_info(&e2), Some((None, String::new())));
    assert_eq!(
        runtime_exited_info(&SessionError::Protocol(
            "timeout (300s) sem resposta do assistant".into()
        )),
        None
    );
    assert_eq!(
        runtime_exited_info(&SessionError::Runtime(RuntimeError::Timeout(
            30,
            "session/send".into()
        ))),
        None
    );
    assert!(poll_err_is_timeout(&SessionError::Runtime(RuntimeError::Timeout(
        30,
        "session/messages".into()
    ))));
    assert!(!poll_err_is_timeout(&e));
}

#[test]
fn poll_fail_streak_so_processo_morto_ou_io_local_acumula() {
    let exited = || SessionError::Runtime(RuntimeError::Exited(Some(1), "boom".into()));
    let s = poll_fail_streak(0, &exited());
    let s = poll_fail_streak(s, &exited());
    assert_eq!(
        poll_fail_streak(s, &exited()),
        POLL_DEAD_STREAK,
        "3 quedas de processo seguidas declaram runtime morto"
    );
    let io = || SessionError::Runtime(RuntimeError::Io("pipe quebrado".into()));
    let s = poll_fail_streak(poll_fail_streak(0, &exited()), &io());
    assert_eq!(
        poll_fail_streak(s, &exited()),
        POLL_DEAD_STREAK,
        "Exited + Io local somam quedas consecutivas"
    );
    let rpc = || {
        SessionError::Runtime(RuntimeError::Rpc(RpcError::Server {
            code: -32601,
            message: "método ausente".into(),
        }))
    };
    let s = poll_fail_streak(0, &rpc());
    let s = poll_fail_streak(s, &rpc());
    assert_eq!(
        poll_fail_streak(s, &rpc()),
        0,
        "erro de RPC do servidor não acumula o streak"
    );
    assert_eq!(
        poll_fail_streak(0, &SessionError::Protocol("boom".into())),
        0,
        "erro de protocolo não acumula o streak"
    );
    let s = poll_fail_streak(poll_fail_streak(0, &exited()), &exited());
    let s = poll_fail_streak(
        s,
        &SessionError::Runtime(RuntimeError::Timeout(30, "session/messages".into())),
    );
    assert_eq!(s, 0, "timeout reseta o streak");
    assert_eq!(poll_fail_streak(u32::MAX, &exited()), u32::MAX);
    assert!(poll_err_is_local(&exited()));
    assert!(!poll_err_is_local(&rpc()));
}

#[test]
fn git_stat_summary_e_format_diff_notice() {
    let stat = " src/a.rs | 12 ++++++---\n src/b.rs | 2 +-\n 2 files changed, 9 insertions(+), 3 deletions(-)";
    assert_eq!(git_stat_summary(stat).unwrap(), "+9 −3");
    assert_eq!(git_stat_summary(" 1 file changed, 1 insertion(+)").unwrap(), "+1");
    assert_eq!(git_stat_summary(" 1 file changed, 2 deletions(-)").unwrap(), "−2");
    assert_eq!(git_stat_summary(""), None);
    assert_eq!(git_stat_summary(" 1 file changed").is_none(), true);

    let wd = WorkspaceDiff {
        created: vec!["novo.rs".into()],
        modified: vec!["a.rs".into(), "b.rs".into()],
    };
    assert_eq!(
        format_diff_notice(Some(&wd), Some(stat)).unwrap(),
        "editou: a.rs, b.rs, novo.rs — git: +9 −3"
    );
    assert_eq!(format_diff_notice(None, Some(stat)).unwrap(), "git: +9 −3");
    assert_eq!(
        format_diff_notice(Some(&WorkspaceDiff::default()), Some(stat)).unwrap(),
        "git: +9 −3"
    );
    let so_snap = WorkspaceDiff { created: vec!["x".into()], modified: vec![] };
    assert_eq!(
        format_diff_notice(Some(&so_snap), None).unwrap(),
        "editou: x"
    );
    assert_eq!(format_diff_notice(None, None), None);
    assert_eq!(
        format_diff_notice(Some(&WorkspaceDiff::default()), None),
        None
    );
    assert_eq!(
        format_diff_notice(None, Some("src/a.rs | 12 +++++")).unwrap(),
        "git: src/a.rs | 12 +++++"
    );
    let mut muitos: Vec<String> = (0..8).map(|i| format!("f{i}.rs")).collect();
    muitos.sort();
    let wd_muitos = WorkspaceDiff { created: muitos, modified: vec![] };
    let n = format_diff_notice(Some(&wd_muitos), None).unwrap();
    assert!(n.contains("f0.rs") && n.contains("(+3)"), "{n}");
}

#[test]
fn guarda_tty_criterio_exige_stdin_e_stdout() {
    assert!(ensure_tui_tty(true, true).is_ok());
    assert!(ensure_tui_tty(false, false).is_err());
    assert!(ensure_tui_tty(true, false).is_err(), "stdout em arquivo/pipe: sem TUI");
    assert!(ensure_tui_tty(false, true).is_err(), "stdin fora de TTY: sem TUI");
}

#[test]
fn guarda_tty_erro_claro_e_exit_1() {
    let e = ensure_tui_tty(false, false).unwrap_err();
    assert!(matches!(e, CmdError::Io(_)), "erro de Io → exit code 1");
    assert_eq!(exit_code(&e), 1);
    let msg = e.to_text();
    assert!(msg.contains("TTY"), "{msg}");
    assert!(msg.contains("-p/--json"), "aponta a alternativa headless: {msg}");
}

#[test]
fn turn_join_error_notice_shape() {
    let n = turn_join_error_notice();
    assert!(n.starts_with("⚠ turno terminou inesperadamente"), "{n}");
    assert!(n.contains("erro interno"), "{n}");
    assert!(n.contains("detalhes no log"), "{n}");
    assert!(n.contains("zcode-cli doctor"), "{n}");
    assert!(n.lines().count() == 1, "uma linha só (notice de transcript)");
}

#[test]
fn the_poller_tells_of_death_once() {
    let mut p = Poller::new();
    p.follow("s");
    let exited = || Fetched::Failed(SessionError::Runtime(RuntimeError::Exited(Some(1), "x".into())));
    assert!(p.observe(exited()).is_none());
    assert!(p.observe(exited()).is_none());
    assert!(matches!(p.observe(exited()), Some(News::Dead { .. })));
    assert!(p.observe(exited()).is_none());
    assert!(p.observe(Fetched::TimedOut).is_none());
    assert_eq!(p.wait_ms(false, 300), POLL_BACKOFF_CAP_MS);
    let item = MsgItem { role: "user".into(), text: "oi".into(), kind: MsgKind::Text };
    let read = || {
        Fetched::Messages(j(
            r#"{"messages":[{"role":"user","parts":[{"type":"text","text":"oi"}]}]}"#,
        ))
    };
    match p.observe(read()) {
        Some(News::Messages { sid, msgs, result }) => {
            assert_eq!(sid, "s");
            assert_eq!(msgs, vec![item]);
            assert_eq!(result, MergeResult::Appended);
        }
        _ => panic!("esperava mensagens"),
    }
    assert_eq!(p.wait_ms(false, 300), IDLE_POLL_MS);
    assert!(p.observe(read()).is_none(), "nada mudou");
}

#[test]
fn settings_of_the_command_line_are_applied_in_order() {
    let calls = override_calls(
        "s",
        &Some("zai/glm-5.3".to_string()),
        &Some("  ".to_string()),
        &Some("max".to_string()),
    );
    let methods: Vec<String> =
        calls.iter().map(|c| c.as_ref().ok().unwrap().method.clone()).collect();
    assert_eq!(methods, vec!["session/setModel", "session/setThoughtLevel"]);
    assert!(override_calls("s", &None, &None, &None).is_empty());
    assert!(override_calls("s", &Some("x".to_string()), &None, &None)[0].is_err());
}

#[test]
fn init_does_not_overwrite() {
    assert!(may_init(true, false, "/c").unwrap_err().to_text().contains("--force"));
    assert!(may_init(true, true, "/c").is_ok());
    assert!(may_init(false, false, "/c").is_ok());
    assert!(default_config_toml("").contains("[runtime]"));
    assert!(node_missing("nodo").to_text().contains("node=nodo"));
    let mut cfg = FileConfig::default();
    assert!(!is_retro(&cfg));
    cfg.ui.theme = "retro".into();
    assert!(is_retro(&cfg));
    assert!(help_text().contains("/exit"));
}

#[test]
fn lists_for_people() {
    let rows = parse_session_list(&j(
        r#"{"sessions":[{"sessionId":"s1","title":"t","status":"idle","createdAt":"2026"},{"sessionId":"s2"}]}"#,
    ));
    assert_eq!(
        format_session_list_numbered(&rows),
        "1) s1  t  [idle]  2026\n2) s2    []  \n"
    );
    assert_eq!(format_session_list_numbered(&Vec::new()), "(nenhuma sessão)");
    let h = vec![HistoryEntry {
        session_id: "s1".into(),
        title: "t".into(),
        workspace: "w".into(),
        model: "m".into(),
        updated_at: "2026".into(),
    }];
    assert_eq!(format_local_history(&h, 5), "histórico local:\ns1  t  w");
    assert_eq!(format_local_history(&h, 0), "(nenhuma sessão)");
    let todos = vec![
        TodoItem { content: "a".into(), status: TodoStatus::Completed },
        TodoItem { content: "b".into(), status: TodoStatus::Pending },
    ];
    assert_eq!(format_todos(&todos), "[x] a\n[ ] b");
    assert_eq!(
        context_summary_line(&ContextUsage { window: 10, used: 5 }),
        "contexto: 5/10 tokens"
    );
    assert_eq!(format_message("user", "oi"), "user: oi");
}

#[test]
fn reading_shows_at_most_twenty_messages() {
    let mut list = String::new();
    for i in 0..30 {
        if i > 0 {
            list.push(',');
        }
        list.push_str(&format!(
            r#"{{"role":"user","parts":[{{"type":"text","text":"m{i}"}}]}}"#
        ));
    }
    let v = j(&format!(r#"{{"messages":[{list}]}}"#));
    let t = show_resumed_reading(&v, "s");
    assert_eq!(t.lines().count(), 20);
    assert!(t.starts_with("user: m0\n"));
    assert_eq!(show_resumed_reading(&j("{}"), "s"), "(sessão s sem mensagens)");
}

#[test]
fn long_texts_are_cut() {
    assert_eq!(trunc_chars("curto", 10), "curto");
    assert_eq!(trunc_chars("ação longa", 4).chars().count(), 4);
    assert!(trunc_chars("ação longa", 4).ends_with('…'));
}

#[test]
fn a_turn_without_changes_leaves_no_comparison() {
    let one = WorkspaceDiff { created: vec!["x".into()], modified: vec![] };
    assert_eq!(turn_diff(WorkspaceDiff::default(), &None), None);
    assert_eq!(turn_diff(one.clone(), &None), Some(one.clone()));
    let stat = Some(" a | 1 +".to_string());
    assert_eq!(turn_diff(WorkspaceDiff::default(), &stat), Some(WorkspaceDiff::default()));
}

#[test]
fn the_diff_command_tells_what_changed() {
    let one = WorkspaceDiff { created: vec!["x".into()], modified: vec![] };
    assert_eq!(diff_report(Some(&one), None), format_diff_notice(Some(&one), None).unwrap());
    assert_eq!(
        diff_report(None, None),
        "(sem mudanças: nem snapshot de turno nem diff git no workspace)"
    );
}

#[test]
fn a_walk_stops_at_its_limit() {
    let mut w = Walk::new();
    for i in 0..=SNAPSHOT_MAX {
        assert_eq!(w.visit(EntryKind::Other, "x", &format!("{i}")), WalkStep::Next);
    }
    let last = EntryKind::File { mtime: Some(1) };
    assert_eq!(w.visit(last, "f", "f"), WalkStep::Stop);
    assert_eq!(w.seen, SNAPSHOT_MAX + 1);
    assert_eq!(w.files.len(), 0);
}

#[test]
fn a_blank_outside_parentheses_divides_tools() {
    let tools = |t: &str| parse_tools_filter(Some(t));
    assert_eq!(tools("Edit Bash(git *)"), vec!["Edit", "Bash(git *)"]);
    assert_eq!(tools("Bash(git * (a b)) Edit\tRead"), vec!["Bash(git * (a b))", "Edit", "Read"]);
    assert_eq!(tools("Bash(git"), vec!["Bash(git"]);
    assert_eq!(tools("Bash(git log"), vec!["Bash(git log"]);
    assert_eq!(tools("a) b (c d)"), vec!["a)", "b", "(c d)"]);
    assert_eq!(tools("Bash(a,b c)"), vec!["Bash(a", "b", "c)"]);
}

#[test]
fn settings_are_applied_up_to_the_first_failure() {
    let of = |m: &str| override_calls("s", &None, &Some(m.to_string()), &Some("max".to_string()));
    let mut pending = of("plan");
    let first = next_override(&mut pending, None);
    assert!(matches!(first, OverrideStep::Make(c) if c.method == "session/setMode"));
    let second = next_override(&mut pending, None);
    assert!(matches!(second, OverrideStep::Make(c) if c.method == "session/setThoughtLevel"));
    assert!(matches!(next_override(&mut pending, None), OverrideStep::Done));
    let mut pending = of("plan");
    let _ = next_override(&mut pending, None);
    let e = SessionError::Protocol("x".to_string());
    let after = next_override(&mut pending, Some(&e));
    assert!(matches!(after, OverrideStep::Failed(t) if t == e.to_text()));
    assert!(matches!(next_override(&mut pending, None), OverrideStep::Done));
    let mut pending = of("outro");
    assert!(matches!(next_override(&mut pending, None), OverrideStep::Failed(_)));
    assert!(pending.is_empty());
}
