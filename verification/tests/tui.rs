use zcode_cli::commands::input::{parse_input, Input};
use zcode_cli::commands::keys::{
    act_task, enter_to_newline, handle_key_event, is_ctrl_c_event, map_key, should_convert_enter,
    Act, KeyCode, KeyEnv, KeyEvent, KeyKind, TermEvent, TuiKey,
};
use zcode_cli::commands::merge::{
    diff_lists, merge_messages, splash_marker, ChatMsg, MergeResult,
};
use zcode_cli::commands::screen::{
    apply_pending_updates, session_to_close, start_app, tick,
};
use zcode_cli::commands::slash::{handle_tui_slash, slash_env, Job, SlashEnv};
use zcode_cli::commands::tasks::{
    boot_result, history_entry, task_call, task_error, task_subscription, task_update, Task,
};
use zcode_cli::commands::tui::{
    apply_ui_update, cache_hit, export_tuples, Overlay, TuiApp, UiUpdate,
};
use zcode_cli::commands::turns::{
    boot_single_flight_trava, end_turn, next_turn, start_turn, TurnEnd, TurnOutcome,
};
use zcode_cli::json::{read_json, Json};
use zcode_cli::notices::runtime_dead_banner;
use zcode_cli::runtime::RuntimeError;
use zcode_cli::session::export::sid_short8;
use zcode_cli::session::extract::{ContextUsage, MsgItem, MsgKind, Usage};
use zcode_cli::session::listing::SessionRow;
use zcode_cli::session::todos::{TodoItem, TodoStatus};
use zcode_cli::session::SessionError;

fn j(text: &str) -> Json {
    read_json(text).unwrap()
}

fn cm(role: &str, text: &str) -> ChatMsg {
    ChatMsg { role: role.into(), text: text.into(), kind: MsgKind::Text, wire: None }
}

fn cmw(role: &str, text: &str, wire: &str) -> ChatMsg {
    ChatMsg {
        role: role.into(),
        text: text.into(),
        kind: MsgKind::Text,
        wire: Some(wire.into()),
    }
}

fn mi(role: &str, text: &str) -> MsgItem {
    MsgItem { role: role.into(), text: text.into(), kind: MsgKind::Text }
}

#[test]
fn merge_unchanged_nao_rebuild_por_tick() {
    let mut msgs = vec![cm("system", "splash"), cm("user", "oi"), cm("assistant", "olá")];
    let antes = msgs.clone();
    let server = vec![mi("user", "oi"), mi("assistant", "olá")];
    assert_eq!(merge_messages(&mut msgs, &server), MergeResult::Unchanged);
    assert_eq!(msgs, antes, "estado local intocado (nem rebuild nem scroll)");
}

#[test]
fn merge_appended_preserva_system_e_follow() {
    let mut msgs = vec![cm("system", "splash"), cm("user", "oi")];
    let server = vec![mi("user", "oi"), mi("assistant", "olá")];
    assert_eq!(merge_messages(&mut msgs, &server), MergeResult::Appended);
    assert_eq!(msgs.len(), 3);
    assert_eq!(msgs[0], cm("system", "splash"));
    assert_eq!(msgs[2], cm("assistant", "olá"));
}

#[test]
fn merge_do_vazio_e_append() {
    let mut msgs: Vec<ChatMsg> = Vec::new();
    let server = vec![mi("user", "oi")];
    assert_eq!(merge_messages(&mut msgs, &server), MergeResult::Appended);
    assert_eq!(msgs, vec![cm("user", "oi")]);
    let mut vazio: Vec<ChatMsg> = Vec::new();
    assert_eq!(merge_messages(&mut vazio, &[]), MergeResult::Unchanged);
}

#[test]
fn merge_reasoning_item_completo_diverge() {
    let mut msgs = vec![cm("assistant", "mesma frase")];
    let server = vec![MsgItem {
        role: "assistant".into(),
        text: "mesma frase".into(),
        kind: MsgKind::Reasoning,
    }];
    assert_eq!(
        merge_messages(&mut msgs, &server),
        MergeResult::Replaced { dropped_local: 0 }
    );
    assert_eq!(msgs[0].kind, MsgKind::Reasoning);
    let mut msgs2 = vec![cm("system", "splash"), cm("assistant", "olá")];
    let server2 = vec![
        mi("assistant", "olá"),
        MsgItem {
            role: "assistant".into(),
            text: "pensando".into(),
            kind: MsgKind::Reasoning,
        },
    ];
    assert_eq!(merge_messages(&mut msgs2, &server2), MergeResult::Appended);
    assert_eq!(msgs2.len(), 3);
    assert_eq!(msgs2[2].kind, MsgKind::Reasoning);
}

#[test]
fn merge_replaced_divergencia_no_meio() {
    let mut msgs = vec![
        cm("system", "splash"),
        cm("user", "velha"),
        cm("assistant", "resposta velha"),
    ];
    let server = vec![mi("user", "velha"), mi("assistant", "resposta nova (pós-compact)")];
    assert_eq!(
        merge_messages(&mut msgs, &server),
        MergeResult::Replaced { dropped_local: 0 }
    );
    assert_eq!(msgs.len(), 3, "notice system preservado no lugar");
    assert_eq!(msgs[0], cm("system", "splash"));
    assert_eq!(msgs[1], cm("user", "velha"));
    assert_eq!(msgs[2], cm("assistant", "resposta nova (pós-compact)"));
}

#[test]
fn merge_replaced_descarta_excesso_local_e_conta() {
    let mut msgs = vec![cm("user", "a"), cm("user", "b"), cm("system", "meio")];
    let server = vec![mi("user", "a")];
    assert_eq!(
        merge_messages(&mut msgs, &server),
        MergeResult::Replaced { dropped_local: 1 }
    );
    assert_eq!(msgs.len(), 2);
    assert_eq!(msgs[0], cm("user", "a"));
    assert_eq!(msgs[1], cm("system", "meio"));
}

#[test]
fn merge_replaced_avisa_quando_descarta_local() {
    let mut app = TuiApp::new("sess_drop", "w", false);
    let mut created = j("{}");
    app.push_msg("user", "a");
    app.push_msg("user", "x");
    app.push_msg("system", "(splash)");
    let antes = app.messages.len();
    apply_ui_update(
        &mut app,
        &mut created,
        UiUpdate::Messages {
            sid: "sess_drop".into(),
            msgs: vec![mi("user", "x")],
            result: MergeResult::Replaced { dropped_local: 1 },
        },
    );
    let avisos = app
        .messages
        .iter()
        .filter(|m| m.text.contains("não confirmadas pelo servidor"))
        .count();
    assert_eq!(avisos, 1, "exatamente UMA notice de aviso");
    assert_eq!(
        app.messages.len(),
        antes,
        "2 locais viram 1 do servidor + notice system preservada + aviso"
    );
    assert!(app.messages.iter().any(|m| m.role == "system" && m.text == "(splash)"));

    let antes = app.messages.len();
    apply_ui_update(
        &mut app,
        &mut created,
        UiUpdate::Messages {
            sid: "sess_drop".into(),
            msgs: vec![mi("user", "c")],
            result: MergeResult::Replaced { dropped_local: 0 },
        },
    );
    assert_eq!(app.messages.len(), antes, "sem descarte → sem notice");
    assert_eq!(
        app.messages
            .iter()
            .filter(|m| m.text.contains("não confirmadas pelo servidor"))
            .count(),
        1,
        "continua só o aviso original"
    );
}

#[test]
fn merge_wire_eco_expandido_e_unchanged_e_preserva_original() {
    let mut msgs = vec![
        cm("system", "splash"),
        cmw("user", "resuma @nota.md", "resuma CONTEUDO-EXPANDIDO"),
    ];
    let antes = msgs.clone();
    let server = vec![mi("user", "resuma CONTEUDO-EXPANDIDO")];
    assert_eq!(merge_messages(&mut msgs, &server), MergeResult::Unchanged);
    assert_eq!(msgs, antes, "original + fio preservados intocados");
}

#[test]
fn merge_wire_prefixo_expandido_apenda_assistant() {
    let mut msgs = vec![cmw("user", "resuma @nota.md", "resuma CONTEUDO-EXPANDIDO")];
    let server = vec![
        mi("user", "resuma CONTEUDO-EXPANDIDO"),
        mi("assistant", "resumo pronto"),
    ];
    assert_eq!(merge_messages(&mut msgs, &server), MergeResult::Appended);
    assert_eq!(msgs[0], cmw("user", "resuma @nota.md", "resuma CONTEUDO-EXPANDIDO"));
    assert_eq!(msgs[1], cm("assistant", "resumo pronto"));
}

#[test]
fn merge_sem_wire_servidor_expandido_diverge_e_replaced() {
    let mut msgs = vec![cm("user", "resuma @nota.md")];
    let server = vec![mi("user", "resuma CONTEUDO-EXPANDIDO")];
    assert_eq!(
        merge_messages(&mut msgs, &server),
        MergeResult::Replaced { dropped_local: 0 }
    );
    assert_eq!(msgs[0], cm("user", "resuma CONTEUDO-EXPANDIDO"));
}

#[test]
fn merge_wire_divergencia_real_vira_replaced_e_limpa_fio() {
    let mut msgs = vec![cmw("user", "resuma @nota.md", "resuma FIO-ANTIGO")];
    let server = vec![mi("user", "resuma TEXTO-POS-COMPACT")];
    assert_eq!(
        merge_messages(&mut msgs, &server),
        MergeResult::Replaced { dropped_local: 0 }
    );
    assert_eq!(msgs[0], cm("user", "resuma TEXTO-POS-COMPACT"));
    assert!(msgs[0].wire.is_none(), "substituta do servidor não herda fio");
}

#[test]
fn roundtrip_arquivo_push_com_wire_eco_expandido_mantem_original() {
    let mut app = TuiApp::new("sess_wire", "w", false);
    let mut created = j("{}");
    app.push_msg_with_wire(
        "user",
        "resuma @nota.md",
        Some("resuma CONTEUDO-EXPANDIDO".into()),
    );
    let antes = app.messages.clone();
    apply_ui_update(
        &mut app,
        &mut created,
        UiUpdate::Messages {
            sid: "sess_wire".into(),
            msgs: vec![mi("user", "resuma CONTEUDO-EXPANDIDO")],
            result: MergeResult::Appended,
        },
    );
    assert_eq!(app.messages, antes, "eco do servidor não altera o transcript");
    assert_eq!(app.messages.last().unwrap().text, "resuma @nota.md");
    assert_eq!(
        app.messages
            .iter()
            .filter(|m| m.text.contains("não confirmadas pelo servidor"))
            .count(),
        0,
        "sem aviso falso de mensagem local não confirmada"
    );
}

#[test]
fn diff_lists_mesma_semantica_do_merge() {
    let a = vec![mi("user", "oi")];
    assert_eq!(diff_lists(&a, &a), MergeResult::Unchanged);
    let ab = vec![mi("user", "oi"), mi("assistant", "olá")];
    assert_eq!(diff_lists(&a, &ab), MergeResult::Appended);
    let b = vec![mi("user", "mudou")];
    assert_eq!(diff_lists(&a, &b), MergeResult::Replaced { dropped_local: 0 });
    assert_eq!(diff_lists(&ab, &a), MergeResult::Replaced { dropped_local: 0 });
    assert_eq!(diff_lists(&[], &[]), MergeResult::Unchanged);
    let r = vec![MsgItem { role: "user".into(), text: "oi".into(), kind: MsgKind::Reasoning }];
    assert_eq!(diff_lists(&a, &r), MergeResult::Replaced { dropped_local: 0 });
}

#[test]
fn uiupdate_aplicado_na_task_da_ui_sem_runtime() {
    let mut app = TuiApp::new("sess_t", "w", false);
    let mut created = j("{}");

    apply_ui_update(&mut app, &mut created, UiUpdate::Notice("oi".into()));
    assert_eq!(app.messages.len(), 1);
    assert_eq!(app.messages[0].role, "system");

    apply_ui_update(
        &mut app,
        &mut created,
        UiUpdate::Usage {
            usage: Usage {
                total_tokens: 10,
                input_tokens: 7,
                output_tokens: 3,
                model_request_count: 2,
                ..Default::default()
            },
            notice: true,
        },
    );
    assert_eq!(app.tokens_in, 7);
    assert_eq!(app.tokens_out, 3);
    assert!(app.messages.last().unwrap().text.contains("total=10"));

    let msgs = vec![mi("user", "oi")];
    let rev0 = app.messages_rev;
    apply_ui_update(
        &mut app,
        &mut created,
        UiUpdate::Messages {
            sid: "sess_t".into(),
            msgs: msgs.clone(),
            result: MergeResult::Appended,
        },
    );
    assert_eq!(app.messages_rev, rev0 + 1);
    apply_ui_update(
        &mut app,
        &mut created,
        UiUpdate::Messages { sid: "sess_t".into(), msgs, result: MergeResult::Unchanged },
    );
    assert_eq!(app.messages_rev, rev0 + 1, "Unchanged não invalida cache");
    apply_ui_update(
        &mut app,
        &mut created,
        UiUpdate::Messages {
            sid: "sess_velha".into(),
            msgs: vec![mi("user", "fantasma")],
            result: MergeResult::Appended,
        },
    );
    assert!(!app.messages.iter().any(|m| m.text == "fantasma"));

    let created_new = j(
        r#"{
            "session": {"sessionId": "sess_n"},
            "projection": {"contextWindow": 10, "contextUsed": 5},
            "todos": [
                {"content": "ler plano", "status": "completed"},
                {"content": "implementar", "status": "in-progress"}
            ]
        }"#,
    );
    app.runtime_dead = true;
    app.session_ready = false;
    app.status = "conectando…".to_string();
    let follow = apply_ui_update(
        &mut app,
        &mut created,
        UiUpdate::NewSession {
            created: created_new,
            sid: "sess_n".into(),
            model: "zai/glm-5.3-Flash".into(),
        },
    );
    assert_eq!(app.session_id, "sess_n");
    assert_eq!(created.get2("session", "sessionId").unwrap().as_str(), Some("sess_n"));
    assert_eq!(app.ctx, ContextUsage { window: 10, used: 5 });
    assert!(app.follow, "sessão nova recomeça grudada no fim");
    assert_eq!(app.scroll, 0);
    assert_eq!(follow.as_deref(), Some("sess_n"), "poller troca de sessão");
    assert!(app.messages.len() == 1, "histórico limpo + notice");
    assert!(!app.runtime_dead, "sessão nova limpa a trava de runtime morto");
    assert!(app.session_ready, "boot completo → session_ready");
    assert_eq!(app.status, "pronto");
    assert_eq!(app.model, "zai/glm-5.3-Flash");
    assert_eq!(app.todos.len(), 2);
    assert_eq!(
        app.todos[0],
        TodoItem { content: "ler plano".into(), status: TodoStatus::Completed }
    );

    let antes = app.messages.clone();
    apply_ui_update(
        &mut app,
        &mut created,
        UiUpdate::SessionEvent { method: "stream.chunk".into() },
    );
    assert_eq!(app.messages, antes);
}

#[test]
fn sessions_loaded_alimenta_picker_e_erro_fecha_com_notice() {
    let mut app = TuiApp::new("sess_t", "w", false);
    let mut created = j("{}");

    app.open_session_picker();
    let v = j(
        r#"{"sessions": [
            {"sessionId": "sess_a", "title": "plano", "status": "active", "createdAt": "2026-09-08"}
        ]}"#,
    );
    apply_ui_update(&mut app, &mut created, UiUpdate::SessionsLoaded { res: Ok(v) });
    let p = app.picker.as_ref().expect("picker segue aberto");
    assert_eq!(p.len(), 1);
    assert_eq!(p.selected_id().as_deref(), Some("sess_a"));
    assert!(app.status.contains("↑/↓"), "{}", app.status);

    app.open_session_picker();
    apply_ui_update(
        &mut app,
        &mut created,
        UiUpdate::SessionsLoaded { res: Err("daemon sumiu".into()) },
    );
    assert!(app.picker.is_none());
    assert_eq!(app.status, "pronto");
    assert!(app.messages.last().unwrap().text.contains("sessions falhou"));

    let v2 = j(r#"{"sessions": [{"sessionId": "sess_b"}]}"#);
    apply_ui_update(&mut app, &mut created, UiUpdate::SessionsLoaded { res: Ok(v2) });
    assert!(app.picker.is_none());
}

#[test]
fn resumed_session_reusa_a_projecao_do_new_session_com_status_de_resume() {
    let mut app = TuiApp::new("sess_atual", "w", false);
    let mut created = j("{}");
    app.session_ready = false;
    app.booting = true;
    app.runtime_dead = true;
    app.working = false;
    app.push_msg("user", "mensagem da sessão antiga");
    app.scroll = 7;
    app.follow = false;
    app.open_search();
    app.todos =
        vec![TodoItem { content: "todo velho".into(), status: TodoStatus::Completed }];

    let resumed = j(
        r#"{
            "session": {"sessionId": "sess_retomada"},
            "settings": {"model": {"current": {"providerId": "zai", "modelId": "glm-5.3-Flash"}}}
        }"#,
    );
    let follow = apply_ui_update(
        &mut app,
        &mut created,
        UiUpdate::ResumedSession {
            resumed,
            sid: "sess_retomada".into(),
            model: "zai/glm-5.3-Flash".into(),
            quente: false,
        },
    );
    assert_eq!(app.session_id, "sess_retomada");
    assert_eq!(created.get2("session", "sessionId").unwrap().as_str(), Some("sess_retomada"));
    assert_eq!(follow.as_deref(), Some("sess_retomada"), "poller troca de alvo");
    assert!(app.session_ready, "resume também destrava Enter/poller");
    assert!(!app.booting, "single-flight destravado pela resposta");
    assert!(!app.runtime_dead, "switch limpa a trava de runtime morto");
    assert_eq!(
        app.messages.len(),
        1,
        "transcript zerado (o poller busca o novo) + notice do resume"
    );
    assert_eq!(app.scroll, 0);
    assert!(app.follow, "recomeça grudado no fim");
    assert!(app.search.is_none(), "busca da sessão antiga descartada");
    assert!(app.todos.is_empty(), "todos da sessão anterior NÃO vazam");
    assert_eq!(app.model, "zai/glm-5.3-Flash", "modelo vem do result do resume");
    assert_eq!(app.status, "sessão retomada: sess_ret (leitura — R1)");
    assert!(app.messages.last().unwrap().text.contains("(leitura — R1)"));
    assert!(app.messages.last().unwrap().text.contains("sessão retomada"));

    app.open_search();
    let resumed2 = j(r#"{"session": {"sessionId": "sess_q"}}"#);
    apply_ui_update(
        &mut app,
        &mut created,
        UiUpdate::ResumedSession {
            resumed: resumed2,
            sid: "sess_quente".into(),
            model: String::new(),
            quente: true,
        },
    );
    assert_eq!(app.status, "sessão retomada: sess_que (quente — pode enviar)");
    assert!(app.search.is_none());
}

fn resumed_to(sid: &str) -> UiUpdate {
    UiUpdate::ResumedSession {
        resumed: j("{}"),
        sid: sid.into(),
        model: String::new(),
        quente: false,
    }
}

#[test]
fn resumed_session_sid_novo_do_servidor_vence_fallback_e_id_no_status() {
    assert_eq!(sid_short8("abcdefgh resto"), "abcdefgh");
    let mut app = TuiApp::new("s", "w", false);
    let mut created = j("{}");
    apply_ui_update(&mut app, &mut created, resumed_to("abcdefgh-muito-mais"));
    assert_eq!(app.session_id, "abcdefgh-muito-mais");
    assert_eq!(app.status, "sessão retomada: abcdefgh (leitura — R1)");
}

#[test]
fn troca_de_sessao_descarta_fila_e_fecha_overlay_com_notice_unica() {
    let mut app = TuiApp::new("sess_atual", "w", false);
    let mut created = j("{}");
    app.queue_push("pendente 1");
    app.queue_push("pendente 2");
    app.overlay = Some(Overlay::Todos);
    apply_ui_update(&mut app, &mut created, resumed_to("sess_nova"));
    assert!(app.queue.is_empty(), "fila da sessão antiga descartada");
    assert!(app.overlay.is_none(), "overlay da sessão antiga fechado");
    assert_eq!(
        app.messages
            .iter()
            .filter(|m| m.text.contains("fila descartada na troca de sessão"))
            .count(),
        1,
        "exatamente UMA notice de fila descartada"
    );
    assert!(app
        .messages
        .iter()
        .any(|m| m.text == "fila descartada na troca de sessão (2 mensagem/ns)"));
}

#[test]
fn troca_de_sessao_sem_fila_nao_emite_notice_de_fila() {
    let mut app = TuiApp::new("sess_atual", "w", false);
    let mut created = j("{}");
    apply_ui_update(&mut app, &mut created, resumed_to("sess_nova"));
    assert!(app.queue.is_empty());
    assert!(
        !app.messages.iter().any(|m| m.text.contains("fila descartada")),
        "sem fila → sem notice de fila"
    );
}

fn tecla(code: KeyCode) -> TermEvent {
    TermEvent::Key(KeyEvent {
        code,
        ctrl: false,
        shift: false,
        alt: false,
        other: false,
        kind: KeyKind::Press,
    })
}

fn ctrl(c: char) -> TermEvent {
    TermEvent::Key(KeyEvent {
        code: KeyCode::Char(c),
        ctrl: true,
        shift: false,
        alt: false,
        other: false,
        kind: KeyKind::Press,
    })
}

fn sem_runtime() -> KeyEnv {
    KeyEnv { runtime_up: false, turn_running: false }
}

fn com_runtime() -> KeyEnv {
    KeyEnv { runtime_up: true, turn_running: false }
}

fn row(id: &str, title: &str) -> SessionRow {
    SessionRow {
        id: id.into(),
        title: title.into(),
        status: "active".into(),
        created: "2026-09-08".into(),
    }
}

#[test]
fn picker_gate_teclas_navegam_esc_fecha_e_enter_sem_rt_notica() {
    let env = sem_runtime();
    let mut app = TuiApp::new("sess_t", "w", false);
    app.mark_session_ready();
    app.open_session_picker();
    app.fill_session_picker(vec![row("sess_a", "a"), row("sess_b", "b")]);

    assert!(handle_key_event(&mut app, &env, &tecla(KeyCode::Up)).0);
    assert!(handle_key_event(&mut app, &env, &tecla(KeyCode::Down)).0);
    assert!(handle_key_event(&mut app, &env, &tecla(KeyCode::Char('x'))).0);
    assert_eq!(app.picker.as_ref().unwrap().selected, 1);
    assert!(app.input.is_empty(), "char com picker aberto não digita");
    assert!(handle_key_event(&mut app, &env, &tecla(KeyCode::Esc)).0);
    assert!(app.picker.is_none());
    assert_eq!(app.status, "pronto");

    app.open_session_picker();
    app.fill_session_picker(vec![row("sess_alvo", "alvo")]);
    assert!(handle_key_event(&mut app, &env, &tecla(KeyCode::Enter)).0);
    assert!(app.picker.is_none(), "Enter fecha o picker");
    assert!(app.messages.iter().any(|m| m.text.contains("(retomando sessão sess_alv…)")));
    assert!(app.messages.last().unwrap().text.contains("Ctrl+N p/ tentar de novo"));

    app.open_session_picker();
    assert!(handle_key_event(&mut app, &env, &ctrl('c')).0);
    assert!(app.picker.is_none(), "Ctrl+C fecha o picker");
    assert!(app.ctrlc_once, "e o fluxo de saída segue armado");
}

#[test]
fn picker_enter_switches_to_the_selected_session() {
    let mut app = TuiApp::new("s", "w", false);
    app.open_session_picker();
    app.fill_session_picker(vec![row("a", "a"), row("b", "b")]);
    handle_key_event(&mut app, &com_runtime(), &tecla(KeyCode::PageDown));
    let (_, act) = handle_key_event(&mut app, &com_runtime(), &tecla(KeyCode::Enter));
    assert_eq!(act, Some(Act::Switch("b".into())));
    match act_task(&act.unwrap(), true) {
        Some(Task::Switch { id, quente }) => {
            assert_eq!(id, "b");
            assert!(quente);
        }
        _ => panic!("esperava a troca"),
    }
}

#[test]
fn is_ctrl_c_event_so_control_c_qualquer_case() {
    let shift = TermEvent::Key(KeyEvent {
        code: KeyCode::Char('c'),
        ctrl: false,
        shift: true,
        alt: false,
        other: false,
        kind: KeyKind::Press,
    });
    assert!(is_ctrl_c_event(&ctrl('c')));
    assert!(is_ctrl_c_event(&ctrl('C')));
    assert!(!is_ctrl_c_event(&tecla(KeyCode::Char('c'))));
    assert!(!is_ctrl_c_event(&shift));
    assert!(!is_ctrl_c_event(&ctrl('x')));
    assert!(!is_ctrl_c_event(&TermEvent::Paste("c".into())));
}

#[test]
fn uiupdate_runtime_dead_aplica_trava_e_banner() {
    let mut app = TuiApp::new("sess_dead", "w", false);
    let mut created = j("{}");
    apply_ui_update(
        &mut app,
        &mut created,
        UiUpdate::RuntimeDead { notice: runtime_dead_banner(Some(1), "erro fatal\nlinha2\n") },
    );
    assert!(app.runtime_dead, "trava de turnos ligada");
    assert_eq!(app.status, "runtime morto");
    let ultima = app.messages.last().unwrap();
    assert_eq!(ultima.role, "system");
    assert!(ultima.text.contains("exit 1"));
    assert!(ultima.text.contains("/exit e reabra"));
    assert!(app.runtime_dead);
}

#[test]
fn coalescing_drena_lote_em_um_draw() {
    let lote: Vec<UiUpdate> = (0..5).map(|i| UiUpdate::Notice(format!("n{i}"))).collect();
    let mut app = TuiApp::new("s", "w", false);
    let mut created = j("{}");
    assert!(apply_pending_updates(&mut app, &mut created, lote).0);
    assert_eq!(app.messages.len(), 5);
    assert!(!apply_pending_updates(&mut app, &mut created, Vec::new()).0);
}

#[test]
fn a_batch_follows_its_last_session() {
    let mut app = TuiApp::new("s", "w", false);
    let mut created = j("{}");
    let lote = vec![resumed_to("s1"), resumed_to("s2"), UiUpdate::Notice("fim".into())];
    let (_, follow) = apply_pending_updates(&mut app, &mut created, lote);
    assert_eq!(follow.as_deref(), Some("s2"));
    assert_eq!(app.session_id, "s2");
    assert_eq!(app.messages.last().unwrap().text, "fim");
}

#[test]
fn uiupdate_usage_guarda_last_usage_e_newsessao_reseta() {
    let mut app = TuiApp::new("sess_u", "w", false);
    let mut created = j("{}");
    assert!(app.last_usage.is_none(), "começa sem usage (overlay usa —)");
    apply_ui_update(
        &mut app,
        &mut created,
        UiUpdate::Usage {
            usage: Usage {
                total_tokens: 90,
                input_tokens: 60,
                output_tokens: 30,
                cache_read_tokens: 40,
                model_request_count: 2,
                ..Default::default()
            },
            notice: false,
        },
    );
    assert_eq!((app.tokens_in, app.tokens_out), (60, 30));
    let u = app.last_usage.as_ref().expect("usage completo guardado");
    assert_eq!(
        (u.total_tokens, u.reasoning_tokens, u.cache_read_tokens, u.model_request_count),
        (90, 0, 40, 2)
    );
    let (hit, whole) = cache_hit(u).unwrap();
    assert_eq!(hit as f64 / whole as f64 * 100.0, 40.0);
    apply_ui_update(
        &mut app,
        &mut created,
        UiUpdate::NewSession {
            created: j(r#"{"session": {"sessionId": "sess_n2"}}"#),
            sid: "sess_n2".into(),
            model: String::new(),
        },
    );
    assert!(app.last_usage.is_none(), "reset junto com last_stats");
    assert!(app.last_stats.is_none());
}

#[test]
fn enfileirar_nao_registra_historico_nem_troca_status() {
    let mut app = TuiApp::new("sess_fila", "w", false);
    app.mark_session_ready();
    app.working = true;
    app.status = "working…".to_string();

    for texto in ["primeira", "segunda"] {
        app.input = texto.into();
        app.cursor = app.input_len();
        assert!(handle_key_event(&mut app, &sem_runtime(), &tecla(KeyCode::Enter)).0);
    }
    assert_eq!(app.queue.len(), 2, "ambas enfileiradas");
    assert!(app.input.is_empty(), "buffer limpo ao enfileirar");
    assert!(
        app.prompt_history.is_empty(),
        "A-2: enfileirar NÃO registra histórico (só o consumo real)"
    );
    assert_eq!(app.status, "working…", "B-1: sem status 'na fila: N'");

    while let Some(texto) = app.next_queued() {
        app.remember_prompt(&texto);
    }
    assert_eq!(app.prompt_history, vec!["primeira", "segunda"]);
}

#[test]
fn paste_enter_rapido_converte_em_newline() {
    let enter = tecla(KeyCode::Enter);
    assert!(should_convert_enter(0, &enter));
    assert!(should_convert_enter(19, &enter), "19ms ainda é colagem");
    assert!(!should_convert_enter(20, &enter));
    assert!(!should_convert_enter(50, &enter));
    assert_eq!(
        enter_to_newline(Some(5), &enter),
        Some(TermEvent::Paste("\n".into()))
    );
}

#[test]
fn paste_enter_com_modificador_ou_release_nunca_converte() {
    for (shift, control) in [(true, false), (false, true)] {
        let ev = TermEvent::Key(KeyEvent {
            code: KeyCode::Enter,
            ctrl: control,
            shift,
            alt: false,
            other: false,
            kind: KeyKind::Press,
        });
        assert!(!should_convert_enter(0, &ev));
    }
    let release = TermEvent::Key(KeyEvent {
        code: KeyCode::Enter,
        ctrl: false,
        shift: false,
        alt: false,
        other: false,
        kind: KeyKind::Release,
    });
    assert!(!should_convert_enter(0, &release));
    assert_eq!(enter_to_newline(Some(21), &tecla(KeyCode::Enter)), None);
}

#[test]
fn paste_mouse_resize_e_primeiro_evento_nao_convertem() {
    assert_eq!(enter_to_newline(Some(1), &TermEvent::Mouse), None);
    assert_eq!(enter_to_newline(Some(1), &TermEvent::Resize), None);
    assert_eq!(enter_to_newline(None, &tecla(KeyCode::Enter)), None);
}

#[test]
fn boot_single_flight_gate_puro() {
    assert!(
        boot_single_flight_trava(false, true),
        "sessão pendente + boot em voo → trava"
    );
    assert!(
        !boot_single_flight_trava(false, false),
        "boot não está em voo (falhou antes) → retry liberado"
    );
    assert!(
        !boot_single_flight_trava(true, true),
        "sessão pronta → Ctrl+N é criação normal, sem gate"
    );
    assert!(!boot_single_flight_trava(true, false));
}

#[test]
fn app_booting_destrava_nos_3_bracos_do_apply() {
    let mut app = TuiApp::new("", "w", false);
    assert!(!app.booting && !app.session_ready, "default: sem boot em voo");
    let mut created = j("{}");

    app.booting = true;
    apply_ui_update(
        &mut app,
        &mut created,
        UiUpdate::Notice("falha ao criar sessão: x".into()),
    );
    assert!(!app.booting, "Notice destrava o single-flight");
    assert!(!app.session_ready, "falha não marca session_ready");

    app.booting = true;
    apply_ui_update(
        &mut app,
        &mut created,
        UiUpdate::NewSession {
            created: j(r#"{"sessionId": "s1"}"#),
            sid: "s1".into(),
            model: String::new(),
        },
    );
    assert!(!app.booting, "NewSession destrava o single-flight");
    assert!(app.session_ready, "boot completo marca session_ready");

    app.booting = true;
    apply_ui_update(
        &mut app,
        &mut created,
        UiUpdate::RuntimeDead { notice: "runtime morto".into() },
    );
    assert!(!app.booting, "RuntimeDead destrava o single-flight");
}

#[test]
fn newsessao_limpa_busca_e_restaura_buffer() {
    let mut app = TuiApp::new("sess_old", "w", false);
    let mut created = j("{}");
    app.push_msg("user", "pergunta antiga com alvo");
    app.input = "rascunho".into();
    app.cursor = app.input_len();
    app.open_search();
    app.search_insert_str("alvo");
    assert!(app.search.as_ref().is_some_and(|s| !s.matches.is_empty()));
    apply_ui_update(
        &mut app,
        &mut created,
        UiUpdate::NewSession {
            created: j(r#"{"session": {"sessionId": "sess_new"}}"#),
            sid: "sess_new".into(),
            model: String::new(),
        },
    );
    assert!(app.search.is_none(), "matches antigos não sobrevivem à troca");
    assert_eq!(app.input, "rascunho", "buffer do input restaurado intacto");
}

#[test]
fn export_tuples_filtra_splash() {
    let mut app = TuiApp::new("sess_e", "w", false);
    app.push_msg("system", splash_marker());
    app.push_msg("system", "notice");
    app.messages.push(ChatMsg {
        role: "assistant".into(),
        text: "pensando".into(),
        kind: MsgKind::Reasoning,
        wire: None,
    });
    let t = export_tuples(&app);
    assert_eq!(t.len(), 2, "splash-marker filtrada");
    assert_eq!(t[0].0, "system");
    assert_eq!(t[1].2, MsgKind::Reasoning);
}

// ----- keyboard

fn pressed(app: &mut TuiApp, ev: TermEvent) -> Option<Act> {
    handle_key_event(app, &com_runtime(), &ev).1
}

#[test]
fn a_window_takes_the_key() {
    let mut app = TuiApp::new("s", "w", false);
    app.overlay = Some(Overlay::Usage);
    assert_eq!(handle_key_event(&mut app, &com_runtime(), &tecla(KeyCode::Char('x'))), (true, None));
    assert!(app.overlay.is_none());
    assert!(app.input.is_empty());
    app.overlay = Some(Overlay::Context);
    pressed(&mut app, ctrl('c'));
    assert!(app.overlay.is_none());
    assert!(app.ctrlc_once);
    pressed(&mut app, ctrl('C'));
    assert!(app.quit);
}

#[test]
fn typing_and_editing() {
    let mut app = TuiApp::new("s", "w", false);
    for c in "ação".chars() {
        pressed(&mut app, tecla(KeyCode::Char(c)));
    }
    assert_eq!(app.input, "ação");
    assert_eq!(app.cursor, 4);
    pressed(&mut app, tecla(KeyCode::Left));
    pressed(&mut app, tecla(KeyCode::Left));
    pressed(&mut app, tecla(KeyCode::Backspace));
    assert_eq!(app.input, "aão");
    pressed(&mut app, tecla(KeyCode::Delete));
    assert_eq!(app.input, "ao");
    pressed(&mut app, tecla(KeyCode::Right));
    pressed(&mut app, ctrl('j'));
    assert_eq!(app.input, "ao\n");
    pressed(&mut app, TermEvent::Paste("x\r\ny\rz".into()));
    assert_eq!(app.input, "ao\nx\ny\nz");
    pressed(&mut app, tecla(KeyCode::Up));
    assert_eq!(app.cursor, 6);
    pressed(&mut app, tecla(KeyCode::Down));
    assert_eq!(app.cursor, 8);
}

#[test]
fn prompts_are_called_back() {
    let mut app = TuiApp::new("s", "w", false);
    app.remember_prompt("um");
    app.remember_prompt("dois");
    app.input = "rascunho".into();
    app.cursor = 8;
    pressed(&mut app, tecla(KeyCode::Up));
    assert_eq!(app.input, "dois");
    pressed(&mut app, tecla(KeyCode::Up));
    pressed(&mut app, tecla(KeyCode::Up));
    assert_eq!(app.input, "um");
    pressed(&mut app, tecla(KeyCode::Down));
    assert_eq!(app.input, "dois");
    pressed(&mut app, tecla(KeyCode::Down));
    assert_eq!(app.input, "rascunho");
}

#[test]
fn enter_starts_a_turn_only_when_ready() {
    let mut app = TuiApp::new("s", "w", false);
    app.input = "oi".into();
    assert_eq!(pressed(&mut app, tecla(KeyCode::Enter)), None);
    assert_eq!(app.input, "oi", "texto devolvido");
    app.booting = true;
    assert_eq!(pressed(&mut app, tecla(KeyCode::Enter)), None);
    assert!(app.messages.last().unwrap().text.contains("conectando"));
    app.booting = false;
    app.mark_session_ready();
    assert_eq!(pressed(&mut app, tecla(KeyCode::Enter)), Some(Act::Turn("oi".into())));
    assert!(app.input.is_empty());
    app.input = " /help ".into();
    assert_eq!(pressed(&mut app, tecla(KeyCode::Enter)), Some(Act::Slash("/help".into())));
    app.input = "/a\nb".into();
    assert_eq!(pressed(&mut app, tecla(KeyCode::Enter)), Some(Act::Turn("/a\nb".into())));
    app.runtime_dead = true;
    app.input = "oi".into();
    assert_eq!(pressed(&mut app, tecla(KeyCode::Enter)), None);
    assert_eq!(app.input, "oi");
    app.runtime_dead = false;
    app.read_only = true;
    assert_eq!(pressed(&mut app, tecla(KeyCode::Enter)), None);
    assert_eq!(app.input, "oi");
    app.input = "   ".into();
    assert_eq!(pressed(&mut app, tecla(KeyCode::Enter)), None);
    assert!(app.input.is_empty());
}

#[test]
fn only_a_yes_compacts() {
    let mut app = TuiApp::new("s", "w", false);
    app.pending_compact = true;
    assert_eq!(pressed(&mut app, tecla(KeyCode::Enter)), None);
    assert!(app.messages.last().unwrap().text.contains("cancelado"));
    app.pending_compact = true;
    assert_eq!(pressed(&mut app, tecla(KeyCode::Char('s'))), Some(Act::Compact));
    assert!(!app.pending_compact);
    app.pending_permission = true;
    assert_eq!(pressed(&mut app, tecla(KeyCode::Char('y'))), None);
    assert!(!app.pending_permission);
}

#[test]
fn shortcuts() {
    let mut app = TuiApp::new("s", "w", false);
    assert_eq!(pressed(&mut app, ctrl('n')), Some(Act::Boot));
    assert!(app.booting);
    assert_eq!(pressed(&mut app, ctrl('n')), None, "um por vez");
    app.mark_session_ready();
    assert_eq!(pressed(&mut app, ctrl('n')), Some(Act::Create));
    assert_eq!(pressed(&mut app, ctrl('u')), Some(Act::Usage));
    assert_eq!(pressed(&mut app, tecla(KeyCode::Esc)), None);
    app.working = true;
    let env = KeyEnv { runtime_up: true, turn_running: true };
    let (_, act) = handle_key_event(&mut app, &env, &tecla(KeyCode::Esc));
    assert_eq!(act, Some(Act::Abort { stop: true }));
    assert!(!app.working);
    assert!(matches!(
        act_task(&Act::Abort { stop: true }, false),
        Some(Task::Stop { say: false })
    ));
    assert!(act_task(&Act::Abort { stop: false }, false).is_none());
    assert_eq!(map_key(KeyEvent {
        code: KeyCode::F(3),
        ctrl: false,
        shift: true,
        alt: false,
        other: false,
        kind: KeyKind::Press,
    }), TuiKey::ShiftF3);
}

#[test]
fn the_mouse_only_scrolls() {
    let mut app = TuiApp::new("s", "w", false);
    app.scroll = 10;
    assert!(handle_key_event(&mut app, &com_runtime(), &TermEvent::ScrollUp).0);
    assert_eq!(app.scroll, 7);
    assert!(!app.follow);
    assert!(handle_key_event(&mut app, &com_runtime(), &TermEvent::ScrollDown).0);
    assert_eq!(app.scroll, 10);
    assert!(!handle_key_event(&mut app, &com_runtime(), &TermEvent::Mouse).0);
    pressed(&mut app, tecla(KeyCode::Home));
    assert_eq!(app.scroll, 0);
    pressed(&mut app, tecla(KeyCode::End));
    assert!(app.follow);
}

#[test]
fn searching_the_transcript() {
    let mut app = TuiApp::new("s", "w", false);
    app.push_msg("user", "um alvo");
    app.push_msg("user", "nada");
    app.push_msg("user", "outro alvo");
    app.input = "rascunho".into();
    pressed(&mut app, ctrl('f'));
    for c in "alvo".chars() {
        pressed(&mut app, tecla(KeyCode::Char(c)));
    }
    assert_eq!(app.search.as_ref().unwrap().matches, vec![0, 2]);
    pressed(&mut app, tecla(KeyCode::Down));
    assert_eq!(app.search.as_ref().unwrap().current, 1);
    pressed(&mut app, tecla(KeyCode::F(3)));
    assert_eq!(app.search.as_ref().unwrap().current, 0);
    pressed(&mut app, tecla(KeyCode::Backspace));
    assert_eq!(app.search.as_ref().unwrap().query, "alv");
    pressed(&mut app, tecla(KeyCode::Enter));
    assert!(!app.search.as_ref().unwrap().open);
    assert_eq!(app.input, "rascunho");
    pressed(&mut app, ctrl('f'));
    pressed(&mut app, tecla(KeyCode::Esc));
    assert!(app.search.is_none());
    assert_eq!(app.input, "rascunho");
}

// ----- commands

fn env() -> SlashEnv {
    slash_env(&j("{}"), false, "", false)
}

#[test]
fn commands_in_the_interface() {
    let mut app = TuiApp::new("s", "w", false);
    let e = env();
    assert!(handle_tui_slash(&mut app, &parse_input("/usage"), &e).is_some());
    assert_eq!(app.overlay, Some(Overlay::Usage));
    app.last_usage = Some(Usage::default());
    assert!(handle_tui_slash(&mut app, &parse_input("/context"), &e).is_none());
    assert_eq!(app.overlay, Some(Overlay::Context));
    handle_tui_slash(&mut app, &parse_input("/compact"), &e);
    assert!(app.pending_compact);
    match handle_tui_slash(&mut app, &parse_input("/mode plan"), &e) {
        Some(Job::Run(Task::Mode { mode })) => assert_eq!(mode, "plan"),
        _ => panic!("esperava o modo"),
    }
    assert_eq!(app.mode, "plan");
    handle_tui_slash(&mut app, &parse_input("/goal set x"), &e);
    assert!(matches!(
        handle_tui_slash(&mut app, &parse_input("/goal"), &e),
        Some(Job::Run(Task::Goal { .. }))
    ));
    assert!(matches!(
        handle_tui_slash(&mut app, &parse_input("/resume"), &e),
        Some(Job::Run(Task::Sessions))
    ));
    assert!(app.picker.is_some());
    app.picker = None;
    app.working = true;
    assert!(handle_tui_slash(&mut app, &parse_input("/resume s2"), &e).is_none());
    assert!(app.messages.last().unwrap().text.contains("turno em andamento"));
    assert!(handle_tui_slash(&mut app, &Input::Exit, &e).is_none());
    assert!(app.quit);
}

#[test]
fn the_queue_is_shown_and_emptied() {
    let mut app = TuiApp::new("s", "w", false);
    let e = env();
    handle_tui_slash(&mut app, &parse_input("/queue"), &e);
    assert_eq!(app.messages.last().unwrap().text, "fila vazia.");
    app.queue_push("primeira\nlinha dois");
    app.queue_push("segunda");
    handle_tui_slash(&mut app, &parse_input("/queue"), &e);
    assert_eq!(app.messages.last().unwrap().text, "fila (2): primeira | segunda");
    handle_tui_slash(&mut app, &parse_input("/queue clear"), &e);
    assert!(app.queue.is_empty());
    assert_eq!(
        app.messages.last().unwrap().text,
        "fila limpa (2 mensagem(ns) descartada(s))."
    );
}

#[test]
fn export_takes_the_transcript_before_its_own_notice() {
    let mut app = TuiApp::new("s", "w", false);
    app.push_msg("user", "oi");
    match handle_tui_slash(&mut app, &parse_input("/export a.md"), &env()) {
        Some(Job::Export { msgs, path, json }) => {
            assert_eq!(msgs.len(), 1);
            assert_eq!(path.as_deref(), Some("a.md"));
            assert!(!json);
        }
        _ => panic!("esperava a exportação"),
    }
    assert_eq!(app.messages.len(), 2);
}

// ----- tasks and turns

#[test]
fn tasks_call_and_report() {
    let c = task_call(&Task::Fork { id: "f".into() }, "s", "w").ok().unwrap();
    assert_eq!(c.method, "session/fork");
    assert!(task_call(&Task::Mode { mode: "turbo".into() }, "s", "w").is_err());
    match task_update(&Task::Compact, Ok(j("{}"))) {
        Some(UiUpdate::Notice(t)) => assert_eq!(t, "(sessão compactada.)"),
        _ => panic!("esperava notice"),
    }
    assert!(task_update(&Task::Stop { say: false }, Ok(j("{}"))).is_none());
    match task_update(&Task::Create, Err("x".into())) {
        Some(UiUpdate::Notice(t)) => assert_eq!(t, "new falhou: x"),
        _ => panic!("esperava notice"),
    }
    let sub = task_subscription(&Task::Create, &j(r#"{"session":{"sessionId":"n"}}"#)).unwrap();
    assert_eq!(sub.method, "session/subscribe");
    assert_eq!(sub.params.str_at("sessionId"), Some("n"));
    assert_eq!(
        task_error(&Task::Compact, &RuntimeError::Io("pipe".into())),
        format!("runtime: {}", RuntimeError::Io("pipe".into()).to_text())
    );
}

#[test]
fn the_first_session() {
    let ok = boot_result(&Ok(j(r#"{"session":{"sessionId":"n"}}"#)), &Some("m".into()));
    let b = ok.ok().unwrap();
    assert_eq!((b.sid.as_str(), b.model.as_str()), ("n", "m"));
    let dead = Err(SessionError::Runtime(RuntimeError::Exited(Some(1), "x".into())));
    assert!(matches!(boot_result(&dead, &None), Err(UiUpdate::RuntimeDead { .. })));
    assert!(matches!(boot_result(&Ok(j("{}")), &None), Err(UiUpdate::Notice(_))));
    let e = history_entry("n", "", "w", "m", "t");
    assert_eq!(e.session_id, "n");
    assert_eq!(e.updated_at, "t");
}

fn outcome(res: Result<Json, SessionError>) -> TurnOutcome {
    TurnOutcome {
        before: Usage::default(),
        res,
        elapsed_nanos: 1_000_000_000,
        after: Ok(Usage { input_tokens: 5, output_tokens: 9, ..Default::default() }),
        ws_diff: None,
        git_stat: None,
        timing: "turno concluído em 1.0s · 9.0 tok/s".into(),
    }
}

#[test]
fn a_turn_starts_and_ends() {
    let mut app = TuiApp::new("s", "w", false);
    start_turn(&mut app, "veja @a", "veja CONTEUDO", &vec!["aviso".to_string()]);
    assert!(app.working);
    assert_eq!(app.status, "working…");
    assert_eq!(app.messages[0].text, "aviso");
    assert_eq!(app.messages[1], cmw("user", "veja @a", "veja CONTEUDO"));
    assert_eq!(app.prompt_history, vec!["veja @a"]);
    app.queue_push("depois");
    end_turn(&mut app, &TurnEnd::Done(outcome(Ok(j("{}")))));
    assert!(!app.working);
    assert_eq!(app.status, "turno concluído em 1.0s · 9.0 tok/s");
    assert_eq!((app.tokens_in, app.tokens_out), (5, 9));
    assert_eq!(next_turn(&mut app, false), None, "sem runtime a fila fica");
    assert_eq!(next_turn(&mut app, true).as_deref(), Some("depois"));
    assert!(app.queue.is_empty());
    app.working = true;
    end_turn(&mut app, &TurnEnd::Died);
    assert!(!app.working);
    let dead = SessionError::Runtime(RuntimeError::Exited(Some(1), "x".into()));
    end_turn(&mut app, &TurnEnd::Done(outcome(Err(dead))));
    assert!(app.runtime_dead);
    app.queue_push("fica");
    assert_eq!(next_turn(&mut app, true), None, "runtime morto não consome a fila");
}

#[test]
fn the_interface_opens_and_closes() {
    let mut app = start_app("w", &None, "build");
    assert!(app.booting && !app.session_ready);
    assert_eq!(app.mode, "build");
    assert_eq!(app.status, "conectando…");
    assert_eq!(app.messages.len(), 2);
    assert_eq!(session_to_close(&app), None);
    assert!(!tick(&mut app));
    app.working = true;
    assert!(tick(&mut app));
    assert_eq!(app.tick, 1);
    app.mark_session_ready();
    app.session_id = "s".into();
    assert_eq!(session_to_close(&app).as_deref(), Some("s"));
}
