use zcode_cli::config::default_model;
use zcode_cli::json::{read_json, write_json, Json};
use zcode_cli::session::calls::{
    apply_model, apply_mode, apply_thought, compact_params, create_params, fork_params,
    goal_action, goal_params, list_params, resume_params, send_params, set_mode_params,
    set_model_params, set_thought_params, stop_params, tui_subscribe_params, usage_params,
    validate_goal_action, validate_mode, validate_thought,
};
use zcode_cli::session::export::{
    build_export_json, build_export_md, export_default_path, export_file, export_role_badge,
    sid_short8, transcript_entries,
};
use zcode_cli::session::extract::{
    available_models, effective_model, extract_display_items, extract_protocol_version,
    extract_session_id, extract_text_messages, last_assistant_text, measure_turn, parse_context,
    parse_usage, session_title, AvailableModel, ContextUsage, MsgItem, MsgKind, TurnStats, Usage,
};
use zcode_cli::session::history::{
    history_path, latest_for_workspace, load_history, record_session, save_history, HistoryEntry,
    HISTORY_MAX,
};
use zcode_cli::session::listing::{parse_session_list, pick_list, picker_rows};
use zcode_cli::session::todos::{extract_todos, summarize_active_tools, TodoItem, TodoStatus};
use zcode_cli::session::turn::{TurnWait, WaitStep, FAST_STABLE, WAIT_STABLE};
use zcode_cli::session::SessionError;

fn j(text: &str) -> Json {
    read_json(text).unwrap()
}

fn at<'a>(v: &'a Json, path: &[&str]) -> &'a Json {
    let mut cur = v;
    for key in path {
        cur = cur.get(key).expect("campo presente");
    }
    cur
}

fn text<'a>(v: &'a Json, path: &[&str]) -> &'a str {
    at(v, path).as_str().expect("texto")
}

#[test]
fn create_tem_workspace_path_e_key() {
    let p = create_params("C:/proj");
    assert_eq!(text(&p, &["workspace", "workspacePath"]), "C:/proj");
    assert_eq!(text(&p, &["workspace", "workspaceKey"]), "C:/proj");
}

#[test]
fn send_usa_content_nao_message() {
    let p = send_params("sess_1", "oi");
    assert_eq!(text(&p, &["content"]), "oi");
    assert!(p.get("message").is_none());
}

#[test]
fn set_model_e_objeto() {
    let p = set_model_params("sess_1", "zai", "glm-5.3");
    assert_eq!(text(&p, &["model", "providerId"]), "zai");
    assert_eq!(text(&p, &["model", "modelId"]), "glm-5.3");
    assert!(!at(&p, &["model"]).is_string());
}

#[test]
fn set_mode_e_thought_shapes() {
    assert_eq!(text(&set_mode_params("s", "plan"), &["mode"]), "plan");
    assert_eq!(text(&set_thought_params("s", "max"), &["thoughtLevel"]), "max");
    assert!(validate_mode("invalido").is_err());
    assert!(validate_thought("medio").is_err());
}

#[test]
fn extrai_session_e_texto() {
    let create = j(
        r#"{"session":{"sessionId":"sess_abc"},"protocol":{"name":"ZCode Protocol","version":1}}"#,
    );
    assert_eq!(extract_session_id(&create).unwrap(), "sess_abc");
    assert_eq!(extract_protocol_version(&create), Some(1));
    let msgs = j(
        r#"{"messages":[{"role":"user","parts":[{"type":"text","text":"oi"}]},{"role":"assistant","parts":[{"type":"text","text":"Canberra."}]}]}"#,
    );
    assert_eq!(last_assistant_text(&msgs).unwrap(), "Canberra.");
}

#[test]
fn extrai_shape_real_info_role() {
    let msgs = j(
        r#"{"messages":[
              {"info":{"role":"user"},"parts":[{"type":"text","text":"diga ok"}]},
              {"info":{"role":"assistant"},"parts":[
                {"type":"step-start"},{"type":"reasoning","text":"pensando"},
                {"type":"text","text":"ok"},{"type":"step-finish"}]}]}"#,
    );
    let all = extract_text_messages(&msgs);
    assert_eq!(all.len(), 2);
    assert_eq!(all[1], ("assistant".to_string(), "ok".to_string()));
    assert_eq!(last_assistant_text(&msgs).unwrap(), "ok");
}

#[test]
fn display_items_reasoning_antes_do_texto() {
    let msgs = j(
        r#"{"messages":[
              {"info":{"role":"user"},"parts":[{"type":"text","text":"diga ok"}]},
              {"info":{"role":"assistant"},"parts":[
                {"type":"step-start"},{"type":"reasoning","text":"pensando"},
                {"type":"reasoning","text":" mais"},
                {"type":"text","text":"ok"},{"type":"step-finish"}]}]}"#,
    );
    let items = extract_display_items(&msgs);
    assert_eq!(
        items,
        vec![
            MsgItem { role: "user".into(), text: "diga ok".into(), kind: MsgKind::Text },
            MsgItem {
                role: "assistant".into(),
                text: "pensando mais".into(),
                kind: MsgKind::Reasoning
            },
            MsgItem { role: "assistant".into(), text: "ok".into(), kind: MsgKind::Text },
        ]
    );
    let so_texto = extract_text_messages(&msgs);
    assert_eq!(
        so_texto,
        vec![
            ("user".to_string(), "diga ok".to_string()),
            ("assistant".to_string(), "ok".to_string()),
        ]
    );
}

#[test]
fn display_items_casos_defensivos() {
    let msgs = j(
        r#"{"messages":[
            {"info":{"role":"assistant"},"parts":[{"type":"reasoning","text":"só penso"}]},
            {"info":{"role":"assistant"},"parts":[{"type":"reasoning","text":"   "}]},
            {"info":{"role":"user"}},
            {"info":{"role":"assistant"},"parts":[{"type":"step-start"}]}
        ]}"#,
    );
    let items = extract_display_items(&msgs);
    assert_eq!(
        items,
        vec![MsgItem {
            role: "assistant".into(),
            text: "só penso".into(),
            kind: MsgKind::Reasoning,
        }]
    );
    assert!(extract_display_items(&j("{}")).is_empty());
    assert!(extract_display_items(&j("[]")).is_empty());
    assert_eq!(MsgKind::default(), MsgKind::Text);
}

#[test]
fn summarize_active_tools_defensivo() {
    let raiz = j(r#"{"activeToolCalls":[{"name":"bash"},{"name":"bash"},{"name":"edit"}]}"#);
    assert_eq!(
        summarize_active_tools(&raiz).unwrap(),
        "tools neste turno: bash ×2, edit ×1"
    );
    let proj = j(r#"{"projection":{"activeToolCalls":[{"tool":"read"},{"name":"bash"}]}}"#);
    assert_eq!(
        summarize_active_tools(&proj).unwrap(),
        "tools neste turno: read ×1, bash ×1"
    );
    assert_eq!(summarize_active_tools(&j("{}")), None);
    assert_eq!(summarize_active_tools(&j(r#"{"activeToolCalls":[]}"#)), None);
    assert_eq!(summarize_active_tools(&j(r#"{"activeToolCalls":["bash"]}"#)), None);
    assert_eq!(summarize_active_tools(&j(r#"{"activeToolCalls":[{"tool":42}]}"#)), None);
    assert_eq!(
        summarize_active_tools(&j(r#"{"activeToolCalls":[{"name":"bash"},{"name":""}]}"#)),
        None
    );
    assert_eq!(summarize_active_tools(&j(r#"{"name":"bash"}"#)), None);
}

#[test]
fn modelo_efetivo_vem_do_servidor() {
    let v = j(
        r#"{"settings":{"model":{"current":{"providerId":"zai","modelId":"glm-5.3-Flash"}}}}"#,
    );
    assert_eq!(effective_model(&v), "zai/glm-5.3-Flash");
    assert_eq!(effective_model(&j("{}")), default_model());
}

fn per_second(st: &TurnStats) -> f64 {
    match st.rate() {
        Some((tokens, nanos)) => tokens as f64 / (nanos as f64 / 1e9),
        None => 0.0,
    }
}

#[test]
fn tui_visual_turn_stats_tok_s() {
    let before =
        Usage { input_tokens: 100, output_tokens: 10, total_tokens: 110, ..Usage::default() };
    let after =
        Usage { input_tokens: 150, output_tokens: 110, total_tokens: 260, ..Usage::default() };
    let st = measure_turn(&before, &after, 2_000_000_000);
    assert_eq!(
        (st.input_tokens, st.output_tokens, st.total_tokens, st.elapsed_ms),
        (50, 100, 150, 2000)
    );
    assert_eq!(per_second(&st), 50.0);
}

#[test]
fn tui_visual_turn_stats_limites() {
    let a = Usage { output_tokens: 50, ..Usage::default() };
    let b = Usage { output_tokens: 30, ..Usage::default() };
    let st = measure_turn(&a, &b, 0);
    assert_eq!(st.output_tokens, 0);
    assert_eq!(per_second(&st), 0.0);
    assert_eq!(st.elapsed_ms, 0);
}

fn percent(c: &ContextUsage) -> f64 {
    match c.share() {
        Some((used, window)) => used as f64 / window as f64 * 100.0,
        None => 0.0,
    }
}

#[test]
fn tui_visual_contexto_presente() {
    let v = j(
        r#"{"projection":{"status":"idle","contextWindow":1000000,"contextUsed":250000,"totalTokenCount":250000}}"#,
    );
    let c = parse_context(&v);
    assert_eq!(c, ContextUsage { window: 1_000_000, used: 250_000 });
    assert_eq!(percent(&c), 25.0);
    assert_eq!(parse_context(at(&v, &["projection"])), c);
}

#[test]
fn tui_visual_contexto_ausente_nao_quebra() {
    assert_eq!(parse_context(&j("{}")), ContextUsage::default());
    assert_eq!(percent(&parse_context(&j(r#"{"projection":{}}"#))), 0.0);
    let v = j(r#"{"session":{"sessionId":"s"}}"#);
    assert_eq!(parse_context(&v).window, 0);
}

#[test]
fn context_share_is_at_most_whole() {
    let c = ContextUsage { window: 10, used: 25 };
    assert_eq!(c.share(), Some((10, 10)));
}

#[test]
fn parse_usage_camel() {
    let v = j(
        r#"{"totalTokens":10,"inputTokens":7,"outputTokens":3,"reasoningTokens":1,"cacheCreationTokens":0,"cacheReadTokens":2,"modelRequestCount":1}"#,
    );
    let u = parse_usage(&v);
    assert_eq!(u.input_tokens, 7);
    assert_eq!(u.total_tokens, 10);
    assert_eq!(u.cache_read_tokens, 2);
}

#[test]
fn list_e_outros_shapes() {
    assert_eq!(at(&list_params(50), &["limit"]).as_u64(), Some(50));
    assert_eq!(text(&usage_params("s"), &["sessionId"]), "s");
    assert_eq!(text(&resume_params("s"), &["sessionId"]), "s");
    assert_eq!(text(&stop_params("s"), &["sessionId"]), "s");
    assert_eq!(text(&fork_params("s"), &["sessionId"]), "s");
}

#[test]
fn stop_mid_turn_tem_session_id() {
    let p = stop_params("sess_x");
    assert_eq!(text(&p, &["sessionId"]), "sess_x");
    assert_eq!(p.keys().unwrap().len(), 1);
}

#[test]
fn compact_shape_minimo_verificado() {
    let p = compact_params("sess_x");
    assert_eq!(text(&p, &["sessionId"]), "sess_x");
    assert_eq!(p.keys().unwrap().len(), 1);
}

#[test]
fn goal_action_enum_verificada() {
    for a in ["show", "set", "replace", "pause", "resume", "clear"] {
        assert!(validate_goal_action(a).is_ok(), "{a}");
        let p = goal_params("sess_x", a);
        assert_eq!(text(&p, &["sessionId"]), "sess_x");
        assert_eq!(text(&p, &["action"]), a);
    }
    assert!(validate_goal_action("delete").is_err());
    assert!(validate_goal_action("").is_err());
}

#[test]
fn goal_write_needs_text() {
    let e = goal_action("s", "set").err().unwrap();
    assert!(matches!(e, SessionError::Protocol(_)));
    let c = goal_action("s", "pause").ok().unwrap();
    assert_eq!(c.method, "session/goal");
    assert_eq!(c.timeout_secs, 30);
}

#[test]
fn settings_are_checked_before_they_are_sent() {
    let c = apply_model("s", "zai/glm-5.3").ok().unwrap();
    assert_eq!(c.method, "session/setModel");
    assert_eq!(text(&c.params, &["model", "modelId"]), "glm-5.3");
    assert!(apply_model("s", "semBarra").is_err());
    assert!(apply_mode("s", "turbo").is_err());
    assert!(apply_thought("s", "medio").is_err());
    assert_eq!(apply_mode("s", "plan").ok().unwrap().method, "session/setMode");
    assert_eq!(text(&apply_thought("s", "low").ok().unwrap().params, &["thoughtLevel"]), "low");
}

#[test]
fn available_models_do_create() {
    let v = j(
        r#"{"settings":{"model":{
              "current":{"providerId":"zai","modelId":"glm-5.3-Flash"},
              "available":[
                {"label":"glm-5.3-Flash","providerLabel":"Z.AI","ref":{"providerId":"zai","modelId":"glm-5.3-Flash"},"contextWindow":1000000,"maxOutputTokens":128000},
                {"label":"main","ref":{"providerId":"zai","modelId":"glm-5.3"},"contextWindow":1000000}
              ]}}}"#,
    );
    let ms = available_models(&v);
    assert_eq!(ms.len(), 2);
    assert_eq!(
        ms[0],
        AvailableModel {
            label: "glm-5.3-Flash".into(),
            provider_id: "zai".into(),
            model_id: "glm-5.3-Flash".into(),
            context_window: 1_000_000,
        }
    );
    assert_eq!(effective_model(&v), "zai/glm-5.3-Flash");
    assert!(available_models(&j("{}")).is_empty());
}

fn td(content: &str, status: TodoStatus) -> TodoItem {
    TodoItem { content: content.into(), status }
}

#[test]
fn todos_array_de_objetos_com_status() {
    let v = j(
        r#"{"todos": [
            {"content": "ler plano", "status": "completed"},
            {"content": "implementar", "status": "in-progress"},
            {"content": "testar", "status": "pending"}
        ]}"#,
    );
    assert_eq!(
        extract_todos(&v),
        vec![
            td("ler plano", TodoStatus::Completed),
            td("implementar", TodoStatus::InProgress),
            td("testar", TodoStatus::Pending),
        ]
    );
    let v2 = j(
        r#"{"todos": [
            {"content": "a", "status": "done"},
            {"content": "b", "status": "in_progress"},
            {"content": "c", "status": "cancelled"},
            {"content": "d", "status": "que-status-e-esse"}
        ]}"#,
    );
    assert_eq!(
        extract_todos(&v2),
        vec![
            td("a", TodoStatus::Completed),
            td("b", TodoStatus::InProgress),
            td("c", TodoStatus::Pending),
            td("d", TodoStatus::Pending),
        ]
    );
}

#[test]
fn todos_campos_alternativos_text_label_state() {
    let v = j(
        r#"{"todos": [
            {"text": "via text", "state": "completed"},
            {"label": "via label"},
            {"content": "  ", "text": "content vazio cai no text"},
            {"content": "sem status algum"}
        ]}"#,
    );
    assert_eq!(
        extract_todos(&v),
        vec![
            td("via text", TodoStatus::Completed),
            td("via label", TodoStatus::Pending),
            td("content vazio cai no text", TodoStatus::Pending),
            td("sem status algum", TodoStatus::Pending),
        ]
    );
}

#[test]
fn todos_array_de_strings_vira_pending() {
    let v = j(r#"{"todos": ["item um", "item dois", "  "]}"#);
    assert_eq!(
        extract_todos(&v),
        vec![td("item um", TodoStatus::Pending), td("item dois", TodoStatus::Pending)]
    );
}

#[test]
fn todos_da_projection_do_send() {
    let v = j(r#"{"projection": {"todos": [{"content": "passo", "status": "in-progress"}]}}"#);
    assert_eq!(extract_todos(&v), vec![td("passo", TodoStatus::InProgress)]);
    let ambos = j(
        r#"{
            "todos": [{"content": "da raiz", "status": "completed"}],
            "projection": {"todos": [{"content": "da proj"}]}
        }"#,
    );
    assert_eq!(extract_todos(&ambos), vec![td("da raiz", TodoStatus::Completed)]);
}

#[test]
fn todo_groups_achatado_tolerante() {
    let v = j(
        r#"{"todoGroups": [
            {"title": "fase 1", "todos": [
                {"content": "a", "status": "completed"},
                {"content": "b", "status": "in-progress"}
            ]},
            {"name": "fase 2", "items": [{"content": "c"}]}
        ]}"#,
    );
    assert_eq!(
        extract_todos(&v),
        vec![
            td("a", TodoStatus::Completed),
            td("b", TodoStatus::InProgress),
            td("c", TodoStatus::Pending),
        ]
    );
    let v2 = j(
        r#"{"todoGroups": ["item solto", {"content": "objeto direto", "status": "done"}]}"#,
    );
    assert_eq!(
        extract_todos(&v2),
        vec![td("item solto", TodoStatus::Pending), td("objeto direto", TodoStatus::Completed)]
    );
    let v3 = j(r#"{"projection": {"todoGroups": [{"todos": ["x"]}]}}"#);
    assert_eq!(extract_todos(&v3), vec![td("x", TodoStatus::Pending)]);
}

#[test]
fn todos_shapes_hostis_sem_panic() {
    assert!(extract_todos(&j(r#"{"todos": []}"#)).is_empty());
    assert!(extract_todos(&j(r#"{"todos": "não sou array"}"#)).is_empty());
    assert!(extract_todos(&j(r#"{"todos": [42, null, {}]}"#)).is_empty());
    assert!(extract_todos(&j(r#"{"todos": [{"status": "completed"}]}"#)).is_empty());
    assert!(extract_todos(&j(r#""string pura""#)).is_empty());
    assert!(extract_todos(&j("7")).is_empty());
    assert!(extract_todos(&j("null")).is_empty());
    assert!(extract_todos(&j(r#"{"session": {"sessionId": "s"}}"#)).is_empty());
    assert!(extract_todos(&j(r#"{"todoGroups": []}"#)).is_empty());
    assert!(extract_todos(&j(r#"{"todoGroups": [{"title": "sem lista"}]}"#)).is_empty());
    let v = j(r#"{"todos": [{"content": "ok", "status": 123}]}"#);
    assert_eq!(extract_todos(&v), vec![td("ok", TodoStatus::Pending)]);
}

#[test]
fn export_sid_short8() {
    assert_eq!(sid_short8("sess_abff123456789"), "sess_abf");
    assert_eq!(sid_short8("curta"), "curta");
    assert_eq!(sid_short8(""), "");
}

#[test]
fn export_md_cabecalho_secoes_e_thinking() {
    let msgs = vec![
        ("user".to_string(), "qual é a capital?".to_string(), MsgKind::Text),
        (
            "assistant".to_string(),
            "pensando\nmais uma linha".to_string(),
            MsgKind::Reasoning,
        ),
        ("assistant".to_string(), "Canberra.".to_string(), MsgKind::Text),
        ("system".to_string(), "notice do boot".to_string(), MsgKind::Text),
    ];
    let md = build_export_md(
        &msgs,
        "sess_abff123456789",
        "zai/glm-5.3-Flash",
        "2026-09-08T12:00:00+00:00",
    );
    assert!(
        md.starts_with("# Conversa zcode-cli (sessão sess_abf, modelo zai/glm-5.3-Flash, 2026-09-08T12:00:00+00:00)\n\n"),
        "{md}"
    );
    assert!(md.contains("## USER\n\nqual é a capital?\n"));
    assert!(md.contains("## ASSIST\n\nCanberra.\n"));
    assert!(md.contains("## SYS\n\nnotice do boot\n"));
    assert!(md.contains("## THINK\n\n> (thinking)\n> pensando\n> mais uma linha\n"));
    let md2 = build_export_md(&[], "", "", "2026-09-08T12:00:00+00:00");
    assert!(md2.contains("modelo -, 2026-09-08T12:00:00+00:00"));
    assert!(md2.contains("(sem mensagens)"));
}

#[test]
fn export_json_shape_e_escaping_do_serde() {
    let msgs = vec![
        ("user".to_string(), "com \"aspas\" e \\ barra".to_string(), MsgKind::Text),
        ("assistant".to_string(), "raciocínio".to_string(), MsgKind::Reasoning),
    ];
    let v = build_export_json(
        &msgs,
        "sess_abff123456789",
        "zai/glm-5.3-Flash",
        "2026-09-08T12:00:00+00:00",
    );
    assert_eq!(text(&v, &["sessionId"]), "sess_abff123456789");
    assert_eq!(text(&v, &["model"]), "zai/glm-5.3-Flash");
    assert_eq!(text(&v, &["exportedAt"]), "2026-09-08T12:00:00+00:00");
    let arr = v.array_at("messages").unwrap();
    assert_eq!(arr.len(), 2);
    assert_eq!(text(&arr[0], &["role"]), "user");
    assert_eq!(text(&arr[0], &["kind"]), "text");
    assert_eq!(text(&arr[0], &["text"]), "com \"aspas\" e \\ barra");
    assert_eq!(text(&arr[1], &["kind"]), "reasoning");
    let volta = j(&write_json(&v));
    assert_eq!(
        text(&volta.array_at("messages").unwrap()[0], &["text"]),
        "com \"aspas\" e \\ barra"
    );
}

#[test]
fn export_default_path_sid8_e_json() {
    assert_eq!(
        export_default_path("sess_abff123456789", false),
        "zcode-export-sess_abf.md"
    );
    assert_eq!(
        export_default_path("sess_abff123456789", true),
        "zcode-export-sess_abf.json"
    );
    assert_eq!(export_default_path("abc", false), "zcode-export-abc.md");
    assert_eq!(export_default_path("", true), "zcode-export-sess.json");
}

#[test]
fn export_file_names_and_bodies() {
    let msgs = vec![
        ("user".to_string(), "pergunta com \"aspas\"".to_string(), MsgKind::Text),
        ("assistant".to_string(), "pensamento".to_string(), MsgKind::Reasoning),
    ];
    let (p, md) = export_file(&msgs, "sess_abff123456789", "m", "t", Some("dir/conversa.md"), false);
    assert_eq!(p, "dir/conversa.md");
    assert!(md.contains("# Conversa zcode-cli (sessão sess_abf,"));
    assert!(md.contains("## USER"));
    assert!(md.contains("> (thinking)"));
    let (p, body) = export_file(&msgs, "sess_abff123456789", "m", "t", None, true);
    assert_eq!(p, "zcode-export-sess_abf.json");
    let v = j(&body);
    let arr = v.array_at("messages").unwrap();
    assert_eq!(text(&arr[0], &["text"]), "pergunta com \"aspas\"");
    assert_eq!(text(&arr[1], &["kind"]), "reasoning");
    assert!(body.contains("\n  \""), "indentado");
}

#[test]
fn export_of_the_server_transcript() {
    let msgs = j(
        r#"{"messages":[{"role":"assistant","parts":[{"type":"reasoning","text":"r"},{"type":"text","text":"t"}]}]}"#,
    );
    assert_eq!(
        transcript_entries(&msgs),
        vec![
            ("assistant".to_string(), "r".to_string(), MsgKind::Reasoning),
            ("assistant".to_string(), "t".to_string(), MsgKind::Text),
        ]
    );
    assert_eq!(export_role_badge("user", MsgKind::Text), "USER");
    assert_eq!(export_role_badge("user", MsgKind::Reasoning), "THINK");
    assert_eq!(export_role_badge("outro", MsgKind::Text), "SYS");
}

#[test]
fn fase3_goal_invalido_erro_claro() {
    let e = validate_goal_action("delete").unwrap_err();
    assert!(e.to_text().contains("goal action inválida"));
}

#[test]
fn fase4_subscribe_delivery_fixture() {
    let p = tui_subscribe_params("sess_x");
    assert_eq!(text(&p, &["sessionId"]), "sess_x");
    assert_eq!(text(&p, &["deliveryKind"]), "desktop-continuous");
}

#[test]
fn collect_picker_rows_usa_parse_session_list() {
    let v = j(
        r#"{
            "sessions": [
                {"sessionId": "sess_a", "title": "t1", "status": "idle", "createdAt": "2026"},
                {"sessionId": "", "title": "sem id — descartada"},
                {"sessionId": "sess_b", "title": "t2", "status": "working", "createdAt": "2027"}
            ]
        }"#,
    );
    let rows = parse_session_list(&v);
    assert_eq!(rows.len(), 2);
    assert_eq!(rows[0].id, "sess_a");
    assert_eq!(rows[1].title, "t2");
}

fn entry(id: &str, title: &str, ws: &str, at: &str) -> HistoryEntry {
    HistoryEntry {
        session_id: id.into(),
        title: title.into(),
        workspace: ws.into(),
        model: "m".into(),
        updated_at: at.into(),
    }
}

#[test]
fn picker_falls_back_to_the_local_record() {
    let h = vec![entry("s1", "", "w", "t1"), entry("s2", "dois", "w", "t2")];
    let rows = picker_rows(&j(r#"{"sessions":[]}"#), &h, 1);
    assert_eq!(rows.len(), 1);
    assert_eq!(rows[0].id, "s1");
    assert_eq!(rows[0].title, "-");
    assert_eq!(rows[0].status, "local");
    assert_eq!(rows[0].created, "t1");
    let v = pick_list(&rows);
    assert_eq!(text(&v, &["action"]), "pick");
    let list = v.array_at("sessions").unwrap();
    assert_eq!(list[0].u64_at("n"), Some(1));
    assert_eq!(list[0].str_at("id"), Some("s1"));
}

#[test]
fn history_keeps_each_session_once_newest_first() {
    let mut h: Vec<HistoryEntry> = Vec::new();
    for i in 0..250 {
        h = record_session(h, entry(&format!("s{i}"), "t", "w", &format!("{i}")));
    }
    assert_eq!(h.len(), HISTORY_MAX);
    assert_eq!(h[0].session_id, "s249");
    h = record_session(h, entry("s240", "novo", "outra", "999"));
    assert_eq!(h.len(), HISTORY_MAX);
    assert_eq!(h[0].session_id, "s240");
    assert_eq!(h.iter().filter(|e| e.session_id == "s240").count(), 1);
    assert_eq!(latest_for_workspace(&h, "w").unwrap().session_id, "s249");
    assert_eq!(latest_for_workspace(&h, "outra").unwrap().session_id, "s240");
    assert!(latest_for_workspace(&h, "nenhuma").is_none());
}

#[test]
fn history_comes_back_as_it_was_saved() {
    let h = vec![entry("s1", "com \"aspas\"", "C:/w", "t1"), entry("s2", "b", "w", "t2")];
    let text = save_history(&h);
    assert!(text.contains("updatedAt"));
    let back = load_history(&text);
    assert_eq!(back.len(), 2);
    assert_eq!(back[0].session_id, "s1");
    assert_eq!(back[0].title, "com \"aspas\"");
    assert_eq!(back[1].updated_at, "t2");
    assert!(load_history("{lixo").is_empty());
    assert!(load_history("{}").is_empty());
}

#[test]
fn created_session_title() {
    assert_eq!(session_title(&j(r#"{"session":{"title":"plano"}}"#)), "plano");
    assert_eq!(session_title(&j("{}")), "");
}

#[test]
fn a_turn_ends_when_the_answer_stands_still() {
    let say = |t: &str| Some(t.to_string());
    let mut w = TurnWait::new();
    assert!(matches!(w.observe(None, FAST_STABLE, 0, 300), WaitStep::Again));
    assert!(matches!(w.observe(say("o"), FAST_STABLE, 1, 300), WaitStep::Again));
    assert!(matches!(w.observe(say("ok"), FAST_STABLE, 2, 300), WaitStep::Again));
    assert!(matches!(w.observe(say("ok"), FAST_STABLE, 3, 300), WaitStep::Again));
    match w.observe(say("ok"), FAST_STABLE, 4, 300) {
        WaitStep::Done(t) => assert_eq!(t, "ok"),
        _ => panic!("duas leituras iguais encerram o turno"),
    }
}

#[test]
fn a_turn_without_an_answer_times_out() {
    let mut w = TurnWait::new();
    match w.observe(Some("  ".to_string()), WAIT_STABLE, 300, 300) {
        WaitStep::Failed(SessionError::Protocol(m)) => {
            assert_eq!(m, "timeout (300s) sem resposta do assistant")
        }
        _ => panic!("esperava o fim do prazo"),
    }
    let mut w = TurnWait::new();
    match w.observe(Some("parcial".to_string()), WAIT_STABLE, 300, 300) {
        WaitStep::Done(t) => assert_eq!(t, "parcial"),
        _ => panic!("o que há da resposta encerra o turno"),
    }
}

#[test]
fn the_record_lies_in_the_directory_of_the_program() {
    assert!(history_path().ends_with("zcode-cli/history.json"));
}
