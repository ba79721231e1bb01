use zcode_cli::daemon::{
    after_call, after_retry, auth_line, daemon_entry_valid, daemon_json_path, encode_client_msg,
    encode_err, encode_notify, encode_ok, entry_text, event_line, generate_token, greet,
    handle_request, hex_token, lists_process, may_serve, parse_client_line, parse_daemon_line,
    read_entry, stop_report, welcome, AfterCall, AuthFail, ClientMsg, DaemonEntry, DaemonLine,
    RequestStep, Stopping,
};
use zcode_cli::daemon_client::{
    budget_exceeded, call_msg, client_line, daemon_lock_path, decide_transport, fresh_entry,
    handshake_result, hello_msg, lock_owner_pid, lock_step, r1_resume_may_send,
    r1_send_err_means_cold, request_msg, start_failed, start_step, transport_step, ClientLine,
    Created, Greeted, LockStep, StartStep, TransportKind, TransportStep, AUTOSTART_TRIES,
};
use zcode_cli::json::{read_json, Json};
use zcode_cli::rpc::RpcError;
use zcode_cli::runtime::RuntimeError;
use zcode_cli::session::SessionError;

fn j(text: &str) -> Json {
    read_json(text).unwrap()
}

fn entry(port: u16, token: &str, pid: u32, at: &str) -> DaemonEntry {
    DaemonEntry { port, token: token.into(), pid, started_at: at.into() }
}

#[test]
fn framing_req_codifica_e_decodifica() {
    let m = ClientMsg {
        id: 7,
        token: Some("abc".into()),
        method: "call".into(),
        params: j(r#"{ "rpc": "session/send", "params": {}, "timeout_secs": 120 }"#),
    };
    let line = encode_client_msg(&m);
    assert!(!line.contains('\n'), "uma linha = uma mensagem");
    let back = parse_client_line(&line).unwrap();
    assert_eq!(back.id, 7);
    assert_eq!(back.token.as_deref(), Some("abc"));
    assert_eq!(back.method, "call");
    assert_eq!(back.params.str_at("rpc"), Some("session/send"));
    assert!(back.params.get("params").unwrap().is_object());
    assert_eq!(back.params.u64_at("timeout_secs"), Some(120));
    assert_eq!(encode_client_msg(&back), line);
}

#[test]
fn framing_resp_e_notificacao_decodificam() {
    let resp = parse_daemon_line(&encode_ok(3, j(r#"{"a": 1}"#))).unwrap();
    match resp {
        DaemonLine::Resp { id, ok, result, error, code } => {
            assert_eq!((id, ok), (3, true));
            assert_eq!(result.u64_at("a"), Some(1));
            assert!(error.is_none() && code.is_none());
        }
        _ => panic!("esperava resposta"),
    }
    let err = parse_daemon_line(&encode_err(4, "sessão fria", Some(-32031))).unwrap();
    match err {
        DaemonLine::Resp { id, ok, error, code, .. } => {
            assert_eq!(id, 4);
            assert!(!ok);
            assert_eq!(error.as_deref(), Some("sessão fria"));
            assert_eq!(code, Some(-32031));
        }
        _ => panic!("esperava resposta de erro"),
    }
    let nota = parse_daemon_line(&encode_notify("session/updated", &j(r#"{"x": 2}"#))).unwrap();
    match nota {
        DaemonLine::Notify { method, params } => {
            assert_eq!(method, "session/updated");
            assert_eq!(params.u64_at("x"), Some(2));
        }
        _ => panic!("esperava notificação"),
    }
    assert!(parse_daemon_line("não json").is_err());
}

#[test]
fn auth_token_errado_rejeitado() {
    let ok_line = encode_client_msg(&ClientMsg {
        id: 0,
        token: Some("t1".into()),
        method: "hello".into(),
        params: j(r#"{"workspace": "C:/x"}"#),
    });
    assert!(auth_line(&ok_line, "t1").is_ok(), "token certo passa");
    let errado = ok_line.replace("\"t1\"", "\"intruso\"");
    assert_eq!(auth_line(&errado, "t1").unwrap_err(), AuthFail::BadToken);
    assert_eq!(auth_line(&ok_line, "outro").unwrap_err(), AuthFail::BadToken);
    assert_eq!(
        auth_line(
            &encode_client_msg(&ClientMsg {
                id: 0,
                token: Some("t1".into()),
                method: "ping".into(),
                params: Json::Null
            }),
            "t1"
        )
        .unwrap_err(),
        AuthFail::NotHello
    );
    assert_eq!(auth_line("lixo", "t1").unwrap_err(), AuthFail::BadLine);
}

#[test]
fn entry_comes_back_as_it_was_written() {
    assert!(read_entry(None).is_none(), "ausente → None");
    let e1 = entry(1234, "aa", 42, "t1");
    assert_eq!(read_entry(Some(&entry_text(&e1))), Some(e1));
    let e2 = entry(5555, "bb", 43, "t2");
    assert_eq!(read_entry(Some(&entry_text(&e2))), Some(e2));
    assert!(read_entry(Some("{lixo")).is_none());
    assert!(read_entry(Some(r#"{"port":70000,"token":"a","pid":1,"started_at":""}"#)).is_none());
    assert!(daemon_json_path().ends_with("daemon.json"));
}

#[test]
fn entry_validade_por_pid_injetado() {
    let ok = entry(9, "hex32", 123, "t");
    assert!(daemon_entry_valid(&ok, true), "tudo presente + pid vivo");
    assert!(!daemon_entry_valid(&ok, false), "pid morto → inválida (stale)");
    assert!(!daemon_entry_valid(&entry(0, "hex32", 123, "t"), true));
    assert!(!daemon_entry_valid(&entry(9, "  ", 123, "t"), true));
    assert!(!daemon_entry_valid(&entry(9, "hex32", 0, "t"), true));
}

#[test]
fn token_gerado_e_hex_32_bytes() {
    let t = generate_token().unwrap();
    assert_eq!(t.len(), 64, "32 bytes = 64 chars hex");
    assert!(t.chars().all(|c| c.is_ascii_hexdigit()));
    assert_ne!(generate_token().unwrap(), t, "entropia: dois tokens diferem");
}

#[test]
fn token_is_two_digits_a_byte() {
    assert_eq!(hex_token(&[0, 15, 16, 255]), "000f10ff");
    assert_eq!(hex_token(&[]), "");
}

#[test]
fn processes_are_told_apart_by_their_quotes() {
    assert!(lists_process("\"node.exe\",\"1234\",\"Console\"", 1234));
    assert!(!lists_process("\"node.exe\",\"1234\",\"Console\"", 123));
    assert!(!lists_process("\"0\"", 0));
}

#[test]
fn decide_transport_pura_tres_casos_da_spec() {
    assert_eq!(
        decide_transport(true, true, true),
        TransportKind::Embedded,
        "--no-daemon vence tudo → Embedded"
    );
    assert_eq!(
        decide_transport(false, true, true),
        TransportKind::Daemon,
        "entry válida + conectável → Daemon"
    );
    assert_eq!(
        decide_transport(false, true, false),
        TransportKind::Embedded,
        "entry válida + INconectável → Embedded (fallback)"
    );
    assert_eq!(decide_transport(false, false, false), TransportKind::Embedded);
    assert_eq!(decide_transport(false, false, true), TransportKind::Embedded);
}

#[test]
fn r1_condicional_puro_da_spec() {
    assert!(!r1_resume_may_send(TransportKind::Embedded));
    assert!(r1_resume_may_send(TransportKind::Daemon));
    let fria = SessionError::Runtime(RuntimeError::Rpc(RpcError::Server {
        code: -32031,
        message: "sessão não encontrada neste runtime".into(),
    }));
    assert!(r1_send_err_means_cold(&fria));
    let outra = SessionError::Runtime(RuntimeError::Rpc(RpcError::Server {
        code: -32602,
        message: "params".into(),
    }));
    assert!(!r1_send_err_means_cold(&outra));
    assert!(!r1_send_err_means_cold(&SessionError::Io("pipe".into())));
}

#[test]
fn cold_session_survives_the_daemon() {
    match client_line(&encode_err(9, "sessão fria", Some(-32031))) {
        ClientLine::Answer { id, result: Err(e) } => {
            assert_eq!(id, 9);
            assert!(r1_send_err_means_cold(&SessionError::Runtime(e)));
        }
        _ => panic!("esperava resposta"),
    }
    match client_line(&encode_ok(2, j(r#"{"echo":"x"}"#))) {
        ClientLine::Answer { id, result: Ok(v) } => {
            assert_eq!(id, 2);
            assert_eq!(v.str_at("echo"), Some("x"));
        }
        _ => panic!("esperava resposta"),
    }
}

#[test]
fn events_reach_the_client() {
    let line = event_line(&j(r#"{"method":"session/updated","params":{"n":1}}"#));
    match client_line(&line) {
        ClientLine::Event(v) => {
            assert_eq!(v.str_at("method"), Some("session/updated"));
            assert_eq!(v.get2("params", "n").unwrap().as_u64(), Some(1));
        }
        _ => panic!("esperava evento"),
    }
}

#[test]
fn a_client_is_greeted_and_heard() {
    let hello = encode_client_msg(&hello_msg(&entry(1, "TOK", 1, "t"), "C:/ws"));
    let h = greet(&hello, "TOK").ok().unwrap();
    assert_eq!(h.workspace, "C:/ws");
    let (line, stays) = welcome(&h, true);
    assert!(stays);
    assert!(matches!(client_line(&line), ClientLine::Answer { id: 0, result: Ok(_) }));
    let (line, stays) = welcome(&h, false);
    assert!(!stays);
    match client_line(&line) {
        ClientLine::Answer { id: 0, result: Err(e) } => {
            let m = handshake_result(&Greeted::Refused(e)).unwrap_err();
            assert!(m.contains("ocupado"), "{m}");
        }
        _ => panic!("esperava recusa"),
    }
    assert!(greet(&hello, "OUTRO").is_err());
    assert!(handshake_result(&Greeted::Accepted).is_ok());
    assert!(handshake_result(&Greeted::Silent).is_err());
    assert_eq!(budget_exceeded(300), "handshake excedeu 300ms");
}

#[test]
fn requests_of_a_client() {
    let ws = vec!["b".to_string(), "a".to_string()];
    let call = encode_client_msg(&call_msg(5, "session/send", j(r#"{"x":1}"#), 7));
    match handle_request(&call, "C:/ws", &ws, 9, "1.0") {
        RequestStep::Call { id, rpc, params, timeout_secs } => {
            assert_eq!((id, timeout_secs), (5, 7));
            assert_eq!(rpc, "session/send");
            assert_eq!(params.u64_at("x"), Some(1));
        }
        _ => panic!("esperava chamada"),
    }
    match handle_request(&call, "", &ws, 9, "1.0") {
        RequestStep::Answer(line) => match parse_daemon_line(&line).unwrap() {
            DaemonLine::Resp { ok, error, .. } => {
                assert!(!ok);
                assert!(error.is_some());
            }
            _ => panic!("esperava resposta"),
        },
        _ => panic!("sem workspace não há chamada"),
    }
    let status = encode_client_msg(&request_msg(6, "status", Json::Null));
    match handle_request(&status, "", &ws, 91, "1.2.3") {
        RequestStep::Answer(line) => match parse_daemon_line(&line).unwrap() {
            DaemonLine::Resp { id, ok, result, .. } => {
                assert_eq!((id, ok), (6, true));
                assert_eq!(result.u64_at("uptime_secs"), Some(91));
                let list = result.array_at("workspaces").unwrap();
                assert_eq!(list[0].as_str(), Some("a"), "em ordem");
                assert_eq!(list.len(), 2);
            }
            _ => panic!("esperava resposta"),
        },
        _ => panic!("esperava resposta"),
    }
    let bye = encode_client_msg(&request_msg(7, "shutdown", Json::Null));
    assert!(matches!(
        handle_request(&bye, "", &ws, 0, "1"),
        RequestStep::Shutdown(_)
    ));
    assert!(matches!(
        handle_request(&encode_client_msg(&request_msg(8, "ping", Json::Null)), "", &ws, 0, "1"),
        RequestStep::Answer(_)
    ));
}

#[test]
fn a_dead_runtime_is_replaced_once() {
    let dead = || Err(RuntimeError::Exited(Some(1), "boom".into()));
    assert!(matches!(after_call(3, dead(), true), AfterCall::Recreate));
    match after_call(3, Ok(j("{}")), false) {
        AfterCall::Reply(line) => assert!(matches!(
            parse_daemon_line(&line).unwrap(),
            DaemonLine::Resp { id: 3, ok: true, .. }
        )),
        _ => panic!("esperava resposta"),
    }
    let line = after_retry(3, Ok(dead()));
    assert!(matches!(
        parse_daemon_line(&line).unwrap(),
        DaemonLine::Resp { id: 3, ok: false, .. }
    ));
    let line = after_retry(3, Err("sem node".to_string()));
    match parse_daemon_line(&line).unwrap() {
        DaemonLine::Resp { ok, error, .. } => {
            assert!(!ok);
            assert!(error.unwrap().contains("sem node"));
        }
        _ => panic!("esperava resposta"),
    }
}

#[test]
fn one_daemon_at_a_time() {
    let e = entry(9, "tok", 42, "t");
    assert!(may_serve(Some(&e), true, true).unwrap_err().contains("pid 42"));
    assert!(may_serve(Some(&e), true, false).is_ok(), "não responde");
    assert!(may_serve(Some(&e), false, true).is_ok(), "pid morto");
    assert!(may_serve(None, false, false).is_ok());
}

#[test]
fn stopping_is_reported() {
    assert!(stop_report(&Stopping::Stopped, "/d/daemon.json", 42).unwrap().contains("pid 42"));
    assert!(stop_report(&Stopping::NoEntry, "/d/daemon.json", 0)
        .unwrap()
        .contains("sem daemon rodando"));
    assert!(stop_report(&Stopping::NoAnswer("x".into()), "/d", 42).is_err());
    assert!(stop_report(&Stopping::Refused(RuntimeError::Io("x".into())), "/d", 42).is_err());
}

#[test]
fn only_one_starts_the_daemon() {
    assert_eq!(lock_step(Created::Made, false, false), LockStep::Won);
    assert_eq!(lock_step(Created::Exists, true, false), LockStep::Lost);
    assert_eq!(lock_step(Created::Exists, false, false), LockStep::Retry);
    assert_eq!(lock_step(Created::Exists, false, true), LockStep::Lost);
    assert_eq!(lock_step(Created::Failed, false, false), LockStep::Lost);
    assert!(daemon_lock_path().ends_with("daemon.lock"));
    assert_eq!(lock_owner_pid(Some("123\n")), Some(123));
    assert_eq!(lock_owner_pid(Some("4294967296")), None);
    assert_eq!(lock_owner_pid(Some("lixo")), None);
    assert_eq!(lock_owner_pid(None), None);
}

#[test]
fn a_started_daemon_is_waited_for() {
    assert_eq!(transport_step(true, true), TransportStep::Embed, "--no-daemon");
    assert_eq!(transport_step(false, true), TransportStep::Connect);
    assert_eq!(transport_step(false, false), TransportStep::Start);
    let e = Some(entry(9, "tok", 42, "t"));
    assert!(fresh_entry(&None, &e));
    assert!(!fresh_entry(&e, &e));
    assert!(!fresh_entry(&e, &None));
    assert!(fresh_entry(&e, &Some(entry(10, "tok", 43, "t"))));
    assert_eq!(start_step(1, true), StartStep::Connected);
    assert_eq!(start_step(1, false), StartStep::Again);
    assert_eq!(start_step(AUTOSTART_TRIES, false), StartStep::GaveUp);
    assert!(!start_failed().is_empty());
}

#[test]
fn answers_are_single_lines_of_known_fields() {
    let none: Vec<String> = Vec::new();
    let ask = |line: &str, ws: &str| match handle_request(line, ws, &none, 1, "0") {
        RequestStep::Answer(s) | RequestStep::Shutdown(s) => s,
        RequestStep::Call { .. } => panic!("sem chamada"),
    };
    let line = |m: &str| format!("{{\"id\":7,\"method\":\"{m}\"}}");
    assert_eq!(ask(&line("ping"), ""), r#"{"id":7,"ok":true,"result":"pong"}"#);
    assert_eq!(ask(&line("shutdown"), ""), r#"{"id":7,"ok":true,"result":"shutting down"}"#);
    assert_eq!(
        ask(&line("status"), ""),
        r#"{"id":7,"ok":true,"result":{"uptime_secs":1,"version":"0","workspaces":[]}}"#
    );
    assert_eq!(
        ask(&line("call"), ""),
        r#"{"error":"hello sem workspace — conexão não faz call","id":7,"ok":false}"#
    );
    assert_eq!(
        ask(&line("x"), ""),
        r#"{"error":"método desconhecido: x","id":7,"ok":false}"#
    );
    assert!(ask("lixo\n", "").starts_with(r#"{"error":"linha não é ClientMsg: "#));
}
