use zcode_cli::json::{read_json, read_toml, write_json, write_json_pretty, Field, Json};
use zcode_cli::rpc::{
    build_request, build_server_response, is_client_response, is_server_request, parse_line,
    response_id, to_line, RequestId, RpcError,
};
use zcode_cli::runtime::{
    call_result, classify_line, exit_to_text, may_call, push_stderr, request_line, spawn_error,
    STDERR_TAIL_BYTES, ChildState, Inbound, RuntimeError, Waited,
};
use zcode_cli::server_requests::answer;

fn j(text: &str) -> Json {
    read_json(text).unwrap()
}

#[test]
fn request_sem_jsonrpc_e_id_numerico() {
    let r = build_request(1, "session/create", j("{}"));
    assert_eq!(r.u64_at("id"), Some(1));
    assert_eq!(r.str_at("method"), Some("session/create"));
    assert!(r.get("jsonrpc").is_none(), "não deve ter campo jsonrpc");
}

#[test]
fn server_request_id_string() {
    let v = j(
        r#"{"id":"server-1","method":"session/requestRuntimePreferences","params":{"sessionId":"sess_x"}}"#,
    );
    assert!(is_server_request(&v));
    assert!(!is_client_response(&v));
    let resp = build_server_response(
        &RequestId::Str("server-1".into()),
        j(r#"{"nativeSearchEnhancementsEnabled": false}"#),
    );
    assert_eq!(resp.str_at("id"), Some("server-1"));
    let pref = resp.get2("result", "nativeSearchEnhancementsEnabled").unwrap();
    assert_eq!(pref.as_bool(), Some(false));
}

#[test]
fn linha_invalida_da_erro() {
    assert!(parse_line("não json").is_err());
}

#[test]
fn runtime_preferences_tem_campo_obrigatorio() {
    let r = answer("session/requestRuntimePreferences", &Json::Null);
    assert_eq!(r.get("nativeSearchEnhancementsEnabled").unwrap().as_bool(), Some(false));
}

#[test]
fn metodo_desconhecido_nao_trava() {
    let r = answer("futuro/metodo", &Json::Null);
    assert!(r.is_object());
}

#[test]
fn lines_carry_values_unchanged() {
    let v = j(r#"{"texto":"a\nb \"c\"","n":[1,-2,3.5,true,null]}"#);
    let line = to_line(&v);
    assert!(!line.contains('\n'));
    let back = parse_line(&line).unwrap();
    assert_eq!(back.str_at("texto"), Some("a\nb \"c\""));
    let list = back.array_at("n").unwrap();
    assert_eq!(list[0].as_u64(), Some(1));
    assert_eq!(list[1].as_i64(), Some(-2));
    assert!(list[2].as_u64().is_none());
    assert_eq!(list[3].as_bool(), Some(true));
    match parse_line("{lixo") {
        Err(RpcError::BadLine(l)) => assert_eq!(l, "{lixo"),
        _ => panic!("linha ilegível"),
    }
}

#[test]
fn pretty_text_is_indented_and_reads_back() {
    let v = j(r#"{"a":{"b":1}}"#);
    let s = write_json_pretty(&v);
    assert_eq!(s, "{\n  \"a\": {\n    \"b\": 1\n  }\n}");
    assert_eq!(write_json(&j(&s)), r#"{"a":{"b":1}}"#);
}

#[test]
fn integers_at_their_limits() {
    let v = j(r#"[18446744073709551615,-9223372036854775808,1.0]"#);
    let list = v.as_array().unwrap();
    assert_eq!(list[0].as_u64(), Some(u64::MAX));
    assert_eq!(list[0].as_i64(), None);
    assert_eq!(list[1].as_i64(), Some(i64::MIN));
    assert_eq!(list[1].as_u64(), None);
    assert_eq!(list[2].as_u64(), None);
}

#[test]
fn toml_is_read_as_a_tree() {
    let v = read_toml("[ui]\ntheme = \"dark\"\nstream_refresh_ms = 500\n").unwrap();
    assert_eq!(v.get2("ui", "theme").unwrap().as_str(), Some("dark"));
    assert_eq!(v.get2("ui", "stream_refresh_ms").unwrap().as_u64(), Some(500));
    assert!(read_toml("[ui\n").is_err());
}

#[test]
fn lines_of_the_runtime_are_told_apart() {
    match classify_line(r#"{"id":3,"result":{"ok":true}}"#) {
        Inbound::Outcome { id, result: Ok(v) } => {
            assert_eq!(id, 3);
            assert_eq!(v.get("ok").unwrap().as_bool(), Some(true));
        }
        _ => panic!("resposta"),
    }
    match classify_line(r#"{"id":4,"error":{"code":-32031,"message":"fria"}}"#) {
        Inbound::Outcome { id, result: Err(RpcError::Server { code, message }) } => {
            assert_eq!((id, code), (4, -32031));
            assert_eq!(message, "fria");
        }
        _ => panic!("erro do servidor"),
    }
    assert!(matches!(
        classify_line(r#"{"id":"server-1","method":"session/requestRuntimePreferences"}"#),
        Inbound::Reply(_)
    ));
    match classify_line(r#"{"method":"session/updated","params":{"n":1}}"#) {
        Inbound::Event(v) => assert_eq!(v.str_at("method"), Some("session/updated")),
        _ => panic!("evento"),
    }
    assert!(matches!(classify_line("lixo"), Inbound::NotJson));
    assert!(matches!(classify_line("   "), Inbound::Blank));
    assert!(matches!(classify_line("{}"), Inbound::Unknown));
}

#[test]
fn errors_of_a_call() {
    let e = call_result(Waited::TimedOut, 30, "session/send").unwrap_err();
    assert_eq!(e, RuntimeError::Timeout(30, "session/send".into()));
    assert!(may_call(&ChildState::Running, "x").is_ok());
    assert_eq!(
        may_call(&ChildState::Ended(Some(1)), "boom").unwrap_err(),
        RuntimeError::Exited(Some(1), "boom".into())
    );
    assert_eq!(exit_to_text(Some(1)), "Some(1)");
    assert_eq!(exit_to_text(None), "None");
    let line = request_line(9, "session/list", j(r#"{"limit":5}"#));
    assert!(line.ends_with('\n'));
    let v = j(line.trim_end());
    assert_eq!(response_id(&v), Some(9));
    assert_eq!(v.get2("params", "limit").unwrap().as_u64(), Some(5));
    assert!(matches!(spawn_error(true, "node", "x"), RuntimeError::NodeMissing(_)));
}

#[test]
fn kept_stderr_stays_short() {
    let mut kept = String::new();
    for i in 0..2000 {
        if let Some(k) = push_stderr(&kept, &format!("linha {i} do erro")) {
            kept = k;
        }
    }
    assert!(kept.len() <= STDERR_TAIL_BYTES);
    assert!(kept.contains("linha 1999"));
    assert!(!kept.contains("linha 0 "));
}

#[test]
fn of_two_entries_with_one_key_the_later_is_written() {
    let field = |n: u64| Field { key: "a".to_string(), value: Json::Unsigned(n) };
    let other = Field { key: "b".to_string(), value: Json::Null };
    assert_eq!(write_json(&Json::Obj(vec![field(1), other, field(2)])), r#"{"a":2,"b":null}"#);
}

#[test]
fn fractions_are_handed_on_as_they_were_read() {
    for t in ["0.1", "1e21", "-0.0", "123456789.12345678", "2.2250738585072014e-308", "[1.5,{}]"] {
        let there: serde_json::Value = serde_json::from_str(t).unwrap();
        let here = read_json(t).unwrap();
        assert_eq!(write_json(&here), there.to_string());
        assert_eq!(write_json(&here.dup()), there.to_string());
    }
}
