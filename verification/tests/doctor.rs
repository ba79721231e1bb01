use zcode_cli::commands::CmdError;
use zcode_cli::config::{ConfigError, FileConfig};
use zcode_cli::doctor::{
    check_daemon_state, check_exe, check_gui_models, check_node, check_toml_text, check_zcode,
    daemon_state_asked, daemon_state_known, doctor_output, fix_body, fix_needed, fix_report,
    format_human, format_json, overall_exit, parse_gui_models, parse_node_version, Check,
    DaemonState, Status,
};
use zcode_cli::daemon::DaemonEntry;
use zcode_cli::json::read_json;
use zcode_cli::paths::{gui_models_path, log_file_path};

#[test]
fn node_version_parse() {
    assert_eq!(parse_node_version("v24.13.1\n"), Some("v24.13.1".into()));
    assert_eq!(parse_node_version("22.1.0"), Some("22.1.0".into()));
    assert!(parse_node_version("").is_none());
    assert!(parse_node_version("erro feio {{").is_none());
}

#[test]
fn toml_estados() {
    assert_eq!(check_toml_text(None).status, Status::Warn);
    let ok = check_toml_text(Some("[default]\nmode = \"build\"\n"));
    assert_eq!(ok.status, Status::Pass);
    let bad = check_toml_text(Some("[default\nmode = = ="));
    assert_eq!(bad.status, Status::Fail);
    assert!(bad.detail.contains("TOML inválido"));
}

#[test]
fn modelos_gui_sem_segredos() {
    let fixture = r#"{"model":{"main":"zai/glm-5.3-Flash","lite":"zai/glm-5.3-Flash"},
            "provider":{"zai":{"kind":"anthropic","options":{"apiKey":"SEGREDO","baseURL":"https://x"}}}}"#;
    let ms = parse_gui_models(fixture).unwrap();
    let joined = ms.join(" ");
    assert!(joined.contains("model.main=zai/glm-5.3-Flash"));
    assert!(joined.contains("provider.zai"));
    assert!(!joined.contains("SEGREDO"));
    assert!(!joined.contains("apiKey"));
    assert!(parse_gui_models("{}").is_err());
    assert!(parse_gui_models("lixo").is_err());
    let c = check_gui_models(Some(fixture));
    assert_eq!(c.status, Status::Pass);
    assert!(!c.detail.contains("SEGREDO"));
    assert_eq!(check_gui_models(None).status, Status::Warn);
}

#[test]
fn exit_e_formatos() {
    let ok = vec![Check { name: "a", status: Status::Pass, detail: "x".into() }];
    let warn = vec![Check { name: "a", status: Status::Warn, detail: "x".into() }];
    let fail = vec![
        Check { name: "a", status: Status::Pass, detail: "x".into() },
        Check { name: "b", status: Status::Fail, detail: "y".into() },
    ];
    assert_eq!(overall_exit(&ok), 0);
    assert_eq!(overall_exit(&warn), 0);
    assert_eq!(overall_exit(&fail), 1);
    let h = format_human(&fail);
    assert!(h.contains("FALHA") && h.contains("zcode-cli doctor"));
    let v = format_json(&fail);
    assert_eq!(v.get("ok").unwrap().as_bool(), Some(false));
    assert_eq!(v.array_at("checks").unwrap()[1].str_at("status"), Some("fail"));
}

#[test]
fn daemon_check_nunca_falha_e_informa() {
    let c = check_daemon_state(&DaemonState::Rodando { pid: 42, uptime_secs: 91, workspaces: 2 });
    assert_eq!(c.status, Status::Pass);
    assert!(c.detail.contains("pid 42") && c.detail.contains("91s") && c.detail.contains("2"));

    assert_eq!(check_daemon_state(&DaemonState::Ausente).status, Status::Warn);
    assert!(check_daemon_state(&DaemonState::Ausente).detail.contains("embutido"));

    let st = check_daemon_state(&DaemonState::Obsoleto { pid: 7 });
    assert_eq!(st.status, Status::Warn);
    assert!(st.detail.contains("obsoleto"));

    let sr = check_daemon_state(&DaemonState::SemResposta {
        pid: 9,
        erro: "handshake recusado".into(),
    });
    assert_eq!(sr.status, Status::Warn);
    assert!(sr.detail.contains("não responde") && sr.detail.contains("handshake recusado"));
}

#[test]
fn state_of_the_daemon() {
    let e = DaemonEntry { port: 9, token: "t".into(), pid: 7, started_at: "x".into() };
    assert_eq!(daemon_state_known(&None, false), Some(DaemonState::Ausente));
    assert_eq!(
        daemon_state_known(&Some(e.clone()), false),
        Some(DaemonState::Obsoleto { pid: 7 })
    );
    assert_eq!(daemon_state_known(&Some(e), true), None);
    let v = read_json(r#"{"uptime_secs":5,"workspaces":["a","b"]}"#).unwrap();
    assert_eq!(
        daemon_state_asked(7, &Ok(v)),
        DaemonState::Rodando { pid: 7, uptime_secs: 5, workspaces: 2 }
    );
    assert_eq!(
        daemon_state_asked(7, &Err("mudo".into())),
        DaemonState::SemResposta { pid: 7, erro: "mudo".into() }
    );
}

#[test]
fn node_and_runtime_checks() {
    assert_eq!(check_node("node", Some("v22.0.0\n")).status, Status::Pass);
    assert_eq!(check_node("node", Some("???")).status, Status::Fail);
    let c = check_node("nodo", None);
    assert_eq!(c.status, Status::Fail);
    assert!(c.detail.contains("node=nodo"));
    let cfg = FileConfig::default();
    let c = check_zcode(&None, &None, &cfg, &Ok("/opt/zcode.cjs".into()));
    assert_eq!(c.status, Status::Pass);
    assert!(c.detail.starts_with("/opt/zcode.cjs"));
    let e: Result<String, ConfigError> = Err(ConfigError::NotFound("nada".into()));
    assert_eq!(check_zcode(&None, &None, &cfg, &e).status, Status::Fail);
}

#[test]
fn fixing_the_settings() {
    assert!(fix_needed(None));
    assert!(fix_needed(Some("[ui\n")));
    assert!(!fix_needed(Some(&fix_body())));
    assert!(fix_report("/c", None).contains("nada a fazer"));
    assert_eq!(fix_report("/c", Some(Ok(()))), "config.toml escrito em /c");
    assert!(fix_report("/c", Some(Err("x".into()))).contains("falha ao gravar"));
    let fail = vec![Check { name: "b", status: Status::Fail, detail: "y".into() }];
    let (text, r) = doctor_output(&fail, &vec!["feito".to_string()], false);
    assert!(text.contains("feito"));
    assert!(matches!(r, Err(CmdError::Config(_))));
    let (text, r) = doctor_output(&[], &Vec::new(), true);
    assert!(r.is_ok());
    assert_eq!(read_json(&text).unwrap().get("ok").unwrap().as_bool(), Some(true));
}

#[test]
fn places_of_the_files() {
    assert!(log_file_path().ends_with("zcode-cli/log.txt"));
    assert!(!gui_models_path().is_empty());
}

#[test]
fn the_program_tells_where_it_lies() {
    let c = check_exe(&Ok("/bin/zcode-cli".to_string()));
    assert_eq!((c.name, c.status, c.detail.as_str()), ("binário", Status::Pass, "/bin/zcode-cli"));
    let c = check_exe(&Err("negado".to_string()));
    assert_eq!((c.name, c.status, c.detail.as_str()), ("binário", Status::Warn, "negado"));
}
