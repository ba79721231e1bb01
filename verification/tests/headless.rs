use zcode_cli::commands::input::parse_input;
use zcode_cli::commands::repl::{
    listed_ids, readonly_step, repl_answer, repl_diff, repl_exported, repl_reply, repl_report,
    repl_step, response_object, ReplEnv, ReplStep, Said,
};
use zcode_cli::commands::run::{
    chosen_row, continue_target, created_entry, created_id, fork_call, fork_failed, fork_id,
    fork_report,
    init_report, load_config_warn, new_report, offer_rows, one_shot_report, raw_workspace,
    reading_said, resolve_usage_target, resolve_workspace, resume_target, route, sessions_report,
    usage_report, AfterReading, Choice, Cmd, ResumeTarget, Resuming, Route,
};
use zcode_cli::commands::snapshot::WorkspaceDiff;
use zcode_cli::commands::tasks::Task;
use zcode_cli::commands::CmdError;
use zcode_cli::config::FileConfig;
use zcode_cli::daemon_client::TransportKind;
use zcode_cli::json::{read_json, write_json, Json};
use zcode_cli::rpc::RpcError;
use zcode_cli::runtime::RuntimeError;
use zcode_cli::session::extract::Usage;
use zcode_cli::session::history::HistoryEntry;
use zcode_cli::session::listing::{parse_session_list, SessionRow};
use zcode_cli::session::SessionError;

fn j(text: &str) -> Json {
    read_json(text).unwrap()
}

fn entry(id: &str, ws: &str) -> HistoryEntry {
    HistoryEntry {
        session_id: id.into(),
        title: "t".into(),
        workspace: ws.into(),
        model: "m".into(),
        updated_at: "2026".into(),
    }
}

fn rows() -> Vec<SessionRow> {
    parse_session_list(&j(r#"{"sessions":[{"sessionId":"a"},{"sessionId":"b"}]}"#))
}

#[test]
fn ux_json_valido_one_shot_shape() {
    let v = response_object("sess_1", "ok");
    let s = write_json(&v);
    assert!(read_json(&s).is_ok());
    assert_eq!(v.str_at("sessionId"), Some("sess_1"));
}

#[test]
fn fase5_json_estendido_shape() {
    let text = one_shot_report(
        "sess_1",
        "ok",
        &Usage { input_tokens: 1, ..Default::default() },
        &vec!["Bash".to_string()],
        &Vec::new(),
        &Some("w".to_string()),
        &WorkspaceDiff { created: vec!["novo.txt".into()], modified: vec![] },
        &Some("s".to_string()),
        true,
    );
    let v = j(&text);
    assert_eq!(v.str_at("response"), Some("ok"));
    assert_eq!(v.get2("usage", "inputTokens").unwrap().as_u64(), Some(1));
    let diff = v.get("diff").unwrap();
    assert_eq!(diff.array_at("created").unwrap()[0].as_str(), Some("novo.txt"));
    assert_eq!(diff.str_at("gitStat"), Some("s"));
    let tools = v.get("tools").unwrap();
    assert_eq!(tools.array_at("allowed").unwrap()[0].as_str(), Some("Bash"));
    assert!(tools.get("warning").unwrap().is_string());
    let plain = one_shot_report(
        "sess_1",
        "ok",
        &Usage::default(),
        &Vec::new(),
        &Vec::new(),
        &None,
        &WorkspaceDiff::default(),
        &None,
        false,
    );
    assert_eq!(plain, "ok");
}

#[test]
fn routes_of_a_command_line() {
    let p = || Some("oi".to_string());
    assert_eq!(
        route(Some(Cmd::Doctor { fix: true }), p(), true),
        Route::Command(Cmd::Doctor { fix: true })
    );
    assert_eq!(route(None, p(), false), Route::OneShot("oi".into()));
    assert_eq!(route(None, p(), true), Route::ContinueWith("oi".into()));
    assert_eq!(route(None, None, true), Route::Continue);
    assert_eq!(route(None, None, false), Route::Repl);
}

#[test]
fn workspace_of_a_command() {
    let mut cfg = FileConfig::default();
    cfg.default.workspace = "D:\\proj".into();
    assert_eq!(resolve_workspace(None, &cfg, None), "D:/proj");
    assert_eq!(resolve_workspace(Some("C:\\x"), &cfg, None), "C:/x");
    assert_eq!(raw_workspace(Some("y"), &cfg), "y");
}

#[test]
fn unreadable_settings_are_told() {
    let (cfg, w) = load_config_warn(Some("[ui\n"), "/w");
    assert_eq!(cfg.ui.theme, "dark");
    assert!(w.unwrap().starts_with("aviso: config.toml inválido"));
    let (cfg, w) = load_config_warn(Some("[ui]\ntheme = \"retro\"\n"), "/w");
    assert_eq!(cfg.ui.theme, "retro");
    assert!(w.is_none());
    assert!(load_config_warn(None, "/w").1.is_none());
}

#[test]
fn sessions_to_continue() {
    let h = vec![entry("s1", "w")];
    assert_eq!(continue_target(&h, "w").unwrap(), "s1");
    assert_eq!(
        continue_target(&h, "x").unwrap_err().to_text(),
        "nenhuma sessão anterior em x"
    );
    assert!(continue_target(&vec![entry(" ", "w")], "w").is_err());
    assert_eq!(resolve_usage_target(&Some("z".into()), &h, "w").unwrap(), "z");
    assert_eq!(resolve_usage_target(&None, &h, "w").unwrap(), "s1");
    assert!(resolve_usage_target(&None, &h, "x").unwrap_err().to_text().contains("usage <id>"));
    assert!(matches!(resume_target(&None, false, &h, "w"), ResumeTarget::List));
    match resume_target(&None, true, &h, "w") {
        ResumeTarget::Known(s) => assert_eq!(s, "s1"),
        _ => panic!("a última da pasta"),
    }
    assert!(matches!(resume_target(&None, true, &h, "x"), ResumeTarget::Fail(_)));
    assert!(matches!(resume_target(&Some(" ".into()), false, &h, "w"), ResumeTarget::Fail(_)));
}

#[test]
fn choosing_a_session() {
    match offer_rows(&rows(), true, false) {
        Choice::Ask { list, question } => {
            assert!(list.contains("1) a"));
            assert_eq!(question, "número da sessão (1-2): ");
        }
        _ => panic!("pergunta"),
    }
    match offer_rows(&rows(), false, false) {
        Choice::Refuse { says, error } => {
            assert_eq!(says.len(), 2);
            assert!(error.to_text().contains("não interativo"));
        }
        _ => panic!("sem terminal não há pergunta"),
    }
    match offer_rows(&rows(), true, true) {
        Choice::Refuse { says, .. } => match &says[0] {
            Said::Out(t) => assert_eq!(j(t).str_at("action"), Some("pick")),
            _ => panic!("lista para programas"),
        },
        _ => panic!("programa não responde"),
    }
    match offer_rows(&Vec::new(), true, false) {
        Choice::Refuse { error, .. } => assert!(error.to_text().contains("nenhuma sessão")),
        _ => panic!("nada a escolher"),
    }
    assert_eq!(chosen_row(&rows(), " 2\n").unwrap(), "b");
    assert_eq!(chosen_row(&rows(), "0").unwrap_err().to_text(), "fora do intervalo 1-2");
    assert_eq!(chosen_row(&rows(), "3").unwrap_err().to_text(), "fora do intervalo 1-2");
    assert_eq!(
        chosen_row(&rows(), "a\"b").unwrap_err().to_text(),
        "entrada inválida: \"a\\\"b\""
    );
}

fn resuming(prompt: Option<&str>, json: bool, kind: TransportKind) -> Resuming {
    Resuming {
        target: "alvo".into(),
        prompt: prompt.map(|p| p.to_string()),
        json,
        by_command: true,
        kind,
    }
}

#[test]
fn a_resumed_session_is_read_first() {
    let r = resuming(Some("oi"), false, TransportKind::Embedded);
    assert_eq!(r.start().method, "session/resume");
    assert_eq!(r.resumed(&Ok(j("{}"))).unwrap(), "alvo");
    assert_eq!(r.resumed(&Ok(j(r#"{"session":{"sessionId":"novo"}}"#))).unwrap(), "novo");
    assert!(matches!(
        r.resumed(&Err(RuntimeError::Io("x".into()))),
        Err(CmdError::Runtime(_))
    ));
    match r.after_reading("s") {
        AfterReading::Ignore(says) => match &says[0] {
            Said::Warn(t) => assert!(t.contains("prompt ignorado")),
            _ => panic!("aviso"),
        },
        _ => panic!("fora do daemon não se envia"),
    }
    let d = resuming(Some("oi"), true, TransportKind::Daemon);
    match d.after_reading("s") {
        AfterReading::Send(p) => assert_eq!(p, "oi"),
        _ => panic!("no daemon se tenta"),
    }
    assert!(matches!(
        resuming(None, false, TransportKind::Daemon).after_reading("s"),
        AfterReading::Prompt
    ));
    let says = d.after_send("s", "oi", &Ok("resposta".into()));
    match &says[0] {
        Said::Out(t) => assert_eq!(j(t).str_at("response"), Some("resposta")),
        _ => panic!("resposta"),
    }
    let cold = SessionError::Runtime(RuntimeError::Rpc(RpcError::Server {
        code: -32031,
        message: "fria".into(),
    }));
    let says = d.after_send("s", "oi", &Err(cold));
    assert_eq!(says.len(), 2);
    match (&says[0], &says[1]) {
        (Said::Warn(t), Said::Out(v)) => {
            assert!(t.contains("sessão fria neste runtime"));
            assert_eq!(j(v).str_at("ignoredPrompt"), Some("oi"));
            assert_eq!(j(v).get("readOnly").unwrap().as_bool(), Some(true));
        }
        _ => panic!("aviso e estado"),
    }
    let says = d.after_send("s", "oi", &Err(SessionError::Io("pipe".into())));
    match &says[0] {
        Said::Warn(t) => assert!(t.contains("envio pós-resume falhou")),
        _ => panic!("aviso"),
    }
    let says = reading_said("s", &Err(SessionError::Io("x".into())));
    assert!(matches!(&says[0], Said::Warn(t) if t.contains("leitura da sessão falhou")));
    assert!(matches!(&says[1], Said::Out(_)));
}

#[test]
fn reports() {
    let u = Usage {
        total_tokens: 10,
        input_tokens: 7,
        output_tokens: 3,
        reasoning_tokens: 1,
        model_request_count: 2,
        ..Default::default()
    };
    assert_eq!(usage_report("s", &u, false), "usage s: total=10 in=7 out=3 reasoning=1 reqs=2");
    assert_eq!(j(&usage_report("s", &u, true)).u64_at("totalTokens"), Some(10));
    assert_eq!(new_report("s", "w", false), "sessão criada: s em w");
    assert_eq!(j(&new_report("s", "w", true)).str_at("workspace"), Some("w"));
    let v = j(r#"{"session":{"sessionId":"n"}}"#);
    assert_eq!(fork_id(&v), "n");
    assert_eq!(fork_id(&j("{}")), "");
    assert_eq!(fork_report("o", &v, false), "fork: o → n");
    assert!(fork_failed(&RuntimeError::Io("x".into())).to_text().contains("R4"));
    assert_eq!(created_id(&v).unwrap(), "n");
    assert!(created_id(&j("{}")).is_err());
    let e = created_entry(
        &j(r#"{"session":{"title":"plano"}}"#),
        "n",
        true,
        &Some("m".into()),
        "w",
        "t",
    );
    assert_eq!((e.title.as_str(), e.model.as_str()), ("plano", "m"));
    let t = init_report("/c", "", false);
    assert!(t.starts_with("config gravado em /c\n"));
    assert!(t.ends_with("próximo: zcode-cli doctor"));
    assert_eq!(
        j(&init_report("/c", "/z", true)).str_at("runtimeHint"),
        Some("/z")
    );
    assert_eq!(
        sessions_report(&j("{}"), &vec![entry("s1", "w")], 5, false),
        "histórico local:\ns1  t  w"
    );
    assert!(sessions_report(&j(r#"{"sessions":[{"sessionId":"q"}]}"#), &Vec::new(), 5, false)
        .contains("q"));
}

fn env() -> ReplEnv {
    ReplEnv {
        created: j(r#"{"projection":{"contextWindow":10,"contextUsed":5},"todos":["x"]}"#),
        ids: vec!["a".into(), "b".into()],
        new_ws: "C:/w".into(),
        new_is_dir: true,
    }
}

fn out_of(step: ReplStep) -> String {
    match step {
        ReplStep::Say(Said::Out(t)) => t,
        _ => panic!("esperava saída"),
    }
}

fn warn_of(step: ReplStep) -> String {
    match step {
        ReplStep::Say(Said::Warn(t)) => t,
        _ => panic!("esperava aviso"),
    }
}

#[test]
fn lines_in_a_warm_session() {
    let e = env();
    let step = |line: &str| repl_step(&parse_input(line), &e);
    assert!(matches!(step(""), ReplStep::Again));
    assert!(matches!(step("/exit"), ReplStep::Leave));
    assert_eq!(out_of(step("/context")), "contexto: 5/10 tokens");
    assert_eq!(out_of(step("/todos")), "[ ] x");
    assert!(out_of(step("/queue")).contains("indisponível"));
    assert!(warn_of(step("/mode")).contains("uso: /mode"));
    assert!(matches!(step("/compact"), ReplStep::Ask(_)));
    assert!(matches!(step("/resume"), ReplStep::Run(Task::Sessions)));
    let t = out_of(step("/resume 2"));
    assert!(t.starts_with("resume 2 → b\n"));
    assert!(t.ends_with("`zcode-cli resume b`."));
    assert_eq!(
        warn_of(step("/resume 3")),
        "resume: 3 fora da lista (use /resume sem id p/ listar)."
    );
    assert!(matches!(step("/resume xyz"), ReplStep::Say(Said::Out(_))));
    assert!(out_of(step("/new C:/w")).contains("zcode-cli --cwd C:/w"));
    assert!(matches!(step("/goal set x"), ReplStep::Run(_) | ReplStep::Say(_)));
    assert!(matches!(step("oi"), ReplStep::Turn(t) if t == "oi"));
    assert!(repl_answer("sim").is_none());
    assert!(repl_answer("não").is_some());
}

#[test]
fn lines_in_a_session_to_read() {
    let ids = vec!["a".to_string()];
    let step = |line: &str, json: bool| readonly_step(&parse_input(line), json, "alvo", &ids);
    assert!(matches!(step("/usage", false), ReplStep::Run(Task::Usage { .. })));
    assert!(matches!(step("/goal", false), ReplStep::Run(Task::Goal { .. })));
    assert!(matches!(step("/goal pause", false), ReplStep::Say(_)));
    assert!(matches!(step("/compact", false), ReplStep::Say(_)));
    assert!(matches!(step("/mode plan", false), ReplStep::Say(_)));
    let v = j(&out_of(step("oi", true)));
    assert_eq!(v.str_at("sessionId"), Some("alvo"));
    match step("/resume 1", false) {
        ReplStep::Run(Task::Switch { id, quente }) => {
            assert_eq!(id, "a");
            assert!(!quente);
        }
        _ => panic!("troca de leitura"),
    }
    match step("/resume outra", false) {
        ReplStep::Run(Task::Switch { id, .. }) => assert_eq!(id, "outra"),
        _ => panic!("id explícito"),
    }
    assert!(warn_of(step("/resume 9", false)).contains("fora da lista"));
    assert!(matches!(step("/exit", false), ReplStep::Leave));
}

#[test]
fn answers_are_told() {
    let list = j(r#"{"sessions":[{"sessionId":"a","title":"t"}]}"#);
    assert_eq!(listed_ids(&list), vec!["a"]);
    assert_eq!(
        repl_report(&Task::Usage { notice: true }, &Ok(j(r#"{"totalTokens":4}"#))),
        Said::Out("total=4 in=0 out=0 reqs=0".into())
    );
    assert_eq!(
        repl_report(&Task::Mode { mode: "plan".into() }, &Ok(j("{}"))),
        Said::Out("modo: plan".into())
    );
    assert_eq!(
        repl_report(&Task::Sessions, &Err("x".into())),
        Said::Warn("sessions falhou: x".into())
    );
    assert_eq!(
        repl_report(&Task::Goal { action: "show".into() }, &Ok(j(r#"{"a":1}"#))),
        Said::Out("{\n  \"a\": 1\n}".into())
    );
    match repl_reply(true, "s", &Ok("r".into())) {
        Said::Out(t) => assert_eq!(j(&t).str_at("response"), Some("r")),
        _ => panic!("resposta"),
    }
    assert_eq!(repl_reply(false, "s", &Ok("r".into())), Said::Out("r".into()));
    assert!(matches!(
        repl_reply(false, "s", &Err(SessionError::Io("x".into()))),
        Said::Warn(t) if t.starts_with("erro: ")
    ));
    assert_eq!(repl_diff(Some("x | 1 +"), "w"), "x | 1 +");
    assert_eq!(repl_diff(None, "w"), "(sem diff git no workspace w)");
    assert_eq!(repl_exported(&Ok("/f".into())), Said::Out("exportado: /f".into()));
    assert_eq!(repl_exported(&Err("x".into())), Said::Warn("export falhou: x".into()));
}

#[test]
fn a_fork_needs_an_id() {
    let c = fork_call("s1").unwrap();
    assert_eq!(c.method, "session/fork");
    assert_eq!(c.params.str_at("sessionId"), Some("s1"));
    assert_eq!(c.timeout_secs, 60);
    assert!(fork_call(" \t").err().unwrap().to_text().contains("resume id inválido"));
}
