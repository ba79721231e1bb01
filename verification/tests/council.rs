use zcode_cli::council::{
    agent_memory_path, append_memory, board_path, build_board, chair_path, council_dir,
    council_dir_in, council_json, council_session, default_roles, prompt_chair, prompt_critique,
    prompt_round1, short_role, synthesis, validate_council, Council,
};
use zcode_cli::json::read_json;
use zcode_cli::session::SessionError;

#[test]
fn roles_default_2_a_8() {
    let r2 = default_roles(2);
    assert_eq!(r2.len(), 2);
    assert!(r2[0].contains("Implementação"));
    let r5 = default_roles(5);
    assert_eq!(r5.len(), 5);
    assert!(r5[3].contains("Especialista 4"));
    assert_eq!(default_roles(0).len(), 2);
    assert_eq!(default_roles(20).len(), 8);
}

#[test]
fn validate_limites() {
    assert!(validate_council(3, 2).is_ok());
    assert!(validate_council(1, 2).is_err());
    assert!(validate_council(9, 2).is_err());
    assert!(validate_council(3, 0).is_err());
    assert!(validate_council(3, 5).is_err());
}

#[test]
fn prompts_contem_papel_e_pergunta() {
    let p1 = prompt_round1("migrar para X?", "Riscos", "");
    assert!(p1.contains("migrar para X?"));
    assert!(p1.contains("Riscos"));
    assert!(p1.contains("Pontos-chave"));
    let p2 = prompt_critique("Q", "Alt", "board-aqui", "mem", 2);
    assert!(p2.contains("board-aqui"));
    assert!(p2.contains("Revisão"));
    let pc = prompt_chair("Q", "debate");
    assert!(pc.contains("Consenso"));
    assert!(pc.contains("Recomendação"));
}

#[test]
fn board_e_memoria_roundtrip() {
    let rounds: Vec<(u8, Vec<(String, String)>)> = vec![
        (1u8, vec![("Agente 1 — Impl".into(), "resp a".into())]),
        (2u8, vec![("Agente 1 — Impl".into(), "resp b".into())]),
    ];
    let b = build_board("Q?", &rounds);
    assert!(b.contains("Rodada 1"));
    assert!(b.contains("resp a"));
    assert!(b.contains("Rodada 2"));
    let m = append_memory("", 1, "linha1");
    let m = append_memory(&m, 2, "linha2");
    assert!(m.contains("linha1") && m.contains("linha2"));
    assert!(m.contains("Rodada 1") && m.contains("Rodada 2"));
}

#[test]
fn memory_only_grows() {
    let a = append_memory("antes", 1, "x");
    let b = append_memory(&a, 2, "y");
    assert!(a.starts_with("antes"));
    assert!(b.starts_with(&a));
}

#[test]
fn short_role_encurta() {
    assert_eq!(
        short_role("Implementação (como fazer, ordem de passos, custo)"),
        "Implementação"
    );
}

#[test]
fn files_of_a_council() {
    let d = council_dir_in(Some("/base"), "r1");
    assert!(d.starts_with("/base/"));
    assert!(d.ends_with("r1"));
    assert!(agent_memory_path(&d, 2).ends_with("/agent-2.md"));
    assert!(chair_path(&d).ends_with("/chair.md"));
    assert!(board_path(&d).ends_with("/board.md"));
    assert!(council_dir("run-7").ends_with("run-7"));
}

#[test]
fn a_council_asks_everyone_in_every_round() {
    assert!(Council::open("Q?", 1, 2).is_err());
    let mut c = Council::open("Q?", 2, 2).unwrap();
    assert_eq!(c.turn(), Some((1, 0)));
    let mut asked: usize = 0;
    loop {
        let p = match c.ask("") {
            Some(p) => p,
            None => break,
        };
        assert!(p.prompt.contains("Q?"));
        let first = prompt_round1("Q?", &c.roles[p.agent], "");
        assert_eq!(p.prompt == first, p.round == 1);
        assert_eq!(p.round as usize, asked / 2 + 1);
        assert_eq!(p.agent, asked % 2);
        asked += 1;
        assert!(asked < 20, "termina");
        if asked == 2 {
            c.hear(Err(SessionError::Protocol("caiu".to_string())));
        } else {
            c.hear(Ok(format!("resposta {asked}")));
        }
    }
    assert_eq!(asked, 6, "dois agentes: uma resposta e duas críticas de cada");
    let b = c.board();
    assert!(b.contains("resposta 1"));
    assert!(b.contains("caiu"));
    let workers = vec!["w1".to_string(), "w2".to_string()];
    let v = council_json(&c, "run", "/d", "síntese", &workers, "chefe");
    assert_eq!(v.str_at("runId"), Some("run"));
}

#[test]
fn sessions_of_a_council_are_in_plan_mode() {
    let created = read_json(r#"{"session":{"sessionId":"s1"}}"#).unwrap();
    let (sid, call) = council_session(&created, false).unwrap();
    assert_eq!(sid, "s1");
    assert_eq!(call.unwrap().method, "session/setMode");
    let e = council_session(&read_json("{}").unwrap(), true).err().unwrap();
    assert!(e.to_text().contains("chefe"));
    assert_eq!(synthesis(&Ok("texto".to_string())), "texto");
    assert!(synthesis(&Err(SessionError::Io("x".to_string()))).contains("síntese falhou"));
}
