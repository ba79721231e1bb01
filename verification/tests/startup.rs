use zcode_cli::startup::{
    checks_version, detect_tui_mode, rotated_log, should_rotate_log, stdin_prompt, tui_com_prompt,
    LOG_ROTATE_MAX_BYTES,
};

fn v(items: &[&str]) -> Vec<String> {
    items.iter().map(|s| s.to_string()).collect()
}

#[test]
fn detect_tui_mode_tabela() {
    let (m, f) = detect_tui_mode(&v(&["zcode-cli", "tui"]));
    assert!(m);
    assert_eq!(f, v(&["zcode-cli", "tui"]));
    let (m, f) = detect_tui_mode(&v(&["zcode-cli", "--tui"]));
    assert!(m);
    assert_eq!(f, v(&["zcode-cli"]));
    let (m, f) = detect_tui_mode(&v(&["zcode-cli", "--cwd", "X", "tui"]));
    assert!(!m);
    assert_eq!(f, v(&["zcode-cli", "--cwd", "X", "tui"]));
    let (m, f) = detect_tui_mode(&v(&["zcode-cli", "--", "tui"]));
    assert!(!m);
    assert_eq!(f, v(&["zcode-cli", "--", "tui"]));
    let (m, f) = detect_tui_mode(&v(&["zcode-cli", "TUI"]));
    assert!(!m);
    assert_eq!(f, v(&["zcode-cli", "TUI"]));
    let (m, f) = detect_tui_mode(&v(&["zcode-cli", "tui", "--tui"]));
    assert!(m);
    assert_eq!(f, v(&["zcode-cli"]));
}

#[test]
fn detect_tui_mode_strip_preserva_ordem_e_casos_de_borda() {
    let (m, f) = detect_tui_mode(&v(&["zcode-cli", "-p", "oi", "--tui", "--json"]));
    assert!(m);
    assert_eq!(f, v(&["zcode-cli", "-p", "oi", "--json"]));
    let (m, f) = detect_tui_mode(&v(&["zcode-cli"]));
    assert!(!m);
    assert_eq!(f, v(&["zcode-cli"]));
    let (m, f) = detect_tui_mode(&[]);
    assert!(!m);
    assert!(f.is_empty());
}

#[test]
fn every_flag_goes_the_rest_stays() {
    let (m, f) = detect_tui_mode(&v(&["a", "tui", "x", "--cwd", "tui"]));
    assert!(m);
    assert_eq!(f, v(&["a", "x", "--cwd", "tui", "tui"]));
    let (m, f) = detect_tui_mode(&v(&["a", "--tui", "b", "--tui"]));
    assert!(m);
    assert_eq!(f, v(&["a", "b"]));
}

#[test]
fn tui_com_prompt_avisa_so_quando_ignora() {
    assert_eq!(tui_com_prompt(true, None), Ok(None));
    let aviso = tui_com_prompt(true, Some("oi")).unwrap_err();
    assert!(aviso.contains("--tui"), "{aviso}");
    assert!(aviso.contains("--prompt"), "{aviso}");
    assert_eq!(tui_com_prompt(false, Some("oi")), Ok(Some("oi")));
    assert_eq!(tui_com_prompt(false, None), Ok(None));
}

#[test]
fn should_rotate_log_teto_1mib() {
    assert!(!should_rotate_log(0), "log novo nunca roda");
    assert!(
        !should_rotate_log(LOG_ROTATE_MAX_BYTES),
        "exatamente no teto ainda não roda"
    );
    assert!(should_rotate_log(LOG_ROTATE_MAX_BYTES + 1), "1 byte acima roda");
    assert!(should_rotate_log(u64::MAX), "saturação sem overflow");
    assert_eq!(LOG_ROTATE_MAX_BYTES, 1 << 20);
    assert_eq!(rotated_log("/d/log.txt"), "/d/log.txt.old");
}

#[test]
fn prompt_from_a_pipe() {
    assert_eq!(stdin_prompt("tarefa\r\n\n"), Ok("tarefa".to_string()));
    assert_eq!(stdin_prompt(" a\nb "), Ok(" a\nb ".to_string()));
    assert!(stdin_prompt("\r\n\n").unwrap_err().contains("stdin vazio"));
    assert!(stdin_prompt("").is_err());
}

#[test]
fn version_check_keeps_out_of_the_way() {
    assert!(checks_version(false, false, false));
    assert!(!checks_version(true, false, false));
    assert!(!checks_version(false, true, false));
    assert!(!checks_version(false, false, true));
}
