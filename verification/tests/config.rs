use zcode_cli::config::{
    config_path, cleaned_path, discover_zcode_cjs, is_new_protocol_version, load_config,
    normalize_workspace, parse_toml_str, split_model_ref, zcode_candidates, FileConfig, UiCfg,
};
use zcode_cli::commands::default_config_toml;

#[test]
fn normaliza_backslash_windows() {
    assert_eq!(normalize_workspace(r"C:\proj\a", None), "C:/proj/a");
    assert_eq!(normalize_workspace("C:/proj/a", None), "C:/proj/a");
}

#[test]
fn workspace_is_made_absolute() {
    assert_eq!(normalize_workspace("./x", Some("/home/u/./x")), "/home/u/./x");
    assert_eq!(normalize_workspace(r"C:\x", Some("/home/u/C:/x")), "C:/x");
    assert_eq!(normalize_workspace("", Some("/home/u")), "");
    assert_eq!(cleaned_path("\"C:/com espaço\""), "C:/com espaço");
}

#[test]
fn split_model_ok_e_invalido() {
    assert_eq!(split_model_ref("zai/glm-5.3").unwrap(), ("zai".into(), "glm-5.3".into()));
    assert!(split_model_ref("lite").is_err());
    assert!(split_model_ref("zai/glm-5.3-Flash").unwrap().1 == "glm-5.3-Flash");
}

#[test]
fn versao_nova_detectada() {
    assert!(is_new_protocol_version(Some(2)));
    assert!(!is_new_protocol_version(Some(1)));
    assert!(!is_new_protocol_version(None));
}

#[test]
fn override_inexistente_da_erro_claro() {
    let explicit = Some("C:/caminho/que/nao/existe-xyz/zcode.cjs");
    let cfg = FileConfig::default();
    let paths = zcode_candidates(&None, &cfg, &None, &None);
    let found: Vec<bool> = paths.iter().map(|_| true).collect();
    let r = discover_zcode_cjs(explicit, false, &paths, &found);
    let e = r.expect_err("--runtime inválido deve falhar sem fallback");
    assert!(e.to_text().contains("ZCode não encontrado"));
}

#[test]
fn runtime_is_the_first_candidate_that_is_a_file() {
    let env = Some("/opt/zcode.cjs".to_string());
    let home = Some("/home/u".to_string());
    let paths = zcode_candidates(&env, &FileConfig::default(), &None, &home);
    assert_eq!(paths[0], "/opt/zcode.cjs");
    assert!(paths.len() > 1);
    let mut found: Vec<bool> = paths.iter().map(|_| true).collect();
    found[0] = false;
    assert_eq!(discover_zcode_cjs(None, false, &paths, &found).unwrap(), paths[1]);
    let none: Vec<bool> = paths.iter().map(|_| false).collect();
    assert!(discover_zcode_cjs(None, false, &paths, &none).is_err());
}

#[test]
fn default_refresh_300_para_poll_working() {
    assert_eq!(UiCfg::default().stream_refresh_ms, 300);
    assert_eq!(FileConfig::default().ui.stream_refresh_ms, 300);
    let old = parse_toml_str("[ui]\nstream_refresh_ms = 500\n").unwrap();
    assert_eq!(old.ui.stream_refresh_ms, 500);
}

#[test]
fn default_config_toml_parseia() {
    let body = default_config_toml("");
    let cfg = parse_toml_str(&body).expect("config init deve parsear");
    assert_eq!(cfg.runtime.node, "node");
    assert_eq!(cfg.default.mode, "build");
    assert_eq!(cfg.ui.theme, "dark");
    assert_eq!(cfg.ui.stream_refresh_ms, 300);
    let body2 = default_config_toml("C:/Users/x/zcode.cjs");
    let cfg2 = parse_toml_str(&body2).unwrap();
    assert!(cfg2.runtime.zcode_cjs.contains("zcode.cjs"));
}

#[test]
fn windows_path_survives_the_default_config() {
    let cfg = parse_toml_str(&default_config_toml(r"C:\Users\x\zcode.cjs")).unwrap();
    assert_eq!(cfg.runtime.zcode_cjs, r"C:\Users\x\zcode.cjs");
}

#[test]
fn settings_that_cannot_be_read_are_the_defaults() {
    let cfg = load_config(Some("[default\n"), "/w");
    assert_eq!(cfg.default.workspace, "/w");
    assert_eq!(cfg.default.mode, "build");
    let cfg = load_config(Some("[default]\nmode = \"plan\"\n"), "/w");
    assert_eq!(cfg.default.mode, "plan");
    assert_eq!(cfg.default.workspace, "/w");
    assert_eq!(load_config(None, "/w").ui.theme, "dark");
    assert!(parse_toml_str("[ui]\ntheme = 3\n").is_err());
}

#[test]
fn settings_file_has_a_place() {
    assert!(config_path().ends_with("zcode-cli/config.toml"));
}

#[test]
fn the_first_configuration_is_written_line_by_line() {
    let body = "# zcode-cli config — gerado por `zcode-cli init`\n\
# Docs: https://github.com/danjour/CLI-ZCode\n\n[runtime]\n\
zcode_cjs = \"C:\\\\a b\\\\ç.cjs\"\nnode = \"node\"\n\n[default]\nworkspace = \".\"\n\
mode = \"build\"\n# Modelo só é aplicado se --model explícito (servidor Flash em 2026-09).\n\
model = \"zai/glm-5.3\"\nthought_level = \"max\"\n\n[ui]\ntheme = \"dark\"\n\
stream_refresh_ms = 300\n";
    assert_eq!(default_config_toml("C:\\a b\\ç.cjs"), body);
    let empty = default_config_toml("");
    assert!(empty.contains(
        "[runtime]\n# zcode_cjs = \"C:/.../zcode.cjs\"  # opcional; autodetecta se omitido\nnode"
    ));
}

#[test]
fn the_first_configuration_gives_its_settings() {
    for hint in ["", "/opt/zcode.cjs", "C:\\a b\\ç.cjs", "\\", "# [x] = 'y'"] {
        let cfg = parse_toml_str(&default_config_toml(hint)).unwrap();
        assert_eq!(cfg.runtime.zcode_cjs, hint);
        assert_eq!(cfg.runtime.node, "node");
        assert_eq!(cfg.default.workspace, ".");
        assert_eq!(cfg.default.mode, "build");
        assert_eq!(cfg.default.model, "zai/glm-5.3");
        assert_eq!(cfg.default.thought_level, "max");
        assert_eq!(cfg.ui.theme, "dark");
        assert_eq!(cfg.ui.stream_refresh_ms, 300);
    }
}

#[test]
fn only_a_letter_names_a_drive() {
    assert_eq!(normalize_workspace("1:a/b", Some("/w/1:a/b")), "/w/1:a/b");
    assert_eq!(normalize_workspace("c:a/b", Some("/w/c:a/b")), "c:a/b");
}
