use kensho::config::{ConfigFile, KenshoConfig, SystemConfig, DEFAULT_TEAM};

#[test]
fn defaults_resolve_model_path_under_data_dir() {
    let cfg = SystemConfig::resolve("/tmp/kensho-x".to_string(), KenshoConfig::default());
    assert!(std::path::Path::new(&cfg.model_path).ends_with("models/qwen.gguf"));
    assert_eq!(cfg.mcp_port, 8181);
    assert_eq!(cfg.team_members.len(), 3);
    assert_eq!(cfg.global_shortcut, "Ctrl+Shift+K");
}

#[test]
fn explicit_model_path_is_used_verbatim() {
    let mut kc = KenshoConfig::default();
    kc.model_path = "/models/custom.gguf".to_string();
    let cfg = SystemConfig::resolve("/tmp/kensho-y".to_string(), kc);
    assert_eq!(cfg.model_path, "/models/custom.gguf");
}

#[test]
fn defaults_are_as_documented() {
    let cfg = KenshoConfig::default();
    assert_eq!(cfg.model_path, "");
    assert!(cfg.always_on_top);
    assert_eq!(cfg.max_tokens, 512);
    assert_eq!(cfg.context_size, 2048);
    assert_eq!(cfg.heartbeat_secs, 300);
    assert_eq!(cfg.piper_bin, "piper");
    assert_eq!(cfg.piper_model, "");
    assert_eq!(cfg.piper_sample_rate, 22050);
    assert_eq!(cfg.mcp_port, 8181);
    assert_eq!(cfg.team_members, vec!["Waldston", "Joãozinho", "Rafaela"]);
    assert_eq!(cfg.team_members, DEFAULT_TEAM);
    assert_eq!(cfg.global_shortcut, "Ctrl+Shift+K");
}

#[test]
fn paths_join_as_the_standard_library_joins_them() {
    for dir in ["/tmp/x", "/tmp/x/", "", ".", "/", "é"] {
        let cfg = SystemConfig::resolve(dir.to_string(), KenshoConfig::default());
        let base = std::path::Path::new(dir);
        assert_eq!(cfg.data_dir, dir);
        assert_eq!(cfg.database_path, base.join("kensho.sqlite").to_str().unwrap());
        assert_eq!(cfg.model_path, base.join("models").join("qwen.gguf").to_str().unwrap());
    }
}

#[test]
fn values_that_are_too_low_are_raised() {
    let mut kc = KenshoConfig::default();
    kc.context_size = 255;
    kc.heartbeat_secs = 0;
    kc.piper_sample_rate = 7999;
    kc.model_path = "  ".to_string();
    let cfg = SystemConfig::resolve("/d".to_string(), kc);
    assert_eq!(cfg.context_size, 256);
    assert_eq!(cfg.heartbeat_secs, 10);
    assert_eq!(cfg.piper_sample_rate, 8000);
    assert_eq!(cfg.model_path, "/d/models/qwen.gguf");

    let mut high = KenshoConfig::default();
    high.context_size = 257;
    high.heartbeat_secs = 11;
    high.piper_sample_rate = 8001;
    let cfg = SystemConfig::resolve("/d".to_string(), high);
    assert_eq!((cfg.context_size, cfg.heartbeat_secs, cfg.piper_sample_rate), (257, 11, 8001));
}

#[test]
fn an_invalid_configuration_falls_back_to_the_defaults() {
    let mut kc = KenshoConfig::default();
    kc.mcp_port = 9;
    assert_eq!(SystemConfig::from_data_dir("/d".to_string(), Ok(kc)).mcp_port, 9);
    let cfg = SystemConfig::from_data_dir("/d".to_string(), Err("bad".to_string()));
    assert_eq!(cfg.mcp_port, 8181);
    assert_eq!(KenshoConfig::load(Err("bad".to_string())).max_tokens, 512);
}

#[test]
fn a_missing_file_is_written_first() {
    assert_eq!(KenshoConfig::config_file(false, false), ConfigFile::Nowhere);
    assert_eq!(KenshoConfig::config_file(false, true), ConfigFile::Nowhere);
    assert_eq!(KenshoConfig::config_file(true, true), ConfigFile::Read);
    assert_eq!(KenshoConfig::config_file(true, false), ConfigFile::Create);
}
