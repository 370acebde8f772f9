use homeboy::resolve::{
    resolve_cli_path, resolve_database_host, resolve_db_settings, resolve_local_db_port, AppConfig,
};

#[test]
fn resolve_db_settings_returns_defaults_when_no_config() {
    let settings = resolve_db_settings(&AppConfig::default());
    assert_eq!(settings.cli_path, "wp");
    assert_eq!(settings.host, "127.0.0.1");
    assert_eq!(settings.local_port, 33306);
}

#[test]
fn configured_settings_win_over_defaults() {
    let app = AppConfig {
        active_project_id: None,
        default_cli_path: Some("/usr/local/bin/wp".to_string()),
        default_database_host: Some("db.internal".to_string()),
        default_local_db_port: Some(4000),
    };
    assert_eq!(resolve_cli_path(&app), "/usr/local/bin/wp");
    assert_eq!(resolve_database_host(&app), "db.internal");
    assert_eq!(resolve_local_db_port(&app), 4000);
    let settings = resolve_db_settings(&app);
    assert_eq!(settings.cli_path, "/usr/local/bin/wp");
    assert_eq!(settings.host, "db.internal");
    assert_eq!(settings.local_port, 4000);
}
