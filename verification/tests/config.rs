use capsula::config::{read_failure, resolve_server_url, resolve_vault_path, ConfigError, ReadFailure, VaultConfig};
use capsula::hook::CapsulaError;

#[test]
fn vault_config_with_explicit_path_keeps_it() {
    let config = VaultConfig::new("my_vault".to_string(), Some("/custom/path/to/vault".to_string()));
    assert_eq!(config.name, "my_vault");
    assert_eq!(config.path, "/custom/path/to/vault");
}

#[test]
fn vault_config_without_path_defaults_under_dot_capsula() {
    let config = VaultConfig::new("test_vault".to_string(), None);
    assert_eq!(config.name, "test_vault");
    assert_eq!(config.path, ".capsula/test_vault");
}

#[test]
fn missing_config_file_explains_how_to_fix_it() {
    let e = read_failure("capsula.toml", ReadFailure::NotFound).into_capsula();
    match e {
        CapsulaError::Configuration { message } => assert_eq!(
            message,
            "Configuration file not found at 'capsula.toml'. Create a 'capsula.toml' file or specify a custom path with --config"
        ),
        other => panic!("unexpected error: {other:?}"),
    }
}

#[test]
fn unreadable_config_file_is_an_io_error() {
    let e = read_failure("capsula.toml", ReadFailure::Other("permission denied".to_string())).into_capsula();
    assert!(matches!(e, CapsulaError::Io(ref m) if m == "permission denied"));
}

#[test]
fn toml_parse_errors_name_the_format() {
    let e = ConfigError::TomlParse("expected `=`".to_string()).into_capsula();
    assert!(matches!(e, CapsulaError::Configuration { ref message } if message == "Failed to parse TOML configuration: expected `=`"));
}

#[test]
fn vault_path_prefers_command_line_then_environment_then_configuration() {
    let cli = Some("/cli/vault".to_string());
    let env = Some("env/vault".to_string());
    assert_eq!(resolve_vault_path(cli, env.clone(), ".capsula/p", "/proj"), "/cli/vault");
    assert_eq!(resolve_vault_path(None, env, ".capsula/p", "/proj"), "/proj/env/vault");
    assert_eq!(resolve_vault_path(None, None, ".capsula/p", "/proj"), "/proj/.capsula/p");
    assert_eq!(resolve_vault_path(None, None, "/abs/vault", "/proj"), "/abs/vault");
}

#[test]
fn server_url_prefers_command_line_then_environment_then_configuration() {
    let env = Some("http://env:8500".to_string());
    assert_eq!(
        resolve_server_url(Some("http://cli:8500".to_string()), env.clone(), Some("http://conf:8500")),
        Some("http://cli:8500".to_string())
    );
    assert_eq!(resolve_server_url(None, env, Some("http://conf:8500")), Some("http://env:8500".to_string()));
    assert_eq!(resolve_server_url(None, None, Some("http://conf:8500")), Some("http://conf:8500".to_string()));
    assert_eq!(resolve_server_url(None, None, None), None);
}
