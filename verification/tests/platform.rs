use moose::error::MooseError;
use moose::ollama::service::{
    port_availability, port_check, BindOutcome,
    managed_ollama_base_url, managed_ollama_host, managed_ollama_origin,
    validate_managed_ollama_port, ManagedOllamaConfig,
};
use moose::platform::{join_path, AppPaths};
use moose::providers::validate_base_url;

#[test]
fn app_paths_keep_database_inside_data_directory() {
    let paths = AppPaths::from_base_dirs(
        "/tmp/data/moose".to_string(),
        "/tmp/cache/moose".to_string(),
        "/tmp/config/moose".to_string(),
    );

    assert_eq!(paths.database_path(), "/tmp/data/moose/moose.db");
}

#[test]
fn managed_ollama_origin_includes_http_scheme() {
    assert_eq!(
        managed_ollama_origin("127.0.0.1:11435"),
        "http://127.0.0.1:11435"
    );
}

fn environment_value<'a>(environment: &'a [(&'static str, String)], key: &str) -> Option<&'a String> {
    environment
        .iter()
        .find_map(|(name, value)| (*name == key).then_some(value))
}

#[test]
fn managed_ollama_environment_uses_valid_origin() {
    let paths = AppPaths::from_base_dirs(
        "/tmp/moose-data".to_string(),
        "/tmp/moose-cache".to_string(),
        "/tmp/moose-config".to_string(),
    );
    let config = ManagedOllamaConfig::from_paths(&paths);
    let environment = config.environment();

    assert_eq!(
        environment_value(&environment, "OLLAMA_ORIGINS").map(String::as_str),
        Some("http://127.0.0.1:11435")
    );
}

#[test]
fn managed_ollama_environment_overrides_xdg_paths() {
    let paths = AppPaths::from_base_dirs(
        "/tmp/moose-data".to_string(),
        "/tmp/moose-cache".to_string(),
        "/tmp/moose-config".to_string(),
    );
    let config = ManagedOllamaConfig::from_paths(&paths);
    let environment = config.environment();

    assert_eq!(
        environment_value(&environment, "XDG_DATA_HOME").map(String::as_str),
        Some("/tmp/moose-data")
    );
    assert_eq!(
        environment_value(&environment, "XDG_CACHE_HOME").map(String::as_str),
        Some("/tmp/moose-cache")
    );
    assert_eq!(
        environment_value(&environment, "XDG_CONFIG_HOME").map(String::as_str),
        Some("/tmp/moose-config")
    );
}

#[test]
fn derived_paths_live_under_the_base_directories() {
    let paths = AppPaths::from_base_dirs(
        "/d".to_string(),
        "/c/".to_string(),
        "/k".to_string(),
    );
    assert_eq!(paths.ollama_installation_dir(), "/d/ollama_installation");
    assert_eq!(paths.ollama_binary_path(), "/d/ollama_installation/bin/ollama");
    assert_eq!(paths.ollama_models_dir(), "/d/.ollama/models");
    assert_eq!(paths.ollama_log_path(), "/c/ollama.log");
    assert_eq!(paths.ollama_download_cache_dir(), "/c/ollama-downloads");
    assert_eq!(join_path("", "x"), "x");
    assert_eq!(join_path("/base", "/abs"), "/abs");
}

#[test]
fn paths_follow_the_xdg_variables() {
    let paths = AppPaths::new("moose", Some("/home/u"), None, None, None).unwrap();
    assert_eq!(paths.data_dir(), "/home/u/.local/share/moose");
    assert_eq!(paths.cache_dir(), "/home/u/.cache/moose");
    assert_eq!(paths.config_dir(), "/home/u/.config/moose");
    assert_eq!(paths.database_path(), "/home/u/.local/share/moose/moose.db");
    let paths = AppPaths::new("moose", Some("/home/u"), Some("/x/data"), Some("/x/cache/"), Some("/x/config"))
        .unwrap();
    assert_eq!(paths.data_dir(), "/x/data/moose");
    assert_eq!(paths.cache_dir(), "/x/cache/moose");
    assert_eq!(paths.config_dir(), "/x/config/moose");
    assert!(matches!(
        AppPaths::new("moose", None, Some("/x"), None, None),
        Err(MooseError::MissingHomeDirectory)
    ));
}

#[test]
fn managed_ports() {
    assert_eq!(validate_managed_ollama_port(11435).unwrap(), 11435);
    assert!(validate_managed_ollama_port(1023).is_err());
    assert!(validate_managed_ollama_port(11434).is_err());
    assert_eq!(managed_ollama_host(2000).unwrap(), "127.0.0.1:2000");
    assert_eq!(
        managed_ollama_base_url(65535).unwrap(),
        "http://127.0.0.1:65535/api"
    );
    let paths = AppPaths::from_base_dirs("/d".to_string(), "/c".to_string(), "/k".to_string());
    let config = ManagedOllamaConfig::from_paths_with_port(&paths, 1024).unwrap();
    assert_eq!(config.base_url, "http://127.0.0.1:1024/api");
    assert_eq!(config.host, "127.0.0.1:1024");
    assert!(ManagedOllamaConfig::from_paths_with_port(&paths, 80).is_err());
}

#[test]
fn port_checks_follow_the_bind_outcome() {
    assert_eq!(port_check("127.0.0.1:11435", BindOutcome::Bound), Ok(()));
    assert_eq!(
        port_check("127.0.0.1:11435", BindOutcome::InUse),
        Err(MooseError::ManagedOllamaPortUnavailable("127.0.0.1:11435".to_string()))
    );
    assert_eq!(
        port_check("127.0.0.1:11435", BindOutcome::Failed("permission denied".to_string())),
        Err(MooseError::ManagedOllamaStartFailed("could not check 127.0.0.1:11435: permission denied".to_string()))
    );
    assert_eq!(port_availability(Ok(())), Ok(true));
    assert_eq!(port_availability(port_check("h", BindOutcome::InUse)), Ok(false));
    assert_eq!(
        port_availability(port_check("h", BindOutcome::Failed("e".to_string()))),
        Err(MooseError::ManagedOllamaStartFailed("could not check h: e".to_string()))
    );
}

#[test]
fn managed_base_urls_pass_the_client_check_unchanged() {
    for port in [1024u16, 11435, 11436, 40000, 65535] {
        let url = managed_ollama_base_url(port).unwrap();
        assert_eq!(validate_base_url(&url).unwrap(), url);
    }
    assert_eq!(managed_ollama_base_url(11435).unwrap(), "http://127.0.0.1:11435/api");
}
