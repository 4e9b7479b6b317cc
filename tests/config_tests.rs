use goose_config::config::{
    decode_json_mapping, decode_yaml_mapping, Config, ConfigError, ConfigStorage, Environment,
    SecretRead, SecretStorage,
};
use serde_json::Value;

fn no_env() -> Environment {
    Environment::new()
}

fn env_with(name: &str, value: &str) -> Environment {
    let mut env = Environment::new();
    env.insert(name.to_string(), value.to_string());
    env
}

fn string_of(v: Value) -> String {
    serde_json::from_value(v).unwrap()
}

fn is_not_found<T>(r: &Result<T, ConfigError>) -> bool {
    matches!(r, Err(ConfigError::NotFound(_)))
}

#[test]
fn test_in_memory_config() -> Result<(), ConfigError> {
    let mut config = Config::new_in_memory();
    let env = no_env();

    config.set_param("key", Value::String("value".to_string()))?;
    let value = string_of(config.get_param("key", &env)?);
    assert_eq!(value, "value");

    config.set_secret("secret_key", Value::String("secret_value".to_string()))?;
    let secret = string_of(config.get_secret("secret_key", &env)?);
    assert_eq!(secret, "secret_value");

    config.delete("key")?;
    let result = config.get_param("key", &env);
    assert!(is_not_found(&result));

    config.delete_secret("secret_key")?;
    let result = config.get_secret("secret_key", &env);
    assert!(is_not_found(&result));
    Ok(())
}

#[test]
fn test_env_var_in_memory_config() -> Result<(), ConfigError> {
    let mut config = Config::with_signals(
        true,
        false,
        "/tmp/goose/config.yaml".to_string(),
        "/tmp/goose/secrets.yaml".to_string(),
    );
    assert_eq!(config.path(), "<in-memory>");

    config.set_param("env_test", Value::String("env_value".to_string()))?;
    let value = string_of(config.get_param("env_test", &no_env())?);
    assert_eq!(value, "env_value");
    Ok(())
}

#[test]
fn test_basic_config() -> Result<(), ConfigError> {
    let mut config = Config::new("/tmp/goose-test/config.yaml", "goose-test")?;

    config.set_param("test_key", Value::String("test_value".to_string()))?;
    let value = string_of(config.get_param("test_key", &no_env())?);
    assert_eq!(value, "test_value");

    let env = env_with("TEST_KEY", "env_value");
    let value = string_of(config.get_param("test_key", &env)?);
    assert_eq!(value, "env_value");
    Ok(())
}

#[test]
fn test_complex_type() -> Result<(), ConfigError> {
    let mut config = Config::new("/tmp/goose-test/config.yaml", "goose-test")?;

    let mut obj = serde_json::Map::new();
    obj.insert("field1".to_string(), Value::String("hello".to_string()));
    obj.insert("field2".to_string(), Value::Number(42.into()));
    config.set_param("complex_key", Value::Object(obj))?;

    let value = config.get_param("complex_key", &no_env())?;
    assert_eq!(value["field1"], Value::String("hello".to_string()));
    assert_eq!(value["field2"].as_i64(), Some(42));
    Ok(())
}

#[test]
fn test_missing_value() {
    let config = Config::new("/tmp/goose-test/config.yaml", "goose-test").unwrap();
    let result = config.get_param("nonexistent_key", &no_env());
    assert!(is_not_found(&result));
}

#[test]
fn test_yaml_formatting() -> Result<(), ConfigError> {
    let mut config = Config::new("/tmp/goose-test/config.yaml", "goose-test")?;

    config.set_param("key1", Value::String("value1".to_string()))?;
    config.set_param("key2", Value::Number(42.into()))?;

    let content = config.values_text()?.unwrap();
    assert!(content.contains("key1: value1"));
    assert!(content.contains("key2: 42"));
    Ok(())
}

#[test]
fn test_value_management() -> Result<(), ConfigError> {
    let mut config = Config::new("/tmp/goose-test/config.yaml", "goose-test")?;

    config.set_param("key", Value::String("value".to_string()))?;
    let value = string_of(config.get_param("key", &no_env())?);
    assert_eq!(value, "value");

    config.delete("key")?;
    let result = config.get_param("key", &no_env());
    assert!(is_not_found(&result));
    Ok(())
}

#[test]
fn test_file_based_secrets_management() -> Result<(), ConfigError> {
    let mut config =
        Config::new_with_file_secrets("/tmp/goose-test/config.yaml", "/tmp/goose-test/secrets.yaml")?;

    config.set_secret("key", Value::String("value".to_string()))?;
    let value = string_of(config.get_secret("key", &no_env())?);
    assert_eq!(value, "value");

    config.delete_secret("key")?;
    let result = config.get_secret("key", &no_env());
    assert!(is_not_found(&result));
    Ok(())
}

#[test]
fn test_secret_management() -> Result<(), ConfigError> {
    let mut config = Config::new("/tmp/goose-test/config.yaml", "goose-test")?;

    config.set_secret("api_key", Value::String("secret123".to_string()))?;
    let value = string_of(config.get_secret("api_key", &no_env())?);
    assert_eq!(value, "secret123");

    let env = env_with("API_KEY", "env_secret");
    let value = string_of(config.get_secret("api_key", &env)?);
    assert_eq!(value, "env_secret");

    config.delete_secret("api_key")?;
    let result = config.get_secret("api_key", &no_env());
    assert!(is_not_found(&result));
    Ok(())
}

#[test]
fn test_multiple_secrets() -> Result<(), ConfigError> {
    let mut config = Config::new("/tmp/goose-test/config.yaml", "goose-test")?;

    config.set_secret("key1", Value::String("secret1".to_string()))?;
    config.set_secret("key2", Value::String("secret2".to_string()))?;

    let value1 = string_of(config.get_secret("key1", &no_env())?);
    let value2 = string_of(config.get_secret("key2", &no_env())?);
    assert_eq!(value1, "secret1");
    assert_eq!(value2, "secret2");

    config.delete_secret("key1")?;
    let result1 = config.get_secret("key1", &no_env());
    let value2 = string_of(config.get_secret("key2", &no_env())?);
    assert!(is_not_found(&result1));
    assert_eq!(value2, "secret2");
    Ok(())
}

#[test]
fn round_trip_in_every_storage_mode() -> Result<(), ConfigError> {
    let mut configs = vec![
        Config::new_in_memory(),
        Config::new("/tmp/c.yaml", "svc")?,
        Config::new_with_file_secrets("/tmp/c.yaml", "/tmp/s.yaml")?,
    ];
    for config in configs.iter_mut() {
        let v = Value::Array(vec![Value::Bool(true), Value::Null]);
        config.set_param("k", v.clone())?;
        config.set_secret("k", v.clone())?;
        assert_eq!(config.get_param("k", &no_env())?, v);
        assert_eq!(config.get_secret("k", &no_env())?, v);
    }
    Ok(())
}

#[test]
fn environment_wins_then_reverts() -> Result<(), ConfigError> {
    let mut config = Config::new_in_memory();
    config.set_param("port", Value::Number(1.into()))?;
    let mut env = env_with("PORT", "8080");
    assert_eq!(config.get_param("port", &env)?, Value::Number(8080.into()));
    env.remove("PORT");
    assert_eq!(config.get_param("port", &env)?, Value::Number(1.into()));
    Ok(())
}

#[test]
fn environment_text_that_is_not_json_is_a_string() -> Result<(), ConfigError> {
    let config = Config::new_in_memory();
    let env = env_with("NAME", "{not json");
    assert_eq!(config.get_param("name", &env)?, Value::String("{not json".to_string()));
    let env = env_with("NAME", "");
    assert_eq!(config.get_param("name", &env)?, Value::String(String::new()));
    Ok(())
}

#[test]
fn environment_is_matched_in_upper_case_only() -> Result<(), ConfigError> {
    let config = Config::new_in_memory();
    let env = env_with("api_key", "lower");
    assert!(is_not_found(&config.get_param("api_key", &env)));
    Ok(())
}

#[test]
fn delete_leaves_other_keys() -> Result<(), ConfigError> {
    let mut config = Config::new_in_memory();
    config.set_param("a", Value::Bool(true))?;
    config.set_param("b", Value::Bool(false))?;
    config.delete("a")?;
    assert!(is_not_found(&config.get_param("a", &no_env())));
    assert_eq!(config.get_param("b", &no_env())?, Value::Bool(false));
    Ok(())
}

#[test]
fn secrets_and_config_are_independent() -> Result<(), ConfigError> {
    let mut config = Config::new_in_memory();
    config.set_secret("x", Value::String("secret".to_string()))?;
    config.set_param("x", Value::String("plain".to_string()))?;
    assert_eq!(config.get_secret("x", &no_env())?, Value::String("secret".to_string()));
    assert_eq!(config.get_param("x", &no_env())?, Value::String("plain".to_string()));
    assert_eq!(config.get("x", true, &no_env())?, Value::String("secret".to_string()));
    config.set("y", Value::Bool(true), false)?;
    assert!(is_not_found(&config.get_secret("y", &no_env())));
    Ok(())
}

#[test]
fn nested_server_config_from_stored_yaml() -> Result<(), ConfigError> {
    let mut config = Config::new("/tmp/c.yaml", "svc")?;
    config.load_values(Some("server:\n  host: localhost\n  port: 8080\n"))?;
    let server = config.get_param("server", &no_env())?;
    assert_eq!(server["host"].as_str(), Some("localhost"));
    assert_eq!(server["port"].as_u64(), Some(8080));
    Ok(())
}

#[test]
fn secret_scenario_with_environment() -> Result<(), ConfigError> {
    let mut config = Config::new_in_memory();
    config.set_secret("api_key", Value::String("secret123".to_string()))?;
    let env = env_with("API_KEY", "env_secret");
    assert_eq!(string_of(config.get_secret("api_key", &env)?), "env_secret");
    assert_eq!(string_of(config.get_secret("api_key", &no_env())?), "secret123");
    Ok(())
}

#[test]
fn storage_selection_table() {
    let c = Config::with_signals(false, false, "/d/config.yaml".into(), "/d/secrets.yaml".into());
    assert!(matches!(c.storage(), ConfigStorage::File { path } if path == "/d/config.yaml"));
    assert!(matches!(c.secret_storage(), SecretStorage::Keyring { service } if service == "goose"));
    let c = Config::with_signals(false, true, "/d/config.yaml".into(), "/d/secrets.yaml".into());
    assert!(matches!(c.secret_storage(), SecretStorage::File { path } if path == "/d/secrets.yaml"));
    let c = Config::with_signals(true, true, "/d/config.yaml".into(), "/d/secrets.yaml".into());
    assert!(matches!(c.storage(), ConfigStorage::Memory));
    assert!(matches!(c.secret_storage(), SecretStorage::Memory));
}

#[test]
fn config_exists_by_mode() -> Result<(), ConfigError> {
    assert!(Config::new_in_memory().config_exists(false));
    let c = Config::new("/tmp/c.yaml", "svc")?;
    assert!(!c.config_exists(false));
    assert!(c.config_exists(true));
    assert_eq!(c.path(), "/tmp/c.yaml");
    Ok(())
}

#[test]
fn yaml_loading() -> Result<(), ConfigError> {
    let mut c = Config::new("/tmp/c.yaml", "svc")?;
    c.load_values(Some("a: 1\nb: [x, y]\n"))?;
    assert_eq!(c.get_param("a", &no_env())?, Value::Number(1.into()));
    c.load_values(Some("- just\n- a list\n"))?;
    assert!(is_not_found(&c.get_param("a", &no_env())));
    let bad = c.load_values(Some("a: [unclosed"));
    assert!(matches!(bad, Err(ConfigError::DeserializeError(_))));
    c.load_values(None)?;
    assert!(is_not_found(&c.get_param("b", &no_env())));
    let m = decode_yaml_mapping("k: v\n")?;
    assert_eq!(m.get("k"), Some(&Value::String("v".to_string())));
    Ok(())
}

#[test]
fn in_memory_ignores_loaded_text() -> Result<(), ConfigError> {
    let mut c = Config::new_in_memory();
    c.set_param("a", Value::Bool(true))?;
    c.load_values(Some("a: false\n"))?;
    assert_eq!(c.get_param("a", &no_env())?, Value::Bool(true));
    assert_eq!(c.values_text()?, None);
    Ok(())
}

#[test]
fn vault_secrets_reading_and_writing() -> Result<(), ConfigError> {
    let mut c = Config::new("/tmp/c.yaml", "svc")?;
    c.load_secrets(SecretRead::Text("{\"k\": \"v\", \"n\": 3}".to_string()))?;
    assert_eq!(c.get_secret("k", &no_env())?, Value::String("v".to_string()));
    let text = c.secrets_text()?.unwrap();
    let back: Value = serde_json::from_str(&text).unwrap();
    assert_eq!(back["n"].as_i64(), Some(3));
    c.load_secrets(SecretRead::Absent)?;
    assert!(is_not_found(&c.get_secret("k", &no_env())));
    let failed = c.load_secrets(SecretRead::VaultFailure("locked".to_string()));
    assert!(matches!(failed, Err(ConfigError::KeyringError(m)) if m == "locked"));
    let bad = c.load_secrets(SecretRead::Text("[1, 2]".to_string()));
    assert!(matches!(bad, Err(ConfigError::DeserializeError(_))));
    assert!(decode_json_mapping("not json").is_err());
    Ok(())
}

#[test]
fn file_secrets_reading_and_writing() -> Result<(), ConfigError> {
    let mut c = Config::new_with_file_secrets("/tmp/c.yaml", "/tmp/s.yaml")?;
    c.load_secrets(SecretRead::Text("token: abc\n".to_string()))?;
    assert_eq!(c.get_secret("token", &no_env())?, Value::String("abc".to_string()));
    assert!(c.secrets_text()?.unwrap().contains("token: abc"));
    c.load_secrets(SecretRead::Absent)?;
    assert!(is_not_found(&c.get_secret("token", &no_env())));
    Ok(())
}

#[test]
fn persisted_server_config_reads_back() -> Result<(), ConfigError> {
    let mut writer = Config::new("/tmp/c.yaml", "svc")?;
    let mut server = serde_json::Map::new();
    server.insert("host".to_string(), Value::String("localhost".to_string()));
    server.insert("port".to_string(), Value::Number(8080.into()));
    writer.set_param("server", Value::Object(server))?;
    let text = writer.values_text()?.unwrap();

    let mut reader = Config::new("/tmp/c.yaml", "svc")?;
    reader.load_values(Some(&text))?;
    let read = reader.get_param("server", &no_env())?;
    assert_eq!(read["host"].as_str(), Some("localhost"));
    assert_eq!(read["port"].as_u64(), Some(8080));
    Ok(())
}
