use vask::config::{resolve_inner, FileConfig, DEFAULT_MODEL};
use vask::error::VaskError;

#[test]
fn flag_beats_env_and_file() {
    let file = FileConfig {
        api_key: Some("file-key".into()),
        default_model: Some("file-model".into()),
    };
    let cfg = resolve_inner(
        Some("flag-model".into()),
        Some("flag-key".into()),
        Some("env-key".into()),
        Some("env-model".into()),
        file,
    )
    .unwrap();
    assert_eq!(cfg.api_key, "flag-key");
    assert_eq!(cfg.model, "flag-model");
}

#[test]
fn env_beats_file_and_default_model_applies() {
    let file = FileConfig {
        api_key: None,
        default_model: None,
    };
    let cfg = resolve_inner(None, None, Some("env-key".into()), None, file).unwrap();
    assert_eq!(cfg.api_key, "env-key");
    assert_eq!(cfg.model, DEFAULT_MODEL);
}

#[test]
fn missing_key_is_an_error() {
    let file = FileConfig {
        api_key: None,
        default_model: None,
    };
    let err = resolve_inner(None, None, None, None, file).unwrap_err();
    assert!(err.message().contains("GEMINI_API_KEY"));
}

#[test]
fn file_fills_in_what_flag_and_env_leave_out() {
    let file = FileConfig {
        api_key: Some("file-key".into()),
        default_model: Some("file-model".into()),
    };
    let cfg = resolve_inner(None, None, None, None, file).unwrap();
    assert_eq!(cfg.api_key, "file-key");
    assert_eq!(cfg.model, "file-model");
}

#[test]
fn env_model_beats_file_model_while_key_comes_from_file() {
    let file = FileConfig {
        api_key: Some("file-key".into()),
        default_model: Some("file-model".into()),
    };
    let cfg = resolve_inner(None, None, None, Some("env-model".into()), file).unwrap();
    assert_eq!(cfg.api_key, "file-key");
    assert_eq!(cfg.model, "env-model");
}

#[test]
fn a_model_without_a_key_still_fails() {
    let file = FileConfig {
        api_key: None,
        default_model: Some("file-model".into()),
    };
    let err = resolve_inner(Some("m".into()), None, None, Some("e".into()), file).unwrap_err();
    assert!(matches!(err, VaskError::MissingApiKey));
    assert_eq!(
        err.message(),
        "no API key found. Set GEMINI_API_KEY, pass --api-key, or add api_key to ~/.config/vask/config.toml"
    );
}

#[test]
fn default_file_config_is_empty() {
    let file = FileConfig::default();
    assert!(file.api_key.is_none());
    assert!(file.default_model.is_none());
    assert_eq!(DEFAULT_MODEL, "gemini-3.5-flash");
}
