use bonnie_cfg::{
    get_cfg, get_cfg_path, resolve_cfg_path, CfgError, EnvValue, BONNIE_CONF_VAR, BX_CONF_VAR,
    DEFAULT_BONNIE_CFG_PATH, DEFAULT_BX_CFG_PATH,
};

fn found(path: &str) -> EnvValue {
    EnvValue::Found(path.to_string())
}

#[test]
fn bx_conf_env_takes_priority() {
    let custom_path = "/custom/path/config.toml";

    let result = get_cfg_path(found(custom_path), EnvValue::Absent, false).unwrap();
    assert_eq!(result, custom_path);

    let result = get_cfg_path(found(custom_path), EnvValue::Absent, true).unwrap();
    assert_eq!(result, custom_path);
}

#[test]
fn bonnie_conf_env_used_when_bx_conf_not_set() {
    let custom_path = "/custom/bonnie/config.toml";

    let result = get_cfg_path(EnvValue::Absent, found(custom_path), false).unwrap();
    assert_eq!(result, custom_path);

    let result = get_cfg_path(EnvValue::Absent, found(custom_path), true).unwrap();
    assert_eq!(result, custom_path);
}

#[test]
fn bx_conf_takes_priority_over_bonnie_conf() {
    let bx_path = "/bx/config.toml";
    let bonnie_path = "/bonnie/config.toml";

    let result = get_cfg_path(found(bx_path), found(bonnie_path), false).unwrap();
    assert_eq!(result, bx_path);

    let result = get_cfg_path(found(bx_path), found(bonnie_path), true).unwrap();
    assert_eq!(result, bx_path);
}

#[test]
fn defaults_to_bonnie_toml_when_no_env_vars() {
    for exists in [false, true] {
        let result = get_cfg_path(EnvValue::Absent, EnvValue::Absent, exists).unwrap();
        assert!(
            result == DEFAULT_BX_CFG_PATH || result == DEFAULT_BONNIE_CFG_PATH,
            "Expected either {} or {}, got {}",
            DEFAULT_BX_CFG_PATH,
            DEFAULT_BONNIE_CFG_PATH,
            result
        );
    }
}

#[test]
fn default_file_names() {
    assert_eq!(DEFAULT_BX_CFG_PATH, "./bx.toml");
    assert_eq!(DEFAULT_BONNIE_CFG_PATH, "./bonnie.toml");
    assert_eq!(BX_CONF_VAR, "BX_CONF");
    assert_eq!(BONNIE_CONF_VAR, "BONNIE_CONF");
}

#[test]
fn primary_default_used_when_present() {
    let result = get_cfg_path(EnvValue::Absent, EnvValue::Absent, true);
    assert_eq!(result, Ok("./bx.toml".to_string()));
}

#[test]
fn legacy_default_used_when_primary_absent() {
    let result = get_cfg_path(EnvValue::Absent, EnvValue::Absent, false);
    assert_eq!(result, Ok("./bonnie.toml".to_string()));
}

#[test]
fn resolve_covers_every_combination() {
    let a = Some("/a.toml".to_string());
    let b = Some("/b.toml".to_string());
    assert_eq!(resolve_cfg_path(a.clone(), b.clone(), true), "/a.toml");
    assert_eq!(resolve_cfg_path(a.clone(), b.clone(), false), "/a.toml");
    assert_eq!(resolve_cfg_path(a.clone(), None, true), "/a.toml");
    assert_eq!(resolve_cfg_path(a.clone(), None, false), "/a.toml");
    assert_eq!(resolve_cfg_path(None, b.clone(), true), "/b.toml");
    assert_eq!(resolve_cfg_path(None, b.clone(), false), "/b.toml");
    assert_eq!(resolve_cfg_path(None, None, true), "./bx.toml");
    assert_eq!(resolve_cfg_path(None, None, false), "./bonnie.toml");
}

#[test]
fn override_wins_over_existing_primary_default() {
    let result = get_cfg_path(found("/a.toml"), EnvValue::Absent, true);
    assert_eq!(result, Ok("/a.toml".to_string()));
    assert_eq!(resolve_cfg_path(Some("/a.toml".to_string()), None, true), "/a.toml");
}

#[test]
fn nothing_set_and_no_file_gives_legacy_default_and_read_fails() {
    let path = get_cfg_path(EnvValue::Absent, EnvValue::Absent, false).unwrap();
    assert_eq!(path, "./bonnie.toml");
    let result = get_cfg(path, None);
    assert_eq!(
        result,
        Err(CfgError::ConfigReadFailed { path: "./bonnie.toml".to_string() })
    );
}

#[test]
fn empty_override_is_still_an_override() {
    assert_eq!(get_cfg_path(found(""), found("/b.toml"), true), Ok(String::new()));
    assert_eq!(resolve_cfg_path(Some(String::new()), None, true), "");
}

#[test]
fn invalid_bx_conf_is_an_error() {
    let expected = Err(CfgError::EnvironmentValueInvalid { var: "BX_CONF".to_string() });
    assert_eq!(get_cfg_path(EnvValue::Invalid, EnvValue::Absent, true), expected);
    assert_eq!(get_cfg_path(EnvValue::Invalid, found("/b.toml"), false), expected);
    assert_eq!(get_cfg_path(EnvValue::Invalid, EnvValue::Invalid, false), expected);
}

#[test]
fn invalid_bonnie_conf_is_an_error_only_when_consulted() {
    assert_eq!(
        get_cfg_path(EnvValue::Absent, EnvValue::Invalid, true),
        Err(CfgError::EnvironmentValueInvalid { var: "BONNIE_CONF".to_string() })
    );
    assert_eq!(
        get_cfg_path(found("/a.toml"), EnvValue::Invalid, true),
        Ok("/a.toml".to_string())
    );
}

#[test]
fn get_cfg_hands_the_text_on() {
    let result = get_cfg("./bx.toml".to_string(), Some("version = \"0.3.2\"\n".to_string()));
    assert_eq!(result, Ok("version = \"0.3.2\"\n".to_string()));
}

#[test]
fn read_failure_after_existence_check_passed() {
    let path = get_cfg_path(EnvValue::Absent, EnvValue::Absent, true).unwrap();
    assert_eq!(path, "./bx.toml");
    let error = get_cfg(path, None).unwrap_err();
    assert_eq!(error, CfgError::ConfigReadFailed { path: "./bx.toml".to_string() });
    assert_eq!(
        error.message(),
        "Error reading configuration file at './bx.toml', make sure the file is present in this directory and you have the permissions to read it."
    );
}

#[test]
fn invalid_variable_messages() {
    let error = get_cfg_path(EnvValue::Invalid, EnvValue::Absent, true).unwrap_err();
    assert_eq!(
        error.message(),
        "The path to your configuration file given in the 'BX_CONF' environment variable contained invalid characters. Please make sure it only contains valid Unicode."
    );
    let error = get_cfg_path(EnvValue::Absent, EnvValue::Invalid, true).unwrap_err();
    assert_eq!(
        error.message(),
        "The path to your configuration file given in the 'BONNIE_CONF' environment variable contained invalid characters. Please make sure it only contains valid Unicode."
    );
}
