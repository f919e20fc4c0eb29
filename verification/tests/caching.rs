use bonnie_cfg::{
    cache, cache_path_or_default, cache_written, deserialize, load_from_cache, serialize,
    version_matches, CacheWrite, CfgError, FinalConfig, BONNIE_VERSION, DEFAULT_CACHE_PATH,
};

const CFG_STR: &str = r#"
env_files = ["src/.env"]
default_env.generic = ["sh", "-c", "{COMMAND}"]
default_env.targets.linux = ["bash", "-c", "{COMMAND}"]
[scripts]
basic.subcommands.test.cmd.generic = "exit 5"
basic.subcommands.test.cmd.targets.linux.exec = [
    "echo %SHORTGREETING %%",
    "echo %name && exit 1"
]
basic.subcommands.test.env_vars = ["SHORTGREETING"]
basic.subcommands.test.cmd.targets.linux.shell = ["sh", "-c", "{COMMAND}"]
basic.subcommands.nested.subcommands.test = "exit 2"
basic.subcommands.nested.subcommands.other = "exit 3"
basic.subcommands.nested.order = """
test {
    Any => other
}
"""
basic.args = ["name"]
basic.order = """
test {
    Any => nested {
        Any => test
    }
}
"""
"#;

fn get_cfg(version: &str) -> FinalConfig {
    FinalConfig {
        version: version.to_string(),
        env_files: vec!["src/.env".to_string()],
        body: CFG_STR.to_string(),
    }
}

fn small(version: &str, env_files: &[&str], body: &str) -> FinalConfig {
    FinalConfig {
        version: version.to_string(),
        env_files: env_files.iter().map(|file| file.to_string()).collect(),
        body: body.to_string(),
    }
}

#[test]
fn cache_works() {
    let tmp_path = "/tmp/somewhere/cache.json".to_string();
    let cfg = get_cfg(BONNIE_VERSION);
    let write = cache(&cfg, Some(tmp_path.clone()));
    assert_eq!(write.path, tmp_path);
    let res = cache_written(write.path.clone(), true);
    assert_eq!(res, Ok(()));
    let cfg_extracted = load_from_cache(Some(tmp_path), Some(write.contents), BONNIE_VERSION);
    assert_eq!(cfg_extracted, Ok(cfg));
}

#[test]
fn returns_error_on_bad_version() {
    let tmp_path = "/tmp/somewhere/cache.json".to_string();
    let mut cfg = get_cfg(BONNIE_VERSION);
    cfg.version = "0.1.0".to_string();
    let write = cache(&cfg, Some(tmp_path.clone()));
    cache_written(write.path.clone(), true).unwrap();
    let cfg_extracted = load_from_cache(Some(tmp_path), Some(write.contents), BONNIE_VERSION);
    assert!(matches!(cfg_extracted, Err(_)));
    assert_eq!(
        cfg_extracted,
        Err(CfgError::CacheVersionMismatch {
            cached: "0.1.0".to_string(),
            running: BONNIE_VERSION.to_string(),
        })
    );
}

#[test]
fn loaded_configuration_lists_its_env_files() {
    let cfg = get_cfg(BONNIE_VERSION);
    let write = cache(&cfg, None);
    let loaded = load_from_cache(None, Some(write.contents), BONNIE_VERSION).unwrap();
    assert_eq!(loaded.env_files, vec!["src/.env".to_string()]);
}

#[test]
fn same_version_loads() {
    let cfg = small("2.0.0", &["a.env", "b.env"], "scripts");
    let write = cache(&cfg, Some("c.json".to_string()));
    let loaded = load_from_cache(Some(write.path), Some(write.contents), "2.0.0");
    assert_eq!(loaded, Ok(cfg));
}

#[test]
fn other_version_is_refused() {
    let cfg = small("2.0.0", &["a.env"], "scripts");
    let write = cache(&cfg, Some("c.json".to_string()));
    let loaded = load_from_cache(Some(write.path), Some(write.contents), "2.0.1");
    assert_eq!(
        loaded,
        Err(CfgError::CacheVersionMismatch {
            cached: "2.0.0".to_string(),
            running: "2.0.1".to_string(),
        })
    );
}

#[test]
fn version_check_is_exact_text_equality() {
    assert!(version_matches("1.2.0", "1.2.0"));
    assert!(!version_matches("1.2.0", "1.2.1"));
    assert!(!version_matches("1.2.0", "1.2"));
    assert!(!version_matches("1.2.0", "1.2.0 "));
    assert!(!version_matches("1.2.0", "v1.2.0"));
    assert!(version_matches("", ""));
}

#[test]
fn default_cache_path() {
    assert_eq!(DEFAULT_CACHE_PATH, "./.bonnie.cache.json");
    assert_eq!(cache_path_or_default(None), "./.bonnie.cache.json");
    assert_eq!(cache_path_or_default(Some("x.json".to_string())), "x.json");
    let write = cache(&small("1", &[], ""), None);
    assert_eq!(write.path, "./.bonnie.cache.json");
}

#[test]
fn record_text_is_exact() {
    let cfg = small("2.0.0", &["a.env", "b.env"], "x = 1");
    assert_eq!(
        serialize(&cfg),
        r#"{"version":"2.0.0","env_files":["a.env","b.env"],"body":"x = 1"}"#
    );
    assert_eq!(
        cache(&cfg, None),
        CacheWrite {
            path: "./.bonnie.cache.json".to_string(),
            contents: r#"{"version":"2.0.0","env_files":["a.env","b.env"],"body":"x = 1"}"#
                .to_string(),
        }
    );
}

#[test]
fn record_of_empty_configuration() {
    let cfg = small("", &[], "");
    assert_eq!(serialize(&cfg), r#"{"version":"","env_files":[],"body":""}"#);
    assert_eq!(deserialize(r#"{"version":"","env_files":[],"body":""}"#), Some(cfg));
}

#[test]
fn record_with_one_env_file() {
    let cfg = small("1", &["only"], "b");
    assert_eq!(serialize(&cfg), r#"{"version":"1","env_files":["only"],"body":"b"}"#);
    assert_eq!(deserialize(&serialize(&cfg)), Some(cfg));
}

#[test]
fn special_characters_are_escaped() {
    let cfg = small("1", &[], "a\"b\\c\nd\re\tf\u{8}g\u{c}h\u{0}i\u{1f}j\u{7f}k/l");
    assert_eq!(
        serialize(&cfg),
        "{\"version\":\"1\",\"env_files\":[],\"body\":\"a\\\"b\\\\c\\nd\\re\\tf\\bg\\fh\\u0000i\\u001fj\u{7f}k/l\"}"
    );
    assert_eq!(deserialize(&serialize(&cfg)), Some(cfg));
}

#[test]
fn every_control_character_round_trips() {
    let mut body = String::new();
    for code in 0u8..=0x7f {
        body.push(code as char);
    }
    body.push_str("é€😀\u{10ffff}");
    let cfg = small("0.3.2", &["\u{1}", "", "\"", "\\", "\\u0041"], &body);
    let text = serialize(&cfg);
    assert!(text.chars().all(|c| c >= ' '));
    assert_eq!(deserialize(&text), Some(cfg));
}

#[test]
fn full_configuration_round_trips() {
    let cfg = get_cfg("2.0.0");
    let text = serialize(&cfg);
    let back = deserialize(&text).unwrap();
    assert_eq!(back.version, cfg.version);
    assert_eq!(back.env_files, cfg.env_files);
    assert_eq!(back.body, cfg.body);
    assert_eq!(serialize(&back), text);
}

#[test]
fn malformed_records_are_refused() {
    let good = r#"{"version":"1","env_files":["a"],"body":"b"}"#;
    assert!(deserialize(good).is_some());
    let bad = [
        "",
        "{",
        "{}",
        "null",
        r#"{"version":"1","env_files":["a"],"body":"b"} "#,
        r#" {"version":"1","env_files":["a"],"body":"b"}"#,
        r#"{"version": "1","env_files":["a"],"body":"b"}"#,
        r#"{"version":"1","env_files":["a"],"body":"b"}}"#,
        r#"{"version":"1","env_files":["a"],"body":"b""#,
        r#"{"version":"1","env_files":["a"],"body":"b}"#,
        r#"{"version":"1","env_files":["a",],"body":"b"}"#,
        r#"{"version":"1","env_files":[,"a"],"body":"b"}"#,
        r#"{"version":"1","env_files":["a""b"],"body":"b"}"#,
        r#"{"version":"1","env_files":["a","b","body":"b"}"#,
        r#"{"version":"1","env_files":"a","body":"b"}"#,
        r#"{"version":1,"env_files":["a"],"body":"b"}"#,
        r#"{"version":"1","body":"b","env_files":["a"]}"#,
        r#"{"version":"1","env_files":["a"]}"#,
        r#"{"Version":"1","env_files":["a"],"body":"b"}"#,
        r#"{"version":"1","env_files":["a"],"body":"b","more":"c"}"#,
        r#"{"version":"\u0041","env_files":["a"],"body":"b"}"#,
        r#"{"version":"\u000a","env_files":["a"],"body":"b"}"#,
        r#"{"version":"\u001F","env_files":["a"],"body":"b"}"#,
        r#"{"version":"\u00","env_files":["a"],"body":"b"}"#,
        r#"{"version":"\/","env_files":["a"],"body":"b"}"#,
        r#"{"version":"\x","env_files":["a"],"body":"b"}"#,
        r#"{"version":"\","env_files":["a"],"body":"b"}"#,
        "{\"version\":\"1\n\",\"env_files\":[\"a\"],\"body\":\"b\"}",
    ];
    for text in bad {
        assert_eq!(deserialize(text), None, "{}", text);
        assert_eq!(
            load_from_cache(Some("c.json".to_string()), Some(text.to_string()), "1"),
            Err(CfgError::CacheDeserializeFailed { path: "c.json".to_string() }),
            "{}",
            text
        );
    }
}

#[test]
fn lower_case_control_escapes_are_read() {
    let text = r#"{"version":"\u001f\u0000\u000b","env_files":[],"body":"\n\b"}"#;
    let cfg = small("\u{1f}\u{0}\u{b}", &[], "\n\u{8}");
    assert_eq!(deserialize(text), Some(cfg.clone()));
    assert_eq!(serialize(&cfg), text);
}

#[test]
fn missing_cache_is_a_read_failure() {
    assert_eq!(
        load_from_cache(Some("./nowhere.json".to_string()), None, BONNIE_VERSION),
        Err(CfgError::CacheReadFailed { path: "./nowhere.json".to_string() })
    );
    assert_eq!(
        load_from_cache(None, None, BONNIE_VERSION),
        Err(CfgError::CacheReadFailed { path: "./.bonnie.cache.json".to_string() })
    );
    assert_eq!(
        load_from_cache(None, Some("{}".to_string()), BONNIE_VERSION),
        Err(CfgError::CacheDeserializeFailed { path: "./.bonnie.cache.json".to_string() })
    );
}

#[test]
fn failed_write_is_reported_with_its_path() {
    let write = cache(&small("1", &[], ""), Some("/ro/cache.json".to_string()));
    assert_eq!(
        cache_written(write.path, false),
        Err(CfgError::CacheWriteFailed { path: "/ro/cache.json".to_string() })
    );
}

#[test]
fn overwriting_keeps_only_the_last_configuration() {
    let first = cache(&small("1", &["a"], "one"), Some("c.json".to_string()));
    let second = cache(&small("1", &["b"], "two"), Some("c.json".to_string()));
    assert_eq!(first.path, second.path);
    assert_ne!(first.contents, second.contents);
    assert_eq!(
        load_from_cache(Some(second.path), Some(second.contents), "1"),
        Ok(small("1", &["b"], "two"))
    );
}

#[test]
fn cache_error_messages() {
    assert_eq!(
        CfgError::CacheWriteFailed { path: "p".to_string() }.message(),
        "Error writing the configuration cache to 'p', make sure you have the permissions to write to this location."
    );
    assert_eq!(
        CfgError::CacheReadFailed { path: "p".to_string() }.message(),
        "Error reading the configuration cache at 'p', make sure the file is present and you have the permissions to read it."
    );
    assert_eq!(
        CfgError::CacheDeserializeFailed { path: "p".to_string() }.message(),
        "The configuration cache at 'p' is malformed and cannot be loaded. Please cache your configuration again."
    );
    assert_eq!(
        CfgError::CacheVersionMismatch { cached: "2.0.0".to_string(), running: "2.0.1".to_string() }
            .message(),
        "The configuration cache was written by version '2.0.0', but the version in use is '2.0.1'. Please cache your configuration again."
    );
}
