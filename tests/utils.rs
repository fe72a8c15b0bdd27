use sparus::bridge::JsonValue;
use sparus::errors::{IOErr, SparusError};
use sparus::is_executable;
use sparus::utils::{
    check_if_installed, config_string, get_game_exe_name, initial_version, launcher_name, launcher_url, plugins_url,
    version, GameEntry, Root, Stable, State,
};

fn s(text: &str) -> String {
    text.to_string()
}

#[test]
fn version_prefers_state_file() {
    let root = Root { state: State { stable: Stable { version: s("1.2.0") } } };
    assert_eq!(version(Some(&root), "1.0.0"), s("1.2.0"));
    assert_eq!(version(None, "1.0.0"), s("1.0.0"));
}

#[test]
fn configuration_lookups() {
    let url = JsonValue::Str(s("http://cms:1"));
    assert_eq!(launcher_url(Some(&url)), s("http://cms:1"));
    assert_eq!(launcher_url(None), s("http://127.0.0.1:8112"));
    assert_eq!(launcher_url(Some(&JsonValue::Int(3))), s("http://127.0.0.1:8112"));
    assert_eq!(plugins_url(None), s("http://127.0.0.1:8012"));
    assert_eq!(launcher_name(None), s("kataster"));
    assert_eq!(config_string(Some(&JsonValue::Str(s("x"))), "d"), s("x"));
    assert_eq!(initial_version(Some(&JsonValue::Str(s("1.0.0")))), Some(s("1.0.0")));
    assert_eq!(initial_version(Some(&JsonValue::Null)), None);
    assert_eq!(initial_version(None), None);
}

#[test]
fn game_executable_discovery() {
    let entries = vec![
        GameEntry { name: s("readme.txt"), is_file: true, mode: Some(0o644) },
        GameEntry { name: s("bin"), is_file: false, mode: Some(0o755) },
        GameEntry { name: s("game"), is_file: true, mode: Some(0o750) },
        GameEntry { name: s("tool"), is_file: true, mode: Some(0o755) },
    ];
    assert_eq!(get_game_exe_name(&entries), Ok(s("game")));
    let none = vec![GameEntry { name: s("x"), is_file: true, mode: None }];
    let err = get_game_exe_name(&none).unwrap_err();
    assert_eq!(err, SparusError::Game(s("No Game installed")));
    assert_eq!(err.kind(), "game-not-installed");
    assert!(get_game_exe_name(&vec![]).is_err());
}

#[test]
fn installed_check() {
    assert_eq!(check_if_installed(true, true), Ok(()));
    assert_eq!(check_if_installed(true, false), Err("Not installed"));
    assert_eq!(check_if_installed(false, false), Err("folder doesn't exist"));
}

#[test]
fn executable_bits() {
    assert!(is_executable(Some(0o100)));
    assert!(is_executable(Some(0o001)));
    assert!(!is_executable(Some(0o644)));
    assert!(!is_executable(None));
}

#[test]
fn error_kinds_and_messages() {
    let cases = vec![
        (SparusError::Io(s("m")), "io"),
        (SparusError::Update(s("m")), "update"),
        (SparusError::Repository(s("m")), "repository"),
        (SparusError::Game(s("m")), "game-not-installed"),
        (SparusError::Json(s("m")), "json"),
        (SparusError::Semver(s("m")), "semver"),
        (SparusError::Http(s("m")), "http"),
        (SparusError::Status(s("m")), "rpc-status"),
        (SparusError::StripPrefix(s("m")), "strip-prefix"),
        (SparusError::Tauri(s("m")), "shell"),
        (SparusError::Store(s("m")), "store"),
        (SparusError::Wasmtime(s("m")), "wasm"),
    ];
    for (e, kind) in cases {
        assert_eq!(e.kind(), kind);
        assert_eq!(e.message(), s("m"));
    }
    assert_eq!(SparusError::Plugin.kind(), "plugin-missing");
    assert_eq!(SparusError::Plugin.message(), s("Plugin not found"));
    assert_eq!(IOErr::Io(s("x")), IOErr::Io(s("x")));
}
