use worktree_color_sync::config::{Config, ConfigError};
use worktree_color_sync::paths::{expand_tilde, expand_tilde_with, PathError};

#[test]
fn default_config_has_expected_values() {
    let cfg = Config::default();
    assert!(cfg.daemon.socket_path.contains("worktree-sync.sock"));
    assert_eq!(cfg.daemon.neutral_color, "#1f1f1f");
}

#[test]
fn default_config_normalizes_unchanged() {
    let mut cfg = Config::default();
    assert!(cfg.normalize().is_ok());
    assert_eq!(cfg.daemon.neutral_color, "#1f1f1f");
    assert!(cfg.colors.palette.is_none());
}

#[test]
fn normalize_rewrites_palette_and_neutral() {
    let mut cfg = Config::default();
    cfg.daemon.neutral_color = " 1F1F1F".to_string();
    cfg.colors.palette = Some(vec!["ABCDEF".into(), "#123456".into()]);
    assert!(cfg.normalize().is_ok());
    assert_eq!(cfg.daemon.neutral_color, "#1f1f1f");
    assert_eq!(cfg.palette(), vec!["#abcdef".to_string(), "#123456".to_string()]);
}

#[test]
fn normalize_stops_at_first_invalid_palette_color() {
    let mut cfg = Config::default();
    cfg.colors.palette = Some(vec!["ABCDEF".into(), "nope".into(), "FFFFFF".into()]);
    match cfg.normalize() {
        Err(ConfigError::InvalidHex(s)) => assert_eq!(s, "nope"),
        other => panic!("unexpected {:?}", other),
    }
    assert_eq!(
        cfg.colors.palette,
        Some(vec!["#abcdef".to_string(), "nope".to_string(), "FFFFFF".to_string()])
    );
}

#[test]
fn normalize_rejects_invalid_neutral_color() {
    let mut cfg = Config::default();
    cfg.daemon.neutral_color = "grey".to_string();
    assert!(matches!(cfg.normalize(), Err(ConfigError::InvalidHex(s)) if s == "grey"));
    assert_eq!(cfg.daemon.neutral_color, "grey");
}

#[test]
fn palette_is_empty_when_unset() {
    assert!(Config::default().palette().is_empty());
}

#[test]
fn tilde_paths_expand_against_home() {
    let home = Some("/Users/me".to_string());
    assert_eq!(expand_tilde_with("~/a/b", home.clone()), Ok("/Users/me/a/b".to_string()));
    assert_eq!(expand_tilde_with("~", home.clone()), Ok("/Users/me".to_string()));
    assert_eq!(expand_tilde_with("~x", home.clone()), Ok("~x".to_string()));
    assert_eq!(expand_tilde_with("/abs", home.clone()), Ok("/abs".to_string()));
    assert_eq!(expand_tilde_with("~/a", None), Err(PathError::HomeNotFound));
    assert_eq!(expand_tilde_with("~", None), Err(PathError::HomeNotFound));
    assert_eq!(expand_tilde_with("rel/p", None), Ok("rel/p".to_string()));
    assert_eq!(expand_tilde_with("~//abs", home), Ok("/abs".to_string()));
    assert_eq!(expand_tilde_with("~/a", Some("/".to_string())), Ok("/a".to_string()));
    assert_eq!(expand_tilde_with("~/a", Some("/h/".to_string())), Ok("/h/a".to_string()));
    assert_eq!(expand_tilde_with("~/a", Some(String::new())), Ok("a".to_string()));
    assert_eq!(expand_tilde_with("~/", Some("/h".to_string())), Ok("/h/".to_string()));
}

#[test]
fn config_paths_are_expanded() {
    assert_eq!(expand_tilde("/abs/x"), Ok("/abs/x".to_string()));
    let socket = Config::default().socket_path().unwrap();
    assert!(socket.ends_with("/.local/run/worktree-sync.sock"));
    assert!(!socket.starts_with('~'));
    let state = Config::default().state_path().unwrap();
    assert!(state.ends_with("/.local/state/worktree-sync/state.json"));
}
