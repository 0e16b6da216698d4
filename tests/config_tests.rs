use wsp::config::{config_path, data_dir_with, default_workspaces_dir_with, mirrors_dir};
use wsp::error::WsError;
use wsp::identity::Identity;
use wsp::mirror;

#[test]
fn test_data_dir_xdg_set() {
    let dir = data_dir_with(Some("/custom/data"), None).unwrap();
    assert_eq!(dir, "/custom/data/ws");
}

#[test]
fn test_data_dir_xdg_empty_falls_back_to_home() {
    let dir = data_dir_with(Some(""), Some("/home/user")).unwrap();
    assert_eq!(dir, "/home/user/.local/share/ws");
}

#[test]
fn test_data_dir_no_xdg_uses_home() {
    let dir = data_dir_with(None, Some("/home/user")).unwrap();
    assert_eq!(dir, "/home/user/.local/share/ws");
}

#[test]
fn test_data_dir_no_home_errors() {
    assert!(data_dir_with(None, None).is_err());
}

#[test]
fn test_config_path() {
    let p = config_path(&data_dir_with(Some("/custom/data"), None).unwrap());
    assert_eq!(p, "/custom/data/ws/config.yaml");
}

#[test]
fn test_mirrors_dir() {
    let dir = mirrors_dir(&data_dir_with(Some("/custom/data"), None).unwrap());
    assert_eq!(dir, "/custom/data/ws/mirrors");
}

#[test]
fn test_default_workspaces_dir() {
    let dir = default_workspaces_dir_with(Some("/home/user")).unwrap();
    assert_eq!(dir, "/home/user/dev/workspaces");
}

#[test]
fn default_workspaces_dir_without_home_errors() {
    assert!(matches!(default_workspaces_dir_with(None), Err(WsError::NoHome)));
}

#[test]
fn test_dir() {
    let root = mirrors_dir(&data_dir_with(Some("/data"), None).unwrap());
    let parsed = Identity { host: "github.com".into(), owner: "user".into(), repo: "repo-a".into() };
    assert_eq!(mirror::dir(&root, &parsed), "/data/ws/mirrors/github.com/user/repo-a.git");
}

#[test]
fn trailing_slash_root_is_not_doubled() {
    assert_eq!(mirrors_dir("/data/ws/"), "/data/ws/mirrors");
}
