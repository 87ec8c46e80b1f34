use kestrel::paths::{config_path_choice, get_data_dir, get_nanobot_home, home_for, join_path};

#[test]
fn test_nanobot_home_default() {
    let home = home_for(None, Some("/home/u".to_string())).unwrap();
    assert!(home.ends_with(".nanobot-rust"));
    assert_eq!(home, "/home/u/.nanobot-rust");
}

#[test]
fn test_nanobot_home_env() {
    let home = get_nanobot_home(Some("/tmp/test-nanobot")).unwrap();
    assert_eq!(home, "/tmp/test-nanobot");
}

#[test]
fn test_config_path_fallback() {
    let own = config_path_choice("/tmp/test-nanobot-config-fallback", Some("/home/u"), false, false);
    assert_eq!(own, "/tmp/test-nanobot-config-fallback/config.yaml");
    let legacy = config_path_choice("/tmp/test-nanobot-config-fallback", Some("/home/u"), false, true);
    assert_eq!(legacy, "/home/u/.nanobot/config.yaml");
    let present = config_path_choice("/tmp/h", Some("/home/u"), true, true);
    assert_eq!(present, "/tmp/h/config.yaml");
}

#[test]
fn home_unknown_is_an_error() {
    assert_eq!(home_for(None, None), Err("Could not determine home directory".to_string()));
}

#[test]
fn join_and_children() {
    assert_eq!(join_path("/a", "b"), "/a/b");
    assert_eq!(join_path("/a/", "b"), "/a/b");
    assert_eq!(join_path("/a", "/b"), "/b");
    assert_eq!(get_data_dir(Some("/x")).unwrap(), "/x/data");
}
