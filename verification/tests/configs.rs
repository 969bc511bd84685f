use remit_core::remit_config::parse_remit_config;
use remit_core::remit_config::ConfigManager;
use remit_core::remit_config::RemitConfig;
use remit_core::sync_config::ConfigError;
use remit_core::sync_config::RCloneConfig;
use remit_core::sync_config::RCloneManager;

#[test]
fn parse_one_sync_config() {
    let text = "[myserver]\ntype = sftp\nhost = example.com\nuser = alice\npass = hunter".to_string();
    let c = RCloneConfig::parse_config(text).unwrap();
    assert_eq!(c.name.as_str(), "myserver");
    assert_eq!(c.config_type().as_str(), "sftp");
    assert_eq!(c.host().as_str(), "example.com");
    assert_eq!(c.user().as_str(), "alice");
    assert_eq!(c.pass().as_str(), "hunter");
}

#[test]
fn parse_sync_config_strips_carriage_returns() {
    let text = "[win]\r\ntype = sftp\r\n".to_string();
    let c = RCloneConfig::parse_config(text).unwrap();
    assert_eq!(c.name.as_str(), "win");
    assert_eq!(c.config_type().as_str(), "sftp");
}

#[test]
fn parse_sync_config_short_lines_are_skipped() {
    let text = "ab\n[x]\n".to_string();
    let c = RCloneConfig::parse_config(text).unwrap();
    assert_eq!(c.name.as_str(), "x");
}

#[test]
fn parse_sync_config_missing_value_fails() {
    let text = "type = ".to_string();
    assert!(matches!(RCloneConfig::parse_config(text), Err(ConfigError::Parse)));
    let keyword_alone = "host".to_string();
    assert!(matches!(RCloneConfig::parse_config(keyword_alone), Err(ConfigError::Parse)));
}

#[test]
fn empty_sync_config() {
    let c = RCloneConfig::new(None).unwrap();
    assert_eq!(c.name.as_str(), "");
    assert_eq!(c.host().as_str(), "");
}

#[test]
fn manager_loads_and_lists_configs() {
    let mut m = RCloneManager::new(None, None);
    let output = "[alpha]\n[beta]\n".to_string();
    m.load_configs_from_output(output).unwrap();
    let mut names: Vec<String> = m.list_config_names();
    names.sort();
    // every line is parsed as a configuration of its own; the trailing empty
    // piece yields a nameless entry
    assert_eq!(names, vec!["".to_string(), "alpha".to_string(), "beta".to_string()]);
    assert!(m.config_exists(&"alpha".to_string()));
    assert!(!m.config_exists(&"gamma".to_string()));
}

#[test]
fn manager_set_config_requires_existence() {
    let mut m = RCloneManager::new(Some("rclone-x86_64-pc-windows-msvc.exe".to_string()), None);
    m.load_configs_from_output("[alpha]\n".to_string()).unwrap();
    assert_eq!(m.set_config("beta".to_string()), Err(ConfigError::NotFound));
    assert_eq!(m.chosen_config.as_str(), "");
    assert!(m.set_config("alpha".to_string()).is_ok());
    assert_eq!(m.chosen_config.as_str(), "alpha");
}

#[test]
fn manager_remove_config() {
    let mut m = RCloneManager::new(None, None);
    m.load_configs_from_output("[alpha]\n[beta]\n".to_string()).unwrap();
    m.remove_config(&"alpha".to_string());
    assert!(!m.config_exists(&"alpha".to_string()));
    assert!(m.config_exists(&"beta".to_string()));
}

#[test]
fn parse_remit_config_fields() {
    let text = "name myserver\nusername alice\npassword SECRET-REDACTED\nhost example.com\nport 22\n"
        .to_string();
    let c = parse_remit_config(text);
    assert_eq!(c.name.as_str(), "myserver");
    assert_eq!(c.username.as_str(), "alice");
    assert_eq!(c.password.as_str(), "SECRET-REDACTED");
    assert_eq!(c.host.as_str(), "example.com");
    assert_eq!(c.port.as_str(), "22");
}

#[test]
fn parse_remit_config_ignores_unknown_lines() {
    let text = "comment something\nname x\n".to_string();
    let c = parse_remit_config(text);
    assert_eq!(c.name.as_str(), "x");
    assert_eq!(c.username.as_str(), "");
}

#[test]
fn config_manager_inserts_by_name() {
    let mut m = ConfigManager::new();
    let mut a = RemitConfig::new();
    a.name = "one".to_string();
    a.host = "first".to_string();
    let mut b = RemitConfig::new();
    b.name = "one".to_string();
    b.host = "second".to_string();
    m.insert_config(a);
    m.insert_config(b);
    let configs = m.get_configs();
    assert_eq!(configs.len(), 1);
    assert_eq!(configs[0].host.as_str(), "second");
}

#[test]
fn render_config_round_trips() {
    let mut m = ConfigManager::new();
    let text = "username alice\npassword pw\nhost example.com\nname myserver\nport 22\n";
    m.read_config_text(text.to_string());
    let rendered = m.render_config(&"myserver".to_string()).unwrap();
    assert_eq!(rendered.as_str(), text);
    let again = parse_remit_config(rendered);
    assert_eq!(again.name.as_str(), "myserver");
    assert_eq!(again.username.as_str(), "alice");
}

#[test]
fn render_config_unknown_name_fails() {
    let m = ConfigManager::new();
    assert_eq!(m.render_config(&"nope".to_string()), Err(ConfigError::NotFound));
}
