use config_server::config_file::{classify_config_file, ConfigFileKind};
use config_server::replies::{
    config_reply, history_reply, update_is_redundant, update_reply, version_reply, CurrentLookup,
    Reply, UpdateOutcome,
};
use config_server::text::decimal_string;
use config_server::traits::concerns;
use config_server::{Config, ConfigError, ConfigUpdateSubscriber, EnvConfigs, Publisher, Timestamp};
use serde_yaml::Value;
use std::collections::BTreeMap;
use std::sync::{Arc, Mutex};
use tokio::sync::watch::{self, Receiver};

/// Records every call it gets, whatever the environment.
struct Recorder {
    name: String,
    log: Arc<Mutex<Vec<(String, String, String)>>>,
}

impl ConfigUpdateSubscriber for Recorder {
    fn update(&self, env: String, config: Arc<Config>) {
        let value = config.settings.get("setting").and_then(|v| v.as_str()).unwrap_or("").to_string();
        self.log.lock().unwrap().push((self.name.clone(), env, value));
    }

    fn env(&self) -> String {
        self.name.clone()
    }
}

fn config_with(value: &str) -> Arc<Config> {
    let mut settings = BTreeMap::new();
    settings.insert("setting".to_string(), Value::from(value));
    Arc::new(Config { settings })
}

fn publisher_with(envs: &[(&str, &str)], current: &str) -> (Publisher, Receiver<(String, Arc<Config>)>) {
    let (tx, rx) = watch::channel((String::new(), Arc::new(Config::empty())));
    let mut configs = EnvConfigs::new();
    for (env, value) in envs {
        configs.insert(env.to_string(), config_with(value));
    }
    (Publisher::new(tx, configs, current.to_string()), rx)
}

fn setting_of(c: &Config) -> Option<&str> {
    c.settings.get("setting").and_then(|v| v.as_str())
}

#[test]
fn initial_configs_become_version_one() {
    let (p, _rx) = publisher_with(&[("dev", "a"), ("prod", "b")], "dev");
    let dev = p.get_config_history_for_env("dev").unwrap();
    assert_eq!(dev.len(), 1);
    assert_eq!(dev[0].version, 1);
    assert_eq!(setting_of(&dev[0].config), Some("a"));
    let prod = p.get_config_history_for_env("prod").unwrap();
    assert_eq!(prod.len(), 1);
    assert_eq!(prod[0].version, 1);
    assert_eq!(setting_of(&prod[0].config), Some("b"));
}

#[test]
fn missing_initial_environment_broadcasts_empty_config() {
    let (_p, mut rx) = publisher_with(&[("prod", "b")], "dev");
    assert!(rx.has_changed().unwrap());
    let (env, config) = rx.borrow_and_update().clone();
    assert_eq!(env, "dev");
    assert!(config.settings.is_empty());
}

#[test]
fn initial_broadcast_shares_the_stored_config() {
    let (p, rx) = publisher_with(&[("dev", "a")], "dev");
    let (_, sent) = rx.borrow().clone();
    let stored = p.get_config_for_env("dev").unwrap();
    assert!(Arc::ptr_eq(&sent, &stored));
}

#[test]
fn read_after_update_gives_new_config() {
    let (mut p, _rx) = publisher_with(&[("dev", "a")], "dev");
    p.update_config_for_env("dev".to_string(), config_with("b"));
    assert_eq!(setting_of(&p.get_config_for_env("dev").unwrap()), Some("b"));
    p.update_config_for_env("dev".to_string(), config_with("c"));
    assert_eq!(setting_of(&p.get_config_for_env("dev").unwrap()), Some("c"));
}

#[test]
fn update_leaves_other_environments_alone() {
    let (mut p, _rx) = publisher_with(&[("dev", "a"), ("prod", "b")], "dev");
    p.update_config_for_env("dev".to_string(), config_with("c"));
    let prod = p.get_config_history_for_env("prod").unwrap();
    assert_eq!(prod.len(), 1);
    assert_eq!(setting_of(&prod[0].config), Some("b"));
}

#[test]
fn versions_are_numbered_consecutively() {
    let (mut p, _rx) = publisher_with(&[("dev", "v1")], "dev");
    p.update_config_for_env("dev".to_string(), config_with("v2"));
    p.update_config_for_env("dev".to_string(), config_with("v3"));
    p.update_config_for_env("qa".to_string(), config_with("q1"));
    let dev = p.get_config_history_for_env("dev").unwrap();
    let numbers: Vec<usize> = dev.iter().map(|v| v.version).collect();
    assert_eq!(numbers, vec![1, 2, 3]);
    let values: Vec<&str> = dev.iter().map(|v| setting_of(&v.config).unwrap()).collect();
    assert_eq!(values, vec!["v1", "v2", "v3"]);
    assert_eq!(p.get_config_history_for_env("qa").unwrap()[0].version, 1);
    assert_eq!(p.version_count("dev"), 3);
    assert_eq!(p.version_count("qa"), 1);
    assert_eq!(p.version_count("nowhere"), 0);
}

#[test]
fn timestamps_are_readings_of_the_clock() {
    let (mut p, _rx) = publisher_with(&[("dev", "a")], "dev");
    p.update_config_for_env("dev".to_string(), config_with("b"));
    for v in p.get_config_history_for_env("dev").unwrap() {
        assert!(v.timestamp.secs > 1_600_000_000);
        assert!(v.timestamp.nanos < 1_000_000_000);
    }
}

#[test]
fn specific_versions_by_number() {
    let (mut p, _rx) = publisher_with(&[("dev", "v1")], "dev");
    p.update_config_for_env("dev".to_string(), config_with("v2"));
    assert_eq!(setting_of(&p.get_specific_config_version_for_env("dev", 1).unwrap()), Some("v1"));
    assert_eq!(setting_of(&p.get_specific_config_version_for_env("dev", 2).unwrap()), Some("v2"));
    match p.get_specific_config_version_for_env("dev", 3) {
        Err(ConfigError::OutOfBounds(m)) => assert_eq!(m, "Version 3 not found for environment: dev"),
        other => panic!("unexpected {:?}", other),
    }
    match p.get_specific_config_version_for_env("dev", 0) {
        Err(ConfigError::OutOfBounds(m)) => assert_eq!(m, "Version 0 not found for environment: dev"),
        other => panic!("unexpected {:?}", other),
    }
    match version_reply(p.get_specific_config_version_for_env("dev", 0), "dev", 0) {
        Reply::BadRequest(m) => assert_eq!(m, "Invalid version number: 0 for environment: dev"),
        other => panic!("unexpected {:?}", other),
    }
    match p.get_specific_config_version_for_env("qa", 1) {
        Err(ConfigError::NotFound(m)) => assert_eq!(m, "Environment not found: qa"),
        other => panic!("unexpected {:?}", other),
    }
    match p.get_specific_config_version_for_env("qa", 0) {
        Err(ConfigError::NotFound(m)) => assert_eq!(m, "Environment not found: qa"),
        other => panic!("unexpected {:?}", other),
    }
}

#[test]
fn history_of_unknown_environment_is_not_found() {
    let (p, _rx) = publisher_with(&[("dev", "a")], "dev");
    match p.get_config_history_for_env("prod") {
        Err(ConfigError::NotFound(m)) => {
            assert_eq!(m, "No configuration history found for environment: prod")
        }
        other => panic!("unexpected {:?}", other),
    }
    assert!(p.get_config_for_env("prod").is_none());
}

#[test]
fn every_subscriber_is_told_in_order() {
    let (mut p, _rx) = publisher_with(&[("dev", "a")], "dev");
    let log = Arc::new(Mutex::new(Vec::new()));
    p.subscribe(Arc::new(Recorder { name: "first".to_string(), log: log.clone() }));
    p.subscribe(Arc::new(Recorder { name: "second".to_string(), log: log.clone() }));
    assert!(log.lock().unwrap().is_empty());
    p.update_config_for_env("qa".to_string(), config_with("x"));
    p.update_config_for_env("dev".to_string(), config_with("y"));
    let seen = log.lock().unwrap().clone();
    let expected = vec![
        ("first".to_string(), "qa".to_string(), "x".to_string()),
        ("second".to_string(), "qa".to_string(), "x".to_string()),
        ("first".to_string(), "dev".to_string(), "y".to_string()),
        ("second".to_string(), "dev".to_string(), "y".to_string()),
    ];
    assert_eq!(seen, expected);
}

#[test]
fn only_the_current_environment_is_broadcast() {
    let (mut p, mut rx) = publisher_with(&[("dev", "a")], "dev");
    rx.borrow_and_update();
    p.update_config_for_env("prod".to_string(), config_with("p"));
    assert!(!rx.has_changed().unwrap());
    p.update_config_for_env("dev".to_string(), config_with("d"));
    assert!(rx.has_changed().unwrap());
    let (env, config) = rx.borrow_and_update().clone();
    assert_eq!(env, "dev");
    assert_eq!(setting_of(&config), Some("d"));
}

#[test]
fn env_configs_behave_as_a_map() {
    let mut configs = EnvConfigs::new();
    assert!(configs.is_empty());
    assert!(configs.insert("dev".to_string(), config_with("a")).is_none());
    assert!(configs.insert("prod".to_string(), config_with("b")).is_none());
    let previous = configs.insert("dev".to_string(), config_with("c")).unwrap();
    assert_eq!(setting_of(&previous), Some("a"));
    assert_eq!(configs.len(), 2);
    assert!(configs.contains_key("dev"));
    assert!(!configs.contains_key("qa"));
    assert_eq!(setting_of(configs.get("dev").unwrap()), Some("c"));
    assert!(configs.get("qa").is_none());
}

#[test]
fn config_file_names() {
    assert_eq!(classify_config_file("application-dev.yml"), ConfigFileKind::Environment("dev".to_string()));
    assert_eq!(classify_config_file("application-prod.yaml"), ConfigFileKind::Environment("prod".to_string()));
    assert_eq!(classify_config_file("a-b-c.yml"), ConfigFileKind::Environment("c".to_string()));
    assert_eq!(classify_config_file("x.y-dev.yml"), ConfigFileKind::Environment("dev".to_string()));
    assert_eq!(classify_config_file("app-.yml"), ConfigFileKind::Environment(String::new()));
    assert_eq!(classify_config_file("app.yml"), ConfigFileKind::MissingEnvironment("app".to_string()));
    assert_eq!(classify_config_file("invalidfile.txt"), ConfigFileKind::Ignored);
    assert_eq!(classify_config_file("app-dev.YML"), ConfigFileKind::Ignored);
    assert_eq!(classify_config_file("app-dev"), ConfigFileKind::Ignored);
    assert_eq!(classify_config_file(".yml"), ConfigFileKind::Ignored);
    assert_eq!(classify_config_file("app-dev.yml.bak"), ConfigFileKind::Ignored);
    assert_eq!(classify_config_file("конфиг-тест.yaml"), ConfigFileKind::Environment("тест".to_string()));
}

#[test]
fn decimal_rendering() {
    assert_eq!(decimal_string(0), "0");
    assert_eq!(decimal_string(7), "7");
    assert_eq!(decimal_string(10), "10");
    assert_eq!(decimal_string(12345), "12345");
    assert_eq!(decimal_string(usize::MAX), usize::MAX.to_string());
}

#[test]
fn replies_for_lookups() {
    let c = config_with("a");
    match config_reply(Some(c.clone()), "dev") {
        Reply::Json(x) => assert!(Arc::ptr_eq(&x, &c)),
        other => panic!("unexpected {:?}", other),
    }
    match config_reply(None, "dev") {
        Reply::NotFound(m) => assert_eq!(m, "Configuration not found for environment: dev"),
        other => panic!("unexpected {:?}", other),
    }
    match history_reply(Err(ConfigError::NotFound("x".to_string())), "dev") {
        Reply::NotFound(m) => assert_eq!(m, "Configuration history not found for environment: dev"),
        other => panic!("unexpected {:?}", other),
    }
    match history_reply(Err(ConfigError::OutOfBounds("x".to_string())), "dev") {
        Reply::ServerError(m) => assert_eq!(m, "Unexpected error occurred"),
        other => panic!("unexpected {:?}", other),
    }
    match version_reply(Err(ConfigError::OutOfBounds("x".to_string())), "dev", 42) {
        Reply::BadRequest(m) => assert_eq!(m, "Invalid version number: 42 for environment: dev"),
        other => panic!("unexpected {:?}", other),
    }
    match version_reply(Err(ConfigError::NotFound("x".to_string())), "qa", 1) {
        Reply::NotFound(m) => assert_eq!(m, "Configuration not found for environment: qa"),
        other => panic!("unexpected {:?}", other),
    }
    let io = std::io::Error::new(std::io::ErrorKind::Other, "disk");
    match version_reply(Err(ConfigError::IoError(io)), "qa", 1) {
        Reply::ServerError(m) => assert_eq!(m, "Unexpected error occurred"),
        other => panic!("unexpected {:?}", other),
    }
}

#[test]
fn replies_for_updates() {
    match update_reply(UpdateOutcome::Unchanged) {
        Reply::Text(m) => assert_eq!(m, "No changes in configuration."),
        other => panic!("unexpected {:?}", other),
    }
    match update_reply(UpdateOutcome::Applied) {
        Reply::Text(m) => assert_eq!(m, "Configuration updated and broadcasted successfully."),
        other => panic!("unexpected {:?}", other),
    }
    match update_reply(UpdateOutcome::Rejected("busy".to_string())) {
        Reply::ServerError(m) => assert_eq!(m, "Error: busy"),
        other => panic!("unexpected {:?}", other),
    }
    match update_reply(UpdateOutcome::Undelivered) {
        Reply::ServerError(m) => assert_eq!(m, "Actor message sending failed."),
        other => panic!("unexpected {:?}", other),
    }
}

#[test]
fn redundant_updates() {
    let current = CurrentLookup::Found(config_with("a"));
    assert!(update_is_redundant(&current, &config_with("a")));
    assert!(!update_is_redundant(&current, &config_with("b")));
    assert!(!update_is_redundant(&CurrentLookup::Missing, &config_with("a")));
    assert!(!update_is_redundant(&CurrentLookup::Failed, &config_with("a")));
}

#[test]
fn yaml_errors_convert() {
    let err = serde_yaml::from_str::<BTreeMap<String, Value>>("setting: : 'invalid").unwrap_err();
    let converted: ConfigError = err.into();
    assert!(matches!(converted, ConfigError::YamlError(_)));
}

#[test]
fn config_text_is_parsed_into_settings() {
    let mut configs = EnvConfigs::new();
    configs.add_config_text("dev".to_string(), "setting: 'value'\n").unwrap();
    configs.add_config_text("prod".to_string(), "setting: 'value2'\nother: 3\n").unwrap();
    assert_eq!(configs.get("dev").unwrap().settings.get("setting"), Some(&Value::from("value")));
    assert_eq!(configs.get("prod").unwrap().settings.get("setting"), Some(&Value::from("value2")));
    assert_eq!(configs.get("prod").unwrap().settings.get("other"), Some(&Value::from(3)));
    assert_eq!(configs.len(), 2);
}

#[test]
fn broken_config_text_changes_nothing() {
    let mut configs = EnvConfigs::new();
    configs.add_config_text("dev".to_string(), "setting: 'value'").unwrap();
    let r = configs.add_config_text("broken".to_string(), "setting: : 'invalid");
    assert!(matches!(r, Err(ConfigError::YamlError(_))));
    assert!(!configs.contains_key("broken"));
    assert_eq!(configs.len(), 1);
    let r = configs.add_config_text("dev".to_string(), "setting: : 'invalid");
    assert!(matches!(r, Err(ConfigError::YamlError(_))));
    assert_eq!(configs.get("dev").unwrap().settings.get("setting"), Some(&Value::from("value")));
}

#[test]
fn io_errors_convert() {
    let missing = std::io::Error::new(std::io::ErrorKind::NotFound, "no such directory");
    match ConfigError::from_io_error(missing) {
        ConfigError::NotFound(m) => assert_eq!(m, "no such directory"),
        other => panic!("unexpected {:?}", other),
    }
    let denied = std::io::Error::new(std::io::ErrorKind::PermissionDenied, "denied");
    match ConfigError::from_io_error(denied) {
        ConfigError::IoError(e) => assert_eq!(e.kind(), std::io::ErrorKind::PermissionDenied),
        other => panic!("unexpected {:?}", other),
    }
    let missing = std::io::Error::new(std::io::ErrorKind::NotFound, "gone");
    assert!(matches!(ConfigError::from_read_dir_error(missing), ConfigError::NotFound(_)));
    let denied = std::io::Error::new(std::io::ErrorKind::PermissionDenied, "denied");
    match ConfigError::from_read_dir_error(denied) {
        ConfigError::DirectoryReadError(e) => assert_eq!(e.kind(), std::io::ErrorKind::PermissionDenied),
        other => panic!("unexpected {:?}", other),
    }
}

#[test]
fn clock_readings_before_the_epoch_become_the_epoch() {
    let t = Timestamp { secs: 5, nanos: 7 };
    assert_eq!(Timestamp::from_clock_reading(Some(t)), t);
    assert_eq!(Timestamp::from_clock_reading(None), Timestamp { secs: 0, nanos: 0 });
    let now = Timestamp::now();
    assert!(now.secs > 1_600_000_000);
    assert!(now.nanos < 1_000_000_000);
}

#[test]
fn reposting_stored_settings_is_redundant() {
    let (mut p, _rx) = publisher_with(&[("dev", "a")], "dev");
    p.update_config_for_env("dev".to_string(), config_with("b"));
    let current = CurrentLookup::Found(p.get_config_for_env("dev").unwrap());
    assert!(update_is_redundant(&current, &config_with("b")));
    assert!(!update_is_redundant(&current, &config_with("a")));
    assert_eq!(p.version_count("dev"), 2);
}

#[test]
fn subscribers_follow_their_environment() {
    assert!(concerns(&"dev".to_string(), &"dev".to_string()));
    assert!(!concerns(&"dev".to_string(), &"prod".to_string()));
}
