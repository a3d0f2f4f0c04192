use config_server::{Config, ConfigUpdateSubscriber, EnvConfigs, Publisher};
use serde_yaml::Value;
use std::collections::BTreeMap;
use std::sync::{Arc, Mutex};
use tokio::sync::watch::{self, Receiver};

struct MockSubscriber {
    env: String,
    received_updates: Mutex<Vec<Arc<Config>>>,
}

impl MockSubscriber {
    fn new(env: &str) -> Self {
        MockSubscriber {
            env: env.to_string(),
            received_updates: Mutex::new(vec![]),
        }
    }

    fn has_received_updates(&self) -> bool {
        !self.received_updates.lock().unwrap().is_empty()
    }
}

impl ConfigUpdateSubscriber for MockSubscriber {
    fn update(&self, env: String, config: Arc<Config>) {
        if env == self.env {
            self.received_updates.lock().unwrap().push(config);
        }
    }

    fn env(&self) -> String {
        self.env.clone()
    }
}

fn mock_config(setting_value: &str) -> Arc<Config> {
    let mut settings = BTreeMap::new();
    settings.insert("setting".to_string(), Value::from(setting_value));
    Arc::new(Config { settings })
}

fn setup_publisher() -> (Publisher, Receiver<(String, Arc<Config>)>) {
    let (tx, rx) = watch::channel((String::new(), Arc::new(Config { settings: BTreeMap::new() })));

    let mut initial_config_settings = BTreeMap::new();
    initial_config_settings.insert("setting".to_string(), Value::from("initial value"));
    let initial_config = Arc::new(Config { settings: initial_config_settings });

    let mut initial_configs = EnvConfigs::new();
    initial_configs.insert("default".to_string(), initial_config);

    let publisher = Publisher::new(tx, initial_configs, "default".to_string());

    (publisher, rx)
}

fn block_on<F: std::future::Future>(f: F) -> F::Output {
    tokio::runtime::Builder::new_current_thread()
        .enable_all()
        .build()
        .expect("runtime")
        .block_on(f)
}

#[test]
fn publisher_initializes_correctly() {
    let (mut publisher, mut rx) = setup_publisher();

    let expected_initial_env = "default".to_string();
    let expected_initial_setting_value = "initial value";

    assert!(
        block_on(rx.changed()).is_ok(),
        "Expected to receive an initial configuration broadcast."
    );

    let (initial_env_broadcast, initial_config_broadcast) = rx.borrow().clone();

    assert_eq!(initial_env_broadcast, expected_initial_env, "The initial environment should match.");

    let setting_value = initial_config_broadcast.settings.get("setting").and_then(|val| val.as_str());
    assert_eq!(
        setting_value,
        Some(expected_initial_setting_value),
        "The initial config's setting should match the expected value."
    );

    let test_subscriber = Arc::new(MockSubscriber::new("test_env"));
    publisher.subscribe(test_subscriber.clone());

    assert!(
        !test_subscriber.has_received_updates(),
        "Subscriber should not receive updates upon initialization."
    );
}

#[test]
fn subscriber_receives_updates() {
    let (mut publisher, _rx) = setup_publisher();
    let subscriber = Arc::new(MockSubscriber::new("dev"));

    publisher.subscribe(subscriber.clone());

    let new_config = mock_config("updated value");
    publisher.update_config_for_env("dev".to_string(), new_config.clone());

    let received_updates = subscriber.received_updates.lock().unwrap();
    assert!(!received_updates.is_empty(), "Subscriber should receive update");
    assert_eq!(received_updates[0].settings.get("setting"), Some(&Value::from("updated value")));
}

#[test]
fn update_config_updates_internal_state() {
    let (mut publisher, _rx) = setup_publisher();

    let new_config = mock_config("new value");
    publisher.update_config_for_env("test_env".to_string(), new_config.clone());

    let config = publisher.get_config_for_env("test_env").unwrap();
    assert_eq!(config.settings.get("setting"), Some(&Value::from("new value")));
}

#[test]
fn get_config_history_returns_all_versions() {
    let (mut publisher, _rx) = setup_publisher();

    publisher.update_config_for_env("test_env".to_string(), mock_config("value1"));
    publisher.update_config_for_env("test_env".to_string(), mock_config("value2"));

    let history = publisher.get_config_history_for_env("test_env").unwrap();
    assert_eq!(history.len(), 2);
    assert_eq!(history[0].config.settings.get("setting"), Some(&Value::from("value1")));
    assert_eq!(history[1].config.settings.get("setting"), Some(&Value::from("value2")));
}
