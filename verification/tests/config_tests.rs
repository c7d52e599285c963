use queuedesk::config::{
    is_config_file_name, Config, DatabaseConfig, FormConfig, FormField, NetworkConfig,
    QueueConfig,
};
use queuedesk::json::JsonValue;

#[test]
fn config_getters_return_what_was_stored() {
    let config = Config::new(
        NetworkConfig::new("127.0.0.1".to_string(), "8080".to_string()),
        DatabaseConfig::new(
            "my-project".to_string(),
            "appointments".to_string(),
            "/etc/svc/key.json".to_string(),
        ),
        QueueConfig::new(4, 12, 7),
        FormConfig::new(vec![FormField::new("name".to_string(), "text".to_string(), true)]),
    );
    assert_eq!(config.network().ip_address(), "127.0.0.1");
    assert_eq!(config.network().port(), "8080");
    assert_eq!(config.database().firebase_project_id(), "my-project");
    assert_eq!(config.database().collection(), "appointments");
    assert_eq!(config.database().service_account_key_path(), "/etc/svc/key.json");
    assert_eq!(config.queue().queues(), 4);
    assert_eq!(config.queue().queue_slots(), 12);
    assert_eq!(config.queue().days_range(), 7);
    assert_eq!(config.form().fields().len(), 1);
    assert_eq!(config.form().fields()[0].name(), "name");
    assert_eq!(config.form().fields()[0].field_type(), "text");
    assert!(config.form().fields()[0].required());
}

#[test]
fn only_the_expected_file_name_is_accepted() {
    assert!(is_config_file_name("Config.toml"));
    assert!(!is_config_file_name("config.toml"));
    assert!(!is_config_file_name("Config.tom"));
    assert!(!is_config_file_name(""));
}

#[test]
fn json_object_fields_are_looked_up_in_order() {
    let v = JsonValue::Object(vec![
        ("a".to_string(), JsonValue::Int(1)),
        ("b".to_string(), JsonValue::Text("x".to_string())),
        ("a".to_string(), JsonValue::Int(2)),
    ]);
    assert_eq!(v.get_field("a").unwrap().as_int(), Some(1));
    assert_eq!(v.get_field("b").unwrap().as_text().unwrap(), "x");
    assert!(v.get_field("c").is_none());
    assert!(v.get_field("b").unwrap().as_int().is_none());
    assert!(JsonValue::Null.get_field("a").is_none());
}
