use shelly_exporter::config::Config;
use shelly_exporter::text::{host_of_url, push_decimal, same_text, strip_repeated, up_to_colon};
use std::time::Duration;

fn base_config() -> Config {
    Config {
        hosts: vec!["http://192.168.1.100".to_string()],
        names: None,
        username: "admin".to_string(),
        password: None,
        port: 9925,
        bind: "0.0.0.0".to_string(),
        poll_interval: 30,
        http_timeout: 10,
        log_level: "info".to_string(),
        enable_discovery: false,
        discovery_interval: 300,
    }
}

#[test]
fn test_metrics_bind_address() {
    let config = Config {
        hosts: vec!["http://192.168.1.100".to_string()],
        names: None,
        username: "admin".to_string(),
        password: None,
        port: 9925,
        bind: "0.0.0.0".to_string(),
        poll_interval: 30,
        http_timeout: 10,
        log_level: "info".to_string(),
        enable_discovery: false,
        discovery_interval: 300,
    };

    assert_eq!(config.metrics_bind_address(), "0.0.0.0:9925");
}

#[test]
fn test_durations() {
    let config = Config {
        hosts: vec!["http://192.168.1.100".to_string()],
        names: None,
        username: "admin".to_string(),
        password: None,
        port: 9925,
        bind: "0.0.0.0".to_string(),
        poll_interval: 45,
        http_timeout: 15,
        log_level: "info".to_string(),
        enable_discovery: false,
        discovery_interval: 600,
    };

    assert_eq!(config.poll_interval_duration(), Duration::from_secs(45));
    assert_eq!(config.http_timeout_duration(), Duration::from_secs(15));
    assert_eq!(config.discovery_interval_duration(), Duration::from_secs(600));
}

#[test]
fn test_auth() {
    let config_without_password = Config {
        hosts: vec!["http://192.168.1.100".to_string()],
        names: None,
        username: "admin".to_string(),
        password: None,
        port: 9925,
        bind: "0.0.0.0".to_string(),
        poll_interval: 30,
        http_timeout: 10,
        log_level: "info".to_string(),
        enable_discovery: false,
        discovery_interval: 300,
    };

    assert!(config_without_password.auth().is_none());

    let config_with_password = Config {
        hosts: vec!["http://192.168.1.100".to_string()],
        names: None,
        username: "admin".to_string(),
        password: Some("secret".to_string()),
        port: 9925,
        bind: "0.0.0.0".to_string(),
        poll_interval: 30,
        http_timeout: 10,
        log_level: "info".to_string(),
        enable_discovery: false,
        discovery_interval: 300,
    };

    assert_eq!(
        config_with_password.auth(),
        Some(("admin".to_string(), "secret".to_string()))
    );
}

#[test]
fn test_get_device_names() {
    let config_with_names = Config {
        hosts: vec![
            "http://192.168.1.100".to_string(),
            "http://192.168.1.101:8080".to_string(),
        ],
        names: Some(vec!["Living Room".to_string(), "Kitchen".to_string()]),
        username: "admin".to_string(),
        password: None,
        port: 9925,
        bind: "0.0.0.0".to_string(),
        poll_interval: 30,
        http_timeout: 10,
        log_level: "info".to_string(),
        enable_discovery: false,
        discovery_interval: 300,
    };

    let names = config_with_names.get_device_names();
    assert_eq!(names.len(), 2);
    assert_eq!(names[0], ("http://192.168.1.100".to_string(), "Living Room".to_string()));
    assert_eq!(names[1], ("http://192.168.1.101:8080".to_string(), "Kitchen".to_string()));

    let config_without_names = Config {
        hosts: vec![
            "http://192.168.1.100".to_string(),
            "https://shelly.local".to_string(),
        ],
        names: None,
        username: "admin".to_string(),
        password: None,
        port: 9925,
        bind: "0.0.0.0".to_string(),
        poll_interval: 30,
        http_timeout: 10,
        log_level: "info".to_string(),
        enable_discovery: false,
        discovery_interval: 300,
    };

    let names = config_without_names.get_device_names();
    assert_eq!(names.len(), 2);
    assert_eq!(names[0], ("http://192.168.1.100".to_string(), "192.168.1.100".to_string()));
    assert_eq!(names[1], ("https://shelly.local".to_string(), "shelly.local".to_string()));
}

#[test]
fn test_partial_device_names() {
    let config = Config {
        hosts: vec![
            "http://192.168.1.100".to_string(),
            "http://192.168.1.101".to_string(),
            "http://192.168.1.102".to_string(),
        ],
        names: Some(vec!["Living Room".to_string(), "Kitchen".to_string()]),
        username: "admin".to_string(),
        password: None,
        port: 9925,
        bind: "0.0.0.0".to_string(),
        poll_interval: 30,
        http_timeout: 10,
        log_level: "info".to_string(),
        enable_discovery: false,
        discovery_interval: 300,
    };

    let names = config.get_device_names();
    assert_eq!(names.len(), 3);
    assert_eq!(names[0], ("http://192.168.1.100".to_string(), "Living Room".to_string()));
    assert_eq!(names[1], ("http://192.168.1.101".to_string(), "Kitchen".to_string()));
    assert_eq!(names[2], ("http://192.168.1.102".to_string(), "192.168.1.102".to_string()));
}

#[test]
fn third_host_without_name_uses_bare_host_with_port_stripped() {
    let mut config = base_config();
    config.hosts = vec![
        "http://10.0.0.1".to_string(),
        "http://10.0.0.2".to_string(),
        "https://plug.lan:8443".to_string(),
    ];
    config.names = Some(vec!["Desk".to_string(), "Hall".to_string()]);
    let names = config.get_device_names();
    assert_eq!(names[0].1, "Desk");
    assert_eq!(names[1].1, "Hall");
    assert_eq!(names[2].1, "plug.lan");
}

#[test]
fn empty_host_list_gives_no_names() {
    let mut config = base_config();
    config.hosts = vec![];
    assert!(config.get_device_names().is_empty());
}

#[test]
fn bind_address_with_small_and_large_ports() {
    let mut config = base_config();
    config.bind = "127.0.0.1".to_string();
    config.port = 0;
    assert_eq!(config.metrics_bind_address(), "127.0.0.1:0");
    config.port = 65535;
    assert_eq!(config.metrics_bind_address(), "127.0.0.1:65535");
    config.port = 80;
    assert_eq!(config.metrics_bind_address(), "127.0.0.1:80");
}

#[test]
fn host_of_url_strips_schemes_and_port() {
    assert_eq!(host_of_url("http://192.168.1.100:80"), "192.168.1.100");
    assert_eq!(host_of_url("https://shelly.local"), "shelly.local");
    assert_eq!(host_of_url("http://http://x:1"), "x");
    assert_eq!(host_of_url("http://https://y"), "y");
    assert_eq!(host_of_url("plain"), "plain");
    assert_eq!(host_of_url(""), "");
    assert_eq!(host_of_url(":9"), "");
}

#[test]
fn text_helpers() {
    assert_eq!(strip_repeated("ababc", "ab"), "c");
    assert_eq!(strip_repeated("abc", ""), "abc");
    assert_eq!(up_to_colon("a:b:c"), "a");
    assert_eq!(up_to_colon("abc"), "abc");
    assert!(same_text("abc", "abc"));
    assert!(!same_text("abc", "abd"));
    assert!(!same_text("abc", "ab"));
    let mut s = "n=".to_string();
    push_decimal(&mut s, 1200);
    assert_eq!(s, "n=1200");
}
