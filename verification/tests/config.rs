use campus_autologin::config::{
    join_path, apply_config_updates, AppConfig, ConfigError, ConfigUpdates, LoadError,
    LoadFailure, PathError, UpdateError, DEFAULT_OFFLINE_CHECK_INTERVAL_SECS,
};

fn valid_config() -> AppConfig {
    let mut config = AppConfig::default();
    config.auth.username = "2022000000".to_owned();
    config.auth.password = "secret".to_owned();
    config
}

fn no_updates() -> ConfigUpdates {
    ConfigUpdates {
        username: None,
        password: None,
        portal_url: None,
        probe_url: None,
        online_check_interval_secs: None,
        request_timeout_secs: None,
        campus_cidrs: None,
        campus_gateways: None,
    }
}

#[test]
fn defaults_match_the_documented_config() {
    let config = AppConfig::default();
    assert_eq!(config.auth.username, "");
    assert_eq!(config.auth.password, "");
    assert_eq!(config.auth.portal_url, "http://172.18.3.3/0.htm");
    assert_eq!(config.detect.probe_url, "http://www.baidu.com/");
    assert_eq!(config.detect.request_timeout_secs, 8);
    assert_eq!(config.daemon.online_check_interval_secs, 300);
    assert_eq!(config.daemon.offline_check_interval_secs, 15);
    assert_eq!(DEFAULT_OFFLINE_CHECK_INTERVAL_SECS, 15);
    assert!(config.campus.ipv4_cidrs.is_empty());
    assert_eq!(config.campus.gateway_hosts, vec!["172.18.3.3".to_owned(), "172.18.2.2".to_owned()]);
}

#[test]
fn default_config_needs_credentials() {
    assert_eq!(AppConfig::default().validate(), Err(ConfigError::EmptyUsername));
    assert_eq!(valid_config().validate(), Ok(()));
}

#[test]
fn validation_reports_each_rule() {
    let mut c = valid_config();
    c.auth.username = "   ".to_owned();
    assert_eq!(c.validate(), Err(ConfigError::EmptyUsername));

    let mut c = valid_config();
    c.auth.password = String::new();
    assert_eq!(c.validate(), Err(ConfigError::EmptyPassword));

    let mut c = valid_config();
    c.auth.portal_url = "not a url".to_owned();
    assert_eq!(c.validate(), Err(ConfigError::InvalidPortalUrl));

    let mut c = valid_config();
    c.detect.probe_url = "/relative/path".to_owned();
    assert_eq!(c.validate(), Err(ConfigError::InvalidProbeUrl));

    let mut c = valid_config();
    c.detect.request_timeout_secs = 0;
    assert_eq!(c.validate(), Err(ConfigError::ZeroRequestTimeout));

    let mut c = valid_config();
    c.daemon.online_check_interval_secs = 0;
    assert_eq!(c.validate(), Err(ConfigError::ZeroOnlineInterval));

    let mut c = valid_config();
    c.daemon.offline_check_interval_secs = 0;
    assert_eq!(c.validate(), Err(ConfigError::ZeroOfflineInterval));

    let mut c = valid_config();
    c.campus.ipv4_cidrs = vec!["10.0.0.0/8".to_owned(), "10.0.0.0/40".to_owned()];
    assert_eq!(c.validate(), Err(ConfigError::InvalidCidr("10.0.0.0/40".to_owned())));

    let mut c = valid_config();
    c.campus.gateway_hosts = vec![];
    assert_eq!(c.validate(), Err(ConfigError::NoGateways));

    let mut c = valid_config();
    c.campus.gateway_hosts = vec!["172.18.3.3".to_owned(), " \t".to_owned()];
    assert_eq!(c.validate(), Err(ConfigError::EmptyGateway));
}

#[test]
fn validation_checks_rules_in_order() {
    let mut c = AppConfig::default();
    c.auth.password = String::new();
    c.detect.request_timeout_secs = 0;
    assert_eq!(c.validate(), Err(ConfigError::EmptyUsername));
    c.auth.username = "u".to_owned();
    assert_eq!(c.validate(), Err(ConfigError::EmptyPassword));
    c.auth.password = "p".to_owned();
    assert_eq!(c.validate(), Err(ConfigError::ZeroRequestTimeout));
}

#[test]
fn error_messages() {
    assert_eq!(ConfigError::EmptyUsername.message(), "username must not be empty");
    assert_eq!(ConfigError::EmptyPassword.message(), "password must not be empty");
    assert_eq!(ConfigError::InvalidPortalUrl.message(), "portal_url must be a valid absolute URL");
    assert_eq!(ConfigError::InvalidProbeUrl.message(), "probe_url must be a valid absolute URL");
    assert_eq!(
        ConfigError::ZeroRequestTimeout.message(),
        "request_timeout_secs must be greater than zero"
    );
    assert_eq!(
        ConfigError::ZeroOnlineInterval.message(),
        "online_check_interval_secs must be greater than zero"
    );
    assert_eq!(
        ConfigError::ZeroOfflineInterval.message(),
        "offline_check_interval_secs must be greater than zero"
    );
    assert_eq!(
        ConfigError::InvalidCidr("x/9".to_owned()).message(),
        "invalid campus IPv4 CIDR: x/9"
    );
    assert_eq!(ConfigError::NoGateways.message(), "campus.gateway_hosts must not be empty");
    assert_eq!(
        ConfigError::EmptyGateway.message(),
        "campus.gateway_hosts must not contain empty values"
    );
    assert_eq!(PathError::NoConfigDir.message(), "could not resolve a platform config directory");
    assert_eq!(PathError::NoHomeDir.message(), "could not resolve the current user home path");
}

#[test]
fn redaction_hides_only_a_nonempty_password() {
    let c = valid_config();
    let r = c.redacted();
    assert_eq!(r.auth.password, "***redacted***");
    assert_eq!(r.auth.username, c.auth.username);
    assert_eq!(r.campus.gateway_hosts, c.campus.gateway_hosts);
    assert_eq!(c.auth.password, "secret");
    let empty = AppConfig::default().redacted();
    assert_eq!(empty.auth.password, "");
}

#[test]
fn paths_live_under_the_config_directory() {
    assert_eq!(
        AppConfig::config_path_in("/home/u/.config", '/'),
        "/home/u/.config/campus-network/config.toml"
    );
    assert_eq!(
        AppConfig::log_path_in("/home/u/.config/", '/'),
        "/home/u/.config/campus-network/daemon.log"
    );
    assert_eq!(join_path("", "a", '/'), "a");
    assert_eq!(join_path("/", "a", '/'), "/a");
    let sep = std::path::MAIN_SEPARATOR;
    if let Ok(path) = AppConfig::config_path() {
        assert!(path.ends_with(&format!("campus-network{sep}config.toml")));
    }
    if let Ok(path) = AppConfig::log_path() {
        assert!(path.ends_with(&format!("campus-network{sep}daemon.log")));
    }
}

#[test]
fn windows_paths_use_backslashes() {
    assert_eq!(
        AppConfig::config_path_in("C:\\Users\\u\\AppData\\Roaming", '\\'),
        "C:\\Users\\u\\AppData\\Roaming\\campus-network\\config.toml"
    );
    assert_eq!(
        AppConfig::log_path_in("C:\\Users\\u\\AppData\\Roaming\\", '\\'),
        "C:\\Users\\u\\AppData\\Roaming\\campus-network\\daemon.log"
    );
    assert_eq!(join_path("C:/data/", "x", '\\'), "C:/data/x");
    assert_eq!(join_path("/data", "x", '\\'), "/data\\x");
}

#[test]
fn config_set_requires_some_value() {
    assert_eq!(
        apply_config_updates(AppConfig::default(), no_updates()).err(),
        Some(UpdateError::NoValues)
    );
    assert_eq!(
        UpdateError::NoValues.message(),
        "no values provided; use --username/--password/--portal-url/--probe-url/--campus-cidrs/--campus-gateways"
    );
}

#[test]
fn config_set_applies_and_validates() {
    let mut updates = no_updates();
    updates.username = Some("alice".to_owned());
    updates.password = Some("pw".to_owned());
    updates.campus_gateways = Some(vec!["10.0.0.1".to_owned()]);
    updates.request_timeout_secs = Some(3);
    let c = apply_config_updates(AppConfig::default(), updates).expect("valid");
    assert_eq!(c.auth.username, "alice");
    assert_eq!(c.auth.password, "pw");
    assert_eq!(c.campus.gateway_hosts, vec!["10.0.0.1".to_owned()]);
    assert_eq!(c.detect.request_timeout_secs, 3);
    assert_eq!(c.daemon.online_check_interval_secs, 300);

    let mut bad = no_updates();
    bad.username = Some("alice".to_owned());
    let r = apply_config_updates(AppConfig::default(), bad);
    assert_eq!(r.err(), Some(UpdateError::Invalid(ConfigError::EmptyPassword)));
    assert_eq!(
        UpdateError::Invalid(ConfigError::EmptyPassword).message(),
        "password must not be empty"
    );
}

#[test]
fn loading_checks_what_was_read() {
    let path = "/etc/campus-network/config.toml";
    assert_eq!(AppConfig::load(path, Ok(valid_config())).map(|c| c.auth.username), Ok("2022000000".to_owned()));
    assert_eq!(
        AppConfig::load(path, Ok(AppConfig::default())).err(),
        Some(LoadError::Invalid(ConfigError::EmptyUsername))
    );
    assert_eq!(
        AppConfig::load(path, Err(LoadFailure::Read("denied".to_owned()))).err(),
        Some(LoadError::Read(path.to_owned(), "denied".to_owned()))
    );
    assert_eq!(
        AppConfig::load(path, Err(LoadFailure::Parse("bad toml".to_owned()))).err(),
        Some(LoadError::Parse(path.to_owned(), "bad toml".to_owned()))
    );
    assert_eq!(
        AppConfig::load_required(path, None).err(),
        Some(LoadError::NotFound(path.to_owned()))
    );
    assert!(AppConfig::load_required(path, Some(Ok(valid_config()))).is_ok());
}

#[test]
fn load_error_messages() {
    assert_eq!(
        LoadError::NotFound("/x/config.toml".to_owned()).message(),
        "config not found at /x/config.toml; run without arguments to open the setup wizard"
    );
    assert_eq!(
        LoadError::Read("/x".to_owned(), "e".to_owned()).message(),
        "failed to read config file /x"
    );
    assert_eq!(
        LoadError::Parse("/x".to_owned(), "e".to_owned()).message(),
        "failed to parse config file /x"
    );
    assert_eq!(
        LoadError::Invalid(ConfigError::NoGateways).message(),
        "campus.gateway_hosts must not be empty"
    );
}
