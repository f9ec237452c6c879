use ce_test::config::{Config, Defaults, Suite};

fn suite(location: Option<&str>) -> Suite {
    Suite {
        name: "conntest-comms".to_string(),
        path: "ce-conntest".to_string(),
        tier: Some("T3".to_string()),
        package: None,
        test: Some("comms".to_string()),
        features: None,
        ignored: None,
        location: location.map(str::to_string),
    }
}

#[test]
fn location_defaults_to_local() {
    assert_eq!(suite(None).location(), "local");
    assert_eq!(suite(Some("local")).location(), "local");
    assert_eq!(suite(Some("org:mine")).location(), "org:mine");
    assert_eq!(suite(Some("")).location(), "");
}

#[test]
fn default_path_follows_the_environment() {
    assert_eq!(Config::default_path(None), "cetest.toml");
    assert_eq!(Config::default_path(Some("/etc/ce.toml".to_string())), "/etc/ce.toml");
    assert_eq!(Config::default_path(Some(String::new())), "");
}

#[test]
fn an_empty_configuration_says_nothing() {
    let cfg = Config::default();
    assert!(cfg.suites.is_empty());
    assert_eq!(cfg.defaults.ce_bin, None);
    assert_eq!(cfg.defaults.ignored, None);
    assert_eq!(cfg.defaults.dev_link, None);
    assert_eq!(Defaults::default().ignored, None);
}
