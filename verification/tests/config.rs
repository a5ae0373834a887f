use ssping::config::SetupError;
use ssping::config::build_config;
use ssping::interval::ParseNonNegativeFloatError;
use ssping::target::ConfigError;
use ssping::target::TargetHost;
use ssping::target::default_test_url;

const PROXY: &str = "ss://YWVzLTEyOC1nY206dGVzdA@192.168.100.1:8888";

#[test]
fn full_configuration_builds() {
    let c = build_config(PROXY, default_test_url(), Some(1), "1").unwrap();
    assert_eq!(c.proxy.host, "192.168.100.1");
    assert_eq!(c.target.host, TargetHost::Domain("www.google.com".to_string()));
    assert_eq!(c.target.port, 80);
    assert_eq!(c.test_url_path, "/generate_204");
    assert_eq!(c.max_count, Some(1));
    assert_eq!(c.interval.as_millis(), 1000);
}

#[test]
fn bad_proxy_url_fails_first() {
    let e = build_config("nonsense", default_test_url(), None, "1").unwrap_err();
    assert_eq!(e, SetupError::Config(ConfigError::InvalidProxyUrl));
    assert_eq!(e.message(), "Failed to parse Shadowsocks URL");
}

#[test]
fn bad_test_url_fails_second() {
    let e = build_config(PROXY, "not a url", None, "not a number").unwrap_err();
    assert_eq!(e, SetupError::Config(ConfigError::InvalidTestUrl));
    assert_eq!(e.message(), "Invalid test URL");
}

#[test]
fn https_scheme_is_fatal_before_the_interval_check() {
    let e = build_config(PROXY, "https://example.com", None, "not a number").unwrap_err();
    assert_eq!(e, SetupError::Config(ConfigError::UnsupportedScheme));
    assert_eq!(e.message(), "Unsupported scheme. Only HTTP is supported.");
}

#[test]
fn bad_interval_is_fatal() {
    let e = build_config(PROXY, default_test_url(), None, "soon").unwrap_err();
    assert_eq!(e, SetupError::Interval(ParseNonNegativeFloatError::NotANumber));
    assert_eq!(e.message(), "Invalid interval: invalid float literal");
}

#[test]
fn negative_interval_is_fatal() {
    let e = build_config(PROXY, default_test_url(), None, "-0.5").unwrap_err();
    assert_eq!(e, SetupError::Interval(ParseNonNegativeFloatError::Negative));
    assert_eq!(e.message(), "Invalid interval: negative value");
}

#[test]
fn fractional_interval_is_kept_in_milliseconds() {
    let c = build_config(PROXY, default_test_url(), None, "0.5").unwrap();
    assert_eq!(c.interval.as_millis(), 500);
    assert_eq!(c.max_count, None);
}
