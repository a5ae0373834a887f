use ssping::proxy::parse_proxy;
use ssping::target::ConfigError;

#[test]
fn sip002_url_parses_and_exposes_the_host() {
    // SIP002 form: base64("aes-128-gcm:test") as the user info.
    let p = parse_proxy("ss://YWVzLTEyOC1nY206dGVzdA@192.168.100.1:8888").unwrap();
    assert_eq!(p.host, "192.168.100.1");
}

#[test]
fn domain_proxy_host_is_the_domain() {
    let p = parse_proxy("ss://YWVzLTEyOC1nY206dGVzdA@proxy.example.com:8388").unwrap();
    assert_eq!(p.host, "proxy.example.com");
}

#[test]
fn unparseable_proxy_url_is_rejected() {
    assert_eq!(
        parse_proxy("not a url").map(|_| ()),
        Err(ConfigError::InvalidProxyUrl)
    );
    assert_eq!(
        parse_proxy("http://example.com").map(|_| ()),
        Err(ConfigError::InvalidProxyUrl)
    );
}
