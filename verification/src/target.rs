//! Resolution of the test URL into a probe target: scheme policy, host kind,
//! port and request path.

use vstd::prelude::*;

verus! {

#[verifier::external_type_specification]
#[verifier::external_body]
pub struct ExUrlParseError(url::ParseError);

/// The host of a probe target, kept apart by kind: a domain name gets a
/// `Host` request header later, literal IP addresses do not. IP addresses are
/// carried in their canonical text form.
#[derive(Debug, PartialEq, Eq)]
pub enum TargetHost {
    Domain(String),
    Ipv4(String),
    Ipv6(String),
}

/// A URL's origin as plain values: either opaque, or a (scheme, host, port)
/// tuple.
#[derive(Debug, PartialEq, Eq)]
pub enum UrlOrigin {
    Opaque,
    Tuple(String, TargetHost, u16),
}

/// Whether the url crate accepts the string as a URL. Parsing is a function
/// of the input string alone.
pub uninterp spec fn url_ok(s: Seq<char>) -> bool;

/// The origin of the URL the string parses to, as plain values (meaningful
/// when `url_ok` holds). Opaque origins all map to `Opaque`, so the result is
/// a function of the string alone.
pub uninterp spec fn url_origin_of(s: Seq<char>) -> UrlOrigin;

/// The percent-encoded path of the URL the string parses to (meaningful when
/// `url_ok` holds); a function of the string alone.
pub uninterp spec fn url_path_of(s: Seq<char>) -> Seq<char>;

/// Relies on url::Url::parse, url::Url::origin and url::Url::path: parsing
/// succeeds as a function of the input string alone, and then the origin
/// (converted to plain values, one arm per host kind, IP literals in their
/// canonical text) and the path are functions of the string as well.
#[verifier::external_body]
fn parse_url_parts(s: &str) -> (r: Result<(UrlOrigin, String), url::ParseError>)
    ensures
        (r is Ok) <==> url_ok(s@),
        r matches Ok(op) ==> op.0 == url_origin_of(s@) && op.1@ == url_path_of(s@),
{
    let u = url::Url::parse(s)?;
    let origin = match u.origin() {
        url::Origin::Opaque(_) => UrlOrigin::Opaque,
        url::Origin::Tuple(scheme, host, port) => UrlOrigin::Tuple(scheme, match host {
            url::Host::Domain(d) => TargetHost::Domain(d),
            url::Host::Ipv4(ip) => TargetHost::Ipv4(ip.to_string()),
            url::Host::Ipv6(ip) => TargetHost::Ipv6(ip.to_string()),
        }, port),
    };
    Ok((origin, u.path().to_owned()))
}

/// The test URL used when none is supplied.
pub fn default_test_url() -> (s: &'static str)
    ensures
        s@ == "http://www.google.com/generate_204"@,
{
    "http://www.google.com/generate_204"
}

/// A fatal configuration error, detected before any probe runs.
#[derive(Clone, Copy, Debug, PartialEq, Eq, Structural)]
pub enum ConfigError {
    /// The proxy URL could not be parsed.
    InvalidProxyUrl,
    /// The test URL could not be parsed.
    InvalidTestUrl,
    /// The test URL has a scheme other than `http`, or an opaque origin.
    UnsupportedScheme,
}

/// The message for each configuration error.
pub open spec fn spec_config_error_message(e: ConfigError) -> Seq<char> {
    match e {
        ConfigError::InvalidProxyUrl => "Failed to parse Shadowsocks URL"@,
        ConfigError::InvalidTestUrl => "Invalid test URL"@,
        ConfigError::UnsupportedScheme => "Unsupported scheme. Only HTTP is supported."@,
    }
}

impl ConfigError {
    /// The human-readable message for this error, as the process prints it.
    pub fn message(&self) -> (m: &'static str)
        ensures
            m@ == spec_config_error_message(*self),
    {
        match self {
            ConfigError::InvalidProxyUrl => "Failed to parse Shadowsocks URL",
            ConfigError::InvalidTestUrl => "Invalid test URL",
            ConfigError::UnsupportedScheme => "Unsupported scheme. Only HTTP is supported.",
        }
    }
}

/// The immutable descriptor of the endpoint being probed.
#[derive(Debug, PartialEq, Eq)]
pub struct ProbeTarget {
    pub host: TargetHost,
    pub port: u16,
}

/// Scheme policy: only `http` is supported; any other scheme, and any opaque
/// origin, is a fatal configuration error raised before any connection
/// attempt.
pub fn resolve_origin(origin: UrlOrigin) -> (r: Result<ProbeTarget, ConfigError>)
    ensures
        (r is Ok) <==> (origin matches UrlOrigin::Tuple(s, _h, _p) && s@ == "http"@),
        origin matches UrlOrigin::Tuple(s, h, p) ==> ((s@ == "http"@) ==> (r matches Ok(t)
            && t.host == h && t.port == p)),
        (r is Err) ==> r == Err::<ProbeTarget, ConfigError>(ConfigError::UnsupportedScheme),
{
    match origin {
        UrlOrigin::Opaque => Err(ConfigError::UnsupportedScheme),
        UrlOrigin::Tuple(scheme, host, port) => {
            let http: String = "http".to_owned();
            if scheme == http {
                Ok(ProbeTarget { host, port })
            } else {
                Err(ConfigError::UnsupportedScheme)
            }
        },
    }
}

/// Parses the test URL and resolves it into a probe target and request path.
/// A string the url crate rejects is `InvalidTestUrl`; a URL whose origin is
/// not an `http` tuple is `UnsupportedScheme`; every other URL resolves to
/// its origin's host and port and its path.
pub fn resolve_target(url_str: &str) -> (r: Result<(ProbeTarget, String), ConfigError>)
    ensures
        (!url_ok(url_str@)) <==> r == Err::<(ProbeTarget, String), ConfigError>(
            ConfigError::InvalidTestUrl,
        ),
        (r is Ok) <==> (url_ok(url_str@) && (url_origin_of(url_str@) matches UrlOrigin::Tuple(
            sc,
            _h,
            _p,
        ) && sc@ == "http"@)),
        r matches Ok(tp) ==> (url_origin_of(url_str@) matches UrlOrigin::Tuple(_sc, h, port)
            && tp.0.host == h && tp.0.port == port && tp.1@ == url_path_of(url_str@)),
        r matches Err(e) ==> (e == ConfigError::InvalidTestUrl || e
            == ConfigError::UnsupportedScheme),
{
    let (origin, path) = match parse_url_parts(url_str) {
        Ok(op) => op,
        Err(_) => {
            return Err(ConfigError::InvalidTestUrl);
        },
    };
    let target = match resolve_origin(origin) {
        Ok(t) => t,
        Err(e) => {
            return Err(e);
        },
    };
    Ok((target, path))
}

/// The spec-level display text of a target host.
pub open spec fn spec_host_text(h: TargetHost) -> Seq<char> {
    match h {
        TargetHost::Domain(d) => d@,
        TargetHost::Ipv4(s) => s@,
        TargetHost::Ipv6(s) => s@,
    }
}

impl TargetHost {
    /// The display text of this host, as it appears in log lines.
    pub fn text(&self) -> (s: String)
        ensures
            s@ == spec_host_text(*self),
    {
        match self {
            TargetHost::Domain(d) => d.clone(),
            TargetHost::Ipv4(s) => s.clone(),
            TargetHost::Ipv6(s) => s.clone(),
        }
    }
}

/// The value of the request's `Host` header: the domain for domain-name
/// targets, and nothing for IP-literal targets, which get no such header.
pub fn host_header(h: &TargetHost) -> (r: Option<String>)
    ensures
        (r is Some) <==> (h is Domain),
        *h matches TargetHost::Domain(d) ==> (r matches Some(v) && v@ == d@),
{
    match h {
        TargetHost::Domain(d) => Some(d.clone()),
        _ => None,
    }
}

} // verus!
