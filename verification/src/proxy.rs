//! The proxy server descriptor: parsed once from the proxy URL, opaque to the
//! probe logic beyond a display-friendly host identifier, and handed to the
//! connector that opens proxied streams.

use vstd::prelude::*;
use crate::target::ConfigError;

verus! {

#[verifier::external_type_specification]
#[verifier::external_body]
pub struct ExServerConfig(shadowsocks::config::ServerConfig);

#[verifier::external_type_specification]
#[verifier::external_body]
pub struct ExUrlParseError(shadowsocks::config::UrlParseError);

/// Whether the shadowsocks crate accepts the string as a SIP002 server URL.
/// Parsing is a function of the input string alone.
pub uninterp spec fn proxy_url_ok(s: Seq<char>) -> bool;

/// The configured server's host text (a domain name, or the IP address's
/// canonical text) of the configuration the string parses to (meaningful when
/// `proxy_url_ok` holds); a function of the string alone.
pub uninterp spec fn proxy_host_of(s: Seq<char>) -> Seq<char>;

/// Relies on shadowsocks::config::ServerConfig::from_url,
/// shadowsocks::config::ServerConfig::addr and
/// shadowsocks::config::ServerAddr::host: parsing succeeds as a function of
/// the input string alone, and the parsed configuration's display host is a
/// function of the string as well.
#[verifier::external_body]
fn parse_server_config(s: &str) -> (r: Result<
    (shadowsocks::config::ServerConfig, String),
    shadowsocks::config::UrlParseError,
>)
    ensures
        (r is Ok) <==> proxy_url_ok(s@),
        r matches Ok(ch) ==> ch.1@ == proxy_host_of(s@),
{
    match shadowsocks::config::ServerConfig::from_url(s) {
        Ok(config) => {
            let host = config.addr().host();
            Ok((config, host))
        },
        Err(e) => Err(e),
    }
}

/// The immutable proxy descriptor: the parsed server configuration and its
/// display-friendly host text.
#[derive(Debug)]
pub struct ProxyDescriptor {
    pub config: shadowsocks::config::ServerConfig,
    pub host: String,
}

/// Parses the proxy URL once, before the loop starts. A string the
/// shadowsocks crate rejects is the fatal `InvalidProxyUrl` error; every
/// other string yields the descriptor, with the server's display host.
pub fn parse_proxy(s: &str) -> (r: Result<ProxyDescriptor, ConfigError>)
    ensures
        (r is Ok) <==> proxy_url_ok(s@),
        r matches Ok(p) ==> p.host@ == proxy_host_of(s@),
        (r is Err) ==> r == Err::<ProxyDescriptor, ConfigError>(ConfigError::InvalidProxyUrl),
{
    match parse_server_config(s) {
        Ok((config, host)) => Ok(ProxyDescriptor { config, host }),
        Err(_) => Err(ConfigError::InvalidProxyUrl),
    }
}

} // verus!
