//! The loop configuration, constructed once from command-line input before
//! the first probe: proxy descriptor, probe target, request path, optional
//! probe-count limit and inter-probe interval.

use vstd::prelude::*;
use vstd::string::StringExecFns;
use crate::interval::NonNegativeInterval;
use crate::interval::ParseNonNegativeFloatError;
use crate::interval::clamped_millis;
use crate::interval::is_decimal_number;
use crate::interval::is_negative_number;
use crate::proxy::ProxyDescriptor;
use crate::proxy::parse_proxy;
use crate::proxy::proxy_host_of;
use crate::proxy::proxy_url_ok;
use crate::target::ConfigError;
use crate::target::ProbeTarget;
use crate::target::UrlOrigin;
use crate::target::resolve_target;
use crate::target::url_ok;
use crate::target::url_origin_of;
use crate::target::url_path_of;

verus! {

/// A fatal setup error: either one of the configuration errors, or a rejected
/// probe interval.
#[derive(Clone, Copy, Debug, PartialEq, Eq, Structural)]
pub enum SetupError {
    Config(ConfigError),
    Interval(ParseNonNegativeFloatError),
}

/// The message text of each setup error, as the process prints it.
pub open spec fn spec_setup_message(e: SetupError) -> Seq<char> {
    match e {
        SetupError::Config(c) => crate::target::spec_config_error_message(c),
        SetupError::Interval(k) => "Invalid interval: "@
            + crate::interval::spec_parse_error_message(k),
    }
}

impl SetupError {
    /// The human-readable message for this error.
    pub fn message(&self) -> (m: String)
        ensures
            m@ == spec_setup_message(*self),
    {
        match self {
            SetupError::Config(e) => e.message().to_owned(),
            SetupError::Interval(e) => {
                let mut m = "Invalid interval: ".to_owned();
                m.append(e.message());
                proof {
                    assert(m@ =~= spec_setup_message(*self));
                }
                m
            },
        }
    }
}

/// The immutable configuration of one run, created before the loop starts and
/// read-only thereafter.
#[derive(Debug)]
pub struct LoopConfig {
    pub proxy: ProxyDescriptor,
    pub target: ProbeTarget,
    pub test_url_path: String,
    pub max_count: Option<u64>,
    pub interval: NonNegativeInterval,
}

/// Builds the whole loop configuration from command-line input, or fails with
/// the first fatal setup error. The checks run in order: the proxy URL, then
/// the test URL (parse, then scheme), then the interval text; an input that
/// any check rejects never reaches the loop.
pub fn build_config(
    ss_url: &str,
    test_url: &str,
    max_count: Option<u64>,
    interval_text: &str,
) -> (r: Result<LoopConfig, SetupError>)
    ensures
        (r == Err::<LoopConfig, SetupError>(SetupError::Config(ConfigError::InvalidProxyUrl)))
            <==> !proxy_url_ok(ss_url@),
        proxy_url_ok(ss_url@) ==> ((r == Err::<LoopConfig, SetupError>(
            SetupError::Config(ConfigError::InvalidTestUrl),
        )) <==> !url_ok(test_url@)),
        r matches Err(e) ==> (e matches SetupError::Interval(k) ==> ((k
            == ParseNonNegativeFloatError::NotANumber) <==> !is_decimal_number(interval_text@))
            && ((k == ParseNonNegativeFloatError::Negative) <==> is_negative_number(
            interval_text@,
        ))),
        (!is_decimal_number(interval_text@) || is_negative_number(interval_text@)) ==> (r is Err),
        (r is Ok) <==> (proxy_url_ok(ss_url@) && url_ok(test_url@) && (url_origin_of(test_url@)
            matches UrlOrigin::Tuple(sc, _h, _p) && sc@ == "http"@) && is_decimal_number(
            interval_text@,
        ) && !is_negative_number(interval_text@)),
        r matches Ok(c) ==> ({
            &&& c.proxy.host@ == proxy_host_of(ss_url@)
            &&& (url_origin_of(test_url@) matches UrlOrigin::Tuple(_sc, h, port) && c.target.host
                == h && c.target.port == port)
            &&& c.test_url_path@ == url_path_of(test_url@)
            &&& c.interval.millis == clamped_millis(interval_text@)
            &&& c.max_count == max_count
        }),
{
    let proxy = match parse_proxy(ss_url) {
        Ok(p) => p,
        Err(e) => {
            return Err(SetupError::Config(e));
        },
    };
    let (target, test_url_path) = match resolve_target(test_url) {
        Ok(t) => t,
        Err(e) => {
            return Err(SetupError::Config(e));
        },
    };
    let interval = match NonNegativeInterval::from_str(interval_text) {
        Ok(i) => i,
        Err(e) => {
            return Err(SetupError::Interval(e));
        },
    };
    Ok(LoopConfig { proxy, target, test_url_path, max_count, interval })
}

} // verus!
