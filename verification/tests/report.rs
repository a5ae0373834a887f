use ssping::report::format_ping_header;
use ssping::report::format_probe_line;
use ssping::report::format_summary_line;
use ssping::report::statistics_header;
use ssping::report::u64_to_string;
use ssping::stats::Counts;
use ssping::stats::ProbeError;
use ssping::stats::ProbeResult;

#[test]
fn decimal_rendering() {
    assert_eq!(u64_to_string(0), "0");
    assert_eq!(u64_to_string(7), "7");
    assert_eq!(u64_to_string(204), "204");
    assert_eq!(u64_to_string(1234), "1234");
    assert_eq!(u64_to_string(u64::MAX), "18446744073709551615");
}

#[test]
fn ping_header_line() {
    assert_eq!(
        format_ping_header("www.google.com", "proxy.example"),
        "PING www.google.com via proxy.example."
    );
}

#[test]
fn status_line_shows_tenths_of_milliseconds() {
    let line = format_probe_line(&ProbeResult::Success(204), "www.google.com", "proxy.example", 123_456);
    assert_eq!(line, "Status 204 from www.google.com via proxy.example: time=123.5ms");
    let line = format_probe_line(&ProbeResult::Success(204), "t", "p", 123_449);
    assert_eq!(line, "Status 204 from t via p: time=123.4ms");
    let line = format_probe_line(&ProbeResult::Success(204), "t", "p", 99_960);
    assert_eq!(line, "Status 204 from t via p: time=100.0ms");
}

#[test]
fn http_error_status_uses_the_same_line_shape() {
    let line = format_probe_line(&ProbeResult::HttpError(500), "t", "p", 1_000_000);
    assert_eq!(line, "Status 500 from t via p: time=1000.0ms");
}

#[test]
fn failure_lines_carry_the_reason() {
    let line = format_probe_line(&ProbeResult::Failure(ProbeError::Connect), "t", "p", 5_000);
    assert_eq!(line, "From t via p: Failed to connect to Shadowsocks");
    let line = format_probe_line(&ProbeResult::Failure(ProbeError::Handshake), "t", "p", 5_000);
    assert_eq!(line, "From t via p: Failed to start HTTP connection");
    let line = format_probe_line(&ProbeResult::Failure(ProbeError::Send), "t", "p", 5_000);
    assert_eq!(line, "From t via p: Failed to send HTTP request");
}

#[test]
fn summary_block() {
    assert_eq!(statistics_header(), "--- ping statistics ---");
    let c = Counts { total: 3, success: 1, error: 2 };
    assert_eq!(
        format_summary_line(&c, 2_500_700),
        "3 attempted, 1 succeeded, 2 errors, time 2501ms"
    );
    assert_eq!(
        format_summary_line(&c, 2_500_300),
        "3 attempted, 1 succeeded, 2 errors, time 2500ms"
    );
}
