//! The text the probe emits: one line per probe, a header before the loop,
//! and the closing statistics, each built exactly as specified.
//!
//! Elapsed times arrive as whole microseconds; a probe line shows the time in
//! milliseconds with one decimal digit, the summary in whole milliseconds,
//! both rounded to nearest (half away from zero).

use vstd::prelude::*;
use vstd::string::StrSliceExecFns;
use vstd::string::StringExecFns;
use crate::stats::Counts;
use crate::stats::ProbeError;
use crate::stats::ProbeResult;

verus! {

/// The decimal digit character for `d` (meaningful for `d < 10`).
pub open spec fn digit_char(d: nat) -> char {
    if d == 0 {
        '0'
    } else if d == 1 {
        '1'
    } else if d == 2 {
        '2'
    } else if d == 3 {
        '3'
    } else if d == 4 {
        '4'
    } else if d == 5 {
        '5'
    } else if d == 6 {
        '6'
    } else if d == 7 {
        '7'
    } else if d == 8 {
        '8'
    } else {
        '9'
    }
}

/// The decimal numeral of `n`, most significant digit first, no leading
/// zeros (a single `0` for zero).
pub open spec fn dec_str(n: nat) -> Seq<char>
    decreases n,
{
    if n < 10 {
        seq![digit_char(n)]
    } else {
        dec_str(n / 10) + seq![digit_char(n % 10)]
    }
}

/// The one-character text of a single decimal digit.
fn digit_str(d: u64) -> (s: &'static str)
    requires
        d < 10,
    ensures
        s@ == seq![digit_char(d as nat)],
{
    if d == 0 {
        proof {
            reveal_strlit("0");
            assert("0"@ =~= seq!['0']);
        }
        "0"
    } else if d == 1 {
        proof {
            reveal_strlit("1");
            assert("1"@ =~= seq!['1']);
        }
        "1"
    } else if d == 2 {
        proof {
            reveal_strlit("2");
            assert("2"@ =~= seq!['2']);
        }
        "2"
    } else if d == 3 {
        proof {
            reveal_strlit("3");
            assert("3"@ =~= seq!['3']);
        }
        "3"
    } else if d == 4 {
        proof {
            reveal_strlit("4");
            assert("4"@ =~= seq!['4']);
        }
        "4"
    } else if d == 5 {
        proof {
            reveal_strlit("5");
            assert("5"@ =~= seq!['5']);
        }
        "5"
    } else if d == 6 {
        proof {
            reveal_strlit("6");
            assert("6"@ =~= seq!['6']);
        }
        "6"
    } else if d == 7 {
        proof {
            reveal_strlit("7");
            assert("7"@ =~= seq!['7']);
        }
        "7"
    } else if d == 8 {
        proof {
            reveal_strlit("8");
            assert("8"@ =~= seq!['8']);
        }
        "8"
    } else {
        proof {
            reveal_strlit("9");
            assert("9"@ =~= seq!['9']);
        }
        "9"
    }
}

/// Renders `n` as its decimal numeral.
pub fn u64_to_string(n: u64) -> (s: String)
    ensures
        s@ == dec_str(n as nat),
    decreases n,
{
    if n < 10 {
        digit_str(n).to_owned()
    } else {
        let q = n / 10;
        let r = n % 10;
        assert(q < n);
        let mut s = u64_to_string(q);
        s.append(digit_str(r));
        s
    }
}

/// The message for each probe failure kind.
pub open spec fn spec_error_message(e: ProbeError) -> Seq<char> {
    match e {
        ProbeError::Connect => "Failed to connect to Shadowsocks"@,
        ProbeError::Handshake => "Failed to start HTTP connection"@,
        ProbeError::Send => "Failed to send HTTP request"@,
    }
}

impl ProbeError {
    /// The human-readable message for this failure, as the probe line shows
    /// it.
    pub fn message(&self) -> (m: &'static str)
        ensures
            m@ == spec_error_message(*self),
    {
        match self {
            ProbeError::Connect => "Failed to connect to Shadowsocks",
            ProbeError::Handshake => "Failed to start HTTP connection",
            ProbeError::Send => "Failed to send HTTP request",
        }
    }
}

/// The line announcing the loop: `PING {target} via {proxy}.`
pub open spec fn spec_ping_header(target: Seq<char>, proxy: Seq<char>) -> Seq<char> {
    "PING "@ + target + " via "@ + proxy + "."@
}

/// Elapsed microseconds rounded to the nearest tenth of a millisecond.
pub open spec fn spec_tenths(micros: u64) -> int {
    micros as int / 100 + if micros as int % 100 >= 50 {
        1int
    } else {
        0int
    }
}

/// Elapsed microseconds rounded to the nearest whole millisecond.
pub open spec fn spec_whole_ms(micros: u64) -> int {
    micros as int / 1000 + if micros as int % 1000 >= 500 {
        1int
    } else {
        0int
    }
}

/// A probe line for an obtained HTTP status:
/// `Status {code} from {target} via {proxy}: time={ms}.{tenths}ms`, the time
/// in milliseconds rounded to one decimal digit.
pub open spec fn spec_status_line(
    code: u16,
    target: Seq<char>,
    proxy: Seq<char>,
    micros: u64,
) -> Seq<char> {
    "Status "@ + dec_str(code as nat) + " from "@ + target + " via "@ + proxy + ": time="@
        + dec_str((spec_tenths(micros) / 10) as nat) + "."@ + seq![
        digit_char((spec_tenths(micros) % 10) as nat),
    ] + "ms"@
}

/// A probe line for a transport failure:
/// `From {target} via {proxy}: {message}`.
pub open spec fn spec_failure_line(target: Seq<char>, proxy: Seq<char>, msg: Seq<char>) -> Seq<
    char,
> {
    "From "@ + target + " via "@ + proxy + ": "@ + msg
}

/// The one log line a completed probe emits: a status line when a status was
/// obtained (success or not), a failure line otherwise.
pub open spec fn spec_probe_line(
    r: ProbeResult,
    target: Seq<char>,
    proxy: Seq<char>,
    micros: u64,
) -> Seq<char> {
    match r {
        ProbeResult::Success(code) => spec_status_line(code, target, proxy, micros),
        ProbeResult::HttpError(code) => spec_status_line(code, target, proxy, micros),
        ProbeResult::Failure(e) => spec_failure_line(target, proxy, spec_error_message(e)),
    }
}

/// The closing statistics line:
/// `{total} attempted, {success} succeeded, {error} errors, time {ms}ms`.
pub open spec fn spec_summary_line(c: Counts, micros: u64) -> Seq<char> {
    dec_str(c.total as nat) + " attempted, "@ + dec_str(c.success as nat) + " succeeded, "@
        + dec_str(c.error as nat) + " errors, time "@ + dec_str(spec_whole_ms(micros) as nat)
        + "ms"@
}

/// Builds the loop announcement line.
pub fn format_ping_header(target: &str, proxy: &str) -> (line: String)
    ensures
        line@ == spec_ping_header(target@, proxy@),
{
    let mut line = "PING ".to_owned();
    line.append(target);
    line.append(" via ");
    line.append(proxy);
    line.append(".");
    proof {
        assert(line@ =~= spec_ping_header(target@, proxy@));
    }
    line
}

fn format_status_line(code: u16, target: &str, proxy: &str, micros: u64) -> (line: String)
    ensures
        line@ == spec_status_line(code, target@, proxy@, micros),
{
    let mut line = "Status ".to_owned();
    let code_text = u64_to_string(code as u64);
    line.append(code_text.as_str());
    line.append(" from ");
    line.append(target);
    line.append(" via ");
    line.append(proxy);
    line.append(": time=");
    let tenths: u64 = micros / 100 + (if micros % 100 >= 50 {
        1
    } else {
        0
    });
    let ms_text = u64_to_string(tenths / 10);
    line.append(ms_text.as_str());
    line.append(".");
    line.append(digit_str(tenths % 10));
    line.append("ms");
    proof {
        assert(line@ =~= spec_status_line(code, target@, proxy@, micros));
    }
    line
}

/// Builds the one log line for a completed probe.
pub fn format_probe_line(r: &ProbeResult, target: &str, proxy: &str, elapsed_micros: u64) -> (line:
    String)
    ensures
        line@ == spec_probe_line(*r, target@, proxy@, elapsed_micros),
{
    match r {
        ProbeResult::Success(code) => format_status_line(*code, target, proxy, elapsed_micros),
        ProbeResult::HttpError(code) => format_status_line(*code, target, proxy, elapsed_micros),
        ProbeResult::Failure(e) => {
            let mut line = "From ".to_owned();
            line.append(target);
            line.append(" via ");
            line.append(proxy);
            line.append(": ");
            line.append(e.message());
            proof {
                assert(line@ =~= spec_failure_line(target@, proxy@, spec_error_message(*e)));
            }
            line
        },
    }
}

/// The heading above the closing statistics.
pub fn statistics_header() -> (line: &'static str)
    ensures
        line@ == "--- ping statistics ---"@,
{
    "--- ping statistics ---"
}

/// Builds the closing statistics line from the final counters and the whole
/// run's elapsed time.
pub fn format_summary_line(c: &Counts, elapsed_micros: u64) -> (line: String)
    ensures
        line@ == spec_summary_line(*c, elapsed_micros),
{
    let total_text = u64_to_string(c.total);
    let mut line = total_text;
    line.append(" attempted, ");
    let success_text = u64_to_string(c.success);
    line.append(success_text.as_str());
    line.append(" succeeded, ");
    let error_text = u64_to_string(c.error);
    line.append(error_text.as_str());
    line.append(" errors, time ");
    let ms: u64 = elapsed_micros / 1000 + (if elapsed_micros % 1000 >= 500 {
        1
    } else {
        0
    });
    let ms_text = u64_to_string(ms);
    line.append(ms_text.as_str());
    line.append("ms");
    proof {
        assert(line@ =~= spec_summary_line(*c, elapsed_micros));
    }
    line
}

} // verus!
