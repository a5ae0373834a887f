//! Probe outcome classification and the statistics the probe loop accumulates.

use vstd::prelude::*;

verus! {

/// Why a single probe attempt failed before an HTTP status was obtained.
#[derive(Clone, Copy, Debug, PartialEq, Eq, Structural)]
pub enum ProbeError {
    /// The proxied connection to the target could not be established.
    Connect,
    /// The HTTP handshake over the established stream failed.
    Handshake,
    /// Sending the request or awaiting the status line failed.
    Send,
}

/// The classified result of one probe: an HTTP status in the 2xx range is a
/// success, any other status is an HTTP-level error, and a transport failure
/// carries its [`ProbeError`] reason.
#[derive(Clone, Copy, Debug, PartialEq, Eq, Structural)]
pub enum ProbeResult {
    Success(u16),
    HttpError(u16),
    Failure(ProbeError),
}

/// An HTTP status code counts as a success exactly when it lies in the
/// 2xx range.
pub open spec fn spec_is_success_status(code: u16) -> bool {
    200 <= code < 300
}

/// Classifies the raw outcome of one probe attempt: a status code becomes
/// `Success` or `HttpError` by the 2xx rule, a transport failure is kept.
pub fn classify(raw: Result<u16, ProbeError>) -> (r: ProbeResult)
    ensures
        r == (match raw {
            Ok(code) => if spec_is_success_status(code) {
                ProbeResult::Success(code)
            } else {
                ProbeResult::HttpError(code)
            },
            Err(e) => ProbeResult::Failure(e),
        }),
{
    match raw {
        Ok(code) => {
            if 200 <= code && code < 300 {
                ProbeResult::Success(code)
            } else {
                ProbeResult::HttpError(code)
            }
        },
        Err(e) => ProbeResult::Failure(e),
    }
}

/// Running totals owned by the probe loop: attempts made, successes, errors.
#[derive(Clone, Copy, Debug, PartialEq, Eq, Structural)]
pub struct Counts {
    pub total: u64,
    pub success: u64,
    pub error: u64,
}

impl Counts {
    /// Invariant kept after every completed iteration: every attempt is
    /// counted as exactly one of success or error.
    pub open spec fn wf(self) -> bool {
        self.total == self.success + self.error
    }

    /// Fresh counters: nothing attempted yet.
    pub fn new() -> (c: Counts)
        ensures
            c.total == 0,
            c.success == 0,
            c.error == 0,
            c.wf(),
    {
        Counts { total: 0, success: 0, error: 0 }
    }

    /// Records one completed probe: the attempt total rises by one, and the
    /// result is counted as a success exactly when it is `Success`.
    pub fn record(&mut self, r: &ProbeResult)
        requires
            old(self).wf(),
            old(self).total < u64::MAX,
        ensures
            final(self).wf(),
            final(self).total == old(self).total + 1,
            final(self).success == old(self).success + (if r is Success {
                1int
            } else {
                0int
            }),
            final(self).error == old(self).error + (if r is Success {
                0int
            } else {
                1int
            }),
    {
        self.total = self.total + 1;
        match r {
            ProbeResult::Success(_) => {
                self.success = self.success + 1;
            },
            _ => {
                self.error = self.error + 1;
            },
        }
    }

    /// Whether another probe should run: always when no limit is configured,
    /// otherwise only while fewer than `max_count` attempts have completed.
    pub fn should_continue(&self, max_count: Option<u64>) -> (b: bool)
        ensures
            b == (match max_count {
                Option::None => true,
                Option::Some(n) => self.total < n,
            }),
    {
        match max_count {
            Option::None => true,
            Option::Some(n) => self.total < n,
        }
    }
}

/// How many probes a run performs when `outcomes_available` probes could be
/// made and `max_count` limits them: all of them without a limit, otherwise
/// the smaller of the two.
pub open spec fn processed_count(outcomes_available: nat, max_count: Option<u64>) -> nat {
    match max_count {
        Option::None => outcomes_available,
        Option::Some(n) => if n as nat <= outcomes_available {
            n as nat
        } else {
            outcomes_available
        },
    }
}

/// How many of the given outcomes are successes (status in the 2xx range).
pub open spec fn success_count(outcomes: Seq<ProbeResult>) -> nat
    decreases outcomes.len(),
{
    if outcomes.len() == 0 {
        0
    } else {
        success_count(outcomes.drop_last()) + (if outcomes.last() is Success {
            1nat
        } else {
            0nat
        })
    }
}

/// The counters a run of the probe loop accumulates over a given sequence of
/// outcomes: one attempt per outcome, split into successes and errors.
pub open spec fn counts_of(outcomes: Seq<ProbeResult>) -> Counts {
    Counts {
        total: outcomes.len() as u64,
        success: success_count(outcomes) as u64,
        error: (outcomes.len() - success_count(outcomes)) as u64,
    }
}

proof fn lemma_success_count_le_len(outcomes: Seq<ProbeResult>)
    ensures
        success_count(outcomes) <= outcomes.len(),
    decreases outcomes.len(),
{
    if outcomes.len() > 0 {
        lemma_success_count_le_len(outcomes.drop_last());
    }
}

/// The probe loop without its network and timing effects: walks the given
/// outcomes in order, recording each, until the optional probe-count limit is
/// reached or the outcomes run out. Exactly `processed_count` probes are
/// recorded, and the resulting counters match the outcome sequence.
pub fn aggregate(outcomes: &Vec<ProbeResult>, max_count: Option<u64>) -> (c: Counts)
    ensures
        c.wf(),
        c.total == processed_count(outcomes@.len(), max_count),
        c == counts_of(outcomes@.take(processed_count(outcomes@.len(), max_count) as int)),
{
    let ghost limit = processed_count(outcomes@.len(), max_count);
    let mut c = Counts::new();
    let mut i: usize = 0;
    proof {
        assert(outcomes@.take(0) =~= Seq::<ProbeResult>::empty());
    }
    while i < outcomes.len() && c.should_continue(max_count)
        invariant
            i <= outcomes@.len(),
            c.total == i,
            c.wf(),
            c == counts_of(outcomes@.take(i as int)),
            match max_count {
                Option::None => true,
                Option::Some(n) => i <= n,
            },
        decreases outcomes@.len() - i,
    {
        proof {
            lemma_success_count_le_len(outcomes@.take(i as int));
            assert(outcomes@.take(i + 1).drop_last() =~= outcomes@.take(i as int));
            assert(outcomes@.take(i + 1).last() == outcomes@[i as int]);
        }
        c.record(&outcomes[i]);
        i = i + 1;
    }
    proof {
        assert(i as nat == limit);
        assert(outcomes@.take(i as int) =~= outcomes@.take(limit as int));
    }
    c
}

/// A configured probe-count limit is exact: whenever at least `n` outcomes
/// could be obtained, a loop limited to `n` performs exactly `n` probes and
/// then stops, whatever each outcome was.
pub proof fn lemma_probe_count_limit(outcomes: Seq<ProbeResult>, n: u64)
    requires
        outcomes.len() >= n,
    ensures
        processed_count(outcomes.len(), Option::Some(n)) == n,
        counts_of(outcomes.take(processed_count(outcomes.len(), Option::Some(n)) as int)).total
            == n,
{
    assert(outcomes.take(n as int).len() == n as int);
}

/// After every number of completed iterations, the counters balance: the
/// attempt total equals successes plus errors.
pub proof fn lemma_counts_balance(outcomes: Seq<ProbeResult>)
    requires
        outcomes.len() <= u64::MAX,
    ensures
        counts_of(outcomes).wf(),
{
    lemma_success_count_le_len(outcomes);
}

/// The process exit code: `2` on a fatal configuration or listener error,
/// otherwise `0` exactly when at least one probe succeeded and `1` otherwise
/// (including when no probe was attempted).
pub fn exit_code(fatal: bool, c: &Counts) -> (code: u8)
    ensures
        code == 0 <==> (!fatal && c.success > 0),
        code == 1 <==> (!fatal && c.success == 0),
        code == 2 <==> fatal,
{
    if fatal {
        2
    } else if c.success > 0 {
        0
    } else {
        1
    }
}

} // verus!
