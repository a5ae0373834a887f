//! The validated probe interval: a non-negative number of seconds, written as
//! a decimal numeral and stored as a whole number of milliseconds.
//!
//! Construction parses the text and validates it in one step. The accepted
//! form is a decimal numeral with an optional leading sign, an optional
//! fraction, and an optional exponent part (`e` or `E`, an optional sign,
//! digits); the non-finite words are not numbers here. Text in any other
//! shape is rejected as `NotANumber`, and a numeral whose value is below zero
//! is rejected as `Negative`. The accepted value is multiplied by 1000 and
//! truncated to whole milliseconds; a value too large for the millisecond
//! counter saturates at its maximum.

use vstd::prelude::*;

verus! {

/// Why interval text was rejected: not a decimal numeral at all, or a numeral
/// whose value is below zero.
#[derive(Clone, Copy, Debug, PartialEq, Eq, Structural)]
pub enum ParseNonNegativeFloatError {
    NotANumber,
    Negative,
}

/// The message for each way interval text can be rejected.
pub open spec fn spec_parse_error_message(e: ParseNonNegativeFloatError) -> Seq<char> {
    match e {
        ParseNonNegativeFloatError::NotANumber => "invalid float literal"@,
        ParseNonNegativeFloatError::Negative => "negative value"@,
    }
}

impl ParseNonNegativeFloatError {
    /// The human-readable message for this error.
    pub fn message(&self) -> (m: &'static str)
        ensures
            m@ == spec_parse_error_message(*self),
    {
        match self {
            ParseNonNegativeFloatError::NotANumber => "invalid float literal",
            ParseNonNegativeFloatError::Negative => "negative value",
        }
    }
}

/// A decimal digit.
pub open spec fn is_digit(c: char) -> bool {
    48 <= c as u32 <= 57
}

/// The numeric value of a decimal digit.
pub open spec fn digit_val(c: char) -> nat {
    (c as u32 - 48) as nat
}

pub open spec fn all_digits(s: Seq<char>) -> bool {
    forall|i: int| 0 <= i < s.len() ==> is_digit(s[i])
}

pub open spec fn all_zeros(s: Seq<char>) -> bool {
    forall|i: int| 0 <= i < s.len() ==> s[i] == '0'
}

/// Length of the optional leading sign.
pub open spec fn sign_len(s: Seq<char>) -> int {
    if s.len() > 0 && (s[0] == '+' || s[0] == '-') {
        1
    } else {
        0
    }
}

/// The text with its sign removed.
pub open spec fn unsigned_part(s: Seq<char>) -> Seq<char> {
    s.skip(sign_len(s))
}

/// Index of the first `.` in `u`, or `u.len()` if there is none.
pub open spec fn dot_pos(u: Seq<char>) -> int
    decreases u.len(),
{
    if u.len() == 0 {
        0
    } else if u[0] == '.' {
        0
    } else {
        1 + dot_pos(u.drop_first())
    }
}

/// Index of the first exponent marker (`e` or `E`) in `u`, or `u.len()` if
/// there is none.
pub open spec fn exp_pos(u: Seq<char>) -> int
    decreases u.len(),
{
    if u.len() == 0 {
        0
    } else if u[0] == 'e' || u[0] == 'E' {
        0
    } else {
        1 + exp_pos(u.drop_first())
    }
}

/// The mantissa: everything before the exponent marker.
pub open spec fn mantissa(u: Seq<char>) -> Seq<char> {
    u.take(exp_pos(u))
}

/// Whether an exponent part is present.
pub open spec fn has_exp(u: Seq<char>) -> bool {
    exp_pos(u) < u.len()
}

/// The exponent text after the marker (empty without a marker).
pub open spec fn exp_text(u: Seq<char>) -> Seq<char> {
    if has_exp(u) {
        u.skip(exp_pos(u) + 1)
    } else {
        Seq::empty()
    }
}

/// The exponent's digits, its optional sign removed.
pub open spec fn exp_digits(u: Seq<char>) -> Seq<char> {
    exp_text(u).skip(sign_len(exp_text(u)))
}

/// A present exponent part must be an optionally signed nonempty digit
/// string.
pub open spec fn exp_valid(u: Seq<char>) -> bool {
    has_exp(u) ==> (exp_digits(u).len() >= 1 && all_digits(exp_digits(u)))
}

/// The digits before the decimal point of a mantissa.
pub open spec fn int_digits(m: Seq<char>) -> Seq<char> {
    m.take(dot_pos(m))
}

/// The digits after the decimal point of a mantissa (empty when there is no
/// point).
pub open spec fn frac_digits(m: Seq<char>) -> Seq<char> {
    if dot_pos(m) == m.len() {
        Seq::empty()
    } else {
        m.skip(dot_pos(m) + 1)
    }
}

/// A decimal numeral: an optional sign, then a mantissa of digits with at
/// most one decimal point and at least one digit, then an optional exponent
/// part.
pub open spec fn is_decimal_number(s: Seq<char>) -> bool {
    let u = unsigned_part(s);
    let m = mantissa(u);
    &&& all_digits(int_digits(m))
    &&& all_digits(frac_digits(m))
    &&& int_digits(m).len() + frac_digits(m).len() >= 1
    &&& exp_valid(u)
}

/// A decimal numeral whose value is below zero: a `-` sign with at least one
/// nonzero mantissa digit (so `-0`, `-0.0`, `-0e7` and the like still count
/// as zero).
pub open spec fn is_negative_number(s: Seq<char>) -> bool {
    let u = unsigned_part(s);
    let m = mantissa(u);
    &&& is_decimal_number(s)
    &&& s.len() > 0 && s[0] == '-'
    &&& !(all_zeros(int_digits(m)) && all_zeros(frac_digits(m)))
}

/// The value of a digit string read most-significant first.
pub open spec fn digits_val(s: Seq<char>) -> nat
    decreases s.len(),
{
    if s.len() == 0 {
        0
    } else {
        10 * digits_val(s.drop_last()) + digit_val(s.last())
    }
}

/// The signed exponent value (0 without an exponent part).
pub open spec fn exp_val(u: Seq<char>) -> int {
    if !has_exp(u) {
        0
    } else if exp_text(u).len() > 0 && exp_text(u)[0] == '-' {
        -(digits_val(exp_digits(u)) as int)
    } else {
        digits_val(exp_digits(u)) as int
    }
}

/// All mantissa digits in order, the decimal point removed.
pub open spec fn mant_digits(m: Seq<char>) -> Seq<char> {
    int_digits(m) + frac_digits(m)
}

pub open spec fn pow10(n: nat) -> nat
    decreases n,
{
    if n == 0 {
        1
    } else {
        10 * pow10((n - 1) as nat)
    }
}

/// Where the decimal point of `value * 1000` falls in the mantissa's digit
/// string: after `point_pos` of its digits.
pub open spec fn point_pos(s: Seq<char>) -> int {
    let u = unsigned_part(s);
    int_digits(mantissa(u)).len() + 3 + exp_val(u)
}

/// The numeral's value in seconds, times 1000, truncated to a whole number:
/// its millisecond count before saturation. Reading the mantissa's digits
/// with the point moved three places right and then by the exponent: a point
/// at or before the first digit truncates to zero, a point past the last
/// digit appends zeros, and a point inside keeps the digits before it.
pub open spec fn spec_millis(s: Seq<char>) -> nat {
    let u = unsigned_part(s);
    let ds = mant_digits(mantissa(u));
    let p = point_pos(s);
    if p <= 0 {
        0
    } else if p >= ds.len() {
        digits_val(ds) * pow10((p - ds.len()) as nat)
    } else {
        digits_val(ds.take(p))
    }
}

/// The stored millisecond count: the value saturates at the counter maximum.
pub open spec fn clamped_millis(s: Seq<char>) -> u64 {
    if spec_millis(s) > u64::MAX {
        u64::MAX
    } else {
        spec_millis(s) as u64
    }
}

proof fn lemma_dot_pos_bounds(u: Seq<char>)
    ensures
        0 <= dot_pos(u) <= u.len(),
        dot_pos(u) < u.len() ==> u[dot_pos(u)] == '.',
        forall|j: int| 0 <= j < dot_pos(u) ==> u[j] != '.',
    decreases u.len(),
{
    if u.len() > 0 && u[0] != '.' {
        lemma_dot_pos_bounds(u.drop_first());
        assert forall|j: int| 0 <= j < dot_pos(u) implies u[j] != '.' by {
            if j > 0 {
                assert(u.drop_first()[j - 1] == u[j]);
            }
        }
    }
}

proof fn lemma_dot_pos_at_least(u: Seq<char>, i: int)
    requires
        0 <= i <= u.len(),
        forall|j: int| 0 <= j < i ==> u[j] != '.',
    ensures
        dot_pos(u) >= i,
    decreases i,
{
    lemma_dot_pos_bounds(u);
    if i > 0 {
        assert(u[0] != '.');
        assert forall|j: int| 0 <= j < i - 1 implies u.drop_first()[j] != '.' by {
            assert(u.drop_first()[j] == u[j + 1]);
        }
        lemma_dot_pos_at_least(u.drop_first(), i - 1);
        assert(dot_pos(u) == 1 + dot_pos(u.drop_first()));
    }
}

proof fn lemma_exp_pos_bounds(u: Seq<char>)
    ensures
        0 <= exp_pos(u) <= u.len(),
        exp_pos(u) < u.len() ==> (u[exp_pos(u)] == 'e' || u[exp_pos(u)] == 'E'),
        forall|j: int| 0 <= j < exp_pos(u) ==> (u[j] != 'e' && u[j] != 'E'),
    decreases u.len(),
{
    if u.len() > 0 && u[0] != 'e' && u[0] != 'E' {
        lemma_exp_pos_bounds(u.drop_first());
        assert forall|j: int| 0 <= j < exp_pos(u) implies u[j] != 'e' && u[j] != 'E' by {
            if j > 0 {
                assert(u.drop_first()[j - 1] == u[j]);
            }
        }
    }
}

proof fn lemma_exp_pos_at_least(u: Seq<char>, i: int)
    requires
        0 <= i <= u.len(),
        forall|j: int| 0 <= j < i ==> (u[j] != 'e' && u[j] != 'E'),
    ensures
        exp_pos(u) >= i,
    decreases i,
{
    lemma_exp_pos_bounds(u);
    if i > 0 {
        assert(u[0] != 'e' && u[0] != 'E');
        assert forall|j: int| 0 <= j < i - 1 implies u.drop_first()[j] != 'e' && u.drop_first()[j]
            != 'E' by {
            assert(u.drop_first()[j] == u[j + 1]);
        }
        lemma_exp_pos_at_least(u.drop_first(), i - 1);
        assert(exp_pos(u) == 1 + exp_pos(u.drop_first()));
    }
}

proof fn lemma_pow10_pos(n: nat)
    ensures
        pow10(n) >= 1,
    decreases n,
{
    if n > 0 {
        lemma_pow10_pos((n - 1) as nat);
    }
}

proof fn lemma_pow10_monotone(a: nat, b: nat)
    requires
        a <= b,
    ensures
        pow10(a) <= pow10(b),
    decreases b,
{
    lemma_pow10_pos(a);
    if a < b {
        lemma_pow10_monotone(a, (b - 1) as nat);
        assert(pow10(b) == 10 * pow10((b - 1) as nat));
    }
}

proof fn lemma_pow10_20_large()
    ensures
        pow10(20) > u64::MAX,
{
    reveal_with_fuel(pow10, 21);
    assert(pow10(20) == 100000000000000000000);
}

/// The validated interval: a non-negative duration held as whole
/// milliseconds.
#[derive(Clone, Copy, Debug, PartialEq, Eq, Structural)]
pub struct NonNegativeInterval {
    pub millis: u64,
}

/// The digit value of `c`, or nothing when `c` is no decimal digit.
fn digit_of(c: char) -> (d: Option<u64>)
    ensures
        (d is Some) <==> is_digit(c),
        d matches Some(v) ==> v == digit_val(c),
{
    let x = c as u32;
    if 48 <= x && x <= 57 {
        Some((x - 48) as u64)
    } else {
        None
    }
}

/// The value of the first `p` of the collected digits, saturating at the
/// counter maximum.
fn digits_prefix_val(dvals: &Vec<u64>, p: usize, Ghost(ds): Ghost<Seq<char>>) -> (v: u64)
    requires
        p <= dvals@.len(),
        dvals@.len() == ds.len(),
        forall|k: int| 0 <= k < ds.len() ==> #[trigger] dvals@[k] == digit_val(ds[k]),
        forall|k: int| 0 <= k < ds.len() ==> is_digit(#[trigger] ds[k]),
    ensures
        v == (if digits_val(ds.take(p as int)) > u64::MAX {
            u64::MAX as nat
        } else {
            digits_val(ds.take(p as int))
        }),
{
    let mut v: u64 = 0;
    let mut k: usize = 0;
    proof {
        assert(ds.take(0) =~= Seq::<char>::empty());
    }
    while k < p
        invariant
            k <= p,
            p <= dvals@.len(),
            dvals@.len() == ds.len(),
            forall|kk: int| 0 <= kk < ds.len() ==> #[trigger] dvals@[kk] == digit_val(ds[kk]),
            forall|kk: int| 0 <= kk < ds.len() ==> is_digit(#[trigger] ds[kk]),
            v == (if digits_val(ds.take(k as int)) > u64::MAX {
                u64::MAX as nat
            } else {
                digits_val(ds.take(k as int))
            }),
        decreases p - k,
    {
        let d = dvals[k];
        let next = match v.checked_mul(10) {
            Some(x) => match x.checked_add(d) {
                Some(y) => y,
                None => u64::MAX,
            },
            None => u64::MAX,
        };
        proof {
            let pre = ds.take(k as int);
            let pre1 = ds.take(k as int + 1);
            assert(pre1.drop_last() =~= pre);
            assert(pre1.last() == ds[k as int]);
            assert(digits_val(pre1) == 10 * digits_val(pre) + digit_val(ds[k as int]));
        }
        v = next;
        k = k + 1;
    }
    v
}

/// Cap on the tracked exponent magnitude. Any true exponent at or above it
/// moves the decimal point past every digit a machine-sized string can hold,
/// so the value saturates (or is zero) either way.
const EXP_CAP: u128 = 100000000000000000000;

impl NonNegativeInterval {
    /// An interval of exactly the given milliseconds.
    pub fn from_millis(millis: u64) -> (r: NonNegativeInterval)
        ensures
            r.millis == millis,
    {
        NonNegativeInterval { millis }
    }

    /// The interval in whole milliseconds.
    pub fn as_millis(&self) -> (m: u64)
        ensures
            m == self.millis,
    {
        self.millis
    }

    /// Parses and validates interval text in one step. Succeeds exactly on
    /// decimal numerals (optional sign, optional fraction, optional
    /// exponent) with a value of at least zero, and then holds that value as
    /// whole milliseconds (saturating at the counter maximum); text that is
    /// no numeral is `NotANumber`, a numeral below zero is `Negative`.
    #[verifier::rlimit(100)]
    pub fn from_str(s: &str) -> (r: Result<NonNegativeInterval, ParseNonNegativeFloatError>)
        ensures
            (r is Ok) <==> (is_decimal_number(s@) && !is_negative_number(s@)),
            r matches Ok(v) ==> v.millis == clamped_millis(s@),
            (r == Err::<NonNegativeInterval, ParseNonNegativeFloatError>(
                ParseNonNegativeFloatError::NotANumber,
            )) <==> !is_decimal_number(s@),
            (r == Err::<NonNegativeInterval, ParseNonNegativeFloatError>(
                ParseNonNegativeFloatError::Negative,
            )) <==> is_negative_number(s@),
    {
        let n = s.unicode_len();
        let mut idx: usize = 0;
        let mut neg = false;
        if n > 0 {
            let c0 = s.get_char(0);
            if c0 == '+' {
                idx = 1;
            } else if c0 == '-' {
                neg = true;
                idx = 1;
            }
        }
        let ghost u = s@.skip(idx as int);
        proof {
            assert(idx == sign_len(s@));
            assert(u =~= unsigned_part(s@));
            assert(neg == (s@.len() > 0 && s@[0] == '-'));
        }
        // Mantissa, integer digits: up to the decimal point, the exponent
        // marker, or the end.
        let mut dvals: Vec<u64> = Vec::new();
        let mut i: usize = idx;
        let mut zero = true;
        proof {
            assert(s@.subrange(idx as int, idx as int) =~= Seq::<char>::empty());
        }
        while i < n && s.get_char(i) != '.' && s.get_char(i) != 'e' && s.get_char(i) != 'E'
            invariant
                idx <= i <= n,
                n == s@.len(),
                idx == sign_len(s@),
                u == s@.skip(idx as int),
                u == unsigned_part(s@),
                forall|j: int| idx <= j < i ==> is_digit(s@[j]),
                dvals@.len() == i - idx,
                forall|k: int| 0 <= k < dvals@.len() ==> dvals@[k] == digit_val(s@[idx + k]),
                zero == all_zeros(s@.subrange(idx as int, i as int)),
            decreases n - i,
        {
            let c = s.get_char(i);
            let d = match digit_of(c) {
                Some(d) => d,
                None => {
                    proof {
                        // The offending character is neither a digit, a dot
                        // nor a marker, so it sits in the mantissa's integer
                        // digits.
                        assert forall|jj: int| 0 <= jj < (i - idx) + 1 implies u[jj] != 'e'
                            && u[jj] != 'E' by {
                            assert(u[jj] == s@[idx + jj]);
                        }
                        lemma_exp_pos_at_least(u, (i - idx) + 1);
                        lemma_exp_pos_bounds(u);
                        let m = mantissa(u);
                        assert forall|jj: int| 0 <= jj < (i - idx) + 1 implies m[jj] != '.' by {
                            assert(m[jj] == u[jj]);
                            assert(u[jj] == s@[idx + jj]);
                        }
                        lemma_dot_pos_at_least(m, (i - idx) + 1);
                        lemma_dot_pos_bounds(m);
                        assert(int_digits(m)[i - idx] == m[i - idx]);
                        assert(m[i - idx] == s@[i as int]);
                        assert(!all_digits(int_digits(m)));
                    }
                    return Err(ParseNonNegativeFloatError::NotANumber);
                },
            };
            proof {
                let prefix = s@.subrange(idx as int, i as int);
                let prefix1 = s@.subrange(idx as int, i as int + 1);
                if all_zeros(prefix) && digit_val(s@[i as int]) == 0 {
                    assert(s@[i as int] as u32 == 48);
                    assert(s@[i as int] == '0');
                    assert forall|j: int| 0 <= j < prefix1.len() implies prefix1[j] == '0' by {
                        if j < prefix.len() {
                            assert(prefix1[j] == prefix[j]);
                        }
                    }
                }
                if !all_zeros(prefix) {
                    let w = choose|j: int| 0 <= j < prefix.len() && prefix[j] != '0';
                    assert(prefix1[w] != '0');
                }
                if digit_val(s@[i as int]) != 0 {
                    assert(prefix1[prefix1.len() - 1] != '0');
                }
            }
            if d != 0 {
                zero = false;
            }
            dvals.push(d);
            i = i + 1;
        }
        // Mantissa, fraction digits: only when a decimal point follows.
        let has_dot = i < n && s.get_char(i) == '.';
        let fstart = if has_dot {
            i + 1
        } else {
            i
        };
        let mut j: usize = fstart;
        proof {
            assert(s@.subrange(fstart as int, fstart as int) =~= Seq::<char>::empty());
        }
        if has_dot {
            while j < n && s.get_char(j) != 'e' && s.get_char(j) != 'E'
                invariant
                    n == s@.len(),
                    idx == sign_len(s@),
                    u == s@.skip(idx as int),
                    u == unsigned_part(s@),
                    idx <= i < n,
                    s@[i as int] == '.',
                    fstart == i + 1,
                    fstart <= j <= n,
                    forall|jj: int| idx <= jj < i ==> is_digit(s@[jj]),
                    forall|k: int| fstart <= k < j ==> is_digit(s@[k]),
                    dvals@.len() == (i - idx) + (j - fstart),
                    forall|k: int| 0 <= k < i - idx ==> dvals@[k] == digit_val(s@[idx + k]),
                    forall|k: int|
                        i - idx <= k < dvals@.len() ==> dvals@[k] == digit_val(
                            s@[fstart + (k - (i - idx))],
                        ),
                    zero == (all_zeros(s@.subrange(idx as int, i as int)) && all_zeros(
                        s@.subrange(fstart as int, j as int),
                    )),
                decreases n - j,
            {
                let c = s.get_char(j);
                let d = match digit_of(c) {
                    Some(d) => d,
                    None => {
                        proof {
                            // No marker up to and including this character,
                            // so it sits in the mantissa's fraction digits.
                            assert forall|jj: int| 0 <= jj < (j - idx) + 1 implies u[jj] != 'e'
                                && u[jj] != 'E' by {
                                assert(u[jj] == s@[idx + jj]);
                            }
                            lemma_exp_pos_at_least(u, (j - idx) + 1);
                            lemma_exp_pos_bounds(u);
                            let m = mantissa(u);
                            assert forall|jj: int| 0 <= jj < i - idx implies m[jj] != '.' by {
                                assert(m[jj] == u[jj]);
                                assert(u[jj] == s@[idx + jj]);
                            }
                            assert(m[i - idx] == u[i - idx]);
                            assert(u[i - idx] == s@[i as int]);
                            lemma_dot_pos_at_least(m, i - idx);
                            lemma_dot_pos_bounds(m);
                            assert(dot_pos(m) == i - idx);
                            assert(frac_digits(m)[j - fstart] == m[(j - fstart) + (i - idx) + 1]);
                            assert(m[(j - idx)] == u[j - idx]);
                            assert(u[j - idx] == s@[j as int]);
                            assert(!all_digits(frac_digits(m)));
                        }
                        return Err(ParseNonNegativeFloatError::NotANumber);
                    },
                };
                proof {
                    let prefix = s@.subrange(fstart as int, j as int);
                    let prefix1 = s@.subrange(fstart as int, j as int + 1);
                    if all_zeros(prefix) && digit_val(s@[j as int]) == 0 {
                        assert(s@[j as int] as u32 == 48);
                        assert(s@[j as int] == '0');
                        assert forall|k: int| 0 <= k < prefix1.len() implies prefix1[k] == '0' by {
                            if k < prefix.len() {
                                assert(prefix1[k] == prefix[k]);
                            }
                        }
                    }
                    if !all_zeros(prefix) {
                        let w = choose|k: int| 0 <= k < prefix.len() && prefix[k] != '0';
                        assert(prefix1[w] != '0');
                    }
                    if digit_val(s@[j as int]) != 0 {
                        assert(prefix1[prefix1.len() - 1] != '0');
                    }
                }
                if d != 0 {
                    zero = false;
                }
                dvals.push(d);
                j = j + 1;
            }
        }
        // The mantissa ends here: at the end of the text or at a marker.
        let t = j;
        let ghost m = mantissa(u);
        let ghost ds = mant_digits(m);
        proof {
            assert forall|jj: int| 0 <= jj < t - idx implies u[jj] != 'e' && u[jj] != 'E' by {
                assert(u[jj] == s@[idx + jj]);
            }
            lemma_exp_pos_at_least(u, t - idx);
            lemma_exp_pos_bounds(u);
            if t < n {
                assert(u[t - idx] == s@[t as int]);
                assert(exp_pos(u) == t - idx);
            } else {
                assert(exp_pos(u) == u.len());
            }
            assert(m =~= s@.subrange(idx as int, t as int));
            if has_dot {
                assert forall|jj: int| 0 <= jj < i - idx implies m[jj] != '.' by {
                    assert(m[jj] == u[jj]);
                    assert(u[jj] == s@[idx + jj]);
                }
                assert(m[i - idx] == s@[i as int]);
                lemma_dot_pos_at_least(m, i - idx);
                lemma_dot_pos_bounds(m);
                assert(dot_pos(m) == i - idx);
                assert(int_digits(m) =~= s@.subrange(idx as int, i as int));
                assert(frac_digits(m) =~= s@.subrange(fstart as int, t as int));
            } else {
                assert forall|jj: int| 0 <= jj < m.len() implies m[jj] != '.' by {
                    assert(m[jj] == u[jj]);
                    assert(u[jj] == s@[idx + jj]);
                }
                lemma_dot_pos_at_least(m, m.len() as int);
                lemma_dot_pos_bounds(m);
                assert(dot_pos(m) == m.len());
                assert(t == i);
                assert(int_digits(m) =~= s@.subrange(idx as int, i as int));
                assert(frac_digits(m) =~= s@.subrange(fstart as int, t as int));
            }
            assert(all_digits(int_digits(m)));
            assert(all_digits(frac_digits(m)));
            assert(ds =~= s@.subrange(idx as int, i as int) + s@.subrange(
                fstart as int,
                t as int,
            ));
            assert(dvals@.len() == ds.len());
            assert forall|k: int| 0 <= k < ds.len() implies #[trigger] dvals@[k] == digit_val(
                ds[k],
            ) by {
                if k < i - idx {
                    assert(ds[k] == s@[idx + k]);
                } else {
                    assert(ds[k] == s@[fstart + (k - (i - idx))]);
                }
            }
            assert forall|k: int| 0 <= k < ds.len() implies is_digit(#[trigger] ds[k]) by {
                if k < i - idx {
                    assert(ds[k] == s@[idx + k]);
                } else {
                    assert(ds[k] == s@[fstart + (k - (i - idx))]);
                }
            }
            assert(zero == (all_zeros(int_digits(m)) && all_zeros(frac_digits(m))));
        }
        // At least one mantissa digit is required.
        if dvals.len() == 0 {
            return Err(ParseNonNegativeFloatError::NotANumber);
        }
        // The exponent part, when a marker is present: an optional sign, then
        // at least one digit, its value tracked with saturation.
        let mut exp_neg = false;
        let mut eval: u128 = 0;
        if t < n {
            let mut k = t + 1;
            if k < n {
                let ck = s.get_char(k);
                if ck == '+' {
                    k = k + 1;
                } else if ck == '-' {
                    exp_neg = true;
                    k = k + 1;
                }
            }
            let est = k;
            proof {
                assert(exp_text(u) =~= s@.subrange(t + 1, n as int));
                assert(est == t + 1 + sign_len(exp_text(u)));
                assert(exp_digits(u) =~= s@.subrange(est as int, n as int));
                assert(exp_neg == (exp_text(u).len() > 0 && exp_text(u)[0] == '-'));
                assert(s@.subrange(est as int, est as int) =~= Seq::<char>::empty());
            }
            if est == n {
                // A marker with no digits after it.
                return Err(ParseNonNegativeFloatError::NotANumber);
            }
            while k < n
                invariant
                    est <= k <= n,
                    n == s@.len(),
                    u == unsigned_part(s@),
                    exp_digits(u) =~= s@.subrange(est as int, n as int),
                    est <= n,
                    forall|kk: int| est <= kk < k ==> is_digit(s@[kk]),
                    eval == (if digits_val(s@.subrange(est as int, k as int)) > EXP_CAP {
                        EXP_CAP as nat
                    } else {
                        digits_val(s@.subrange(est as int, k as int))
                    }),
                decreases n - k,
            {
                let c = s.get_char(k);
                let d = match digit_of(c) {
                    Some(d) => d,
                    None => {
                        proof {
                            assert(exp_digits(u)[k - est] == s@[k as int]);
                            assert(!all_digits(exp_digits(u)));
                        }
                        return Err(ParseNonNegativeFloatError::NotANumber);
                    },
                };
                proof {
                    let pre = s@.subrange(est as int, k as int);
                    let pre1 = s@.subrange(est as int, k as int + 1);
                    assert(pre1.drop_last() =~= pre);
                    assert(pre1.last() == s@[k as int]);
                    assert(digits_val(pre1) == 10 * digits_val(pre) + digit_val(s@[k as int]));
                }
                let grow = eval * 10 + (d as u128);
                eval = if grow > EXP_CAP {
                    EXP_CAP
                } else {
                    grow
                };
                k = k + 1;
            }
            proof {
                assert(s@.subrange(est as int, n as int) =~= exp_digits(u));
                assert(all_digits(exp_digits(u)));
                assert(exp_digits(u).len() >= 1);
            }
        }
        proof {
            assert(is_decimal_number(s@));
        }
        // A sign of `-` with any nonzero mantissa digit means a value below
        // zero.
        if neg && !zero {
            return Err(ParseNonNegativeFloatError::Negative);
        }
        proof {
            assert(!is_negative_number(s@));
        }
        // The value in milliseconds, from the point position.
        let il = i - idx;
        proof {
            assert(il == int_digits(m).len());
        }
        let millis = saturated_millis(&dvals, il, exp_neg, eval, Ghost(s@));
        Ok(NonNegativeInterval { millis })
    }
}

/// The clamped millisecond value of a validated numeral, from its collected
/// mantissa digit values, its integer-digit count, and its exponent tracked
/// with saturation.
fn saturated_millis(
    dvals: &Vec<u64>,
    il: usize,
    exp_neg: bool,
    eval: u128,
    Ghost(s): Ghost<Seq<char>>,
) -> (v: u64)
    requires
        ({
            let u = unsigned_part(s);
            let m = mantissa(u);
            let ds = mant_digits(m);
            &&& il == int_digits(m).len()
            &&& dvals@.len() == ds.len()
            &&& (forall|k: int| 0 <= k < ds.len() ==> #[trigger] dvals@[k] == digit_val(ds[k]))
            &&& (forall|k: int| 0 <= k < ds.len() ==> is_digit(#[trigger] ds[k]))
            &&& (if has_exp(u) {
                &&& eval == (if digits_val(exp_digits(u)) > EXP_CAP {
                    EXP_CAP as nat
                } else {
                    digits_val(exp_digits(u))
                })
                &&& exp_neg == (exp_text(u).len() > 0 && exp_text(u)[0] == '-')
            } else {
                eval == 0 && !exp_neg
            })
        }),
    ensures
        v == clamped_millis(s),
{
    let ghost u = unsigned_part(s);
    let ghost m = mantissa(u);
    let ghost ds = mant_digits(m);
    let l = dvals.len();
    let e_signed: i128 = if exp_neg {
        -(eval as i128)
    } else {
        eval as i128
    };
    let p: i128 = (il as i128) + 3 + e_signed;
    let ghost etrue: int = exp_val(u);
    let ghost ptrue: int = point_pos(s);
    proof {
        if has_exp(u) {
            let dvx = digits_val(exp_digits(u));
            if exp_neg {
                assert(etrue == -(dvx as int));
            } else {
                assert(etrue == dvx as int);
            }
        } else {
            assert(etrue == 0);
        }
        assert(ptrue == il + 3 + etrue);
        assert(l == ds.len());
        assert(l <= u64::MAX);
    }
    if p <= 0 {
        proof {
            // The point lies at or before the first digit. A positive
            // exponent makes p positive, so the exponent is negative
            // here, and saturation only moves the true point further
            // left.
            assert(ptrue <= p);
            assert(spec_millis(s) == 0);
        }
        return 0;
    }
    if p >= l as i128 {
        let val = digits_prefix_val(&dvals, l, Ghost(ds));
        proof {
            assert(ds.take(l as int) =~= ds);
            // A saturated negative exponent would put p below zero, so
            // here either the exponent is exact, or it saturated upward
            // and both the true and the tracked point lie far past the
            // digits.
            if exp_neg {
                assert(etrue == e_signed);
                assert(ptrue == p);
            }
        }
        if val == 0 {
            proof {
                assert(digits_val(ds) == 0);
                if ptrue >= ds.len() {
                    assert(spec_millis(s) == digits_val(ds) * pow10(
                        (ptrue - ds.len()) as nat,
                    ));
                    assert(spec_millis(s) == 0);
                } else if ptrue <= 0 {
                    assert(spec_millis(s) == 0);
                } else {
                    assert(digits_val(ds.take(ptrue)) <= digits_val(ds) == 0) by {
                        lemma_digits_val_take_le(ds, ptrue);
                    }
                    assert(spec_millis(s) == 0);
                }
            }
            return 0;
        }
        let shift_big: i128 = p - (l as i128);
        if shift_big >= 20 {
            proof {
                assert(digits_val(ds) >= 1);
                assert(ptrue - l >= 20);
                lemma_pow10_monotone(20, (ptrue - l) as nat);
                lemma_pow10_20_large();
                assert(digits_val(ds) * pow10((ptrue - l) as nat) >= pow10(
                    (ptrue - l) as nat,
                )) by (nonlinear_arith)
                    requires
                        digits_val(ds) >= 1,
                        pow10((ptrue - l) as nat) >= 1,
                ;
                assert(spec_millis(s) > u64::MAX);
            }
            return u64::MAX;
        }
        proof {
            // Saturation would have sent the shift past the cutoff, so
            // the tracked point is exact here.
            assert(ptrue == p);
        }
        let shift: u64 = shift_big as u64;
        let mut val2 = val;
        let mut q: u64 = 0;
        proof {
            assert(pow10(0) == 1);
        }
        while q < shift
            invariant
                q <= shift,
                shift < 20,
                digits_val(ds) >= 1,
                val2 == (if digits_val(ds) * pow10(q as nat) > u64::MAX {
                    u64::MAX as nat
                } else {
                    digits_val(ds) * pow10(q as nat)
                }),
            decreases shift - q,
        {
            let next = match val2.checked_mul(10) {
                Some(x) => x,
                None => u64::MAX,
            };
            proof {
                let dv = digits_val(ds);
                assert(pow10((q + 1) as nat) == 10 * pow10(q as nat));
                assert(dv * pow10((q + 1) as nat) == 10 * (dv * pow10(q as nat)))
                    by (nonlinear_arith);
                lemma_pow10_monotone(0, q as nat);
                assert(dv * pow10(q as nat) >= 1) by (nonlinear_arith)
                    requires
                        dv >= 1,
                        pow10(q as nat) >= 1,
                ;
            }
            val2 = next;
            q = q + 1;
        }
        proof {
            assert(spec_millis(s) == digits_val(ds) * pow10((ptrue - ds.len()) as nat));
            assert(val2 == clamped_millis(s));
        }
        return val2;
    }
    proof {
        // The point lies strictly inside the digits; a saturated
        // exponent in either direction would have left this range, so
        // the tracked point is exact.
        assert(ptrue == p);
    }
    let pu: usize = p as usize;
    proof {
        assert(0 < p < l as i128);
        assert(pu as int == p as int);
        assert(pu <= dvals@.len());
    }
    let val = digits_prefix_val(dvals, pu, Ghost(ds));
    proof {
        assert(spec_millis(s) == digits_val(ds.take(ptrue)));
        assert(val == clamped_millis(s));
    }
    val
}

proof fn lemma_digits_val_take_le(ds: Seq<char>, p: int)
    requires
        0 <= p <= ds.len(),
    ensures
        digits_val(ds.take(p)) <= digits_val(ds),
    decreases ds.len() - p,
{
    if p < ds.len() {
        lemma_digits_val_take_le(ds, p + 1);
        let pre = ds.take(p);
        let pre1 = ds.take(p + 1);
        assert(pre1.drop_last() =~= pre);
        assert(digits_val(pre1) == 10 * digits_val(pre) + digit_val(pre1.last()));
    } else {
        assert(ds.take(p) =~= ds);
    }
}

} // verus!
