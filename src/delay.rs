//! Artificial per-request latency: a fixed value or an inclusive range of
//! milliseconds, parsed from text such as `"100"` or `"30-150"`.

use rand::Rng;
use vstd::prelude::*;
use vstd::string::StringSliceAdditionalSpecFns;

verus! {

/// ASCII code of `'-'`, the separator of a `min-max` range.
pub const DASH: u8 = 45;

/// ASCII code of `'+'`, an optional sign before a decimal number.
pub const PLUS: u8 = 43;

pub open spec fn is_digit(c: u8) -> bool {
    48 <= c <= 57
}

pub open spec fn all_digits(s: Seq<u8>) -> bool {
    forall|i: int| 0 <= i < s.len() ==> is_digit(#[trigger] s[i])
}

/// The number written by a sequence of decimal digits, most significant first.
pub open spec fn digits_value(s: Seq<u8>) -> int
    decreases s.len(),
{
    if s.len() == 0 {
        0
    } else {
        digits_value(s.drop_last()) * 10 + (s.last() - 48)
    }
}

/// The value of `s` read as an unsigned 64-bit decimal number: an optional
/// `+`, then at least one digit, and a value that fits in 64 bits.
pub open spec fn decimal_u64(s: Seq<u8>) -> Option<u64> {
    let d = if s.len() > 0 && s[0] == PLUS {
        s.drop_first()
    } else {
        s
    };
    if d.len() > 0 && all_digits(d) && digits_value(d) <= u64::MAX {
        Some(digits_value(d) as u64)
    } else {
        None
    }
}

pub open spec fn dash_free(s: Seq<u8>) -> bool {
    forall|i: int| 0 <= i < s.len() ==> #[trigger] s[i] != DASH
}

/// `k` is the position of the one and only dash in `s`.
pub open spec fn single_dash_at(s: Seq<u8>, k: int) -> bool {
    &&& 0 <= k < s.len()
    &&& s[k] == DASH
    &&& forall|i: int| 0 <= i < s.len() && i != k ==> #[trigger] s[i] != DASH
}

/// Why a delay specification was refused.
#[derive(PartialEq, Eq, Structural, Debug, Clone, Copy)]
pub enum DelayError {
    /// A range that does not split into exactly two parts at dashes.
    RangeFormat,
    /// The part before the dash is not a decimal number.
    InvalidMin,
    /// The part after the dash is not a decimal number.
    InvalidMax,
    /// A range whose minimum is not strictly below its maximum.
    MinNotBelowMax,
    /// A single value that is not a decimal number.
    InvalidValue,
}

/// What a delay specification denotes: the bounds `(min, max)` in
/// milliseconds, or the reason it is refused.
pub open spec fn delay_spec(s: Seq<u8>) -> Result<(u64, u64), DelayError> {
    if dash_free(s) {
        match decimal_u64(s) {
            Some(v) => Ok((v, v)),
            None => Err(DelayError::InvalidValue),
        }
    } else if exists|k: int| single_dash_at(s, k) {
        let k = choose|k: int| single_dash_at(s, k);
        match (decimal_u64(s.subrange(0, k)), decimal_u64(s.subrange(k + 1, s.len() as int))) {
            (None, _) => Err(DelayError::InvalidMin),
            (Some(_), None) => Err(DelayError::InvalidMax),
            (Some(lo), Some(hi)) => if lo < hi {
                Ok((lo, hi))
            } else {
                Err(DelayError::MinNotBelowMax)
            },
        }
    } else {
        Err(DelayError::RangeFormat)
    }
}

proof fn lemma_digits_value_nonneg(s: Seq<u8>)
    requires
        all_digits(s),
    ensures
        digits_value(s) >= 0,
    decreases s.len(),
{
    if s.len() > 0 {
        lemma_digits_value_nonneg(s.drop_last());
    }
}

/// Reading more digits never makes the number smaller.
proof fn lemma_digits_value_prefix(s: Seq<u8>, m: int)
    requires
        all_digits(s),
        0 <= m <= s.len(),
    ensures
        digits_value(s.subrange(0, m)) <= digits_value(s),
    decreases s.len(),
{
    if m < s.len() {
        lemma_digits_value_nonneg(s.drop_last());
        lemma_digits_value_prefix(s.drop_last(), m);
        assert(s.drop_last().subrange(0, m) =~= s.subrange(0, m));
    } else {
        assert(s.subrange(0, m) =~= s);
    }
}

/// Reads `b[lo..hi]` as an unsigned decimal number.
fn parse_decimal(b: &[u8], lo: usize, hi: usize) -> (r: Option<u64>)
    requires
        lo <= hi <= b@.len(),
    ensures
        r == decimal_u64(b@.subrange(lo as int, hi as int)),
{
    let ghost s = b@.subrange(lo as int, hi as int);
    let mut start: usize = lo;
    if lo < hi && b[lo] == PLUS {
        start = lo + 1;
        assert(s.drop_first() =~= b@.subrange(start as int, hi as int));
    } else {
        assert(s =~= b@.subrange(start as int, hi as int));
    }
    let ghost d = b@.subrange(start as int, hi as int);
    assert(d == (if s.len() > 0 && s[0] == PLUS {
        s.drop_first()
    } else {
        s
    }));
    if start == hi {
        return None;
    }
    let mut acc: u64 = 0;
    let mut i: usize = start;
    while i < hi
        invariant
            lo <= start <= i <= hi <= b@.len(),
            d == b@.subrange(start as int, hi as int),
            s == b@.subrange(lo as int, hi as int),
            d == (if s.len() > 0 && s[0] == PLUS {
                s.drop_first()
            } else {
                s
            }),
            all_digits(b@.subrange(start as int, i as int)),
            acc as int == digits_value(b@.subrange(start as int, i as int)),
        decreases hi - i,
    {
        let c = b[i];
        if c < 48 || c > 57 {
            assert(!is_digit(d[i - start]));
            return None;
        }
        let ghost prev = b@.subrange(start as int, i as int);
        let ghost next = b@.subrange(start as int, i + 1);
        assert(next.drop_last() =~= prev);
        assert(all_digits(next));
        let digit = (c - 48) as u64;
        match acc.checked_mul(10) {
            Some(t) => match t.checked_add(digit) {
                Some(v) => {
                    acc = v;
                },
                None => {
                    proof {
                        assert(d.subrange(0, i + 1 - start) =~= next);
                        if all_digits(d) {
                            lemma_digits_value_prefix(d, i + 1 - start);
                        }
                    }
                    return None;
                },
            },
            None => {
                proof {
                    lemma_digits_value_nonneg(prev);
                    assert(d.subrange(0, i + 1 - start) =~= next);
                    if all_digits(d) {
                        lemma_digits_value_prefix(d, i + 1 - start);
                    }
                }
                return None;
            },
        }
        i = i + 1;
    }
    assert(b@.subrange(start as int, i as int) =~= d);
    Some(acc)
}

/// The artificial latency applied to each request, in milliseconds.
#[derive(Debug, Clone, Copy)]
pub struct DelayConfig {
    min: u64,
    max: u64,
}

impl View for DelayConfig {
    type V = (u64, u64);

    /// The bounds `(min, max)` of the delay.
    closed spec fn view(&self) -> (u64, u64) {
        (self.min, self.max)
    }
}

impl DelayConfig {
    #[verifier::type_invariant]
    spec fn bounds_ordered(&self) -> bool {
        self.min <= self.max
    }

    /// Parses `"delay"` (a fixed value) or `"min-max"` (a range with
    /// `min < max`).
    pub fn parse(delay_str: &str) -> (r: Result<DelayConfig, DelayError>)
        ensures
            match r {
                Ok(c) => delay_spec(delay_str.spec_bytes()) == Ok::<(u64, u64), DelayError>(c@),
                Err(e) => delay_spec(delay_str.spec_bytes()) == Err::<(u64, u64), DelayError>(e),
            },
    {
        let b = delay_str.as_bytes();
        let n = b.len();
        let ghost s = b@;
        let mut first: usize = n;
        let mut second: usize = n;
        let mut i: usize = 0;
        while i < n
            invariant
                i <= n == s.len(),
                s == b@,
                first == n || (first < i && s[first as int] == DASH),
                second == n || (first < second < i && s[second as int] == DASH),
                first == n ==> second == n,
                second == n ==> forall|j: int| 0 <= j < i && j != first ==> s[j] != DASH,
            decreases n - i,
        {
            if b[i] == DASH {
                if first == n {
                    first = i;
                } else if second == n {
                    second = i;
                }
            }
            i = i + 1;
        }
        if first == n {
            assert(s.subrange(0, n as int) =~= s);
            return match parse_decimal(b, 0, n) {
                Some(v) => Ok(DelayConfig { min: v, max: v }),
                None => Err(DelayError::InvalidValue),
            };
        }
        assert(!dash_free(s));
        if second < n {
            assert forall|k: int| !single_dash_at(s, k) by {
                if single_dash_at(s, k) {
                    if k == first {
                        assert(s[second as int] != DASH);
                    } else {
                        assert(s[first as int] != DASH);
                    }
                }
            }
            return Err(DelayError::RangeFormat);
        }
        assert(single_dash_at(s, first as int));
        assert(forall|k: int| single_dash_at(s, k) ==> k == first);
        let lo = parse_decimal(b, 0, first);
        let hi = parse_decimal(b, first + 1, n);
        match lo {
            None => Err(DelayError::InvalidMin),
            Some(lo) => match hi {
                None => Err(DelayError::InvalidMax),
                Some(hi) => {
                    if lo < hi {
                        Ok(DelayConfig { min: lo, max: hi })
                    } else {
                        Err(DelayError::MinNotBelowMax)
                    }
                },
            },
        }
    }

    /// Lower bound of the delay, in milliseconds.
    pub fn min(&self) -> (r: u64)
        ensures
            r == self@.0,
    {
        self.min
    }

    /// Upper bound of the delay, in milliseconds.
    pub fn max(&self) -> (r: u64)
        ensures
            r == self@.1,
    {
        self.max
    }

    /// Draws the delay for one request: the fixed value, or a uniformly
    /// random value of the inclusive range.
    pub fn get_delay(&self) -> (r: u64)
        ensures
            self@.0 <= r <= self@.1,
            self@.0 == self@.1 ==> r == self@.0,
    {
        proof {
            use_type_invariant(self);
        }
        if self.min == self.max {
            self.min
        } else {
            random_between(self.min, self.max)
        }
    }
}

/// Relies on `rand::Rng::random_range` over the thread-local generator of
/// `rand::rng()`: for a non-empty inclusive range it returns a value inside it.
#[verifier::external_body]
fn random_between(lo: u64, hi: u64) -> (r: u64)
    requires
        lo <= hi,
    ensures
        lo <= r <= hi,
{
    rand::rng().random_range(lo..=hi)
}

} // verus!
