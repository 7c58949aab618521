use vstd::prelude::*;
use vstd::string::*;

verus! {

/// Why a time string was rejected: it was not a decimal count of
/// nanoseconds that fits the time representation.
#[derive(PartialEq, Eq, Structural, Clone, Copy, Debug)]
pub enum TimeParseError {
    InvalidFormat,
}

/// The character is one of the decimal digits `'0'` through `'9'`.
pub open spec fn is_decimal_digit(c: char) -> bool {
    48 <= c as u32 <= 57
}

/// The numeric value of a decimal digit.
pub open spec fn digit_val(c: char) -> int {
    c as u32 - 48
}

/// The number a sequence of decimal digits denotes, most significant
/// digit first.
pub open spec fn digits_value(s: Seq<char>) -> int
    decreases s.len(),
{
    if s.len() == 0 {
        0
    } else {
        digits_value(s.drop_last()) * 10 + digit_val(s.last())
    }
}

/// Every character of the sequence is a decimal digit.
pub open spec fn all_decimal_digits(s: Seq<char>) -> bool {
    forall|i: int| 0 <= i < s.len() ==> is_decimal_digit(#[trigger] s[i])
}

/// The strings that denote a time: non-empty, all digits, and a value
/// that fits in 64-bit nanoseconds.
pub open spec fn valid_time_str(s: Seq<char>) -> bool {
    &&& s.len() > 0
    &&& all_decimal_digits(s)
    &&& digits_value(s) <= u64::MAX
}

proof fn lemma_digits_value_nonneg(s: Seq<char>)
    requires
        all_decimal_digits(s),
    ensures
        digits_value(s) >= 0,
    decreases s.len(),
{
    if s.len() > 0 {
        assert(all_decimal_digits(s.drop_last()));
        lemma_digits_value_nonneg(s.drop_last());
    }
}

/// A prefix of a digit string never denotes more than the whole string.
proof fn lemma_digits_value_prefix_le(s: Seq<char>, k: int)
    requires
        all_decimal_digits(s),
        0 <= k <= s.len(),
    ensures
        digits_value(s.subrange(0, k)) <= digits_value(s),
    decreases s.len() - k,
{
    if k == s.len() {
        assert(s.subrange(0, k) =~= s);
    } else {
        lemma_digits_value_prefix_le(s, k + 1);
        let pre = s.subrange(0, k + 1);
        assert(pre.drop_last() =~= s.subrange(0, k));
        assert(all_decimal_digits(s.subrange(0, k)));
        lemma_digits_value_nonneg(s.subrange(0, k));
    }
}

/// Simulated time: a non-negative count of whole nanoseconds.
///
/// Simulated time is a pure value; it only ever moves forward in the
/// simulation, and subtraction is only applied where the left operand is
/// known to be at least the right one.
#[derive(PartialEq, Eq, Structural, Hash, Clone, Copy, Debug)]
pub struct Time(pub u64);

impl Time {
    /// Exact addition of two times.
    pub fn add(self, other: Time) -> (r: Time)
        requires
            self.0 + other.0 <= u64::MAX,
        ensures
            r.0 == self.0 + other.0,
    {
        Time(self.0 + other.0)
    }

    /// Parse a decimal string of whole nanoseconds.  Succeeds exactly on
    /// the non-empty all-digit strings whose value fits; anything else is
    /// an invalid format.
    pub fn from_str(s: &str) -> (r: Result<Time, TimeParseError>)
        ensures
            r is Ok <==> valid_time_str(s@),
            r matches Ok(t) ==> t.0 == digits_value(s@),
    {
        let n = s.unicode_len();
        if n == 0 {
            return Err(TimeParseError::InvalidFormat);
        }
        let mut val: u64 = 0;
        let mut i: usize = 0;
        proof {
            assert(s@.subrange(0, 0) =~= Seq::<char>::empty());
        }
        while i < n
            invariant
                0 < n == s@.len(),
                0 <= i <= n,
                forall|j: int| 0 <= j < i ==> is_decimal_digit(#[trigger] s@[j]),
                val == digits_value(s@.subrange(0, i as int)),
            decreases n - i,
        {
            let c = s.get_char(i);
            let cv = c as u32;
            if cv < 48 || cv > 57 {
                return Err(TimeParseError::InvalidFormat);
            }
            let d = (cv - 48) as u64;
            if val > (u64::MAX - d) / 10 {
                proof {
                    let full = s@;
                    if all_decimal_digits(full) {
                        let pre = full.subrange(0, i + 1);
                        assert(pre.drop_last() =~= full.subrange(0, i as int));
                        assert(pre.last() == full[i as int]);
                        assert(all_decimal_digits(pre));
                        assert(digits_value(pre) == val * 10 + d);
                        assert(val * 10 + d > u64::MAX) by (nonlinear_arith)
                            requires
                                val > (u64::MAX - d) / 10,
                                0 <= d <= 9,
                        ;
                        lemma_digits_value_prefix_le(full, i + 1);
                    }
                }
                return Err(TimeParseError::InvalidFormat);
            }
            proof {
                let pre = s@.subrange(0, i + 1);
                assert(pre.drop_last() =~= s@.subrange(0, i as int));
                assert(pre.last() == s@[i as int]);
                assert(val * 10 + d <= u64::MAX) by (nonlinear_arith)
                    requires
                        val <= (u64::MAX - d) / 10,
                        0 <= d <= 9,
                ;
            }
            val = val * 10 + d;
            i = i + 1;
        }
        proof {
            assert(s@.subrange(0, n as int) =~= s@);
        }
        Ok(Time(val))
    }

    /// Exact subtraction; the left operand must be the later time.
    pub fn sub(self, other: Time) -> (r: Time)
        requires
            other.0 <= self.0,
        ensures
            r.0 == self.0 - other.0,
    {
        Time(self.0 - other.0)
    }
}

} // verus!
